use crazy_portal::checked_portal::{CheckedAction, CheckedEvent, CheckedSession, CheckedStage};
use crazy_portal::portal::{reauth_mode, ReauthMode, Stream};

fn sent(a: &CheckedAction, want: Stream) -> String {
    match a {
        CheckedAction::Send { stream, bytes } => {
            assert_eq!(*stream, want);
            String::from_utf8(bytes.clone()).unwrap()
        }
        other => panic!("expected a send, got {:?}", other),
    }
}

fn buffer(text: &str) -> Vec<u8> {
    let mut b = vec![0u8; 1500];
    b[..text.len()].copy_from_slice(text.as_bytes());
    b
}

fn failure(a: CheckedAction) -> (String, bool) {
    match a {
        CheckedAction::Fail { message, close_portal } => (message, close_portal),
        other => panic!("expected a failure, got {:?}", other),
    }
}

const REDIRECT: &str = "HTTP/1.1 302 Moved Temporarily\r\n\
    Location: http://100.100.1.32/portal?wlanuserip=10.0.0.9&ssid=a%20b&wlanacname=ac&devicetype=X(1)\r\n\r\n";
const TOKEN: &str = "HTTP/1.1 302 Found\r\nLocation: http://100.100.1.32/ok?token=abc\r\nSet-Cookie: s=1\r\n\r\n";

fn session() -> CheckedSession {
    CheckedSession::new(3, "user7".to_string(), "pw".to_string(), "100.100.1.32:80".to_string(), false, 0)
}

fn at_redirect_reply(s: &mut CheckedSession) {
    s.step(CheckedEvent::Started);
    s.step(CheckedEvent::Sent);
}

#[test]
fn checked_full_session() {
    let mut s = session();
    let a = s.step(CheckedEvent::Started);
    let first = "GET / HTTP/1.1\r\nHost: 100.100.1.32:80\r\nConnection: keep-alive\r\nUser-Agent: ZJB:CRAZY_PORTAL_AGENT\r\n\r\n";
    assert_eq!(sent(&a, Stream::Redirect), first);
    assert!(matches!(s.step(CheckedEvent::Sent), CheckedAction::Receive { stream: Stream::Redirect }));
    assert_eq!(sent(&s.step(CheckedEvent::Received { count: Some(0), buffer: vec![0; 1500] }), Stream::Redirect), first);
    assert!(matches!(s.step(CheckedEvent::Sent), CheckedAction::Receive { stream: Stream::Redirect }));
    assert!(matches!(
        s.step(CheckedEvent::Received { count: Some(REDIRECT.len()), buffer: buffer(REDIRECT) }),
        CheckedAction::Close { stream: Stream::Redirect }
    ));
    let auth = "GET /portal/Auth.do?wlanuserip=10.0.0.9&wlanuseripv6=&wlanusermac=&wlanacname=ac&ssid=a%20b&srcurl=&osType=Linux64 HTTP/1.1\r\n\
                Host: 100.100.1.32\r\nConnection: keep-alive\r\nUser-Agent: ZJB:CRAZY_PORTAL_AGENT\r\n\r\n";
    assert_eq!(sent(&s.step(CheckedEvent::Closed), Stream::Portal), auth);
    assert!(matches!(s.step(CheckedEvent::Sent), CheckedAction::Receive { stream: Stream::Portal }));
    assert_eq!(sent(&s.step(CheckedEvent::Received { count: Some(0), buffer: vec![0; 1500] }), Stream::Portal), auth);
    s.step(CheckedEvent::Sent);
    let a = s.step(CheckedEvent::Received { count: Some(TOKEN.len()), buffer: buffer(TOKEN) });
    assert_eq!(
        sent(&a, Stream::Portal),
        "GET /portal/Auth.do?method=doAuth&siteid=1&account=user7&password=pw&token=abc HTTP/1.1\r\n\
         Host: 100.100.1.32\r\nConnection: keep-alive\r\nUser-Agent: ZJB:CRAZY_PORTAL_AGENT\r\n\r\n"
    );
    assert!(matches!(s.step(CheckedEvent::Sent), CheckedAction::Receive { stream: Stream::Portal }));
    let a = s.step(CheckedEvent::Received { count: Some(20), buffer: buffer("HTTP/1.1 200 OK\r\n\r\n{}") });
    assert!(matches!(a, CheckedAction::Close { stream: Stream::Portal }));
    assert!(matches!(s.step(CheckedEvent::Closed), CheckedAction::Finish));
    assert_eq!(s.stage, CheckedStage::Done);
}

#[test]
fn checked_session_logs_out() {
    let mut s = CheckedSession::new(0, "u".to_string(), "p".to_string(), "10.0.0.1:8080".to_string(), true, 30);
    at_status(&mut s);
    let a = s.step(CheckedEvent::Received { count: Some(20), buffer: buffer("HTTP/1.1 200 OK\r\n\r\n") });
    assert!(matches!(a, CheckedAction::Sleep { secs: 30 }));
    assert_eq!(
        sent(&s.step(CheckedEvent::Slept), Stream::Portal),
        "GET /portal/Auth.do?method=offline&siteid=1&token=abc HTTP/1.1\r\nHost: 10.0.0.1:8080\r\n\
         Connection: keep-alive\r\nUser-Agent: ZJB:CRAZY_PORTAL_AGENT\r\n\r\n"
    );
    assert!(matches!(s.step(CheckedEvent::Sent), CheckedAction::Wait { millis: 200 }));
    assert!(matches!(s.step(CheckedEvent::Slept), CheckedAction::Close { stream: Stream::Portal }));
    assert!(matches!(s.step(CheckedEvent::Closed), CheckedAction::Finish));
    assert_eq!(s.token, "abc");
}

#[test]
fn checked_redirect_must_be_moved_temporarily() {
    let mut s = session();
    at_redirect_reply(&mut s);
    s.step(CheckedEvent::Received { count: Some(5), buffer: buffer("HTTP/1.1 302 Found\r\nLocation: http://h/?a=b\r\n") });
    assert_eq!(failure(s.step(CheckedEvent::Closed)), ("explicit panic".to_string(), true));
    let mut s = session();
    at_redirect_reply(&mut s);
    s.step(CheckedEvent::Received { count: Some(5), buffer: buffer("HTTP/1.1 200 OK\r\n") });
    assert_eq!(failure(s.step(CheckedEvent::Closed)), ("explicit panic".to_string(), true));
}

#[test]
fn checked_redirect_needs_location() {
    let mut s = session();
    at_redirect_reply(&mut s);
    s.step(CheckedEvent::Received { count: Some(5), buffer: buffer("HTTP/1.1 302 Moved Temporarily\r\n\r\n") });
    assert_eq!(failure(s.step(CheckedEvent::Closed)), ("STA 3 没有找到Location头部".to_string(), true));
}

#[test]
fn checked_read_error_fails() {
    let mut s = session();
    at_redirect_reply(&mut s);
    assert_eq!(failure(s.step(CheckedEvent::Received { count: None, buffer: vec![0; 1500] })), ("explicit panic".to_string(), false));
    assert_eq!(s.stage, CheckedStage::Failed);
}

fn at_status(s: &mut CheckedSession) {
    at_redirect_reply(s);
    s.step(CheckedEvent::Received { count: Some(9), buffer: buffer(REDIRECT) });
    s.step(CheckedEvent::Closed);
    s.step(CheckedEvent::Sent);
    s.step(CheckedEvent::Received { count: Some(9), buffer: buffer(TOKEN) });
    s.step(CheckedEvent::Sent);
}

#[test]
fn checked_status_errors() {
    let mut s = session();
    at_status(&mut s);
    assert_eq!(failure(s.step(CheckedEvent::Received { count: Some(0), buffer: buffer("HTTP/1.1 500 Server Error\r\n") })).0, "HTTP STATUS ERROR 500");
    let mut s = session();
    at_status(&mut s);
    assert_eq!(failure(s.step(CheckedEvent::Received { count: Some(0), buffer: buffer("HTTP/1.1 200 Fine\r\n") })).0, "Get HTTP STATUS PHRASE ERROR Fine");
    let mut s = session();
    at_status(&mut s);
    assert_eq!(failure(s.step(CheckedEvent::Received { count: None, buffer: vec![0; 1500] })).0, "No HTTP response");
}

#[test]
fn checked_token_reply_must_be_redirect() {
    let mut s = session();
    at_redirect_reply(&mut s);
    s.step(CheckedEvent::Received { count: Some(9), buffer: buffer(REDIRECT) });
    s.step(CheckedEvent::Closed);
    s.step(CheckedEvent::Sent);
    assert_eq!(failure(s.step(CheckedEvent::Received { count: Some(9), buffer: buffer("HTTP/1.1 200 OK\r\n") })).0, "解析HTTP响应失败");
}

#[test]
fn reauth_modes() {
    assert_eq!(reauth_mode(1), ReauthMode::Nothing);
    assert_eq!(reauth_mode(0), ReauthMode::LoginAll);
    assert_eq!(reauth_mode(2), ReauthMode::Invalid);
    assert_eq!(reauth_mode(-1), ReauthMode::Invalid);
}
