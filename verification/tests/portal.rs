use crazy_portal::portal::{collect_redirect_params, ParamMap, PortalAction, PortalEvent, PortalSession, PortalStage, Stream};

fn sent_text(a: &PortalAction, want: Stream) -> String {
    match a {
        PortalAction::Send { stream, bytes } => {
            assert_eq!(*stream, want);
            String::from_utf8(bytes.clone()).unwrap()
        }
        other => panic!("expected a send, got {:?}", other),
    }
}

fn buffer(text: &str) -> Vec<u8> {
    let mut b = vec![0u8; 1500];
    b[..text.len()].copy_from_slice(text.as_bytes());
    b
}

const REDIRECT: &str = "HTTP/1.1 302 Moved Temporarily\r\nServer: portal\r\n\
    Location: http://100.100.1.32/portal/index.html?wlanuserip=10.1.2.3&ssid=my%20net&devicetype=AP(v2.1)&sign=a+b\r\n\r\n";

const TOKEN: &str = "HTTP/1.1 302 Found\r\nLocation: http://100.100.1.32/portal/ok.html?token=t%2F1&x=y\r\nSet-Cookie: c=1\r\n\r\n";

#[test]
fn full_session() {
    let mut s = PortalSession::new("user01".to_string(), "p@ss word".to_string());
    let a = s.step(PortalEvent::Started);
    assert_eq!(
        sent_text(&a, Stream::Redirect),
        "GET / HTTP/1.1\r\nHost: 2.2.2.2\r\nConnection: keep-alive\r\nUser-Agent: ZJB:CRAZY_PORTAL_AGENT\r\n\r\n"
    );
    assert!(matches!(s.step(PortalEvent::Sent), PortalAction::Receive { stream: Stream::Redirect }));
    assert!(matches!(
        s.step(PortalEvent::Received { count: Some(200), buffer: buffer(REDIRECT) }),
        PortalAction::Receive { stream: Stream::Redirect }
    ));
    let a = s.step(PortalEvent::Received { count: Some(0), buffer: buffer(REDIRECT) });
    assert_eq!(
        sent_text(&a, Stream::Portal),
        "GET /portal/Auth.do?error_code=&wlanuserip=10.1.2.3&wlanapname=&wlanacname=&wlanusermac=&wlanapip=&vlan=&wlanacip=\
         &wlanapmac=&ssid=my%20net&nasid=&devicetype=AP(v2.1)&apsn=&srcurl=&timestamp=&sign=a%20b&osType=Linux64 HTTP/1.1\r\n\
         Host: 100.100.1.32\r\nConnection: keep-alive\r\nUser-Agent: ZJB:CRAZY_PORTAL_AGENT\r\n\r\n"
    );
    assert!(matches!(s.step(PortalEvent::Sent), PortalAction::Receive { stream: Stream::Portal }));
    let a = s.step(PortalEvent::Received { count: Some(TOKEN.len()), buffer: buffer(TOKEN) });
    assert_eq!(
        sent_text(&a, Stream::Portal),
        "GET /portal/Auth.do?method=doAuth&siteid=1&account=user01&password=p%40ss%20word&token=t%2F1 HTTP/1.1\r\n\
         Host: 100.100.1.32\r\nConnection: keep-alive\r\nUser-Agent: ZJB:CRAZY_PORTAL_AGENT\r\n\r\n"
    );
    assert_eq!(s.token, "t/1");
    assert!(matches!(s.step(PortalEvent::Sent), PortalAction::Sleep { secs: 600 }));
    let a = s.step(PortalEvent::Slept);
    assert_eq!(
        sent_text(&a, Stream::Portal),
        "GET /portal/Auth.do?method=offline&siteid=1&token=t%2F1 HTTP/1.1\r\n\
         Host: 100.100.1.32\r\nConnection: keep-alive\r\nUser-Agent: ZJB:CRAZY_PORTAL_AGENT\r\n\r\n"
    );
    assert!(matches!(s.step(PortalEvent::Sent), PortalAction::Finish));
    assert_eq!(s.stage, PortalStage::Done);
}

fn at_redirect_reply() -> PortalSession {
    let mut s = PortalSession::new("u".to_string(), "p".to_string());
    s.step(PortalEvent::Started);
    s.step(PortalEvent::Sent);
    s
}

#[test]
fn redirect_without_response_fails() {
    let mut s = at_redirect_reply();
    match s.step(PortalEvent::Received { count: None, buffer: vec![0u8; 1500] }) {
        PortalAction::Fail { message } => assert_eq!(message, "解析HTTP响应失败"),
        other => panic!("{:?}", other),
    }
    assert_eq!(s.stage, PortalStage::Failed);
}

#[test]
fn redirect_without_location_fails() {
    let mut s = at_redirect_reply();
    match s.step(PortalEvent::Received { count: Some(0), buffer: buffer("HTTP/1.1 200 OK\r\n\r\n") }) {
        PortalAction::Fail { message } => assert_eq!(message, "没有找到Location头部"),
        other => panic!("{:?}", other),
    }
}

#[test]
fn redirect_with_bad_device_type_fails() {
    let mut s = at_redirect_reply();
    let text = "HTTP/1.1 302 Found\r\nLocation: http://h/?devicetype=a)b(c\r\n";
    match s.step(PortalEvent::Received { count: Some(0), buffer: buffer(text) }) {
        PortalAction::Fail { message } => assert_eq!(message, "devicetype has ')' before '('"),
        other => panic!("{:?}", other),
    }
}

#[test]
fn token_reply_without_code_word_fails() {
    let mut s = at_redirect_reply();
    s.step(PortalEvent::Received { count: Some(0), buffer: buffer(REDIRECT) });
    s.step(PortalEvent::Sent);
    match s.step(PortalEvent::Received { count: Some(9), buffer: buffer("HTTP/302\r\n") }) {
        PortalAction::Fail { message } => assert_eq!(message, "index out of bounds: the len is 1 but the index is 1"),
        other => panic!("{:?}", other),
    }
}

#[test]
fn token_reply_without_token_sends_empty_token() {
    let mut s = at_redirect_reply();
    s.step(PortalEvent::Received { count: Some(0), buffer: buffer(REDIRECT) });
    s.step(PortalEvent::Sent);
    let a = s.step(PortalEvent::Received { count: Some(20), buffer: buffer("HTTP/1.1 302 Found\r\n\r\n") });
    assert!(sent_text(&a, Stream::Portal).starts_with("GET /portal/Auth.do?method=doAuth&siteid=1&account=u&password=p&token= HTTP/1.1"));
}

#[test]
fn unexpected_event_fails() {
    let mut s = PortalSession::new("u".to_string(), "p".to_string());
    match s.step(PortalEvent::Sent) {
        PortalAction::Fail { message } => assert_eq!(message, "unexpected event"),
        other => panic!("{:?}", other),
    }
}

#[test]
fn device_type_split() {
    let pairs = vec![
        ("devicetype".to_string(), "AP(v2)".to_string()),
        ("a".to_string(), "1".to_string()),
        ("a".to_string(), "2".to_string()),
    ];
    let m = collect_redirect_params(&pairs).unwrap();
    assert_eq!(m.get_or_empty("devicetype"), "AP");
    assert_eq!(m.get_or_empty("devicetype_version"), "v2");
    assert_eq!(m.get_or_empty("a"), "2");
    assert_eq!(m.get_or_empty("b"), "");
    let open_only = vec![("devicetype".to_string(), "AP(v2".to_string())];
    assert_eq!(collect_redirect_params(&open_only).unwrap().get_or_empty("devicetype_version"), "v2");
    let none = vec![("devicetype".to_string(), "AP".to_string())];
    assert_eq!(collect_redirect_params(&none).unwrap().get_or_empty("devicetype"), "");
}

#[test]
fn param_map_keeps_last() {
    let mut m = ParamMap::new();
    m.insert("k".to_string(), "1".to_string());
    m.insert("j".to_string(), "x".to_string());
    m.insert("k".to_string(), "2".to_string());
    assert_eq!(m.get_or_empty("k"), "2");
    assert_eq!(m.get_or_empty("j"), "x");
}

#[test]
fn failed_session_stays_failed() {
    let mut s = PortalSession::new("u".to_string(), "p".to_string());
    s.step(PortalEvent::Slept);
    assert_eq!(s.stage, PortalStage::Failed);
    for e in [PortalEvent::Started, PortalEvent::Sent, PortalEvent::Slept] {
        assert!(matches!(s.step(e), PortalAction::Fail { .. }));
        assert_eq!(s.stage, PortalStage::Failed);
    }
}
