use crazy_portal::local_portal::{LocalSession, LocalStage};
use crazy_portal::portal::{PortalAction, PortalEvent, Stream};

fn buffer(text: &str) -> Vec<u8> {
    let mut b = vec![0u8; 1500];
    b[..text.len()].copy_from_slice(text.as_bytes());
    b
}

fn sent(a: &PortalAction, want: Stream) -> String {
    match a {
        PortalAction::Send { stream, bytes } => {
            assert_eq!(*stream, want);
            String::from_utf8(bytes.clone()).unwrap()
        }
        other => panic!("expected a send, got {:?}", other),
    }
}

fn message(a: PortalAction) -> String {
    match a {
        PortalAction::Fail { message } => message,
        other => panic!("expected a failure, got {:?}", other),
    }
}

const REDIRECT: &str = "HTTP/1.1 302 Moved Temporarily\r\n\
    Location: http://10.1.1.1/index?wlanuserip=10.0.0.9&wlanacname=ac&ssid=my%20wifi&devicetype=X(1)\r\n\r\n";

fn session() -> LocalSession {
    LocalSession::new("u".to_string(), "p".to_string(), "10.1.1.1:80".to_string(), "16700000000000.51".to_string())
}

#[test]
fn local_full_session() {
    let mut s = session();
    assert_eq!(
        sent(&s.step(PortalEvent::Started), Stream::Redirect),
        "GET / HTTP/1.1\r\nHost: 1.2.3.4\r\nAccept: */*\r\n\r\n\r\n"
    );
    assert!(matches!(s.step(PortalEvent::Sent), PortalAction::Receive { stream: Stream::Redirect }));
    assert!(matches!(
        s.step(PortalEvent::Received { count: Some(100), buffer: buffer(REDIRECT) }),
        PortalAction::Receive { stream: Stream::Redirect }
    ));
    let post = sent(&s.step(PortalEvent::Received { count: Some(0), buffer: buffer(REDIRECT) }), Stream::Portal);
    let (head, body) = post.split_once("\r\n\r\n").unwrap();
    let uri = "/login.html?error_code=&wlanuserip=10.0.0.9&wlanapname=&wlanacname=ac&wlanusermac=&wlanapip=&vlan=\
               &wlanacip=&wlanapmac=&ssid=my%20wifi&nasid=&devicetype=X(1)&apsn==115200";
    assert!(head.starts_with("POST /webapi/wireless/v1 HTTP/1.1\r\nHost: 10.1.1.1:80\r\nConnection: keep-alive\r\n"));
    assert!(head.contains(&format!("\r\nContent-Length: {}\r\n", body.len())));
    assert!(head.contains("\r\nOrigin: http://10.1.1.1:80\r\n"));
    assert!(head.contains(&format!("\r\nReferer: http://10.1.1.1:80{}\r\n", uri)));
    assert!(head.ends_with("\r\nCookie: sessionid=0"));
    let v: serde_json::Value = serde_json::from_str(body).unwrap();
    assert_eq!(v["jsonrpc"], "2.0");
    assert_eq!(v["method"], "portallogin");
    assert_eq!(v["id"], "16700000000000.51");
    assert_eq!(v["params"]["auth"], "empiMSBhMTIzNDU2");
    let urls = &v["params"]["urls"];
    assert_eq!(urls["wlanuserip"], "10.0.0.9");
    assert_eq!(urls["wlanacname"], "ac");
    assert_eq!(urls["devicetype"], "X(1)");
    assert_eq!(urls["vlan"], "0");
    assert_eq!(urls["error_code"], "0");
    assert_eq!(urls["apsn"], "=115200");
    assert_eq!(urls["wlanapmac"], "");
    assert_eq!(urls.as_object().unwrap().len(), 11);
    assert!(matches!(s.step(PortalEvent::Sent), PortalAction::Receive { stream: Stream::Portal }));
    assert!(matches!(
        s.step(PortalEvent::Received { count: Some(17), buffer: buffer("HTTP/1.1 200 OK\r\n\r\n") }),
        PortalAction::Sleep { secs: 5 }
    ));
    assert!(matches!(s.step(PortalEvent::Slept), PortalAction::Finish));
    assert_eq!(s.stage, LocalStage::Done);
}

#[test]
fn local_redirect_checks() {
    let mut s = session();
    s.step(PortalEvent::Started);
    s.step(PortalEvent::Sent);
    assert_eq!(message(s.step(PortalEvent::Received { count: None, buffer: vec![0; 1500] })), "解析HTTP响应失败");
    let mut s = session();
    s.step(PortalEvent::Started);
    s.step(PortalEvent::Sent);
    let found = "HTTP/1.1 302 Found\r\nLocation: http://h/?a=b\r\n";
    assert_eq!(message(s.step(PortalEvent::Received { count: Some(0), buffer: buffer(found) })), "explicit panic");
    let mut s = session();
    s.step(PortalEvent::Started);
    s.step(PortalEvent::Sent);
    assert_eq!(message(s.step(PortalEvent::Received { count: Some(0), buffer: buffer("HTTP/1.1 302 Moved Temporarily\r\n") })), "没有找到Location头部");
}

#[test]
fn local_login_must_be_ok() {
    let mut s = session();
    s.step(PortalEvent::Started);
    s.step(PortalEvent::Sent);
    s.step(PortalEvent::Received { count: Some(0), buffer: buffer(REDIRECT) });
    s.step(PortalEvent::Sent);
    assert_eq!(message(s.step(PortalEvent::Received { count: Some(9), buffer: buffer("HTTP/1.1 403 Forbidden\r\n") })), "explicit panic");
    assert_eq!(s.stage, LocalStage::Failed);
}
