use crazy_portal::http_request::{HttpRequest, HttpRequestPost};
use crazy_portal::http_response::{HttpRedirectResponse, HttpResponse, HttpResponseOk};

fn request(uri: &str) -> HttpRequest {
    HttpRequest {
        method: "GET".to_string(),
        request_uri: uri.to_string(),
        http_version: "HTTP/1.1".to_string(),
        connection: "keep-alive".to_string(),
        host: "100.100.1.32".to_string(),
        user_agent: "ZJB:CRAZY_PORTAL_AGENT".to_string(),
    }
}

#[test]
fn request_bytes() {
    let bytes = request("/").to_bytes();
    assert_eq!(
        String::from_utf8(bytes).unwrap(),
        "GET / HTTP/1.1\r\nHost: 100.100.1.32\r\nConnection: keep-alive\r\nUser-Agent: ZJB:CRAZY_PORTAL_AGENT\r\n\r\n"
    );
}

#[test]
fn request_bytes_non_ascii() {
    let bytes = request("/é").to_bytes();
    assert_eq!(&bytes[4..7], &[b'/', 0xc3, 0xa9]);
}

fn post(body: serde_json::Value) -> HttpRequestPost {
    HttpRequestPost {
        method: "POST".to_string(),
        request_uri: "/webapi/wireless/v1".to_string(),
        http_version: "HTTP/1.1".to_string(),
        connection: "keep-alive".to_string(),
        host: "10.0.0.1:80".to_string(),
        user_agent: "UA".to_string(),
        content_type: "application/json;charset=UTF-8".to_string(),
        accept: "application/json, text/plain, */*".to_string(),
        content_length: 0,
        x_requested_with: "XMLHttpRequest".to_string(),
        mp_expect_language: "cn".to_string(),
        origin: "http://10.0.0.1:80".to_string(),
        referer: "http://10.0.0.1:80/login.html".to_string(),
        accept_encoding: "gzip, deflate".to_string(),
        accept_language: "zh-CN,zh;q=0.9".to_string(),
        cookie: "sessionid=0".to_string(),
        body,
    }
}

#[test]
fn post_bytes_with_json_body() {
    let mut map = serde_json::Map::new();
    map.insert("id".to_string(), serde_json::Value::String("é1".to_string()));
    let p = post(serde_json::Value::Object(map));
    let text = String::from_utf8(p.to_bytes()).unwrap();
    let expected = "POST /webapi/wireless/v1 HTTP/1.1\r\nHost: 10.0.0.1:80\r\nConnection: keep-alive\r\n\
        Content-Length: 12\r\nAccept: application/json, text/plain, */*\r\nX-Requested-With: XMLHttpRequest\r\n\
        User-Agent: UA\r\nMP-Expect-Language: cn\r\nContent-Type: application/json;charset=UTF-8\r\n\
        Origin: http://10.0.0.1:80\r\nReferer: http://10.0.0.1:80/login.html\r\nAccept-Encoding: gzip, deflate\r\n\
        Accept-Language: zh-CN,zh;q=0.9\r\nCookie: sessionid=0\r\n\r\n{\"id\":\"é1\"}";
    assert_eq!(text, expected);
    let same = String::from_utf8(p.to_bytes_with_body("{\"id\":\"é1\"}")).unwrap();
    assert_eq!(same, expected);
}

#[test]
fn response_read() {
    let text = "HTTP/1.1 302 Moved Temporarily\r\nServer: nginx\r\nConnection: close\r\n\
                Location: http://100.100.1.32/portal?wlanuserip=10.0.0.2&ssid=x\r\nContent-Type: text/html\r\n\r\n<html></html>";
    let r = HttpResponse::from_raw_text(text).unwrap();
    assert_eq!(r.response_version, "HTTP/1.1");
    assert_eq!(r.status_code, 302);
    assert_eq!(r.status_phrase, "Moved Temporarily");
    assert_eq!(r.server, "nginx");
    assert_eq!(r.connection, "close");
    assert_eq!(r.location, Some("http://100.100.1.32/portal?wlanuserip=10.0.0.2&ssid=x".to_string()));
    assert_eq!(r.content_type, "text/html");
    assert!(r.file_data.is_empty());
}

#[test]
fn response_round_trip() {
    let text = "HTTP/1.1 200 OK\r\nServer: s\r\nConnection: keep-alive\r\nContent-Type: text/plain\r\n\r\n";
    let r = HttpResponse::from_raw_text(text).unwrap();
    assert_eq!(String::from_utf8(r.to_bytes()).unwrap(), text);
}

#[test]
fn response_location_needs_url() {
    let r = HttpResponse::from_raw_text("HTTP/1.0 302 Found\nLocation: /relative\n").unwrap();
    assert_eq!(r.location, None);
    assert_eq!(r.server, "");
}

#[test]
fn response_without_status_is_none() {
    assert!(HttpResponse::from_raw_text("Server: x\r\n\r\n").is_none());
    assert!(HttpResponse::from_raw_text("HTTP/1.1 abc Found\r\n").is_none());
    assert!(HttpResponse::from_raw_text("HTTP/1.1 302\r\n").is_none());
    assert!(HttpResponse::from_raw_text("").is_none());
}

#[test]
fn response_header_values_split_at_colons() {
    let r = HttpResponse::from_raw_text("HTTP/1.1 200 OK\r\nServer: a:b\r\n").unwrap();
    assert_eq!(r.server, "a");
}

#[test]
fn redirect_read() {
    let text = "HTTP/1.1 302 Found\r\nLocation: http://100.100.1.32/portal/index.html?token=abc%20d\r\nSet-Cookie: JSESSIONID=1; Path=/\r\n\r\n";
    assert!(HttpRedirectResponse::is_readable(text));
    let r = HttpRedirectResponse::from_raw_text(text).unwrap();
    assert_eq!(r.status_code, 302);
    assert_eq!(r.location, Some("http://100.100.1.32/portal/index.html?token=abc%20d".to_string()));
    assert_eq!(r.cookie, "JSESSIONID=1; Path=/");
    assert_eq!(
        String::from_utf8(r.to_bytes()).unwrap(),
        "HTTP/1.1 302 Found\r\nLocation: Some(\"http://100.100.1.32/portal/index.html?token=abc%20d\")\r\nSet-Cookie: JSESSIONID=1; Path=/\r\n\r\n"
    );
}

#[test]
fn redirect_needs_302() {
    assert!(HttpRedirectResponse::from_raw_text("HTTP/1.1 200 OK\r\n\r\n").is_none());
    assert!(!HttpRedirectResponse::is_readable("HTTP/1.1302\r\n"));
}

#[test]
fn status_reply_read() {
    let r = HttpResponseOk::from_raw_text("HTTP/1.1 200 OK\r\nContent-Length: 2\r\n\r\n{}").unwrap();
    assert_eq!(r.response_version, "HTTP/1.1");
    assert_eq!(r.status_code, 200);
    assert_eq!(r.status_phrase, "OK");
    assert_eq!(String::from_utf8(r.to_bytes()).unwrap(), "HTTP/1.1 200 OK\r\n");
    assert!(HttpResponseOk::from_raw_text("\0\0\0").is_none());
}

#[test]
fn status_reply_joins_phrase_words() {
    let r = HttpResponseOk::from_raw_text("HTTP/1.1   302   Moved    Temporarily  \r\n").unwrap();
    assert_eq!(r.status_code, 302);
    assert_eq!(r.status_phrase, "Moved Temporarily");
}

#[test]
fn status_reply_round_trip() {
    let r = HttpResponseOk {
        response_version: "HTTP/1.0".to_string(),
        status_code: 404,
        status_phrase: "Not Found".to_string(),
        file_data: Vec::new(),
    };
    let text = String::from_utf8(r.to_bytes()).unwrap();
    assert_eq!(text, "HTTP/1.0 404 Not Found\r\n");
    let back = HttpResponseOk::from_raw_text(&text).unwrap();
    assert_eq!(back.response_version, "HTTP/1.0");
    assert_eq!(back.status_code, 404);
    assert_eq!(back.status_phrase, "Not Found");
}

#[test]
fn response_round_trip_with_location() {
    let r = HttpResponse {
        response_version: "HTTP/1.1".to_string(),
        status_code: 302,
        status_phrase: "Moved Temporarily".to_string(),
        server: "nginx/1.2".to_string(),
        connection: "".to_string(),
        location: Some("https://portal.example/login?a=b:c".to_string()),
        content_type: "text/html; charset=utf-8".to_string(),
        file_data: Vec::new(),
    };
    let text = String::from_utf8(r.to_bytes()).unwrap();
    let back = HttpResponse::from_raw_text(&text).unwrap();
    assert_eq!(back.response_version, r.response_version);
    assert_eq!(back.status_code, r.status_code);
    assert_eq!(back.status_phrase, r.status_phrase);
    assert_eq!(back.server, r.server);
    assert_eq!(back.connection, r.connection);
    assert_eq!(back.location, r.location);
    assert_eq!(back.content_type, r.content_type);
}

fn same_response(a: &HttpResponse, b: &HttpResponse) -> bool {
    a.response_version == b.response_version
        && a.status_code == b.status_code
        && a.status_phrase == b.status_phrase
        && a.server == b.server
        && a.connection == b.connection
        && a.location == b.location
        && a.content_type == b.content_type
        && a.file_data == b.file_data
}

#[test]
fn parsed_response_prints_back() {
    let text = "junk\r\nHTTP/1.1   302  Moved \t Temporarily \r\nServer:  a : b \r\n\
                Location:   http://x/y?z=1:2  \r\nContent-Type:\ttext/html\r\n\r\nbody";
    let r = HttpResponse::from_raw_text(text).unwrap();
    let printed = String::from_utf8(r.to_bytes()).unwrap();
    let back = HttpResponse::from_raw_text(&printed).unwrap();
    assert!(same_response(&r, &back));
    assert_eq!(back.server, "a");
    assert_eq!(back.status_phrase, "Moved Temporarily");
}

#[test]
fn parsed_status_reply_prints_back() {
    let r = HttpResponseOk::from_raw_text("x\nHTTP/2   500  Internal   Error\r\nServer: y\r\n").unwrap();
    let printed = String::from_utf8(r.to_bytes()).unwrap();
    assert_eq!(printed, "HTTP/2 500 Internal Error\r\n");
    let back = HttpResponseOk::from_raw_text(&printed).unwrap();
    assert_eq!(back.response_version, r.response_version);
    assert_eq!(back.status_code, r.status_code);
    assert_eq!(back.status_phrase, r.status_phrase);
}

#[test]
fn lines_that_set_nothing_change_no_response() {
    let base = "HTTP/1.1 200 OK\r\nServer: s\r\nLocation: http://a/\r\n";
    let padded = "HTTP/1.1 200 OK\r\n\r\nlocation: http://b/\r\nServer: s\r\n<html>\r\nLocation: http://a/\r\nX-Other: 1\n";
    let a = HttpResponse::from_raw_text(base).unwrap();
    let b = HttpResponse::from_raw_text(padded).unwrap();
    assert!(same_response(&a, &b));
    let c = HttpResponseOk::from_raw_text("Server: q\r\nHTTP/1.0 204 No Content\r\nhttp/9 1 x\r\n").unwrap();
    assert_eq!(c.response_version, "HTTP/1.0");
    assert_eq!(c.status_code, 204);
    assert_eq!(c.status_phrase, "No Content");
    assert!(HttpResponse::from_raw_text("\r\nserver: x\r\n").is_none());
}
