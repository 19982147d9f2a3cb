//! A login session through the portal's web API: the redirect's parameters
//! go into a `/login.html` query and a JSON-RPC `portallogin` call, which
//! the portal must answer `200 OK`.

use vstd::prelude::*;
use vstd::seq_lib::lemma_concat_associative;
use vstd::utf8::encode_utf8;

use crate::boundary::{
    json_members, json_object, json_object_of, json_string, json_string_of, json_text, lossy_text,
    parse_url, query_pairs, url_parse_query, utf8_lossy,
};
use crate::checked_portal::bare_failure;
use crate::http_request::{post_body_text, post_request_text, HttpRequestPost, HttpRequestPostView};
use crate::http_response::{parse_response, parse_response_ok, HttpResponse, HttpResponseOk};
use crate::portal::{
    collect_redirect_params, device_type_message, enc, no_location_message, no_response_message,
    param_field, param_get, push_param, redirect_params, ParamMap, PortalAction, PortalActionView, PortalEvent,
    PortalEventView, Stream,
};
use crate::text::{chars_of, equals_str, push_all, push_str, string_of};

verus! {

/// Where a session through the web API stands.
#[derive(Clone, Copy, Debug, PartialEq, Eq)]
pub enum LocalStage {
    Start,
    FirstRequestSent,
    ReadingRedirect,
    LoginSent,
    AwaitingLogin,
    Resting,
    Done,
    Failed,
}

/// A login session of one user through the web API: its account, password,
/// the portal's `address:port`, and the id of its JSON-RPC call.
pub struct LocalSession {
    pub stage: LocalStage,
    pub username: String,
    pub password: String,
    pub host2: String,
    pub unique_id: String,
}

pub struct LocalView {
    pub stage: LocalStage,
    pub username: Seq<char>,
    pub password: Seq<char>,
    pub host2: Seq<char>,
    pub unique_id: Seq<char>,
}

impl View for LocalSession {
    type V = LocalView;

    open spec fn view(&self) -> LocalView {
        LocalView {
            stage: self.stage,
            username: self.username@,
            password: self.password@,
            host2: self.host2@,
            unique_id: self.unique_id@,
        }
    }
}

/// The request that starts the session: `GET /` from `1.2.3.4`, with an
/// `Accept: */*` header whose value carries its own line end.
pub open spec fn local_first_text() -> Seq<char> {
    "GET / HTTP/1.1\r\nHost: 1.2.3.4\r\nAccept: */*\r\n\r\n\r\n"@
}

/// The query of the login page, passing on the parameters of the redirect.
pub open spec fn login_query(m: Map<Seq<char>, Seq<char>>) -> Seq<char> {
    login_query_head(m) + login_query_tail(m)
}

/// The path and query of the login page.
pub open spec fn login_uri(m: Map<Seq<char>, Seq<char>>) -> Seq<char> {
    "/login.html?"@ + login_query(m)
}

/// The device type with its version in brackets.
pub open spec fn login_devicetype(m: Map<Seq<char>, Seq<char>>) -> Seq<char> {
    param_get(m, "devicetype"@) + "("@ + param_get(m, "devicetype_version"@) + ")"@
}

/// The `urls` member of the login call: the redirect's parameters.
pub open spec fn login_urls(m: Map<Seq<char>, Seq<char>>) -> Seq<(Seq<char>, serde_json::Value)> {
    seq![
        ("error_code"@, json_string_of("0"@)),
        ("wlanuserip"@, json_string_of(param_get(m, "wlanuserip"@))),
        ("wlanapname"@, json_string_of(param_get(m, "wlanapname"@))),
        ("wlanacname"@, json_string_of(param_get(m, "wlanacname"@))),
        ("wlanusermac"@, json_string_of(param_get(m, "wlanusermac"@))),
        ("wlanapip"@, json_string_of(param_get(m, "wlanapip"@))),
        ("vlan"@, json_string_of("0"@)),
        ("wlanacip"@, json_string_of(param_get(m, "wlanacip"@))),
        ("wlanapmac"@, json_string_of(param_get(m, "wlanapmac"@))),
        ("devicetype"@, json_string_of(login_devicetype(m))),
        ("apsn"@, json_string_of("=115200"@)),
    ]
}

/// The JSON-RPC `portallogin` call with id `id`.
pub open spec fn login_body(m: Map<Seq<char>, Seq<char>>, id: Seq<char>) -> serde_json::Value {
    json_object_of(
        seq![
            ("jsonrpc"@, json_string_of("2.0"@)),
            ("method"@, json_string_of("portallogin"@)),
            ("id"@, json_string_of(id)),
            (
                "params"@,
                json_object_of(
                    seq![
                        ("auth"@, json_string_of("empiMSBhMTIzNDU2"@)),
                        ("urls"@, json_object_of(login_urls(m))),
                    ],
                ),
            ),
        ],
    )
}

/// The browser the login call says it comes from.
pub open spec fn browser_agent() -> Seq<char> {
    "Mozilla/5.0 (Windows NT 10.0; Win64; x64) AppleWebKit/537.36 (KHTML, like Gecko) Chrome/109.0.0.0 Safari/537.36"@
}

/// The head of the login call to the portal at `host2`.
pub open spec fn login_post(host2: Seq<char>, m: Map<Seq<char>, Seq<char>>) -> HttpRequestPostView {
    HttpRequestPostView {
        method: "POST"@,
        request_uri: "/webapi/wireless/v1"@,
        http_version: "HTTP/1.1"@,
        connection: "keep-alive"@,
        host: host2,
        user_agent: browser_agent(),
        content_type: "application/json;charset=UTF-8"@,
        accept: "application/json, text/plain, */*"@,
        content_length: 0,
        x_requested_with: "XMLHttpRequest"@,
        mp_expect_language: "cn"@,
        origin: "http://"@ + host2,
        referer: "http://"@ + host2 + login_uri(m),
        accept_encoding: "gzip, deflate"@,
        accept_language: "zh-CN,zh;q=0.9"@,
        cookie: "sessionid=0"@,
    }
}

/// The bytes of the login call.
pub open spec fn login_bytes(host2: Seq<char>, m: Map<Seq<char>, Seq<char>>, id: Seq<char>) -> Seq<u8> {
    encode_utf8(post_request_text(login_post(host2, m), post_body_text(login_body(m, id))))
}

pub open spec fn local_at(s: LocalView, stage: LocalStage) -> LocalView {
    LocalView { stage, ..s }
}

pub open spec fn local_fail(s: LocalView, message: Seq<char>) -> (LocalView, PortalActionView) {
    (local_at(s, LocalStage::Failed), PortalActionView::Fail { message })
}

/// What the redirect's reply leads to: the login call with the redirect's
/// parameters, or failure when the reply is no response, has no location,
/// has a `devicetype` that cannot be split, or is no `302 Moved
/// Temporarily`.
pub open spec fn on_local_redirect(s: LocalView, buffer: Seq<u8>) -> (LocalView, PortalActionView) {
    let text = lossy_text(buffer);
    match parse_response(text) {
        None => local_fail(s, no_response_message()),
        Some(r) => match r.head.location {
            None => local_fail(s, no_location_message()),
            Some(loc) => {
                let params = match url_parse_query(loc) {
                    None => Some(Map::empty()),
                    Some(pairs) => redirect_params(pairs),
                };
                match params {
                    None => local_fail(s, device_type_message()),
                    Some(m) => match parse_response_ok(text) {
                        None => local_fail(s, bare_failure()),
                        Some(v) => if v.status_code != 302 || v.status_phrase
                            != "Moved Temporarily"@ {
                            local_fail(s, bare_failure())
                        } else {
                            (
                                local_at(s, LocalStage::LoginSent),
                                PortalActionView::Send {
                                    stream: Stream::Portal,
                                    bytes: login_bytes(s.host2, m, s.unique_id),
                                },
                            )
                        },
                    },
                }
            },
        },
    }
}

/// What the answer to the login call leads to: a rest of five seconds
/// when it is `200 OK`, else failure.
pub open spec fn on_local_status(s: LocalView, buffer: Seq<u8>) -> (LocalView, PortalActionView) {
    match parse_response_ok(lossy_text(buffer)) {
        None => local_fail(s, bare_failure()),
        Some(v) => if v.status_code != 200 || v.status_phrase != "OK"@ {
            local_fail(s, bare_failure())
        } else {
            (local_at(s, LocalStage::Resting), PortalActionView::Sleep { secs: 5 })
        },
    }
}

/// One step of a session through the web API. The redirect connection is
/// read until it is closed or fails; the portal connection is read once.
pub open spec fn local_step(s: LocalView, e: PortalEventView) -> (LocalView, PortalActionView) {
    match (s.stage, e) {
        (LocalStage::Start, PortalEventView::Started) => (
            local_at(s, LocalStage::FirstRequestSent),
            PortalActionView::Send { stream: Stream::Redirect, bytes: encode_utf8(local_first_text()) },
        ),
        (LocalStage::FirstRequestSent, PortalEventView::Sent) => (
            local_at(s, LocalStage::ReadingRedirect),
            PortalActionView::Receive { stream: Stream::Redirect },
        ),
        (LocalStage::ReadingRedirect, PortalEventView::Received { count, buffer }) => {
            if count matches Some(n) && n > 0 {
                (s, PortalActionView::Receive { stream: Stream::Redirect })
            } else {
                on_local_redirect(s, buffer)
            }
        },
        (LocalStage::LoginSent, PortalEventView::Sent) => (
            local_at(s, LocalStage::AwaitingLogin),
            PortalActionView::Receive { stream: Stream::Portal },
        ),
        (LocalStage::AwaitingLogin, PortalEventView::Received { count: _, buffer }) => on_local_status(
            s,
            buffer,
        ),
        (LocalStage::Resting, PortalEventView::Slept) => (
            local_at(s, LocalStage::Done),
            PortalActionView::Finish,
        ),
        _ => local_fail(s, "unexpected event"@),
    }
}

fn text_value(s: &str) -> (r: serde_json::Value)
    ensures
        r == json_string_of(s@),
{
    json_string(s.to_owned())
}

fn param_value(m: &ParamMap, k: &str) -> (r: serde_json::Value)
    ensures
        r == json_string_of(param_get(m@, k@)),
{
    json_string(m.get_or_empty(k))
}

/// The `urls` member of the login call.
fn login_urls_value(m: &ParamMap) -> (r: serde_json::Value)
    ensures
        r == json_object_of(login_urls(m@)),
{
    let mut device: Vec<char> = Vec::new();
    let t = m.get_or_empty("devicetype");
    push_str(&mut device, t.as_str());
    push_str(&mut device, "(");
    let v = m.get_or_empty("devicetype_version");
    push_str(&mut device, v.as_str());
    push_str(&mut device, ")");
    let mut u: Vec<(String, serde_json::Value)> = Vec::new();
    u.push(("error_code".to_owned(), text_value("0")));
    u.push(("wlanuserip".to_owned(), param_value(m, "wlanuserip")));
    u.push(("wlanapname".to_owned(), param_value(m, "wlanapname")));
    u.push(("wlanacname".to_owned(), param_value(m, "wlanacname")));
    u.push(("wlanusermac".to_owned(), param_value(m, "wlanusermac")));
    u.push(("wlanapip".to_owned(), param_value(m, "wlanapip")));
    u.push(("vlan".to_owned(), text_value("0")));
    u.push(("wlanacip".to_owned(), param_value(m, "wlanacip")));
    u.push(("wlanapmac".to_owned(), param_value(m, "wlanapmac")));
    u.push(("devicetype".to_owned(), json_string(string_of(&device))));
    u.push(("apsn".to_owned(), text_value("=115200")));
    assert(device@ =~= login_devicetype(m@));
    assert(json_members(u@) =~= login_urls(m@));
    json_object(u)
}

/// The JSON-RPC `portallogin` call.
fn login_body_value(m: &ParamMap, id: &String) -> (r: serde_json::Value)
    ensures
        r == login_body(m@, id@),
{
    let mut p: Vec<(String, serde_json::Value)> = Vec::new();
    p.push(("auth".to_owned(), text_value("empiMSBhMTIzNDU2")));
    p.push(("urls".to_owned(), login_urls_value(m)));
    assert(json_members(p@) =~= seq![
        ("auth"@, json_string_of("empiMSBhMTIzNDU2"@)),
        ("urls"@, json_object_of(login_urls(m@))),
    ]);
    let params = json_object(p);
    let mut b: Vec<(String, serde_json::Value)> = Vec::new();
    b.push(("jsonrpc".to_owned(), text_value("2.0")));
    b.push(("method".to_owned(), text_value("portallogin")));
    b.push(("id".to_owned(), json_string(id.clone())));
    b.push(("params".to_owned(), params));
    assert(json_members(b@) =~= seq![
        ("jsonrpc"@, json_string_of("2.0"@)),
        ("method"@, json_string_of("portallogin"@)),
        ("id"@, json_string_of(id@)),
        (
            "params"@,
            json_object_of(
                seq![
                    ("auth"@, json_string_of("empiMSBhMTIzNDU2"@)),
                    ("urls"@, json_object_of(login_urls(m@))),
                ],
            ),
        ),
    ]);
    json_object(b)
}

/// The first half of the login page's query.
pub open spec fn login_query_head(m: Map<Seq<char>, Seq<char>>) -> Seq<char> {
    "error_code="@ + enc(m, "error_code"@) + "&wlanuserip="@ + enc(m, "wlanuserip"@)
        + "&wlanapname="@ + enc(m, "wlanapname"@) + "&wlanacname="@ + enc(m, "wlanacname"@)
        + "&wlanusermac="@ + enc(m, "wlanusermac"@) + "&wlanapip="@ + enc(m, "wlanapip"@)
}

/// The second half of the login page's query.
pub open spec fn login_query_tail(m: Map<Seq<char>, Seq<char>>) -> Seq<char> {
    "&vlan="@ + enc(m, "vlan"@) + "&wlanacip="@ + enc(m, "wlanacip"@) + "&wlanapmac="@
        + enc(m, "wlanapmac"@) + "&ssid="@ + enc(m, "ssid"@) + "&nasid="@ + enc(m, "nasid"@)
        + "&devicetype="@ + enc(m, "devicetype"@) + "("@ + enc(m, "devicetype_version"@) + ")"@
        + "&apsn==115200"@
}

fn push_login_query_head(u: &mut Vec<char>, m: &ParamMap)
    ensures
        final(u)@ == old(u)@ + login_query_head(m@),
{
    let ghost base = u@;
    push_str(u, "error_code=");
    push_param(u, m, "error_code");
    push_str(u, "&wlanuserip=");
    push_param(u, m, "wlanuserip");
    push_str(u, "&wlanapname=");
    push_param(u, m, "wlanapname");
    push_str(u, "&wlanacname=");
    push_param(u, m, "wlanacname");
    push_str(u, "&wlanusermac=");
    push_param(u, m, "wlanusermac");
    push_str(u, "&wlanapip=");
    push_param(u, m, "wlanapip");
    assert(u@ =~= base + login_query_head(m@));
}

fn push_login_query_tail(u: &mut Vec<char>, m: &ParamMap)
    ensures
        final(u)@ == old(u)@ + login_query_tail(m@),
{
    let ghost base = u@;
    push_str(u, "&vlan=");
    push_param(u, m, "vlan");
    push_str(u, "&wlanacip=");
    push_param(u, m, "wlanacip");
    push_str(u, "&wlanapmac=");
    push_param(u, m, "wlanapmac");
    push_str(u, "&ssid=");
    push_param(u, m, "ssid");
    push_str(u, "&nasid=");
    push_param(u, m, "nasid");
    push_str(u, "&devicetype=");
    push_param(u, m, "devicetype");
    push_str(u, "(");
    push_param(u, m, "devicetype_version");
    push_str(u, ")");
    push_str(u, "&apsn==115200");
    assert(u@ =~= base + login_query_tail(m@));
}

/// The path and query of the login page.
fn login_uri_chars(m: &ParamMap) -> (r: Vec<char>)
    ensures
        r@ == login_uri(m@),
{
    let mut uri: Vec<char> = Vec::new();
    push_str(&mut uri, "/login.html?");
    let ghost start = uri@;
    push_login_query_head(&mut uri, m);
    push_login_query_tail(&mut uri, m);
    assert(uri@ =~= start + login_query(m@));
    uri
}

/// The bytes of the login call.
fn login_call_bytes(host2: &String, m: &ParamMap, id: &String) -> (r: Vec<u8>)
    ensures
        r@ == login_bytes(host2@, m@, id@),
{
    let uri = login_uri_chars(m);
    let mut origin: Vec<char> = Vec::new();
    push_str(&mut origin, "http://");
    push_str(&mut origin, host2.as_str());
    let mut referer = origin.clone();
    push_all(&mut referer, &uri);
    let post = HttpRequestPost {
        method: "POST".to_owned(),
        request_uri: "/webapi/wireless/v1".to_owned(),
        http_version: "HTTP/1.1".to_owned(),
        connection: "keep-alive".to_owned(),
        host: host2.clone(),
        user_agent: "Mozilla/5.0 (Windows NT 10.0; Win64; x64) AppleWebKit/537.36 (KHTML, like Gecko) Chrome/109.0.0.0 Safari/537.36".to_owned(),
        content_type: "application/json;charset=UTF-8".to_owned(),
        accept: "application/json, text/plain, */*".to_owned(),
        content_length: 0,
        x_requested_with: "XMLHttpRequest".to_owned(),
        mp_expect_language: "cn".to_owned(),
        origin: string_of(&origin),
        referer: string_of(&referer),
        accept_encoding: "gzip, deflate".to_owned(),
        accept_language: "zh-CN,zh;q=0.9".to_owned(),
        cookie: "sessionid=0".to_owned(),
        body: login_body_value(m, id),
    };
    assert(post@ == login_post(host2@, m@));
    post.to_bytes()
}

impl LocalSession {
    /// A session of a user with this account and password at the portal
    /// `host2`, whose login call has id `unique_id`; not yet started.
    pub fn new(username: String, password: String, host2: String, unique_id: String) -> (r: Self)
        ensures
            r@ == (LocalView {
                stage: LocalStage::Start,
                username: username@,
                password: password@,
                host2: host2@,
                unique_id: unique_id@,
            }),
    {
        LocalSession { stage: LocalStage::Start, username, password, host2, unique_id }
    }

    fn fail_with(&mut self, message: &str) -> (r: PortalAction)
        ensures
            (final(self)@, r@) == local_fail(old(self)@, message@),
    {
        self.stage = LocalStage::Failed;
        PortalAction::Fail { message: message.to_owned() }
    }

    fn redirect_reply(&mut self, buffer: &Vec<u8>) -> (r: PortalAction)
        ensures
            (final(self)@, r@) == on_local_redirect(old(self)@, buffer@),
    {
        let text = utf8_lossy(buffer.as_slice());
        match HttpResponse::from_raw_text(text.as_str()) {
            None => self.fail_with("解析HTTP响应失败"),
            Some(response) => match response.location {
                None => self.fail_with("没有找到Location头部"),
                Some(location) => {
                    let params = match parse_url(location.as_str()) {
                        Ok(u) => {
                            let pairs = query_pairs(&u);
                            collect_redirect_params(&pairs)
                        },
                        Err(_) => Some(ParamMap::new()),
                    };
                    match params {
                        None => self.fail_with("devicetype has ')' before '('"),
                        Some(m) => match HttpResponseOk::from_raw_text(text.as_str()) {
                            None => self.fail_with("explicit panic"),
                            Some(status) => {
                                let phrase = chars_of(status.status_phrase.as_str());
                                if status.status_code != 302 || !equals_str(
                                    &phrase,
                                    "Moved Temporarily",
                                ) {
                                    return self.fail_with("explicit panic");
                                }
                                let bytes = login_call_bytes(&self.host2, &m, &self.unique_id);
                                self.stage = LocalStage::LoginSent;
                                PortalAction::Send { stream: Stream::Portal, bytes }
                            },
                        },
                    }
                },
            },
        }
    }

    fn status_reply(&mut self, buffer: &Vec<u8>) -> (r: PortalAction)
        ensures
            (final(self)@, r@) == on_local_status(old(self)@, buffer@),
    {
        let text = utf8_lossy(buffer.as_slice());
        match HttpResponseOk::from_raw_text(text.as_str()) {
            None => self.fail_with("explicit panic"),
            Some(status) => {
                let phrase = chars_of(status.status_phrase.as_str());
                if status.status_code != 200 || !equals_str(&phrase, "OK") {
                    return self.fail_with("explicit panic");
                }
                self.stage = LocalStage::Resting;
                PortalAction::Sleep { secs: 5 }
            },
        }
    }

    /// Takes the next step of the session, as `local_step` describes.
    pub fn step(&mut self, e: PortalEvent) -> (r: PortalAction)
        ensures
            (final(self)@, r@) == local_step(old(self)@, e@),
    {
        match (self.stage, e) {
            (LocalStage::Start, PortalEvent::Started) => {
                self.stage = LocalStage::FirstRequestSent;
                let first = "GET / HTTP/1.1\r\nHost: 1.2.3.4\r\nAccept: */*\r\n\r\n\r\n";
                PortalAction::Send { stream: Stream::Redirect, bytes: first.as_bytes_vec() }
            },
            (LocalStage::FirstRequestSent, PortalEvent::Sent) => {
                self.stage = LocalStage::ReadingRedirect;
                PortalAction::Receive { stream: Stream::Redirect }
            },
            (LocalStage::ReadingRedirect, PortalEvent::Received { count, buffer }) => {
                match count {
                    Some(n) if n > 0 => PortalAction::Receive { stream: Stream::Redirect },
                    _ => self.redirect_reply(&buffer),
                }
            },
            (LocalStage::LoginSent, PortalEvent::Sent) => {
                self.stage = LocalStage::AwaitingLogin;
                PortalAction::Receive { stream: Stream::Portal }
            },
            (LocalStage::AwaitingLogin, PortalEvent::Received { count: _, buffer }) => {
                self.status_reply(&buffer)
            },
            (LocalStage::Resting, PortalEvent::Slept) => {
                self.stage = LocalStage::Done;
                PortalAction::Finish
            },
            _ => self.fail_with("unexpected event"),
        }
    }
}

proof fn lemma_login_head_fields(m: Map<Seq<char>, Seq<char>>)
    ensures
        "&"@ + login_query_head(m) == param_field(m, "error_code"@) + param_field(m, "wlanuserip"@)
            + param_field(m, "wlanapname"@) + param_field(m, "wlanacname"@)
            + param_field(m, "wlanusermac"@) + param_field(m, "wlanapip"@),
{
    reveal_strlit("&");
    reveal_strlit("=");
    reveal_strlit("error_code");
    reveal_strlit("wlanuserip");
    reveal_strlit("wlanapname");
    reveal_strlit("wlanacname");
    reveal_strlit("wlanusermac");
    reveal_strlit("wlanapip");
    reveal_strlit("error_code=");
    reveal_strlit("&wlanuserip=");
    reveal_strlit("&wlanapname=");
    reveal_strlit("&wlanacname=");
    reveal_strlit("&wlanusermac=");
    reveal_strlit("&wlanapip=");
    assert("&"@ + login_query_head(m) =~= param_field(m, "error_code"@)
        + param_field(m, "wlanuserip"@) + param_field(m, "wlanapname"@)
        + param_field(m, "wlanacname"@) + param_field(m, "wlanusermac"@)
        + param_field(m, "wlanapip"@));
}

proof fn lemma_login_tail_fields(m: Map<Seq<char>, Seq<char>>)
    ensures
        login_query_tail(m) == param_field(m, "vlan"@) + param_field(m, "wlanacip"@)
            + param_field(m, "wlanapmac"@) + param_field(m, "ssid"@) + param_field(m, "nasid"@)
            + param_field(m, "devicetype"@) + "("@ + enc(m, "devicetype_version"@) + ")"@
            + "&apsn==115200"@,
{
    reveal_strlit("&");
    reveal_strlit("=");
    reveal_strlit("vlan");
    reveal_strlit("wlanacip");
    reveal_strlit("wlanapmac");
    reveal_strlit("ssid");
    reveal_strlit("nasid");
    reveal_strlit("devicetype");
    reveal_strlit("devicetype_version");
    reveal_strlit("&vlan=");
    reveal_strlit("&wlanacip=");
    reveal_strlit("&wlanapmac=");
    reveal_strlit("&ssid=");
    reveal_strlit("&nasid=");
    reveal_strlit("&devicetype=");
    assert(login_query_tail(m) =~= param_field(m, "vlan"@) + param_field(m, "wlanacip"@)
        + param_field(m, "wlanapmac"@) + param_field(m, "ssid"@) + param_field(m, "nasid"@)
        + param_field(m, "devicetype"@) + "("@ + enc(m, "devicetype_version"@) + ")"@
        + "&apsn==115200"@);
}

/// Each field of the login page's query carries the redirect's parameter
/// of the same name, percent-encoded, in the order `error_code`,
/// `wlanuserip`, `wlanapname`, `wlanacname`, `wlanusermac`, `wlanapip`,
/// `vlan`, `wlanacip`, `wlanapmac`, `ssid`, `nasid`, `devicetype`
/// (followed by `devicetype_version` in brackets); the query ends with
/// `apsn==115200`.
pub proof fn lemma_login_query_fields(m: Map<Seq<char>, Seq<char>>)
    ensures
        "&"@ + login_query(m) == param_field(m, "error_code"@) + param_field(m, "wlanuserip"@)
            + param_field(m, "wlanapname"@) + param_field(m, "wlanacname"@)
            + param_field(m, "wlanusermac"@) + param_field(m, "wlanapip"@) + param_field(m, "vlan"@)
            + param_field(m, "wlanacip"@) + param_field(m, "wlanapmac"@) + param_field(m, "ssid"@)
            + param_field(m, "nasid"@) + param_field(m, "devicetype"@) + "("@
            + enc(m, "devicetype_version"@) + ")"@
            + "&apsn==115200"@,
{
    lemma_login_head_fields(m);
    lemma_login_tail_fields(m);
    let h = param_field(m, "error_code"@) + param_field(m, "wlanuserip"@)
        + param_field(m, "wlanapname"@) + param_field(m, "wlanacname"@)
        + param_field(m, "wlanusermac"@) + param_field(m, "wlanapip"@);
    let c0 = param_field(m, "vlan"@);
    let c1 = c0 + param_field(m, "wlanacip"@);
    let c2 = c1 + param_field(m, "wlanapmac"@);
    let c3 = c2 + param_field(m, "ssid"@);
    let c4 = c3 + param_field(m, "nasid"@);
    let c5 = c4 + param_field(m, "devicetype"@);
    let e = enc(m, "devicetype_version"@);
    lemma_concat_associative("&"@, login_query_head(m), login_query_tail(m));
    lemma_concat_associative(h, c5 + "("@ + e + ")"@, "&apsn==115200"@);
    lemma_concat_associative(h, c5 + "("@ + e, ")"@);
    lemma_concat_associative(h, c5 + "("@, e);
    lemma_concat_associative(h, c5, "("@);
    lemma_concat_associative(h, c4, param_field(m, "devicetype"@));
    lemma_concat_associative(h, c3, param_field(m, "nasid"@));
    lemma_concat_associative(h, c2, param_field(m, "ssid"@));
    lemma_concat_associative(h, c1, param_field(m, "wlanapmac"@));
    lemma_concat_associative(h, c0, param_field(m, "wlanacip"@));
}

/// The member of the login call's `urls` object named `k`, holding the
/// redirect's parameter of the same name.
pub open spec fn param_member(m: Map<Seq<char>, Seq<char>>, k: Seq<char>) -> (
    Seq<char>,
    serde_json::Value,
) {
    (k, json_string_of(param_get(m, k)))
}

/// The names of the login call's `urls` members, in order.
pub open spec fn login_url_names() -> Seq<Seq<char>> {
    seq![
        "error_code"@,
        "wlanuserip"@,
        "wlanapname"@,
        "wlanacname"@,
        "wlanusermac"@,
        "wlanapip"@,
        "vlan"@,
        "wlanacip"@,
        "wlanapmac"@,
        "devicetype"@,
        "apsn"@,
    ]
}

/// The `urls` members whose value is not the redirect's parameter of the same name.
pub open spec fn fixed_url_names() -> Seq<Seq<char>> {
    seq!["error_code"@, "vlan"@, "devicetype"@, "apsn"@]
}

/// The login call's `urls` object names, in order, `error_code`,
/// `wlanuserip`, `wlanapname`, `wlanacname`, `wlanusermac`, `wlanapip`,
/// `vlan`, `wlanacip`, `wlanapmac`, `devicetype` and `apsn`; each member
/// but `error_code`, `vlan`, `devicetype` and `apsn` holds the redirect's
/// parameter of its own name, as a JSON string. `error_code` and `vlan`
/// are `"0"`, `apsn` is `"=115200"`, and `devicetype` is the parameter
/// `devicetype` followed by `devicetype_version` in brackets.
pub proof fn lemma_login_urls_members(m: Map<Seq<char>, Seq<char>>)
    ensures
        login_urls(m).len() == 11,
        forall|i: int|
            0 <= i < login_urls(m).len() ==> (#[trigger] login_urls(m)[i]).0 == login_url_names()[i],
        forall|i: int|
            0 <= i < login_urls(m).len() && !fixed_url_names().contains(
                #[trigger] login_urls(m)[i].0,
            ) ==> login_urls(m)[i] == param_member(m, login_urls(m)[i].0),
        login_urls(m)[0].1 == json_string_of("0"@),
        login_urls(m)[6].1 == json_string_of("0"@),
        login_urls(m)[9].1 == json_string_of(
            param_get(m, "devicetype"@) + "("@ + param_get(m, "devicetype_version"@) + ")"@,
        ),
        login_urls(m)[10].1 == json_string_of("=115200"@),
{
    let u = login_urls(m);
    let names = login_url_names();
    let fixed = fixed_url_names();
    assert(u[0].0 == names[0]);
    assert(u[1].0 == names[1]);
    assert(u[2].0 == names[2]);
    assert(u[3].0 == names[3]);
    assert(u[4].0 == names[4]);
    assert(u[5].0 == names[5]);
    assert(u[6].0 == names[6]);
    assert(u[7].0 == names[7]);
    assert(u[8].0 == names[8]);
    assert(u[9].0 == names[9]);
    assert(u[10].0 == names[10]);
    assert forall|i: int| 0 <= i < u.len() && !fixed.contains(#[trigger] u[i].0) implies u[i]
        == param_member(m, u[i].0) by {
        if i == 0 {
            assert(fixed.contains(u[i].0)) by { assert(fixed[0] == u[i].0); }
        }
        if i == 1 {
            assert(u[i] == param_member(m, "wlanuserip"@));
        }
        if i == 2 {
            assert(u[i] == param_member(m, "wlanapname"@));
        }
        if i == 3 {
            assert(u[i] == param_member(m, "wlanacname"@));
        }
        if i == 4 {
            assert(u[i] == param_member(m, "wlanusermac"@));
        }
        if i == 5 {
            assert(u[i] == param_member(m, "wlanapip"@));
        }
        if i == 6 {
            assert(fixed.contains(u[i].0)) by { assert(fixed[1] == u[i].0); }
        }
        if i == 7 {
            assert(u[i] == param_member(m, "wlanacip"@));
        }
        if i == 8 {
            assert(u[i] == param_member(m, "wlanapmac"@));
        }
        if i == 9 {
            assert(fixed.contains(u[i].0)) by { assert(fixed[2] == u[i].0); }
        }
        if i == 10 {
            assert(fixed.contains(u[i].0)) by { assert(fixed[3] == u[i].0); }
        }
    }
}

} // verus!
