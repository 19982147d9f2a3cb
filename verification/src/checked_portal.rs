//! A login session that checks the portal's answers as it goes: the first
//! request goes to the user's portal address, a read that returns nothing
//! sends the request again, the redirect must be `302 Moved Temporarily`,
//! and the login must be answered `200 OK`.

use vstd::prelude::*;
use vstd::utf8::encode_utf8;

use crate::boundary::{
    lossy_text, parse_url, query_pairs, url_encode, url_encoded, url_parse_query, utf8_lossy,
};
use crate::http_request::request_text;
use crate::http_response::{
    parse_redirect, parse_response, parse_response_ok, redirect_readable, HttpRedirectResponse,
    HttpResponse, HttpResponseOk,
};
use crate::numtext::{decimal, push_decimal};
use crate::portal::{
    auth_path, collect_redirect_params, device_type_message, do_auth_bytes, do_auth_request, enc,
    get_request, location_token, param_field, query_field, no_response_message, pairs_map, portal_host, push_param,
    redirect_params, request_bytes, status_word_message, ParamMap, Stream,
};
use crate::text::{chars_of, equals_str, push_str, string_of};

verus! {

/// Where a checked session stands.
#[derive(Clone, Copy, Debug, PartialEq, Eq)]
pub enum CheckedStage {
    Start,
    FirstRequestSent,
    ReadingRedirect,
    ClosingRedirect,
    AuthRequestSent,
    AwaitingToken,
    DoAuthSent,
    AwaitingStatus,
    Online,
    OfflineSent,
    Pausing,
    ClosingPortal,
    Done,
    Failed,
}

/// What happened since the last action: the session began, a request was
/// written, a read returned (`count` is `None` for a read error; `buffer`
/// is the read buffer, cleared before the read), a connection was shut
/// down, or a wait is over.
pub enum CheckedEvent {
    Started,
    Sent,
    Received { count: Option<usize>, buffer: Vec<u8> },
    Closed,
    Slept,
}

pub enum CheckedEventView {
    Started,
    Sent,
    Received { count: Option<usize>, buffer: Seq<u8> },
    Closed,
    Slept,
}

impl View for CheckedEvent {
    type V = CheckedEventView;

    open spec fn view(&self) -> CheckedEventView {
        match self {
            CheckedEvent::Started => CheckedEventView::Started,
            CheckedEvent::Sent => CheckedEventView::Sent,
            CheckedEvent::Received { count, buffer } => CheckedEventView::Received {
                count: *count,
                buffer: buffer@,
            },
            CheckedEvent::Closed => CheckedEventView::Closed,
            CheckedEvent::Slept => CheckedEventView::Slept,
        }
    }
}

/// What to do next: write bytes to a connection, read from one, shut one
/// down, wait some seconds or milliseconds, give up with a message (after
/// shutting the portal connection down and waiting, where `close_portal`
/// says so), or end.
#[derive(Debug)]
pub enum CheckedAction {
    Send { stream: Stream, bytes: Vec<u8> },
    Receive { stream: Stream },
    Close { stream: Stream },
    Sleep { secs: u64 },
    Wait { millis: u64 },
    Fail { message: String, close_portal: bool },
    Finish,
}

pub enum CheckedActionView {
    Send { stream: Stream, bytes: Seq<u8> },
    Receive { stream: Stream },
    Close { stream: Stream },
    Sleep { secs: u64 },
    Wait { millis: u64 },
    Fail { message: Seq<char>, close_portal: bool },
    Finish,
}

impl View for CheckedAction {
    type V = CheckedActionView;

    open spec fn view(&self) -> CheckedActionView {
        match self {
            CheckedAction::Send { stream, bytes } => CheckedActionView::Send {
                stream: *stream,
                bytes: bytes@,
            },
            CheckedAction::Receive { stream } => CheckedActionView::Receive { stream: *stream },
            CheckedAction::Close { stream } => CheckedActionView::Close { stream: *stream },
            CheckedAction::Sleep { secs } => CheckedActionView::Sleep { secs: *secs },
            CheckedAction::Wait { millis } => CheckedActionView::Wait { millis: *millis },
            CheckedAction::Fail { message, close_portal } => CheckedActionView::Fail {
                message: message@,
                close_portal: *close_portal,
            },
            CheckedAction::Finish => CheckedActionView::Finish,
        }
    }
}

/// A checked login session of one user: its number, account, password, the
/// portal address of its first request, whether it logs out again and after
/// how many seconds, the last request sent (sent again when a read returns
/// nothing), the redirect's reply while the redirect connection is shut
/// down, and the token the portal gave.
pub struct CheckedSession {
    pub stage: CheckedStage,
    pub index: usize,
    pub username: String,
    pub password: String,
    pub host: String,
    pub offline: bool,
    pub offline_time: u64,
    pub request: Vec<u8>,
    pub reply: Vec<u8>,
    pub token: String,
}

pub struct CheckedView {
    pub stage: CheckedStage,
    pub index: usize,
    pub username: Seq<char>,
    pub password: Seq<char>,
    pub host: Seq<char>,
    pub offline: bool,
    pub offline_time: u64,
    pub request: Seq<u8>,
    pub reply: Seq<u8>,
    pub token: Seq<char>,
}

impl View for CheckedSession {
    type V = CheckedView;

    open spec fn view(&self) -> CheckedView {
        CheckedView {
            stage: self.stage,
            index: self.index,
            username: self.username@,
            password: self.password@,
            host: self.host@,
            offline: self.offline,
            offline_time: self.offline_time,
            request: self.request@,
            reply: self.reply@,
            token: self.token@,
        }
    }
}

/// The bytes of a request.
pub open spec fn request_bytes_of(uri: Seq<char>, host: Seq<char>) -> Seq<u8> {
    encode_utf8(request_text(get_request(uri, host)))
}

/// The query of the first call of the authentication service, passing on
/// the parameters of the redirect.
pub open spec fn checked_auth_query(m: Map<Seq<char>, Seq<char>>) -> Seq<char> {
    "wlanuserip="@ + enc(m, "wlanuserip"@) + "&wlanuseripv6="@ + enc(m, "wlanuseripv6"@)
        + "&wlanusermac="@ + enc(m, "wlanusermac"@) + "&wlanacname="@ + enc(m, "wlanacname"@)
        + "&ssid="@ + enc(m, "ssid"@) + "&srcurl="@ + enc(m, "srcurl"@) + "&osType=Linux64"@
}

pub open spec fn checked_at(s: CheckedView, stage: CheckedStage) -> CheckedView {
    CheckedView { stage, ..s }
}

pub open spec fn checked_fail(s: CheckedView, message: Seq<char>, close_portal: bool) -> (
    CheckedView,
    CheckedActionView,
) {
    (checked_at(s, CheckedStage::Failed), CheckedActionView::Fail { message, close_portal })
}

/// The message of a failure that gives none.
pub open spec fn bare_failure() -> Seq<char> {
    "explicit panic"@
}

/// The message when the redirect has no location.
pub open spec fn missing_location_message(index: usize) -> Seq<char> {
    "STA "@ + decimal(index as nat) + " 没有找到Location头部"@
}

/// What the redirect's reply leads to: the first call of the
/// authentication service, or failure (after shutting the portal
/// connection down) when the reply is no response, is no `302 Moved
/// Temporarily`, or has no location; or failure when its `devicetype`
/// cannot be split.
pub open spec fn on_checked_redirect(s: CheckedView, buffer: Seq<u8>) -> (
    CheckedView,
    CheckedActionView,
) {
    match parse_response(lossy_text(buffer)) {
        None => checked_fail(s, bare_failure(), true),
        Some(r) => if r.head.status_code != 302 || r.head.status_phrase != "Moved Temporarily"@ {
            checked_fail(s, bare_failure(), true)
        } else {
            match r.head.location {
                None => checked_fail(s, missing_location_message(s.index), true),
                Some(loc) => {
                    let params = match url_parse_query(loc) {
                        None => Some(Map::empty()),
                        Some(pairs) => redirect_params(pairs),
                    };
                    match params {
                        None => checked_fail(s, device_type_message(), false),
                        Some(m) => {
                            let bytes = request_bytes_of(
                                auth_path() + "?"@ + checked_auth_query(m),
                                portal_host(),
                            );
                            (
                                CheckedView { stage: CheckedStage::AuthRequestSent, request: bytes, ..s },
                                CheckedActionView::Send { stream: Stream::Portal, bytes },
                            )
                        },
                    }
                },
            }
        },
    }
}

/// What the portal's redirect with the token leads to: the login request
/// with its token, or failure when a status line has no code word or the
/// reply is no `302` redirect.
pub open spec fn on_checked_token(s: CheckedView, buffer: Seq<u8>) -> (CheckedView, CheckedActionView) {
    let text = lossy_text(buffer);
    if !redirect_readable(text) {
        checked_fail(s, status_word_message(), false)
    } else {
        match parse_redirect(text) {
            None => checked_fail(s, no_response_message(), false),
            Some(h) => {
                let token = location_token(h.location);
                let bytes = encode_utf8(request_text(do_auth_request(s.username, s.password, token)));
                (
                    CheckedView { stage: CheckedStage::DoAuthSent, request: bytes, token, ..s },
                    CheckedActionView::Send { stream: Stream::Portal, bytes },
                )
            },
        }
    }
}

/// The request that logs the user out again, sent to its portal address.
pub open spec fn checked_offline_bytes(token: Seq<char>, host: Seq<char>) -> Seq<u8> {
    request_bytes_of(
        auth_path() + "?"@ + "method=offline&siteid=1&token="@ + url_encoded(token),
        host,
    )
}

/// After the login was answered `200 OK`: wait the offline time when the
/// user logs out again, else shut the portal connection down.
pub open spec fn after_login(s: CheckedView) -> (CheckedView, CheckedActionView) {
    if s.offline {
        (checked_at(s, CheckedStage::Online), CheckedActionView::Sleep { secs: s.offline_time })
    } else {
        (checked_at(s, CheckedStage::ClosingPortal), CheckedActionView::Close { stream: Stream::Portal })
    }
}

/// What the answer to the login leads to: what `after_login` says when it
/// is `200 OK`, else failure.
pub open spec fn on_checked_status(s: CheckedView, buffer: Seq<u8>) -> (CheckedView, CheckedActionView) {
    match parse_response_ok(lossy_text(buffer)) {
        None => checked_fail(s, "No HTTP response"@, false),
        Some(v) => if v.status_code != 200 {
            checked_fail(s, "HTTP STATUS ERROR "@ + decimal(v.status_code as nat), false)
        } else if v.status_phrase != "OK"@ {
            checked_fail(s, "Get HTTP STATUS PHRASE ERROR "@ + v.status_phrase, false)
        } else {
            after_login(s)
        },
    }
}

/// One step of a checked session: from where it stands and what happened,
/// where it stands next and what to do.
pub open spec fn checked_step(s: CheckedView, e: CheckedEventView) -> (CheckedView, CheckedActionView) {
    match (s.stage, e) {
        (CheckedStage::Start, CheckedEventView::Started) => {
            let bytes = request_bytes_of("/"@, s.host);
            (
                CheckedView { stage: CheckedStage::FirstRequestSent, request: bytes, ..s },
                CheckedActionView::Send { stream: Stream::Redirect, bytes },
            )
        },
        (CheckedStage::FirstRequestSent, CheckedEventView::Sent) => (
            checked_at(s, CheckedStage::ReadingRedirect),
            CheckedActionView::Receive { stream: Stream::Redirect },
        ),
        (CheckedStage::ReadingRedirect, CheckedEventView::Received { count, buffer }) => match count {
            None => checked_fail(s, bare_failure(), false),
            Some(n) => if n == 0 {
                (
                    checked_at(s, CheckedStage::FirstRequestSent),
                    CheckedActionView::Send { stream: Stream::Redirect, bytes: s.request },
                )
            } else {
                (
                    CheckedView { stage: CheckedStage::ClosingRedirect, reply: buffer, ..s },
                    CheckedActionView::Close { stream: Stream::Redirect },
                )
            },
        },
        (CheckedStage::ClosingRedirect, CheckedEventView::Closed) => on_checked_redirect(s, s.reply),
        (CheckedStage::AuthRequestSent, CheckedEventView::Sent) => (
            checked_at(s, CheckedStage::AwaitingToken),
            CheckedActionView::Receive { stream: Stream::Portal },
        ),
        (CheckedStage::AwaitingToken, CheckedEventView::Received { count, buffer }) => match count {
            None => checked_fail(s, bare_failure(), false),
            Some(n) => if n == 0 {
                (
                    checked_at(s, CheckedStage::AuthRequestSent),
                    CheckedActionView::Send { stream: Stream::Portal, bytes: s.request },
                )
            } else {
                on_checked_token(s, buffer)
            },
        },
        (CheckedStage::DoAuthSent, CheckedEventView::Sent) => (
            checked_at(s, CheckedStage::AwaitingStatus),
            CheckedActionView::Receive { stream: Stream::Portal },
        ),
        (CheckedStage::AwaitingStatus, CheckedEventView::Received { count: _, buffer }) => on_checked_status(s, buffer),
        (CheckedStage::Online, CheckedEventView::Slept) => {
            let bytes = checked_offline_bytes(s.token, s.host);
            (
                CheckedView { stage: CheckedStage::OfflineSent, request: bytes, ..s },
                CheckedActionView::Send { stream: Stream::Portal, bytes },
            )
        },
        (CheckedStage::OfflineSent, CheckedEventView::Sent) => (
            checked_at(s, CheckedStage::Pausing),
            CheckedActionView::Wait { millis: 200 },
        ),
        (CheckedStage::Pausing, CheckedEventView::Slept) => (
            checked_at(s, CheckedStage::ClosingPortal),
            CheckedActionView::Close { stream: Stream::Portal },
        ),
        (CheckedStage::ClosingPortal, CheckedEventView::Closed) => (
            checked_at(s, CheckedStage::Done),
            CheckedActionView::Finish,
        ),
        _ => checked_fail(s, "unexpected event"@, false),
    }
}

fn checked_auth_bytes(m: &ParamMap) -> (r: Vec<u8>)
    ensures
        r@ == request_bytes_of(auth_path() + "?"@ + checked_auth_query(m@), portal_host()),
{
    let mut u: Vec<char> = Vec::new();
    push_str(&mut u, "/portal/Auth.do");
    push_str(&mut u, "?");
    let ghost prefix = u@;
    push_str(&mut u, "wlanuserip=");
    push_param(&mut u, m, "wlanuserip");
    push_str(&mut u, "&wlanuseripv6=");
    push_param(&mut u, m, "wlanuseripv6");
    push_str(&mut u, "&wlanusermac=");
    push_param(&mut u, m, "wlanusermac");
    push_str(&mut u, "&wlanacname=");
    push_param(&mut u, m, "wlanacname");
    push_str(&mut u, "&ssid=");
    push_param(&mut u, m, "ssid");
    push_str(&mut u, "&srcurl=");
    push_param(&mut u, m, "srcurl");
    push_str(&mut u, "&osType=Linux64");
    assert(u@ =~= prefix + checked_auth_query(m@));
    assert(u@ =~= auth_path() + "?"@ + checked_auth_query(m@));
    request_bytes(&u, "100.100.1.32")
}

fn offline_bytes_to(token: &String, host: &str) -> (r: Vec<u8>)
    ensures
        r@ == checked_offline_bytes(token@, host@),
{
    let mut u: Vec<char> = Vec::new();
    push_str(&mut u, "/portal/Auth.do");
    push_str(&mut u, "?");
    push_str(&mut u, "method=offline&siteid=1&token=");
    let e = url_encode(token.as_str());
    push_str(&mut u, e.as_str());
    assert(u@ =~= auth_path() + "?"@ + "method=offline&siteid=1&token="@ + url_encoded(token@));
    request_bytes(&u, host)
}

impl CheckedSession {
    /// A session of user `index` with this account and password, whose
    /// requests to the portal address go to `host`, and which logs out
    /// `offline_time` seconds after logging in where `offline` says so; not
    /// yet started.
    pub fn new(
        index: usize,
        username: String,
        password: String,
        host: String,
        offline: bool,
        offline_time: u64,
    ) -> (r: Self)
        ensures
            r@ == (CheckedView {
                stage: CheckedStage::Start,
                index,
                username: username@,
                password: password@,
                host: host@,
                offline,
                offline_time,
                request: Seq::empty(),
                reply: Seq::empty(),
                token: Seq::empty(),
            }),
    {
        CheckedSession {
            stage: CheckedStage::Start,
            index,
            username,
            password,
            host,
            offline,
            offline_time,
            request: Vec::new(),
            reply: Vec::new(),
            token: String::new(),
        }
    }

    fn fail_with(&mut self, message: String, close_portal: bool) -> (r: CheckedAction)
        ensures
            (final(self)@, r@) == checked_fail(old(self)@, message@, close_portal),
    {
        self.stage = CheckedStage::Failed;
        CheckedAction::Fail { message, close_portal }
    }

    fn redirect_reply(&mut self) -> (r: CheckedAction)
        ensures
            (final(self)@, r@) == on_checked_redirect(old(self)@, old(self)@.reply),
    {
        let text = utf8_lossy(self.reply.as_slice());
        match HttpResponse::from_raw_text(text.as_str()) {
            None => self.fail_with("explicit panic".to_owned(), true),
            Some(response) => {
                let phrase = chars_of(response.status_phrase.as_str());
                if response.status_code != 302 || !equals_str(&phrase, "Moved Temporarily") {
                    return self.fail_with("explicit panic".to_owned(), true);
                }
                match response.location {
                    None => {
                        let mut m: Vec<char> = Vec::new();
                        push_str(&mut m, "STA ");
                        push_decimal(&mut m, self.index as u64);
                        push_str(&mut m, " 没有找到Location头部");
                        self.fail_with(string_of(&m), true)
                    },
                    Some(location) => {
                        let params = match parse_url(location.as_str()) {
                            Ok(u) => {
                                let pairs = query_pairs(&u);
                                collect_redirect_params(&pairs)
                            },
                            Err(_) => Some(ParamMap::new()),
                        };
                        match params {
                            None => self.fail_with("devicetype has ')' before '('".to_owned(), false),
                            Some(m) => {
                                let bytes = checked_auth_bytes(&m);
                                self.request = bytes.clone();
                                self.stage = CheckedStage::AuthRequestSent;
                                CheckedAction::Send { stream: Stream::Portal, bytes }
                            },
                        }
                    },
                }
            },
        }
    }

    fn token_reply(&mut self, buffer: &Vec<u8>) -> (r: CheckedAction)
        ensures
            (final(self)@, r@) == on_checked_token(old(self)@, buffer@),
    {
        let text = utf8_lossy(buffer.as_slice());
        if !HttpRedirectResponse::is_readable(text.as_str()) {
            return self.fail_with(
                "index out of bounds: the len is 1 but the index is 1".to_owned(),
                false,
            );
        }
        match HttpRedirectResponse::from_raw_text(text.as_str()) {
            None => self.fail_with("解析HTTP响应失败".to_owned(), false),
            Some(response) => {
                let token = match response.location {
                    None => String::new(),
                    Some(location) => match parse_url(location.as_str()) {
                        Ok(u) => {
                            let pairs = query_pairs(&u);
                            let mut m = ParamMap::new();
                            let mut i: usize = 0;
                            let ghost p = crate::boundary::pair_views(pairs@);
                            assert(p.take(0) =~= Seq::<(Seq<char>, Seq<char>)>::empty());
                            while i < pairs.len()
                                invariant
                                    i <= pairs.len(),
                                    p == crate::boundary::pair_views(pairs@),
                                    m@ == pairs_map(p.take(i as int)),
                                decreases pairs.len() - i,
                            {
                                assert(p.take(i + 1).drop_last() =~= p.take(i as int));
                                m.insert(pairs[i].0.clone(), pairs[i].1.clone());
                                i += 1;
                            }
                            assert(p.take(i as int) =~= p);
                            m.get_or_empty("token")
                        },
                        Err(_) => String::new(),
                    },
                };
                let bytes = do_auth_bytes(&self.username, &self.password, &token);
                self.request = bytes.clone();
                self.token = token;
                self.stage = CheckedStage::DoAuthSent;
                CheckedAction::Send { stream: Stream::Portal, bytes }
            },
        }
    }

    fn status_reply(&mut self, buffer: &Vec<u8>) -> (r: CheckedAction)
        ensures
            (final(self)@, r@) == on_checked_status(old(self)@, buffer@),
    {
        let text = utf8_lossy(buffer.as_slice());
        match HttpResponseOk::from_raw_text(text.as_str()) {
            None => self.fail_with("No HTTP response".to_owned(), false),
            Some(response) => {
                if response.status_code != 200 {
                    let mut m: Vec<char> = Vec::new();
                    push_str(&mut m, "HTTP STATUS ERROR ");
                    push_decimal(&mut m, response.status_code as u64);
                    return self.fail_with(string_of(&m), false);
                }
                let phrase = chars_of(response.status_phrase.as_str());
                if !equals_str(&phrase, "OK") {
                    let mut m: Vec<char> = Vec::new();
                    push_str(&mut m, "Get HTTP STATUS PHRASE ERROR ");
                    push_str(&mut m, response.status_phrase.as_str());
                    return self.fail_with(string_of(&m), false);
                }
                if self.offline {
                    self.stage = CheckedStage::Online;
                    CheckedAction::Sleep { secs: self.offline_time }
                } else {
                    self.stage = CheckedStage::ClosingPortal;
                    CheckedAction::Close { stream: Stream::Portal }
                }
            },
        }
    }

    /// Takes the next step of the session, as `checked_step` describes.
    pub fn step(&mut self, event: CheckedEvent) -> (r: CheckedAction)
        ensures
            (final(self)@, r@) == checked_step(old(self)@, event@),
    {
        match (self.stage, event) {
            (CheckedStage::Start, CheckedEvent::Started) => {
                let first = vec!['/'];
                assert(first@ =~= "/"@) by {
                    reveal_strlit("/");
                }
                let bytes = request_bytes(&first, self.host.as_str());
                self.request = bytes.clone();
                self.stage = CheckedStage::FirstRequestSent;
                CheckedAction::Send { stream: Stream::Redirect, bytes }
            },
            (CheckedStage::FirstRequestSent, CheckedEvent::Sent) => {
                self.stage = CheckedStage::ReadingRedirect;
                CheckedAction::Receive { stream: Stream::Redirect }
            },
            (CheckedStage::ReadingRedirect, CheckedEvent::Received { count, buffer }) => {
                match count {
                    None => self.fail_with("explicit panic".to_owned(), false),
                    Some(n) => if n == 0 {
                        self.stage = CheckedStage::FirstRequestSent;
                        CheckedAction::Send { stream: Stream::Redirect, bytes: self.request.clone() }
                    } else {
                        self.reply = buffer;
                        self.stage = CheckedStage::ClosingRedirect;
                        CheckedAction::Close { stream: Stream::Redirect }
                    },
                }
            },
            (CheckedStage::ClosingRedirect, CheckedEvent::Closed) => self.redirect_reply(),
            (CheckedStage::AuthRequestSent, CheckedEvent::Sent) => {
                self.stage = CheckedStage::AwaitingToken;
                CheckedAction::Receive { stream: Stream::Portal }
            },
            (CheckedStage::AwaitingToken, CheckedEvent::Received { count, buffer }) => {
                match count {
                    None => self.fail_with("explicit panic".to_owned(), false),
                    Some(n) => if n == 0 {
                        self.stage = CheckedStage::AuthRequestSent;
                        CheckedAction::Send { stream: Stream::Portal, bytes: self.request.clone() }
                    } else {
                        self.token_reply(&buffer)
                    },
                }
            },
            (CheckedStage::DoAuthSent, CheckedEvent::Sent) => {
                self.stage = CheckedStage::AwaitingStatus;
                CheckedAction::Receive { stream: Stream::Portal }
            },
            (CheckedStage::AwaitingStatus, CheckedEvent::Received { count: _, buffer }) => {
                self.status_reply(&buffer)
            },
            (CheckedStage::Online, CheckedEvent::Slept) => {
                let bytes = offline_bytes_to(&self.token, self.host.as_str());
                self.request = bytes.clone();
                self.stage = CheckedStage::OfflineSent;
                CheckedAction::Send { stream: Stream::Portal, bytes }
            },
            (CheckedStage::OfflineSent, CheckedEvent::Sent) => {
                self.stage = CheckedStage::Pausing;
                CheckedAction::Wait { millis: 200 }
            },
            (CheckedStage::Pausing, CheckedEvent::Slept) => {
                self.stage = CheckedStage::ClosingPortal;
                CheckedAction::Close { stream: Stream::Portal }
            },
            (CheckedStage::ClosingPortal, CheckedEvent::Closed) => {
                self.stage = CheckedStage::Done;
                CheckedAction::Finish
            },
            _ => self.fail_with("unexpected event".to_owned(), false),
        }
    }
}

/// Each field of the first authentication query carries the redirect's
/// parameter of the same name, percent-encoded: `wlanuserip`,
/// `wlanuseripv6`, `wlanusermac`, `wlanacname`, `ssid` and `srcurl`, in
/// that order, then `osType=Linux64`.
pub proof fn lemma_checked_auth_query_fields(m: Map<Seq<char>, Seq<char>>)
    ensures
        "&"@ + checked_auth_query(m) == param_field(m, "wlanuserip"@) + param_field(
            m,
            "wlanuseripv6"@,
        ) + param_field(m, "wlanusermac"@) + param_field(m, "wlanacname"@) + param_field(
            m,
            "ssid"@,
        ) + param_field(m, "srcurl"@) + "&osType=Linux64"@,
{
    reveal_strlit("&");
    reveal_strlit("=");
    reveal_strlit("wlanuserip");
    reveal_strlit("wlanuseripv6");
    reveal_strlit("wlanusermac");
    reveal_strlit("wlanacname");
    reveal_strlit("ssid");
    reveal_strlit("srcurl");
    reveal_strlit("wlanuserip=");
    reveal_strlit("&wlanuseripv6=");
    reveal_strlit("&wlanusermac=");
    reveal_strlit("&wlanacname=");
    reveal_strlit("&ssid=");
    reveal_strlit("&srcurl=");
    assert("&"@ + checked_auth_query(m) =~= param_field(m, "wlanuserip"@) + param_field(
        m,
        "wlanuseripv6"@,
    ) + param_field(m, "wlanusermac"@) + param_field(m, "wlanacname"@) + param_field(m, "ssid"@)
        + param_field(m, "srcurl"@) + "&osType=Linux64"@);
}

/// The logout request carries the token, percent-encoded, in the `token`
/// field, and goes to the host it is given.
pub proof fn lemma_checked_offline_fields(token: Seq<char>, host: Seq<char>)
    ensures
        checked_offline_bytes(token, host) == request_bytes_of(
            auth_path() + "?method=offline&siteid=1"@ + query_field("token"@, token),
            host,
        ),
{
    reveal_strlit("&");
    reveal_strlit("=");
    reveal_strlit("?");
    reveal_strlit("token");
    reveal_strlit("method=offline&siteid=1&token=");
    reveal_strlit("?method=offline&siteid=1");
    assert(auth_path() + "?"@ + "method=offline&siteid=1&token="@ + url_encoded(token) =~= auth_path()
        + "?method=offline&siteid=1"@ + query_field("token"@, token));
}

/// A checked session keeps its user, host and logout settings through
/// every step; the login request it sends carries the user's account and
/// password with the token that it then keeps, and the logout request
/// carries that kept token to the user's host.
pub proof fn lemma_checked_requests_carry_user(s: CheckedView, e: CheckedEventView)
    ensures
        checked_step(s, e).0.username == s.username,
        checked_step(s, e).0.password == s.password,
        checked_step(s, e).0.host == s.host,
        checked_step(s, e).0.offline == s.offline,
        checked_step(s, e).0.offline_time == s.offline_time,
        s.stage != CheckedStage::DoAuthSent && checked_step(s, e).0.stage
            == CheckedStage::DoAuthSent ==> checked_step(s, e).1 == (CheckedActionView::Send {
            stream: Stream::Portal,
            bytes: encode_utf8(
                request_text(do_auth_request(s.username, s.password, checked_step(s, e).0.token)),
            ),
        }),
        s.stage != CheckedStage::OfflineSent && checked_step(s, e).0.stage
            == CheckedStage::OfflineSent ==> checked_step(s, e).1 == (CheckedActionView::Send {
            stream: Stream::Portal,
            bytes: checked_offline_bytes(s.token, s.host),
        }),
{
}

} // verus!
