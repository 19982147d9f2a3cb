//! The decisions of a portal login session: which request to send next, and
//! what to take from each reply of the portal.

use vstd::prelude::*;
use vstd::seq_lib::lemma_concat_associative;
use vstd::utf8::encode_utf8;

use crate::boundary::{
    lossy_text, pair_views, parse_url, query_pairs, url_encode, url_encoded, url_parse_query,
    utf8_lossy,
};
use crate::http_request::{request_text, HttpRequest, HttpRequestView};
use crate::http_response::{
    parse_redirect, parse_response, redirect_readable, HttpRedirectResponse, HttpResponse,
};
use crate::text::{
    chars_of, copy_range, find_char, first_in, in_class, lacks, lemma_first_in_at, push_str,
    string_of, CharClass,
};

verus! {

/// The map that a sequence of name-value pairs builds, a later pair
/// replacing an earlier one of the same name.
pub open spec fn pairs_map(p: Seq<(Seq<char>, Seq<char>)>) -> Map<Seq<char>, Seq<char>>
    decreases p.len(),
{
    if p.len() == 0 {
        Map::empty()
    } else {
        pairs_map(p.drop_last()).insert(p.last().0, p.last().1)
    }
}

/// The value under `k`, or the empty text.
pub open spec fn param_get(m: Map<Seq<char>, Seq<char>>, k: Seq<char>) -> Seq<char> {
    if m.contains_key(k) {
        m[k]
    } else {
        Seq::empty()
    }
}

/// Named text parameters, a later value replacing an earlier one.
pub struct ParamMap {
    pub entries: Vec<(String, String)>,
}

impl View for ParamMap {
    type V = Map<Seq<char>, Seq<char>>;

    open spec fn view(&self) -> Map<Seq<char>, Seq<char>> {
        pairs_map(pair_views(self.entries@))
    }
}

impl ParamMap {
    pub fn new() -> (r: Self)
        ensures
            r@ == Map::<Seq<char>, Seq<char>>::empty(),
    {
        let r = ParamMap { entries: Vec::new() };
        assert(pair_views(r.entries@) =~= Seq::empty());
        r
    }

    /// Sets the value under `k` to `v`.
    pub fn insert(&mut self, k: String, v: String)
        ensures
            final(self)@ == old(self)@.insert(k@, v@),
    {
        let ghost before = self.entries@;
        self.entries.push((k, v));
        assert(pair_views(self.entries@).drop_last() =~= pair_views(before));
    }

    /// The value under `k`, or the empty text.
    pub fn get_or_empty(&self, k: &str) -> (r: String)
        ensures
            r@ == param_get(self@, k@),
    {
        let key = k.to_owned();
        let ghost p = pair_views(self.entries@);
        let mut i = self.entries.len();
        assert(p.take(i as int) =~= p);
        while i > 0
            invariant
                i <= self.entries.len(),
                p == pair_views(self.entries@),
                key@ == k@,
                param_get(pairs_map(p), k@) == param_get(pairs_map(p.take(i as int)), k@),
            decreases i,
        {
            assert(p.take(i as int).drop_last() =~= p.take(i - 1));
            assert(p[i - 1] == (self.entries@[i - 1].0@, self.entries@[i - 1].1@));
            if self.entries[i - 1].0 == key {
                return self.entries[i - 1].1.clone();
            }
            i -= 1;
        }
        assert(p.take(0) =~= Seq::<(Seq<char>, Seq<char>)>::empty());
        String::new()
    }
}

/// The map after one more pair of a redirect's query: a `devicetype`
/// value holding `(` is split into the type before it and the version
/// between it and the first `)` (or the end), and is dropped when it holds
/// no `(`; any other pair is taken as it is. `None` when the first `)`
/// comes before the `(`, where taking the version out fails.
pub open spec fn add_redirect_pair(
    m: Option<Map<Seq<char>, Seq<char>>>,
    p: (Seq<char>, Seq<char>),
) -> Option<Map<Seq<char>, Seq<char>>> {
    match m {
        None => None,
        Some(m) => {
            let (k, v) = p;
            if k == "devicetype"@ {
                let start = first_in(v, CharClass::Exactly('('));
                if start < v.len() {
                    let end = first_in(v, CharClass::Exactly(')'));
                    if end < start {
                        None
                    } else {
                        Some(
                            m.insert("devicetype"@, v.take(start as int)).insert(
                                "devicetype_version"@,
                                v.subrange((start + 1) as int, end as int),
                            ),
                        )
                    }
                } else {
                    Some(m)
                }
            } else {
                Some(m.insert(k, v))
            }
        },
    }
}

/// The parameters that the query pairs of a redirect give.
pub open spec fn redirect_params(p: Seq<(Seq<char>, Seq<char>)>) -> Option<
    Map<Seq<char>, Seq<char>>,
>
    decreases p.len(),
{
    if p.len() == 0 {
        Some(Map::empty())
    } else {
        add_redirect_pair(redirect_params(p.drop_last()), p.last())
    }
}

/// Collects the parameters of a redirect's query pairs, as `redirect_params`
/// describes; `None` where it gives none.
pub fn collect_redirect_params(pairs: &Vec<(String, String)>) -> (r: Option<ParamMap>)
    ensures
        match redirect_params(pair_views(pairs@)) {
            Some(m) => r matches Some(pm) && pm@ == m,
            None => r is None,
        },
{
    let ghost p = pair_views(pairs@);
    let mut m = ParamMap::new();
    let device_key = "devicetype".to_owned();
    let mut i: usize = 0;
    assert(p.take(0) =~= Seq::<(Seq<char>, Seq<char>)>::empty());
    while i < pairs.len()
        invariant
            i <= pairs.len(),
            p == pair_views(pairs@),
            device_key@ == "devicetype"@,
            redirect_params(p.take(i as int)) == Some(m@),
        decreases pairs.len() - i,
    {
        assert(p.take(i + 1).drop_last() =~= p.take(i as int));
        assert(p[i as int] == (pairs@[i as int].0@, pairs@[i as int].1@));
        let key = &pairs[i].0;
        let value = &pairs[i].1;
        if *key == device_key {
            let v = chars_of(value.as_str());
            let start = find_char(&v, 0, '(');
            assert(v@.skip(0) =~= v@);
            if start < v.len() {
                let end = find_char(&v, 0, ')');
                if end < start {
                    proof {
                        lemma_redirect_params_stays_none(p, i as int + 1);
                    }
                    return None;
                }
                proof {
                    crate::text::lemma_first_in(v@, CharClass::Exactly('('));
                    crate::text::lemma_first_in(v@, CharClass::Exactly(')'));
                }
                let device_type = copy_range(&v, 0, start);
                let version = copy_range(&v, start + 1, end);
                assert(v@.subrange(0, start as int) =~= v@.take(start as int));
                m.insert("devicetype".to_owned(), string_of(&device_type));
                m.insert("devicetype_version".to_owned(), string_of(&version));
            }
        } else {
            m.insert(key.clone(), value.clone());
        }
        i += 1;
    }
    assert(p.take(i as int) =~= p);
    Some(m)
}

/// Once reading pairs has failed, it stays failed.
pub proof fn lemma_redirect_params_stays_none(p: Seq<(Seq<char>, Seq<char>)>, k: int)
    requires
        0 <= k <= p.len(),
        redirect_params(p.take(k)) is None,
    ensures
        redirect_params(p) is None,
    decreases p.len() - k,
{
    if k < p.len() {
        assert(p.take(k + 1).drop_last() =~= p.take(k));
        lemma_redirect_params_stays_none(p, k + 1);
    } else {
        assert(p.take(k) =~= p);
    }
}

/// The value of `k` in `m`, percent-encoded.
pub open spec fn enc(m: Map<Seq<char>, Seq<char>>, k: Seq<char>) -> Seq<char> {
    url_encoded(param_get(m, k))
}

/// The query field `&k=v`, with `v` percent-encoded.
pub open spec fn query_field(k: Seq<char>, v: Seq<char>) -> Seq<char> {
    "&"@ + k + "="@ + url_encoded(v)
}

/// The query field `&k=v`, where `v` is the redirect's parameter of the
/// same name `k`.
pub open spec fn param_field(m: Map<Seq<char>, Seq<char>>, k: Seq<char>) -> Seq<char> {
    query_field(k, param_get(m, k))
}

/// The user agent of the portal requests.
pub open spec fn agent() -> Seq<char> {
    "ZJB:CRAZY_PORTAL_AGENT"@
}

/// A keep-alive `GET` of `uri` from `host`.
pub open spec fn get_request(uri: Seq<char>, host: Seq<char>) -> HttpRequestView {
    HttpRequestView {
        method: "GET"@,
        request_uri: uri,
        http_version: "HTTP/1.1"@,
        connection: "keep-alive"@,
        host,
        user_agent: agent(),
    }
}

/// The request that starts a session: `GET /` from `2.2.2.2`, answered by a
/// redirect to the portal.
pub open spec fn first_request() -> HttpRequestView {
    get_request("/"@, "2.2.2.2"@)
}

/// The query that opens the portal's authentication page, passing on the
/// parameters of the redirect.
pub open spec fn auth_query(m: Map<Seq<char>, Seq<char>>) -> Seq<char> {
    auth_query_head(m) + auth_query_tail(m)
}

pub open spec fn auth_query_head(m: Map<Seq<char>, Seq<char>>) -> Seq<char> {
    "error_code="@ + enc(m, "error_code"@) + "&wlanuserip="@ + enc(m, "wlanuserip"@)
        + "&wlanapname="@ + enc(m, "wlanapname"@) + "&wlanacname="@ + enc(m, "wlanacname"@)
        + "&wlanusermac="@ + enc(m, "wlanusermac"@) + "&wlanapip="@ + enc(m, "wlanapip"@)
        + "&vlan="@ + enc(m, "vlan"@) + "&wlanacip="@ + enc(m, "wlanacip"@)
}

pub open spec fn auth_query_tail(m: Map<Seq<char>, Seq<char>>) -> Seq<char> {
    auth_query_device(m) + auth_query_source(m)
}

pub open spec fn auth_query_device(m: Map<Seq<char>, Seq<char>>) -> Seq<char> {
    "&wlanapmac="@ + enc(m, "wlanapmac"@) + "&ssid="@ + enc(m, "ssid"@) + "&nasid="@ + enc(
        m,
        "nasid"@,
    ) + "&devicetype="@ + enc(m, "devicetype"@) + "("@ + enc(m, "devicetype_version"@) + ")"@
}

pub open spec fn auth_query_source(m: Map<Seq<char>, Seq<char>>) -> Seq<char> {
    "&apsn="@ + enc(m, "apsn"@) + "&srcurl="@ + enc(m, "srcurl"@) + "&timestamp="@ + enc(
        m,
        "timestamp"@,
    ) + "&sign="@ + enc(m, "sign"@) + "&osType=Linux64"@
}

/// The path of the portal's authentication service.
pub open spec fn auth_path() -> Seq<char> {
    "/portal/Auth.do"@
}

/// The address of the portal server.
pub open spec fn portal_host() -> Seq<char> {
    "100.100.1.32"@
}

pub open spec fn auth_page_request(m: Map<Seq<char>, Seq<char>>) -> HttpRequestView {
    get_request(auth_path() + "?"@ + auth_query(m), portal_host())
}

/// The request that logs the user in with the token that the portal gave.
pub open spec fn do_auth_request(
    account: Seq<char>,
    password: Seq<char>,
    token: Seq<char>,
) -> HttpRequestView {
    get_request(
        auth_path() + "?"@ + "method=doAuth&siteid=1&account="@ + url_encoded(account)
            + "&password="@ + url_encoded(password) + "&token="@ + url_encoded(token),
        portal_host(),
    )
}

/// The request that logs the user out again.
pub open spec fn offline_request(token: Seq<char>) -> HttpRequestView {
    get_request(
        auth_path() + "?"@ + "method=offline&siteid=1&token="@ + url_encoded(token),
        portal_host(),
    )
}

/// How long a session stays online before it logs out, in seconds.
pub open spec fn online_secs() -> u64 {
    600
}

/// One of the two connections of a session: to the address that redirects
/// to the portal, and to the portal server.
#[derive(Clone, Copy, Debug, PartialEq, Eq)]
pub enum Stream {
    Redirect,
    Portal,
}

/// Where a session stands.
#[derive(Clone, Copy, Debug, PartialEq, Eq)]
pub enum PortalStage {
    Start,
    FirstRequestSent,
    ReadingRedirect,
    AuthRequestSent,
    AwaitingToken,
    DoAuthSent,
    Online,
    OfflineSent,
    Done,
    Failed,
}

/// What happened since the last action: the session began, a request was
/// written, a read returned (`count` is `None` for a read error; `buffer`
/// is the whole read buffer), or the wait is over.
pub enum PortalEvent {
    Started,
    Sent,
    Received { count: Option<usize>, buffer: Vec<u8> },
    Slept,
}

pub enum PortalEventView {
    Started,
    Sent,
    Received { count: Option<usize>, buffer: Seq<u8> },
    Slept,
}

impl View for PortalEvent {
    type V = PortalEventView;

    open spec fn view(&self) -> PortalEventView {
        match self {
            PortalEvent::Started => PortalEventView::Started,
            PortalEvent::Sent => PortalEventView::Sent,
            PortalEvent::Received { count, buffer } => PortalEventView::Received {
                count: *count,
                buffer: buffer@,
            },
            PortalEvent::Slept => PortalEventView::Slept,
        }
    }
}

/// What to do next: write bytes to a connection, read from one into the
/// buffer, wait, give up with a message, or end.
#[derive(Debug)]
pub enum PortalAction {
    Send { stream: Stream, bytes: Vec<u8> },
    Receive { stream: Stream },
    Sleep { secs: u64 },
    Fail { message: String },
    Finish,
}

pub enum PortalActionView {
    Send { stream: Stream, bytes: Seq<u8> },
    Receive { stream: Stream },
    Sleep { secs: u64 },
    Fail { message: Seq<char> },
    Finish,
}

impl View for PortalAction {
    type V = PortalActionView;

    open spec fn view(&self) -> PortalActionView {
        match self {
            PortalAction::Send { stream, bytes } => PortalActionView::Send {
                stream: *stream,
                bytes: bytes@,
            },
            PortalAction::Receive { stream } => PortalActionView::Receive { stream: *stream },
            PortalAction::Sleep { secs } => PortalActionView::Sleep { secs: *secs },
            PortalAction::Fail { message } => PortalActionView::Fail { message: message@ },
            PortalAction::Finish => PortalActionView::Finish,
        }
    }
}

/// A login session of one user at the portal.
pub struct PortalSession {
    pub stage: PortalStage,
    pub username: String,
    pub password: String,
    pub token: String,
}

pub struct SessionView {
    pub stage: PortalStage,
    pub username: Seq<char>,
    pub password: Seq<char>,
    pub token: Seq<char>,
}

impl View for PortalSession {
    type V = SessionView;

    open spec fn view(&self) -> SessionView {
        SessionView {
            stage: self.stage,
            username: self.username@,
            password: self.password@,
            token: self.token@,
        }
    }
}

pub open spec fn send(stream: Stream, r: HttpRequestView) -> PortalActionView {
    PortalActionView::Send { stream, bytes: encode_utf8(request_text(r)) }
}

pub open spec fn at(s: SessionView, stage: PortalStage) -> SessionView {
    SessionView { stage, ..s }
}

pub open spec fn fail(s: SessionView, message: Seq<char>) -> (SessionView, PortalActionView) {
    (at(s, PortalStage::Failed), PortalActionView::Fail { message })
}

pub open spec fn no_response_message() -> Seq<char> {
    "解析HTTP响应失败"@
}

pub open spec fn no_location_message() -> Seq<char> {
    "没有找到Location头部"@
}

pub open spec fn device_type_message() -> Seq<char> {
    "devicetype has ')' before '('"@
}

pub open spec fn status_word_message() -> Seq<char> {
    "index out of bounds: the len is 1 but the index is 1"@
}

pub open spec fn read_failed_message() -> Seq<char> {
    "read from the portal failed"@
}

pub open spec fn unexpected_message() -> Seq<char> {
    "unexpected event"@
}

/// What the redirect's reply (the whole read buffer) leads to: the request
/// for the authentication page, carrying the redirect's parameters (none
/// when its location is no URL), or failure when the reply is no response,
/// has no location, or has a `devicetype` that cannot be split.
pub open spec fn on_redirect_reply(s: SessionView, buffer: Seq<u8>) -> (
    SessionView,
    PortalActionView,
) {
    match parse_response(lossy_text(buffer)) {
        None => fail(s, no_response_message()),
        Some(r) => match r.head.location {
            None => fail(s, no_location_message()),
            Some(loc) => {
                let params = match url_parse_query(loc) {
                    None => Some(Map::empty()),
                    Some(pairs) => redirect_params(pairs),
                };
                match params {
                    None => fail(s, device_type_message()),
                    Some(m) => (
                        at(s, PortalStage::AuthRequestSent),
                        send(Stream::Portal, auth_page_request(m)),
                    ),
                }
            },
        },
    }
}

/// The token of a redirect's location: the last `token` query pair, or the
/// empty text when there is no location, it is no URL, or it has none.
pub open spec fn location_token(loc: Option<Seq<char>>) -> Seq<char> {
    match loc {
        None => Seq::empty(),
        Some(l) => match url_parse_query(l) {
            None => Seq::empty(),
            Some(pairs) => param_get(pairs_map(pairs), "token"@),
        },
    }
}

/// What the portal's reply to the authentication page leads to: the login
/// request with the token of the redirect it holds, or failure when a status
/// line has no code word or the reply is no `302` redirect.
pub open spec fn on_token_reply(s: SessionView, buffer: Seq<u8>) -> (
    SessionView,
    PortalActionView,
) {
    let text = lossy_text(buffer);
    if !redirect_readable(text) {
        fail(s, status_word_message())
    } else {
        match parse_redirect(text) {
            None => fail(s, no_response_message()),
            Some(h) => {
                let token = location_token(h.location);
                (
                    SessionView { stage: PortalStage::DoAuthSent, token, ..s },
                    send(Stream::Portal, do_auth_request(s.username, s.password, token)),
                )
            },
        }
    }
}

/// One step of a session: from where it stands and what happened, where it
/// stands next and what to do. The redirect connection is read until it
/// is closed or fails; the portal connection is read once.
pub open spec fn session_step(s: SessionView, e: PortalEventView) -> (SessionView, PortalActionView) {
    match (s.stage, e) {
        (PortalStage::Start, PortalEventView::Started) => (
            at(s, PortalStage::FirstRequestSent),
            send(Stream::Redirect, first_request()),
        ),
        (PortalStage::FirstRequestSent, PortalEventView::Sent) => (
            at(s, PortalStage::ReadingRedirect),
            PortalActionView::Receive { stream: Stream::Redirect },
        ),
        (PortalStage::ReadingRedirect, PortalEventView::Received { count, buffer }) => {
            if count matches Some(n) && n > 0 {
                (s, PortalActionView::Receive { stream: Stream::Redirect })
            } else {
                on_redirect_reply(s, buffer)
            }
        },
        (PortalStage::AuthRequestSent, PortalEventView::Sent) => (
            at(s, PortalStage::AwaitingToken),
            PortalActionView::Receive { stream: Stream::Portal },
        ),
        (PortalStage::AwaitingToken, PortalEventView::Received { count, buffer }) => {
            if count is None {
                fail(s, read_failed_message())
            } else {
                on_token_reply(s, buffer)
            }
        },
        (PortalStage::DoAuthSent, PortalEventView::Sent) => (
            at(s, PortalStage::Online),
            PortalActionView::Sleep { secs: online_secs() },
        ),
        (PortalStage::Online, PortalEventView::Slept) => (
            at(s, PortalStage::OfflineSent),
            send(Stream::Portal, offline_request(s.token)),
        ),
        (PortalStage::OfflineSent, PortalEventView::Sent) => (
            at(s, PortalStage::Done),
            PortalActionView::Finish,
        ),
        _ => fail(s, unexpected_message()),
    }
}

/// Appends the value of `k` in `m`, percent-encoded.
pub(crate) fn push_param(out: &mut Vec<char>, m: &ParamMap, k: &str)
    ensures
        final(out)@ == old(out)@ + enc(m@, k@),
{
    let v = m.get_or_empty(k);
    let e = url_encode(v.as_str());
    push_str(out, e.as_str());
}

/// Appends `s` percent-encoded.
fn push_encoded(out: &mut Vec<char>, s: &String)
    ensures
        final(out)@ == old(out)@ + url_encoded(s@),
{
    let e = url_encode(s.as_str());
    push_str(out, e.as_str());
}

pub(crate) fn request_bytes(uri: &Vec<char>, host: &str) -> (r: Vec<u8>)
    ensures
        r@ == encode_utf8(request_text(get_request(uri@, host@))),
{
    let req = HttpRequest {
        method: "GET".to_owned(),
        request_uri: string_of(uri),
        http_version: "HTTP/1.1".to_owned(),
        connection: "keep-alive".to_owned(),
        host: host.to_owned(),
        user_agent: "ZJB:CRAZY_PORTAL_AGENT".to_owned(),
    };
    assert(req@ == get_request(uri@, host@));
    req.to_bytes()
}

fn push_auth_query_head(u: &mut Vec<char>, m: &ParamMap)
    ensures
        final(u)@ == old(u)@ + auth_query_head(m@),
{
    let ghost base = u@;
    push_str(u, "error_code=");
    push_param(u, m, "error_code");
    push_str(u, "&wlanuserip=");
    push_param(u, m, "wlanuserip");
    push_str(u, "&wlanapname=");
    push_param(u, m, "wlanapname");
    push_str(u, "&wlanacname=");
    push_param(u, m, "wlanacname");
    push_str(u, "&wlanusermac=");
    push_param(u, m, "wlanusermac");
    push_str(u, "&wlanapip=");
    push_param(u, m, "wlanapip");
    push_str(u, "&vlan=");
    push_param(u, m, "vlan");
    push_str(u, "&wlanacip=");
    push_param(u, m, "wlanacip");
    assert(u@ =~= base + auth_query_head(m@));
}

fn push_auth_query_tail(u: &mut Vec<char>, m: &ParamMap)
    ensures
        final(u)@ == old(u)@ + auth_query_tail(m@),
{
    let ghost base = u@;
    push_str(u, "&wlanapmac=");
    push_param(u, m, "wlanapmac");
    push_str(u, "&ssid=");
    push_param(u, m, "ssid");
    push_str(u, "&nasid=");
    push_param(u, m, "nasid");
    push_str(u, "&devicetype=");
    push_param(u, m, "devicetype");
    push_str(u, "(");
    push_param(u, m, "devicetype_version");
    push_str(u, ")");
    assert(u@ =~= base + auth_query_device(m@));
    let ghost mid = u@;
    push_str(u, "&apsn=");
    push_param(u, m, "apsn");
    push_str(u, "&srcurl=");
    push_param(u, m, "srcurl");
    push_str(u, "&timestamp=");
    push_param(u, m, "timestamp");
    push_str(u, "&sign=");
    push_param(u, m, "sign");
    push_str(u, "&osType=Linux64");
    assert(u@ =~= mid + auth_query_source(m@));
    assert(u@ =~= base + auth_query_tail(m@));
}

fn auth_page_bytes(m: &ParamMap) -> (r: Vec<u8>)
    ensures
        r@ == encode_utf8(request_text(auth_page_request(m@))),
{
    let mut u: Vec<char> = Vec::new();
    push_str(&mut u, "/portal/Auth.do");
    push_str(&mut u, "?");
    let ghost prefix = u@;
    push_auth_query_head(&mut u, m);
    push_auth_query_tail(&mut u, m);
    assert(u@ =~= prefix + auth_query(m@));
    assert(u@ =~= auth_path() + "?"@ + auth_query(m@));
    request_bytes(&u, "100.100.1.32")
}

pub(crate) fn do_auth_bytes(account: &String, password: &String, token: &String) -> (r: Vec<u8>)
    ensures
        r@ == encode_utf8(request_text(do_auth_request(account@, password@, token@))),
{
    let mut u: Vec<char> = Vec::new();
    push_str(&mut u, "/portal/Auth.do");
    push_str(&mut u, "?");
    push_str(&mut u, "method=doAuth&siteid=1&account=");
    push_encoded(&mut u, account);
    push_str(&mut u, "&password=");
    push_encoded(&mut u, password);
    push_str(&mut u, "&token=");
    push_encoded(&mut u, token);
    assert(u@ =~= auth_path() + "?"@ + "method=doAuth&siteid=1&account="@ + url_encoded(account@)
        + "&password="@ + url_encoded(password@) + "&token="@ + url_encoded(token@));
    request_bytes(&u, "100.100.1.32")
}

fn offline_bytes(token: &String) -> (r: Vec<u8>)
    ensures
        r@ == encode_utf8(request_text(offline_request(token@))),
{
    let mut u: Vec<char> = Vec::new();
    push_str(&mut u, "/portal/Auth.do");
    push_str(&mut u, "?");
    push_str(&mut u, "method=offline&siteid=1&token=");
    push_encoded(&mut u, token);
    assert(u@ =~= auth_path() + "?"@ + "method=offline&siteid=1&token="@ + url_encoded(token@));
    request_bytes(&u, "100.100.1.32")
}

impl PortalSession {
    /// A session of a user with this account and password, not yet started.
    pub fn new(username: String, password: String) -> (r: Self)
        ensures
            r@ == (SessionView {
                stage: PortalStage::Start,
                username: username@,
                password: password@,
                token: Seq::empty(),
            }),
    {
        PortalSession { stage: PortalStage::Start, username, password, token: String::new() }
    }

    fn fail_with(&mut self, message: &str) -> (r: PortalAction)
        ensures
            (final(self)@, r@) == fail(old(self)@, message@),
    {
        self.stage = PortalStage::Failed;
        PortalAction::Fail { message: message.to_owned() }
    }

    fn redirect_reply(&mut self, buffer: &Vec<u8>) -> (r: PortalAction)
        ensures
            (final(self)@, r@) == on_redirect_reply(old(self)@, buffer@),
    {
        let text = utf8_lossy(buffer.as_slice());
        match HttpResponse::from_raw_text(text.as_str()) {
            None => self.fail_with("解析HTTP响应失败"),
            Some(response) => match response.location {
                None => self.fail_with("没有找到Location头部"),
                Some(location) => {
                    let params = match parse_url(location.as_str()) {
                        Ok(u) => {
                            let pairs = query_pairs(&u);
                            collect_redirect_params(&pairs)
                        },
                        Err(_) => Some(ParamMap::new()),
                    };
                    match params {
                        None => self.fail_with("devicetype has ')' before '('"),
                        Some(m) => {
                            self.stage = PortalStage::AuthRequestSent;
                            PortalAction::Send { stream: Stream::Portal, bytes: auth_page_bytes(&m) }
                        },
                    }
                },
            },
        }
    }

    fn token_reply(&mut self, buffer: &Vec<u8>) -> (r: PortalAction)
        ensures
            (final(self)@, r@) == on_token_reply(old(self)@, buffer@),
    {
        let text = utf8_lossy(buffer.as_slice());
        if !HttpRedirectResponse::is_readable(text.as_str()) {
            return self.fail_with("index out of bounds: the len is 1 but the index is 1");
        }
        match HttpRedirectResponse::from_raw_text(text.as_str()) {
            None => self.fail_with("解析HTTP响应失败"),
            Some(response) => {
                let token = match response.location {
                    None => String::new(),
                    Some(location) => match parse_url(location.as_str()) {
                        Ok(u) => {
                            let pairs = query_pairs(&u);
                            let mut m = ParamMap::new();
                            let mut i: usize = 0;
                            let ghost p = pair_views(pairs@);
                            assert(p.take(0) =~= Seq::<(Seq<char>, Seq<char>)>::empty());
                            while i < pairs.len()
                                invariant
                                    i <= pairs.len(),
                                    p == pair_views(pairs@),
                                    m@ == pairs_map(p.take(i as int)),
                                decreases pairs.len() - i,
                            {
                                assert(p.take(i + 1).drop_last() =~= p.take(i as int));
                                m.insert(pairs[i].0.clone(), pairs[i].1.clone());
                                i += 1;
                            }
                            assert(p.take(i as int) =~= p);
                            m.get_or_empty("token")
                        },
                        Err(_) => String::new(),
                    },
                };
                let bytes = do_auth_bytes(&self.username, &self.password, &token);
                self.token = token;
                self.stage = PortalStage::DoAuthSent;
                PortalAction::Send { stream: Stream::Portal, bytes }
            },
        }
    }

    /// Takes the next step of the session, as `session_step` describes.
    pub fn step(&mut self, event: PortalEvent) -> (r: PortalAction)
        ensures
            (final(self)@, r@) == session_step(old(self)@, event@),
    {
        match (self.stage, event) {
            (PortalStage::Start, PortalEvent::Started) => {
                self.stage = PortalStage::FirstRequestSent;
                let first = vec!['/'];
                assert(first@ =~= "/"@) by {
                    reveal_strlit("/");
                }
                PortalAction::Send { stream: Stream::Redirect, bytes: request_bytes(&first, "2.2.2.2") }
            },
            (PortalStage::FirstRequestSent, PortalEvent::Sent) => {
                self.stage = PortalStage::ReadingRedirect;
                PortalAction::Receive { stream: Stream::Redirect }
            },
            (PortalStage::ReadingRedirect, PortalEvent::Received { count, buffer }) => {
                match count {
                    Some(n) if n > 0 => PortalAction::Receive { stream: Stream::Redirect },
                    _ => self.redirect_reply(&buffer),
                }
            },
            (PortalStage::AuthRequestSent, PortalEvent::Sent) => {
                self.stage = PortalStage::AwaitingToken;
                PortalAction::Receive { stream: Stream::Portal }
            },
            (PortalStage::AwaitingToken, PortalEvent::Received { count, buffer }) => {
                match count {
                    None => self.fail_with("read from the portal failed"),
                    Some(_) => self.token_reply(&buffer),
                }
            },
            (PortalStage::DoAuthSent, PortalEvent::Sent) => {
                self.stage = PortalStage::Online;
                PortalAction::Sleep { secs: 600 }
            },
            (PortalStage::Online, PortalEvent::Slept) => {
                self.stage = PortalStage::OfflineSent;
                PortalAction::Send { stream: Stream::Portal, bytes: offline_bytes(&self.token) }
            },
            (PortalStage::OfflineSent, PortalEvent::Sent) => {
                self.stage = PortalStage::Done;
                PortalAction::Finish
            },
            _ => self.fail_with("unexpected event"),
        }
    }
}


/// After `insert(k, v)`, the value under `k` is `v`, and the value under
/// any other name is what it was.
pub proof fn lemma_get_after_insert(
    m: Map<Seq<char>, Seq<char>>,
    k: Seq<char>,
    v: Seq<char>,
    j: Seq<char>,
)
    ensures
        param_get(m.insert(k, v), k) == v,
        j != k ==> param_get(m.insert(k, v), j) == param_get(m, j),
{
}

/// A session that has failed stays failed: whatever happens, its next
/// action is to fail again, and it changes nothing else.
pub proof fn lemma_failed_session_stays_failed(s: SessionView, e: PortalEventView)
    requires
        s.stage == PortalStage::Failed,
    ensures
        session_step(s, e).0 == s,
        session_step(s, e).1 is Fail,
{
}

/// The session reads the redirect connection again after every read that
/// returned data, and acts on the reply only when a read returns nothing
/// or fails.
pub proof fn lemma_redirect_read_until_closed(s: SessionView, n: usize, buffer: Seq<u8>)
    requires
        s.stage == PortalStage::ReadingRedirect,
    ensures
        n > 0 ==> session_step(s, PortalEventView::Received { count: Some(n), buffer }) == (
        s,
        PortalActionView::Receive { stream: Stream::Redirect },
        ),
        session_step(s, PortalEventView::Received { count: Some(0), buffer }) == on_redirect_reply(
            s,
            buffer,
        ),
        session_step(s, PortalEventView::Received { count: None, buffer }) == on_redirect_reply(
            s,
            buffer,
        ),
{
}


/// What the `portal_reauth` setting asks of the program.
#[derive(Clone, Copy, Debug, PartialEq, Eq)]
pub enum ReauthMode {
    /// `1`: log nobody in.
    Nothing,
    /// `0`: log every user in, one after another.
    LoginAll,
    /// Any other value, which stops the program.
    Invalid,
}

pub open spec fn reauth_mode_of(flag: i8) -> ReauthMode {
    if flag == 1 {
        ReauthMode::Nothing
    } else if flag == 0 {
        ReauthMode::LoginAll
    } else {
        ReauthMode::Invalid
    }
}

/// What the `portal_reauth` setting `flag` asks for, as `reauth_mode_of` says.
pub fn reauth_mode(flag: i8) -> (r: ReauthMode)
    ensures
        r == reauth_mode_of(flag),
{
    if flag == 1 {
        ReauthMode::Nothing
    } else if flag == 0 {
        ReauthMode::LoginAll
    } else {
        ReauthMode::Invalid
    }
}

proof fn lemma_auth_head_front(m: Map<Seq<char>, Seq<char>>)
    ensures
        "&"@ + ("error_code="@ + enc(m, "error_code"@) + "&wlanuserip="@ + enc(m, "wlanuserip"@)
            + "&wlanapname="@ + enc(m, "wlanapname"@) + "&wlanacname="@
            + enc(m, "wlanacname"@)) == param_field(m, "error_code"@)
            + param_field(m, "wlanuserip"@) + param_field(m, "wlanapname"@)
            + param_field(m, "wlanacname"@),
{
    reveal_strlit("&");
    reveal_strlit("=");
    reveal_strlit("error_code");
    reveal_strlit("wlanuserip");
    reveal_strlit("wlanapname");
    reveal_strlit("wlanacname");
    reveal_strlit("error_code=");
    reveal_strlit("&wlanuserip=");
    reveal_strlit("&wlanapname=");
    reveal_strlit("&wlanacname=");
    assert("&"@ + ("error_code="@ + enc(m, "error_code"@) + "&wlanuserip="@ + enc(m, "wlanuserip"@)
        + "&wlanapname="@ + enc(m, "wlanapname"@) + "&wlanacname="@
        + enc(m, "wlanacname"@)) =~= param_field(m, "error_code"@) + param_field(m, "wlanuserip"@)
        + param_field(m, "wlanapname"@) + param_field(m, "wlanacname"@));
}

proof fn lemma_auth_head_back(m: Map<Seq<char>, Seq<char>>)
    ensures
        "&wlanusermac="@ + enc(m, "wlanusermac"@) + "&wlanapip="@ + enc(m, "wlanapip"@) + "&vlan="@
            + enc(m, "vlan"@) + "&wlanacip="@
            + enc(m, "wlanacip"@) == param_field(m, "wlanusermac"@) + param_field(m, "wlanapip"@)
            + param_field(m, "vlan"@) + param_field(m, "wlanacip"@),
{
    reveal_strlit("&");
    reveal_strlit("=");
    reveal_strlit("wlanusermac");
    reveal_strlit("wlanapip");
    reveal_strlit("vlan");
    reveal_strlit("wlanacip");
    reveal_strlit("&wlanusermac=");
    reveal_strlit("&wlanapip=");
    reveal_strlit("&vlan=");
    reveal_strlit("&wlanacip=");
    assert("&wlanusermac="@ + enc(m, "wlanusermac"@) + "&wlanapip="@ + enc(m, "wlanapip"@)
        + "&vlan="@ + enc(m, "vlan"@) + "&wlanacip="@
        + enc(m, "wlanacip"@) =~= param_field(m, "wlanusermac"@) + param_field(m, "wlanapip"@)
        + param_field(m, "vlan"@) + param_field(m, "wlanacip"@));
}

proof fn lemma_auth_head_fields(m: Map<Seq<char>, Seq<char>>)
    ensures
        "&"@ + auth_query_head(m) == param_field(m, "error_code"@) + param_field(m, "wlanuserip"@)
            + param_field(m, "wlanapname"@) + param_field(m, "wlanacname"@)
            + param_field(m, "wlanusermac"@) + param_field(m, "wlanapip"@) + param_field(m, "vlan"@)
            + param_field(m, "wlanacip"@),
{
    lemma_auth_head_front(m);
    lemma_auth_head_back(m);
    let ra = "error_code="@ + enc(m, "error_code"@) + "&wlanuserip="@ + enc(m, "wlanuserip"@)
        + "&wlanapname="@ + enc(m, "wlanapname"@) + "&wlanacname="@ + enc(m, "wlanacname"@);
    let b0 = "&wlanusermac="@;
    let b1 = b0 + enc(m, "wlanusermac"@);
    let b2 = b1 + "&wlanapip="@;
    let b3 = b2 + enc(m, "wlanapip"@);
    let b4 = b3 + "&vlan="@;
    let b5 = b4 + enc(m, "vlan"@);
    let b6 = b5 + "&wlanacip="@;
    let b7 = b6 + enc(m, "wlanacip"@);
    lemma_concat_associative(ra, b6, enc(m, "wlanacip"@));
    lemma_concat_associative(ra, b5, "&wlanacip="@);
    lemma_concat_associative(ra, b4, enc(m, "vlan"@));
    lemma_concat_associative(ra, b3, "&vlan="@);
    lemma_concat_associative(ra, b2, enc(m, "wlanapip"@));
    lemma_concat_associative(ra, b1, "&wlanapip="@);
    lemma_concat_associative(ra, b0, enc(m, "wlanusermac"@));
    lemma_concat_associative("&"@, ra, b7);
    let fa = param_field(m, "error_code"@) + param_field(m, "wlanuserip"@)
        + param_field(m, "wlanapname"@) + param_field(m, "wlanacname"@);
    let c0 = param_field(m, "wlanusermac"@);
    let c1 = c0 + param_field(m, "wlanapip"@);
    let c2 = c1 + param_field(m, "vlan"@);
    let c3 = c2 + param_field(m, "wlanacip"@);
    lemma_concat_associative(fa, c2, param_field(m, "wlanacip"@));
    lemma_concat_associative(fa, c1, param_field(m, "vlan"@));
    lemma_concat_associative(fa, c0, param_field(m, "wlanapip"@));
}

proof fn lemma_auth_device_fields(m: Map<Seq<char>, Seq<char>>)
    ensures
        auth_query_device(m) == param_field(m, "wlanapmac"@) + param_field(m, "ssid"@)
            + param_field(m, "nasid"@) + param_field(m, "devicetype"@) + "("@
            + enc(m, "devicetype_version"@) + ")"@,
{
    reveal_strlit("&");
    reveal_strlit("=");
    reveal_strlit("wlanapmac");
    reveal_strlit("ssid");
    reveal_strlit("nasid");
    reveal_strlit("devicetype");
    reveal_strlit("devicetype_version");
    reveal_strlit("&wlanapmac=");
    reveal_strlit("&ssid=");
    reveal_strlit("&nasid=");
    reveal_strlit("&devicetype=");
    assert(auth_query_device(m) =~= param_field(m, "wlanapmac"@) + param_field(m, "ssid"@)
        + param_field(m, "nasid"@) + param_field(m, "devicetype"@) + "("@
        + enc(m, "devicetype_version"@) + ")"@);
}

proof fn lemma_auth_source_fields(m: Map<Seq<char>, Seq<char>>)
    ensures
        auth_query_source(m) == param_field(m, "apsn"@) + param_field(m, "srcurl"@)
            + param_field(m, "timestamp"@) + param_field(m, "sign"@) + "&osType=Linux64"@,
{
    reveal_strlit("&");
    reveal_strlit("=");
    reveal_strlit("apsn");
    reveal_strlit("srcurl");
    reveal_strlit("timestamp");
    reveal_strlit("sign");
    reveal_strlit("&apsn=");
    reveal_strlit("&srcurl=");
    reveal_strlit("&timestamp=");
    reveal_strlit("&sign=");
    assert(auth_query_source(m) =~= param_field(m, "apsn"@) + param_field(m, "srcurl"@)
        + param_field(m, "timestamp"@) + param_field(m, "sign"@) + "&osType=Linux64"@);
}

/// Each field of the query that opens the authentication page carries the
/// redirect's parameter of the same name, percent-encoded, in the order
/// `error_code`, `wlanuserip`, `wlanapname`, `wlanacname`, `wlanusermac`,
/// `wlanapip`, `vlan`, `wlanacip`, `wlanapmac`, `ssid`, `nasid`,
/// `devicetype` (followed by `devicetype_version` in brackets), `apsn`,
/// `srcurl`, `timestamp`, `sign`; the query ends with `osType=Linux64`.
pub proof fn lemma_auth_query_fields(m: Map<Seq<char>, Seq<char>>)
    ensures
        "&"@ + auth_query(m) == param_field(m, "error_code"@) + param_field(m, "wlanuserip"@)
            + param_field(m, "wlanapname"@) + param_field(m, "wlanacname"@)
            + param_field(m, "wlanusermac"@) + param_field(m, "wlanapip"@) + param_field(m, "vlan"@)
            + param_field(m, "wlanacip"@) + param_field(m, "wlanapmac"@) + param_field(m, "ssid"@)
            + param_field(m, "nasid"@) + param_field(m, "devicetype"@) + "("@
            + enc(m, "devicetype_version"@) + ")"@
            + param_field(m, "apsn"@) + param_field(m, "srcurl"@) + param_field(m, "timestamp"@)
                + param_field(m, "sign"@) + "&osType=Linux64"@,
{
    lemma_auth_head_fields(m);
    lemma_auth_device_fields(m);
    lemma_auth_source_fields(m);
    let h = param_field(m, "error_code"@) + param_field(m, "wlanuserip"@)
        + param_field(m, "wlanapname"@) + param_field(m, "wlanacname"@)
        + param_field(m, "wlanusermac"@) + param_field(m, "wlanapip"@) + param_field(m, "vlan"@)
        + param_field(m, "wlanacip"@);
    let d0 = param_field(m, "wlanapmac"@);
    let d1 = d0 + param_field(m, "ssid"@);
    let d2 = d1 + param_field(m, "nasid"@);
    let d3 = d2 + param_field(m, "devicetype"@);
    let e = enc(m, "devicetype_version"@);
    let p = h + d3 + "("@ + e + ")"@;
    let t0 = param_field(m, "apsn"@);
    let t1 = t0 + param_field(m, "srcurl"@);
    let t2 = t1 + param_field(m, "timestamp"@);
    let t3 = t2 + param_field(m, "sign"@);
    lemma_concat_associative("&"@, auth_query_head(m), auth_query_tail(m));
    lemma_concat_associative(h, auth_query_device(m), auth_query_source(m));
    lemma_concat_associative(h, d3 + "("@ + e, ")"@);
    lemma_concat_associative(h, d3 + "("@, e);
    lemma_concat_associative(h, d3, "("@);
    lemma_concat_associative(h, d2, param_field(m, "devicetype"@));
    lemma_concat_associative(h, d1, param_field(m, "nasid"@));
    lemma_concat_associative(h, d0, param_field(m, "ssid"@));
    lemma_concat_associative(p, t3, "&osType=Linux64"@);
    lemma_concat_associative(p, t2, param_field(m, "sign"@));
    lemma_concat_associative(p, t1, param_field(m, "timestamp"@));
    lemma_concat_associative(p, t0, param_field(m, "srcurl"@));
}

/// The login call carries the account, the password and the token, each
/// percent-encoded in the field of its own name.
pub proof fn lemma_do_auth_fields(account: Seq<char>, password: Seq<char>, token: Seq<char>)
    ensures
        do_auth_request(account, password, token).request_uri == auth_path()
            + "?method=doAuth&siteid=1"@ + query_field("account"@, account) + query_field(
            "password"@,
            password,
        ) + query_field("token"@, token),
{
    reveal_strlit("&");
    reveal_strlit("=");
    reveal_strlit("?");
    reveal_strlit("account");
    reveal_strlit("password");
    reveal_strlit("token");
    reveal_strlit("method=doAuth&siteid=1&account=");
    reveal_strlit("?method=doAuth&siteid=1");
    reveal_strlit("&password=");
    reveal_strlit("&token=");
    assert(do_auth_request(account, password, token).request_uri =~= auth_path()
        + "?method=doAuth&siteid=1"@ + query_field("account"@, account) + query_field(
        "password"@,
        password,
    ) + query_field("token"@, token));
}

/// The logout call carries the token, percent-encoded, in the `token` field.
pub proof fn lemma_offline_fields(token: Seq<char>)
    ensures
        offline_request(token).request_uri == auth_path() + "?method=offline&siteid=1"@
            + query_field("token"@, token),
{
    reveal_strlit("&");
    reveal_strlit("=");
    reveal_strlit("?");
    reveal_strlit("token");
    reveal_strlit("method=offline&siteid=1&token=");
    reveal_strlit("?method=offline&siteid=1");
    assert(offline_request(token).request_uri =~= auth_path() + "?method=offline&siteid=1"@
        + query_field("token"@, token));
}

/// A session keeps its user's account and password through every step;
/// the login request it sends carries them, with the token that it then
/// keeps, and the logout request carries that kept token.
pub proof fn lemma_session_requests_carry_user(s: SessionView, e: PortalEventView)
    ensures
        session_step(s, e).0.username == s.username,
        session_step(s, e).0.password == s.password,
        s.stage != PortalStage::DoAuthSent && session_step(s, e).0.stage == PortalStage::DoAuthSent
            ==> session_step(s, e).1 == send(
            Stream::Portal,
            do_auth_request(s.username, s.password, session_step(s, e).0.token),
        ),
        s.stage != PortalStage::OfflineSent && session_step(s, e).0.stage
            == PortalStage::OfflineSent ==> session_step(s, e).1 == send(
            Stream::Portal,
            offline_request(s.token),
        ),
{
}

/// A redirect's parameter of any name but `devicetype` and
/// `devicetype_version` is the last value that its query gives under that
/// name (or the empty text); a query without a `devicetype` pair gives its
/// pairs as they are.
pub proof fn lemma_redirect_params_plain(p: Seq<(Seq<char>, Seq<char>)>, k: Seq<char>)
    requires
        k != "devicetype"@,
        k != "devicetype_version"@,
    ensures
        redirect_params(p) matches Some(m) ==> param_get(m, k) == param_get(pairs_map(p), k),
        (forall|i: int| 0 <= i < p.len() ==> (#[trigger] p[i]).0 != "devicetype"@)
            ==> redirect_params(p) == Some(pairs_map(p)),
    decreases p.len(),
{
    if p.len() > 0 {
        let d = p.drop_last();
        lemma_redirect_params_plain(d, k);
        if forall|i: int| 0 <= i < p.len() ==> (#[trigger] p[i]).0 != "devicetype"@ {
            assert forall|i: int| 0 <= i < d.len() implies (#[trigger] d[i]).0 != "devicetype"@ by {
                assert(d[i] == p[i]);
            }
            assert(p[p.len() - 1].0 != "devicetype"@);
        }
    }
}

/// A `devicetype` value `a(b)c`, where `a` holds no bracket and `b` no
/// closing bracket, sets the parameter `devicetype` to `a` and
/// `devicetype_version` to `b`, whatever came before it.
pub proof fn lemma_redirect_device_type(
    p: Seq<(Seq<char>, Seq<char>)>,
    a: Seq<char>,
    b: Seq<char>,
    c: Seq<char>,
)
    requires
        lacks(a, '('),
        lacks(a, ')'),
        lacks(b, ')'),
    ensures
        redirect_params(p) matches Some(m) ==> redirect_params(
            p.push(("devicetype"@, a + "("@ + b + ")"@ + c)),
        ) == Some(m.insert("devicetype"@, a).insert("devicetype_version"@, b)),
{
    reveal_strlit("(");
    reveal_strlit(")");
    let v = a + "("@ + b + ")"@ + c;
    let q = p.push(("devicetype"@, v));
    assert(q.drop_last() =~= p);
    let n = a.len() as int;
    assert forall|j: int| 0 <= j < n implies !in_class(#[trigger] v[j], CharClass::Exactly('('))
        by {
        assert(v[j] == a[j]);
    }
    assert(v[n] == '(');
    lemma_first_in_at(v, CharClass::Exactly('('), n);
    let e = n + 1 + b.len();
    assert forall|j: int| 0 <= j < e implies !in_class(#[trigger] v[j], CharClass::Exactly(')'))
        by {
        if j < n {
            assert(v[j] == a[j]);
        } else if j > n {
            assert(v[j] == b[j - n - 1]);
        }
    }
    assert(v[e] == ')');
    lemma_first_in_at(v, CharClass::Exactly(')'), e);
    assert(v.take(n) =~= a);
    assert(v.subrange(n + 1, e) =~= b);
}

} // verus!
