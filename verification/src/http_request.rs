//! HTTP requests that the client sends to the portal.

use vstd::prelude::*;
use vstd::utf8::encode_utf8;

use crate::boundary::{json_text, json_to_string};
use crate::numtext::{decimal, push_decimal};
use crate::text::{push_str, string_of};

verus! {

pub struct HttpRequestView {
    pub method: Seq<char>,
    pub request_uri: Seq<char>,
    pub http_version: Seq<char>,
    pub connection: Seq<char>,
    pub host: Seq<char>,
    pub user_agent: Seq<char>,
}

/// The text of a request: request line, `Host`, `Connection` and
/// `User-Agent` headers, each ending in `"\r\n"`, then a blank line.
pub open spec fn request_text(r: HttpRequestView) -> Seq<char> {
    r.method + " "@ + r.request_uri + " "@ + r.http_version + "\r\n"@
        + "Host: "@ + r.host + "\r\n"@
        + "Connection: "@ + r.connection + "\r\n"@
        + "User-Agent: "@ + r.user_agent + "\r\n"@
        + "\r\n"@
}

/// A request without a body.
#[derive(Debug)]
pub struct HttpRequest {
    pub method: String,
    pub request_uri: String,
    pub http_version: String,
    pub connection: String,
    pub host: String,
    pub user_agent: String,
}

impl View for HttpRequest {
    type V = HttpRequestView;

    open spec fn view(&self) -> HttpRequestView {
        HttpRequestView {
            method: self.method@,
            request_uri: self.request_uri@,
            http_version: self.http_version@,
            connection: self.connection@,
            host: self.host@,
            user_agent: self.user_agent@,
        }
    }
}

/// Appends the characters of a `String`.
pub fn push_string(out: &mut Vec<char>, s: &String)
    ensures
        final(out)@ == old(out)@ + s@,
{
    push_str(out, s.as_str());
}

impl HttpRequest {
    /// The bytes of the request: its text in UTF-8.
    pub fn to_bytes(&self) -> (r: Vec<u8>)
        ensures
            r@ == encode_utf8(request_text(self@)),
    {
        let mut t: Vec<char> = Vec::new();
        push_string(&mut t, &self.method);
        push_str(&mut t, " ");
        push_string(&mut t, &self.request_uri);
        push_str(&mut t, " ");
        push_string(&mut t, &self.http_version);
        push_str(&mut t, "\r\n");
        push_str(&mut t, "Host: ");
        push_string(&mut t, &self.host);
        push_str(&mut t, "\r\n");
        push_str(&mut t, "Connection: ");
        push_string(&mut t, &self.connection);
        push_str(&mut t, "\r\n");
        push_str(&mut t, "User-Agent: ");
        push_string(&mut t, &self.user_agent);
        push_str(&mut t, "\r\n");
        push_str(&mut t, "\r\n");
        assert(t@ =~= request_text(self@));
        let s = string_of(&t);
        s.as_str().as_bytes_vec()
    }
}

pub struct HttpRequestPostView {
    pub method: Seq<char>,
    pub request_uri: Seq<char>,
    pub http_version: Seq<char>,
    pub connection: Seq<char>,
    pub host: Seq<char>,
    pub user_agent: Seq<char>,
    pub content_type: Seq<char>,
    pub accept: Seq<char>,
    pub content_length: usize,
    pub x_requested_with: Seq<char>,
    pub mp_expect_language: Seq<char>,
    pub origin: Seq<char>,
    pub referer: Seq<char>,
    pub accept_encoding: Seq<char>,
    pub accept_language: Seq<char>,
    pub cookie: Seq<char>,
}

/// The text of a POST request whose body is the JSON text `body`: request
/// line, headers (`Content-Length` the byte length of `body` in UTF-8),
/// a blank line, then `body`.
pub open spec fn post_request_text(r: HttpRequestPostView, body: Seq<char>) -> Seq<char> {
    r.method + " "@ + r.request_uri + " "@ + r.http_version + "\r\n"@
        + "Host: "@ + r.host + "\r\n"@
        + "Connection: "@ + r.connection + "\r\n"@
        + "Content-Length: "@ + decimal(encode_utf8(body).len()) + "\r\n"@
        + "Accept: "@ + r.accept + "\r\n"@
        + "X-Requested-With: "@ + r.x_requested_with + "\r\n"@
        + "User-Agent: "@ + r.user_agent + "\r\n"@
        + "MP-Expect-Language: "@ + r.mp_expect_language + "\r\n"@
        + "Content-Type: "@ + r.content_type + "\r\n"@
        + "Origin: "@ + r.origin + "\r\n"@
        + "Referer: "@ + r.referer + "\r\n"@
        + "Accept-Encoding: "@ + r.accept_encoding + "\r\n"@
        + "Accept-Language: "@ + r.accept_language + "\r\n"@
        + "Cookie: "@ + r.cookie + "\r\n"@
        + "\r\n"@
        + body
}

/// The body text of a POST request: the JSON text of its body, or the
/// empty text where writing it fails.
pub open spec fn post_body_text(body: serde_json::Value) -> Seq<char> {
    match json_text(body) {
        Some(t) => t,
        None => Seq::empty(),
    }
}

/// A POST request with a JSON body.
#[derive(Debug)]
pub struct HttpRequestPost {
    pub method: String,
    pub request_uri: String,
    pub http_version: String,
    pub connection: String,
    pub host: String,
    pub user_agent: String,
    pub content_type: String,
    pub accept: String,
    pub content_length: usize,
    pub x_requested_with: String,
    pub mp_expect_language: String,
    pub origin: String,
    pub referer: String,
    pub accept_encoding: String,
    pub accept_language: String,
    pub cookie: String,
    pub body: serde_json::Value,
}

impl View for HttpRequestPost {
    type V = HttpRequestPostView;

    open spec fn view(&self) -> HttpRequestPostView {
        HttpRequestPostView {
            method: self.method@,
            request_uri: self.request_uri@,
            http_version: self.http_version@,
            connection: self.connection@,
            host: self.host@,
            user_agent: self.user_agent@,
            content_type: self.content_type@,
            accept: self.accept@,
            content_length: self.content_length,
            x_requested_with: self.x_requested_with@,
            mp_expect_language: self.mp_expect_language@,
            origin: self.origin@,
            referer: self.referer@,
            accept_encoding: self.accept_encoding@,
            accept_language: self.accept_language@,
            cookie: self.cookie@,
        }
    }
}

impl HttpRequestPost {
    /// The bytes of the request: its text in UTF-8, with the body serialized
    /// by `serde_json::to_string` (the empty text when that fails).
    pub fn to_bytes(&self) -> (r: Vec<u8>)
        ensures
            r@ == encode_utf8(post_request_text(self@, post_body_text(self.body))),
    {
        let json_body = match json_to_string(&self.body) {
            Ok(s) => s,
            Err(_) => String::new(),
        };
        self.to_bytes_with_body(json_body.as_str())
    }

    /// The bytes of the request with `json_body` as its body text.
    pub fn to_bytes_with_body(&self, json_body: &str) -> (r: Vec<u8>)
        ensures
            r@ == encode_utf8(post_request_text(self@, json_body@)),
    {
        let mut t: Vec<char> = Vec::new();
        push_string(&mut t, &self.method);
        push_str(&mut t, " ");
        push_string(&mut t, &self.request_uri);
        push_str(&mut t, " ");
        push_string(&mut t, &self.http_version);
        push_str(&mut t, "\r\n");
        push_str(&mut t, "Host: ");
        push_string(&mut t, &self.host);
        push_str(&mut t, "\r\n");
        push_str(&mut t, "Connection: ");
        push_string(&mut t, &self.connection);
        push_str(&mut t, "\r\n");
        push_str(&mut t, "Content-Length: ");
        let body_len = json_body.as_bytes().len();
        push_decimal(&mut t, body_len as u64);
        push_str(&mut t, "\r\n");
        push_str(&mut t, "Accept: ");
        push_string(&mut t, &self.accept);
        push_str(&mut t, "\r\n");
        push_str(&mut t, "X-Requested-With: ");
        push_string(&mut t, &self.x_requested_with);
        push_str(&mut t, "\r\n");
        push_str(&mut t, "User-Agent: ");
        push_string(&mut t, &self.user_agent);
        push_str(&mut t, "\r\n");
        push_str(&mut t, "MP-Expect-Language: ");
        push_string(&mut t, &self.mp_expect_language);
        push_str(&mut t, "\r\n");
        push_str(&mut t, "Content-Type: ");
        push_string(&mut t, &self.content_type);
        push_str(&mut t, "\r\n");
        push_str(&mut t, "Origin: ");
        push_string(&mut t, &self.origin);
        push_str(&mut t, "\r\n");
        push_str(&mut t, "Referer: ");
        push_string(&mut t, &self.referer);
        push_str(&mut t, "\r\n");
        push_str(&mut t, "Accept-Encoding: ");
        push_string(&mut t, &self.accept_encoding);
        push_str(&mut t, "\r\n");
        push_str(&mut t, "Accept-Language: ");
        push_string(&mut t, &self.accept_language);
        push_str(&mut t, "\r\n");
        push_str(&mut t, "Cookie: ");
        push_string(&mut t, &self.cookie);
        push_str(&mut t, "\r\n");
        push_str(&mut t, "\r\n");
        push_str(&mut t, json_body);
        assert(t@ =~= post_request_text(self@, json_body@));
        let s = string_of(&t);
        s.as_str().as_bytes_vec()
    }
}

} // verus!
