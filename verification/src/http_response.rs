//! HTTP responses read from the portal: the head of a response, a redirect,
//! and a plain status reply.

use vstd::prelude::*;

use vstd::utf8::encode_utf8;

use crate::boundary::{debug_text, str_debug};
use crate::numtext::{
    decimal, is_digit, lemma_decimal_value, lemma_parse_decimal, parse_uint, parse_unsigned,
    push_decimal,
};
use crate::text::{
    after_first, chars_of, contains, contains_seq, join_spaced, join_spaced_from, lines,
    push_all, push_str, second_field, split_lines, split_words, starts_with, string_of, trim,
    trimmed_after_first, trimmed_second_field, views, words, no_ws, no_line_feed, lemma_words_cons,
    lemma_words_no_ws, lemma_join_no_line_feed, lemma_lines_crlf, is_ws, lacks, is_trimmed,
    lemma_after_name, lemma_no_second_colon, lemma_trim_space_before, lemma_first_word_prefix,
    lemma_words_of_join, lemma_fields_lack, lemma_trim_props, lemma_lines_lack_line_feed,
    lemma_lines_append, lemma_lines_one, lemma_strip_cr_prefix, strip_cr, before_first,
    lemma_second_field_after_name,
};

verus! {

/// What a response's head lines have set so far.
pub struct ResponseHead {
    pub version: Seq<char>,
    pub status_code: u16,
    pub status_phrase: Seq<char>,
    pub server: Seq<char>,
    pub connection: Seq<char>,
    pub location: Option<Seq<char>>,
    pub content_type: Seq<char>,
}

pub open spec fn empty_head() -> ResponseHead {
    ResponseHead {
        version: Seq::empty(),
        status_code: 0,
        status_phrase: Seq::empty(),
        server: Seq::empty(),
        connection: Seq::empty(),
        location: None,
        content_type: Seq::empty(),
    }
}

/// The status code that a word gives: its value as a `u16`, or 0.
pub open spec fn code_of(w: Seq<char>) -> u16 {
    match parse_uint(w, 65535) {
        Some(v) => v as u16,
        None => 0,
    }
}

/// Whether `v` is an absolute `http` or `https` URL.
pub open spec fn is_web_url(v: Seq<char>) -> bool {
    "http://"@.is_prefix_of(v) || "https://"@.is_prefix_of(v)
}

/// The head after reading the status line `line` (one that starts with
/// `"HTTP/"`): version, code and phrase when it has three words or more.
pub open spec fn read_status_line(h: ResponseHead, line: Seq<char>) -> ResponseHead {
    let p = words(line);
    if p.len() >= 3 {
        ResponseHead { version: p[0], status_code: code_of(p[1]), status_phrase: join_spaced(p.skip(2)), ..h }
    } else {
        h
    }
}

/// The head after reading one more line of a response.
pub open spec fn read_head_line(h: ResponseHead, line: Seq<char>) -> ResponseHead {
    if "HTTP/"@.is_prefix_of(line) {
        read_status_line(h, line)
    } else if "Server:"@.is_prefix_of(line) {
        ResponseHead { server: trim(second_field(line, ':')), ..h }
    } else if "Connection:"@.is_prefix_of(line) {
        ResponseHead { connection: trim(second_field(line, ':')), ..h }
    } else if "Location:"@.is_prefix_of(line) {
        let v = trim(after_first(line, ':'));
        if is_web_url(v) {
            ResponseHead { location: Some(v), ..h }
        } else {
            h
        }
    } else if "Content-Type:"@.is_prefix_of(line) {
        ResponseHead { content_type: trim(second_field(line, ':')), ..h }
    } else {
        h
    }
}

/// The head after reading all of `ls`, in order.
pub open spec fn read_head_lines(ls: Seq<Seq<char>>) -> ResponseHead
    decreases ls.len(),
{
    if ls.len() == 0 {
        empty_head()
    } else {
        read_head_line(read_head_lines(ls.drop_last()), ls.last())
    }
}

/// The head after reading only the status lines of `ls`.
pub open spec fn read_status_lines(ls: Seq<Seq<char>>) -> ResponseHead
    decreases ls.len(),
{
    if ls.len() == 0 {
        empty_head()
    } else {
        let h = read_status_lines(ls.drop_last());
        if "HTTP/"@.is_prefix_of(ls.last()) {
            read_status_line(h, ls.last())
        } else {
            h
        }
    }
}

/// A head that a response is made of: a version, a code other than 0 and a phrase.
pub open spec fn head_complete(h: ResponseHead) -> bool {
    h.version.len() > 0 && h.status_code != 0 && h.status_phrase.len() > 0
}

pub struct HttpResponseView {
    pub head: ResponseHead,
    pub file_data: Seq<u8>,
}

/// The response that `HttpResponse::from_raw_text` reads from `text`.
pub open spec fn parse_response(text: Seq<char>) -> Option<HttpResponseView> {
    let h = read_head_lines(lines(text));
    if head_complete(h) {
        Some(HttpResponseView { head: h, file_data: Seq::empty() })
    } else {
        None
    }
}

/// The text of a response's head, through the blank line that ends it.
pub open spec fn response_head_text(h: ResponseHead) -> Seq<char> {
    h.version + " "@ + decimal(h.status_code as nat) + " "@ + h.status_phrase + "\r\n"@
        + "Server: "@ + h.server + "\r\n"@
        + "Connection: "@ + h.connection + "\r\n"@
        + match h.location {
            Some(l) => "Location: "@ + l + "\r\n"@,
            None => Seq::empty(),
        }
        + "Content-Type: "@ + h.content_type + "\r\n"@
        + "\r\n"@
}

/// An HTTP response: the fields of its head, and its body.
#[derive(Debug)]
pub struct HttpResponse {
    pub response_version: String,
    pub status_code: u16,
    pub status_phrase: String,
    pub server: String,
    pub connection: String,
    pub location: Option<String>,
    pub content_type: String,
    pub file_data: Vec<u8>,
}

impl View for HttpResponse {
    type V = HttpResponseView;

    open spec fn view(&self) -> HttpResponseView {
        HttpResponseView {
            head: ResponseHead {
                version: self.response_version@,
                status_code: self.status_code,
                status_phrase: self.status_phrase@,
                server: self.server@,
                connection: self.connection@,
                location: self.location.deep_view(),
                content_type: self.content_type@,
            },
            file_data: self.file_data@,
        }
    }
}

/// A status line split into version, code and phrase, when it has three words or more.
fn read_status(line: &Vec<char>) -> (r: Option<(Vec<char>, u16, Vec<char>)>)
    ensures
        match r {
            Some((v, c, p)) => words(line@).len() >= 3 && v@ == words(line@)[0] && c == code_of(
                words(line@)[1],
            ) && p@ == join_spaced(words(line@).skip(2)),
            None => words(line@).len() < 3,
        },
{
    let parts = split_words(line);
    if parts.len() >= 3 {
        assert(views(parts@)[0] == parts@[0]@);
        assert(views(parts@)[1] == parts@[1]@);
        let version = parts[0].clone();
        assert(version@ == parts@[0]@);
        let code = match parse_unsigned(&parts[1], 65535) {
            Some(v) => v as u16,
            None => 0,
        };
        let phrase = join_spaced_from(&parts, 2);
        Some((version, code, phrase))
    } else {
        None
    }
}

impl HttpResponse {
    /// Reads a response from its text. Each line that starts with `HTTP/`
    /// and has three words or more sets the version, the code (0 when the
    /// second word is no `u16`) and the phrase (the words from the third on,
    /// joined by single spaces); `Server:`, `Connection:` and
    /// `Content-Type:` lines set their field to the trimmed text between the
    /// first and second colon; a `Location:` line sets the location to the
    /// trimmed text after the first colon when that starts with `http://` or
    /// `https://`. A later line overrides an earlier one. The response exists
    /// when version, code and phrase have been set; its body is empty.
    pub fn from_raw_text(raw_text: &str) -> (r: Option<Self>)
        ensures
            r is Some <==> parse_response(raw_text@) is Some,
            r matches Some(resp) ==> parse_response(raw_text@) == Some(resp@),
    {
        let text = chars_of(raw_text);
        let ls = split_lines(&text);
        let ghost lv = views(ls@);
        let mut version: Vec<char> = Vec::new();
        let mut status_code: u16 = 0;
        let mut phrase: Vec<char> = Vec::new();
        let mut server: Vec<char> = Vec::new();
        let mut connection: Vec<char> = Vec::new();
        let mut location: Option<Vec<char>> = None;
        let mut content_type: Vec<char> = Vec::new();
        let mut i: usize = 0;
        assert(lv.take(0) =~= Seq::<Seq<char>>::empty());
        while i < ls.len()
            invariant
                i <= ls.len(),
                lv == views(ls@),
                lv == lines(text@),
                read_head_lines(lv.take(i as int)) == (ResponseHead {
                    version: version@,
                    status_code,
                    status_phrase: phrase@,
                    server: server@,
                    connection: connection@,
                    location: opt_chars(location),
                    content_type: content_type@,
                }),
            decreases ls.len() - i,
        {
            let line = &ls[i];
            assert(lv[i as int] == line@);
            assert(lv.take(i + 1).drop_last() =~= lv.take(i as int));
            let ghost h0 = read_head_lines(lv.take(i as int));
            assert(read_head_lines(lv.take(i + 1)) == read_head_line(h0, line@));
            if starts_with(line, "HTTP/") {
                match read_status(line) {
                    Some((v, c, p)) => {
                        version = v;
                        status_code = c;
                        phrase = p;
                    },
                    None => {},
                }
            } else if starts_with(line, "Server:") {
                server = trimmed_second_field(line, ':');
            } else if starts_with(line, "Connection:") {
                connection = trimmed_second_field(line, ':');
            } else if starts_with(line, "Location:") {
                let v = trimmed_after_first(line, ':');
                if starts_with(&v, "http://") || starts_with(&v, "https://") {
                    location = Some(v);
                }
            } else if starts_with(line, "Content-Type:") {
                content_type = trimmed_second_field(line, ':');
            }
            assert(read_head_line(h0, line@) == (ResponseHead {
                version: version@,
                status_code,
                status_phrase: phrase@,
                server: server@,
                connection: connection@,
                location: opt_chars(location),
                content_type: content_type@,
            }));
            i += 1;
        }
        assert(lv.take(i as int) =~= lv);
        if version.len() > 0 && status_code != 0 && phrase.len() > 0 {
            let ghost loc = opt_chars(location);
            let location = match location {
                Some(l) => Some(string_of(&l)),
                None => None,
            };
            assert(location.deep_view() == loc);
            Some(
                HttpResponse {
                    response_version: string_of(&version),
                    status_code,
                    status_phrase: string_of(&phrase),
                    server: string_of(&server),
                    connection: string_of(&connection),
                    location,
                    content_type: string_of(&content_type),
                    file_data: Vec::new(),
                },
            )
        } else {
            None
        }
    }

    /// The bytes of the response: its head in UTF-8, each line ending in
    /// `"\r\n"`, then a blank line, then the body.
    pub fn to_bytes(&self) -> (r: Vec<u8>)
        ensures
            r@ == encode_utf8(response_head_text(self@.head)) + self@.file_data,
    {
        let mut t: Vec<char> = Vec::new();
        push_str_string(&mut t, &self.response_version);
        push_str(&mut t, " ");
        push_decimal(&mut t, self.status_code as u64);
        push_str(&mut t, " ");
        push_str_string(&mut t, &self.status_phrase);
        push_str(&mut t, "\r\n");
        push_str(&mut t, "Server: ");
        push_str_string(&mut t, &self.server);
        push_str(&mut t, "\r\n");
        push_str(&mut t, "Connection: ");
        push_str_string(&mut t, &self.connection);
        push_str(&mut t, "\r\n");
        let ghost before_location = t@;
        match &self.location {
            Some(l) => {
                push_str(&mut t, "Location: ");
                push_str_string(&mut t, l);
                push_str(&mut t, "\r\n");
            },
            None => {},
        }
        push_str(&mut t, "Content-Type: ");
        push_str_string(&mut t, &self.content_type);
        push_str(&mut t, "\r\n");
        push_str(&mut t, "\r\n");
        assert(t@ =~= response_head_text(self@.head));
        let s = string_of(&t);
        let mut bytes = s.as_str().as_bytes_vec();
        let mut data = self.file_data.clone();
        bytes.append(&mut data);
        bytes
    }
}

/// What a redirect's lines have set so far.
pub struct RedirectHead {
    pub status_code: u16,
    pub location: Option<Seq<char>>,
    pub cookie: Seq<char>,
}

/// A line that `HttpRedirectResponse::from_raw_text` takes for a status line.
pub open spec fn is_redirect_status_line(line: Seq<char>) -> bool {
    "HTTP/"@.is_prefix_of(line) && contains_seq(line, "302"@)
}

/// The redirect after reading one more line.
pub open spec fn read_redirect_line(h: RedirectHead, line: Seq<char>) -> RedirectHead {
    if is_redirect_status_line(line) {
        RedirectHead { status_code: code_of(words(line)[1]), ..h }
    } else if "Location:"@.is_prefix_of(line) {
        let v = trim(after_first(line, ':'));
        if is_web_url(v) {
            RedirectHead { location: Some(v), ..h }
        } else {
            h
        }
    } else if "Set-Cookie:"@.is_prefix_of(line) {
        RedirectHead { cookie: trim(after_first(line, ':')), ..h }
    } else {
        h
    }
}

/// The redirect after reading all of `ls`, in order.
pub open spec fn read_redirect_lines(ls: Seq<Seq<char>>) -> RedirectHead
    decreases ls.len(),
{
    if ls.len() == 0 {
        RedirectHead { status_code: 0, location: None, cookie: Seq::empty() }
    } else {
        read_redirect_line(read_redirect_lines(ls.drop_last()), ls.last())
    }
}

/// Every line of `text` that is taken for a redirect's status line has a second word.
pub open spec fn redirect_readable(text: Seq<char>) -> bool {
    forall|i: int|
        0 <= i < lines(text).len() && is_redirect_status_line(#[trigger] lines(text)[i]) ==> words(
            lines(text)[i],
        ).len() >= 2
}

/// The redirect that `HttpRedirectResponse::from_raw_text` reads from `text`.
pub open spec fn parse_redirect(text: Seq<char>) -> Option<RedirectHead> {
    let h = read_redirect_lines(lines(text));
    if h.status_code == 302 {
        Some(h)
    } else {
        None
    }
}

/// What `{:?}` writes for an optional string.
pub open spec fn option_debug_text(o: Option<Seq<char>>) -> Seq<char> {
    match o {
        Some(s) => "Some("@ + debug_text(s) + ")"@,
        None => "None"@,
    }
}

/// The text of a redirect as `HttpRedirectResponse::to_bytes` writes it.
pub open spec fn redirect_text(h: RedirectHead) -> Seq<char> {
    "HTTP/1.1 302 Found\r\nLocation: "@ + option_debug_text(h.location) + "\r\nSet-Cookie: "@
        + h.cookie + "\r\n\r\n"@
}

/// A `302` redirect: where it points and the cookie it sets.
#[derive(Debug)]
pub struct HttpRedirectResponse {
    pub status_code: u16,
    pub location: Option<String>,
    pub cookie: String,
}

impl View for HttpRedirectResponse {
    type V = RedirectHead;

    open spec fn view(&self) -> RedirectHead {
        RedirectHead {
            status_code: self.status_code,
            location: self.location.deep_view(),
            cookie: self.cookie@,
        }
    }
}

impl HttpRedirectResponse {
    /// Whether every line of `raw_text` that `from_raw_text` takes for a
    /// status line (one that starts with `HTTP/` and holds `302`) has a
    /// second word, as reading it needs.
    pub fn is_readable(raw_text: &str) -> (r: bool)
        ensures
            r == redirect_readable(raw_text@),
    {
        let text = chars_of(raw_text);
        let ls = split_lines(&text);
        let ghost lv = views(ls@);
        let mut i: usize = 0;
        while i < ls.len()
            invariant
                i <= ls.len(),
                lv == views(ls@),
                lv == lines(raw_text@),
                forall|j: int|
                    0 <= j < i && is_redirect_status_line(#[trigger] lv[j]) ==> words(lv[j]).len()
                        >= 2,
            decreases ls.len() - i,
        {
            let line = &ls[i];
            assert(lv[i as int] == line@);
            if starts_with(line, "HTTP/") && contains(line, "302") {
                let parts = split_words(line);
                assert(views(parts@).len() == parts@.len());
                if parts.len() < 2 {
                    return false;
                }
            }
            i += 1;
        }
        true
    }

    /// Reads a redirect from its text. A line that starts with `HTTP/` and
    /// holds `302` sets the code to its second word as a `u16` (0 when it is
    /// none); a `Location:` line sets the location to the trimmed text after
    /// the first colon when that starts with `http://` or `https://`; a
    /// `Set-Cookie:` line sets the cookie to the trimmed text after the first
    /// colon. A later line overrides an earlier one. The redirect exists when
    /// the code is 302.
    pub fn from_raw_text(raw_text: &str) -> (r: Option<Self>)
        requires
            redirect_readable(raw_text@),
        ensures
            r is Some <==> parse_redirect(raw_text@) is Some,
            r matches Some(resp) ==> parse_redirect(raw_text@) == Some(resp@),
    {
        let text = chars_of(raw_text);
        let ls = split_lines(&text);
        let ghost lv = views(ls@);
        let mut status_code: u16 = 0;
        let mut location: Option<Vec<char>> = None;
        let mut cookie: Vec<char> = Vec::new();
        let mut i: usize = 0;
        assert(lv.take(0) =~= Seq::<Seq<char>>::empty());
        while i < ls.len()
            invariant
                i <= ls.len(),
                lv == views(ls@),
                lv == lines(raw_text@),
                redirect_readable(raw_text@),
                read_redirect_lines(lv.take(i as int)) == (RedirectHead {
                    status_code,
                    location: opt_chars(location),
                    cookie: cookie@,
                }),
            decreases ls.len() - i,
        {
            let line = &ls[i];
            assert(lv[i as int] == line@);
            assert(lv.take(i + 1).drop_last() =~= lv.take(i as int));
            if starts_with(line, "HTTP/") && contains(line, "302") {
                let parts = split_words(line);
                assert(views(parts@)[1] == parts@[1]@);
                status_code = match parse_unsigned(&parts[1], 65535) {
                    Some(v) => v as u16,
                    None => 0,
                };
            } else if starts_with(line, "Location:") {
                let v = trimmed_after_first(line, ':');
                if starts_with(&v, "http://") || starts_with(&v, "https://") {
                    location = Some(v);
                }
            } else if starts_with(line, "Set-Cookie:") {
                cookie = trimmed_after_first(line, ':');
            }
            i += 1;
        }
        assert(lv.take(i as int) =~= lv);
        if status_code == 302 {
            let ghost loc = opt_chars(location);
            let location = match location {
                Some(l) => Some(string_of(&l)),
                None => None,
            };
            assert(location.deep_view() == loc);
            Some(HttpRedirectResponse { status_code, location, cookie: string_of(&cookie) })
        } else {
            None
        }
    }

    /// The bytes of the redirect as this client writes one: status line
    /// `HTTP/1.1 302 Found`, a `Location:` line holding the location as
    /// `{:?}` formats an `Option<String>`, and a `Set-Cookie:` line.
    pub fn to_bytes(&self) -> (r: Vec<u8>)
        ensures
            r@ == encode_utf8(redirect_text(self@)),
    {
        let mut t: Vec<char> = Vec::new();
        push_str(&mut t, "HTTP/1.1 302 Found\r\nLocation: ");
        let ghost before = t@;
        match &self.location {
            Some(l) => {
                push_str(&mut t, "Some(");
                let d = str_debug(l.as_str());
                push_str_string(&mut t, &d);
                push_str(&mut t, ")");
            },
            None => {
                push_str(&mut t, "None");
            },
        }
        assert(t@ =~= before + option_debug_text(self@.location));
        push_str(&mut t, "\r\nSet-Cookie: ");
        push_str_string(&mut t, &self.cookie);
        push_str(&mut t, "\r\n\r\n");
        assert(t@ =~= redirect_text(self@));
        let s = string_of(&t);
        s.as_str().as_bytes_vec()
    }
}

/// A status reply: version, code and phrase of its status line, and its body.
pub struct HttpResponseOkView {
    pub version: Seq<char>,
    pub status_code: u16,
    pub status_phrase: Seq<char>,
    pub file_data: Seq<u8>,
}

/// The status reply that `HttpResponseOk::from_raw_text` reads from `text`.
pub open spec fn parse_response_ok(text: Seq<char>) -> Option<HttpResponseOkView> {
    let h = read_status_lines(lines(text));
    if head_complete(h) {
        Some(
            HttpResponseOkView {
                version: h.version,
                status_code: h.status_code,
                status_phrase: h.status_phrase,
                file_data: Seq::empty(),
            },
        )
    } else {
        None
    }
}

/// The status line of a reply, ending in `"\r\n"`.
pub open spec fn status_line_text(v: HttpResponseOkView) -> Seq<char> {
    v.version + " "@ + decimal(v.status_code as nat) + " "@ + v.status_phrase + "\r\n"@
}

/// A status reply: its status line and body.
#[derive(Debug)]
pub struct HttpResponseOk {
    pub response_version: String,
    pub status_code: u16,
    pub status_phrase: String,
    pub file_data: Vec<u8>,
}

impl View for HttpResponseOk {
    type V = HttpResponseOkView;

    open spec fn view(&self) -> HttpResponseOkView {
        HttpResponseOkView {
            version: self.response_version@,
            status_code: self.status_code,
            status_phrase: self.status_phrase@,
            file_data: self.file_data@,
        }
    }
}

impl HttpResponseOk {
    /// Reads a status reply from its text: each line that starts with `HTTP/`
    /// and has three words or more sets version, code and phrase as in
    /// `HttpResponse::from_raw_text`; other lines are passed over. The reply
    /// exists when version, code and phrase have been set; its body is empty.
    pub fn from_raw_text(raw_text: &str) -> (r: Option<Self>)
        ensures
            r is Some <==> parse_response_ok(raw_text@) is Some,
            r matches Some(resp) ==> parse_response_ok(raw_text@) == Some(resp@),
    {
        let text = chars_of(raw_text);
        let ls = split_lines(&text);
        let ghost lv = views(ls@);
        let mut version: Vec<char> = Vec::new();
        let mut status_code: u16 = 0;
        let mut phrase: Vec<char> = Vec::new();
        let mut i: usize = 0;
        assert(lv.take(0) =~= Seq::<Seq<char>>::empty());
        while i < ls.len()
            invariant
                i <= ls.len(),
                lv == views(ls@),
                lv == lines(raw_text@),
                read_status_lines(lv.take(i as int)).version == version@,
                read_status_lines(lv.take(i as int)).status_code == status_code,
                read_status_lines(lv.take(i as int)).status_phrase == phrase@,
            decreases ls.len() - i,
        {
            let line = &ls[i];
            assert(lv[i as int] == line@);
            assert(lv.take(i + 1).drop_last() =~= lv.take(i as int));
            if starts_with(line, "HTTP/") {
                match read_status(line) {
                    Some((v, c, p)) => {
                        version = v;
                        status_code = c;
                        phrase = p;
                    },
                    None => {},
                }
            }
            i += 1;
        }
        assert(lv.take(i as int) =~= lv);
        if version.len() > 0 && status_code != 0 && phrase.len() > 0 {
            Some(
                HttpResponseOk {
                    response_version: string_of(&version),
                    status_code,
                    status_phrase: string_of(&phrase),
                    file_data: Vec::new(),
                },
            )
        } else {
            None
        }
    }

    /// The bytes of the reply: its status line in UTF-8, then the body.
    pub fn to_bytes(&self) -> (r: Vec<u8>)
        ensures
            r@ == encode_utf8(status_line_text(self@)) + self@.file_data,
    {
        let mut t: Vec<char> = Vec::new();
        push_str_string(&mut t, &self.response_version);
        push_str(&mut t, " ");
        push_decimal(&mut t, self.status_code as u64);
        push_str(&mut t, " ");
        push_str_string(&mut t, &self.status_phrase);
        push_str(&mut t, "\r\n");
        assert(t@ =~= status_line_text(self@));
        let s = string_of(&t);
        let mut bytes = s.as_str().as_bytes_vec();
        let mut data = self.file_data.clone();
        bytes.append(&mut data);
        bytes
    }
}

/// The characters of an optional vector.
pub open spec fn opt_chars(o: Option<Vec<char>>) -> Option<Seq<char>> {
    match o {
        Some(v) => Some(v@),
        None => None,
    }
}

/// Appends the characters of a `String`.
fn push_str_string(out: &mut Vec<char>, s: &String)
    ensures
        final(out)@ == old(out)@ + s@,
{
    push_str(out, s.as_str());
}


/// A status phrase as reading gives it back: words joined by single spaces.
pub open spec fn phrase_normal(p: Seq<char>) -> bool {
    p.len() > 0 && join_spaced(words(p)) == p
}

/// A status line that reads back as it was written: a version that starts
/// with `HTTP/` and holds no whitespace, a code other than 0, and a phrase
/// of words joined by single spaces.
pub open spec fn status_line_readable(version: Seq<char>, code: u16, phrase: Seq<char>) -> bool {
    &&& "HTTP/"@.is_prefix_of(version)
    &&& no_ws(version)
    &&& code != 0
    &&& phrase_normal(phrase)
}

/// The words of a status line: its version, its code, then the words of its phrase.
proof fn lemma_status_line_words(version: Seq<char>, code: u16, phrase: Seq<char>)
    requires
        status_line_readable(version, code, phrase),
    ensures
        words(version + " "@ + decimal(code as nat) + " "@ + phrase) == seq![
            version,
            decimal(code as nat),
        ] + words(phrase),
        no_line_feed(version + " "@ + decimal(code as nat) + " "@ + phrase),
        "HTTP/"@.is_prefix_of(version + " "@ + decimal(code as nat) + " "@ + phrase),
{
    reveal_strlit(" ");
    reveal_strlit("HTTP/");
    let d = decimal(code as nat);
    lemma_decimal_value(code as nat);
    assert forall|i: int| 0 <= i < d.len() implies !is_ws(#[trigger] d[i]) by {
        assert(is_digit(d[i]));
    }
    lemma_words_cons(d, phrase);
    assert(d + " "@ + phrase =~= d + seq![' '] + phrase);
    lemma_words_cons(version, d + " "@ + phrase);
    let line = version + " "@ + d + " "@ + phrase;
    assert(line =~= version + seq![' '] + (d + " "@ + phrase));
    lemma_words_no_ws(phrase);
    lemma_join_no_line_feed(words(phrase));
    assert forall|i: int| 0 <= i < line.len() implies #[trigger] line[i] != '\n' by {
        if i < version.len() {
            assert(line[i] == version[i]);
        } else if i == version.len() {
        } else if i < version.len() + 1 + d.len() {
            assert(line[i] == d[i - version.len() - 1]);
            assert(is_digit(d[i - version.len() - 1]));
        } else if i == version.len() + 1 + d.len() {
        } else {
            assert(line[i] == phrase[i - version.len() - 2 - d.len()]);
        }
    }
    assert(line.subrange(0, "HTTP/"@.len() as int) =~= version.subrange(0, "HTTP/"@.len() as int));
}

/// The status line that `HttpResponseOk::to_bytes` writes reads back, by
/// `HttpResponseOk::from_raw_text`, as the same version, code and phrase.
pub proof fn lemma_status_reply_round_trip(v: HttpResponseOkView)
    requires
        status_line_readable(v.version, v.status_code, v.status_phrase),
    ensures
        parse_response_ok(status_line_text(v)) == Some(
            HttpResponseOkView { file_data: Seq::empty(), ..v },
        ),
{
    let line = v.version + " "@ + decimal(v.status_code as nat) + " "@ + v.status_phrase;
    lemma_status_line_words(v.version, v.status_code, v.status_phrase);
    lemma_lines_crlf(line, Seq::empty());
    assert(status_line_text(v) =~= line + "\r\n"@ + Seq::<char>::empty());
    assert(lines(Seq::<char>::empty()) =~= Seq::<Seq<char>>::empty());
    let ls = lines(status_line_text(v));
    assert(ls =~= seq![line]);
    assert(ls.drop_last() =~= Seq::<Seq<char>>::empty());
    let p = words(line);
    assert(p.skip(2) =~= words(v.status_phrase));
    assert(words(v.status_phrase).len() > 0);
    assert(p.len() >= 3);
    assert(p[0] == v.version);
    lemma_parse_decimal(v.status_code as nat, 65535);
    assert(code_of(p[1]) == v.status_code);
    assert(ls.last() == line);
    let h = read_status_line(empty_head(), line);
    assert(h.version == v.version);
    assert(h.status_phrase == v.status_phrase);
    assert(read_status_lines(ls.drop_last()) == empty_head());
    assert("HTTP/"@.is_prefix_of(ls.last()));
    assert(read_status_lines(ls) == h);
    reveal_strlit("HTTP/");
    assert(v.version.len() > 0);
}


/// A header value that reads back as written: no colon, no line feed,
/// nothing for trimming to take.
pub open spec fn header_value_ok(x: Seq<char>) -> bool {
    lacks(x, ':') && no_line_feed(x) && is_trimmed(x)
}

/// A location that reads back as written: none, or a web URL without line
/// feeds and with nothing for trimming to take.
pub open spec fn location_ok(l: Option<Seq<char>>) -> bool {
    match l {
        None => true,
        Some(u) => is_web_url(u) && no_line_feed(u) && is_trimmed(u),
    }
}

/// A head whose text reads back as the same head.
pub open spec fn head_readable(h: ResponseHead) -> bool {
    &&& status_line_readable(h.version, h.status_code, h.status_phrase)
    &&& header_value_ok(h.server)
    &&& header_value_ok(h.connection)
    &&& header_value_ok(h.content_type)
    &&& location_ok(h.location)
}

proof fn lemma_read_head_lines_push(ls: Seq<Seq<char>>, l: Seq<char>)
    ensures
        read_head_lines(ls.push(l)) == read_head_line(read_head_lines(ls), l),
{
    assert(ls.push(l).drop_last() =~= ls);
}

/// A header line `name: x` sets its field to `x`.
proof fn lemma_header_field(label: Seq<char>, name: Seq<char>, x: Seq<char>)
    requires
        label == name + ": "@,
        lacks(name, ':'),
        no_line_feed(name),
        header_value_ok(x),
    ensures
        trim(second_field(label + x, ':')) == x,
        no_line_feed(label + x),
{
    reveal_strlit(": ");
    assert(label + x =~= name + ": "@ + x);
    lemma_after_name(name, x);
    lemma_no_second_colon(x);
    lemma_trim_space_before(x);
    assert forall|i: int| 0 <= i < (label + x).len() implies #[trigger] (label + x)[i] != '\n' by {
        if i < name.len() {
            assert((label + x)[i] == name[i]);
        } else if i >= label.len() {
            assert((label + x)[i] == x[i - label.len()]);
        }
    }
}


proof fn lemma_not_prefix(p: Seq<char>, s: Seq<char>, i: int)
    requires
        0 <= i < p.len(),
        i < s.len(),
        p[i] != s[i],
    ensures
        !p.is_prefix_of(s),
{
    if p.is_prefix_of(s) {
        assert(s.subrange(0, p.len() as int)[i] == s[i]);
    }
}

proof fn lemma_is_prefix(p: Seq<char>, s: Seq<char>)
    ensures
        p.is_prefix_of(p + s),
{
    assert((p + s).subrange(0, p.len() as int) =~= p);
}

/// The head after its status line.
proof fn lemma_status_head(h: ResponseHead)
    requires
        status_line_readable(h.version, h.status_code, h.status_phrase),
    ensures
        read_head_line(
            empty_head(),
            h.version + " "@ + decimal(h.status_code as nat) + " "@ + h.status_phrase,
        ) == (ResponseHead {
            version: h.version,
            status_code: h.status_code,
            status_phrase: h.status_phrase,
            ..empty_head()
        }),
{
    let line = h.version + " "@ + decimal(h.status_code as nat) + " "@ + h.status_phrase;
    lemma_status_line_words(h.version, h.status_code, h.status_phrase);
    let p = words(line);
    assert(p.skip(2) =~= words(h.status_phrase));
    assert(words(h.status_phrase).len() > 0);
    lemma_parse_decimal(h.status_code as nat, 65535);
    assert(code_of(p[1]) == h.status_code);
}

proof fn lemma_server_line(h: ResponseHead, x: Seq<char>)
    requires
        header_value_ok(x),
    ensures
        read_head_line(h, "Server: "@ + x) == (ResponseHead { server: x, ..h }),
        no_line_feed("Server: "@ + x),
{
    reveal_strlit("Server: ");
    reveal_strlit("Server");
    reveal_strlit("Server:");
    reveal_strlit("HTTP/");
    reveal_strlit(": ");
    reveal_strlit(" ");
    let l = "Server: "@ + x;
    assert("Server: "@ =~= "Server"@ + ": "@);
    lemma_header_field("Server: "@, "Server"@, x);
    lemma_not_prefix("HTTP/"@, l, 0);
    lemma_is_prefix("Server:"@, " "@ + x);
    assert(l =~= "Server:"@ + (" "@ + x));
}

proof fn lemma_connection_line(h: ResponseHead, x: Seq<char>)
    requires
        header_value_ok(x),
    ensures
        read_head_line(h, "Connection: "@ + x) == (ResponseHead { connection: x, ..h }),
        no_line_feed("Connection: "@ + x),
{
    reveal_strlit("Connection: ");
    reveal_strlit("Connection");
    reveal_strlit("Connection:");
    reveal_strlit("Server:");
    reveal_strlit("HTTP/");
    reveal_strlit(": ");
    reveal_strlit(" ");
    let l = "Connection: "@ + x;
    assert("Connection: "@ =~= "Connection"@ + ": "@);
    lemma_header_field("Connection: "@, "Connection"@, x);
    lemma_not_prefix("HTTP/"@, l, 0);
    lemma_not_prefix("Server:"@, l, 0);
    lemma_is_prefix("Connection:"@, " "@ + x);
    assert(l =~= "Connection:"@ + (" "@ + x));
}

proof fn lemma_location_line(h: ResponseHead, u: Seq<char>)
    requires
        location_ok(Some(u)),
    ensures
        read_head_line(h, "Location: "@ + u) == (ResponseHead { location: Some(u), ..h }),
        no_line_feed("Location: "@ + u),
{
    reveal_strlit("Location: ");
    reveal_strlit("Location");
    reveal_strlit("Location:");
    reveal_strlit("Connection:");
    reveal_strlit("Server:");
    reveal_strlit("HTTP/");
    reveal_strlit(": ");
    reveal_strlit(" ");
    let l = "Location: "@ + u;
    assert("Location: "@ =~= "Location"@ + ": "@);
    assert(l =~= "Location"@ + ": "@ + u);
    lemma_after_name("Location"@, u);
    lemma_trim_space_before(u);
    lemma_not_prefix("HTTP/"@, l, 0);
    lemma_not_prefix("Server:"@, l, 0);
    lemma_not_prefix("Connection:"@, l, 0);
    lemma_is_prefix("Location:"@, " "@ + u);
    assert(l =~= "Location:"@ + (" "@ + u));
    assert forall|i: int| 0 <= i < l.len() implies #[trigger] l[i] != '\n' by {
        if i >= 10 {
            assert(l[i] == u[i - 10]);
        }
    }
}

proof fn lemma_content_type_line(h: ResponseHead, x: Seq<char>)
    requires
        header_value_ok(x),
    ensures
        read_head_line(h, "Content-Type: "@ + x) == (ResponseHead { content_type: x, ..h }),
        no_line_feed("Content-Type: "@ + x),
{
    reveal_strlit("Content-Type: ");
    reveal_strlit("Content-Type");
    reveal_strlit("Content-Type:");
    reveal_strlit("Location:");
    reveal_strlit("Connection:");
    reveal_strlit("Server:");
    reveal_strlit("HTTP/");
    reveal_strlit(": ");
    reveal_strlit(" ");
    let l = "Content-Type: "@ + x;
    assert("Content-Type: "@ =~= "Content-Type"@ + ": "@);
    lemma_header_field("Content-Type: "@, "Content-Type"@, x);
    lemma_not_prefix("HTTP/"@, l, 0);
    lemma_not_prefix("Server:"@, l, 0);
    lemma_not_prefix("Connection:"@, l, 3);
    lemma_not_prefix("Location:"@, l, 0);
    lemma_is_prefix("Content-Type:"@, " "@ + x);
    assert(l =~= "Content-Type:"@ + (" "@ + x));
}

proof fn lemma_blank_line(h: ResponseHead)
    ensures
        read_head_line(h, Seq::empty()) == h,
{
    reveal_strlit("Content-Type:");
    reveal_strlit("Location:");
    reveal_strlit("Connection:");
    reveal_strlit("Server:");
    reveal_strlit("HTTP/");
}

/// The text of a head after its connection line.
pub open spec fn head_tail_text(h: ResponseHead) -> Seq<char> {
    let location_text = match h.location {
        Some(u) => ("Location: "@ + u) + "\r\n"@,
        None => Seq::empty(),
    };
    location_text + ("Content-Type: "@ + h.content_type) + "\r\n"@ + "\r\n"@
}

/// The lines of a head's text after its connection line.
pub open spec fn head_tail_lines(h: ResponseHead) -> Seq<Seq<char>> {
    let location_lines = match h.location {
        Some(u) => seq!["Location: "@ + u],
        None => Seq::empty(),
    };
    location_lines + seq!["Content-Type: "@ + h.content_type, Seq::empty()]
}

proof fn lemma_head_tail_lines(h: ResponseHead)
    requires
        head_readable(h),
    ensures
        lines(head_tail_text(h)) == head_tail_lines(h),
{
    reveal_strlit("\r\n");
    let crlf = "\r\n"@;
    let empty = Seq::<char>::empty();
    let l_ct = "Content-Type: "@ + h.content_type;
    lemma_content_type_line(empty_head(), h.content_type);
    lemma_lines_crlf(empty, empty);
    assert(empty + crlf + empty =~= crlf);
    assert(lines(empty) =~= Seq::<Seq<char>>::empty());
    lemma_lines_crlf(l_ct, crlf);
    let rest3 = l_ct + crlf + crlf;
    assert(lines(rest3) =~= seq![l_ct, empty]);
    match h.location {
        Some(u) => {
            lemma_location_line(empty_head(), u);
            lemma_lines_crlf("Location: "@ + u, rest3);
            assert(head_tail_text(h) =~= ("Location: "@ + u) + crlf + rest3);
            assert(head_tail_lines(h) =~= seq!["Location: "@ + u] + seq![l_ct, empty]);
        },
        None => {
            assert(head_tail_text(h) =~= rest3);
            assert(head_tail_lines(h) =~= seq![l_ct, empty]);
        },
    }
}

/// The lines of a head's text: its status line, one line per header, and
/// the blank line that ends it.
#[verifier::rlimit(60)]
#[verifier::spinoff_prover]
proof fn lemma_head_lines(h: ResponseHead)
    requires
        head_readable(h),
    ensures
        lines(response_head_text(h)) == seq![
            h.version + " "@ + decimal(h.status_code as nat) + " "@ + h.status_phrase,
            "Server: "@ + h.server,
            "Connection: "@ + h.connection,
        ] + head_tail_lines(h),
{
    let crlf = "\r\n"@;
    let status = h.version + " "@ + decimal(h.status_code as nat) + " "@ + h.status_phrase;
    let l_server = "Server: "@ + h.server;
    let l_conn = "Connection: "@ + h.connection;
    let tail = head_tail_text(h);
    lemma_status_line_words(h.version, h.status_code, h.status_phrase);
    lemma_server_line(empty_head(), h.server);
    lemma_connection_line(empty_head(), h.connection);
    lemma_head_tail_lines(h);
    lemma_lines_crlf(l_conn, tail);
    lemma_lines_crlf(l_server, l_conn + crlf + tail);
    lemma_lines_crlf(status, l_server + crlf + (l_conn + crlf + tail));
    assert(response_head_text(h) =~= status + crlf + (l_server + crlf + (l_conn + crlf + tail)));
    assert(seq![status, l_server, l_conn] + head_tail_lines(h) =~= seq![status] + (seq![l_server]
        + (seq![l_conn] + head_tail_lines(h))));
}

/// The head that `HttpResponse::to_bytes` writes reads back, by
/// `HttpResponse::from_raw_text`, as the same head; the body is not read.
pub proof fn lemma_response_round_trip(h: ResponseHead)
    requires
        head_readable(h),
    ensures
        parse_response(response_head_text(h)) == Some(
            HttpResponseView { head: h, file_data: Seq::empty() },
        ),
{
    let status = h.version + " "@ + decimal(h.status_code as nat) + " "@ + h.status_phrase;
    let l_server = "Server: "@ + h.server;
    let l_conn = "Connection: "@ + h.connection;
    let l_ct = "Content-Type: "@ + h.content_type;
    let empty = Seq::<char>::empty();
    lemma_head_lines(h);
    let ls = lines(response_head_text(h));
    lemma_status_head(h);
    let h1 = ResponseHead {
        version: h.version,
        status_code: h.status_code,
        status_phrase: h.status_phrase,
        ..empty_head()
    };
    let h2 = ResponseHead { server: h.server, ..h1 };
    let h3 = ResponseHead { connection: h.connection, ..h2 };
    let h4 = ResponseHead { location: h.location, ..h3 };
    lemma_server_line(h1, h.server);
    lemma_connection_line(h2, h.connection);
    lemma_content_type_line(h4, h.content_type);
    lemma_blank_line(h);
    let e = Seq::<Seq<char>>::empty();
    let p3 = e.push(status).push(l_server).push(l_conn);
    lemma_read_head_lines_push(e, status);
    lemma_read_head_lines_push(e.push(status), l_server);
    lemma_read_head_lines_push(e.push(status).push(l_server), l_conn);
    assert(read_head_lines(p3) == h3);
    match h.location {
        Some(u) => {
            let l_loc = "Location: "@ + u;
            lemma_location_line(h3, u);
            lemma_read_head_lines_push(p3, l_loc);
            lemma_read_head_lines_push(p3.push(l_loc), l_ct);
            lemma_read_head_lines_push(p3.push(l_loc).push(l_ct), empty);
            assert(ls =~= p3.push(l_loc).push(l_ct).push(empty));
        },
        None => {
            assert(h4 == h3);
            lemma_read_head_lines_push(p3, l_ct);
            lemma_read_head_lines_push(p3.push(l_ct), empty);
            assert(ls =~= p3.push(l_ct).push(empty));
        },
    }
    assert(read_head_lines(ls) == h);
    reveal_strlit("HTTP/");
    assert(h.version.len() > 0);
}

/// The fields that reading can have set: each empty, or as a head's text
/// writes it back.
pub open spec fn head_fields_ok(h: ResponseHead) -> bool {
    &&& h.version.len() == 0 || ("HTTP/"@.is_prefix_of(h.version) && no_ws(h.version))
    &&& h.status_phrase.len() == 0 || phrase_normal(h.status_phrase)
    &&& header_value_ok(h.server)
    &&& header_value_ok(h.connection)
    &&& header_value_ok(h.content_type)
    &&& location_ok(h.location)
}

/// A status line sets a version that starts with `HTTP/` and holds no
/// whitespace, and a phrase that reads back as itself.
proof fn lemma_status_line_ok(h: ResponseHead, line: Seq<char>)
    requires
        head_fields_ok(h),
        "HTTP/"@.is_prefix_of(line),
    ensures
        head_fields_ok(read_status_line(h, line)),
{
    let p = words(line);
    if p.len() >= 3 {
        reveal_strlit("HTTP/");
        assert forall|i: int| 0 <= i < "HTTP/"@.len() implies !is_ws(#[trigger] "HTTP/"@[i]) by {}
        lemma_first_word_prefix(line, "HTTP/"@);
        lemma_words_no_ws(line);
        assert(p[0].len() > 0 && no_ws(p[0]));
        let rest = p.skip(2);
        assert forall|k: int| 0 <= k < rest.len() implies (#[trigger] rest[k]).len() > 0 && no_ws(
            rest[k],
        ) by {
            assert(rest[k] == p[k + 2]);
        }
        lemma_words_of_join(rest);
    }
}

/// A header field read from a line without line feeds is a value that reads back.
proof fn lemma_header_value_read(line: Seq<char>)
    requires
        lacks(line, '\n'),
    ensures
        header_value_ok(trim(second_field(line, ':'))),
        no_line_feed(trim(after_first(line, ':'))),
        is_trimmed(trim(after_first(line, ':'))),
{
    lemma_fields_lack(line, ':', '\n');
    lemma_trim_props(second_field(line, ':'), ':');
    lemma_trim_props(second_field(line, ':'), '\n');
    lemma_trim_props(after_first(line, ':'), '\n');
}

/// Reading a line without line feeds keeps the fields readable.
proof fn lemma_head_line_ok(h: ResponseHead, line: Seq<char>)
    requires
        head_fields_ok(h),
        lacks(line, '\n'),
    ensures
        head_fields_ok(read_head_line(h, line)),
{
    lemma_header_value_read(line);
    if "HTTP/"@.is_prefix_of(line) {
        lemma_status_line_ok(h, line);
    }
}

/// Reading lines without line feeds gives readable fields.
proof fn lemma_head_lines_ok(ls: Seq<Seq<char>>)
    requires
        forall|i: int| 0 <= i < ls.len() ==> lacks(#[trigger] ls[i], '\n'),
    ensures
        head_fields_ok(read_head_lines(ls)),
        head_fields_ok(read_status_lines(ls)),
    decreases ls.len(),
{
    if ls.len() > 0 {
        let d = ls.drop_last();
        assert forall|i: int| 0 <= i < d.len() implies lacks(#[trigger] d[i], '\n') by {
            assert(d[i] == ls[i]);
        }
        lemma_head_lines_ok(d);
        assert(lacks(ls[ls.len() - 1], '\n'));
        lemma_head_line_ok(read_head_lines(d), ls.last());
        if "HTTP/"@.is_prefix_of(ls.last()) {
            lemma_status_line_ok(read_status_lines(d), ls.last());
        }
    }
}

/// Every response that reading a text gives has a head that reads back:
/// writing it with `HttpResponse::to_bytes` and reading that text again by
/// `HttpResponse::from_raw_text` gives the same response.
pub proof fn lemma_parsed_response_round_trip(t: Seq<char>)
    ensures
        parse_response(t) matches Some(v) ==> head_readable(v.head) && parse_response(
            response_head_text(v.head),
        ) == Some(v),
{
    lemma_lines_lack_line_feed(t);
    lemma_head_lines_ok(lines(t));
    if let Some(v) = parse_response(t) {
        assert(head_readable(v.head));
        lemma_response_round_trip(v.head);
    }
}

/// Every status reply that reading a text gives has a status line that reads
/// back: writing it with `HttpResponseOk::to_bytes` and reading that text
/// again by `HttpResponseOk::from_raw_text` gives the same reply.
pub proof fn lemma_parsed_status_reply_round_trip(t: Seq<char>)
    ensures
        parse_response_ok(t) matches Some(v) ==> status_line_readable(
            v.version,
            v.status_code,
            v.status_phrase,
        ) && parse_response_ok(status_line_text(v)) == Some(v),
{
    lemma_lines_lack_line_feed(t);
    lemma_head_lines_ok(lines(t));
    if let Some(v) = parse_response_ok(t) {
        lemma_status_reply_round_trip(v);
    }
}

/// A line that starts with none of the names that `HttpResponse::from_raw_text`
/// looks for.
pub open spec fn sets_no_head_field(l: Seq<char>) -> bool {
    &&& !"HTTP/"@.is_prefix_of(l)
    &&& !"Server:"@.is_prefix_of(l)
    &&& !"Connection:"@.is_prefix_of(l)
    &&& !"Location:"@.is_prefix_of(l)
    &&& !"Content-Type:"@.is_prefix_of(l)
}

/// Reading a line that sets nothing, between any lines, changes nothing.
proof fn lemma_head_lines_skip(a: Seq<Seq<char>>, l: Seq<char>, b: Seq<Seq<char>>)
    requires
        sets_no_head_field(l),
    ensures
        read_head_lines(a + seq![l] + b) == read_head_lines(a + b),
    decreases b.len(),
{
    if b.len() == 0 {
        assert(a + seq![l] + b =~= a.push(l));
        assert(a + b =~= a);
        assert(a.push(l).drop_last() =~= a);
    } else {
        lemma_head_lines_skip(a, l, b.drop_last());
        assert((a + seq![l] + b).drop_last() =~= a + seq![l] + b.drop_last());
        assert((a + b).drop_last() =~= a + b.drop_last());
        assert((a + seq![l] + b).last() == b.last());
        assert((a + b).last() == b.last());
    }
}

/// A status line is the only kind of line `HttpResponseOk::from_raw_text` reads.
proof fn lemma_status_lines_skip(a: Seq<Seq<char>>, l: Seq<char>, b: Seq<Seq<char>>)
    requires
        !"HTTP/"@.is_prefix_of(l),
    ensures
        read_status_lines(a + seq![l] + b) == read_status_lines(a + b),
    decreases b.len(),
{
    if b.len() == 0 {
        assert(a + seq![l] + b =~= a.push(l));
        assert(a + b =~= a);
        assert(a.push(l).drop_last() =~= a);
    } else {
        lemma_status_lines_skip(a, l, b.drop_last());
        assert((a + seq![l] + b).drop_last() =~= a + seq![l] + b.drop_last());
        assert((a + b).drop_last() =~= a + b.drop_last());
        assert((a + seq![l] + b).last() == b.last());
        assert((a + b).last() == b.last());
    }
}

/// The lines of a text with one whole line put in after its first part.
proof fn lemma_lines_insert(a: Seq<char>, l: Seq<char>, b: Seq<char>)
    requires
        a.len() == 0 || a.last() == '\n',
        lacks(l, '\n'),
    ensures
        lines(a + l + "\n"@ + b) == lines(a) + seq![strip_cr(l)] + lines(b),
        lines(a + b) == lines(a) + lines(b),
{
    reveal_strlit("\n");
    let m = l + "\n"@;
    assert(m.last() == '\n');
    lemma_lines_append(m, b);
    lemma_lines_one(l);
    lemma_lines_append(a, m + b);
    lemma_lines_append(a, b);
    assert(a + l + "\n"@ + b =~= a + (m + b));
    assert(lines(a) + (seq![strip_cr(l)] + lines(b)) =~= lines(a) + seq![strip_cr(l)] + lines(b));
}

/// A line that starts with none of `HTTP/`, `Server:`, `Connection:`,
/// `Location:` and `Content-Type:` sets nothing: putting it into a text
/// between two lines, or taking it out, leaves the response that
/// `HttpResponse::from_raw_text` reads the same.
pub proof fn lemma_response_ignores_line(a: Seq<char>, l: Seq<char>, b: Seq<char>)
    requires
        a.len() == 0 || a.last() == '\n',
        lacks(l, '\n'),
        sets_no_head_field(l),
    ensures
        parse_response(a + l + "\n"@ + b) == parse_response(a + b),
{
    lemma_lines_insert(a, l, b);
    lemma_strip_cr_prefix("HTTP/"@, l);
    lemma_strip_cr_prefix("Server:"@, l);
    lemma_strip_cr_prefix("Connection:"@, l);
    lemma_strip_cr_prefix("Location:"@, l);
    lemma_strip_cr_prefix("Content-Type:"@, l);
    lemma_head_lines_skip(lines(a), strip_cr(l), lines(b));
}

/// A line that does not start with `HTTP/` sets nothing: putting it into a
/// text between two lines, or taking it out, leaves the status reply that
/// `HttpResponseOk::from_raw_text` reads the same.
pub proof fn lemma_status_reply_ignores_line(a: Seq<char>, l: Seq<char>, b: Seq<char>)
    requires
        a.len() == 0 || a.last() == '\n',
        lacks(l, '\n'),
        !"HTTP/"@.is_prefix_of(l),
    ensures
        parse_response_ok(a + l + "\n"@ + b) == parse_response_ok(a + b),
{
    lemma_lines_insert(a, l, b);
    lemma_strip_cr_prefix("HTTP/"@, l);
    lemma_status_lines_skip(lines(a), strip_cr(l), lines(b));
}

/// The status line of a redirect as the portal writes it.
pub open spec fn found_status_line() -> Seq<char> {
    "HTTP/1.1 302 Found"@
}

/// The word `302` is code 302.
proof fn lemma_code_302()
    ensures
        code_of("302"@) == 302,
{
    reveal_strlit("302");
    reveal_with_fuel(decimal, 3);
    assert(decimal(302) =~= "302"@);
    lemma_parse_decimal(302, 65535);
}

/// The second word of `"HTTP/1.1 302 Found"` is `302`.
proof fn lemma_found_words()
    ensures
        words(found_status_line()).len() >= 2,
        words(found_status_line())[1] == "302"@,
{
    reveal_strlit("HTTP/1.1 302 Found");
    reveal_strlit("HTTP/1.1");
    reveal_strlit("302 Found");
    reveal_strlit("302");
    reveal_strlit("Found");
    let st = found_status_line();
    assert(st =~= "HTTP/1.1"@ + seq![' '] + "302 Found"@);
    assert("302 Found"@ =~= "302"@ + seq![' '] + "Found"@);
    assert(no_ws("HTTP/1.1"@));
    assert(no_ws("302"@));
    lemma_words_cons("HTTP/1.1"@, "302 Found"@);
    lemma_words_cons("302"@, "Found"@);
}

/// `"HTTP/1.1 302 Found"` is read as code 302.
proof fn lemma_found_status(h: RedirectHead)
    ensures
        read_redirect_line(h, found_status_line()) == (RedirectHead { status_code: 302, ..h }),
        no_line_feed(found_status_line()),
{
    reveal_strlit("HTTP/1.1 302 Found");
    reveal_strlit("302");
    reveal_strlit("HTTP/");
    let st = found_status_line();
    lemma_found_words();
    lemma_code_302();
    assert(st.subrange(9, 9 + "302"@.len() as int) =~= "302"@);
    assert(contains_seq(st, "302"@));
    assert(st.subrange(0, 5) =~= "HTTP/"@);
    assert(is_redirect_status_line(st));
}

/// A line `Location: u` sets the redirect's location to `u` exactly when
/// `u` starts with `http://` or `https://`.
proof fn lemma_redirect_location_line(h: RedirectHead, u: Seq<char>)
    requires
        lacks(u, '\n'),
        is_trimmed(u),
    ensures
        read_redirect_line(h, "Location: "@ + u) == (if "http://"@.is_prefix_of(u)
            || "https://"@.is_prefix_of(u) {
            RedirectHead { location: Some(u), ..h }
        } else {
            h
        }),
        no_line_feed("Location: "@ + u),
{
    reveal_strlit("Location: ");
    reveal_strlit("Location");
    reveal_strlit("Location:");
    reveal_strlit("HTTP/");
    reveal_strlit(": ");
    reveal_strlit(" ");
    let l = "Location: "@ + u;
    assert(l =~= "Location"@ + ": "@ + u);
    lemma_after_name("Location"@, u);
    lemma_trim_space_before(u);
    lemma_not_prefix("HTTP/"@, l, 0);
    lemma_is_prefix("Location:"@, " "@ + u);
    assert(l =~= "Location:"@ + (" "@ + u));
    assert forall|i: int| 0 <= i < l.len() implies #[trigger] l[i] != '\n' by {
        if i >= 10 {
            assert(l[i] == u[i - 10]);
        }
    }
}

/// A line `Set-Cookie: c` sets the redirect's cookie to all of `c`.
proof fn lemma_redirect_cookie_line(h: RedirectHead, c: Seq<char>)
    requires
        lacks(c, '\n'),
        is_trimmed(c),
    ensures
        read_redirect_line(h, "Set-Cookie: "@ + c) == (RedirectHead { cookie: c, ..h }),
        no_line_feed("Set-Cookie: "@ + c),
{
    reveal_strlit("Set-Cookie: ");
    reveal_strlit("Set-Cookie");
    reveal_strlit("Set-Cookie:");
    reveal_strlit("Location:");
    reveal_strlit("HTTP/");
    reveal_strlit(": ");
    reveal_strlit(" ");
    let l = "Set-Cookie: "@ + c;
    assert(l =~= "Set-Cookie"@ + ": "@ + c);
    lemma_after_name("Set-Cookie"@, c);
    lemma_trim_space_before(c);
    lemma_not_prefix("HTTP/"@, l, 0);
    lemma_not_prefix("Location:"@, l, 0);
    lemma_is_prefix("Set-Cookie:"@, " "@ + c);
    assert(l =~= "Set-Cookie:"@ + (" "@ + c));
    assert forall|i: int| 0 <= i < l.len() implies #[trigger] l[i] != '\n' by {
        if i >= 12 {
            assert(l[i] == c[i - 12]);
        }
    }
}

/// A `302` redirect whose `Location:` line holds `u` and whose `Set-Cookie:`
/// line holds `c` reads back, by `HttpRedirectResponse::from_raw_text`, as
/// code 302, cookie `c` whole (colons included), and location `u` exactly
/// when `u` starts with `http://` or `https://`.
#[verifier::spinoff_prover]
#[verifier::rlimit(40)]
pub proof fn lemma_redirect_reads_location_and_cookie(u: Seq<char>, c: Seq<char>)
    requires
        lacks(u, '\n'),
        is_trimmed(u),
        lacks(c, '\n'),
        is_trimmed(c),
    ensures
        parse_redirect(
            found_status_line() + "\r\nLocation: "@ + u + "\r\nSet-Cookie: "@ + c + "\r\n\r\n"@,
        ) == Some(
            RedirectHead {
                status_code: 302,
                location: if "http://"@.is_prefix_of(u) || "https://"@.is_prefix_of(u) {
                    Some(u)
                } else {
                    None
                },
                cookie: c,
            },
        ),
{
    reveal_strlit("\r\n");
    reveal_strlit("\r\nLocation: ");
    reveal_strlit("Location: ");
    reveal_strlit("\r\nSet-Cookie: ");
    reveal_strlit("Set-Cookie: ");
    reveal_strlit("\r\n\r\n");
    reveal_strlit("Content-Type:");
    let st = found_status_line();
    let l_loc = "Location: "@ + u;
    let l_ck = "Set-Cookie: "@ + c;
    let empty = Seq::<char>::empty();
    let crlf = "\r\n"@;
    let t = st + "\r\nLocation: "@ + u + "\r\nSet-Cookie: "@ + c + "\r\n\r\n"@;
    assert(t =~= st + crlf + (l_loc + crlf + (l_ck + crlf + (empty + crlf + empty))));
    let e0 = RedirectHead { status_code: 0, location: None, cookie: Seq::empty() };
    lemma_found_status(e0);
    let h1 = RedirectHead { status_code: 302, ..e0 };
    lemma_redirect_location_line(h1, u);
    let h2 = read_redirect_line(h1, l_loc);
    lemma_redirect_cookie_line(h2, c);
    let h3 = read_redirect_line(h2, l_ck);
    assert(no_line_feed(empty));
    lemma_lines_crlf(empty, empty);
    assert(lines(empty) =~= Seq::<Seq<char>>::empty());
    lemma_lines_crlf(l_ck, empty + crlf + empty);
    lemma_lines_crlf(l_loc, l_ck + crlf + (empty + crlf + empty));
    lemma_lines_crlf(st, l_loc + crlf + (l_ck + crlf + (empty + crlf + empty)));
    let ls = lines(t);
    assert(ls =~= seq![st, l_loc, l_ck, empty]);
    assert(ls.drop_last() =~= seq![st, l_loc, l_ck]);
    assert(ls.drop_last().drop_last() =~= seq![st, l_loc]);
    assert(ls.drop_last().drop_last().drop_last() =~= seq![st]);
    assert(ls.drop_last().drop_last().drop_last().drop_last() =~= Seq::<Seq<char>>::empty());
    reveal_strlit("HTTP/");
    reveal_strlit("Location:");
    reveal_strlit("Set-Cookie:");
    assert(read_redirect_line(h3, empty) == h3);
    let r0 = ls.drop_last().drop_last().drop_last().drop_last();
    let r1 = ls.drop_last().drop_last().drop_last();
    let r2 = ls.drop_last().drop_last();
    let r3 = ls.drop_last();
    assert(read_redirect_lines(r0) == e0);
    assert(r1.last() == st);
    assert(read_redirect_lines(r1) == h1);
    assert(r2.last() == l_loc);
    assert(read_redirect_lines(r2) == h2);
    assert(r3.last() == l_ck);
    assert(read_redirect_lines(r3) == h3);
    assert(ls.last() == empty);
    assert(read_redirect_lines(ls) == h3);
}

proof fn lemma_server_value(h: ResponseHead, x: Seq<char>)
    requires
        lacks(x, '\n'),
    ensures
        read_head_line(h, "Server: "@ + x) == (ResponseHead { server: trim(before_first(x, ':')), ..h }),
        no_line_feed("Server: "@ + x),
{
    reveal_strlit("Server: ");
    reveal_strlit("Server");
    reveal_strlit("Server:");
    reveal_strlit("HTTP/");
    reveal_strlit(": ");
    reveal_strlit(" ");
    let l = "Server: "@ + x;
    assert(l =~= "Server"@ + ": "@ + x);
    lemma_second_field_after_name("Server"@, x);
    lemma_not_prefix("HTTP/"@, l, 0);
    lemma_is_prefix("Server:"@, " "@ + x);
    assert(l =~= "Server:"@ + (" "@ + x));
    assert forall|i: int| 0 <= i < l.len() implies #[trigger] l[i] != '\n' by {
        if i >= 8 {
            assert(l[i] == x[i - 8]);
        }
    }
}

proof fn lemma_connection_value(h: ResponseHead, x: Seq<char>)
    requires
        lacks(x, '\n'),
    ensures
        read_head_line(h, "Connection: "@ + x) == (ResponseHead { connection: trim(before_first(x, ':')), ..h }),
        no_line_feed("Connection: "@ + x),
{
    reveal_strlit("Connection: ");
    reveal_strlit("Connection");
    reveal_strlit("Connection:");
    reveal_strlit("HTTP/");
    reveal_strlit("Server:");
    reveal_strlit(": ");
    reveal_strlit(" ");
    let l = "Connection: "@ + x;
    assert(l =~= "Connection"@ + ": "@ + x);
    lemma_second_field_after_name("Connection"@, x);
    lemma_not_prefix("HTTP/"@, l, 0);
    lemma_not_prefix("Server:"@, l, 0);
    lemma_is_prefix("Connection:"@, " "@ + x);
    assert(l =~= "Connection:"@ + (" "@ + x));
    assert forall|i: int| 0 <= i < l.len() implies #[trigger] l[i] != '\n' by {
        if i >= 12 {
            assert(l[i] == x[i - 12]);
        }
    }
}

proof fn lemma_content_type_value(h: ResponseHead, x: Seq<char>)
    requires
        lacks(x, '\n'),
    ensures
        read_head_line(h, "Content-Type: "@ + x) == (ResponseHead { content_type: trim(before_first(x, ':')), ..h }),
        no_line_feed("Content-Type: "@ + x),
{
    reveal_strlit("Content-Type: ");
    reveal_strlit("Content-Type");
    reveal_strlit("Content-Type:");
    reveal_strlit("HTTP/");
    reveal_strlit("Server:");
    reveal_strlit("Location:");
    reveal_strlit("Connection:");
    reveal_strlit(": ");
    reveal_strlit(" ");
    let l = "Content-Type: "@ + x;
    assert(l =~= "Content-Type"@ + ": "@ + x);
    lemma_second_field_after_name("Content-Type"@, x);
    lemma_not_prefix("HTTP/"@, l, 0);
    lemma_not_prefix("Server:"@, l, 0);
    lemma_not_prefix("Location:"@, l, 0);
    lemma_not_prefix("Connection:"@, l, 3);
    lemma_is_prefix("Content-Type:"@, " "@ + x);
    assert(l =~= "Content-Type:"@ + (" "@ + x));
    assert forall|i: int| 0 <= i < l.len() implies #[trigger] l[i] != '\n' by {
        if i >= 14 {
            assert(l[i] == x[i - 14]);
        }
    }
}

/// The head that a status line alone sets: its version, code and phrase.
pub open spec fn status_only(h: ResponseHead) -> ResponseHead {
    ResponseHead {
        version: h.version,
        status_code: h.status_code,
        status_phrase: h.status_phrase,
        ..empty_head()
    }
}

/// The status line of a head, ended by `"\r\n"`.
pub open spec fn status_line_crlf(h: ResponseHead) -> Seq<char> {
    h.version + " "@ + decimal(h.status_code as nat) + " "@ + h.status_phrase + "\r\n"@
}

/// The lines of a status line followed by one more line.
proof fn lemma_two_lines(h: ResponseHead, l: Seq<char>)
    requires
        status_line_readable(h.version, h.status_code, h.status_phrase),
        no_line_feed(l),
    ensures
        read_head_lines(lines(status_line_crlf(h) + l + "\r\n"@)) == read_head_line(
            status_only(h),
            l,
        ),
{
    let st = h.version + " "@ + decimal(h.status_code as nat) + " "@ + h.status_phrase;
    let empty = Seq::<char>::empty();
    lemma_status_line_words(h.version, h.status_code, h.status_phrase);
    lemma_status_head(h);
    lemma_lines_crlf(l, empty);
    lemma_lines_crlf(st, l + "\r\n"@ + empty);
    assert(status_line_crlf(h) + l + "\r\n"@ =~= st + "\r\n"@ + (l + "\r\n"@ + empty));
    assert(lines(empty) =~= Seq::<Seq<char>>::empty());
    let ls = lines(status_line_crlf(h) + l + "\r\n"@);
    assert(ls =~= seq![st, l]);
    assert(ls.drop_last() =~= seq![st]);
    assert(ls.drop_last().drop_last() =~= Seq::<Seq<char>>::empty());
    assert(read_head_lines(ls.drop_last().drop_last()) == empty_head());
    assert(ls.drop_last().last() == st);
    assert(read_head_lines(ls.drop_last()) == read_head_line(empty_head(), st));
    assert(read_head_lines(ls.drop_last()) == status_only(h));
    assert(ls.last() == l);
}

/// After a status line, a `Server:`, `Connection:` or `Content-Type:` line
/// sets its field to the text after the header's colon up to the next
/// colon, trimmed: what `HttpResponse::from_raw_text` reads from such a
/// two-line text is the status line's version, code and phrase and that field.
pub proof fn lemma_response_header_values(h: ResponseHead, x: Seq<char>)
    requires
        status_line_readable(h.version, h.status_code, h.status_phrase),
        lacks(x, '\n'),
    ensures
        parse_response(status_line_crlf(h) + "Server: "@ + x + "\r\n"@) == Some(
            HttpResponseView {
                head: ResponseHead { server: trim(before_first(x, ':')), ..status_only(h) },
                file_data: Seq::empty(),
            },
        ),
        parse_response(status_line_crlf(h) + "Connection: "@ + x + "\r\n"@) == Some(
            HttpResponseView {
                head: ResponseHead { connection: trim(before_first(x, ':')), ..status_only(h) },
                file_data: Seq::empty(),
            },
        ),
        parse_response(status_line_crlf(h) + "Content-Type: "@ + x + "\r\n"@) == Some(
            HttpResponseView {
                head: ResponseHead { content_type: trim(before_first(x, ':')), ..status_only(h) },
                file_data: Seq::empty(),
            },
        ),
{
    reveal_strlit("HTTP/");
    let h1 = status_only(h);
    lemma_server_value(h1, x);
    lemma_connection_value(h1, x);
    lemma_content_type_value(h1, x);
    lemma_two_lines(h, "Server: "@ + x);
    lemma_two_lines(h, "Connection: "@ + x);
    lemma_two_lines(h, "Content-Type: "@ + x);
    assert(status_line_crlf(h) + "Server: "@ + x + "\r\n"@ == status_line_crlf(h) + ("Server: "@
        + x) + "\r\n"@) by {
        assert(status_line_crlf(h) + "Server: "@ + x =~= status_line_crlf(h) + ("Server: "@ + x));
    }
    assert(status_line_crlf(h) + "Connection: "@ + x + "\r\n"@ == status_line_crlf(h) + (
    "Connection: "@ + x) + "\r\n"@) by {
        assert(status_line_crlf(h) + "Connection: "@ + x =~= status_line_crlf(h) + ("Connection: "@
            + x));
    }
    assert(status_line_crlf(h) + "Content-Type: "@ + x + "\r\n"@ == status_line_crlf(h) + (
    "Content-Type: "@ + x) + "\r\n"@) by {
        assert(status_line_crlf(h) + "Content-Type: "@ + x =~= status_line_crlf(h) + (
        "Content-Type: "@ + x));
    }
    assert(h.version.len() > 0);
}

} // verus!
