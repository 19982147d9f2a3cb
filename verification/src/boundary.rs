//! Calls into the standard library and outside crates whose behaviour Verus
//! takes from the contracts written here.

use vstd::prelude::*;
use vstd::utf8::{encode_utf8, valid_utf8, decode_utf8};

use crate::numtext::hex_char_upper;
use crate::read_config::{TomlItem, TomlItemView};

verus! {

/// `String::push`: appends one character.
#[verifier::external_body]
pub(crate) fn push_char(s: &mut String, c: char)
    ensures
        final(s)@ == old(s)@.push(c),
{
    s.push(c)
}

/// What `{:?}` writes for a string slice: the text in double quotes, with
/// the characters that `char::escape_debug` escapes escaped. Its tables of
/// printable characters are not restated here.
pub uninterp spec fn debug_text(s: Seq<char>) -> Seq<char>;

/// `<str as Debug>::fmt`, through `format!("{:?}", s)`.
#[verifier::external_body]
pub(crate) fn str_debug(s: &str) -> (r: String)
    ensures
        r@ == debug_text(s@),
{
    format!("{:?}", s)
}

#[verifier::external_type_specification]
#[verifier::external_body]
pub struct ExJsonValue(serde_json::Value);

#[verifier::external_type_specification]
#[verifier::external_body]
pub struct ExJsonError(serde_json::Error);

/// The JSON text that `serde_json::to_string` writes for a value, or `None`
/// where it fails. It depends on the value alone; the JSON syntax it writes
/// is not restated here.
pub uninterp spec fn json_text(v: serde_json::Value) -> Option<Seq<char>>;

/// `serde_json::to_string` on a JSON value: it succeeds exactly where
/// `json_text` gives a text, and returns that text.
#[verifier::external_body]
pub(crate) fn json_to_string(v: &serde_json::Value) -> (r: Result<String, serde_json::Error>)
    ensures
        r is Ok <==> json_text(*v) is Some,
        r matches Ok(s) ==> s@ == json_text(*v)->0,
{
    serde_json::to_string(v)
}

/// The JSON string value `serde_json::Value::String` makes of a text.
pub uninterp spec fn json_string_of(s: Seq<char>) -> serde_json::Value;

/// The JSON object that collecting `members` into a `serde_json::Map`
/// makes, a later member replacing an earlier one of the same name.
pub uninterp spec fn json_object_of(members: Seq<(Seq<char>, serde_json::Value)>) -> serde_json::Value;

/// The names, as texts, and values of JSON object members.
pub open spec fn json_members(v: Seq<(String, serde_json::Value)>) -> Seq<(Seq<char>, serde_json::Value)> {
    v.map_values(|p: (String, serde_json::Value)| (p.0@, p.1))
}

/// `serde_json::Value::String`: the JSON string holding `s`, a function of
/// the text alone.
#[verifier::external_body]
pub(crate) fn json_string(s: String) -> (r: serde_json::Value)
    ensures
        r == json_string_of(s@),
{
    serde_json::Value::String(s)
}

/// `serde_json::Value::Object` of the members collected into a
/// `serde_json::Map`: a function of the members' names and values alone.
#[verifier::external_body]
pub(crate) fn json_object(members: Vec<(String, serde_json::Value)>) -> (r: serde_json::Value)
    ensures
        r == json_object_of(json_members(members@)),
{
    serde_json::Value::Object(members.into_iter().collect())
}

/// The text that `String::from_utf8_lossy` makes of `bytes`: each maximal
/// invalid sequence becomes U+FFFD. Valid UTF-8 decodes as it is.
pub uninterp spec fn lossy_text(bytes: Seq<u8>) -> Seq<char>;

/// `String::from_utf8_lossy`, made an owned `String`. Its documentation
/// says that valid UTF-8 comes back unchanged; how invalid sequences are
/// replaced is only named here.
#[verifier::external_body]
pub(crate) fn utf8_lossy(bytes: &[u8]) -> (r: String)
    ensures
        r@ == lossy_text(bytes@),
        valid_utf8(bytes@) ==> r@ == decode_utf8(bytes@),
{
    String::from_utf8_lossy(bytes).into_owned()
}

/// Bytes that `urlencoding::encode` leaves as they are: ASCII letters and
/// digits, `-`, `.`, `_` and `~`.
pub open spec fn is_unreserved(b: u8) -> bool {
    (48 <= b && b <= 57) || (65 <= b && b <= 90) || (97 <= b && b <= 122) || b == 45 || b == 46
        || b == 95 || b == 126
}

/// Percent-encoding of bytes: each byte left as it is when unreserved,
/// otherwise written `%XX` in upper-case hexadecimal.
pub open spec fn percent_encode(bs: Seq<u8>) -> Seq<char>
    decreases bs.len(),
{
    if bs.len() == 0 {
        Seq::empty()
    } else {
        percent_encode(bs.drop_last()) + if is_unreserved(bs.last()) {
            seq![bs.last() as char]
        } else {
            seq!['%', hex_char_upper((bs.last() / 16) as nat), hex_char_upper((bs.last() % 16) as nat)]
        }
    }
}

/// What `urlencoding::encode` gives for a text: its UTF-8 bytes, percent-encoded.
pub open spec fn url_encoded(s: Seq<char>) -> Seq<char> {
    percent_encode(encode_utf8(s))
}

/// `urlencoding::encode`: percent-encodes every byte of the UTF-8 text
/// except ASCII letters, digits, `-`, `.`, `_` and `~`, with upper-case
/// hexadecimal digits.
#[verifier::external_body]
pub(crate) fn url_encode(s: &str) -> (r: String)
    ensures
        r@ == url_encoded(s@),
{
    urlencoding::encode(s).into_owned()
}

#[verifier::external_type_specification]
#[verifier::external_body]
pub struct ExUrl(url::Url);

#[verifier::external_type_specification]
#[verifier::external_body]
pub struct ExUrlParseError(url::ParseError);

/// What `Url::parse` makes of a text, seen through the decoded query pairs
/// of the URL: `None` when the text is no URL.
pub uninterp spec fn url_parse_query(s: Seq<char>) -> Option<Seq<(Seq<char>, Seq<char>)>>;

/// The decoded name-value pairs of a URL's query, in order, as
/// `Url::query_pairs` yields them.
pub uninterp spec fn url_query(u: url::Url) -> Seq<(Seq<char>, Seq<char>)>;

/// `Url::parse`. It succeeds on the texts that `url_parse_query` gives a
/// value for, and the URL's query pairs are that value; the URL grammar
/// itself is only named.
#[verifier::external_body]
pub(crate) fn parse_url(s: &str) -> (r: Result<url::Url, url::ParseError>)
    ensures
        r is Ok <==> url_parse_query(s@) is Some,
        r matches Ok(u) ==> url_query(u) == url_parse_query(s@)->0,
{
    url::Url::parse(s)
}

/// The views of name-value pairs of strings.
pub open spec fn pair_views(v: Seq<(String, String)>) -> Seq<(Seq<char>, Seq<char>)> {
    v.map_values(|p: (String, String)| (p.0@, p.1@))
}

/// `Url::query_pairs`, each decoded name and value made an owned `String`.
#[verifier::external_body]
pub(crate) fn query_pairs(u: &url::Url) -> (r: Vec<(String, String)>)
    ensures
        pair_views(r@) == url_query(*u),
{
    u.query_pairs().map(|(k, v)| (k.into_owned(), v.into_owned())).collect()
}

#[verifier::external_type_specification]
#[verifier::external_body]
pub struct ExTomlValue(toml::Value);

#[verifier::external_type_specification]
#[verifier::external_body]
pub struct ExTomlError(toml::de::Error);

/// What a TOML document holds two levels down: for each table of the
/// top-level table and each key in it, the kind and value of what stands
/// there.
pub uninterp spec fn toml_entries(doc: toml::Value) -> Map<(Seq<char>, Seq<char>), TomlItemView>;

/// The entries of the document that `toml::from_str` reads from `text`;
/// `None` where the text is no TOML document. The TOML grammar is not
/// restated here.
pub uninterp spec fn toml_document(text: Seq<char>) -> Option<Map<(Seq<char>, Seq<char>), TomlItemView>>;

/// `toml::from_str` into a `toml::Value`. It fails exactly where the text is
/// no TOML document, and what it reads is a function of the text alone.
#[verifier::external_body]
pub(crate) fn toml_from_str(text: &str) -> (r: Result<toml::Value, toml::de::Error>)
    ensures
        match r {
            Ok(doc) => toml_document(text@) == Some(toml_entries(doc)),
            Err(_) => toml_document(text@) is None,
        },
{
    toml::from_str(text)
}

/// `toml::Value::get` with `section`, then with `key`, and the variant of the
/// value found there: `None` exactly where the document has no such entry.
#[verifier::external_body]
pub(crate) fn toml_lookup(doc: &toml::Value, section: &str, key: &str) -> (r: Option<TomlItem>)
    ensures
        match r {
            Some(item) => toml_entries(*doc).contains_key((section@, key@)) && item@
                == toml_entries(*doc)[(section@, key@)],
            None => !toml_entries(*doc).contains_key((section@, key@)),
        },
{
    match doc.get(section) {
        None => None,
        Some(table) => match table.get(key) {
            None => None,
            Some(toml::Value::String(t)) => Some(TomlItem::Text(t.clone())),
            Some(toml::Value::Integer(i)) => Some(TomlItem::Integer(*i)),
            Some(toml::Value::Boolean(b)) => Some(TomlItem::Boolean(*b)),
            Some(_) => Some(TomlItem::Other),
        },
    }
}

/// The message of a TOML error, as its `Display` writes it. Its wording is
/// not stated.
#[verifier::external_body]
pub(crate) fn toml_error_text(e: &toml::de::Error) -> String {
    e.to_string()
}

} // verus!
