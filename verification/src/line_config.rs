//! The portal settings written as `key = value` lines: comments start with
//! `#`, lines without `=` are passed over, each known key sets one field.

use vstd::prelude::*;

use crate::ip_parse::{parse_ipv4, parse_ipv4_text};
use crate::numtext::{parse_int, parse_signed, parse_uint, parse_unsigned};
use crate::text::{
    after_first, chars_of, contains, contains_seq, copy_range, equals_str, find_char, first_in,
    lines, split_lines, starts_with, string_of, trim, trimmed_after_first, trimmed_range, views,
    CharClass,
};

verus! {

/// Settings read from `key = value` lines.
#[derive(Debug)]
pub struct ConfigData {
    pub crate_iface: i8,
    pub iface_name: String,
    pub dynmaic_ip: i8,
    pub start_ip: [u8; 4],
    pub static_mask: [u8; 4],
    pub static_gw: [u8; 4],
    pub portal_ip: [u8; 4],
    pub portal_user_num: usize,
    pub portal_user_head: String,
    pub portal_user_tail: usize,
    pub all_password: String,
    pub port: u16,
    pub redirect_ip: [u8; 4],
    pub portal_reauth: i8,
}

pub struct ConfigView {
    pub crate_iface: i8,
    pub iface_name: Seq<char>,
    pub dynmaic_ip: i8,
    pub start_ip: Seq<u8>,
    pub static_mask: Seq<u8>,
    pub static_gw: Seq<u8>,
    pub portal_ip: Seq<u8>,
    pub portal_user_num: usize,
    pub portal_user_head: Seq<char>,
    pub portal_user_tail: usize,
    pub all_password: Seq<char>,
    pub port: u16,
    pub redirect_ip: Seq<u8>,
    pub portal_reauth: i8,
}

impl View for ConfigData {
    type V = ConfigView;

    open spec fn view(&self) -> ConfigView {
        ConfigView {
            crate_iface: self.crate_iface,
            iface_name: self.iface_name@,
            dynmaic_ip: self.dynmaic_ip,
            start_ip: self.start_ip@,
            static_mask: self.static_mask@,
            static_gw: self.static_gw@,
            portal_ip: self.portal_ip@,
            portal_user_num: self.portal_user_num,
            portal_user_head: self.portal_user_head@,
            portal_user_tail: self.portal_user_tail,
            all_password: self.all_password@,
            port: self.port,
            redirect_ip: self.redirect_ip@,
            portal_reauth: self.portal_reauth,
        }
    }
}

/// Why the lines could not be read.
#[derive(Debug)]
pub enum LineError {
    /// A line sets a key that is not known; the text before its `=`.
    InvalidKey(String),
    /// A numeric or address setting whose value does not parse: the name of
    /// the setting as the error message calls it, and the value.
    InvalidValue { field: String, value: String },
}

pub enum LineErrorView {
    InvalidKey(Seq<char>),
    InvalidValue(Seq<char>, Seq<char>),
}

impl View for LineError {
    type V = LineErrorView;

    open spec fn view(&self) -> LineErrorView {
        match self {
            LineError::InvalidKey(k) => LineErrorView::InvalidKey(k@),
            LineError::InvalidValue { field, value } => LineErrorView::InvalidValue(field@, value@),
        }
    }
}

/// The settings before any line is read.
pub open spec fn line_defaults() -> ConfigView {
    ConfigView {
        crate_iface: 0,
        iface_name: Seq::empty(),
        dynmaic_ip: 1,
        start_ip: seq![0u8, 0, 0, 0],
        static_mask: seq![0u8, 0, 0, 0],
        static_gw: seq![0u8, 0, 0, 0],
        portal_ip: seq![0u8, 0, 0, 0],
        portal_user_num: 0,
        portal_user_head: Seq::empty(),
        portal_user_tail: 0,
        all_password: Seq::empty(),
        port: 0,
        redirect_ip: seq![0u8, 0, 0, 0],
        portal_reauth: 0,
    }
}

/// A line that sets nothing: a comment, or one without `=`.
pub open spec fn line_skipped(line: Seq<char>) -> bool {
    "#"@.is_prefix_of(line) || !contains_seq(trim(line), "="@)
}

/// The text before the first `=` of a line.
pub open spec fn line_key(line: Seq<char>) -> Seq<char> {
    line.take(first_in(line, CharClass::Exactly('=')) as int)
}

/// The trimmed text after the first `=` of a line.
pub open spec fn line_value(line: Seq<char>) -> Seq<char> {
    trim(after_first(line, '='))
}

/// A small signed setting: its value, or 0 where it does not parse.
pub open spec fn small_setting(v: Seq<char>) -> i8 {
    match parse_int(v, 127, 128) {
        Some(x) => x as i8,
        None => 0,
    }
}

/// The settings after one line that is not passed over. A key names the
/// field it sets; a value that does not parse as the field's type stops the
/// reading (but for the small signed fields, which take 0 then), and so
/// does a key that names no field.
pub open spec fn apply_line(c: ConfigView, line: Seq<char>) -> Result<ConfigView, LineErrorView> {
    let key = trim(line_key(line));
    let v = line_value(line);
    if key == "crate_iface"@ {
        Ok(ConfigView { crate_iface: small_setting(v), ..c })
    } else if key == "iface_name"@ {
        Ok(ConfigView { iface_name: v, ..c })
    } else if key == "dynmaic_ip"@ {
        Ok(ConfigView { dynmaic_ip: small_setting(v), ..c })
    } else if key == "start_ip"@ {
        match parse_ipv4(v) {
            Some(o) => Ok(ConfigView { start_ip: o, ..c }),
            None => Err(LineErrorView::InvalidValue("static_ip"@, v)),
        }
    } else if key == "static_mask"@ {
        match parse_ipv4(v) {
            Some(o) => Ok(ConfigView { static_mask: o, ..c }),
            None => Err(LineErrorView::InvalidValue("static_mask"@, v)),
        }
    } else if key == "static_gw"@ {
        match parse_ipv4(v) {
            Some(o) => Ok(ConfigView { static_gw: o, ..c }),
            None => Err(LineErrorView::InvalidValue("static_gw"@, v)),
        }
    } else if key == "portal_ip"@ {
        match parse_ipv4(v) {
            Some(o) => Ok(ConfigView { portal_ip: o, ..c }),
            None => Err(LineErrorView::InvalidValue("portal_ip"@, v)),
        }
    } else if key == "portal_user_num"@ {
        match parse_uint(v, usize::MAX as nat) {
            Some(n) => Ok(ConfigView { portal_user_num: n as usize, ..c }),
            None => Err(LineErrorView::InvalidValue("portal_user_num"@, v)),
        }
    } else if key == "portal_user_head"@ {
        Ok(ConfigView { portal_user_head: v, ..c })
    } else if key == "portal_user_tail"@ {
        match parse_uint(v, usize::MAX as nat) {
            Some(n) => Ok(ConfigView { portal_user_tail: n as usize, ..c }),
            None => Err(LineErrorView::InvalidValue("portal_user_tail"@, v)),
        }
    } else if key == "all_password"@ {
        Ok(ConfigView { all_password: v, ..c })
    } else if key == "portal_port"@ {
        match parse_uint(v, 65535) {
            Some(n) => Ok(ConfigView { port: n as u16, ..c }),
            None => Err(LineErrorView::InvalidValue("port"@, v)),
        }
    } else if key == "redirect_ip"@ {
        match parse_ipv4(v) {
            Some(o) => Ok(ConfigView { redirect_ip: o, ..c }),
            None => Err(LineErrorView::InvalidValue("redirect_ip"@, v)),
        }
    } else if key == "portal_reauth"@ {
        Ok(ConfigView { portal_reauth: small_setting(v), ..c })
    } else {
        Err(LineErrorView::InvalidKey(line_key(line)))
    }
}

/// The settings after reading `ls` in order from `c`, or the error of the
/// first line that stops the reading.
pub open spec fn read_lines(c: ConfigView, ls: Seq<Seq<char>>) -> Result<ConfigView, LineErrorView>
    decreases ls.len(),
{
    if ls.len() == 0 {
        Ok(c)
    } else if line_skipped(ls[0]) {
        read_lines(c, ls.drop_first())
    } else {
        match apply_line(c, ls[0]) {
            Ok(c2) => read_lines(c2, ls.drop_first()),
            Err(e) => Err(e),
        }
    }
}

/// The settings that the lines of `text` give, from the defaults.
pub open spec fn line_config(text: Seq<char>) -> Result<ConfigView, LineErrorView> {
    read_lines(line_defaults(), lines(text))
}

fn small_value(v: &Vec<char>) -> (r: i8)
    ensures
        r == small_setting(v@),
{
    match parse_signed(v, 127, 128) {
        Some(x) => x as i8,
        None => 0,
    }
}

fn address_value(v: &Vec<char>, field: &str) -> (r: Result<[u8; 4], LineError>)
    ensures
        match parse_ipv4(v@) {
            Some(o) => r matches Ok(a) && a@ == o,
            None => r matches Err(e) && e@ == LineErrorView::InvalidValue(field@, v@),
        },
{
    let s = string_of(v);
    match parse_ipv4_text(s.as_str()) {
        Some(a) => Ok(a),
        None => Err(LineError::InvalidValue { field: field.to_owned(), value: s }),
    }
}

fn count_value(v: &Vec<char>, field: &str, max: u64) -> (r: Result<u64, LineError>)
    ensures
        match parse_uint(v@, max as nat) {
            Some(n) => r == Ok::<u64, LineError>(n as u64),
            None => r matches Err(e) && e@ == LineErrorView::InvalidValue(field@, v@),
        },
{
    match parse_unsigned(v, max) {
        Some(n) => Ok(n),
        None => Err(LineError::InvalidValue { field: field.to_owned(), value: string_of(v) }),
    }
}

/// Sets the field that `line` names, as `apply_line` describes.
fn apply_line_to(c: &mut ConfigData, line: &Vec<char>) -> (r: Result<(), LineError>)
    ensures
        match apply_line(old(c)@, line@) {
            Ok(v) => r is Ok && final(c)@ == v,
            Err(e) => r matches Err(x) && x@ == e,
        },
{
    let eq = find_char(line, 0, '=');
    proof {
        assert(line@.skip(0) =~= line@);
        assert(line@.subrange(0, eq as int) =~= line_key(line@));
    }
    let key = trimmed_range(line, 0, eq);
    let v = trimmed_after_first(line, '=');
    if equals_str(&key, "crate_iface") {
        c.crate_iface = small_value(&v);
    } else if equals_str(&key, "iface_name") {
        c.iface_name = string_of(&v);
    } else if equals_str(&key, "dynmaic_ip") {
        c.dynmaic_ip = small_value(&v);
    } else if equals_str(&key, "start_ip") {
        c.start_ip = address_value(&v, "static_ip")?;
    } else if equals_str(&key, "static_mask") {
        c.static_mask = address_value(&v, "static_mask")?;
    } else if equals_str(&key, "static_gw") {
        c.static_gw = address_value(&v, "static_gw")?;
    } else if equals_str(&key, "portal_ip") {
        c.portal_ip = address_value(&v, "portal_ip")?;
    } else if equals_str(&key, "portal_user_num") {
        c.portal_user_num = count_value(&v, "portal_user_num", usize::MAX as u64)? as usize;
    } else if equals_str(&key, "portal_user_head") {
        c.portal_user_head = string_of(&v);
    } else if equals_str(&key, "portal_user_tail") {
        c.portal_user_tail = count_value(&v, "portal_user_tail", usize::MAX as u64)? as usize;
    } else if equals_str(&key, "all_password") {
        c.all_password = string_of(&v);
    } else if equals_str(&key, "portal_port") {
        c.port = count_value(&v, "port", 65535)? as u16;
    } else if equals_str(&key, "redirect_ip") {
        c.redirect_ip = address_value(&v, "redirect_ip")?;
    } else if equals_str(&key, "portal_reauth") {
        c.portal_reauth = small_value(&v);
    } else {
        let raw = copy_range(line, 0, eq);
        return Err(LineError::InvalidKey(string_of(&raw)));
    }
    Ok(())
}

/// Whether reading `text` stops at a numeric or address setting whose value
/// does not parse, where reading the settings cannot go on.
pub open spec fn stops_on_value(text: Seq<char>) -> bool {
    line_config(text) matches Err(LineErrorView::InvalidValue(_, _))
}

/// The settings in the text of a `portal_con` file of `key = value` lines,
/// as `line_config` describes: each line read in order, a line with a key
/// that names no setting giving the error. Texts that stop at a value that
/// does not parse are left out; `value_error` finds them.
pub fn read_user_config(contents: &str) -> (r: Result<ConfigData, LineError>)
    requires
        !stops_on_value(contents@),
    ensures
        match line_config(contents@) {
            Ok(v) => r matches Ok(c) && c@ == v,
            Err(e) => r matches Err(x) && x@ == e,
        },
        r matches Err(e) ==> e is InvalidKey,
{
    read_settings(contents)
}

/// The setting and value at which reading `contents` stops because the
/// value does not parse, if it does.
pub fn value_error(contents: &str) -> (r: Option<(String, String)>)
    ensures
        match line_config(contents@) {
            Err(LineErrorView::InvalidValue(f, v)) => r matches Some(p) && p.0@ == f && p.1@ == v,
            _ => r is None,
        },
{
    match read_settings(contents) {
        Err(LineError::InvalidValue { field, value }) => Some((field, value)),
        _ => None,
    }
}

/// Reads the settings, as `line_config` describes, the first line that
/// stops the reading giving the error.
fn read_settings(contents: &str) -> (r: Result<ConfigData, LineError>)
    ensures
        match line_config(contents@) {
            Ok(v) => r matches Ok(c) && c@ == v,
            Err(e) => r matches Err(x) && x@ == e,
        },
{
    let text = chars_of(contents);
    let ls = split_lines(&text);
    let ghost lv = views(ls@);
    let mut c = ConfigData {
        crate_iface: 0,
        iface_name: String::new(),
        dynmaic_ip: 1,
        start_ip: [0, 0, 0, 0],
        static_mask: [0, 0, 0, 0],
        static_gw: [0, 0, 0, 0],
        portal_ip: [0, 0, 0, 0],
        portal_user_num: 0,
        portal_user_head: String::new(),
        portal_user_tail: 0,
        all_password: String::new(),
        port: 0,
        redirect_ip: [0, 0, 0, 0],
        portal_reauth: 0,
    };
    assert(c@ =~= line_defaults());
    assert(lv.skip(0) =~= lv);
    let mut i: usize = 0;
    while i < ls.len()
        invariant
            i <= ls.len(),
            lv == views(ls@),
            lv == lines(contents@),
            line_config(contents@) == read_lines(c@, lv.skip(i as int)),
        decreases ls.len() - i,
    {
        let line = &ls[i];
        proof {
            assert(lv[i as int] == line@);
            assert(lv.skip(i as int)[0] == line@);
            assert(lv.skip(i as int).drop_first() =~= lv.skip(i + 1));
        }
        let all = trimmed_range(line, 0, line.len());
        assert(line@.subrange(0, line@.len() as int) =~= line@);
        if !(starts_with(line, "#") || !contains(&all, "=")) {
            apply_line_to(&mut c, line)?;
        }
        i += 1;
    }
    assert(lv.skip(i as int) =~= Seq::<Seq<char>>::empty());
    Ok(c)
}


/// A comment line, or a line without `=`, changes nothing: reading it and
/// then `rest` gives what reading `rest` alone gives.
pub proof fn lemma_skipped_line_changes_nothing(c: ConfigView, line: Seq<char>, rest: Seq<Seq<char>>)
    requires
        line_skipped(line),
    ensures
        read_lines(c, seq![line] + rest) == read_lines(c, rest),
{
    assert((seq![line] + rest).drop_first() =~= rest);
}

/// Reading a line for the key of an earlier line gives what it gives
/// without the earlier one.
proof fn lemma_same_key_apply(c: ConfigView, first: Seq<char>, second: Seq<char>)
    requires
        trim(line_key(first)) == trim(line_key(second)),
        apply_line(c, first) is Ok,
    ensures
        apply_line(apply_line(c, first)->Ok_0, second) == apply_line(c, second),
{
}

/// A later line for a key overrides an earlier one: two lines of the same
/// key read in a row give what the second alone gives.
pub proof fn lemma_later_line_overrides(c: ConfigView, first: Seq<char>, second: Seq<char>)
    requires
        !line_skipped(first),
        !line_skipped(second),
        trim(line_key(first)) == trim(line_key(second)),
        apply_line(c, first) is Ok,
    ensures
        read_lines(c, seq![first, second]) == read_lines(c, seq![second]),
{
    let both = seq![first, second];
    let one = seq![second];
    assert(both.drop_first() =~= one);
    assert(one.drop_first() =~= Seq::<Seq<char>>::empty());
    assert(both[0] == first);
    assert(one[0] == second);
    let c1 = apply_line(c, first)->Ok_0;
    lemma_same_key_apply(c, first, second);
    assert(read_lines(c, both) == read_lines(c1, one));
}

} // verus!
