//! The portal configuration: which interface to create, which addresses and
//! users to run, and where the portal server is.

use vstd::prelude::*;

use crate::boundary::{toml_document, toml_entries, toml_error_text, toml_from_str, toml_lookup};
use crate::ip::{IpAddress, IpView};
use crate::ip_parse::{parse_ip, parse_ip_text};

verus! {

/// Settings read from the `portal_con` file.
#[derive(Debug, Clone)]
pub struct ConfigData {
    pub crate_iface: i8,
    pub iface_name: String,
    pub dynmaic_ip: i8,
    pub use_ipv6: bool,
    pub start_ip: IpAddress,
    pub static_mask: IpAddress,
    pub static_gw: IpAddress,
    pub portal_ip: IpAddress,
    pub portal_user_num: usize,
    pub portal_user_head: String,
    pub portal_user_tail: usize,
    pub all_password: String,
    pub port: u16,
    pub redirect_ip: IpAddress,
    pub portal_reauth: i8,
    pub sta_mac_header: String,
    pub next_user_time: u64,
}

pub struct ConfigView {
    pub crate_iface: i8,
    pub iface_name: Seq<char>,
    pub dynmaic_ip: i8,
    pub use_ipv6: bool,
    pub start_ip: IpView,
    pub static_mask: IpView,
    pub static_gw: IpView,
    pub portal_ip: IpView,
    pub portal_user_num: usize,
    pub portal_user_head: Seq<char>,
    pub portal_user_tail: usize,
    pub all_password: Seq<char>,
    pub port: u16,
    pub redirect_ip: IpView,
    pub portal_reauth: i8,
    pub sta_mac_header: Seq<char>,
    pub next_user_time: u64,
}

impl View for ConfigData {
    type V = ConfigView;

    open spec fn view(&self) -> ConfigView {
        ConfigView {
            crate_iface: self.crate_iface,
            iface_name: self.iface_name@,
            dynmaic_ip: self.dynmaic_ip,
            use_ipv6: self.use_ipv6,
            start_ip: self.start_ip@,
            static_mask: self.static_mask@,
            static_gw: self.static_gw@,
            portal_ip: self.portal_ip@,
            portal_user_num: self.portal_user_num,
            portal_user_head: self.portal_user_head@,
            portal_user_tail: self.portal_user_tail,
            all_password: self.all_password@,
            port: self.port,
            redirect_ip: self.redirect_ip@,
            portal_reauth: self.portal_reauth,
            sta_mac_header: self.sta_mac_header@,
            next_user_time: self.next_user_time,
        }
    }
}

/// A value found in the configuration document, as far as the settings
/// read it: a string, an integer, a boolean, or anything else.
pub enum TomlItem {
    Text(String),
    Integer(i64),
    Boolean(bool),
    Other,
}

pub enum TomlItemView {
    Text(Seq<char>),
    Integer(i64),
    Boolean(bool),
    Other,
}

impl View for TomlItem {
    type V = TomlItemView;

    open spec fn view(&self) -> TomlItemView {
        match self {
            TomlItem::Text(t) => TomlItemView::Text(t@),
            TomlItem::Integer(i) => TomlItemView::Integer(*i),
            TomlItem::Boolean(b) => TomlItemView::Boolean(*b),
            TomlItem::Other => TomlItemView::Other,
        }
    }
}

/// The settings document: for a section and a key, what stands there.
pub type Entries = Map<(Seq<char>, Seq<char>), TomlItemView>;

/// The boolean at `section.key`, or `default` where there is none.
pub open spec fn bool_setting(m: Entries, section: Seq<char>, key: Seq<char>, default: bool) -> bool {
    if m.contains_key((section, key)) {
        match m[(section, key)] {
            TomlItemView::Boolean(b) => b,
            _ => default,
        }
    } else {
        default
    }
}

/// The integer at `section.key`, or `default` where there is none.
pub open spec fn int_setting(m: Entries, section: Seq<char>, key: Seq<char>, default: i64) -> i64 {
    if m.contains_key((section, key)) {
        match m[(section, key)] {
            TomlItemView::Integer(i) => i,
            _ => default,
        }
    } else {
        default
    }
}

/// The string at `section.key`, or `default` where there is none.
pub open spec fn text_setting(m: Entries, section: Seq<char>, key: Seq<char>, default: Seq<char>) -> Seq<char> {
    if m.contains_key((section, key)) {
        match m[(section, key)] {
            TomlItemView::Text(t) => t,
            _ => default,
        }
    } else {
        default
    }
}

/// The address spelled by the string at `section.key` (by `default` where
/// there is none), or `fallback` where that is no address.
pub open spec fn ip_setting(
    m: Entries,
    section: Seq<char>,
    key: Seq<char>,
    default: Seq<char>,
    fallback: IpView,
) -> IpView {
    match parse_ip(text_setting(m, section, key, default)) {
        Some(a) => a,
        None => fallback,
    }
}

pub open spec fn v4_zero() -> IpView {
    IpView::V4(seq![0u8, 0, 0, 0])
}

pub open spec fn v6_zero() -> IpView {
    IpView::V6(seq![0u16, 0, 0, 0, 0, 0, 0, 0])
}

/// The mask used for IPv6 clients: a /64 prefix.
pub open spec fn v6_mask() -> IpView {
    IpView::V6(seq![0xffffu16, 0xffff, 0xffff, 0xffff, 0, 0, 0, 0])
}

/// The settings that a document gives: each from its section and key, with
/// its default where it is missing or of another kind, and integers cut to
/// the width of their field as `as` does.
pub open spec fn config_of(m: Entries) -> ConfigView {
    let use_ipv6 = bool_setting(m, "GET_IP"@, "use_ipv6"@, false);
    ConfigView {
        crate_iface: int_setting(m, "CRATE_IFACE"@, "crate_iface"@, 0) as i8,
        iface_name: text_setting(m, "CRATE_IFACE"@, "iface_name"@, ""@),
        dynmaic_ip: int_setting(m, "GET_IP"@, "dynmaic_ip"@, 1) as i8,
        use_ipv6,
        start_ip: if use_ipv6 {
            ip_setting(m, "GET_IP"@, "start_ip_v6"@, "::"@, v6_zero())
        } else {
            ip_setting(m, "GET_IP"@, "start_ip_v4"@, "0.0.0.0"@, v4_zero())
        },
        static_mask: if use_ipv6 {
            v6_mask()
        } else {
            ip_setting(m, "GET_IP"@, "static_mask_v4"@, "0.0.0.0"@, v4_zero())
        },
        static_gw: if use_ipv6 {
            ip_setting(m, "GET_IP"@, "static_gw_v6"@, "::"@, v6_zero())
        } else {
            ip_setting(m, "GET_IP"@, "static_gw_v4"@, "0.0.0.0"@, v4_zero())
        },
        portal_ip: ip_setting(m, "PORTAL_SERVER"@, "portal_ip_or_ipv6"@, "0.0.0.0"@, v4_zero()),
        portal_user_num: int_setting(m, "PORTAL_USER"@, "portal_user_num"@, 0) as usize,
        portal_user_head: text_setting(m, "PORTAL_USER"@, "portal_user_head"@, ""@),
        portal_user_tail: int_setting(m, "PORTAL_USER"@, "portal_user_tail"@, 0) as usize,
        all_password: text_setting(m, "PORTAL_USER"@, "all_password"@, ""@),
        port: int_setting(m, "PORTAL_SERVER"@, "portal_port"@, 80) as u16,
        redirect_ip: ip_setting(m, "REDIRECT_IP"@, "redirect_ip_or_ipv6"@, "0.0.0.0"@, v4_zero()),
        portal_reauth: int_setting(m, "ReAuth"@, "portal_reauth"@, 0) as i8,
        sta_mac_header: text_setting(m, "STA_MAC_HEADER"@, "sta_mac_header"@, ""@),
        next_user_time: int_setting(m, "PORTAL_USER"@, "next_user_time"@, 0) as u64,
    }
}

fn bool_at(doc: &toml::Value, section: &str, key: &str, default: bool) -> (r: bool)
    ensures
        r == bool_setting(toml_entries(*doc), section@, key@, default),
{
    match toml_lookup(doc, section, key) {
        Some(TomlItem::Boolean(b)) => b,
        _ => default,
    }
}

fn int_at(doc: &toml::Value, section: &str, key: &str, default: i64) -> (r: i64)
    ensures
        r == int_setting(toml_entries(*doc), section@, key@, default),
{
    match toml_lookup(doc, section, key) {
        Some(TomlItem::Integer(i)) => i,
        _ => default,
    }
}

fn text_at(doc: &toml::Value, section: &str, key: &str, default: &str) -> (r: String)
    ensures
        r@ == text_setting(toml_entries(*doc), section@, key@, default@),
{
    match toml_lookup(doc, section, key) {
        Some(TomlItem::Text(t)) => t,
        _ => default.to_owned(),
    }
}

fn ip_at(doc: &toml::Value, section: &str, key: &str, default: &str, fallback: IpAddress) -> (r:
    IpAddress)
    ensures
        r@ == ip_setting(toml_entries(*doc), section@, key@, default@, fallback@),
{
    let t = text_at(doc, section, key, default);
    match parse_ip_text(t.as_str()) {
        Some(a) => a,
        None => fallback,
    }
}

/// Why the settings could not be read.
#[derive(Debug)]
pub enum ConfigError {
    /// The text is no TOML document; the parser's message.
    Syntax(String),
}

/// The settings of a parsed document, by `config_of`.
pub fn config_from_toml(doc: &toml::Value) -> (r: ConfigData)
    ensures
        r@ == config_of(toml_entries(*doc)),
{
    let use_ipv6 = bool_at(doc, "GET_IP", "use_ipv6", false);
    let zero4 = IpAddress::V4([0, 0, 0, 0]);
    let zero6 = IpAddress::V6([0, 0, 0, 0, 0, 0, 0, 0]);
    let (start_ip, static_mask, static_gw) = if use_ipv6 {
        (
            ip_at(doc, "GET_IP", "start_ip_v6", "::", zero6),
            IpAddress::V6([0xffff, 0xffff, 0xffff, 0xffff, 0, 0, 0, 0]),
            ip_at(doc, "GET_IP", "static_gw_v6", "::", zero6),
        )
    } else {
        (
            ip_at(doc, "GET_IP", "start_ip_v4", "0.0.0.0", zero4),
            ip_at(doc, "GET_IP", "static_mask_v4", "0.0.0.0", zero4),
            ip_at(doc, "GET_IP", "static_gw_v4", "0.0.0.0", zero4),
        )
    };
    let r = ConfigData {
        crate_iface: int_at(doc, "CRATE_IFACE", "crate_iface", 0) as i8,
        iface_name: text_at(doc, "CRATE_IFACE", "iface_name", ""),
        dynmaic_ip: int_at(doc, "GET_IP", "dynmaic_ip", 1) as i8,
        use_ipv6,
        start_ip,
        static_mask,
        static_gw,
        portal_ip: ip_at(doc, "PORTAL_SERVER", "portal_ip_or_ipv6", "0.0.0.0", zero4),
        portal_user_num: int_at(doc, "PORTAL_USER", "portal_user_num", 0) as usize,
        portal_user_head: text_at(doc, "PORTAL_USER", "portal_user_head", ""),
        portal_user_tail: int_at(doc, "PORTAL_USER", "portal_user_tail", 0) as usize,
        all_password: text_at(doc, "PORTAL_USER", "all_password", ""),
        port: int_at(doc, "PORTAL_SERVER", "portal_port", 80) as u16,
        redirect_ip: ip_at(doc, "REDIRECT_IP", "redirect_ip_or_ipv6", "0.0.0.0", zero4),
        portal_reauth: int_at(doc, "ReAuth", "portal_reauth", 0) as i8,
        sta_mac_header: text_at(doc, "STA_MAC_HEADER", "sta_mac_header", ""),
        next_user_time: int_at(doc, "PORTAL_USER", "next_user_time", 0) as u64,
    };
    assert(zero4@ =~= v4_zero());
    assert(zero6@ =~= v6_zero());
    assert(IpAddress::V6([0xffff, 0xffff, 0xffff, 0xffff, 0, 0, 0, 0])@ =~= v6_mask());
    r
}

/// The settings in the text of a `portal_con` file: `Err` exactly where the
/// text is no TOML document, else `config_of` its entries.
pub fn read_user_config(contents: &str) -> (r: Result<ConfigData, ConfigError>)
    ensures
        match toml_document(contents@) {
            Some(m) => r matches Ok(c) && c@ == config_of(m),
            None => r is Err,
        },
{
    match toml_from_str(contents) {
        Ok(doc) => Ok(config_from_toml(&doc)),
        Err(e) => Err(ConfigError::Syntax(toml_error_text(&e))),
    }
}

} // verus!
