//! Building blocks of a captive-portal login client: HTTP message framing and
//! parsing, IPv4/IPv6 address arithmetic and parsing, configuration reading,
//! the commands that set up virtual interfaces, connection retries, and the
//! decisions that drive a portal login session.

pub mod boundary;
pub mod checked_portal;
pub mod config_iface;
pub mod connect;
pub mod http_request;
pub mod http_response;
pub mod ip;
pub mod ip_parse;
pub mod line_config;
pub mod local_portal;
pub mod numtext;
pub mod portal;
pub mod read_config;
pub mod text;
pub mod user_config;
