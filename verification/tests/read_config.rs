use crazy_portal::ip::IpAddress;
use crazy_portal::read_config::{read_user_config, ConfigError};

const SAMPLE: &str = r#"
[CRATE_IFACE]
crate_iface = 1
iface_name = "eth1"

[GET_IP]
dynmaic_ip = 0
use_ipv6 = false
start_ip_v4 = "192.168.100.10"
static_mask_v4 = "255.255.255.0"
static_gw_v4 = "192.168.100.1"

[PORTAL_SERVER]
portal_ip_or_ipv6 = "100.100.1.32"
portal_port = 8080

[PORTAL_USER]
portal_user_num = 10
portal_user_head = "user"
portal_user_tail = 1000
all_password = "secret"
next_user_time = 2

[REDIRECT_IP]
redirect_ip_or_ipv6 = "2.2.2.2"

[ReAuth]
portal_reauth = 0

[STA_MAC_HEADER]
sta_mac_header = "00aabb"
"#;

#[test]
fn read_config_test_read_user_config() {
    let config_data = match read_user_config(SAMPLE) {
        Ok(c) => c,
        Err(_) => panic!("portal_con"),
    };
    println!("config_data: {:?}", config_data);
}

#[test]
fn reads_every_setting() {
    let c = match read_user_config(SAMPLE) {
        Ok(c) => c,
        Err(_) => panic!("portal_con"),
    };
    assert_eq!(c.crate_iface, 1);
    assert_eq!(c.iface_name, "eth1");
    assert_eq!(c.dynmaic_ip, 0);
    assert!(!c.use_ipv6);
    assert_eq!(c.start_ip, IpAddress::V4([192, 168, 100, 10]));
    assert_eq!(c.static_mask, IpAddress::V4([255, 255, 255, 0]));
    assert_eq!(c.static_gw, IpAddress::V4([192, 168, 100, 1]));
    assert_eq!(c.portal_ip, IpAddress::V4([100, 100, 1, 32]));
    assert_eq!(c.port, 8080);
    assert_eq!(c.portal_user_num, 10);
    assert_eq!(c.portal_user_head, "user");
    assert_eq!(c.portal_user_tail, 1000);
    assert_eq!(c.all_password, "secret");
    assert_eq!(c.next_user_time, 2);
    assert_eq!(c.redirect_ip, IpAddress::V4([2, 2, 2, 2]));
    assert_eq!(c.portal_reauth, 0);
    assert_eq!(c.sta_mac_header, "00aabb");
}

#[test]
fn empty_document_gives_defaults() {
    let c = match read_user_config("") {
        Ok(c) => c,
        Err(_) => panic!("empty"),
    };
    assert_eq!(c.crate_iface, 0);
    assert_eq!(c.iface_name, "");
    assert_eq!(c.dynmaic_ip, 1);
    assert!(!c.use_ipv6);
    assert_eq!(c.start_ip, IpAddress::V4([0, 0, 0, 0]));
    assert_eq!(c.static_mask, IpAddress::V4([0, 0, 0, 0]));
    assert_eq!(c.portal_ip, IpAddress::V4([0, 0, 0, 0]));
    assert_eq!(c.port, 80);
    assert_eq!(c.portal_user_num, 0);
    assert_eq!(c.next_user_time, 0);
    assert_eq!(c.sta_mac_header, "");
}

#[test]
fn ipv6_settings() {
    let text = "[GET_IP]\nuse_ipv6 = true\nstart_ip_v6 = \"2001:db8::5\"\nstart_ip_v4 = \"1.2.3.4\"\n\
                [PORTAL_SERVER]\nportal_ip_or_ipv6 = \"2001:db8::1\"\n";
    let c = match read_user_config(text) {
        Ok(c) => c,
        Err(_) => panic!("v6"),
    };
    assert!(c.use_ipv6);
    assert_eq!(c.start_ip, IpAddress::V6([0x2001, 0xdb8, 0, 0, 0, 0, 0, 5]));
    assert_eq!(c.static_mask, IpAddress::V6([0xffff, 0xffff, 0xffff, 0xffff, 0, 0, 0, 0]));
    assert_eq!(c.static_gw, IpAddress::V6([0; 8]));
    assert_eq!(c.portal_ip, IpAddress::V6([0x2001, 0xdb8, 0, 0, 0, 0, 0, 1]));
}

#[test]
fn wrong_kinds_and_bad_addresses_fall_back() {
    let text = "[CRATE_IFACE]\ncrate_iface = \"1\"\n[GET_IP]\nuse_ipv6 = 1\nstart_ip_v4 = \"300.1.1.1\"\nstatic_gw_v4 = 5\n\
                [PORTAL_SERVER]\nportal_port = 70000\n[ReAuth]\nportal_reauth = 300\n";
    let c = match read_user_config(text) {
        Ok(c) => c,
        Err(_) => panic!("kinds"),
    };
    assert_eq!(c.crate_iface, 0);
    assert!(!c.use_ipv6);
    assert_eq!(c.start_ip, IpAddress::V4([0, 0, 0, 0]));
    assert_eq!(c.static_gw, IpAddress::V4([0, 0, 0, 0]));
    assert_eq!(c.port, 4464);
    assert_eq!(c.portal_reauth, 44);
}

#[test]
fn negative_counts_wrap() {
    let c = match read_user_config("[PORTAL_USER]\nnext_user_time = -1\n[CRATE_IFACE]\ncrate_iface = -1\n") {
        Ok(c) => c,
        Err(_) => panic!("neg"),
    };
    assert_eq!(c.next_user_time, u64::MAX);
    assert_eq!(c.crate_iface, -1);
}

#[test]
fn syntax_error_is_reported() {
    match read_user_config("[GET_IP\nuse_ipv6 = true") {
        Err(ConfigError::Syntax(message)) => assert!(!message.is_empty()),
        Ok(_) => panic!("accepted"),
    }
}
