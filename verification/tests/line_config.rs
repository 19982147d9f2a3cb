use crazy_portal::line_config::{read_user_config, value_error, LineError};

const SAMPLE: &str = "# portal settings\r\n\
crate_iface = 1\r\n\
iface_name = eth0\r\n\
dynmaic_ip=0\n\
start_ip = 192.168.100.10\n\
static_mask = 255.255.255.0\n\
static_gw = 192.168.100.1\n\
portal_ip = 100.100.1.32\n\
portal_user_num = 20\n\
portal_user_head = test\n\
portal_user_tail = 100\n\
all_password = pass=word\n\
portal_port = 80\n\
redirect_ip = 2.2.2.2\n\
portal_reauth = 1\n\
\n\
this line has no equals sign\n";

#[test]
fn line_config_test_read_user_config() {
    let config_data = read_user_config(SAMPLE).unwrap();
    println!("config_data: {:?}", config_data);
}

#[test]
fn reads_every_line_setting() {
    let c = read_user_config(SAMPLE).unwrap();
    assert_eq!(c.crate_iface, 1);
    assert_eq!(c.iface_name, "eth0");
    assert_eq!(c.dynmaic_ip, 0);
    assert_eq!(c.start_ip, [192, 168, 100, 10]);
    assert_eq!(c.static_mask, [255, 255, 255, 0]);
    assert_eq!(c.static_gw, [192, 168, 100, 1]);
    assert_eq!(c.portal_ip, [100, 100, 1, 32]);
    assert_eq!(c.portal_user_num, 20);
    assert_eq!(c.portal_user_head, "test");
    assert_eq!(c.portal_user_tail, 100);
    assert_eq!(c.all_password, "pass=word");
    assert_eq!(c.port, 80);
    assert_eq!(c.redirect_ip, [2, 2, 2, 2]);
    assert_eq!(c.portal_reauth, 1);
}

#[test]
fn empty_text_gives_defaults() {
    let c = read_user_config("").unwrap();
    assert_eq!(c.crate_iface, 0);
    assert_eq!(c.dynmaic_ip, 1);
    assert_eq!(c.start_ip, [0, 0, 0, 0]);
    assert_eq!(c.port, 0);
    assert_eq!(c.iface_name, "");
}

#[test]
fn bad_small_settings_become_zero() {
    let c = read_user_config("crate_iface = yes\ndynmaic_ip = 300\nportal_reauth = -5\n").unwrap();
    assert_eq!(c.crate_iface, 0);
    assert_eq!(c.dynmaic_ip, 0);
    assert_eq!(c.portal_reauth, -5);
}

#[test]
fn unknown_key_is_an_error() {
    match read_user_config("iface_name = a\n  colour = red\nportal_port = x\n") {
        Err(LineError::InvalidKey(k)) => assert_eq!(k, "  colour "),
        other => panic!("{:?}", other),
    }
}

#[test]
fn bad_address_stops_reading() {
    assert_eq!(value_error("start_ip = 1.2.3\n"), Some(("static_ip".to_string(), "1.2.3".to_string())));
    assert_eq!(value_error("colour = red\nstart_ip = 1.2.3\n"), None);
    assert_eq!(value_error("start_ip = 1.2.3.4\n"), None);
}

#[test]
fn bad_port_stops_reading() {
    assert_eq!(value_error("portal_port = 65536\n"), Some(("port".to_string(), "65536".to_string())));
    assert_eq!(value_error("portal_user_num = -1\n"), Some(("portal_user_num".to_string(), "-1".to_string())));
    assert_eq!(read_user_config("portal_port = +8080").unwrap().port, 8080);
}

#[test]
fn comments_and_later_lines() {
    let c = read_user_config("#portal_port = 1\nportal_port = 2\nportal_port = 3\n").unwrap();
    assert_eq!(c.port, 3);
}
