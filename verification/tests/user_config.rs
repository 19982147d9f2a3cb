use crazy_portal::read_config::read_user_config;
use crazy_portal::user_config::UserConfig;

#[test]
fn users_from_config() {
    let text = "[PORTAL_SERVER]\nportal_ip_or_ipv6 = \"100.100.1.32\"\nportal_port = 8080\n\
                [PORTAL_USER]\nportal_user_num = 3\nportal_user_head = \"stu\"\nportal_user_tail = 99\nall_password = \"pw\"\n";
    let config = match read_user_config(text) {
        Ok(c) => c,
        Err(_) => panic!("config"),
    };
    let users = UserConfig::new(&config);
    assert_eq!(users.len(), 3);
    let u0 = &users[&0];
    assert_eq!(u0.index, 0);
    assert_eq!(u0.username, "stu99");
    assert_eq!(u0.password, "pw");
    assert_eq!(u0.host2, "100.100.1.32:8080");
    assert_eq!(users[&2].username, "stu101");
    assert!(!users.contains_key(&3));
}

#[test]
fn ipv6_portal_host() {
    let text = "[PORTAL_SERVER]\nportal_ip_or_ipv6 = \"2001:db8::1\"\n[PORTAL_USER]\nportal_user_num = 1\n";
    let config = match read_user_config(text) {
        Ok(c) => c,
        Err(_) => panic!("config"),
    };
    let users = UserConfig::new(&config);
    assert_eq!(users[&0].host2, "2001:db8::1:80");
    assert_eq!(users[&0].username, "0");
}

#[test]
fn accounts_are_distinct() {
    let text = "[PORTAL_USER]\nportal_user_num = 120\nportal_user_head = \"a1\"\nportal_user_tail = 0\n";
    let config = match read_user_config(text) {
        Ok(c) => c,
        Err(_) => panic!("config"),
    };
    let users = UserConfig::new(&config);
    let mut names: Vec<String> = users.values().map(|u| u.username.clone()).collect();
    names.sort();
    names.dedup();
    assert_eq!(names.len(), 120);
    assert_eq!(users[&11].username, "a111");
}
