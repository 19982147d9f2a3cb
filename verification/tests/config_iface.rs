use crazy_portal::config_iface::{classify_failure, CommandOutcome, InterfaceManager, InterfacePlan, MacLayout};
use crazy_portal::ip::{calculate_number_of_addresses, check_ip_range, increment_ipv6, iterate_ips, mask_to_cidr, IpAddress, RangeError};
use crazy_portal::read_config::read_user_config;

#[test]
fn config_iface_test_calculate_number_of_addresses() {
    let mask = IpAddress::V4([255, 255, 255, 0]);
    assert_eq!(calculate_number_of_addresses(mask) - 2, 254);
}

#[test]
fn config_iface_test_iterate_ips() {
    let start_ip_addr = IpAddress::V4([192, 168, 100, 10]);
    let mask = IpAddress::V4([255, 255, 255, 0]);
    iterate_ips(start_ip_addr, mask, 200);

    let start_ip_addr_v6 = IpAddress::V6([0x2001, 0xdb8, 0, 0, 0, 0, 0, 1]);
    let mask_v6 = IpAddress::V6([0xffff, 0xffff, 0xffff, 0xffff, 0, 0, 0, 0]);
    iterate_ips(start_ip_addr_v6, mask_v6, 200);
}

#[test]
fn config_iface_test_mask_to_cidr() {
    let mask = IpAddress::V4([255, 255, 255, 0]);
    assert_eq!(mask_to_cidr(mask), 24);

    let mask_v6 = IpAddress::V6([0xffff, 0xffff, 0xffff, 0xffff, 0, 0, 0, 0]);
    assert_eq!(mask_to_cidr(mask_v6), 64);
}

#[test]
fn test_increment_ipv6() {
    let ip = [0x2001, 0xdb8, 0, 0, 0, 0, 0, 0];
    println!("ip: {:?}", ip);
    let next_ip = increment_ipv6(ip, 64);
    println!("next_ip: {:?}", next_ip);
    assert_eq!(next_ip, [0x2001, 0xdb8, 0, 0, 0, 0, 0, 1]);
}

#[test]
fn iterate_ips_v4_values() {
    let (ips, network) = iterate_ips(IpAddress::V4([192, 168, 100, 10]), IpAddress::V4([255, 255, 255, 0]), 200);
    assert_eq!(ips.len(), 200);
    assert_eq!(ips[0], IpAddress::V4([192, 168, 100, 11]));
    assert_eq!(ips[199], IpAddress::V4([192, 168, 100, 210]));
    assert_eq!(network, IpAddress::V4([192, 168, 100, 0]));
}

#[test]
fn iterate_ips_v4_crosses_octet() {
    let (ips, network) = iterate_ips(IpAddress::V4([10, 0, 0, 254]), IpAddress::V4([255, 255, 0, 0]), 3);
    assert_eq!(ips, vec![IpAddress::V4([10, 0, 0, 255]), IpAddress::V4([10, 0, 1, 0]), IpAddress::V4([10, 0, 1, 1])]);
    assert_eq!(network, IpAddress::V4([10, 0, 0, 0]));
}

#[test]
fn iterate_ips_v6_values() {
    let start = [0x2001, 0xdb8, 0, 0, 0, 0, 0, 0xfffe];
    let (ips, first) = iterate_ips(IpAddress::V6(start), IpAddress::V6([0xffff, 0xffff, 0xffff, 0xffff, 0, 0, 0, 0]), 3);
    assert_eq!(ips, vec![
        IpAddress::V6([0x2001, 0xdb8, 0, 0, 0, 0, 0, 0xfffe]),
        IpAddress::V6([0x2001, 0xdb8, 0, 0, 0, 0, 0, 0xffff]),
        IpAddress::V6([0x2001, 0xdb8, 0, 0, 0, 0, 1, 0]),
    ]);
    assert_eq!(first, IpAddress::V6(start));
}

#[test]
fn increment_ipv6_carries() {
    assert_eq!(increment_ipv6([0, 0, 0, 0, 0, 0, 0xffff, 0xffff], 64), [0, 0, 0, 0, 0, 1, 0, 0]);
    assert_eq!(increment_ipv6([0x2001, 0xdb8, 0, 0, 0xffff, 0xffff, 0xffff, 0xffff], 128), [0x2001, 0xdb8, 0, 1, 0, 0, 0, 0]);
}

#[test]
fn number_of_addresses_by_mask() {
    assert_eq!(calculate_number_of_addresses(IpAddress::V4([255, 255, 255, 252])), 4);
    assert_eq!(calculate_number_of_addresses(IpAddress::V4([255, 0, 0, 0])), 16777216);
    assert_eq!(calculate_number_of_addresses(IpAddress::V4([128, 0, 0, 0])), 2147483648);
    assert_eq!(mask_to_cidr(IpAddress::V4([0, 0, 0, 0])), 0);
    assert_eq!(mask_to_cidr(IpAddress::V6([0xffff; 8])), 128);
}

fn manager_v4() -> InterfaceManager {
    let text = "[CRATE_IFACE]\ncrate_iface = 1\niface_name = \"eth0\"\n\
                [GET_IP]\nstart_ip_v4 = \"192.168.1.10\"\nstatic_mask_v4 = \"255.255.255.0\"\nstatic_gw_v4 = \"192.168.1.1\"\n\
                [PORTAL_USER]\nportal_user_num = 2\n\
                [STA_MAC_HEADER]\nsta_mac_header = \"02aabb\"\n";
    let config = match read_user_config(text) {
        Ok(c) => c,
        Err(_) => panic!("config"),
    };
    InterfaceManager::new(&config)
}

#[test]
fn create_interface_commands_v4() {
    let m = manager_v4();
    let cmds = m.create_interface();
    assert_eq!(cmds, vec![
        "ip link set eth0 promisc on".to_string(),
        "ip link add link eth0 name eth0.1 type macvlan mode private".to_string(),
        "ip link set dev eth0.1 address 02:aa:bb:00:00:01".to_string(),
        "ip link set eth0.1 up".to_string(),
        "ip addr add 192.168.1.11/24 dev eth0.1".to_string(),
        "route add -net 0.0.0.0/0 gw 192.168.1.1 dev eth0.1".to_string(),
        "ip link add link eth0 name eth0.2 type macvlan mode private".to_string(),
        "ip link set dev eth0.2 address 02:aa:bb:00:00:02".to_string(),
        "ip link set eth0.2 up".to_string(),
        "ip addr add 192.168.1.12/24 dev eth0.2".to_string(),
        "route add -net 0.0.0.0/0 gw 192.168.1.1 dev eth0.2".to_string(),
    ]);
}

#[test]
fn create_interface_commands_v6() {
    let text = "[CRATE_IFACE]\niface_name = \"wlan0\"\n\
                [GET_IP]\nuse_ipv6 = true\nstart_ip_v6 = \"2001:db8::10\"\nstatic_gw_v6 = \"2001:db8::1\"\n\
                [PORTAL_USER]\nportal_user_num = 1\n\
                [STA_MAC_HEADER]\nsta_mac_header = \"0a1b2c\"\n";
    let config = match read_user_config(text) {
        Ok(c) => c,
        Err(_) => panic!("config"),
    };
    let m = InterfaceManager::new(&config);
    assert_eq!(m.create_interface(), vec![
        "ip link set wlan0 promisc on".to_string(),
        "ip link add link wlan0 name wlan0.1 type macvlan mode private".to_string(),
        "ip link set dev wlan0.1 address 0a:1b:2c:00:00:01".to_string(),
        "ip link set wlan0.1 up".to_string(),
        "ip addr add 2001:db8::10/64 dev wlan0.1".to_string(),
        "ip -6 route add default via 2001:db8::1 dev wlan0.1".to_string(),
    ]);
}

#[test]
fn delete_interface_commands() {
    let m = manager_v4();
    assert_eq!(m.delete_interfaces(), vec!["ip link delete eth0.1".to_string(), "ip link delete eth0.2".to_string()]);
}

#[test]
fn interface_mac_in_hex() {
    let text = "[CRATE_IFACE]\niface_name = \"e\"\n[GET_IP]\nstart_ip_v4 = \"10.0.0.1\"\nstatic_mask_v4 = \"255.255.0.0\"\n\
                [PORTAL_USER]\nportal_user_num = 26\n[STA_MAC_HEADER]\nsta_mac_header = \"0011\"\n";
    let config = match read_user_config(text) {
        Ok(c) => c,
        Err(_) => panic!("config"),
    };
    let cmds = InterfaceManager::new(&config).create_interface();
    assert_eq!(cmds.len(), 1 + 26 * 5);
    assert_eq!(cmds[1 + 25 * 5 + 1], "ip link set dev e.26 address 00:11:00:00:1a".to_string());
}

#[test]
fn plan_codes() {
    assert_eq!(InterfacePlan::from_setting(1), InterfacePlan::Create);
    assert_eq!(InterfacePlan::from_setting(0), InterfacePlan::Delete);
    assert_eq!(InterfacePlan::from_setting(7), InterfacePlan::Invalid);
    assert_eq!(InterfacePlan::Create.code(), 1);
    assert_eq!(InterfacePlan::Delete.code(), 0);
    assert_eq!(InterfacePlan::Invalid.code(), -1);
}

#[test]
fn command_failures_classified() {
    assert_eq!(classify_failure(&b"RTNETLINK answers: File exists\n".to_vec()), CommandOutcome::Accepted);
    assert_eq!(classify_failure(&b"RTNETLINK answers: Operation not permitted\n".to_vec()), CommandOutcome::PermissionDenied);
    assert_eq!(classify_failure(&b"SIOCADDRT: Network is unreachable\n".to_vec()), CommandOutcome::Accepted);
    assert_eq!(classify_failure(&b"Cannot find device \"eth9\"\n".to_vec()), CommandOutcome::Failed);
    assert_eq!(classify_failure(&vec![0xff, 0xfe]), CommandOutcome::Failed);
}

#[test]
fn four_digit_mac_layout() {
    let text = "[CRATE_IFACE]\niface_name = \"eth0\"\n[GET_IP]\nstart_ip_v4 = \"10.1.0.1\"\nstatic_mask_v4 = \"255.255.0.0\"\n\
                static_gw_v4 = \"10.1.0.254\"\n[PORTAL_USER]\nportal_user_num = 300\n[STA_MAC_HEADER]\nsta_mac_header = \"0172aa\"\n";
    let config = match read_user_config(text) {
        Ok(c) => c,
        Err(_) => panic!("config"),
    };
    let cmds = InterfaceManager::with_mac_layout(&config, MacLayout::ZeroHeaderFourDigits).create_interface();
    assert_eq!(cmds[2], "ip link set dev eth0.1 address 00:01:72:aa:00:01".to_string());
    assert_eq!(cmds[1 + 299 * 5 + 1], "ip link set dev eth0.300 address 00:01:72:aa:01:2c".to_string());
    assert_eq!(cmds[1 + 299 * 5 + 3], "ip addr add 10.1.1.45/16 dev eth0.300".to_string());
    assert_eq!(cmds[1 + 299 * 5 + 4], "route add -net 0.0.0.0/0 gw 10.1.0.254 dev eth0.300".to_string());
}

#[test]
fn range_stays_within_network() {
    let (ips, network) = iterate_ips(IpAddress::V4([172, 16, 5, 200]), IpAddress::V4([255, 255, 255, 0]), 55);
    assert_eq!(network, IpAddress::V4([172, 16, 5, 0]));
    assert_eq!(ips.last(), Some(&IpAddress::V4([172, 16, 5, 255])));
    for (i, ip) in ips.iter().enumerate() {
        match ip {
            IpAddress::V4(o) => {
                assert_eq!(o[..3], [172, 16, 5]);
                assert_eq!(o[3] as usize, 201 + i);
            }
            IpAddress::V6(_) => panic!("family"),
        }
    }
}

#[test]
fn range_checks() {
    let m24 = IpAddress::V4([255, 255, 255, 0]);
    assert_eq!(check_ip_range(IpAddress::V4([10, 0, 0, 10]), m24, 245), Ok(()));
    assert_eq!(check_ip_range(IpAddress::V4([10, 0, 0, 10]), m24, 246), Err(RangeError::PastEnd));
    assert_eq!(check_ip_range(IpAddress::V4([10, 0, 0, 0]), IpAddress::V4([0, 0, 0, 0]), 1), Err(RangeError::EmptyMask));
    assert_eq!(check_ip_range(IpAddress::V4([255, 255, 255, 200]), IpAddress::V4([128, 0, 0, 0]), 55), Err(RangeError::PastEnd));
    assert_eq!(check_ip_range(IpAddress::V4([10, 0, 0, 1]), IpAddress::V6([0xffff; 8]), 1), Err(RangeError::MixedFamilies));
    assert_eq!(check_ip_range(IpAddress::V6([0; 8]), IpAddress::V6([0; 8]), 0), Ok(()));
    assert_eq!(check_ip_range(IpAddress::V6([0; 8]), IpAddress::V6([0; 8]), 1), Err(RangeError::EmptyMask));
    assert_eq!(check_ip_range(IpAddress::V6([0xffff; 8]), IpAddress::V6([0xffff; 8]), 1), Err(RangeError::PastEnd));
    assert_eq!(check_ip_range(IpAddress::V6([0xffff, 0xffff, 0xffff, 0xffff, 0xffff, 0xffff, 0xffff, 0xfffe]), IpAddress::V6([0xffff; 8]), 1), Ok(()));
}

#[test]
fn range_check_with_sparse_mask() {
    assert_eq!(check_ip_range(IpAddress::V4([0, 0, 0, 0]), IpAddress::V4([0, 255, 255, 255]), 1000), Err(RangeError::TooMany));
    assert_eq!(check_ip_range(IpAddress::V4([0, 0, 0, 0]), IpAddress::V4([0, 255, 255, 255]), 256), Ok(()));
}

#[test]
fn interface_macs_and_names_are_distinct() {
    let text = "[CRATE_IFACE]\niface_name = \"br0\"\n[GET_IP]\nstart_ip_v4 = \"10.2.0.1\"\nstatic_mask_v4 = \"255.255.0.0\"\n\
                [PORTAL_USER]\nportal_user_num = 300\n[STA_MAC_HEADER]\nsta_mac_header = \"02\"\n";
    let config = match read_user_config(text) {
        Ok(c) => c,
        Err(_) => panic!("config"),
    };
    let cmds = InterfaceManager::new(&config).create_interface();
    let mut macs: Vec<&String> = (0..300).map(|k| &cmds[1 + k * 5 + 1]).collect();
    macs.sort();
    macs.dedup();
    assert_eq!(macs.len(), 300);
    let mut names: Vec<&String> = (0..300).map(|k| &cmds[1 + k * 5 + 2]).collect();
    names.sort();
    names.dedup();
    assert_eq!(names.len(), 300);
}

#[test]
fn plan_codes_from_settings() {
    for (flag, code) in [(1, 1i8), (0, 0), (5, -1)] {
        let text = format!("[CRATE_IFACE]\ncrate_iface = {}\niface_name = \"eth0\"\n", flag);
        let config = match read_user_config(&text) {
            Ok(c) => c,
            Err(_) => panic!("config"),
        };
        let (m, c) = InterfaceManager::plan(&config);
        assert_eq!(c, code);
        assert_eq!(m.parent_interface, "eth0");
    }
}
