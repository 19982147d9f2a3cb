use crazy_portal::ip::{push_ip_text, IpAddress};
use crazy_portal::ip_parse::{parse_ip_text, parse_ipv4_text};

#[test]
fn parses_ipv4() {
    assert_eq!(parse_ip_text("192.168.1.10"), Some(IpAddress::V4([192, 168, 1, 10])));
    assert_eq!(parse_ip_text("0.0.0.0"), Some(IpAddress::V4([0, 0, 0, 0])));
    assert_eq!(parse_ip_text("255.255.255.255"), Some(IpAddress::V4([255, 255, 255, 255])));
    assert_eq!(parse_ipv4_text("10.0.0.1"), Some([10, 0, 0, 1]));
}

#[test]
fn rejects_bad_ipv4() {
    assert_eq!(parse_ip_text("256.1.1.1"), None);
    assert_eq!(parse_ip_text("1.2.3"), None);
    assert_eq!(parse_ip_text("1.2.3.4."), None);
    assert_eq!(parse_ip_text("01.2.3.4"), None);
    assert_eq!(parse_ip_text("1.2.3.4 "), None);
    assert_eq!(parse_ip_text(""), None);
    assert_eq!(parse_ip_text("1..2.3"), None);
    assert_eq!(parse_ip_text("1234.1.1.1"), None);
    assert_eq!(parse_ipv4_text("::1"), None);
    assert_eq!(parse_ipv4_text("1.2.3.4x"), None);
}

#[test]
fn parses_ipv6() {
    assert_eq!(parse_ip_text("::"), Some(IpAddress::V6([0; 8])));
    assert_eq!(parse_ip_text("::1"), Some(IpAddress::V6([0, 0, 0, 0, 0, 0, 0, 1])));
    assert_eq!(parse_ip_text("2001:db8::10"), Some(IpAddress::V6([0x2001, 0xdb8, 0, 0, 0, 0, 0, 0x10])));
    assert_eq!(parse_ip_text("1:2:3:4:5:6:7:8"), Some(IpAddress::V6([1, 2, 3, 4, 5, 6, 7, 8])));
    assert_eq!(parse_ip_text("FFFF:abcd::"), Some(IpAddress::V6([0xffff, 0xabcd, 0, 0, 0, 0, 0, 0])));
    assert_eq!(parse_ip_text("1::2:3"), Some(IpAddress::V6([1, 0, 0, 0, 0, 0, 2, 3])));
    assert_eq!(parse_ip_text("0001:02::"), Some(IpAddress::V6([1, 2, 0, 0, 0, 0, 0, 0])));
}

#[test]
fn parses_ipv6_with_embedded_ipv4() {
    assert_eq!(parse_ip_text("::ffff:192.168.1.1"), Some(IpAddress::V6([0, 0, 0, 0, 0, 0xffff, 0xc0a8, 0x0101])));
    assert_eq!(parse_ip_text("1:2:3:4:5:6:1.2.3.4"), Some(IpAddress::V6([1, 2, 3, 4, 5, 6, 0x0102, 0x0304])));
    assert_eq!(parse_ip_text("1.2.3.4::"), None);
    assert_eq!(parse_ip_text("1:2:3:4:5:6:7:1.2.3.4"), None);
}

#[test]
fn rejects_bad_ipv6() {
    assert_eq!(parse_ip_text(":::"), None);
    assert_eq!(parse_ip_text("1::2::3"), None);
    assert_eq!(parse_ip_text("1:2:3:4:5:6:7:8:9"), None);
    assert_eq!(parse_ip_text("1:2:3:4:5:6:7"), None);
    assert_eq!(parse_ip_text("12345::"), None);
    assert_eq!(parse_ip_text("g::"), None);
    assert_eq!(parse_ip_text("1:2:3:4:5:6:7:8::"), None);
    assert_eq!(parse_ip_text("[::1]"), None);
}

#[test]
fn ipv4_text_reads_back() {
    use_text_round_trip(IpAddress::V4([0, 0, 0, 0]));
    use_text_round_trip(IpAddress::V4([255, 10, 100, 7]));
    use_text_round_trip(IpAddress::V4([192, 168, 1, 1]));
}

#[test]
fn ipv6_text_reads_back() {
    use_text_round_trip(IpAddress::V6([0x2001, 0xdb8, 0, 0, 0, 0, 0, 1]));
    use_text_round_trip(IpAddress::V6([0, 0, 0, 0, 0, 0xffff, 0xc0a8, 0x0101]));
    use_text_round_trip(IpAddress::V6([1, 0, 2, 0, 0, 3, 0, 4]));
    use_text_round_trip(IpAddress::V6([0; 8]));
}

fn use_text_round_trip(a: IpAddress) {
    let mut text: Vec<char> = Vec::new();
    push_ip_text(&mut text, a);
    let s: String = text.into_iter().collect();
    assert_eq!(parse_ip_text(&s), Some(a), "{}", s);
}
