use mozim::{get_test_veth_cli_mac, ipv4, DhcpServerLease, ParseLeaseErr};

#[test]
fn parses_dnsmasq_line() {
    let l = DhcpServerLease::from_str("1700000000 00:23:45:67:89:1a 192.0.2.99 foo1 00:66:6f:6f:31")
        .unwrap();
    assert_eq!(l.expire, 1700000000);
    assert_eq!(l.mac, "00:23:45:67:89:1a");
    assert_eq!(l.ip, ipv4(192, 0, 2, 99));
    assert_eq!(l.host_name, "foo1");
    assert_eq!(l.client_id, vec![0, 0x66, 0x6f, 0x6f, 0x31]);
}

#[test]
fn extra_white_space_between_words() {
    let l = DhcpServerLease::from_str("  +5\t aa  10.0.0.1 h FF:0a \n").unwrap();
    assert_eq!(l.expire, 5);
    assert_eq!(l.ip, ipv4(10, 0, 0, 1));
    assert_eq!(l.client_id, vec![0xff, 0x0a]);
}

#[test]
fn rejects_malformed_lines() {
    assert_eq!(DhcpServerLease::from_str("1 aa 10.0.0.1 h"), Err(ParseLeaseErr));
    assert_eq!(DhcpServerLease::from_str("1 aa 10.0.0.1 h 01 x"), Err(ParseLeaseErr));
    assert_eq!(DhcpServerLease::from_str("4294967296 aa 10.0.0.1 h 01"), Err(ParseLeaseErr));
    assert_eq!(DhcpServerLease::from_str("-1 aa 10.0.0.1 h 01"), Err(ParseLeaseErr));
    assert_eq!(DhcpServerLease::from_str("1 aa 10.0.0.256 h 01"), Err(ParseLeaseErr));
    assert_eq!(DhcpServerLease::from_str("1 aa 10.0.00.1 h 01"), Err(ParseLeaseErr));
    assert_eq!(DhcpServerLease::from_str("1 aa 10.0.1 h 01"), Err(ParseLeaseErr));
    assert_eq!(DhcpServerLease::from_str("1 aa 10.0.0.1 h 01:zz"), Err(ParseLeaseErr));
    assert_eq!(DhcpServerLease::from_str("1 aa 10.0.0.1 h 100"), Err(ParseLeaseErr));
    assert_eq!(DhcpServerLease::from_str("1 aa 10.0.0.1 h *"), Err(ParseLeaseErr));
}

#[test]
fn largest_expiry_accepted() {
    let l = DhcpServerLease::from_str("4294967295 aa 255.255.255.255 h 0").unwrap();
    assert_eq!(l.expire, u32::MAX);
    assert_eq!(l.ip, u32::MAX);
    assert_eq!(l.client_id, vec![0]);
}

#[test]
fn cli_mac_trims_trailing_white_space() {
    assert_eq!(get_test_veth_cli_mac("00:11:22:33:44:55 \n\t"), "00:11:22:33:44:55");
    assert_eq!(get_test_veth_cli_mac(" a\u{3000}"), " a");
    assert_eq!(get_test_veth_cli_mac(""), "");
}

#[test]
fn mac_address_parsing() {
    assert_eq!(
        mozim::parse_mac("00:23:45:67:89:1a"),
        Some(vec![0, 0x23, 0x45, 0x67, 0x89, 0x1a])
    );
    assert_eq!(mozim::parse_mac("00:23:45:67:89"), None);
    assert_eq!(mozim::parse_mac("00:23:45:67:89:1g"), None);
}
