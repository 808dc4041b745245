use bitbridge::ipparse::parse_ip;
use bitbridge::netaddr::{from_v6_mapped, is_routable_global, to_v6_mapped, IpAddress, SocketAddress};

fn ip(text: &str) -> IpAddress {
    parse_ip(&text.chars().collect()).expect("address literal")
}

fn v6(text: &str, port: u16) -> SocketAddress {
    SocketAddress::V6 { ip: ip(text), port, flowinfo: 0, scope_id: 0 }
}

fn v4(text: &str, port: u16) -> SocketAddress {
    SocketAddress::V4 { ip: ip(text), port }
}

#[test]
fn from_v6_mapped_passes_through_plain_ipv4() {
    let addr = v4("192.0.2.1", 8080);
    assert_eq!(from_v6_mapped(addr), addr);
}

#[test]
fn from_v6_mapped_passes_through_non_mapped_v6() {
    let addr = v6("2001:db8::1", 443);
    assert_eq!(from_v6_mapped(addr), addr);
}

#[test]
fn from_v6_mapped_unwraps_v4_mapped_v6() {
    assert_eq!(from_v6_mapped(v6("::ffff:192.0.2.1", 9000)), v4("192.0.2.1", 9000));
}

#[test]
fn collapses_ipv4_mapped_ipv6_addresses() {
    let mapped = v6("::ffff:127.0.0.1", 19101);
    assert_eq!(from_v6_mapped(mapped), v4("127.0.0.1", 19101));
    assert_eq!(from_v6_mapped(v6("::1", 19101)), v6("::1", 19101));
}

#[test]
fn from_v6_mapped_unmaps_a_mapped_ipv4_address() {
    assert_eq!(from_v6_mapped(v6("::ffff:127.0.0.1", 54336)), v4("127.0.0.1", 54336));
}

#[test]
fn to_v6_mapped_round_trips() {
    let addr = v4("198.51.100.7", 3478);
    let mapped = to_v6_mapped(addr);
    assert_eq!(mapped, v6("::ffff:198.51.100.7", 3478));
    assert_eq!(from_v6_mapped(mapped), addr);
    assert_eq!(to_v6_mapped(mapped), mapped);
}

#[test]
fn loopback_and_private_skip_geoip() {
    assert!(!is_routable_global(IpAddress::V4(127, 0, 0, 1)));
    assert!(!is_routable_global(IpAddress::V4(10, 0, 0, 1)));
    assert!(!is_routable_global(IpAddress::V4(192, 168, 1, 1)));
    assert!(!is_routable_global(IpAddress::V4(172, 16, 0, 1)));
    assert!(!is_routable_global(IpAddress::V4(100, 64, 0, 1)));
    assert!(!is_routable_global(IpAddress::V4(169, 254, 0, 1)));
}

#[test]
fn public_ipv4_is_routable() {
    assert!(is_routable_global(IpAddress::V4(64, 118, 143, 14)));
    assert!(is_routable_global(IpAddress::V4(8, 8, 8, 8)));
}

#[test]
fn loopback_and_reserved_v6_skip_geoip() {
    assert!(!is_routable_global(ip("::1")));
    assert!(!is_routable_global(ip("::")));
    assert!(!is_routable_global(ip("ff02::1")));
    assert!(!is_routable_global(ip("fc00::1")));
    assert!(!is_routable_global(ip("fd12:3456:789a::1")));
    assert!(!is_routable_global(ip("fe80::1")));
    assert!(!is_routable_global(ip("2001:db8::1")));
    assert!(!is_routable_global(ip("100::1")));
}

#[test]
fn public_ipv6_is_routable() {
    assert!(is_routable_global(ip("2404:c140:2100:6::46:6f69")));
    assert!(is_routable_global(ip("2606:4700:4700::1111")));
}

#[test]
fn address_literals_follow_the_standard_grammar() {
    assert_eq!(ip("1.2.3.4"), IpAddress::V4(1, 2, 3, 4));
    assert_eq!(ip("::ffff:1.2.3.4"), IpAddress::V6(0, 0, 0, 0, 0, 0xffff, 0x0102, 0x0304));
    assert!(parse_ip(&"01.2.3.4".chars().collect()).is_none());
    assert!(parse_ip(&"1::2::3".chars().collect()).is_none());
    assert!(parse_ip(&"host.local".chars().collect()).is_none());
}
