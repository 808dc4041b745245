use bitbridge::ice::{
    parse_stun_urls, parse_turn_urls, stun_url_to_host_port, turn_credentials_from_config, turn_url_to_host_port,
    IceConfig,
};
use bitbridge::interfaces::{
    is_filtered_interface_name, is_usable_interface, is_windows_virtual_interface_name, InterfaceInfo,
};
use bitbridge::netaddr::IpAddress;
use bitbridge::sdp::{sanitize_sdp, strip_candidates_from_sdp};

#[test]
fn defaults_ipv4_stun_urls_to_default_port() {
    assert_eq!(stun_url_to_host_port("stun:198.51.100.10"), Some("198.51.100.10:3478".to_string()));
}

#[test]
fn preserves_bracketed_ipv6_with_explicit_port() {
    assert_eq!(stun_url_to_host_port("stun:[2001:db8::7]:3478"), Some("[2001:db8::7]:3478".to_string()));
}

#[test]
fn brackets_raw_ipv6_literals_with_default_port() {
    assert_eq!(stun_url_to_host_port("stun:2001:db8::7"), Some("[2001:db8::7]:3478".to_string()));
}

#[test]
fn turn_urls_drop_their_query() {
    assert_eq!(turn_url_to_host_port("turn:relay.example:3478?transport=udp"), Some("relay.example:3478".to_string()));
    assert_eq!(turn_url_to_host_port("turn:relay.example"), Some("relay.example:3478".to_string()));
    assert_eq!(turn_url_to_host_port("stun:relay.example"), None);
    assert_eq!(stun_url_to_host_port("stun:   "), None);
}

#[test]
fn ice_config_splits_stun_and_turn() {
    let config = IceConfig {
        urls: vec!["stun:a".to_string(), "turn:b".to_string(), "turns:c".to_string()],
        username: Some("u".to_string()),
        credential: Some("p".to_string()),
    };
    assert_eq!(parse_stun_urls(&config), vec!["stun:a".to_string()]);
    assert_eq!(parse_turn_urls(&config), vec!["turn:b".to_string()]);
    let creds = turn_credentials_from_config(&config).unwrap();
    assert_eq!(creds.username, "u");
    assert_eq!(creds.password, "p");
    let no_creds = IceConfig { urls: vec![], username: None, credential: Some("p".to_string()) };
    assert!(turn_credentials_from_config(&no_creds).is_none());
}

#[test]
fn filters_common_windows_virtual_adapter_names() {
    for name in [
        "vEthernet (Default Switch)",
        "Hyper-V Virtual Ethernet Adapter",
        "WSL (Hyper-V firewall)",
        "Npcap Loopback Adapter",
        "Tailscale Tunnel",
        "ZeroTier One [ab12cd34ef]",
        "WireGuard Tunnel",
        "Microsoft ISATAP Adapter",
        "Teredo Tunneling Pseudo-Interface",
        "OpenVPN TAP-Windows6",
        "Hamachi",
    ] {
        assert!(is_windows_virtual_interface_name(&name.to_ascii_lowercase()), "{name}");
        assert!(is_filtered_interface_name(name, true), "{name}");
    }
}

#[test]
fn keeps_physical_lan_adapter_names() {
    for name in [
        "Ethernet",
        "Ethernet 2",
        "Wi-Fi",
        "Intel(R) Ethernet Controller I225-V",
        "Realtek Gaming 2.5GbE Family Controller",
        "en0",
        "eth0",
        "wlan0",
    ] {
        assert!(!is_filtered_interface_name(name, true), "{name}");
        assert!(!is_filtered_interface_name(name, false), "{name}");
    }
}

#[test]
fn windows_rules_do_not_change_non_windows_generic_filtering() {
    for name in ["docker0", "vboxnet0", "br-4c0f6d9a33f3", "veth7f2a", "virbr0"] {
        assert!(is_filtered_interface_name(name, false), "{name}");
        assert!(is_filtered_interface_name(name, true), "{name}");
    }
}

#[test]
fn usable_interfaces_exclude_loopback_and_link_local() {
    let eth = InterfaceInfo { name: " Ethernet ".to_string(), is_loopback: false, ip: IpAddress::V4(192, 168, 1, 5) };
    assert!(is_usable_interface(&eth, true));
    let lo = InterfaceInfo { name: "lo".to_string(), is_loopback: true, ip: IpAddress::V4(127, 0, 0, 1) };
    assert!(!is_usable_interface(&lo, false));
    let ll4 = InterfaceInfo { name: "eth0".to_string(), is_loopback: false, ip: IpAddress::V4(169, 254, 3, 3) };
    assert!(!is_usable_interface(&ll4, false));
    let ll6 = InterfaceInfo { name: "eth0".to_string(), is_loopback: false, ip: IpAddress::V6(0xfe80, 0, 0, 0, 0, 0, 0, 1) };
    assert!(!is_usable_interface(&ll6, false));
    let tunnel = InterfaceInfo { name: "Tailscale Tunnel".to_string(), is_loopback: false, ip: IpAddress::V4(100, 101, 0, 1) };
    assert!(is_usable_interface(&tunnel, false));
    assert!(!is_usable_interface(&tunnel, true));
}

#[test]
fn strip_candidates_from_sdp_removes_candidate_lines() {
    let sdp = "v=0\r\n\
        o=- 0 0 IN IP4 127.0.0.1\r\n\
        s=-\r\n\
        c=IN IP4 0.0.0.0\r\n\
        a=candidate:1 1 UDP 2130706431 192.168.1.1 49152 typ host\r\n\
        a=candidate:2 1 UDP 2130706432 10.0.0.1 49153 typ srflx\r\n\
        a=end-of-candidates\r\n\
        a=ice-pwd:password123\r\n";

    let stripped = strip_candidates_from_sdp(sdp);

    assert!(!stripped.contains("a=candidate:"));
    assert!(!stripped.contains("a=end-of-candidates"));
    assert!(stripped.contains("a=ice-pwd:password123"));
    assert!(stripped.contains("c=IN IP4 0.0.0.0"));
}

#[test]
fn strip_candidates_from_sdp_preserves_non_candidate_lines() {
    let sdp = "v=0\r\n\
        o=- 0 0 IN IP4 127.0.0.1\r\n\
        s=Test\r\n\
        c=IN IP4 0.0.0.0\r\n\
        a=ice-ufrag:user123\r\n\
        a=ice-pwd:password123\r\n\
        a=fingerprint:sha-256 AB:CD:EF:12:34:56\r\n";

    let stripped = strip_candidates_from_sdp(sdp);

    assert!(stripped.contains("v=0"));
    assert!(stripped.contains("o=- 0 0 IN IP4 127.0.0.1"));
    assert!(stripped.contains("s=Test"));
    assert!(stripped.contains("a=ice-ufrag:user123"));
    assert!(stripped.contains("a=ice-pwd:password123"));
    assert!(stripped.contains("a=fingerprint:sha-256"));
}

#[test]
fn strip_candidates_from_sdp_empty_when_only_candidates() {
    let sdp = "v=0\r\n\
        a=candidate:1 1 UDP 2130706431 192.168.1.1 49152 typ host\r\n\
        a=candidate:2 1 UDP 2130706432 10.0.0.1 49153 typ srflx\r\n";

    let stripped = strip_candidates_from_sdp(sdp);

    assert!(stripped.contains("v=0"));
    assert!(!stripped.contains("a=candidate:"));
}

#[test]
fn strip_candidates_joins_remaining_lines_with_crlf() {
    assert_eq!(strip_candidates_from_sdp("v=0\na=candidate:x\n  a=end-of-candidates \ns=-"), "v=0\r\ns=-");
}

#[test]
fn sanitize_sdp_drops_mdns_candidates_only() {
    let sdp = "v=0\r\na=candidate:1 1 udp 1 abc.local 5000 typ host\r\na=candidate:2 1 udp 1 10.0.0.2 5000 typ host\r\n";
    assert_eq!(sanitize_sdp(sdp), "v=0\r\na=candidate:2 1 udp 1 10.0.0.2 5000 typ host");
}
