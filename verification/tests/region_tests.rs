use bitbridge::netaddr::{IpAddress, SocketAddress};
use bitbridge::region::{
    build_turn_interfaces, country_to_region, region_for_lookup, resolve_local_region, PublicAddresses,
    RegistrationState,
};

#[test]
fn americas_codes_map_to_us() {
    assert_eq!(country_to_region("US"), Some("us"));
    assert_eq!(country_to_region("CA"), Some("us"));
    assert_eq!(country_to_region("MX"), Some("us"));
}

#[test]
fn europe_codes_map_to_eu() {
    assert_eq!(country_to_region("GB"), Some("eu"));
    assert_eq!(country_to_region("DE"), Some("eu"));
    assert_eq!(country_to_region("FR"), Some("eu"));
    assert_eq!(country_to_region("UA"), Some("eu"));
}

#[test]
fn asia_codes_map_to_asia() {
    assert_eq!(country_to_region("SG"), Some("asia"));
    assert_eq!(country_to_region("JP"), Some("asia"));
    assert_eq!(country_to_region("AU"), Some("asia"));
    assert_eq!(country_to_region("IN"), Some("asia"));
}

#[test]
fn unmapped_country_returns_none() {
    assert_eq!(country_to_region("ZA"), None);
    assert_eq!(country_to_region("BR"), None);
    assert_eq!(country_to_region("RU"), None);
}

#[test]
fn lowercase_iso_is_normalized() {
    assert_eq!(country_to_region("sg"), Some("asia"));
    assert_eq!(country_to_region("us"), Some("us"));
}

#[test]
fn malformed_iso_returns_none() {
    assert_eq!(country_to_region(""), None);
    assert_eq!(country_to_region("S"), None);
    assert_eq!(country_to_region("SGP"), None);
}

#[test]
fn mixed_case_and_non_letters_are_handled() {
    assert_eq!(country_to_region("gB"), Some("eu"));
    assert_eq!(country_to_region("é"), None);
    assert_eq!(country_to_region("1S"), None);
}

#[test]
fn geoip_lookup_is_ignored_for_private_addresses() {
    assert_eq!(region_for_lookup(IpAddress::V4(10, 0, 0, 1), Some("US")), None);
    assert_eq!(region_for_lookup(IpAddress::V4(8, 8, 8, 8), Some("US")), Some("us"));
    assert_eq!(region_for_lookup(IpAddress::V4(8, 8, 8, 8), None), None);
}

#[test]
fn precedence_env_wins_over_geoip() {
    let resolved = resolve_local_region(Some("asia".to_string()), Some("us"));
    assert_eq!(resolved, Some(("asia".to_string(), "env")));
}

#[test]
fn precedence_geoip_used_when_env_absent() {
    let resolved = resolve_local_region(None, Some("eu"));
    assert_eq!(resolved, Some(("eu".to_string(), "geoip")));
}

#[test]
fn precedence_returns_none_when_both_absent() {
    let resolved = resolve_local_region(None, None);
    assert_eq!(resolved, None);
}

#[test]
fn precedence_env_used_when_geoip_unmapped() {
    let resolved = resolve_local_region(Some("us".to_string()), None);
    assert_eq!(resolved, Some(("us".to_string(), "env")));
}

fn sample_addresses() -> PublicAddresses {
    PublicAddresses { ipv4: Some([203, 0, 113, 10]), ipv6: Some([0, 0, 0, 0, 0, 0, 0, 1]) }
}

#[test]
fn registration_state_tracks_initial_resolution() {
    let mut state = RegistrationState::new(sample_addresses(), "user".to_string(), "pass".to_string());

    let changed = state.update_registration_url("https://gateway.example/rpc-signalling-local/register-relay".to_string());

    assert_eq!(changed, Some((None, "https://gateway.example/rpc-signalling-local/register-relay".to_string())));
}

#[test]
fn registration_state_tracks_registration_url_changes() {
    let mut state = RegistrationState::new(sample_addresses(), "user".to_string(), "pass".to_string());

    state.update_registration_url("https://gateway.example/rpc-signalling-local/register-relay".to_string());

    assert_eq!(
        state.update_registration_url("https://gateway.example/rpc-signalling-europe/register-relay".to_string()),
        Some((
            Some("https://gateway.example/rpc-signalling-local/register-relay".to_string()),
            "https://gateway.example/rpc-signalling-europe/register-relay".to_string()
        ))
    );
}

#[test]
fn registration_state_ignores_unchanged_values() {
    let mut state = RegistrationState::new(sample_addresses(), "user".to_string(), "pass".to_string());

    state.update_registration_url("https://gateway.example/rpc-signalling-local/register-relay".to_string());

    assert_eq!(
        state.update_registration_url("https://gateway.example/rpc-signalling-local/register-relay".to_string()),
        None
    );
}

#[test]
fn build_turn_interfaces_dual_family_creates_two_udp_interfaces() {
    let interfaces = build_turn_interfaces(
        &PublicAddresses { ipv4: Some([203, 0, 113, 10]), ipv6: Some([0x2404, 0xc140, 0x2100, 0, 0, 0, 0, 1]) },
        19101,
    )
    .unwrap();

    assert_eq!(interfaces.len(), 2);

    assert_eq!(interfaces[0].listen, SocketAddress::V4 { ip: IpAddress::V4(0, 0, 0, 0), port: 19101 });
    assert_eq!(interfaces[0].external, SocketAddress::V4 { ip: IpAddress::V4(203, 0, 113, 10), port: 19101 });
    assert!(!interfaces[0].v6_only);

    assert_eq!(
        interfaces[1].listen,
        SocketAddress::V6 { ip: IpAddress::V6(0, 0, 0, 0, 0, 0, 0, 0), port: 19101, flowinfo: 0, scope_id: 0 }
    );
    assert_eq!(
        interfaces[1].external,
        SocketAddress::V6 { ip: IpAddress::V6(0x2404, 0xc140, 0x2100, 0, 0, 0, 0, 1), port: 19101, flowinfo: 0, scope_id: 0 }
    );
    assert!(interfaces[1].v6_only);
}

#[test]
fn build_turn_interfaces_v6_only_skips_v4_interface() {
    let interfaces =
        build_turn_interfaces(&PublicAddresses { ipv4: None, ipv6: Some([0, 0, 0, 0, 0, 0, 0, 1]) }, 19101).unwrap();

    assert_eq!(interfaces.len(), 1);
    assert_eq!(
        interfaces[0].listen,
        SocketAddress::V6 { ip: IpAddress::V6(0, 0, 0, 0, 0, 0, 0, 0), port: 19101, flowinfo: 0, scope_id: 0 }
    );
    assert_eq!(
        interfaces[0].external,
        SocketAddress::V6 { ip: IpAddress::V6(0, 0, 0, 0, 0, 0, 0, 1), port: 19101, flowinfo: 0, scope_id: 0 }
    );
    assert!(interfaces[0].v6_only);
    assert_eq!(interfaces[0].idle_timeout, 20);
    assert_eq!(interfaces[0].mtu, 1500);
    assert_eq!(interfaces[0].demuxer_capacity, 4096);
}

#[test]
fn build_turn_interfaces_no_addresses_errors() {
    let result = build_turn_interfaces(&PublicAddresses { ipv4: None, ipv6: None }, 19101);
    assert!(result.is_err());
}

#[test]
fn localhost_addresses_use_ip_literals() {
    let addresses = PublicAddresses::localhost();

    assert_eq!(addresses.ipv4, Some([127, 0, 0, 1]));
    assert_eq!(addresses.ipv6, Some([0, 0, 0, 0, 0, 0, 0, 1]));
}

#[test]
fn ensure_any_rejects_empty_addresses() {
    let error = PublicAddresses { ipv4: None, ipv6: None }.ensure_any().unwrap_err();

    assert!(error.contains("failed to discover any public IP address"));
}

#[test]
fn ensure_any_keeps_addresses() {
    let addrs = PublicAddresses { ipv4: None, ipv6: Some([1, 2, 3, 4, 5, 6, 7, 8]) };
    assert_eq!(addrs.ensure_any(), Ok(addrs));
}
