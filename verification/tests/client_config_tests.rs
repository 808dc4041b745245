use bitbridge::client_config::{
    get_gateway_grpc_url, get_relay_server_override, get_relay_turn_password, get_relay_turn_username,
    get_signalling_server_http_url_for_route, get_signalling_server_ws_url_for_route, get_updater_url, is_relay_only,
    ClientBuildConfig,
};

fn bare() -> ClientBuildConfig {
    ClientBuildConfig {
        gateway_host: None,
        gateway_port: None,
        with_ssl: None,
        http1_gateway_host: None,
        http1_gateway_port: None,
        relay_only: None,
    }
}

#[test]
fn client_urls_default_to_localhost() {
    let cfg = bare();
    assert_eq!(get_gateway_grpc_url(&cfg), "http://localhost:80");
    assert_eq!(get_signalling_server_ws_url_for_route(&cfg, "/rpc-signalling"), "ws://localhost/rpc-signalling");
    assert_eq!(get_signalling_server_http_url_for_route(&cfg, "rpc"), "http://localhost/rpc");
    assert_eq!(get_updater_url(&cfg), "http://api.bytover.com/bitbridge/api/v1/update");
}

#[test]
fn client_urls_prefer_http1_endpoint_and_tls() {
    let mut cfg = bare();
    cfg.with_ssl = Some("1".to_string());
    cfg.gateway_host = Some("grpc.example".to_string());
    cfg.gateway_port = Some("443".to_string());
    assert_eq!(get_gateway_grpc_url(&cfg), "https://grpc.example:443");
    assert_eq!(get_signalling_server_ws_url_for_route(&cfg, "a"), "wss://grpc.example:443/a");
    cfg.http1_gateway_host = Some("http.example".to_string());
    cfg.http1_gateway_port = Some("8443".to_string());
    assert_eq!(get_signalling_server_http_url_for_route(&cfg, "///b"), "https://http.example:8443/b");
    assert_eq!(get_updater_url(&cfg), "https://http.example:8443/bitbridge/api/v1/update");
}

#[test]
fn relay_settings_fall_back_in_order() {
    assert_eq!(get_relay_turn_username(None, None), "relay");
    assert_eq!(get_relay_turn_password(None, Some("  ".to_string())), "relay-secret");
    assert_eq!(get_relay_turn_username(Some(" ".to_string()), Some(" alt ".to_string())), "alt");
    assert_eq!(get_relay_turn_password(Some(" pw ".to_string()), Some("other".to_string())), "pw");
    assert_eq!(get_relay_server_override(Some(String::new())), None);
    assert_eq!(get_relay_server_override(Some("relay.example".to_string())), Some("relay.example".to_string()));
    let mut cfg = bare();
    assert!(!is_relay_only(&cfg, &None));
    assert!(is_relay_only(&cfg, &Some("1".to_string())));
    cfg.relay_only = Some("1".to_string());
    assert!(is_relay_only(&cfg, &Some("0".to_string())));
}
