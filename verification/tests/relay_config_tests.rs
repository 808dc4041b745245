use bitbridge::relay_config::{
    geoip_db_path, geoip_db_path_from, get_gateway_grpc_host, get_gateway_grpc_port, get_gateway_grpc_url,
    get_gateway_http_host, get_gateway_http_port, get_signalling_registration_url, local_region_code, normalize_env,
    with_ssl, RelayEnvironment, DEFAULT_GEOIP_DB_PATH,
};

fn empty_env() -> RelayEnvironment {
    RelayEnvironment {
        region_code: None,
        geoip_db_path: None,
        with_ssl: None,
        gateway_host: None,
        gateway_port: None,
        http1_gateway_host: None,
        http1_gateway_port: None,
    }
}

#[test]
fn normalize_env_trims_whitespace_and_drops_empty() {
    assert_eq!(normalize_env(Some("  asia  ".to_string())), Some("asia".to_string()));
    assert_eq!(normalize_env(Some("".to_string())), None);
    assert_eq!(normalize_env(Some("   ".to_string())), None);
    assert_eq!(normalize_env(None), None);
}

#[test]
fn geoip_db_path_defaults_when_unset() {
    let path = geoip_db_path_from(None);
    assert_eq!(path, DEFAULT_GEOIP_DB_PATH.to_string());
}

#[test]
fn geoip_db_path_uses_override() {
    let path = geoip_db_path_from(Some("/tmp/custom.mmdb".to_string()));
    assert_eq!(path, "/tmp/custom.mmdb".to_string());
}

#[test]
fn relay_defaults_point_at_local_gateway() {
    let env = empty_env();
    assert_eq!(get_gateway_grpc_host(&env), "localhost");
    assert_eq!(get_gateway_grpc_port(&env), "8000");
    assert_eq!(get_gateway_grpc_url(&env), "http://localhost:8000");
    assert_eq!(get_gateway_http_host(&env), "localhost");
    assert_eq!(get_gateway_http_port(&env), "8000");
    assert!(!with_ssl(&env));
    assert_eq!(local_region_code(&env), None);
    assert_eq!(geoip_db_path(&env), DEFAULT_GEOIP_DB_PATH);
}

#[test]
fn relay_settings_are_trimmed_and_http_falls_back_to_grpc() {
    let mut env = empty_env();
    env.with_ssl = Some(" 1 ".to_string());
    env.gateway_host = Some(" gw.example ".to_string());
    env.gateway_port = Some("443".to_string());
    env.region_code = Some(" eu ".to_string());
    env.geoip_db_path = Some("   ".to_string());
    assert!(with_ssl(&env));
    assert_eq!(get_gateway_grpc_url(&env), "https://gw.example:443");
    assert_eq!(get_gateway_http_host(&env), "gw.example");
    assert_eq!(get_gateway_http_port(&env), "443");
    assert_eq!(local_region_code(&env), Some("eu".to_string()));
    assert_eq!(geoip_db_path(&env), DEFAULT_GEOIP_DB_PATH);
    env.http1_gateway_host = Some("http.example".to_string());
    env.http1_gateway_port = Some("8080".to_string());
    assert_eq!(
        get_signalling_registration_url(&env, "//rpc-signalling-eu"),
        "https://http.example:8080/rpc-signalling-eu/register-relay"
    );
}

#[test]
fn ssl_flag_other_than_one_is_off() {
    let mut env = empty_env();
    env.with_ssl = Some("true".to_string());
    assert!(!with_ssl(&env));
    assert_eq!(get_signalling_registration_url(&env, "route"), "http://localhost:8000/route/register-relay");
}
