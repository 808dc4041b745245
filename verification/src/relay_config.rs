//! Settings of the relay server, taken from the values of its environment
//! variables: a value is trimmed, and one that is empty after trimming counts
//! as unset.

use vstd::prelude::*;

use crate::text::{chars_of, push_all, push_str, str_eq, string_of, strip_leading, strip_leading_chars, lemma_trim_idempotent, trim, trim_chars};

verus! {

/// The GeoIP database used when the environment names none.
pub const DEFAULT_GEOIP_DB_PATH: &'static str = "/app/assets/GeoLite2-Country.mmdb";

/// The raw values of the environment variables the relay server reads; a
/// variable that is not set is `None`.
#[derive(Clone, Debug)]
pub struct RelayEnvironment {
    /// `BYTOVER_REGION_CODE`
    pub region_code: Option<String>,
    /// `BYTOVER_GEOIP_DB_PATH`
    pub geoip_db_path: Option<String>,
    /// `BYTOVER_WITH_SSL`
    pub with_ssl: Option<String>,
    /// `BYTOVER_PUBLIC_GATEWAY_HOST`
    pub gateway_host: Option<String>,
    /// `BYTOVER_PUBLIC_GATEWAY_PORT`
    pub gateway_port: Option<String>,
    /// `BYTOVER_PUBLIC_HTTP1_GATEWAY_HOST`
    pub http1_gateway_host: Option<String>,
    /// `BYTOVER_PUBLIC_HTTP1_GATEWAY_PORT`
    pub http1_gateway_port: Option<String>,
}

/// The characters of an optional string.
pub open spec fn chars_opt(o: Option<String>) -> Option<Seq<char>> {
    match o {
        Some(s) => Some(s@),
        None => None,
    }
}

/// A raw value trimmed, or `None` when nothing but white space is left.
pub open spec fn normalized(raw: Option<Seq<char>>) -> Option<Seq<char>> {
    match raw {
        Some(v) => if trim(v).len() == 0 {
            None
        } else {
            Some(trim(v))
        },
        None => None,
    }
}

/// The setting a raw environment value gives.
pub open spec fn setting(raw: Option<String>) -> Option<Seq<char>> {
    normalized(chars_opt(raw))
}

/// `o`, or `d` where `o` is `None`.
pub open spec fn or_default(o: Option<Seq<char>>, d: Seq<char>) -> Seq<char> {
    match o {
        Some(v) => v,
        None => d,
    }
}

/// The scheme of an HTTP URL, with its `://`.
pub open spec fn http_scheme(ssl: bool) -> Seq<char> {
    if ssl {
        "https://"@
    } else {
        "http://"@
    }
}

/// Whether TLS is on: `BYTOVER_WITH_SSL` is `1`.
pub open spec fn ssl_spec(env: RelayEnvironment) -> bool {
    setting(env.with_ssl) == Some("1"@)
}

/// The gRPC gateway host, `localhost` by default.
pub open spec fn grpc_host_spec(env: RelayEnvironment) -> Seq<char> {
    or_default(setting(env.gateway_host), "localhost"@)
}

/// The gRPC gateway port, `8000` by default.
pub open spec fn grpc_port_spec(env: RelayEnvironment) -> Seq<char> {
    or_default(setting(env.gateway_port), "8000"@)
}

/// The HTTP/1 gateway host, the gRPC host by default.
pub open spec fn http_host_spec(env: RelayEnvironment) -> Seq<char> {
    or_default(setting(env.http1_gateway_host), grpc_host_spec(env))
}

/// The HTTP/1 gateway port, the gRPC port by default.
pub open spec fn http_port_spec(env: RelayEnvironment) -> Seq<char> {
    or_default(setting(env.http1_gateway_port), grpc_port_spec(env))
}

/// The URL of the gRPC gateway.
pub open spec fn grpc_url_spec(env: RelayEnvironment) -> Seq<char> {
    http_scheme(ssl_spec(env)) + grpc_host_spec(env) + ":"@ + grpc_port_spec(env)
}

/// The URL at which a relay registers with the signalling service behind `route`.
pub open spec fn registration_url_spec(env: RelayEnvironment, route: Seq<char>) -> Seq<char> {
    http_scheme(ssl_spec(env)) + http_host_spec(env) + ":"@ + http_port_spec(env) + "/"@
        + strip_leading(route, '/') + "/register-relay"@
}

fn setting_of(raw: &Option<String>) -> (r: Option<String>)
    ensures
        chars_opt(r) == setting(*raw),
{
    match raw {
        None => None,
        Some(value) => {
            let cs = chars_of(value.as_str());
            let t = trim_chars(&cs);
            if t.len() == 0 {
                None
            } else {
                Some(string_of(&t))
            }
        },
    }
}

fn setting_or(raw: &Option<String>, default: &str) -> (r: String)
    ensures
        r@ == or_default(setting(*raw), default@),
{
    match setting_of(raw) {
        Some(v) => v,
        None => {
            let mut s = String::new();
            push_str(&mut s, default);
            s
        },
    }
}

/// Normalizing a setting twice gives what normalizing it once gives.
pub proof fn lemma_normalize_twice(raw: Option<Seq<char>>)
    ensures
        normalized(normalized(raw)) == normalized(raw),
{
    if let Some(v) = raw {
        lemma_trim_idempotent(v);
    }
}

/// A raw environment value trimmed; `None` where it is unset or blank.
pub fn normalize_env(raw: Option<String>) -> (r: Option<String>)
    ensures
        chars_opt(r) == normalized(chars_opt(raw)),
{
    setting_of(&raw)
}

/// The region this relay serves, as the environment overrides it.
pub fn local_region_code(env: &RelayEnvironment) -> (r: Option<String>)
    ensures
        chars_opt(r) == setting(env.region_code),
{
    setting_of(&env.region_code)
}

/// The path of the GeoIP database: `value`, or the bundled default.
pub fn geoip_db_path_from(value: Option<String>) -> (r: String)
    ensures
        r@ == or_default(chars_opt(value), DEFAULT_GEOIP_DB_PATH@),
{
    match value {
        Some(v) => v,
        None => {
            let mut s = String::new();
            push_str(&mut s, DEFAULT_GEOIP_DB_PATH);
            s
        },
    }
}

/// The path of the GeoIP database the environment selects.
pub fn geoip_db_path(env: &RelayEnvironment) -> (r: String)
    ensures
        r@ == or_default(setting(env.geoip_db_path), DEFAULT_GEOIP_DB_PATH@),
{
    geoip_db_path_from(setting_of(&env.geoip_db_path))
}

/// Whether the gateway is reached over TLS.
pub fn with_ssl(env: &RelayEnvironment) -> (r: bool)
    ensures
        r == ssl_spec(*env),
{
    match setting_of(&env.with_ssl) {
        Some(v) => str_eq(v.as_str(), "1"),
        None => false,
    }
}

/// The gRPC gateway host.
pub fn get_gateway_grpc_host(env: &RelayEnvironment) -> (r: String)
    ensures
        r@ == grpc_host_spec(*env),
{
    setting_or(&env.gateway_host, "localhost")
}

/// The gRPC gateway port.
pub fn get_gateway_grpc_port(env: &RelayEnvironment) -> (r: String)
    ensures
        r@ == grpc_port_spec(*env),
{
    setting_or(&env.gateway_port, "8000")
}

/// The URL of the gRPC gateway.
pub fn get_gateway_grpc_url(env: &RelayEnvironment) -> (r: String)
    ensures
        r@ == grpc_url_spec(*env),
{
    let host = get_gateway_grpc_host(env);
    let port = get_gateway_grpc_port(env);
    let mut url = String::new();
    if with_ssl(env) {
        push_str(&mut url, "https://");
    } else {
        push_str(&mut url, "http://");
    }
    push_str(&mut url, host.as_str());
    push_str(&mut url, ":");
    push_str(&mut url, port.as_str());
    url
}

/// The HTTP/1 gateway host.
pub fn get_gateway_http_host(env: &RelayEnvironment) -> (r: String)
    ensures
        r@ == http_host_spec(*env),
{
    match setting_of(&env.http1_gateway_host) {
        Some(v) => v,
        None => get_gateway_grpc_host(env),
    }
}

/// The HTTP/1 gateway port.
pub fn get_gateway_http_port(env: &RelayEnvironment) -> (r: String)
    ensures
        r@ == http_port_spec(*env),
{
    match setting_of(&env.http1_gateway_port) {
        Some(v) => v,
        None => get_gateway_grpc_port(env),
    }
}

/// The URL at which this relay registers with the signalling service behind
/// `route` (leading slashes of `route` dropped).
pub fn get_signalling_registration_url(env: &RelayEnvironment, route: &str) -> (r: String)
    ensures
        r@ == registration_url_spec(*env, route@),
{
    let host = get_gateway_http_host(env);
    let port = get_gateway_http_port(env);
    let route_chars = chars_of(route);
    let trimmed = strip_leading_chars(&route_chars, '/');
    let mut url = String::new();
    if with_ssl(env) {
        push_str(&mut url, "https://");
    } else {
        push_str(&mut url, "http://");
    }
    push_str(&mut url, host.as_str());
    push_str(&mut url, ":");
    push_str(&mut url, port.as_str());
    push_str(&mut url, "/");
    push_all(&mut url, &trimmed);
    push_str(&mut url, "/register-relay");
    url
}

} // verus!
