//! Endpoints of the client: the gateway, signalling and updater URLs fixed
//! when the client was built, and the relay settings its environment gives.

use vstd::prelude::*;

use crate::relay_config::{chars_opt, normalize_env, normalized, or_default};
use crate::text::{chars_of, push_all, push_str, str_eq, strip_leading, strip_leading_chars};

verus! {

/// The values fixed when the client was built; one that was not given is
/// `None`.
#[derive(Clone, Debug)]
pub struct ClientBuildConfig {
    /// `BYTOVER_PUBLIC_GATEWAY_HOST`
    pub gateway_host: Option<String>,
    /// `BYTOVER_PUBLIC_GATEWAY_PORT`
    pub gateway_port: Option<String>,
    /// `BYTOVER_WITH_SSL`
    pub with_ssl: Option<String>,
    /// `BYTOVER_PUBLIC_HTTP1_GATEWAY_HOST`
    pub http1_gateway_host: Option<String>,
    /// `BYTOVER_PUBLIC_HTTP1_GATEWAY_PORT`
    pub http1_gateway_port: Option<String>,
    /// `BYTOVER_RELAY_ONLY`
    pub relay_only: Option<String>,
}

/// Whether the client was built to use TLS: `BYTOVER_WITH_SSL` is exactly `1`.
pub open spec fn client_ssl(cfg: ClientBuildConfig) -> bool {
    chars_opt(cfg.with_ssl) == Some("1"@)
}

/// The HTTP/1 host: the HTTP/1 gateway host, else the gateway host, else `d`.
pub open spec fn http1_host_spec(cfg: ClientBuildConfig, d: Seq<char>) -> Seq<char> {
    or_default(chars_opt(cfg.http1_gateway_host), or_default(chars_opt(cfg.gateway_host), d))
}

/// `:port` for the HTTP/1 port, else for the gateway port, else nothing.
pub open spec fn http1_port_suffix(cfg: ClientBuildConfig) -> Seq<char> {
    match chars_opt(cfg.http1_gateway_port) {
        Some(p) => ":"@ + p,
        None => match chars_opt(cfg.gateway_port) {
            Some(p) => ":"@ + p,
            None => Seq::empty(),
        },
    }
}

/// The URL of the gRPC gateway.
pub open spec fn client_grpc_url_spec(cfg: ClientBuildConfig) -> Seq<char> {
    (if client_ssl(cfg) {
        "https://"@
    } else {
        "http://"@
    }) + or_default(chars_opt(cfg.gateway_host), "localhost"@) + ":"@ + or_default(
        chars_opt(cfg.gateway_port),
        "80"@,
    )
}

/// The WebSocket URL of the signalling route `route`.
pub open spec fn ws_url_spec(cfg: ClientBuildConfig, route: Seq<char>) -> Seq<char> {
    (if client_ssl(cfg) {
        "wss://"@
    } else {
        "ws://"@
    }) + http1_host_spec(cfg, "localhost"@) + http1_port_suffix(cfg) + "/"@ + strip_leading(
        route,
        '/',
    )
}

/// The HTTP URL of the signalling route `route`.
pub open spec fn http_url_spec(cfg: ClientBuildConfig, route: Seq<char>) -> Seq<char> {
    (if client_ssl(cfg) {
        "https://"@
    } else {
        "http://"@
    }) + http1_host_spec(cfg, "localhost"@) + http1_port_suffix(cfg) + "/"@ + strip_leading(
        route,
        '/',
    )
}

/// The URL the updater asks for updates.
pub open spec fn updater_url_spec(cfg: ClientBuildConfig) -> Seq<char> {
    (if client_ssl(cfg) {
        "https://"@
    } else {
        "http://"@
    }) + http1_host_spec(cfg, "api.bytover.com"@) + http1_port_suffix(cfg)
        + "/bitbridge/api/v1/update"@
}

/// A TURN setting: the first environment value that is set and not blank,
/// trimmed, else `d`.
pub open spec fn turn_setting_spec(primary: Option<String>, fallback: Option<String>, d: Seq<char>) -> Seq<char> {
    match normalized(chars_opt(primary)) {
        Some(v) => v,
        None => or_default(normalized(chars_opt(fallback)), d),
    }
}

fn opt_is(o: &Option<String>, lit: &str) -> (r: bool)
    ensures
        r == (chars_opt(*o) == Some(lit@)),
{
    match o {
        Some(v) => str_eq(v.as_str(), lit),
        None => false,
    }
}

fn push_scheme(url: &mut String, ssl: bool, secure: &str, plain: &str)
    ensures
        final(url)@ == old(url)@ + (if ssl {
            secure@
        } else {
            plain@
        }),
{
    if ssl {
        push_str(url, secure);
    } else {
        push_str(url, plain);
    }
}

fn push_or(url: &mut String, o: &Option<String>, d: &str)
    ensures
        final(url)@ == old(url)@ + or_default(chars_opt(*o), d@),
{
    match o {
        Some(v) => push_str(url, v.as_str()),
        None => push_str(url, d),
    }
}

fn push_http1_host(url: &mut String, cfg: &ClientBuildConfig, d: &str)
    ensures
        final(url)@ == old(url)@ + http1_host_spec(*cfg, d@),
{
    match &cfg.http1_gateway_host {
        Some(v) => push_str(url, v.as_str()),
        None => push_or(url, &cfg.gateway_host, d),
    }
}

fn push_http1_port(url: &mut String, cfg: &ClientBuildConfig)
    ensures
        final(url)@ == old(url)@ + http1_port_suffix(*cfg),
{
    let port = match &cfg.http1_gateway_port {
        Some(p) => Some(p),
        None => match &cfg.gateway_port {
            Some(p) => Some(p),
            None => None,
        },
    };
    match port {
        Some(p) => {
            push_str(url, ":");
            push_str(url, p.as_str());
            assert(final(url)@ =~= old(url)@ + http1_port_suffix(*cfg));
        },
        None => {
            assert(old(url)@ + http1_port_suffix(*cfg) =~= old(url)@);
        },
    }
}

fn push_route(url: &mut String, route: &str)
    ensures
        final(url)@ == old(url)@ + "/"@ + strip_leading(route@, '/'),
{
    let route_chars = chars_of(route);
    let trimmed = strip_leading_chars(&route_chars, '/');
    push_str(url, "/");
    push_all(url, &trimmed);
}

/// The URL of the gRPC gateway (`localhost:80` unless the build named others).
pub fn get_gateway_grpc_url(cfg: &ClientBuildConfig) -> (r: String)
    ensures
        r@ == client_grpc_url_spec(*cfg),
{
    let mut url = String::new();
    push_scheme(&mut url, opt_is(&cfg.with_ssl, "1"), "https://", "http://");
    push_or(&mut url, &cfg.gateway_host, "localhost");
    push_str(&mut url, ":");
    push_or(&mut url, &cfg.gateway_port, "80");
    assert(url@ =~= client_grpc_url_spec(*cfg));
    url
}

/// The WebSocket URL of the signalling route `route` (leading slashes of
/// `route` dropped).
pub fn get_signalling_server_ws_url_for_route(cfg: &ClientBuildConfig, route: &str) -> (r: String)
    ensures
        r@ == ws_url_spec(*cfg, route@),
{
    let mut url = String::new();
    push_scheme(&mut url, opt_is(&cfg.with_ssl, "1"), "wss://", "ws://");
    push_http1_host(&mut url, cfg, "localhost");
    push_http1_port(&mut url, cfg);
    push_route(&mut url, route);
    assert(url@ =~= ws_url_spec(*cfg, route@));
    url
}

/// The HTTP URL of the signalling route `route` (leading slashes of `route`
/// dropped).
pub fn get_signalling_server_http_url_for_route(cfg: &ClientBuildConfig, route: &str) -> (r: String)
    ensures
        r@ == http_url_spec(*cfg, route@),
{
    let mut url = String::new();
    push_scheme(&mut url, opt_is(&cfg.with_ssl, "1"), "https://", "http://");
    push_http1_host(&mut url, cfg, "localhost");
    push_http1_port(&mut url, cfg);
    push_route(&mut url, route);
    assert(url@ =~= http_url_spec(*cfg, route@));
    url
}

/// The URL the updater asks for updates.
pub fn get_updater_url(cfg: &ClientBuildConfig) -> (r: String)
    ensures
        r@ == updater_url_spec(*cfg),
{
    let mut url = String::new();
    push_scheme(&mut url, opt_is(&cfg.with_ssl, "1"), "https://", "http://");
    push_http1_host(&mut url, cfg, "api.bytover.com");
    push_http1_port(&mut url, cfg);
    push_str(&mut url, "/bitbridge/api/v1/update");
    assert(url@ =~= updater_url_spec(*cfg));
    url
}

/// Whether the client only uses relays: the build says so, or the runtime
/// value of `BYTOVER_RELAY_ONLY` is exactly `1`.
pub fn is_relay_only(cfg: &ClientBuildConfig, runtime: &Option<String>) -> (r: bool)
    ensures
        r == (chars_opt(cfg.relay_only) == Some("1"@) || chars_opt(*runtime) == Some("1"@)),
{
    opt_is(&cfg.relay_only, "1") || opt_is(runtime, "1")
}

/// The relay server named by `BYTOVER_RELAY_SERVER`, where it is set and not
/// empty.
pub fn get_relay_server_override(value: Option<String>) -> (r: Option<String>)
    ensures
        chars_opt(r) == (match chars_opt(value) {
            Some(v) => if v.len() == 0 {
                None
            } else {
                Some(v)
            },
            None => None,
        }),
{
    match value {
        Some(v) => {
            let cs = chars_of(v.as_str());
            if cs.len() == 0 {
                None
            } else {
                Some(v)
            }
        },
        None => None,
    }
}

fn turn_setting(primary: Option<String>, fallback: Option<String>, d: &str) -> (r: String)
    ensures
        r@ == turn_setting_spec(primary, fallback, d@),
{
    match normalize_env(primary) {
        Some(v) => v,
        None => match normalize_env(fallback) {
            Some(v) => v,
            None => {
                let mut s = String::new();
                push_str(&mut s, d);
                s
            },
        },
    }
}

/// The TURN user name: `BYTOVER_RELAY_TURN_USERNAME`, else `TURN_USERNAME`,
/// else `relay`.
pub fn get_relay_turn_username(primary: Option<String>, fallback: Option<String>) -> (r: String)
    ensures
        r@ == turn_setting_spec(primary, fallback, "relay"@),
{
    turn_setting(primary, fallback, "relay")
}

/// The TURN password: `BYTOVER_RELAY_TURN_PASSWORD`, else `TURN_PASSWORD`,
/// else `relay-secret`.
pub fn get_relay_turn_password(primary: Option<String>, fallback: Option<String>) -> (r: String)
    ensures
        r@ == turn_setting_spec(primary, fallback, "relay-secret"@),
{
    turn_setting(primary, fallback, "relay-secret")
}

} // verus!
