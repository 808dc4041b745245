use bitbridge::client_config::ClientBuildConfig;
use bitbridge::server_logic::{server_start_check, server_step, ServerAction, ServerEvent, ServerStartError, StartPlan};

fn cfg() -> ClientBuildConfig {
    ClientBuildConfig {
        gateway_host: None,
        gateway_port: None,
        with_ssl: None,
        http1_gateway_host: None,
        http1_gateway_port: None,
        relay_only: None,
    }
}

#[test]
fn a_running_server_does_not_start_again() {
    assert!(matches!(server_start_check(&cfg(), true, "7", None, None), Ok(StartPlan::AlreadyRunning)));
}

#[test]
fn a_user_without_signalling_id_or_route_cannot_start() {
    match server_start_check(&cfg(), false, "7", None, Some("/rpc-signalling")) {
        Err(ServerStartError::Signalling(m)) => assert_eq!(m, "No signalling id for peer 7"),
        other => panic!("unexpected {other:?}"),
    }
    match server_start_check(&cfg(), false, "7", Some("sig-1"), None) {
        Err(ServerStartError::Signalling(m)) => assert_eq!(m, "No signalling route for peer 7"),
        other => panic!("unexpected {other:?}"),
    }
}

#[test]
fn a_server_listens_at_the_signalling_urls_of_its_route() {
    match server_start_check(&cfg(), false, "7", Some("sig-1"), Some("/rpc-signalling")) {
        Ok(StartPlan::Listen { key, ws_url, http_url }) => {
            assert_eq!(key, "sig-1");
            assert_eq!(ws_url, "ws://localhost/rpc-signalling");
            assert_eq!(http_url, "http://localhost/rpc-signalling");
        }
        other => panic!("unexpected {other:?}"),
    }
}

#[test]
fn only_offers_with_a_request_id_are_answered() {
    assert_eq!(server_step(ServerEvent::Message { has_request_id: true, has_offer: true }), ServerAction::Connect);
    assert_eq!(server_step(ServerEvent::Message { has_request_id: false, has_offer: true }), ServerAction::Skip);
    assert_eq!(server_step(ServerEvent::Message { has_request_id: true, has_offer: false }), ServerAction::Skip);
    assert_eq!(server_step(ServerEvent::SignallingError), ServerAction::Skip);
    assert_eq!(server_step(ServerEvent::Connected { client: true }), ServerAction::RegisterAndRun);
    assert_eq!(server_step(ServerEvent::Connected { client: false }), ServerAction::Skip);
    assert_eq!(server_step(ServerEvent::RunFinished), ServerAction::CleanUp);
}
