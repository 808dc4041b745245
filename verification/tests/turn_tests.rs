use bitbridge::turn_assign::{
    generate_turn_credential, turn_credential_at, ClientContinents, TurnAssignments, TurnCredentialError, TurnManager,
    TURN_CREDENTIAL_TTL_SECS,
};
use bitbridge::turn_select::{
    assign_relay, continent_for, ice_config_for, select_server_for_peer, Continent, PeerPair, TurnServer,
};

fn server(domain: &str, continent: Continent, counter: usize) -> TurnServer {
    TurnServer { ip: format!("ip-{domain}"), domain: domain.to_string(), continent, counter }
}

fn fleet() -> Vec<TurnServer> {
    vec![
        server("eu-1.example", Continent::EU, 3),
        server("as-1.example", Continent::AS, 5),
        server("as-2.example", Continent::AS, 2),
        server("na-1.example", Continent::NA, 0),
    ]
}

#[test]
fn credentials_follow_the_turn_rest_scheme() {
    let (username, password, ttl) = turn_credential_at("turn-secret", "alice", "bob", 1000);
    assert_eq!(username, "87400:YnD0qNSVyK4k");
    assert_eq!(password, "p3hpg5BgYIGe3gkR+F8ttA1q7eE=");
    assert_eq!(ttl, TURN_CREDENTIAL_TTL_SECS);
}

#[test]
fn credentials_depend_on_the_direction_of_the_pair() {
    let (forward, _, _) = turn_credential_at("turn-secret", "alice", "bob", 1000);
    let (backward, _, _) = turn_credential_at("turn-secret", "bob", "alice", 1000);
    assert_eq!(backward, "87400:uRj1yuuzyNvX");
    assert_ne!(forward, backward);
}

#[test]
fn missing_secret_gives_no_credentials() {
    assert_eq!(generate_turn_credential(None, "alice", "bob"), Err(TurnCredentialError::NoTurnSecret));
}

#[test]
fn fresh_credentials_expire_a_day_from_now() {
    let (username, password, ttl) = generate_turn_credential(Some("turn-secret"), "alice", "bob").unwrap();
    assert_eq!(ttl, 86400);
    let (expiry, id) = username.split_once(':').unwrap();
    assert!(expiry.parse::<u64>().unwrap() > 86400);
    assert_eq!(id, "YnD0qNSVyK4k");
    assert_eq!(password.len(), 28);
}

#[test]
fn a_continent_falls_back_in_its_own_order() {
    assert_eq!(Continent::EU.priority_order()[0], Continent::EU);
    assert_eq!(Continent::Unknown.priority_order()[0], Continent::AS);
    assert_eq!(Continent::SJC.priority_order()[1], Continent::NA);
    for c in [Continent::AS, Continent::OC, Continent::AF, Continent::Unknown] {
        let order = c.priority_order();
        assert_eq!(order.len(), 11);
        assert!(!order.contains(&Continent::Unknown));
    }
}

#[test]
fn the_least_loaded_server_of_the_nearest_continent_is_chosen() {
    let servers = fleet();
    assert_eq!(select_server_for_peer(Continent::AS, &servers), 2);
    assert_eq!(select_server_for_peer(Continent::EU, &servers), 0);
    assert_eq!(select_server_for_peer(Continent::SJC, &servers), 3);
    // Oceania has no server: its next continent with one is Singapore, then
    // HKG, then AS.
    assert_eq!(select_server_for_peer(Continent::OC, &servers), 2);
}

#[test]
fn the_relay_is_the_less_busy_of_the_two() {
    let mut servers = fleet();
    assert_eq!(assign_relay(&mut servers, 1, 3), 3);
    assert_eq!(servers[3].counter, 1);
    assert_eq!(servers[1].counter, 5);
    // A tie goes to the first peer's server.
    assert_eq!(assign_relay(&mut servers, 3, 3), 3);
    assert_eq!(servers[3].counter, 2);
}

#[test]
fn ice_configuration_lists_stun_then_turn_over_udp_and_tcp() {
    let c = ice_config_for("stun.example", "turn.example", "u".to_string(), "p".to_string());
    assert_eq!(
        c.urls,
        vec![
            "stun:stun.example".to_string(),
            "turn:turn.example:3478?transport=udp".to_string(),
            "turn:turn.example:3478?transport=tcp".to_string(),
        ]
    );
    assert_eq!(c.username.as_deref(), Some("u"));
    assert_eq!(c.credential.as_deref(), Some("p"));
}

#[test]
fn geoip_places_clients_on_continents() {
    assert_eq!(continent_for(Some("US"), Some("CA")), Continent::SJC);
    assert_eq!(continent_for(Some("US"), Some("NY")), Continent::NA);
    assert_eq!(continent_for(Some("US"), None), Continent::NA);
    assert_eq!(continent_for(Some("JP"), None), Continent::Tokyo);
    assert_eq!(continent_for(Some("SG"), None), Continent::Singapore);
    assert_eq!(continent_for(Some("DE"), None), Continent::EU);
    assert_eq!(continent_for(Some("ZZ"), None), Continent::Unknown);
    assert_eq!(continent_for(None, Some("CA")), Continent::Unknown);
}

#[test]
fn a_pair_gets_the_same_configuration_again() {
    let mut assignments = TurnAssignments::new();
    let mut servers = fleet();
    let first = assignments
        .closest_turn_for_peers(
            &mut servers,
            Some("turn-secret"),
            "alice".to_string(),
            Continent::EU,
            "bob".to_string(),
            Continent::AS,
        )
        .unwrap();
    assert_eq!(
        first.urls,
        vec![
            "stun:eu-1.example".to_string(),
            "turn:as-2.example:3478?transport=udp".to_string(),
            "turn:as-2.example:3478?transport=tcp".to_string(),
        ]
    );
    assert_eq!(servers[2].counter, 3);
    let counters: Vec<usize> = servers.iter().map(|s| s.counter).collect();

    let again = assignments
        .closest_turn_for_peers(
            &mut servers,
            Some("turn-secret"),
            "alice".to_string(),
            Continent::EU,
            "bob".to_string(),
            Continent::AS,
        )
        .unwrap();
    assert_eq!(again.urls, first.urls);
    assert_eq!(again.username, first.username);
    assert_eq!(again.credential, first.credential);
    assert_eq!(servers.iter().map(|s| s.counter).collect::<Vec<_>>(), counters);

    let other_side = assignments.lookup(&PeerPair::new("bob".to_string(), "alice".to_string())).unwrap();
    assert_eq!(other_side.urls[0], "stun:as-2.example");
    assert_eq!(other_side.urls[1], "turn:as-2.example:3478?transport=udp");
}

#[test]
fn without_a_secret_nothing_is_remembered() {
    let mut assignments = TurnAssignments::new();
    let mut servers = fleet();
    let r = assignments.closest_turn_for_peers(
        &mut servers,
        None,
        "alice".to_string(),
        Continent::EU,
        "bob".to_string(),
        Continent::AS,
    );
    assert_eq!(r.err(), Some(TurnCredentialError::NoTurnSecret));
    assert!(assignments.lookup(&PeerPair::new("alice".to_string(), "bob".to_string())).is_none());
}

#[test]
fn the_last_registration_of_a_client_counts() {
    let mut continents = ClientContinents::new();
    assert_eq!(continents.continent_of("alice"), None);
    continents.register_client("alice".to_string(), Continent::EU);
    continents.register_client("bob".to_string(), Continent::AS);
    continents.register_client("alice".to_string(), Continent::NA);
    assert_eq!(continents.continent_of("alice"), Some(Continent::NA));
    assert_eq!(continents.continent_of("bob"), Some(Continent::AS));
    continents.unregister_client("alice");
    assert_eq!(continents.continent_of("alice"), None);
    assert_eq!(continents.continent_of("bob"), Some(Continent::AS));
}

#[test]
fn a_message_between_known_clients_carries_their_configuration() {
    let mut manager = TurnManager::new(Some("turn-secret".to_string()));
    let mut servers = fleet();
    manager.register_client("alice".to_string(), Continent::EU);
    assert!(manager.get_turn_for_message(&mut servers, "alice", None).is_none());
    assert!(manager.get_turn_for_message(&mut servers, "alice", Some("bob")).is_none());
    assert_eq!(servers.iter().map(|s| s.counter).collect::<Vec<_>>(), vec![3, 5, 2, 0]);

    manager.register_client("bob".to_string(), Continent::AS);
    let c = manager.get_turn_for_message(&mut servers, "alice", Some("bob")).unwrap();
    assert_eq!(
        c.urls,
        vec![
            "stun:eu-1.example".to_string(),
            "turn:as-2.example:3478?transport=udp".to_string(),
            "turn:as-2.example:3478?transport=tcp".to_string(),
        ]
    );
    assert_eq!(servers[2].counter, 3);
    let back = manager.get_turn_for_message(&mut servers, "bob", Some("alice")).unwrap();
    assert_eq!(back.urls[0], "stun:as-2.example");
    assert_eq!(back.urls[1], "turn:as-2.example:3478?transport=udp");
    assert_eq!(servers[2].counter, 3);

    manager.unregister_client("bob");
    assert!(manager.get_turn_for_message(&mut servers, "alice", Some("bob")).is_none());
}

#[test]
fn a_manager_without_a_secret_hands_out_no_configuration() {
    let mut manager = TurnManager::new(None);
    let mut servers = fleet();
    manager.register_client("alice".to_string(), Continent::EU);
    manager.register_client("bob".to_string(), Continent::AS);
    assert!(manager.get_turn_for_message(&mut servers, "alice", Some("bob")).is_none());
    assert_eq!(manager.generate_turn_credential("alice", "bob").err(), Some(TurnCredentialError::NoTurnSecret));
    let (user, _, ttl) = TurnManager::new(Some("s".to_string())).generate_turn_credential("alice", "bob").unwrap();
    assert!(user.contains(':'));
    assert_eq!(ttl, TURN_CREDENTIAL_TTL_SECS);
}
