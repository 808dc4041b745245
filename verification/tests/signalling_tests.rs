use bitbridge::signalling::{
    add_scope, addressed_to, carries_ice_config, extract_client_ip, frame_accepted, remove_scope, requested_scopes,
    scope_changes, ScopeKey, SentOrders,
};

#[test]
fn scope_keys_read_protocol_id_and_owner() {
    let k = ScopeKey::new("direct://room-1;owner");
    assert_eq!(k.scope_id, "room-1");
    assert!(k.is_direct);
    assert!(k.is_owner);
    let plain = ScopeKey::new("room-2");
    assert_eq!(plain.scope_id, "room-2");
    assert!(!plain.is_direct);
    assert!(!plain.is_owner);
    let odd = ScopeKey::new("ws://a://b;x;ownership");
    assert_eq!(odd.scope_id, "a");
    assert!(!odd.is_direct);
    assert!(odd.is_owner);
    assert!(ScopeKey::new("owner").is_owner);
    assert!(plain.should_broad_cast());
    assert!(ScopeKey::from_parts("r".to_string(), true, false) == ScopeKey::new("direct://r"));
}

#[test]
fn join_changes_leave_and_enter_the_difference() {
    let current = vec![ScopeKey::new("a"), ScopeKey::new("b;owner")];
    let requested = requested_scopes(&vec!["b;owner".to_string(), "c".to_string()]);
    let (leave, enter) = scope_changes(&current, &requested);
    assert_eq!(leave.len(), 1);
    assert_eq!(leave[0].scope_id, "a");
    assert_eq!(enter.len(), 1);
    assert_eq!(enter[0].scope_id, "c");
    let many: Vec<String> = (0..70).map(|i| format!("s{i}")).collect();
    assert_eq!(requested_scopes(&many).len(), 64);
}

#[test]
fn client_scope_set_has_no_duplicates() {
    let mut scopes = Vec::new();
    add_scope(&mut scopes, ScopeKey::new("a"));
    add_scope(&mut scopes, ScopeKey::new("a"));
    add_scope(&mut scopes, ScopeKey::new("b"));
    assert_eq!(scopes.len(), 2);
    remove_scope(&mut scopes, &ScopeKey::new("a"));
    assert_eq!(scopes.len(), 1);
    assert_eq!(scopes[0].scope_id, "b");
}

#[test]
fn client_ip_prefers_proxy_headers() {
    assert_eq!(extract_client_ip(Some(" 1.2.3.4 , 5.6.7.8"), Some("9.9.9.9"), None, "10.0.0.1:1"), "1.2.3.4");
    assert_eq!(extract_client_ip(None, Some("9.9.9.9, 8.8.8.8"), Some("7.7.7.7"), "10.0.0.1:1"), "9.9.9.9");
    assert_eq!(extract_client_ip(None, None, Some(" 7.7.7.7 "), "10.0.0.1:1"), " 7.7.7.7 ");
    assert_eq!(extract_client_ip(None, None, None, "10.0.0.1:1"), "10.0.0.1:1");
}

#[test]
fn sent_orders_forward_only_newer_messages() {
    let mut orders = SentOrders::new();
    assert!(orders.accept_order("alice", 5));
    assert!(!orders.accept_order("alice", 5));
    assert!(!orders.accept_order("alice", 3));
    assert!(orders.accept_order("alice", 0));
    assert!(orders.accept_order("alice", 6));
    assert!(orders.accept_order("bob", 1));
}

#[test]
fn sent_orders_prune_keeps_the_latest_senders() {
    let mut orders = SentOrders::new();
    for i in 0..201u64 {
        assert!(orders.accept_order(&format!("peer{i}"), i + 1));
    }
    // The next message prunes to the 100 senders with the latest orders.
    assert!(orders.accept_order("late", 1));
    assert!(!orders.accept_order("peer200", 201));
    assert!(orders.accept_order("peer0", 1));
}

#[test]
fn large_frames_are_ignored() {
    assert!(frame_accepted(0));
    assert!(frame_accepted(32768));
    assert!(!frame_accepted(32769));
}

#[test]
fn messages_reach_only_their_addressee() {
    assert!(!addressed_to("alice", None, "alice"));
    assert!(addressed_to("alice", None, "bob"));
    assert!(addressed_to("alice", Some("bob"), "bob"));
    assert!(!addressed_to("alice", Some("carol"), "bob"));
    assert!(carries_ice_config(true, false));
    assert!(carries_ice_config(false, true));
    assert!(!carries_ice_config(false, false));
}
