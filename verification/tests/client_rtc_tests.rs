use bitbridge::candidate::{CandidateKind, RemoteCandidate, TransportProtocol};
use bitbridge::chunk_frame::{compress_chunk, compressed_frame, raw_frame, unframe, ChunkError};
use bitbridge::decimal::{decimal_string, parse_decimal, parse_u16, parse_u32};
use bitbridge::ipparse::parse_ip;
use bitbridge::netaddr::SocketAddress;
use bitbridge::gather::TurnRecv;
use bitbridge::rtc_routing::{
    client_timeout_ms, is_held_back, promote_ready, receive_local_addr, received_from_turn_server, relayed_receive,
    transmit_via_relay, ChannelEvent, RelayedReceive,
};
use std::collections::VecDeque;
use bitbridge::rtc_logic::{
    choose_path, keep_running, pair_is_relayed, preferred_local_addrs, relay_only_answer,
    remote_candidate_permission_addr, should_pause_transmit, should_wait_for_turn_channel, ConnectGate,
    flush_queue, SendPath, SetupAction, SetupCheck, SetupEvent, TurnRelayInfo,
};

fn addr(text: &str) -> SocketAddress {
    let (host, port) = text.rsplit_once(':').unwrap();
    let host = host.trim_start_matches('[').trim_end_matches(']');
    let ip = parse_ip(&host.chars().collect()).unwrap();
    let port: u16 = port.parse().unwrap();
    if host.contains(':') {
        SocketAddress::V6 { ip, port, flowinfo: 0, scope_id: 0 }
    } else {
        SocketAddress::V4 { ip, port }
    }
}

fn relay_candidate(address: &str, related: Option<&str>) -> RemoteCandidate {
    RemoteCandidate {
        foundation: "relay".to_string(),
        component_id: 1,
        protocol: TransportProtocol::Udp,
        priority: 1,
        addr: addr(address),
        kind: CandidateKind::Relayed,
        raddr: related.map(addr),
        tcptype: None,
        ufrag: None,
    }
}

#[test]
fn relay_channel_peer_addr_uses_candidate_address_not_raddr() {
    let candidate = relay_candidate("127.0.0.1:54336", Some("[::1]:50560"));
    assert_eq!(remote_candidate_permission_addr(&candidate), addr("127.0.0.1:54336"));
}

#[test]
fn relay_channel_peer_addr_normalizes_ipv6_mapped_ipv4_addresses() {
    let candidate = relay_candidate("[::ffff:127.0.0.1]:54336", None);
    assert_eq!(remote_candidate_permission_addr(&candidate), addr("127.0.0.1:54336"));
}

#[test]
fn a_channel_bind_is_tried_once_per_peer() {
    let mut channels = TurnRelayInfo::new(addr("203.0.113.1:3478"), addr("203.0.113.1:49152"));
    let peer = addr("198.51.100.4:3478");
    assert_eq!(channels.server_addr(), addr("203.0.113.1:3478"));
    assert_eq!(channels.relay_addr(), addr("203.0.113.1:49152"));
    assert!(channels.try_mark_channel_attempt(peer));
    assert!(!channels.try_mark_channel_attempt(peer));
    assert!(channels.try_mark_channel_attempt(addr("198.51.100.5:3478")));
    assert!(!channels.have_bound_channel(peer));
    channels.mark_channel_bound(peer);
    assert!(channels.have_bound_channel(peer));
    channels.mark_channel_unbound(peer);
    assert!(!channels.have_bound_channel(peer));
    assert!(!channels.try_mark_channel_attempt(peer));
    assert_eq!(channels.relay_addr(), addr("203.0.113.1:49152"));
}

#[test]
fn relay_candidates_wait_for_their_channel_in_relay_only_mode() {
    assert!(should_wait_for_turn_channel(true, CandidateKind::Relayed, false));
    assert!(!should_wait_for_turn_channel(true, CandidateKind::Relayed, true));
    assert!(!should_wait_for_turn_channel(false, CandidateKind::Relayed, false));
    assert!(!should_wait_for_turn_channel(true, CandidateKind::Host, false));
}

#[test]
fn reliable_data_waits_while_the_channel_is_full() {
    assert!(!should_pause_transmit(false, Some(usize::MAX)));
    assert!(!should_pause_transmit(true, None));
    assert!(!should_pause_transmit(true, Some(0)));
    assert!(should_pause_transmit(true, Some(usize::MAX)));
}

#[test]
fn a_pair_is_relayed_when_its_local_address_is_ours() {
    let ours = addr("203.0.113.9:50000");
    assert!(pair_is_relayed(Some(ours), ours));
    assert!(!pair_is_relayed(Some(ours), addr("203.0.113.9:50001")));
    assert!(!pair_is_relayed(None, ours));
}

#[test]
fn preferred_local_addresses_by_family() {
    let cands = vec![
        (CandidateKind::Host, addr("192.168.1.2:1000")),
        (CandidateKind::ServerReflexive, addr("203.0.113.1:1000")),
        (CandidateKind::Host, addr("[2001:db8::2]:1000")),
    ];
    assert_eq!(
        preferred_local_addrs(&cands),
        (Some(addr("192.168.1.2:1000")), Some(addr("[2001:db8::2]:1000")))
    );
    let reflexive_only = vec![
        (CandidateKind::Relayed, addr("203.0.113.7:1000")),
        (CandidateKind::ServerReflexive, addr("203.0.113.1:1000")),
        (CandidateKind::ServerReflexive, addr("203.0.113.2:1000")),
    ];
    assert_eq!(preferred_local_addrs(&reflexive_only), (Some(addr("203.0.113.1:1000")), None));
    assert_eq!(preferred_local_addrs(&Vec::new()), (None, None));
}

#[test]
fn relay_only_answer_keeps_the_sdp_shape() {
    let sdp = "v=0\r\na=ice-options:trickle\r\na=mid:0\r\na=ice-options:trickle\r\n";
    assert_eq!(
        relay_only_answer(sdp),
        "v=0\r\na=ice-options:trickle relay-only\r\na=mid:0\r\na=ice-options:trickle relay-only\r\n"
    );
    assert_eq!(relay_only_answer("v=0\r\n"), "v=0\r\n");
}

#[test]
fn the_handshake_checks_connection_then_deadline() {
    let mut gate = ConnectGate::new();
    assert_eq!(gate.on_event(SetupEvent::ChannelData), SetupAction::BufferEarly);
    assert_eq!(gate.on_event(SetupEvent::Other), SetupAction::Continue);
    assert_eq!(gate.check(true, true, 100, 30_100, 50), SetupCheck::Wait(50));
    assert_eq!(gate.check(true, true, 30_000, 30_100, 500), SetupCheck::Wait(100));
    assert_eq!(gate.check(true, true, 30_100, 30_100, 5), SetupCheck::TimedOut);
    assert_eq!(gate.check(true, false, 100, 30_100, 5), SetupCheck::Closed);
    assert_eq!(gate.on_event(SetupEvent::Connected), SetupAction::Continue);
    assert_eq!(gate.check(false, true, 100, 30_100, 5), SetupCheck::Wait(5));
    assert_eq!(gate.check(true, true, 100, 30_100, 5), SetupCheck::Ready);
    assert_eq!(gate.on_event(SetupEvent::IceDisconnected), SetupAction::PeerDisconnected);
}

#[test]
fn pending_output_is_checked_every_eighth_spin() {
    let mut gate = ConnectGate::new();
    for _ in 0..7 {
        assert!(!gate.on_no_event(false));
    }
    assert!(gate.on_no_event(false));
    assert_eq!(gate.pending_spins, 0);
    assert!(!gate.on_no_event(false));
    assert!(gate.on_no_event(true));
    assert_eq!(gate.pending_spins, 0);
}

#[test]
fn the_direct_path_is_preferred() {
    assert_eq!(choose_path(true, true), SendPath::Direct);
    assert_eq!(choose_path(false, true), SendPath::Relay);
    assert_eq!(choose_path(false, false), SendPath::Neither);
    assert!(keep_running(false, false, true));
    assert!(!keep_running(false, false, false));
}

#[test]
fn chunks_come_back_from_either_frame() {
    let raw: Vec<u8> = b"hello hello hello hello hello".to_vec();
    let block = compress_chunk(&raw);
    assert_ne!(block, raw);
    assert_eq!(unframe(&compressed_frame(&block), true), Ok(raw.clone()));
    assert_eq!(unframe(&raw_frame(&raw), true), Ok(raw.clone()));
    assert_eq!(raw_frame(&raw)[0], 0);
    assert_eq!(compressed_frame(&block)[0], 1);
    let framed = raw_frame(&raw);
    assert_eq!(unframe(&framed, false), Ok(framed.clone()));
}

#[test]
fn a_bad_block_is_refused() {
    assert_eq!(unframe(&[1, 10, 0, 0, 0, 0xf0], true), Err(ChunkError::Decompression));
}

#[test]
fn decimal_numbers() {
    let digits = |s: &str| s.chars().collect::<Vec<char>>();
    assert_eq!(parse_u16(&digits("3478")), Some(3478));
    assert_eq!(parse_u16(&digits("65536")), None);
    assert_eq!(parse_u16(&digits("")), None);
    assert_eq!(parse_u16(&digits("12a")), None);
    assert_eq!(parse_u32(&digits("2130706431")), Some(2130706431));
    assert_eq!(parse_decimal(&digits("100"), 99), None);
    assert_eq!(parse_decimal(&digits("99"), 99), Some(99));
    assert_eq!(decimal_string(0), "0");
    assert_eq!(decimal_string(86400), "86400");
    assert_eq!(decimal_string(u64::MAX), "18446744073709551615");
}

#[test]
fn only_packets_from_the_relayed_address_go_through_turn() {
    let relay = addr("203.0.113.50:40000");
    assert!(transmit_via_relay(Some(relay), relay));
    assert!(transmit_via_relay(Some(relay), addr("[::ffff:203.0.113.50]:40000")));
    assert!(!transmit_via_relay(Some(relay), addr("192.168.1.2:40000")));
    assert!(!transmit_via_relay(None, relay));
}

#[test]
fn packets_from_the_turn_server_go_to_the_turn_client_first() {
    let server = addr("198.51.100.1:3478");
    assert!(received_from_turn_server(Some(server), server));
    assert!(!received_from_turn_server(Some(server), addr("198.51.100.2:3478")));
    assert!(!received_from_turn_server(None, server));
    assert_eq!(relayed_receive(TurnRecv::PeerData), RelayedReceive::DeliverRelayed);
    assert_eq!(relayed_receive(TurnRecv::Handled), RelayedReceive::Flush);
    assert_eq!(relayed_receive(TurnRecv::Ignored), RelayedReceive::PassOn);
    assert_eq!(relayed_receive(TurnRecv::PeerIcmp), RelayedReceive::Drop);
}

#[test]
fn received_packets_are_attributed_to_the_local_address_of_their_family() {
    let local = addr("[::]:5000");
    let v4_local = addr("192.168.1.2:5000");
    let v6_local = addr("[2001:db8::2]:5000");
    assert_eq!(receive_local_addr(addr("203.0.113.1:1"), Some(v4_local), Some(v6_local), local), v4_local);
    assert_eq!(receive_local_addr(addr("[2001:db8::9]:1"), Some(v4_local), Some(v6_local), local), v6_local);
    assert_eq!(receive_local_addr(addr("203.0.113.1:1"), None, Some(v6_local), local), local);
    assert_eq!(client_timeout_ms(500, Some(20)), 20);
    assert_eq!(client_timeout_ms(500, Some(900)), 500);
    assert_eq!(client_timeout_ms(500, None), 500);
}

#[test]
fn channel_events_update_the_bound_channels() {
    let mut channels = TurnRelayInfo::new(addr("203.0.113.1:3478"), addr("203.0.113.1:49152"));
    let peer = addr("198.51.100.7:50000");
    channels.apply_channel_event(ChannelEvent::Created(peer));
    assert!(channels.have_bound_channel(peer));
    channels.apply_channel_event(ChannelEvent::Other);
    assert!(channels.have_bound_channel(peer));
    channels.apply_channel_event(ChannelEvent::CreateFailed(peer));
    assert!(!channels.have_bound_channel(peer));
}

#[test]
fn held_back_relay_candidates_are_promoted_once_their_channel_is_bound() {
    let a = relay_candidate("198.51.100.7:50000", None);
    let b = relay_candidate("198.51.100.8:50000", None);
    let mut host = relay_candidate("192.168.1.9:50000", None);
    host.kind = CandidateKind::Host;
    let mut channels = TurnRelayInfo::new(addr("203.0.113.1:3478"), addr("203.0.113.1:49152"));
    assert!(is_held_back(&a, Some(&channels), true));
    assert!(!is_held_back(&a, Some(&channels), false));
    assert!(!is_held_back(&a, None, true));
    assert!(!is_held_back(&host, Some(&channels), true));

    let mut pending: VecDeque<RemoteCandidate> = VecDeque::new();
    pending.push_back(a.clone());
    pending.push_back(b.clone());
    assert!(promote_ready(&mut pending, Some(&channels), true).is_empty());
    assert_eq!(pending.len(), 2);

    channels.mark_channel_bound(addr("198.51.100.8:50000"));
    let ready = promote_ready(&mut pending, Some(&channels), true);
    assert_eq!(ready.len(), 1);
    assert_eq!(ready[0].addr, b.addr);
    assert_eq!(pending.len(), 1);
    assert_eq!(pending[0].addr, a.addr);

    let ready = promote_ready(&mut pending, None, true);
    assert_eq!(ready.len(), 1);
    assert!(pending.is_empty());
}

#[test]
fn the_queue_goes_out_in_order_until_both_paths_refuse() {
    let mut q: VecDeque<(Vec<u8>, u16)> = VecDeque::new();
    q.push_back((vec![1, 2, 3], 0));
    q.push_back((vec![4], 2));
    q.push_back((vec![5, 6], 0));
    q.push_back((vec![7], 0));
    let send = |path: SendPath, data: &Vec<u8>, _channel: u16| match path {
        SendPath::Direct => data.len() == 1,
        _ => data.len() == 3,
    };
    let (sent, bytes) = flush_queue(&mut q, send, 0);
    assert_eq!(sent, 2);
    assert_eq!(bytes, 3);
    assert_eq!(q.len(), 2);
    assert_eq!(q[0], (vec![5, 6], 0));

    let (sent, bytes) = flush_queue(&mut q, |_: SendPath, _: &Vec<u8>, _: u16| true, 0);
    assert_eq!((sent, bytes), (2, 3));
    assert!(q.is_empty());
    assert_eq!(flush_queue(&mut q, |_: SendPath, _: &Vec<u8>, _: u16| true, 0), (0, 0));
}
