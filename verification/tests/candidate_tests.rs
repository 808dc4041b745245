use bitbridge::candidate::{
    apply_host_lookups, complete_candidate, hostname_candidate_lines, parse_candidate_head, parse_ip_based_candidates,
    pending_host_lookups, CandidateError, CandidateKind, TcpType, TransportProtocol,
};
use bitbridge::netaddr::{IpAddress, SocketAddress};

#[test]
fn candidate_head_reads_the_fixed_fields() {
    let head = parse_candidate_head("  a=candidate:abc 1 TCP 2130706431 host.example 9 typ host tcptype active").unwrap();
    assert_eq!(head.foundation, "abc");
    assert_eq!(head.component_id, 1);
    assert_eq!(head.protocol, TransportProtocol::Tcp);
    assert_eq!(head.priority, 2130706431);
    assert_eq!(head.host, "host.example");
    assert_eq!(head.port, 9);
}

#[test]
fn candidate_head_errors_name_the_field() {
    assert!(matches!(parse_candidate_head("a=candidate:1 1 udp 1 host"), Err(CandidateError::Malformed)));
    assert!(matches!(parse_candidate_head("a=candidate:1 x udp 1 h 9"), Err(CandidateError::BadComponentId)));
    assert!(matches!(parse_candidate_head("a=candidate:1 1 quic 1 h 9"), Err(CandidateError::InvalidProtocol(p)) if p == "quic"));
    assert!(matches!(parse_candidate_head("a=candidate:1 1 udp -1 h 9"), Err(CandidateError::BadPriority)));
    assert!(matches!(parse_candidate_head("a=candidate:1 1 udp 1 h 70000"), Err(CandidateError::BadPort)));
}

#[test]
fn completed_candidate_reads_type_and_extensions() {
    let head = parse_candidate_head(
        "a=candidate:7 1 udp 100 peer.local 5000 typ srflx raddr 10.0.0.1 rport 4000 ufrag abcd",
    )
    .unwrap();
    let addr = SocketAddress::V4 { ip: IpAddress::V4(203, 0, 113, 9), port: 5000 };
    let c = complete_candidate(&head, addr).unwrap();
    assert_eq!(c.foundation, "7");
    assert_eq!(c.kind, CandidateKind::ServerReflexive);
    assert_eq!(c.addr, addr);
    assert_eq!(c.raddr, Some(SocketAddress::V4 { ip: IpAddress::V4(10, 0, 0, 1), port: 4000 }));
    assert_eq!(c.ufrag, Some("abcd".to_string()));
    assert_eq!(c.tcptype, None);
}

#[test]
fn completed_candidate_errors() {
    let addr = SocketAddress::V4 { ip: IpAddress::V4(1, 2, 3, 4), port: 1 };
    let no_typ = parse_candidate_head("a=candidate:1 1 udp 1 h 1 kind host").unwrap();
    assert!(matches!(complete_candidate(&no_typ, addr), Err(CandidateError::ExpectedTyp(Some(w))) if w == "kind"));
    let short = parse_candidate_head("a=candidate:1 1 udp 1 h 1").unwrap();
    assert!(matches!(complete_candidate(&short, addr), Err(CandidateError::ExpectedTyp(None))));
    let missing = parse_candidate_head("a=candidate:1 1 udp 1 h 1 typ").unwrap();
    assert!(matches!(complete_candidate(&missing, addr), Err(CandidateError::MissingType)));
    let unknown = parse_candidate_head("a=candidate:1 1 udp 1 h 1 typ weird").unwrap();
    assert!(matches!(complete_candidate(&unknown, addr), Err(CandidateError::UnknownType(t)) if t == "weird"));
    let bad_raddr = parse_candidate_head("a=candidate:1 1 udp 1 h 1 typ host raddr nope").unwrap();
    assert!(matches!(complete_candidate(&bad_raddr, addr), Err(CandidateError::BadRaddr)));
    let bad_tcp = parse_candidate_head("a=candidate:1 1 tcp 1 h 1 typ host tcptype sideways").unwrap();
    assert!(matches!(complete_candidate(&bad_tcp, addr), Err(CandidateError::UnknownTcpType(t)) if t == "sideways"));
    let tcp = parse_candidate_head("a=candidate:1 1 tcp 1 h 1 typ host tcptype passive").unwrap();
    assert_eq!(complete_candidate(&tcp, addr).unwrap().tcptype, Some(TcpType::Passive));
}

#[test]
fn ip_based_candidates_skip_host_names() {
    let sdp = "v=0\r\n\
        a=candidate:1 1 UDP 2130706431 192.168.1.1 49152 typ host\r\n\
        a=candidate:2 1 UDP 1694498815 203.0.113.7 49153 typ srflx raddr 192.168.1.1 rport 49152\r\n\
        a=candidate:3 1 udp 2130706431 abcd.local 49154 typ host\r\n\
        a=candidate:4 1 udp 16777215 2001:db8::5 3478 typ relay\r\n";
    let all = parse_ip_based_candidates(sdp, false);
    assert_eq!(all.len(), 3);
    assert_eq!(all[0].foundation, "1");
    assert_eq!(all[0].addr, SocketAddress::V4 { ip: IpAddress::V4(192, 168, 1, 1), port: 49152 });
    assert_eq!(all[1].kind, CandidateKind::ServerReflexive);
    assert_eq!(all[1].raddr, Some(SocketAddress::V4 { ip: IpAddress::V4(192, 168, 1, 1), port: 49152 }));
    assert_eq!(all[2].kind, CandidateKind::Relayed);
    let relays = parse_ip_based_candidates(sdp, true);
    assert_eq!(relays.len(), 1);
    assert_eq!(relays[0].foundation, "4");
}

#[test]
fn resolve_remote_candidates_stream_handles_empty_sdp() {
    let sdp = "v=0\r\n\
        o=- 0 0 IN IP4 127.0.0.1\r\n\
        s=-\r\n";
    assert!(hostname_candidate_lines(sdp, false).is_empty(), "expected no candidates in SDP without candidate lines");
}

#[test]
fn resolve_remote_candidates_stream_resolves_hostnames() {
    let sdp = "a=candidate:1 1 udp 2130706431 192.168.1.1 49152 typ host\r\n\
        a=candidate:2 1 udp 2130706431 10.0.0.1 49153 typ host\r\n";
    assert!(hostname_candidate_lines(sdp, false).is_empty(), "expected no candidates to resolve when all are IPs");
}

#[test]
fn hostname_lines_respect_relay_only() {
    let sdp = " a=candidate:1 1 udp 1 peer.local 5000 typ host \r\n\
        a=candidate:2 1 udp 1 relay.example 5001 typ relay\r\n";
    assert_eq!(
        hostname_candidate_lines(sdp, false),
        vec!["a=candidate:1 1 udp 1 peer.local 5000 typ host".to_string(), "a=candidate:2 1 udp 1 relay.example 5001 typ relay".to_string()]
    );
    assert_eq!(hostname_candidate_lines(sdp, true), vec!["a=candidate:2 1 udp 1 relay.example 5001 typ relay".to_string()]);
}

#[test]
fn host_lookups_rewrite_only_answered_lines() {
    let sdp = "v=0\r\na=candidate:1 1 udp 1 one.local 5000 typ host\r\na=candidate:2 1 udp 1 two.local 5001 typ host";
    let lookups = pending_host_lookups(sdp);
    assert_eq!(lookups, vec![(1, "one.local".to_string(), "5000".to_string()), (2, "two.local".to_string(), "5001".to_string())]);
    let rewritten = apply_host_lookups(sdp, &vec![(2, "10.1.1.2".to_string())]);
    assert_eq!(rewritten, "v=0\r\na=candidate:1 1 udp 1 one.local 5000 typ host\r\na=candidate:2 1 udp 1 10.1.1.2 5001 typ host");
}
