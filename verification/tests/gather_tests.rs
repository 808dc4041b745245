use bitbridge::gather::{
    gather_step, min_wait, recv_wait, relay_only_step, srflx_base, stun_send_targets, turn_attempt_targets,
    AgentPoll, AttemptState, DriveStart, GatherFailure, GatherStep, StunPhase, TurnAttempt, TurnEventKind, TurnPoll,
    TurnRecv,
};
use bitbridge::ipparse::parse_ip;
use bitbridge::netaddr::{IpAddress, SocketAddress};
use bitbridge::turn_phase::TurnPhase;

fn ip(text: &str) -> IpAddress {
    parse_ip(&text.chars().collect()).unwrap()
}

fn v4(text: &str, port: u16) -> SocketAddress {
    SocketAddress::V4 { ip: ip(text), port }
}

fn v6(text: &str, port: u16) -> SocketAddress {
    SocketAddress::V6 { ip: ip(text), port, flowinfo: 0, scope_id: 0 }
}

#[test]
fn waits_combine_to_the_sooner() {
    assert_eq!(min_wait(Some(30), Some(20)), Some(20));
    assert_eq!(min_wait(Some(30), None), Some(30));
    assert_eq!(min_wait(None, Some(7)), Some(7));
    assert_eq!(min_wait(None, None), None);
    assert_eq!(recv_wait(None), 1);
    assert_eq!(recv_wait(Some(0)), 1);
    assert_eq!(recv_wait(Some(250)), 250);
}

#[test]
fn one_binding_request_per_address_sent_to() {
    let resolved = vec![
        v4("192.0.2.10", 3478),
        v6("::ffff:192.0.2.10", 3478),
        v4("192.0.2.10", 3478),
        v6("2001:db8::10", 3478),
        v4("192.0.2.11", 3478),
    ];
    assert_eq!(
        stun_send_targets(&resolved),
        vec![
            (v6("::ffff:192.0.2.10", 3478), v4("192.0.2.10", 3478)),
            (v6("2001:db8::10", 3478), v6("2001:db8::10", 3478)),
            (v6("::ffff:192.0.2.11", 3478), v4("192.0.2.11", 3478)),
        ]
    );
}

#[test]
fn each_turn_server_is_tried_once() {
    let resolved = vec![v4("192.0.2.20", 3478), v4("192.0.2.21", 3478), v4("192.0.2.20", 3478)];
    assert_eq!(turn_attempt_targets(&resolved), vec![v4("192.0.2.20", 3478), v4("192.0.2.21", 3478)]);
    assert!(turn_attempt_targets(&Vec::new()).is_empty());
}

#[test]
fn reflexive_base_follows_the_mapped_family() {
    let local = v6("::", 50000);
    assert_eq!(srflx_base(v4("203.0.113.5", 6000), local), v4("0.0.0.0", 50000));
    assert_eq!(srflx_base(v6("2001:db8::5", 6000), local), local);
    assert_eq!(srflx_base(v6("2001:db8::5", 6000), v4("192.168.1.2", 40000)), v6("::", 40000));
}

#[test]
fn failures_name_their_phase() {
    assert!(GatherFailure::NoStunBindings.is_stun());
    assert!(!GatherFailure::TurnTimedOut.is_stun());
    assert_eq!(GatherFailure::NoStunBindings.reason(), "no STUN bindings succeeded");
    assert_eq!(GatherFailure::TurnTimedOut.reason(), "TURN gathering timed out after 5s");
    assert_eq!(GatherFailure::AllTurnAttemptsFailed.reason(), "all TURN allocation attempts failed");
    assert_eq!(GatherFailure::MissingTurnCredentials.reason(), "missing TURN credentials");
}

#[test]
fn the_gathering_loop_fails_first_then_finishes_then_waits() {
    let stun_fail = Some(GatherFailure::NoStunBindings);
    let turn_fail = Some(GatherFailure::TurnTimedOut);
    assert_eq!(gather_step(stun_fail, turn_fail, false, false, None, None), GatherStep::Fail(GatherFailure::NoStunBindings));
    assert_eq!(gather_step(None, turn_fail, true, false, None, None), GatherStep::Fail(GatherFailure::TurnTimedOut));
    assert_eq!(gather_step(None, None, true, true, Some(5), Some(9)), GatherStep::Finish);
    assert_eq!(gather_step(None, None, true, false, Some(40), Some(9)), GatherStep::Wait(9));
    assert_eq!(gather_step(None, None, false, false, None, None), GatherStep::Wait(1));
    assert_eq!(relay_only_step(None, false, Some(0)), GatherStep::Wait(1));
    assert_eq!(relay_only_step(None, true, None), GatherStep::Finish);
}

#[test]
fn stun_phase_refuses_to_start_without_servers() {
    assert_eq!(StunPhase::start(0, vec![1]).err(), Some(GatherFailure::NoStunUrls));
    assert_eq!(StunPhase::start(2, vec![]).err(), Some(GatherFailure::NoStunRequests));
}

#[test]
fn stun_phase_completes_once_every_transaction_settled_with_a_binding() {
    let mut phase = StunPhase::start(1, vec![10, 11, 12]).unwrap();
    assert_eq!(phase.begin_drive(100), DriveStart::Poll(2900));
    let wait = phase.after_polls(2900, &vec![AgentPoll::WaitUntil(400), AgentPoll::Finished, AgentPoll::WaitUntil(0)]);
    assert_eq!(wait, Some(1));
    assert_eq!(phase.pending_ids(), vec![10, 12]);
    assert!(phase.takes_packets());
    phase.on_response(0, true);
    assert_eq!(phase.pending_ids(), vec![12]);
    assert!(!phase.is_complete());
    phase.on_response(0, false);
    assert!(phase.is_complete());
    assert_eq!(phase.failure(), None);
    assert!(!phase.takes_packets());
    assert_eq!(phase.begin_drive(200), DriveStart::Inactive);
}

#[test]
fn stun_phase_fails_when_its_time_runs_out_without_a_binding() {
    let mut phase = StunPhase::start(1, vec![1, 2]).unwrap();
    assert_eq!(phase.begin_drive(3000), DriveStart::Expired);
    assert_eq!(phase.failure(), Some(GatherFailure::NoStunBindings));
    assert!(phase.pending_ids().is_empty());
}

#[test]
fn stun_phase_fails_when_every_transaction_times_out() {
    let mut phase = StunPhase::start(1, vec![1]).unwrap();
    assert_eq!(phase.begin_drive(10), DriveStart::Poll(2990));
    assert_eq!(phase.after_polls(2990, &vec![AgentPoll::Finished]), None);
    assert_eq!(phase.failure(), Some(GatherFailure::NoStunBindings));
}

#[test]
fn a_turn_attempt_follows_its_client() {
    let relay = v4("198.51.100.9", 49152);
    let mut a = TurnAttempt::new(4);
    assert_eq!(a.drive(4000, TurnPoll::WaitUntil(0), &vec![]), Some(1));
    assert_eq!(a.drive(300, TurnPoll::WaitUntil(900), &vec![]), Some(300));
    assert_eq!(a.drive(300, TurnPoll::Other, &vec![TurnEventKind::Other]), Some(300));
    assert!(a.is_pending());
    assert!(!a.on_packet(TurnRecv::Ignored, &vec![]));
    assert!(a.on_packet(TurnRecv::Handled, &vec![TurnEventKind::AllocationCreated(relay)]));
    assert!(a.is_succeeded());
    assert_eq!(a.into_relay_info(), Some(relay));
    assert_eq!(a.drive(300, TurnPoll::Closed, &vec![]), None);

    let mut b = TurnAttempt::new(5);
    assert_eq!(b.drive(300, TurnPoll::Closed, &vec![]), None);
    assert_eq!(b.state, AttemptState::Failed);
    assert_eq!(b.failure_reason(), Some("TURN client closed during allocation"));
    assert_eq!(b.into_relay_info(), None);
}

#[test]
fn turn_phase_keeps_the_first_allocation_that_succeeds() {
    let relay = v4("198.51.100.9", 49152);
    let mut phase = TurnPhase::start(1, 3).unwrap();
    assert_eq!(phase.attempt_ids(), vec![0, 1, 2]);
    assert_eq!(phase.begin_drive(100), DriveStart::Poll(4900));
    let outcomes = vec![
        (TurnPoll::Closed, vec![]),
        (TurnPoll::WaitUntil(50), vec![]),
        (TurnPoll::WaitUntil(20), vec![TurnEventKind::AllocationCreated(relay)]),
    ];
    // Attempt 0 fails and the last one takes its place; it succeeds at once.
    let (driven, wait) = phase.after_polls(4900, &outcomes);
    assert_eq!(driven, vec![0, 2]);
    assert_eq!(wait, None);
    assert!(phase.is_complete());
    assert_eq!(phase.take_success(), Some((2, relay)));
    assert!(!phase.is_complete());
    assert!(phase.attempt_ids().is_empty());
}

#[test]
fn turn_phase_waits_for_the_soonest_attempt() {
    let mut phase = TurnPhase::start(2, 3).unwrap();
    assert_eq!(phase.begin_drive(0), DriveStart::Poll(5000));
    let outcomes = vec![
        (TurnPoll::WaitUntil(500), vec![]),
        (TurnPoll::Closed, vec![]),
        (TurnPoll::WaitUntil(30), vec![]),
    ];
    let (driven, wait) = phase.after_polls(5000, &outcomes);
    assert_eq!(driven, vec![0, 1, 2]);
    assert_eq!(wait, Some(30));
    assert_eq!(phase.attempt_ids(), vec![0, 2]);
    assert_eq!(phase.failure(), None);

    let relay = v6("2001:db8::99", 49160);
    let packet = vec![(TurnRecv::Ignored, vec![]), (TurnRecv::Handled, vec![TurnEventKind::AllocationCreated(relay)])];
    assert!(phase.after_packet(&packet));
    assert_eq!(phase.take_success(), Some((2, relay)));
}

#[test]
fn turn_phase_fails_when_every_attempt_failed_or_time_ran_out() {
    let mut phase = TurnPhase::start(1, 2).unwrap();
    phase.begin_drive(10);
    let (driven, wait) = phase.after_polls(4990, &vec![(TurnPoll::Closed, vec![]), (TurnPoll::Closed, vec![])]);
    assert_eq!(driven.len(), 2);
    assert_eq!(wait, None);
    assert_eq!(phase.failure(), Some(GatherFailure::AllTurnAttemptsFailed));
    assert_eq!(phase.begin_drive(20), DriveStart::Inactive);

    let mut late = TurnPhase::start(1, 1).unwrap();
    assert_eq!(late.begin_drive(5000), DriveStart::Expired);
    assert_eq!(late.failure(), Some(GatherFailure::TurnTimedOut));
    assert!(!late.after_packet(&vec![]));

    assert_eq!(TurnPhase::start(0, 1).err(), Some(GatherFailure::NoTurnUrls));
    assert_eq!(TurnPhase::start(1, 0).err(), Some(GatherFailure::NoTurnAttempts));
}

#[test]
fn a_packet_no_attempt_takes_changes_nothing() {
    let mut phase = TurnPhase::start(1, 2).unwrap();
    assert!(!phase.after_packet(&vec![(TurnRecv::Ignored, vec![]), (TurnRecv::Ignored, vec![])]));
    assert!(phase.after_packet(&vec![(TurnRecv::PeerIcmp, vec![]), (TurnRecv::Ignored, vec![])]));
    assert!(!phase.is_complete());
    assert_eq!(phase.attempt_ids(), vec![0, 1]);
}
