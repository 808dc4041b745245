use bitbridge::proxy_loop::{liveness, ConnectNews, Leg, Liveness, ProxyLoop, RetryTimer};
use bitbridge::relay_rtc::{
    upload_branch, ConnectTracker, IceDisconnectTimer, IceState, LegEvent, LimitReport, SpeedMeter,
    UploadBranch, UploadLimitLog, DISCONNECTED_POLL_CAP_MS, ICE_DISCONNECT_TIMEOUT_MS,
};

#[test]
fn speed_meter_counts_only_the_window() {
    let mut meter = SpeedMeter::new(1000);
    meter.record_at(0, 100);
    meter.record_at(500, 200);
    assert_eq!(meter.total(), 300);
    meter.record_at(1200, 50);
    // The sample at 0 is older than the window [200, 1200].
    assert_eq!(meter.total(), 250);
    meter.prune_at(1600);
    assert_eq!(meter.total(), 50);
    meter.prune_at(5000);
    assert_eq!(meter.total(), 0);
}

#[test]
fn speed_meter_records_now() {
    let mut meter = SpeedMeter::new(60_000);
    meter.record(10);
    meter.record(20);
    assert_eq!(meter.total_now(), 30);
}

#[test]
fn a_leg_connects_once_everything_it_waits_for_happened() {
    let mut tracker = ConnectTracker::new(&vec![1, 2]);
    assert!(!tracker.is_connected());
    tracker.on_event(LegEvent::ChannelOpen(2));
    tracker.on_event(LegEvent::Other);
    tracker.on_event(LegEvent::Connected);
    assert!(!tracker.is_connected());
    tracker.on_event(LegEvent::ChannelOpen(7));
    assert!(!tracker.is_connected());
    tracker.on_event(LegEvent::ChannelOpen(1));
    assert!(tracker.is_connected());
    tracker.on_event(LegEvent::Other);
    assert!(tracker.is_connected());
}

#[test]
fn ice_disconnect_grace_period() {
    let mut timer = IceDisconnectTimer::new();
    assert!(!timer.expire(1_000_000));
    timer.on_state(IceState::Disconnected, 1000);
    timer.on_state(IceState::Disconnected, 5000);
    assert_eq!(timer.since, Some(1000));
    assert_eq!(timer.cap_wait(30_000), DISCONNECTED_POLL_CAP_MS);
    assert_eq!(timer.cap_wait(200), 200);
    assert!(!timer.expire(1000 + ICE_DISCONNECT_TIMEOUT_MS - 1));
    assert!(timer.expire(1000 + ICE_DISCONNECT_TIMEOUT_MS));
    assert_eq!(timer.since, None);

    timer.on_state(IceState::Disconnected, 20_000);
    timer.on_state(IceState::Completed, 21_000);
    assert_eq!(timer.since, None);
    assert!(!timer.expire(100_000));
    assert_eq!(timer.cap_wait(30_000), 30_000);
}

#[test]
fn upload_limits_follow_the_queue_depth() {
    assert_eq!(upload_branch(0), UploadBranch::Released);
    assert_eq!(upload_branch(2_621_439), UploadBranch::Released);
    assert_eq!(upload_branch(2_621_440), UploadBranch::Measuring);
    assert_eq!(upload_branch(5_242_880), UploadBranch::MatchPeer { done: 0, span: 1_310_720 });
    assert_eq!(upload_branch(5_900_000), UploadBranch::MatchPeer { done: 657_120, span: 1_310_720 });
    assert_eq!(upload_branch(6_553_600), UploadBranch::RampToMin { done: 0, span: 3_932_160 });
    assert_eq!(upload_branch(10_485_759), UploadBranch::RampToMin { done: 3_932_159, span: 3_932_160 });
    assert_eq!(upload_branch(10_485_760), UploadBranch::MinCap);
}

#[test]
fn each_limit_change_is_reported_once() {
    let mut log = UploadLimitLog::new();
    assert!(!log.on_released());
    assert_eq!(log.on_applied(false), LimitReport::Active);
    assert_eq!(log.on_applied(false), LimitReport::Quiet);
    assert_eq!(log.on_applied(true), LimitReport::HardCap);
    assert_eq!(log.on_applied(true), LimitReport::Quiet);
    assert!(log.on_released());
    assert!(!log.on_released());
    assert_eq!(log.on_applied(true), LimitReport::Active);
    assert!(log.hard_cap_logged);
}

#[test]
fn session_liveness() {
    assert_eq!(liveness(true, None), Liveness::Continue);
    assert_eq!(liveness(false, None), Liveness::Stop);
    assert_eq!(liveness(false, Some(false)), Liveness::Stop);
    assert_eq!(liveness(false, Some(true)), Liveness::DisconnectSecond);
    assert_eq!(liveness(true, Some(false)), Liveness::DisconnectFirst);
    assert_eq!(liveness(true, Some(true)), Liveness::Continue);
}

#[test]
fn both_legs_must_connect() {
    let mut s: ProxyLoop<u32> = ProxyLoop::new();
    s.attach_second();
    assert!(s.deadline_armed());
    assert_eq!(s.note_connected(Leg::First, false), ConnectNews::Unchanged);
    assert_eq!(s.note_connected(Leg::First, true), ConnectNews::LegConnected);
    assert_eq!(s.note_connected(Leg::First, true), ConnectNews::Unchanged);
    assert_eq!(s.note_connected(Leg::Second, true), ConnectNews::BothConnected);
    assert!(!s.deadline_armed());
    assert!(s.connected(Leg::First) && s.connected(Leg::Second));
}

#[test]
fn a_refused_message_waits_for_its_retry() {
    let mut s: ProxyLoop<u32> = ProxyLoop::new();
    s.attach_second();
    s.note_connected(Leg::First, true);
    s.note_connected(Leg::Second, true);
    s.note_data(Leg::First);
    s.note_data(Leg::First);
    assert_eq!(s.depth_to_second, 2);
    assert!(s.can_take(Leg::Second, true));
    assert!(!s.can_take(Leg::Second, false));
    assert_eq!(s.after_send(Leg::Second, 7, false), RetryTimer::Soon);
    assert_eq!(*s.pending(Leg::Second), Some(7));
    assert!(!s.can_take(Leg::Second, true));
    assert!(s.can_retry(Leg::Second, true));
    assert_eq!(s.after_retry(Leg::Second, false), RetryTimer::Soon);
    assert_eq!(*s.pending(Leg::Second), Some(7));
    assert_eq!(s.after_retry(Leg::Second, true), RetryTimer::Park);
    assert_eq!(*s.pending(Leg::Second), None);
    assert_eq!(s.depth_to_second, 1);
    assert_eq!(s.after_send(Leg::Second, 8, true), RetryTimer::Unchanged);
    assert_eq!(s.depth_to_second, 0);
    assert_eq!(s.depth_to_first, 0);
}
