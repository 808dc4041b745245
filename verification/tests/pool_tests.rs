use bitbridge::pool::{pick_least_buffered, ConnectionPool, SlotStatus};

#[test]
fn pick_least_buffered_returns_none_when_empty() {
    let chosen = pick_least_buffered(&Vec::new());
    assert!(chosen.is_none());
}

#[test]
fn pick_least_buffered_returns_only_candidate() {
    let chosen = pick_least_buffered(&vec![(7usize, 1024usize)]);
    assert_eq!(chosen, Some(7));
}

#[test]
fn pick_least_buffered_picks_smallest_buffer() {
    let chosen = pick_least_buffered(&vec![(0, 4096usize), (1, 512), (2, 2048)]);
    assert_eq!(chosen, Some(1));
}

#[test]
fn pick_least_buffered_tie_prefers_first_seen() {
    let chosen = pick_least_buffered(&vec![(0, 1024usize), (1, 1024), (2, 1024)]);
    assert_eq!(chosen, Some(0));
}

#[test]
fn pick_least_buffered_zero_buffer_wins() {
    let chosen = pick_least_buffered(&vec![(0, 500usize), (1, 0), (2, 250)]);
    assert_eq!(chosen, Some(1));
}

fn status(alive: bool, buffered: usize, relay: bool) -> SlotStatus {
    SlotStatus { alive, buffered, relay }
}

#[test]
fn a_pool_starts_with_its_primary_connection() {
    let pool = ConnectionPool::new_with_primary(3);
    assert_eq!(pool.slot_count(), 3);
    assert!(pool.is_installed(0));
    assert!(!pool.is_installed(1));
    assert!(!pool.is_installed(7));
    assert_eq!(ConnectionPool::new_with_primary(0).slot_count(), 1);
}

#[test]
fn a_slot_is_filled_once() {
    let mut pool = ConnectionPool::new_with_primary(3);
    assert!(!pool.install(0));
    assert!(pool.install(2));
    assert!(!pool.install(2));
    assert!(!pool.install(3));
    assert!(pool.is_installed(2));
}

#[test]
fn reliable_data_goes_to_the_least_buffered_live_slot() {
    let mut pool = ConnectionPool::new_with_primary(4);
    pool.install(1);
    pool.install(3);
    let live = vec![status(true, 900, false), status(false, 10, false), status(true, 1, false), status(true, 300, true)];
    // Slot 1 is dead and slot 2 holds no connection.
    assert_eq!(pool.reliable_target(&live), Some(3));
    assert_eq!(pool.alive_count(&live), 2);
    assert!(pool.any_slot_is_relay(&live));
    assert!(pool.slot0_alive(&live));

    let idle = vec![status(true, 0, false), status(true, 0, false), status(true, 0, false), status(true, 0, false)];
    assert_eq!(pool.reliable_target(&idle), Some(0));
    assert!(!pool.any_slot_is_relay(&idle));
}

#[test]
fn nothing_is_sent_through_a_shut_down_pool() {
    let mut pool = ConnectionPool::new_with_primary(2);
    pool.install(1);
    let live = vec![status(true, 5, true), status(true, 1, true)];
    assert_eq!(pool.reliable_target(&live), Some(1));
    pool.shutdown_all();
    assert_eq!(pool.reliable_target(&live), None);
    assert_eq!(pool.alive_count(&live), 0);
    assert!(!pool.any_slot_is_relay(&live));
    assert!(!pool.slot0_alive(&live));
    assert!(!pool.install(1));
    let more = vec![status(true, 0, true); 5];
    assert_eq!(pool.reliable_target(&more), None);
    assert_eq!(pool.alive_count(&Vec::new()), 0);
    assert!(!pool.any_slot_is_relay(&more));
    assert!(!pool.slot0_alive(&more));
}

#[test]
fn a_dead_primary_blocks_control_messages() {
    let pool = ConnectionPool::new_with_primary(2);
    let live = vec![status(false, 0, false), status(true, 0, false)];
    assert!(!pool.slot0_alive(&live));
    assert_eq!(pool.reliable_target(&live), None);
}
