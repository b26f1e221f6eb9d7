use sync_core::clock::HybridLogicalClock;
use sync_core::clock::TIMESTAMP_COUNTER_SPAN;
use sync_core::clock::TIMESTAMP_MILLIS_MAX;
use sync_core::clock::tiebreak_lt;

#[test]
fn fresh_clock_starts_at_zero() {
    let clock = HybridLogicalClock::new();
    assert_eq!(clock.latest, 0);
}

#[test]
fn timestamp_packs_millis_in_upper_bits() {
    let mut clock = HybridLogicalClock::new();
    let ts = clock.new_timestamp(1000);
    assert_eq!(ts, 1000 * TIMESTAMP_COUNTER_SPAN);
    assert_eq!(clock.latest, ts);
}

#[test]
fn stalled_wall_clock_bumps_counter() {
    let mut clock = HybridLogicalClock::new();
    let ts1 = clock.new_timestamp(1000);
    let ts2 = clock.new_timestamp(1000);
    assert_eq!(ts2, ts1 + 1);
}

#[test]
fn monotonic_even_when_wall_clock_goes_backwards() {
    let mut clock = HybridLogicalClock::new();
    let ts1 = clock.new_timestamp(5000);
    let ts2 = clock.new_timestamp(200);
    let ts3 = clock.new_timestamp(0);
    assert!(ts1 < ts2);
    assert!(ts2 < ts3);
}

#[test]
fn counter_carries_into_millis() {
    let mut clock = HybridLogicalClock::new();
    let mut last = clock.new_timestamp(7);
    for _ in 0..(TIMESTAMP_COUNTER_SPAN + 2) {
        let next = clock.new_timestamp(7);
        assert!(next > last);
        last = next;
    }
    assert!(last / TIMESTAMP_COUNTER_SPAN > 7);
}

#[test]
fn oversized_wall_clock_reading_is_clamped() {
    let mut clock = HybridLogicalClock::new();
    let ts = clock.new_timestamp(u64::MAX);
    assert_eq!(ts, TIMESTAMP_MILLIS_MAX * TIMESTAMP_COUNTER_SPAN);
}

#[test]
fn merged_remote_timestamp_is_never_lost() {
    let mut clock = HybridLogicalClock::new();
    clock.new_timestamp(1000);
    let remote = 9000 * TIMESTAMP_COUNTER_SPAN + 17;
    clock.update_with_timestamp(remote);
    assert_eq!(clock.latest, remote);
    // merging an older remote timestamp changes nothing
    clock.update_with_timestamp(5);
    assert_eq!(clock.latest, remote);
}

#[test]
fn next_timestamp_causally_follows_merged_remote() {
    let mut clock = HybridLogicalClock::new();
    clock.new_timestamp(1000);
    let remote = 9000 * TIMESTAMP_COUNTER_SPAN + 17;
    clock.update_with_timestamp(remote);
    let next = clock.new_timestamp(1000);
    assert!(next > remote);
}

#[test]
fn tiebreak_orders_by_timestamp_then_node() {
    assert!(tiebreak_lt(1, 9, 2, 1));
    assert!(tiebreak_lt(2, 1, 2, 9));
    assert!(!tiebreak_lt(2, 9, 2, 9));
    assert!(!tiebreak_lt(3, 1, 2, 9));
}
