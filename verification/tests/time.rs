//! Clocks.

use std::time::{Duration, UNIX_EPOCH};

use syncmesh::time::{time_to_ms, Clock, MockClock, SystemClock};

#[test]
fn mock_clock_starts_at_configured_time() {
    let c = MockClock::new(1_000);
    assert_eq!(c.now_ms(), 1_000);
}

#[test]
fn mock_clock_advances_and_sets() {
    let mut c = MockClock::new(0);
    c.advance(500);
    assert_eq!(c.now_ms(), 500);
    c.advance(250);
    assert_eq!(c.now_ms(), 750);
    c.set(10);
    assert_eq!(c.now_ms(), 10);
}

#[test]
fn system_clock_is_after_2020_01_01() {
    // 2020-01-01 UTC in ms since UNIX epoch.
    let floor_ms = 1_577_836_800_000;
    let now = SystemClock.now_ms();
    assert!(
        now > floor_ms,
        "system clock returned {now}, which is before 2020-01-01"
    );
}

#[test]
fn mock_clock_starts_over_past_the_end() {
    let mut c = MockClock::new(u64::MAX);
    c.advance(3);
    assert_eq!(c.now_ms(), 2);
}

#[test]
fn a_time_is_counted_from_the_epoch_in_whole_milliseconds() {
    assert_eq!(time_to_ms(&UNIX_EPOCH), 0);
    let later = UNIX_EPOCH + Duration::from_micros(1_500_999);
    assert_eq!(time_to_ms(&later), 1_500);
    let before = UNIX_EPOCH - Duration::from_secs(1);
    assert_eq!(time_to_ms(&before), 0);
}
