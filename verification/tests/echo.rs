//! The echo guard.

use syncmesh::echo::{EchoGuard, WINDOW_MS};

#[test]
fn pause_echo_within_window_is_consumed() {
    let mut g = EchoGuard::new();
    g.record_pause(true, 1_000);
    assert!(g.consume_pause(true, 1_100));
    // Second call should miss — the entry was consumed.
    assert!(!g.consume_pause(true, 1_200));
}

#[test]
fn pause_edge_with_wrong_value_does_not_consume() {
    let mut g = EchoGuard::new();
    g.record_pause(true, 1_000);
    assert!(!g.consume_pause(false, 1_100));
    // Entry still pending: a later correct edge within window still matches.
    assert!(g.consume_pause(true, 1_200));
}

#[test]
fn pause_edge_after_deadline_expires_entry() {
    let mut g = EchoGuard::new();
    g.record_pause(true, 1_000);
    // Well past the suppression window.
    assert!(!g.consume_pause(true, 1_000 + WINDOW_MS));
    // Entry cleared; a future record+consume works normally.
    g.record_pause(true, 5_000);
    assert!(g.consume_pause(true, 5_500));
}

#[test]
fn seek_echo_within_tolerance_is_consumed() {
    let mut g = EchoGuard::new();
    g.record_seek(10_000, 100);
    // Keyframe snap: mpv lands 300 ms short of target.
    assert!(g.consume_seek(9_700, 200));
}

#[test]
fn local_seek_beyond_tolerance_does_not_consume() {
    let mut g = EchoGuard::new();
    g.record_seek(10_000, 100);
    assert!(!g.consume_seek(12_000, 200));
    // Still pending — a within-tolerance call still works.
    assert!(g.consume_seek(10_500, 300));
}

#[test]
fn remote_seek_beyond_tolerance_is_consumed() {
    // Remote-origin seeks must consume the next post-PlaybackRestart
    // TimePos no matter how far mpv's keyframe snap drifted, because
    // re-broadcasting it would cause a 2-peer ping-pong loop.
    let mut g = EchoGuard::new();
    g.record_seek_remote(10_000, 100);
    // 40 s of "drift" — would never match local-origin tolerance, but the
    // remote-origin guarantee ("the next seek edge is unambiguously ours")
    // means we still consume.
    assert!(g.consume_seek(50_000, 200));
    // Entry cleared after consume.
    assert!(!g.consume_seek(50_000, 300));
}

#[test]
fn remote_seek_still_expires_at_deadline() {
    let mut g = EchoGuard::new();
    g.record_seek_remote(10_000, 100);
    assert!(!g.consume_seek(10_000, 100 + WINDOW_MS));
    // Entry cleared; a future record+consume works normally.
    g.record_seek_remote(20_000, 5_000);
    assert!(g.consume_seek(99_999, 5_500));
}

#[test]
fn record_seek_overrides_origin_of_prior_entry() {
    // record_seek (Local) replaces a prior remote-origin entry; the next
    // edge is checked with tolerance again. Symmetric the other way.
    let mut g = EchoGuard::new();
    g.record_seek_remote(10_000, 100);
    g.record_seek(20_000, 110);
    // Now Local — far-off TimePos should NOT consume.
    assert!(!g.consume_seek(99_999, 200));
    // Pending entry is still the local one; an in-tolerance call consumes.
    assert!(g.consume_seek(20_300, 300));
}

#[test]
fn speed_exact_match_consumes() {
    let mut g = EchoGuard::new();
    g.record_speed(95, 0);
    assert!(!g.consume_speed(100, 1));
    assert!(g.consume_speed(95, 2));
}

#[test]
fn independent_categories_do_not_interfere() {
    let mut g = EchoGuard::new();
    g.record_pause(true, 0);
    g.record_seek(5_000, 0);
    g.record_speed(95, 0);
    assert!(g.consume_pause(true, 1));
    assert!(g.consume_seek(5_000, 2));
    assert!(g.consume_speed(95, 3));
}
