//! Drift correction.

use syncmesh::drift::{check_drift, project_reference, DriftAction, LocalPlayback, ReferencePeer};
use syncmesh::state::SPEED_NORMAL_CENTI;

/// `received_ms` is our local clock when the heartbeat arrived (the
/// projection anchor), `one_way` the per-peer latency compensation.
fn ref_at(pos_ms: u64, received_ms: u64, one_way: u32) -> ReferencePeer {
    ReferencePeer {
        media_pos_ms: pos_ms,
        received_at_ms: received_ms,
        paused: false,
        one_way_ms: one_way,
        speed_centi: SPEED_NORMAL_CENTI,
    }
}

fn me_at(pos_ms: u64) -> LocalPlayback {
    LocalPlayback {
        media_pos_ms: pos_ms,
        paused: false,
    }
}

#[test]
fn exactly_in_sync_emits_no_action() {
    let r = ref_at(10_000, 1_000, 0);
    let me = me_at(10_000);
    assert_eq!(check_drift(&r, &me, 1_000), DriftAction::NoAction);
}

#[test]
fn within_deadband_emits_no_action() {
    let r = ref_at(10_000, 1_000, 0);
    let me_ahead = me_at(10_099);
    let me_behind = me_at(9_901);
    assert_eq!(check_drift(&r, &me_ahead, 1_000), DriftAction::NoAction);
    assert_eq!(check_drift(&r, &me_behind, 1_000), DriftAction::NoAction);
}

#[test]
fn i_am_behind_triggers_speedup() {
    // my_pos (9_850) < ref (10_000) → diff = -150 → Speedup.
    let r = ref_at(10_000, 1_000, 0);
    let me = me_at(9_850);
    assert_eq!(check_drift(&r, &me, 1_000), DriftAction::Speedup);
}

#[test]
fn i_am_ahead_triggers_slowdown() {
    // my_pos (10_150) > ref (10_000) → diff = +150 → Slowdown.
    let r = ref_at(10_000, 1_000, 0);
    let me = me_at(10_150);
    assert_eq!(check_drift(&r, &me, 1_000), DriftAction::Slowdown);
}

#[test]
fn hard_lag_triggers_seek_forward() {
    // 1500 ms behind → hard seek to reference.
    let r = ref_at(10_000, 1_000, 0);
    let me = me_at(8_500);
    let action = check_drift(&r, &me, 1_000);
    assert!(matches!(action, DriftAction::Seek { target_ms: 10_000 }));
}

#[test]
fn hard_lead_triggers_seek_back() {
    // 2000 ms ahead → hard seek to reference.
    let r = ref_at(10_000, 1_000, 0);
    let me = me_at(12_000);
    let action = check_drift(&r, &me, 1_000);
    assert!(matches!(action, DriftAction::Seek { target_ms: 10_000 }));
}

#[test]
fn hard_threshold_is_inclusive() {
    // Exactly 1000 ms ahead should trigger Seek.
    let r = ref_at(10_000, 1_000, 0);
    let me = me_at(11_000);
    assert!(matches!(
        check_drift(&r, &me, 1_000),
        DriftAction::Seek { .. }
    ));
}

#[test]
fn deadband_boundary_is_exactly_100_ms() {
    // diff = +100 → Slowdown (inclusive).
    let r = ref_at(10_000, 1_000, 0);
    let me_100_ahead = me_at(10_100);
    assert_eq!(check_drift(&r, &me_100_ahead, 1_000), DriftAction::Slowdown);
    // diff = -100 → Speedup (inclusive).
    let me_100_behind = me_at(9_900);
    assert_eq!(check_drift(&r, &me_100_behind, 1_000), DriftAction::Speedup);
}

#[test]
fn projection_accounts_for_elapsed_time() {
    // Reference heartbeat said pos=10_000 at ts=1_000. Now it's 1_500 ms,
    // so reference projects to 10_500 with one_way=0. If I'm at 10_500,
    // we're in sync.
    let r = ref_at(10_000, 1_000, 0);
    let me = me_at(10_500);
    assert_eq!(check_drift(&r, &me, 1_500), DriftAction::NoAction);
}

#[test]
fn projection_adds_one_way_compensation() {
    // Heartbeat traversed 30 ms one-way. Add that to projected position.
    let r = ref_at(10_000, 1_000, 30);
    let me = me_at(10_530);
    assert_eq!(check_drift(&r, &me, 1_500), DriftAction::NoAction);
}

#[test]
fn both_paused_returns_none() {
    let r = ReferencePeer {
        media_pos_ms: 10_000,
        received_at_ms: 1_000,
        paused: true,
        one_way_ms: 0,
        speed_centi: SPEED_NORMAL_CENTI,
    };
    let me = LocalPlayback {
        media_pos_ms: 9_000,
        paused: true,
    };
    assert_eq!(check_drift(&r, &me, 1_000), DriftAction::NoAction);
}

#[test]
fn mismatched_pause_returns_none() {
    let mut r = ref_at(10_000, 1_000, 0);
    r.paused = true;
    let me = me_at(9_000);
    assert_eq!(check_drift(&r, &me, 1_000), DriftAction::NoAction);
}

#[test]
fn projected_negative_position_is_clamped() {
    // Pathological: origin_ts is far in the future. Projection goes
    // negative, gets clamped to 0. Assertion: no panic, no surprising
    // wraparound, and the clamped value is used for the diff.
    let r = ref_at(0, 10_000, 0);
    let me = me_at(50);
    // projected = 0 + (1000 - 10000) = -9000, clamp → 0. diff = 50 - 0 = 50
    // → within deadband → None.
    assert_eq!(check_drift(&r, &me, 1_000), DriftAction::NoAction);
}

#[test]
fn projection_is_immune_to_remote_clock_skew() {
    // The reference machine's wall clock is 1 hour ahead of
    // ours, but the heartbeat still arrived on *our* clock at received=1_000
    // reporting pos=10_000. With local-receive-time anchoring the skew is
    // irrelevant: projecting at now=1_000 gives exactly 10_000.
    //
    // (Under the old origin-timestamp anchoring this same scenario would
    // have projected 10_000 + 3_600_000 of phantom drift and hard-seeked
    // every single tick.)
    let r = ref_at(10_000, 1_000, 0);
    assert_eq!(project_reference(&r, 1_000), 10_000);
    let me = me_at(10_000);
    assert_eq!(check_drift(&r, &me, 1_000), DriftAction::NoAction);
}

#[test]
fn projection_scales_with_reference_speed() {
    // Reference is at 10_000 when received at t=1_000,
    // playing at 2.00x. One second of wall time later (now=2_000) it has
    // advanced 2_000 ms of media → projects to 12_000. A local peer also
    // at 12_000 is in sync; the old 1.0x extrapolation would have placed
    // the reference at 11_000 and hard-seeked the 1 s "drift" away.
    let mut r = ref_at(10_000, 1_000, 0);
    r.speed_centi = 200;
    assert_eq!(project_reference(&r, 2_000), 12_000);
    assert_eq!(check_drift(&r, &me_at(12_000), 2_000), DriftAction::NoAction);
    // A local peer at 11_500 is 500 ms behind the speed-aware projection →
    // a soft speed-up, not the spurious hard seek the 1.0x math produced.
    assert_eq!(check_drift(&r, &me_at(11_500), 2_000), DriftAction::Speedup);
}

#[test]
fn seek_target_is_projected_position_not_raw() {
    // If reference is stale (heartbeat from 2s ago), seek should target
    // the *projected* position, not the raw media_pos from the heartbeat.
    let r = ref_at(10_000, 0, 0);
    let me = me_at(5_000); // way behind
    let action = check_drift(&r, &me, 2_000);
    // projected = 10_000 + (2_000 - 0) = 12_000
    assert_eq!(action, DriftAction::Seek { target_ms: 12_000 });
}
