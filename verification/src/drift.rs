//! Drift correction calculator.
//!
//! Each peer runs this once per second against a reference peer. The result
//! says whether to change mpv's speed or to seek:
//!   - `|diff| >= 1000 ms`: seek to the projected reference position
//!   - `diff >= 100 ms`: ahead of the reference, slow down
//!   - `diff <= -100 ms`: behind the reference, speed up
//!   - otherwise no action

use vstd::prelude::*;

verus! {

/// Threshold from which we seek rather than adjust speed, in ms.
pub const DRIFT_HARD_SEEK_MS: i64 = 1_000;

/// Threshold from which we adjust playback speed, in ms.
pub const DRIFT_SLOWDOWN_MS: i64 = 100;

#[derive(Debug, Clone, Copy, PartialEq, Eq, Structural)]
pub enum DriftAction {
    NoAction,
    /// Ahead of the reference: fall back toward it.
    Slowdown,
    /// Behind the reference: catch up.
    Speedup,
    /// Too far off. Jump directly to the projected reference position.
    Seek { target_ms: u64 },
}

/// Snapshot of a remote peer's state at the moment its last heartbeat was
/// received.
///
/// Projection is anchored on `received_at_ms`, our local clock when the
/// heartbeat arrived, so inter-machine clock skew never looks like drift.
#[derive(Debug, Clone, Copy)]
pub struct ReferencePeer {
    pub media_pos_ms: u64,
    /// Local wall clock (ours) at the moment this heartbeat was received.
    pub received_at_ms: u64,
    pub paused: bool,
    /// Half the current round-trip estimate to this peer.
    pub one_way_ms: u32,
    /// The reference peer's playback speed (1.00x is 100).
    pub speed_centi: u16,
}

/// Our own local playback state.
#[derive(Debug, Clone, Copy)]
pub struct LocalPlayback {
    pub media_pos_ms: u64,
    pub paused: bool,
}

/// `x` as a signed value, or `fallback` if it does not fit.
pub open spec fn signed_or(x: u64, fallback: int) -> int {
    if x <= i64::MAX {
        x as int
    } else {
        fallback
    }
}

/// `x` if it fits in an `i64`, else the largest `i64`.
pub open spec fn narrow(x: int) -> int {
    if i64::MIN <= x <= i64::MAX {
        x
    } else {
        i64::MAX as int
    }
}

/// Quotient rounded toward zero.
pub open spec fn quotient_toward_zero(x: int, d: int) -> int {
    if x >= 0 {
        x / d
    } else {
        -((-x) / d)
    }
}

/// Wall time since the heartbeat arrived, on our clock.
pub open spec fn elapsed(reference: ReferencePeer, now_ms: u64) -> int {
    signed_or(now_ms, i64::MAX as int) - signed_or(reference.received_at_ms, 0)
}

/// Media time that the reference covered since its heartbeat arrived: the
/// elapsed wall time scaled by the reference's playback speed.
pub open spec fn advanced(reference: ReferencePeer, now_ms: u64) -> int {
    narrow(quotient_toward_zero(elapsed(reference, now_ms) * reference.speed_centi as int, 100))
}

/// Where the reference is now: its reported position, plus what it covered
/// since, plus the one-way latency.
pub open spec fn projection(reference: ReferencePeer, now_ms: u64) -> int {
    signed_or(reference.media_pos_ms, i64::MAX as int) + advanced(reference, now_ms)
        + reference.one_way_ms as int
}

/// The projected position and the sum on the way to it fit in an `i64`.
pub open spec fn projection_in_range(reference: ReferencePeer, now_ms: u64) -> bool {
    &&& i64::MIN <= signed_or(reference.media_pos_ms, i64::MAX as int) + advanced(
        reference,
        now_ms,
    ) <= i64::MAX
    &&& projection(reference, now_ms) <= i64::MAX
}

/// Project where the reference peer is *now*, given its last heartbeat and the
/// current wall clock.
pub fn project_reference(reference: &ReferencePeer, now_ms: u64) -> (r: i64)
    requires
        projection_in_range(*reference, now_ms),
    ensures
        r == projection(*reference, now_ms),
{
    let now: i64 = to_signed_or(now_ms, i64::MAX);
    let received_at: i64 = to_signed_or(reference.received_at_ms, 0);
    let elapsed: i64 = now - received_at;
    let scaled: i64 = scale_by_speed(elapsed, reference.speed_centi);
    let pos: i64 = to_signed_or(reference.media_pos_ms, i64::MAX);
    pos + scaled + reference.one_way_ms as i64
}

fn to_signed_or(x: u64, fallback: i64) -> (r: i64)
    ensures
        r == signed_or(x, fallback as int),
{
    if x <= i64::MAX as u64 {
        x as i64
    } else {
        fallback
    }
}

fn scale_by_speed(elapsed: i64, speed_centi: u16) -> (r: i64)
    ensures
        r == narrow(quotient_toward_zero(elapsed * speed_centi, 100)),
{
    let e: i128 = elapsed as i128;
    let s: i128 = speed_centi as i128;
    proof {
        assert(-0x8000_0000_0000_0000 * 0x1_0000 <= e * s <= 0x8000_0000_0000_0000 * 0x1_0000)
            by (nonlinear_arith)
            requires
                -0x8000_0000_0000_0000 <= e <= 0x8000_0000_0000_0000,
                0 <= s <= 0x1_0000,
        ;
    }
    let product: i128 = e * s;
    let quotient: i128 = if product >= 0 {
        product / 100
    } else {
        -((-product) / 100)
    };
    if i64::MIN as i128 <= quotient && quotient <= i64::MAX as i128 {
        quotient as i64
    } else {
        i64::MAX
    }
}

/// The projected position, or the start of the file if it lies before that.
pub open spec fn target(reference: ReferencePeer, now_ms: u64) -> int {
    if projection(reference, now_ms) < 0 {
        0
    } else {
        projection(reference, now_ms)
    }
}

/// How far ahead of the reference we are.
pub open spec fn lead(reference: ReferencePeer, local: LocalPlayback, now_ms: u64) -> int {
    signed_or(local.media_pos_ms, i64::MAX as int) - target(reference, now_ms)
}

/// Drift is measured only between two playing peers.
pub open spec fn both_playing(reference: ReferencePeer, local: LocalPlayback) -> bool {
    !reference.paused && !local.paused
}

/// The drift action for this tick.
pub open spec fn drift_action(
    reference: ReferencePeer,
    local: LocalPlayback,
    now_ms: u64,
) -> DriftAction {
    let diff = lead(reference, local, now_ms);
    if !both_playing(reference, local) {
        DriftAction::NoAction
    } else if diff >= DRIFT_HARD_SEEK_MS || diff <= -DRIFT_HARD_SEEK_MS {
        DriftAction::Seek { target_ms: target(reference, now_ms) as u64 }
    } else if diff >= DRIFT_SLOWDOWN_MS {
        DriftAction::Slowdown
    } else if diff <= -DRIFT_SLOWDOWN_MS {
        DriftAction::Speedup
    } else {
        DriftAction::NoAction
    }
}

/// The projection, where one is made, can be computed.
pub open spec fn drift_in_range(
    reference: ReferencePeer,
    local: LocalPlayback,
    now_ms: u64,
) -> bool {
    both_playing(reference, local) ==> projection_in_range(reference, now_ms)
}

/// Decide the drift action for this local tick.
///
/// Returns `DriftAction::NoAction` whenever the paused states disagree (resolving
/// that is a control-event problem), both peers are paused, or the positions
/// are within the 100 ms deadband.
pub fn check_drift(reference: &ReferencePeer, local: &LocalPlayback, now_ms: u64) -> (r:
    DriftAction)
    requires
        drift_in_range(*reference, *local, now_ms),
    ensures
        r == drift_action(*reference, *local, now_ms),
{
    if reference.paused != local.paused {
        return DriftAction::NoAction;
    }
    if local.paused {
        return DriftAction::NoAction;
    }
    let raw: i64 = project_reference(reference, now_ms);
    let projected: i64 = if raw < 0 {
        0
    } else {
        raw
    };
    let my_pos: i64 = to_signed_or(local.media_pos_ms, i64::MAX);
    let diff: i64 = my_pos - projected;
    if diff >= DRIFT_HARD_SEEK_MS || diff <= -DRIFT_HARD_SEEK_MS {
        return DriftAction::Seek { target_ms: projected as u64 };
    }
    if diff >= DRIFT_SLOWDOWN_MS {
        return DriftAction::Slowdown;
    }
    if diff <= -DRIFT_SLOWDOWN_MS {
        return DriftAction::Speedup;
    }
    DriftAction::NoAction
}

/// Whether [`check_drift`] can be computed for these values.
pub fn drift_computable(reference: &ReferencePeer, local: &LocalPlayback, now_ms: u64) -> (r: bool)
    ensures
        r == drift_in_range(*reference, *local, now_ms),
{
    if reference.paused || local.paused {
        return true;
    }
    let now: i64 = to_signed_or(now_ms, i64::MAX);
    let received_at: i64 = to_signed_or(reference.received_at_ms, 0);
    let elapsed: i64 = now - received_at;
    let scaled: i128 = scale_by_speed(elapsed, reference.speed_centi) as i128;
    let pos: i128 = to_signed_or(reference.media_pos_ms, i64::MAX) as i128;
    let max: i128 = i64::MAX as i128;
    let min: i128 = i64::MIN as i128;
    min <= pos + scaled && pos + scaled <= max && pos + scaled + reference.one_way_ms as i128 <= max
}

/// Only the time that has passed on our own clock enters the projection:
/// shifting both local timestamps by the same amount changes nothing.
pub proof fn law_projection_ignores_clock_offset(reference: ReferencePeer, now_ms: u64, shift: u64)
    requires
        now_ms + shift <= i64::MAX,
        reference.received_at_ms + shift <= i64::MAX,
    ensures
        projection(
            (ReferencePeer {
                received_at_ms: (reference.received_at_ms + shift) as u64,
                ..reference
            }),
            (now_ms + shift) as u64,
        ) == projection(reference, now_ms),
{
}

/// The three corrections move toward the reference: a slowdown only when
/// ahead, a speedup only when behind, and a seek lands on the projected
/// position.
pub proof fn law_correction_moves_toward_reference(
    reference: ReferencePeer,
    local: LocalPlayback,
    now_ms: u64,
)
    requires
        drift_in_range(reference, local, now_ms),
    ensures
        match drift_action(reference, local, now_ms) {
            DriftAction::NoAction => !both_playing(reference, local) || -DRIFT_SLOWDOWN_MS < lead(
                reference,
                local,
                now_ms,
            ) < DRIFT_SLOWDOWN_MS,
            DriftAction::Slowdown => DRIFT_SLOWDOWN_MS <= lead(reference, local, now_ms)
                < DRIFT_HARD_SEEK_MS,
            DriftAction::Speedup => -DRIFT_HARD_SEEK_MS < lead(reference, local, now_ms)
                <= -DRIFT_SLOWDOWN_MS,
            DriftAction::Seek { target_ms } => {
                &&& target_ms == target(reference, now_ms)
                &&& target_ms <= i64::MAX
                &&& drift_action(
                    reference,
                    (LocalPlayback { media_pos_ms: target_ms, paused: local.paused }),
                    now_ms,
                ) is NoAction
            },
        },
{
}

/// In the range of ordinary numbers, the projected position is the reported one,
/// plus the time since at the speed of the peer, plus the one-way delay. A clock
/// that went backwards takes time away.
pub proof fn law_projection_adds_up(reference: ReferencePeer, now_ms: u64)
    requires
        now_ms <= i64::MAX,
        reference.received_at_ms <= i64::MAX,
        reference.media_pos_ms <= i64::MAX,
        (now_ms - reference.received_at_ms) * reference.speed_centi / 100 <= i64::MAX,
        (reference.received_at_ms - now_ms) * reference.speed_centi / 100 <= i64::MAX,
    ensures
        now_ms >= reference.received_at_ms ==> projection(reference, now_ms)
            == reference.media_pos_ms + (now_ms - reference.received_at_ms)
            * reference.speed_centi / 100 + reference.one_way_ms,
        now_ms <= reference.received_at_ms ==> projection(reference, now_ms)
            == reference.media_pos_ms - (reference.received_at_ms - now_ms)
            * reference.speed_centi / 100 + reference.one_way_ms,
{
    let e = now_ms - reference.received_at_ms;
    let s = reference.speed_centi as int;
    assert(e >= 0 ==> e * s >= 0) by (nonlinear_arith)
        requires
            s >= 0,
    ;
    assert(e <= 0 ==> e * s <= 0) by (nonlinear_arith)
        requires
            s >= 0,
    ;
    assert((-e) * s == -(e * s)) by (nonlinear_arith);
    assert(-e == reference.received_at_ms - now_ms);
}

/// Two playing peers less than 100 ms apart are left alone; ahead by less than a
/// second we slow down, behind by less than a second we speed up, and further
/// apart we seek to where the other is. Anything paused is left alone.
pub proof fn law_drift_is_corrected_in_steps(
    reference: ReferencePeer,
    local: LocalPlayback,
    now_ms: u64,
)
    requires
        local.media_pos_ms <= i64::MAX,
        0 <= projection(reference, now_ms) <= i64::MAX,
    ensures
        ({
            let action = drift_action(reference, local, now_ms);
            let ahead = local.media_pos_ms - projection(reference, now_ms);
            let playing = !reference.paused && !local.paused;
            &&& action is NoAction <==> !playing || -100 < ahead < 100
            &&& action is Slowdown <==> playing && 100 <= ahead < 1_000
            &&& action is Speedup <==> playing && -1_000 < ahead <= -100
            &&& action is Seek <==> playing && (ahead <= -1_000 || 1_000 <= ahead)
            &&& action is Seek ==> action->target_ms == projection(reference, now_ms)
        }),
{
}

/// A peer that should be before the start of the file is taken to be there.
pub proof fn law_nobody_is_before_the_start(
    reference: ReferencePeer,
    local: LocalPlayback,
    now_ms: u64,
)
    requires
        projection(reference, now_ms) < 0,
        !reference.paused,
        !local.paused,
    ensures
        drift_action(reference, local, now_ms) is NoAction <==> local.media_pos_ms < 100,
        drift_action(reference, local, now_ms) is Slowdown <==> 100 <= local.media_pos_ms < 1_000,
        drift_action(reference, local, now_ms) is Seek <==> 1_000 <= local.media_pos_ms,
        drift_action(reference, local, now_ms) is Seek ==> drift_action(
            reference,
            local,
            now_ms,
        )->target_ms == 0,
{
}

} // verus!
