//! Deterministic resolver for simultaneous control events.
//!
//! When two peers emit the same kind of control event at nearly the same
//! instant (two users pressing pause at once), every peer in the mesh must pick
//! the same one or the room desyncs. The event with the smaller
//! `(origin_ts_ms, origin)` pair wins; events further apart than the conflict
//! window compose freely.

use vstd::prelude::*;

use crate::node_id::{lemma_before_asymmetric, lemma_before_irreflexive, lemma_before_total};
use crate::protocol::{ControlAction, ControlActionView, ControlEvent, ControlEventView};

verus! {

/// Events with originator timestamps closer than this are a conflict if they
/// are of the same kind.
pub const CONFLICT_WINDOW_MS: u64 = 500;

#[derive(Debug, Clone, Copy, PartialEq, Eq, Structural)]
pub enum ConflictOutcome {
    /// The incoming event should be applied.
    Apply,
    /// The incoming event is superseded by a prior event with a smaller
    /// `(origin_ts_ms, origin)` pair and should be discarded.
    Discard,
}

/// The two actions are of the same kind.
pub open spec fn same_kind(a: ControlActionView, b: ControlActionView) -> bool {
    match a {
        ControlActionView::Play { .. } => b is Play,
        ControlActionView::Pause { .. } => b is Pause,
        ControlActionView::Seek { .. } => b is Seek,
        ControlActionView::SetSpeed { .. } => b is SetSpeed,
        ControlActionView::MediaChanged { .. } => b is MediaChanged,
    }
}

/// The distance between two timestamps.
pub open spec fn distance(a: u64, b: u64) -> int {
    if a >= b {
        a - b
    } else {
        b - a
    }
}

/// Same kind of action, inside the conflict window.
pub open spec fn conflicting(a: ControlEventView, b: ControlEventView) -> bool {
    same_kind(a.action, b.action) && distance(a.origin_ts_ms, b.origin_ts_ms) < CONFLICT_WINDOW_MS
}

/// `a` has the smaller `(origin_ts_ms, origin)` pair.
pub open spec fn takes_priority(a: ControlEventView, b: ControlEventView) -> bool {
    a.origin_ts_ms < b.origin_ts_ms || (a.origin_ts_ms == b.origin_ts_ms && a.origin.before(
        b.origin,
    ))
}

/// What becomes of `incoming` after `prior` was applied.
pub open spec fn outcome(prior: ControlEventView, incoming: ControlEventView) -> ConflictOutcome {
    if conflicting(prior, incoming) && takes_priority(prior, incoming) {
        ConflictOutcome::Discard
    } else {
        ConflictOutcome::Apply
    }
}

fn is_same_kind(a: &ControlAction, b: &ControlAction) -> (r: bool)
    ensures
        r == same_kind(a@, b@),
{
    match a {
        ControlAction::Play { .. } => matches!(b, ControlAction::Play { .. }),
        ControlAction::Pause { .. } => matches!(b, ControlAction::Pause { .. }),
        ControlAction::Seek { .. } => matches!(b, ControlAction::Seek { .. }),
        ControlAction::SetSpeed { .. } => matches!(b, ControlAction::SetSpeed { .. }),
        ControlAction::MediaChanged { .. } => matches!(b, ControlAction::MediaChanged { .. }),
    }
}

/// Decide whether to apply `incoming` given a recently-applied `prior` event.
///
/// - Different kinds of action never conflict: one composes with the other.
/// - The same kind of action outside the window applies as well.
/// - For the same kind of action inside the window, `incoming` is discarded
///   exactly when it has the larger `(origin_ts_ms, origin)` pair.
pub fn resolve(prior: &ControlEvent, incoming: &ControlEvent) -> (r: ConflictOutcome)
    ensures
        r == outcome(prior@, incoming@),
{
    if !is_same_kind(&prior.action, &incoming.action) {
        return ConflictOutcome::Apply;
    }
    let gap: u64 = if prior.origin_ts_ms >= incoming.origin_ts_ms {
        prior.origin_ts_ms - incoming.origin_ts_ms
    } else {
        incoming.origin_ts_ms - prior.origin_ts_ms
    };
    if gap >= CONFLICT_WINDOW_MS {
        return ConflictOutcome::Apply;
    }
    if prior.origin_ts_ms < incoming.origin_ts_ms || (prior.origin_ts_ms == incoming.origin_ts_ms
        && prior.origin < incoming.origin) {
        ConflictOutcome::Discard
    } else {
        ConflictOutcome::Apply
    }
}

/// Of two conflicting events by different originators or at different times,
/// exactly one side is discarded, whichever is seen first: the mesh agrees on
/// the survivor.
pub proof fn law_conflict_has_one_survivor(a: ControlEventView, b: ControlEventView)
    requires
        conflicting(a, b),
        a.origin != b.origin || a.origin_ts_ms != b.origin_ts_ms,
    ensures
        (outcome(a, b) is Apply) != (outcome(b, a) is Apply),
        outcome(a, b) is Discard <==> takes_priority(a, b),
{
    lemma_before_total(a.origin, b.origin);
    if a.origin.before(b.origin) {
        lemma_before_asymmetric(a.origin, b.origin);
    }
    if b.origin.before(a.origin) {
        lemma_before_asymmetric(b.origin, a.origin);
    }
}

/// Different kinds of action never conflict.
pub proof fn law_different_kinds_apply(prior: ControlEventView, incoming: ControlEventView)
    requires
        !same_kind(prior.action, incoming.action),
    ensures
        outcome(prior, incoming) is Apply,
{
}

/// Outside the conflict window, the incoming event always applies.
pub proof fn law_outside_window_applies(prior: ControlEventView, incoming: ControlEventView)
    requires
        distance(prior.origin_ts_ms, incoming.origin_ts_ms) >= CONFLICT_WINDOW_MS,
    ensures
        outcome(prior, incoming) is Apply,
{
}

/// An event with the same originator and timestamp as the prior one applies.
pub proof fn law_identical_pair_applies(prior: ControlEventView, incoming: ControlEventView)
    requires
        prior.origin == incoming.origin,
        prior.origin_ts_ms == incoming.origin_ts_ms,
    ensures
        outcome(prior, incoming) is Apply,
{
    lemma_before_irreflexive(prior.origin);
}

/// An event is discarded exactly if the one before it is of the same kind, less
/// than half a second apart, and earlier by timestamp, or at the same time of a
/// smaller origin.
pub proof fn law_earlier_event_of_a_kind_wins(prior: ControlEventView, incoming: ControlEventView)
    ensures
        outcome(prior, incoming) is Discard <==> {
            &&& match prior.action {
                ControlActionView::Play { .. } => incoming.action is Play,
                ControlActionView::Pause { .. } => incoming.action is Pause,
                ControlActionView::Seek { .. } => incoming.action is Seek,
                ControlActionView::SetSpeed { .. } => incoming.action is SetSpeed,
                ControlActionView::MediaChanged { .. } => incoming.action is MediaChanged,
            }
            &&& -500 < prior.origin_ts_ms - incoming.origin_ts_ms <= 0
            &&& prior.origin_ts_ms == incoming.origin_ts_ms ==> prior.origin.before(
                incoming.origin,
            )
        },
{
}

} // verus!
