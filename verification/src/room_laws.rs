//! What holds of the room as a whole.

use vstd::prelude::*;

use crate::conflict::{conflicting, outcome, takes_priority};
use crate::node_id::{
    lemma_before_asymmetric, lemma_before_total, lemma_before_transitive, NodeId,
};
use crate::node_map::{law_finite_sets_are_listed, listing};
use crate::protocol::{
    ChatMessageView, ControlActionView, ControlEventView, FrameView, PresenceEventView,
    RosterEntryView, StateHeartbeatView,
};
use crate::room::{
    age, can_step, carries_position, drift_seek, eligible, fresh_peer, heard_at, heard_from,
    held_off, inbound_control, inbound_heartbeat, inbound_presence, is_duplicate, is_reference,
    is_stalest, is_superseded, local_control, new_room, own_event, peer_connected,
    peer_disconnected, playback_after, push_chat, reference, register, register_all, roster_for,
    stale, stalest, step, tick, ui_commands, NoticeView, OutputView, PeerView, RoomView,
};
use crate::state::{Input, MpvCommand, CHAT_RING_CAPACITY, DRIFT_HOLDOFF_MS};

verus! {

/// The ready gate tracks the peers: nobody outside the room holds it up, and
/// nobody in the room is missing from it.
pub open spec fn gate_tracks_peers(room: RoomView) -> bool {
    &&& forall|n: NodeId| #[trigger]
        room.gate.peers.contains_key(n) ==> n == room.local || room.peers.contains_key(n)
    &&& forall|n: NodeId| #[trigger] room.peers.contains_key(n) ==> room.gate.peers.contains_key(n)
}

/// No input leaves a ghost in the ready gate: where it tracks the peers, it
/// still does after any input.
pub proof fn law_gate_tracks_peers(room: RoomView, input: Input)
    requires
        gate_tracks_peers(room),
    ensures
        gate_tracks_peers(step(room, input).0),
{
    match input {
        Input::FrameReceived { frame, .. } => {
            match frame@ {
                FrameView::Presence(p) => {
                    if let PresenceEventView::PeerList { peers } = p {
                        let sampled = crate::room::sample_rtt(
                            room,
                            input->FrameReceived_from,
                            input->FrameReceived_rtt_sample_ms,
                        );
                        lemma_roster_keeps_tracking(sampled, peers);
                    }
                },
                _ => {},
            }
        },
        _ => {},
    }
}

/// In a new room the ready gate tracks the peers: there are none, and it waits
/// for ourselves.
pub proof fn law_new_room_tracks(local: NodeId, nickname: Seq<char>)
    ensures
        gate_tracks_peers(new_room(local, nickname)),
        new_room(local, nickname).gate.peers =~= map![local => false],
{
}

proof fn lemma_roster_keeps_tracking(room: RoomView, roster: Seq<RosterEntryView>)
    requires
        gate_tracks_peers(room),
    ensures
        gate_tracks_peers(register_all(room, roster)),
        register_all(room, roster).local == room.local,
    decreases roster.len(),
{
    if roster.len() > 0 {
        lemma_roster_keeps_tracking(room, roster.drop_last());
    }
}

/// The chat ring never grows beyond its capacity.
pub proof fn law_chat_is_bounded(room: RoomView, input: Input)
    requires
        room.chat.len() <= CHAT_RING_CAPACITY,
    ensures
        step(room, input).0.chat.len() <= CHAT_RING_CAPACITY,
{
    match input {
        Input::FrameReceived { from, frame, rtt_sample_ms, .. } => {
            if let FrameView::Presence(PresenceEventView::PeerList { peers }) = frame@ {
                lemma_roster_keeps_rest(
                    crate::room::sample_rtt(room, from, rtt_sample_ms),
                    peers,
                );
            }
        },
        _ => {},
    }
}

/// One more message becomes the last one; the ring keeps the order of the
/// others and only a full ring loses its oldest.
pub proof fn law_chat_keeps_newest(room: RoomView, msg: ChatMessageView)
    requires
        room.chat.len() <= CHAT_RING_CAPACITY,
    ensures
        push_chat(room, msg).chat.last() == msg,
        push_chat(room, msg).chat.drop_last() == if room.chat.len() == CHAT_RING_CAPACITY {
            room.chat.skip(1)
        } else {
            room.chat
        },
{
    assert(push_chat(room, msg).chat.drop_last() =~= if room.chat.len() == CHAT_RING_CAPACITY {
        room.chat.skip(1)
    } else {
        room.chat
    });
}

pub proof fn lemma_roster_keeps_rest(room: RoomView, roster: Seq<RosterEntryView>)
    ensures
        register_all(room, roster) == (RoomView {
            peers: register_all(room, roster).peers,
            gate: register_all(room, roster).gate,
            ..room
        }),
        register_all(room, roster).gate.override_enabled == room.gate.override_enabled,
    decreases roster.len(),
{
    if roster.len() > 0 {
        lemma_roster_keeps_rest(room, roster.drop_last());
    }
}

/// Who we are never changes.
pub proof fn law_identity_is_fixed(room: RoomView, input: Input)
    ensures
        step(room, input).0.local == room.local,
        step(room, input).0.local_nickname == room.local_nickname,
{
    match input {
        Input::FrameReceived { from, frame, rtt_sample_ms, .. } => {
            if let FrameView::Presence(PresenceEventView::PeerList { peers }) = frame@ {
                lemma_roster_keeps_rest(
                    crate::room::sample_rtt(room, from, rtt_sample_ms),
                    peers,
                );
            }
        },
        _ => {},
    }
}

/// A control event applied or discarded once is dropped when it comes again
/// from the same peer, and so is any event with an older number; a drop
/// changes nothing.
pub proof fn law_repeats_are_dropped(
    room: RoomView,
    from: NodeId,
    ev: ControlEventView,
    received_at_ms: u64,
    again: ControlEventView,
    again_at_ms: u64,
)
    requires
        room.peers.contains_key(from),
        again.seq <= ev.seq,
    ensures
        ({
            let after = inbound_control(room, from, ev, received_at_ms).0;
            inbound_control(after, from, again, again_at_ms) == (
                after,
                seq![
                    OutputView::Notify(
                        NoticeView::DuplicateDropped { peer: from, seq: again.seq },
                    ),
                ],
            )
        }),
{
}

/// A control event with a number that was seen before is dropped with a notice,
/// whether or not it would lose a conflict, and changes nothing.
pub proof fn law_duplicates_change_nothing(
    room: RoomView,
    from: NodeId,
    ev: ControlEventView,
    received_at_ms: u64,
)
    requires
        is_duplicate(room, from, ev.seq),
    ensures
        inbound_control(room, from, ev, received_at_ms) == (
            room,
            seq![
                OutputView::Notify(NoticeView::DuplicateDropped { peer: from, seq: ev.seq }),
            ],
        ),
{
}

/// A control event that loses a conflict is discarded with a notice. All that
/// changes is the last number seen from its sender.
pub proof fn law_discarded_events_change_only_the_number(
    room: RoomView,
    from: NodeId,
    ev: ControlEventView,
    received_at_ms: u64,
    other: NodeId,
)
    requires
        !is_duplicate(room, from, ev.seq),
        is_superseded(room, ev),
    ensures
        ({
            let (after, outs) = inbound_control(room, from, ev, received_at_ms);
            &&& outs == seq![
                OutputView::Notify(NoticeView::ConflictDiscarded { from, seq: ev.seq }),
            ]
            &&& after == (RoomView { peers: after.peers, ..room })
            &&& after.peers.dom() == room.peers.dom()
            &&& room.peers.contains_key(from) ==> after.peers[from] == (PeerView {
                last_applied_seq: Some(ev.seq),
                ..room.peers[from]
            })
            &&& other != from && room.peers.contains_key(other) ==> after.peers[other]
                == room.peers[other]
        }),
{
    assert(inbound_control(room, from, ev, received_at_ms).0.peers.dom() =~= room.peers.dom());
}

/// A control event of ours among the outputs carries a number never used
/// before, and our origin.
pub open spec fn freshly_numbered(room: RoomView, next: RoomView, out: OutputView) -> bool {
    match out {
        OutputView::Broadcast(FrameView::Control(ev)) => ev.origin == room.local && ev.seq
            == next.local_seq && ev.seq > room.local_seq,
        OutputView::SendTo { frame: FrameView::Control(ev), .. } => ev.origin == room.local
            && ev.seq == next.local_seq && ev.seq > room.local_seq,
        _ => true,
    }
}

/// Every control event that we send carries a number larger than all before.
pub proof fn law_sequence_numbers_increase(room: RoomView, input: Input)
    requires
        can_step(room, input),
    ensures
        step(room, input).0.local_seq >= room.local_seq,
        forall|i: int|
            0 <= i < step(room, input).1.len() ==> freshly_numbered(
                room,
                step(room, input).0,
                #[trigger] step(room, input).1[i],
            ),
{
    match input {
        Input::FrameReceived { from, frame, rtt_sample_ms, .. } => {
            if let FrameView::Presence(PresenceEventView::PeerList { peers }) = frame@ {
                lemma_roster_keeps_rest(
                    crate::room::sample_rtt(room, from, rtt_sample_ms),
                    peers,
                );
            }
        },
        _ => {},
    }
}

/// `n` is the better drift reference of the two: it was heard from later, or at
/// the same time and has the smaller identifier.
pub open spec fn fresher(room: RoomView, n: NodeId, m: NodeId) -> bool {
    heard_at(room, m) < heard_at(room, n) || (heard_at(room, m) == heard_at(room, n) && n.before(m))
}

/// There is only one drift reference.
pub proof fn law_reference_is_unique(room: RoomView, n: NodeId, now_ms: u64)
    requires
        is_reference(room, n, now_ms),
    ensures
        reference(room, now_ms) == Some(n),
{
    let m = choose|m: NodeId| is_reference(room, m, now_ms);
    if m != n {
        assert(eligible(room, m, now_ms) && eligible(room, n, now_ms));
        if n.before(m) {
            lemma_before_asymmetric(n, m);
        }
    }
}

/// Wherever a peer is eligible there is a drift reference, and it is at least
/// as fresh as that peer.
pub proof fn law_eligible_peer_gives_reference(room: RoomView, n: NodeId, now_ms: u64)
    requires
        room.peers.dom().finite(),
        eligible(room, n, now_ms),
    ensures
        reference(room, now_ms) is Some,
        is_reference(room, reference(room, now_ms)->0, now_ms),
        reference(room, now_ms) == Some(n) || fresher(room, reference(room, now_ms)->0, n),
{
    let best = lemma_freshest(room, room.peers.dom(), n, now_ms);
    assert forall|m: NodeId| #[trigger] eligible(room, m, now_ms) && m != best implies fresher(
        room,
        best,
        m,
    ) by {
        assert(room.peers.dom().contains(m));
    }
    assert(is_reference(room, best, now_ms));
}

/// Among finitely many nodes, one of them eligible, there is a freshest one.
proof fn lemma_freshest(room: RoomView, s: Set<NodeId>, n: NodeId, now_ms: u64) -> (best: NodeId)
    requires
        s.finite(),
        s.contains(n),
        eligible(room, n, now_ms),
    ensures
        s.contains(best),
        eligible(room, best, now_ms),
        forall|m: NodeId| #[trigger]
            s.contains(m) && eligible(room, m, now_ms) && m != best ==> fresher(room, best, m),
    decreases s.len(),
{
    let rest = s.remove(n);
    if exists|m: NodeId| #[trigger] rest.contains(m) && eligible(room, m, now_ms) {
        let m = choose|m: NodeId| #[trigger] rest.contains(m) && eligible(room, m, now_ms);
        let b = lemma_freshest(room, rest, m, now_ms);
        lemma_before_total(n, b);
        let best = if fresher(room, n, b) {
            n
        } else {
            b
        };
        assert forall|k: NodeId| #[trigger]
            s.contains(k) && eligible(room, k, now_ms) && k != best implies fresher(
            room,
            best,
            k,
        ) by {
            if k != n {
                assert(rest.contains(k));
                if best == n && k != b && n.before(b) && b.before(k) {
                    lemma_before_transitive(n, b, k);
                }
            }
        }
        best
    } else {
        assert forall|k: NodeId| #[trigger]
            s.contains(k) && eligible(room, k, now_ms) && k != n implies fresher(room, n, k) by {
            assert(rest.contains(k));
        }
        n
    }
}

/// There is only one stalest peer.
pub proof fn law_stalest_is_unique(room: RoomView, n: NodeId, now_ms: u64)
    requires
        is_stalest(room, n, now_ms),
    ensures
        stalest(room, now_ms) == Some(n),
{
    let m = choose|m: NodeId| is_stalest(room, m, now_ms);
    if m != n {
        assert(stale(room, m, now_ms) && stale(room, n, now_ms));
        if n.before(m) {
            lemma_before_asymmetric(n, m);
        }
    }
}

/// Wherever a peer is stale there is a stalest one, at least as silent as that
/// peer.
pub proof fn law_stale_peer_gives_stalest(room: RoomView, n: NodeId, now_ms: u64)
    requires
        room.peers.dom().finite(),
        stale(room, n, now_ms),
    ensures
        stalest(room, now_ms) is Some,
        is_stalest(room, stalest(room, now_ms)->0, now_ms),
        age(room, n, now_ms) <= age(room, stalest(room, now_ms)->0, now_ms),
{
    let worst = lemma_most_silent(room, room.peers.dom(), n, now_ms);
    assert forall|m: NodeId| #[trigger] stale(room, m, now_ms) && m != worst implies age(
        room,
        m,
        now_ms,
    ) < age(room, worst, now_ms) || (age(room, m, now_ms) == age(room, worst, now_ms)
        && m.before(worst)) by {
        assert(room.peers.dom().contains(m));
    }
    assert(is_stalest(room, worst, now_ms));
}

/// Among finitely many nodes, one of them stale, there is a most silent one.
proof fn lemma_most_silent(room: RoomView, s: Set<NodeId>, n: NodeId, now_ms: u64) -> (worst:
    NodeId)
    requires
        s.finite(),
        s.contains(n),
        stale(room, n, now_ms),
    ensures
        s.contains(worst),
        stale(room, worst, now_ms),
        forall|m: NodeId| #[trigger]
            s.contains(m) && stale(room, m, now_ms) && m != worst ==> age(room, m, now_ms) < age(
                room,
                worst,
                now_ms,
            ) || (age(room, m, now_ms) == age(room, worst, now_ms) && m.before(worst)),
    decreases s.len(),
{
    let rest = s.remove(n);
    if exists|m: NodeId| #[trigger] rest.contains(m) && stale(room, m, now_ms) {
        let m = choose|m: NodeId| #[trigger] rest.contains(m) && stale(room, m, now_ms);
        let w = lemma_most_silent(room, rest, m, now_ms);
        lemma_before_total(n, w);
        let worst = if age(room, w, now_ms) < age(room, n, now_ms) || (age(room, w, now_ms) == age(
            room,
            n,
            now_ms,
        ) && w.before(n)) {
            n
        } else {
            w
        };
        assert forall|k: NodeId| #[trigger]
            s.contains(k) && stale(room, k, now_ms) && k != worst implies age(room, k, now_ms)
            < age(room, worst, now_ms) || (age(room, k, now_ms) == age(room, worst, now_ms)
            && k.before(worst)) by {
            if k != n {
                assert(rest.contains(k));
                if worst == n && k != w && k.before(w) && w.before(n) {
                    lemma_before_transitive(k, w, n);
                }
            }
        }
        worst
    } else {
        assert forall|k: NodeId| #[trigger]
            s.contains(k) && stale(room, k, now_ms) && k != n implies age(room, k, now_ms) < age(
            room,
            n,
            now_ms,
        ) by {
            assert(rest.contains(k));
        }
        n
    }
}

/// Inside the hold-off window a tick sends the heartbeat and nothing else.
pub proof fn law_no_correction_in_holdoff(room: RoomView, now_ms: u64)
    requires
        held_off(room, now_ms),
    ensures
        tick(room, now_ms).0 == room,
        tick(room, now_ms).1.len() == 1,
        tick(room, now_ms).1[0] is Broadcast,
{
}

/// Also after the hold-off window, no heartbeat that arrived at or before the
/// last position event leads to a correction: where there are no others, a tick
/// commands nothing.
pub proof fn law_no_correction_by_old_heartbeats(room: RoomView, at_ms: u64, now_ms: u64)
    requires
        room.last_pos_control_at_ms == Some(at_ms),
        forall|n: NodeId| #[trigger] heard_from(room, n) ==> heard_at(room, n) <= at_ms,
    ensures
        tick(room, now_ms).0 == room,
        forall|i: int|
            0 <= i < tick(room, now_ms).1.len() ==> !(#[trigger] tick(room, now_ms).1[i] is Mpv),
{
    assert forall|n: NodeId| !is_reference(room, n, now_ms) by {
        if is_reference(room, n, now_ms) {
            assert(heard_from(room, n));
        }
    }
    assert(reference(room, now_ms) is None);
}

/// The drift reference was heard from after the last position event.
pub proof fn law_reference_is_newer_than_position_event(room: RoomView, n: NodeId, now_ms: u64)
    requires
        reference(room, now_ms) == Some(n),
        room.last_pos_control_at_ms is Some,
    ensures
        heard_from(room, n),
        heard_at(room, n) > room.last_pos_control_at_ms->0,
{
    assert(is_reference(room, n, now_ms));
}

/// After a local or UI action that moves the position, drift correction is
/// held off for the whole window.
pub proof fn law_local_position_event_holds_off(
    room: RoomView,
    action: ControlActionView,
    at_ms: u64,
    emit_mpv: bool,
    now_ms: u64,
)
    requires
        carries_position(action),
        at_ms <= u64::MAX - DRIFT_HOLDOFF_MS,
        now_ms < at_ms + DRIFT_HOLDOFF_MS,
    ensures
        held_off(local_control(room, action, at_ms, emit_mpv).0, now_ms),
{
}

/// After an inbound position event that is applied, drift correction is held
/// off for the whole window.
pub proof fn law_inbound_position_event_holds_off(
    room: RoomView,
    from: NodeId,
    ev: ControlEventView,
    at_ms: u64,
    now_ms: u64,
)
    requires
        carries_position(ev.action),
        !is_duplicate(room, from, ev.seq),
        !is_superseded(room, ev),
        at_ms <= u64::MAX - DRIFT_HOLDOFF_MS,
        now_ms < at_ms + DRIFT_HOLDOFF_MS,
    ensures
        held_off(inbound_control(room, from, ev, at_ms).0, now_ms),
{
}

/// A tick seeks only toward a peer with a smaller identifier, and a seek opens
/// a hold-off window of its own.
pub proof fn law_seek_only_toward_smaller(room: RoomView, now_ms: u64, i: int)
    requires
        0 <= i < tick(room, now_ms).1.len(),
        tick(room, now_ms).1[i] matches OutputView::Mpv(MpvCommand::Seek { .. }),
    ensures
        reference(room, now_ms) is Some,
        reference(room, now_ms)->0.before(room.local),
        tick(room, now_ms).0.last_pos_control_at_ms == Some(now_ms),
{
}

/// Two peers never seek toward each other: at most one side of a pair has
/// drift correction seek.
pub proof fn law_no_mutual_seek(a: RoomView, b: RoomView, at_a: u64, at_b: u64)
    requires
        reference(a, at_a) == Some(b.local),
        reference(b, at_b) == Some(a.local),
    ensures
        drift_seek(a, at_a) is None || drift_seek(b, at_b) is None,
{
    if drift_seek(a, at_a) is Some && drift_seek(b, at_b) is Some {
        lemma_before_asymmetric(b.local, a.local);
    }
}

/// An edge that mpv reported is broadcast, and nothing else happens. An action
/// from our UI drives the player first and is broadcast alike, and both change
/// the room alike.
pub proof fn law_mpv_edge_sends_no_command(room: RoomView, action: ControlActionView, now_ms: u64)
    ensures
        ({
            let event = OutputView::Broadcast(
                FrameView::Control(own_event(room, action, now_ms)),
            );
            &&& local_control(room, action, now_ms, false).1 == seq![event]
            &&& local_control(room, action, now_ms, true).1 == ui_commands(action).push(event)
        }),
        local_control(room, action, now_ms, true).0 == local_control(
            room,
            action,
            now_ms,
            false,
        ).0,
{
    assert(local_control(room, action, now_ms, false).1 =~= seq![
        OutputView::Broadcast(FrameView::Control(own_event(room, action, now_ms))),
    ]);
}

/// Two conflicting events lead to the same playback and the same survivor,
/// whichever of them arrives first: the one with the smaller timestamp and
/// origin.
pub proof fn law_conflict_converges(
    room: RoomView,
    from_a: NodeId,
    a: ControlEventView,
    from_b: NodeId,
    b: ControlEventView,
    t1: u64,
    t2: u64,
)
    requires
        from_a != from_b,
        conflicting(a, b),
        takes_priority(a, b),
        !is_duplicate(room, from_a, a.seq),
        !is_duplicate(room, from_b, b.seq),
        !is_superseded(room, a),
        !is_superseded(room, b),
    ensures
        ({
            let ab = inbound_control(
                inbound_control(room, from_a, a, t1).0,
                from_b,
                b,
                t2,
            ).0;
            let ba = inbound_control(
                inbound_control(room, from_b, b, t1).0,
                from_a,
                a,
                t2,
            ).0;
            &&& ab.last_applied_control == Some(a)
            &&& ba.last_applied_control == Some(a)
            &&& ab.local_playback == playback_after(room.local_playback, a.action)
            &&& ba.local_playback == ab.local_playback
            &&& ab.peers == ba.peers
            &&& ab.gate == ba.gate
        }),
{
    if b.origin.before(a.origin) {
        lemma_before_asymmetric(b.origin, a.origin);
    }
    crate::node_id::lemma_before_irreflexive(a.origin);
    assert(outcome(a, b) is Discard);
    assert(outcome(b, a) is Apply);
    let ab = inbound_control(inbound_control(room, from_a, a, t1).0, from_b, b, t2).0;
    let ba = inbound_control(inbound_control(room, from_b, b, t1).0, from_a, a, t2).0;
    assert(ab.peers =~= ba.peers);
}

/// Two peers that play alike and act at the same moment agree again once each
/// has heard of the other's action: the same event survives on both sides.
pub proof fn law_simultaneous_actions_converge(
    a: RoomView,
    b: RoomView,
    action_a: ControlActionView,
    action_b: ControlActionView,
    at_a: u64,
    at_b: u64,
    heard_by_a: u64,
    heard_by_b: u64,
    emit_mpv: bool,
)
    requires
        a.local != b.local,
        a.local_playback == b.local_playback,
        conflicting(own_event(a, action_a, at_a), own_event(b, action_b, at_b)),
        !is_duplicate(a, b.local, own_event(b, action_b, at_b).seq),
        !is_duplicate(b, a.local, own_event(a, action_a, at_a).seq),
    ensures
        ({
            let ev_a = own_event(a, action_a, at_a);
            let ev_b = own_event(b, action_b, at_b);
            let next_a = inbound_control(
                local_control(a, action_a, at_a, emit_mpv).0,
                b.local,
                ev_b,
                heard_by_a,
            ).0;
            let next_b = inbound_control(
                local_control(b, action_b, at_b, emit_mpv).0,
                a.local,
                ev_a,
                heard_by_b,
            ).0;
            &&& next_a.local_playback == next_b.local_playback
            &&& next_a.last_applied_control == next_b.last_applied_control
            &&& next_a.last_applied_control == Some(ev_a) || next_a.last_applied_control == Some(
                ev_b,
            )
        }),
{
    lemma_before_total(a.local, b.local);
    if a.local.before(b.local) {
        lemma_before_asymmetric(a.local, b.local);
    } else {
        lemma_before_asymmetric(b.local, a.local);
    }
}

/// A peer that comes back keeps its readiness.
pub proof fn law_rejoin_keeps_readiness(room: RoomView, node: NodeId, nickname: Seq<char>)
    requires
        room.gate.peers.contains_key(node),
    ensures
        register(room, node, nickname).gate == room.gate,
{
}

/// A peer that is announced again keeps all that is known of it but the
/// nickname, and announcing it once more changes nothing.
pub proof fn law_rejoin_changes_only_the_nickname(
    room: RoomView,
    node: NodeId,
    nickname: Seq<char>,
)
    requires
        room.peers.contains_key(node),
        room.gate.peers.contains_key(node),
    ensures
        ({
            let join = PresenceEventView::Join { node, nickname };
            let after = inbound_presence(room, join);
            &&& after == (RoomView {
                peers: room.peers.insert(node, PeerView { nickname, ..room.peers[node] }),
                ..room
            })
            &&& inbound_presence(after, join) == after
        }),
{
    let join = PresenceEventView::Join { node, nickname };
    let after = inbound_presence(room, join);
    assert(inbound_presence(after, join).peers =~= after.peers);
}

/// The nickname that a roster gives a node: that of its last entry for it.
pub open spec fn roster_nickname(roster: Seq<RosterEntryView>, node: NodeId) -> Option<Seq<char>>
    decreases roster.len(),
{
    if roster.len() == 0 {
        None
    } else if roster.last().0 == node {
        Some(roster.last().1)
    } else {
        roster_nickname(roster.drop_last(), node)
    }
}

/// The only entry for a node gives its nickname.
pub proof fn law_only_entry_gives_nickname(roster: Seq<RosterEntryView>, i: int)
    requires
        0 <= i < roster.len(),
        forall|j: int| 0 <= j < roster.len() && j != i ==> (#[trigger] roster[j]).0 != roster[i].0,
    ensures
        roster_nickname(roster, roster[i].0) == Some(roster[i].1),
    decreases roster.len(),
{
    if i < roster.len() - 1 {
        let rest = roster.drop_last();
        assert(roster[roster.len() - 1].0 != roster[i].0);
        assert forall|j: int| 0 <= j < rest.len() && j != i implies (#[trigger] rest[j]).0
            != rest[i].0 by {
            assert(rest[j] == roster[j]);
        }
        law_only_entry_gives_nickname(rest, i);
    }
}

/// What a roster does to one node. A node that is on it, and is not ourselves,
/// is in the room under the nickname given there: if it was known, all that was
/// known of it stays, its readiness included; else it starts out fresh and not
/// ready. Nothing changes for other nodes.
pub proof fn law_roster_keeps_what_is_known(
    room: RoomView,
    roster: Seq<RosterEntryView>,
    node: NodeId,
)
    ensures
        ({
            let after = register_all(room, roster);
            match roster_nickname(roster, node) {
                Some(nickname) if node != room.local => {
                    &&& after.peers.contains_key(node)
                    &&& after.peers[node] == if room.peers.contains_key(node) {
                        PeerView { nickname, ..room.peers[node] }
                    } else {
                        fresh_peer(nickname)
                    }
                    &&& after.gate.peers.contains_key(node)
                    &&& after.gate.peers[node] == (room.gate.peers.contains_key(node)
                        && room.gate.peers[node])
                },
                _ => {
                    &&& after.peers.contains_key(node) == room.peers.contains_key(node)
                    &&& after.peers[node] == room.peers[node]
                    &&& after.gate.peers.contains_key(node) == room.gate.peers.contains_key(node)
                    &&& after.gate.peers[node] == room.gate.peers[node]
                },
            }
        }),
    decreases roster.len(),
{
    if roster.len() > 0 {
        law_roster_keeps_what_is_known(room, roster.drop_last(), node);
    }
}

/// A roster that comes again changes nothing.
pub proof fn law_repeated_roster_changes_nothing(room: RoomView, roster: Seq<RosterEntryView>)
    ensures
        register_all(register_all(room, roster), roster) == register_all(room, roster),
{
    let once = register_all(room, roster);
    let twice = register_all(once, roster);
    lemma_roster_keeps_rest(room, roster);
    lemma_roster_keeps_rest(once, roster);
    assert forall|n: NodeId| #[trigger]
        once.peers.dom().contains(n) == twice.peers.dom().contains(n) && once.peers[n]
            == twice.peers[n] by {
        law_roster_keeps_what_is_known(room, roster, n);
        law_roster_keeps_what_is_known(once, roster, n);
    }
    assert forall|n: NodeId| #[trigger]
        once.gate.peers.dom().contains(n) == twice.gate.peers.dom().contains(n)
            && once.gate.peers[n] == twice.gate.peers[n] by {
        law_roster_keeps_what_is_known(room, roster, n);
        law_roster_keeps_what_is_known(once, roster, n);
    }
    assert(once.peers.dom() =~= twice.peers.dom());
    assert(once.peers =~= twice.peers);
    assert(once.gate.peers.dom() =~= twice.gate.peers.dom());
    assert(once.gate.peers =~= twice.gate.peers);
}

/// The roster that a joining peer gets names us first and nowhere else, as long
/// as nobody announced us as our own peer; and it does not name the joiner.
pub proof fn law_roster_names_us_once(room: RoomView, joiner: NodeId, i: int)
    requires
        room.peers.dom().finite(),
        !room.peers.contains_key(room.local),
        joiner != room.local,
        0 < i < roster_for(room, joiner).len(),
    ensures
        roster_for(room, joiner)[0].0 == room.local,
        roster_for(room, joiner)[i].0 != room.local,
        roster_for(room, joiner)[i].0 != joiner,
{
    let others = room.peers.dom().remove(joiner);
    law_finite_sets_are_listed(others);
    let n = listing(others)[i - 1];
    assert(listing(others).contains(n));
    assert(others.contains(n));
    assert(roster_for(room, joiner)[i].0 == n);
}

/// A heartbeat or a readiness report of an unknown node changes nothing.
pub proof fn law_unknown_nodes_are_ignored(
    room: RoomView,
    from: NodeId,
    hb: StateHeartbeatView,
    received_at_ms: u64,
    ready: bool,
)
    requires
        from != room.local,
        !room.peers.contains_key(from),
    ensures
        inbound_heartbeat(room, from, hb, received_at_ms).0 == room,
        inbound_presence(room, PresenceEventView::Ready { node: from, ready }) == room,
{
}

/// A peer that disconnects is forgotten, also by the ready gate.
pub proof fn law_disconnect_forgets(room: RoomView, node: NodeId)
    ensures
        !peer_disconnected(room, node).0.peers.contains_key(node),
        !peer_disconnected(room, node).0.gate.peers.contains_key(node),
{
}

/// A peer without media never tells a joiner where to seek.
pub proof fn law_no_media_no_seek(
    room: RoomView,
    node: NodeId,
    nickname: Seq<char>,
    now_ms: u64,
    i: int,
)
    requires
        room.local_media is None,
        0 <= i < peer_connected(room, node, nickname, now_ms).1.len(),
    ensures
        !(peer_connected(room, node, nickname, now_ms).1[i] matches OutputView::SendTo {
            frame: FrameView::Control(_),
            ..
        }),
        peer_connected(room, node, nickname, now_ms).0.local_seq == room.local_seq,
{
}

} // verus!
