//! The room as a mathematical state machine.
//!
//! [`RoomView`] is what a peer knows of the room; [`step`] says how one input
//! changes it and which effects come out. [`crate::state::RoomState`] computes
//! exactly this.

use vstd::prelude::*;

use crate::conflict::outcome;
use crate::drift::{drift_action, drift_in_range, DriftAction, LocalPlayback, ReferencePeer};
use crate::media::{media_match, MatchResult};
use crate::node_id::NodeId;
use crate::node_map::listing;
use crate::protocol::{
    ChatMessageView, ControlActionView, ControlEventView, FrameView, MediaIdView, PresenceEventView,
    RosterEntryView, StateHeartbeatView,
};
use crate::ready::ReadyGateView;
use crate::rtt::RttEstimator;
use crate::state::{
    Input, MpvCommand, PlaybackState, CHAT_RING_CAPACITY, DRIFT_HOLDOFF_MS, SPEED_DOWN_CENTI,
    SPEED_NORMAL_CENTI, SPEED_UP_CENTI, STALE_HEARTBEAT_MS,
};

verus! {

/// What is known of one peer.
pub struct PeerView {
    pub nickname: Seq<char>,
    pub rtt: RttEstimator,
    pub last_heartbeat: Option<StateHeartbeatView>,
    pub last_heartbeat_received_at_ms: u64,
    pub last_applied_seq: Option<u64>,
}

/// What a peer knows of the room.
pub struct RoomView {
    pub local: NodeId,
    pub local_seq: u64,
    pub local_nickname: Seq<char>,
    pub local_playback: PlaybackState,
    pub local_media: Option<MediaIdView>,
    pub peers: Map<NodeId, PeerView>,
    pub gate: ReadyGateView,
    pub local_ready: bool,
    pub last_applied_control: Option<ControlEventView>,
    pub last_pos_control_at_ms: Option<u64>,
    pub chat: Seq<ChatMessageView>,
}

/// What a notice says.
pub enum NoticeView {
    MediaMismatch {
        peer: NodeId,
        severity: MatchResult,
        peer_media: MediaIdView,
        our_media: Option<MediaIdView>,
    },
    DuplicateDropped { peer: NodeId, seq: u64 },
    ConflictDiscarded { from: NodeId, seq: u64 },
    StaleReferenceSkipped { peer: NodeId },
}

/// What an output says.
pub enum OutputView {
    Broadcast(FrameView),
    SendTo { to: NodeId, frame: FrameView },
    Mpv(MpvCommand),
    Notify(NoticeView),
}

/// The room of a peer that has just started.
pub open spec fn new_room(local: NodeId, nickname: Seq<char>) -> RoomView {
    RoomView {
        local,
        local_seq: 0,
        local_nickname: nickname,
        local_playback: PlaybackState {
            media_pos_ms: 0,
            paused: true,
            speed_centi: SPEED_NORMAL_CENTI,
        },
        local_media: None,
        peers: Map::empty(),
        gate: ReadyGateView::empty().set(local, false),
        local_ready: false,
        last_applied_control: None,
        last_pos_control_at_ms: None,
        chat: Seq::empty(),
    }
}

// --- Ticks ---

/// A sum that stops at the largest `u64`.
pub open spec fn plus_saturating(a: u64, b: u64) -> int {
    if a + b <= u64::MAX {
        a + b
    } else {
        u64::MAX as int
    }
}

/// Time passed since `then`, or zero if `then` lies in the future.
pub open spec fn since(now_ms: u64, then_ms: u64) -> int {
    if now_ms >= then_ms {
        now_ms - then_ms
    } else {
        0
    }
}

/// Our heartbeat.
pub open spec fn own_heartbeat(room: RoomView, now_ms: u64) -> StateHeartbeatView {
    StateHeartbeatView {
        origin: room.local,
        origin_ts_ms: now_ms,
        media_pos_ms: room.local_playback.media_pos_ms,
        paused: room.local_playback.paused,
        speed_centi: room.local_playback.speed_centi,
        ready: room.local_ready,
        media_id: room.local_media,
    }
}

/// A position-carrying control event happened too recently for drift
/// correction.
pub open spec fn held_off(room: RoomView, now_ms: u64) -> bool {
    match room.last_pos_control_at_ms {
        Some(t) => now_ms < plus_saturating(t, DRIFT_HOLDOFF_MS),
        None => false,
    }
}

/// `n` has sent a heartbeat.
pub open spec fn heard_from(room: RoomView, n: NodeId) -> bool {
    room.peers.contains_key(n) && room.peers[n].last_heartbeat is Some
}

/// When the last heartbeat of `n` arrived.
pub open spec fn heard_at(room: RoomView, n: NodeId) -> u64 {
    room.peers[n].last_heartbeat_received_at_ms
}

/// How long ago the last heartbeat of `n` arrived.
pub open spec fn age(room: RoomView, n: NodeId, now_ms: u64) -> int {
    since(now_ms, heard_at(room, n))
}

/// The last heartbeat of `n` can serve as a drift reference: it is not stale,
/// and it arrived after the last position-carrying control event.
pub open spec fn eligible(room: RoomView, n: NodeId, now_ms: u64) -> bool {
    &&& heard_from(room, n)
    &&& age(room, n, now_ms) <= STALE_HEARTBEAT_MS
    &&& match room.last_pos_control_at_ms {
        Some(t) => heard_at(room, n) > t,
        None => true,
    }
}

/// `n` is the drift reference: of the eligible peers it was heard from last,
/// and among those heard from at the same time it has the smallest identifier.
pub open spec fn is_reference(room: RoomView, n: NodeId, now_ms: u64) -> bool {
    &&& eligible(room, n, now_ms)
    &&& forall|m: NodeId| #[trigger]
        eligible(room, m, now_ms) && m != n ==> heard_at(room, m) < heard_at(room, n) || (heard_at(
            room,
            m,
        ) == heard_at(room, n) && n.before(m))
}

/// The drift reference, if any peer is eligible.
pub open spec fn reference(room: RoomView, now_ms: u64) -> Option<NodeId> {
    if exists|n: NodeId| is_reference(room, n, now_ms) {
        Some(choose|n: NodeId| is_reference(room, n, now_ms))
    } else {
        None
    }
}

/// What the drift calculator gets to know of peer `n`.
pub open spec fn reference_peer(room: RoomView, n: NodeId) -> ReferencePeer {
    let hb = room.peers[n].last_heartbeat->0;
    ReferencePeer {
        media_pos_ms: hb.media_pos_ms,
        received_at_ms: heard_at(room, n),
        paused: hb.paused,
        one_way_ms: room.peers[n].rtt.one_way(),
        speed_centi: hb.speed_centi,
    }
}

/// What the drift calculator gets to know of us.
pub open spec fn own_playback(room: RoomView) -> LocalPlayback {
    LocalPlayback {
        media_pos_ms: room.local_playback.media_pos_ms,
        paused: room.local_playback.paused,
    }
}

/// The last heartbeat of `n` is too old to use.
pub open spec fn stale(room: RoomView, n: NodeId, now_ms: u64) -> bool {
    heard_from(room, n) && age(room, n, now_ms) > STALE_HEARTBEAT_MS
}

/// `n` is the stalest peer: it was silent for longest, and among those equally
/// silent it has the largest identifier.
pub open spec fn is_stalest(room: RoomView, n: NodeId, now_ms: u64) -> bool {
    &&& stale(room, n, now_ms)
    &&& forall|m: NodeId| #[trigger]
        stale(room, m, now_ms) && m != n ==> age(room, m, now_ms) < age(room, n, now_ms) || (age(
            room,
            m,
            now_ms,
        ) == age(room, n, now_ms) && m.before(n))
}

/// The stalest peer, if any peer is stale.
pub open spec fn stalest(room: RoomView, now_ms: u64) -> Option<NodeId> {
    if exists|n: NodeId| is_stalest(room, n, now_ms) {
        Some(choose|n: NodeId| is_stalest(room, n, now_ms))
    } else {
        None
    }
}

/// An mpv speed command.
pub open spec fn set_speed(speed_centi: u16) -> OutputView {
    OutputView::Mpv(MpvCommand::SetSpeed { speed_centi })
}

/// An mpv seek command.
pub open spec fn seek_to(media_pos_ms: u64) -> OutputView {
    OutputView::Mpv(MpvCommand::Seek { media_pos_ms })
}

/// Drift correction calls for a seek, and it falls to us: of two peers only the
/// one with the larger identifier seeks toward the other.
pub open spec fn drift_seek(room: RoomView, now_ms: u64) -> Option<u64> {
    match reference(room, now_ms) {
        Some(n) => match drift_action(reference_peer(room, n), own_playback(room), now_ms) {
            DriftAction::Seek { target_ms } => if !held_off(room, now_ms) && n.before(room.local) {
                Some(target_ms)
            } else {
                None
            },
            _ => None,
        },
        None => None,
    }
}

/// What drift correction does on a tick.
pub open spec fn correction(room: RoomView, now_ms: u64) -> Seq<OutputView> {
    if held_off(room, now_ms) {
        seq![]
    } else {
        match reference(room, now_ms) {
            Some(n) => match drift_action(reference_peer(room, n), own_playback(room), now_ms) {
                DriftAction::NoAction => if room.local_playback.speed_centi != SPEED_NORMAL_CENTI {
                    seq![set_speed(SPEED_NORMAL_CENTI)]
                } else {
                    seq![]
                },
                DriftAction::Slowdown => seq![set_speed(SPEED_DOWN_CENTI)],
                DriftAction::Speedup => seq![set_speed(SPEED_UP_CENTI)],
                DriftAction::Seek { target_ms } => if n.before(room.local) {
                    seq![seek_to(target_ms)]
                } else if room.local_playback.media_pos_ms > target_ms {
                    seq![set_speed(SPEED_DOWN_CENTI)]
                } else {
                    seq![set_speed(SPEED_UP_CENTI)]
                },
            },
            None => match stalest(room, now_ms) {
                Some(n) => seq![OutputView::Notify(NoticeView::StaleReferenceSkipped { peer: n })],
                None => seq![],
            },
        }
    }
}

/// One tick: send our heartbeat, then correct drift. A drift seek counts as a
/// position-carrying control event.
pub open spec fn tick(room: RoomView, now_ms: u64) -> (RoomView, Seq<OutputView>) {
    (
        match drift_seek(room, now_ms) {
            Some(_) => RoomView { last_pos_control_at_ms: Some(now_ms), ..room },
            None => room,
        },
        seq![OutputView::Broadcast(FrameView::Heartbeat(own_heartbeat(room, now_ms)))] + correction(
            room,
            now_ms,
        ),
    )
}

// --- Frames from peers ---

/// What is known of peer `n` changes to `p`, if `n` is known.
pub open spec fn update_peer(room: RoomView, n: NodeId, p: PeerView) -> RoomView {
    if room.peers.contains_key(n) {
        RoomView { peers: room.peers.insert(n, p), ..room }
    } else {
        room
    }
}

/// A round-trip sample for a known peer enters its estimate.
pub open spec fn sample_rtt(room: RoomView, from: NodeId, sample: Option<u32>) -> RoomView {
    match sample {
        Some(rtt) => update_peer(
            room,
            from,
            PeerView { rtt: room.peers[from].rtt.after(rtt), ..room.peers[from] },
        ),
        None => room,
    }
}

/// An event of this number or a later one was already seen from this peer.
pub open spec fn is_duplicate(room: RoomView, from: NodeId, seq: u64) -> bool {
    room.peers.contains_key(from) && match room.peers[from].last_applied_seq {
        Some(last) => seq <= last,
        None => false,
    }
}

/// The event loses against the last one applied.
pub open spec fn is_superseded(room: RoomView, ev: ControlEventView) -> bool {
    match room.last_applied_control {
        Some(prior) => outcome(prior, ev) is Discard,
        None => false,
    }
}

/// Event number `seq` of this peer has been seen.
pub open spec fn note_seq(room: RoomView, from: NodeId, seq: u64) -> RoomView {
    update_peer(room, from, PeerView { last_applied_seq: Some(seq), ..room.peers[from] })
}

/// Playback after an action.
pub open spec fn playback_after(
    playback: PlaybackState,
    action: ControlActionView,
) -> PlaybackState {
    match action {
        ControlActionView::Pause { media_pos_ms } => PlaybackState {
            paused: true,
            media_pos_ms,
            ..playback
        },
        ControlActionView::Play { media_pos_ms } => PlaybackState {
            paused: false,
            media_pos_ms,
            ..playback
        },
        ControlActionView::Seek { media_pos_ms } => PlaybackState { media_pos_ms, ..playback },
        ControlActionView::SetSpeed { speed_centi } => PlaybackState { speed_centi, ..playback },
        ControlActionView::MediaChanged { .. } => playback,
    }
}

/// The action moves the playback position.
pub open spec fn carries_position(action: ControlActionView) -> bool {
    action is Pause || action is Play || action is Seek
}

/// The warning that a peer's media calls for, given ours.
pub open spec fn mismatch(
    from: NodeId,
    ours: Option<MediaIdView>,
    theirs: MediaIdView,
) -> Seq<OutputView> {
    let severity = match ours {
        Some(m) => media_match(m, theirs),
        None => MatchResult::Different,
    };
    if severity is Identical {
        seq![]
    } else {
        seq![
            OutputView::Notify(
                NoticeView::MediaMismatch {
                    peer: from,
                    severity,
                    peer_media: theirs,
                    our_media: ours,
                },
            ),
        ]
    }
}

/// What an inbound action does to the local player, or the warning it causes.
pub open spec fn inbound_effects(
    room: RoomView,
    from: NodeId,
    action: ControlActionView,
) -> Seq<OutputView> {
    match action {
        ControlActionView::Pause { media_pos_ms } => seq![
            seek_to(media_pos_ms),
            OutputView::Mpv(MpvCommand::Pause(true)),
        ],
        ControlActionView::Play { media_pos_ms } => seq![
            seek_to(media_pos_ms),
            OutputView::Mpv(MpvCommand::Pause(false)),
        ],
        ControlActionView::Seek { media_pos_ms } => seq![seek_to(media_pos_ms)],
        ControlActionView::SetSpeed { speed_centi } => seq![set_speed(speed_centi)],
        ControlActionView::MediaChanged { id } => mismatch(from, room.local_media, id),
    }
}

/// A control event from a peer: repeats are dropped, losers of a conflict are
/// discarded, and everything else is applied.
pub open spec fn inbound_control(
    room: RoomView,
    from: NodeId,
    ev: ControlEventView,
    received_at_ms: u64,
) -> (RoomView, Seq<OutputView>) {
    if is_duplicate(room, from, ev.seq) {
        (
            room,
            seq![OutputView::Notify(NoticeView::DuplicateDropped { peer: from, seq: ev.seq })],
        )
    } else if is_superseded(room, ev) {
        (
            note_seq(room, from, ev.seq),
            seq![OutputView::Notify(NoticeView::ConflictDiscarded { from, seq: ev.seq })],
        )
    } else {
        (
            RoomView {
                local_playback: playback_after(room.local_playback, ev.action),
                last_pos_control_at_ms: if carries_position(ev.action) {
                    Some(received_at_ms)
                } else {
                    room.last_pos_control_at_ms
                },
                last_applied_control: Some(ev),
                ..note_seq(room, from, ev.seq)
            },
            inbound_effects(room, from, ev.action),
        )
    }
}

/// A heartbeat from a peer. Only a known peer's state is taken over; the media
/// check is made for any sender.
pub open spec fn inbound_heartbeat(
    room: RoomView,
    from: NodeId,
    hb: StateHeartbeatView,
    received_at_ms: u64,
) -> (RoomView, Seq<OutputView>) {
    (
        if room.peers.contains_key(from) {
            RoomView {
                peers: room.peers.insert(
                    from,
                    PeerView {
                        last_heartbeat: Some(hb),
                        last_heartbeat_received_at_ms: received_at_ms,
                        ..room.peers[from]
                    },
                ),
                gate: room.gate.set(from, hb.ready),
                ..room
            }
        } else {
            room
        },
        match hb.media_id {
            Some(theirs) => mismatch(from, room.local_media, theirs),
            None => seq![],
        },
    )
}

/// A peer of which only the nickname is known.
pub open spec fn fresh_peer(nickname: Seq<char>) -> PeerView {
    PeerView {
        nickname,
        rtt: RttEstimator::fresh(),
        last_heartbeat: None,
        last_heartbeat_received_at_ms: 0,
        last_applied_seq: None,
    }
}

/// `node` is in the room under this nickname. What was known of it, its
/// readiness included, stays.
pub open spec fn register(room: RoomView, node: NodeId, nickname: Seq<char>) -> RoomView {
    RoomView {
        peers: room.peers.insert(
            node,
            if room.peers.contains_key(node) {
                PeerView { nickname, ..room.peers[node] }
            } else {
                fresh_peer(nickname)
            },
        ),
        gate: room.gate.set_if_absent(node, false),
        ..room
    }
}

/// `node` is not in the room.
pub open spec fn unregister(room: RoomView, node: NodeId) -> RoomView {
    RoomView { peers: room.peers.remove(node), gate: room.gate.remove(node), ..room }
}

/// Everyone on the roster but ourselves is in the room.
pub open spec fn register_all(room: RoomView, roster: Seq<RosterEntryView>) -> RoomView
    decreases roster.len(),
{
    if roster.len() == 0 {
        room
    } else {
        let before = register_all(room, roster.drop_last());
        let e = roster.last();
        if e.0 == room.local {
            before
        } else {
            register(before, e.0, e.1)
        }
    }
}

/// A presence event from a peer.
pub open spec fn inbound_presence(room: RoomView, p: PresenceEventView) -> RoomView {
    match p {
        PresenceEventView::Join { node, nickname } => register(room, node, nickname),
        PresenceEventView::Leave { node } => unregister(room, node),
        PresenceEventView::Ready { node, ready } => if node == room.local
            || room.peers.contains_key(node) {
            RoomView { gate: room.gate.set(node, ready), ..room }
        } else {
            room
        },
        PresenceEventView::Rename { node, nickname } => update_peer(
            room,
            node,
            PeerView { nickname, ..room.peers[node] },
        ),
        PresenceEventView::PeerList { peers } => register_all(room, peers),
        PresenceEventView::AddrAnnounce { .. } => room,
    }
}

/// The chat ring after one more message: the oldest one leaves a full ring.
pub open spec fn chat_after(chat: Seq<ChatMessageView>, msg: ChatMessageView) -> Seq<
    ChatMessageView,
> {
    if chat.len() >= CHAT_RING_CAPACITY {
        chat.skip(1).push(msg)
    } else {
        chat.push(msg)
    }
}

/// One more line of chat.
pub open spec fn push_chat(room: RoomView, msg: ChatMessageView) -> RoomView {
    RoomView { chat: chat_after(room.chat, msg), ..room }
}

/// A frame from a peer.
pub open spec fn inbound_frame(
    room: RoomView,
    from: NodeId,
    frame: FrameView,
    received_at_ms: u64,
    rtt_sample_ms: Option<u32>,
) -> (RoomView, Seq<OutputView>) {
    let sampled = sample_rtt(room, from, rtt_sample_ms);
    match frame {
        FrameView::Control(ev) => inbound_control(sampled, from, ev, received_at_ms),
        FrameView::Heartbeat(hb) => inbound_heartbeat(sampled, from, hb, received_at_ms),
        FrameView::Presence(p) => (inbound_presence(sampled, p), seq![]),
        FrameView::Chat(msg) => (push_chat(sampled, msg), seq![]),
    }
}

// --- Local actions ---

/// The event that we broadcast for an action of ours.
pub open spec fn own_event(room: RoomView, action: ControlActionView, now_ms: u64) ->
    ControlEventView {
    ControlEventView {
        origin: room.local,
        origin_ts_ms: now_ms,
        seq: (room.local_seq + 1) as u64,
        action,
    }
}

/// The commands that drive the local player to match an action from our UI.
pub open spec fn ui_commands(action: ControlActionView) -> Seq<OutputView> {
    match action {
        ControlActionView::Pause { .. } => seq![OutputView::Mpv(MpvCommand::Pause(true))],
        ControlActionView::Play { .. } => seq![OutputView::Mpv(MpvCommand::Pause(false))],
        ControlActionView::Seek { media_pos_ms } => seq![seek_to(media_pos_ms)],
        ControlActionView::SetSpeed { speed_centi } => seq![set_speed(speed_centi)],
        ControlActionView::MediaChanged { .. } => seq![],
    }
}

/// An action of ours: apply it and broadcast it, after driving the player if
/// the player does not know of it yet.
pub open spec fn local_control(
    room: RoomView,
    action: ControlActionView,
    now_ms: u64,
    emit_mpv: bool,
) -> (RoomView, Seq<OutputView>) {
    let ev = own_event(room, action, now_ms);
    (
        RoomView {
            local_playback: playback_after(room.local_playback, action),
            local_media: match action {
                ControlActionView::MediaChanged { id } => Some(id),
                _ => room.local_media,
            },
            last_pos_control_at_ms: if carries_position(action) {
                Some(now_ms)
            } else {
                room.last_pos_control_at_ms
            },
            local_seq: ev.seq,
            last_applied_control: Some(ev),
            ..room
        },
        (if emit_mpv {
            ui_commands(action)
        } else {
            seq![]
        }).push(OutputView::Broadcast(FrameView::Control(ev))),
    )
}

/// We flip our ready flag.
pub open spec fn local_ready(room: RoomView, ready: bool) -> (RoomView, Seq<OutputView>) {
    (
        RoomView { local_ready: ready, gate: room.gate.set(room.local, ready), ..room },
        seq![
            OutputView::Broadcast(
                FrameView::Presence(PresenceEventView::Ready { node: room.local, ready }),
            ),
        ],
    )
}

/// We say something.
pub open spec fn local_chat(room: RoomView, text: Seq<char>, now_ms: u64) -> (
    RoomView,
    Seq<OutputView>,
) {
    let msg = ChatMessageView { origin: room.local, origin_ts_ms: now_ms, text };
    (push_chat(room, msg), seq![OutputView::Broadcast(FrameView::Chat(msg))])
}

/// The roster that a joining peer gets: ourselves first, then everyone else in
/// ascending order. Addresses are filled in by the transport.
pub open spec fn roster_for(room: RoomView, joiner: NodeId) -> Seq<RosterEntryView> {
    seq![(room.local, room.local_nickname, Seq::<u8>::empty())] + listing(
        room.peers.dom().remove(joiner),
    ).map_values(|n: NodeId| (n, room.peers[n].nickname, Seq::<u8>::empty()))
}

/// A link to a peer came up. A peer that is new gets the roster and is
/// announced to the others; if we have media loaded, it is also told to seek
/// to our position.
pub open spec fn peer_connected(
    room: RoomView,
    node: NodeId,
    nickname: Seq<char>,
    now_ms: u64,
) -> (RoomView, Seq<OutputView>) {
    let known = register(room, node, nickname);
    if node == room.local {
        (room, seq![])
    } else if room.peers.contains_key(node) {
        (known, seq![])
    } else {
        let introductions = seq![
            OutputView::SendTo {
                to: node,
                frame: FrameView::Presence(
                    PresenceEventView::PeerList { peers: roster_for(known, node) },
                ),
            },
            OutputView::Broadcast(
                FrameView::Presence(PresenceEventView::Join { node, nickname }),
            ),
        ];
        if room.local_media is Some {
            let ev = own_event(
                room,
                ControlActionView::Seek { media_pos_ms: room.local_playback.media_pos_ms },
                now_ms,
            );
            (
                RoomView { local_seq: ev.seq, ..known },
                introductions.push(
                    OutputView::SendTo { to: node, frame: FrameView::Control(ev) },
                ),
            )
        } else {
            (known, introductions)
        }
    }
}

/// The link to a peer went down.
pub open spec fn peer_disconnected(room: RoomView, node: NodeId) -> (RoomView, Seq<OutputView>) {
    (
        unregister(room, node),
        seq![
            OutputView::Broadcast(FrameView::Presence(PresenceEventView::Leave { node })),
        ],
    )
}

/// How one input changes the room, and which effects come out, in order.
pub open spec fn step(room: RoomView, input: Input) -> (RoomView, Seq<OutputView>) {
    match input {
        Input::Tick { now_ms } => tick(room, now_ms),
        Input::FrameReceived { from, frame, received_at_ms, rtt_sample_ms } => inbound_frame(
            room,
            from,
            frame@,
            received_at_ms,
            rtt_sample_ms,
        ),
        Input::LocalControl { action, now_ms } => local_control(room, action@, now_ms, false),
        Input::UiControl { action, now_ms } => local_control(room, action@, now_ms, true),
        Input::LocalReady { ready, .. } => local_ready(room, ready),
        Input::LocalChat { text, now_ms } => local_chat(room, text@, now_ms),
        Input::MpvStateUpdate { media_pos_ms, paused, speed_centi } => (
            RoomView {
                local_playback: PlaybackState { media_pos_ms, paused, speed_centi },
                ..room
            },
            seq![],
        ),
        Input::LocalMediaChanged { media, now_ms } => local_control(
            room,
            ControlActionView::MediaChanged { id: media@ },
            now_ms,
            false,
        ),
        Input::PeerConnected { node, nickname, now_ms } => peer_connected(
            room,
            node,
            nickname@,
            now_ms,
        ),
        Input::PeerDisconnected { node } => peer_disconnected(room, node),
        Input::SetOverride { enabled } => (
            RoomView {
                gate: ReadyGateView { override_enabled: enabled, ..room.gate },
                ..room
            },
            seq![],
        ),
    }
}

/// One more event of ours can be numbered.
pub open spec fn can_number(room: RoomView) -> bool {
    room.local_seq < u64::MAX
}

/// The drift computation of a tick stays within its number range.
pub open spec fn can_tick(room: RoomView, now_ms: u64) -> bool {
    held_off(room, now_ms) || match reference(room, now_ms) {
        Some(n) => drift_in_range(reference_peer(room, n), own_playback(room), now_ms),
        None => true,
    }
}

/// The numbers that an input leads to can be represented.
pub open spec fn can_step(room: RoomView, input: Input) -> bool {
    match input {
        Input::Tick { now_ms } => can_tick(room, now_ms),
        Input::LocalControl { .. } => can_number(room),
        Input::UiControl { .. } => can_number(room),
        Input::LocalMediaChanged { .. } => can_number(room),
        Input::PeerConnected { node, .. } => node == room.local || room.peers.contains_key(node)
            || room.local_media is None || can_number(room),
        _ => true,
    }
}

} // verus!
