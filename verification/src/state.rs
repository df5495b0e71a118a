//! Room state machine.
//!
//! [`RoomState::apply`] turns inbound events (peer frames, mpv updates, user
//! actions, clock ticks) into outbound effects (broadcasts, mpv commands, UI
//! notices). It performs no I/O and reads no clock.

use std::collections::VecDeque;
use vstd::prelude::*;

use crate::conflict::{resolve, ConflictOutcome};
use crate::drift::{check_drift, drift_computable, DriftAction, LocalPlayback, ReferencePeer};
use crate::media::{match_media, MatchResult};
use crate::node_id::NodeId;
use crate::node_map::{ascending, keys_of, lemma_listing_is, listing, lists, NodeMap};
use crate::protocol::{
    clone_media, media_view, roster_entry_view, roster_view, ChatMessage, ChatMessageView,
    ControlAction, ControlEvent, Frame, MediaId, PresenceEvent, RosterEntry, StateHeartbeat,
};
use crate::ready::{ReadyGate, ReadyState};
use crate::room::{
    age, can_number, can_step, can_tick, eligible, fresh_peer, heard_at, held_off, inbound_control,
    inbound_effects, inbound_frame, inbound_heartbeat, inbound_presence, is_reference, is_stalest,
    local_chat, local_control, local_ready, mismatch, new_room, note_seq, own_event, own_heartbeat,
    own_playback, peer_connected, peer_disconnected, push_chat, reference, reference_peer, register,
    register_all, roster_for, sample_rtt, stale, stalest, step, tick, ui_commands, unregister,
    NoticeView, OutputView, PeerView, RoomView,
};
use crate::room_laws::{law_reference_is_unique, law_stalest_is_unique};
use crate::rtt::RttEstimator;
use crate::snapshot::{
    measure_drift, peer_snapshot, peer_snapshots_view, room_snapshot, LocalSnapshot, PeerSnapshot,
    RoomSnapshot,
};

verus! {

pub const SPEED_NORMAL_CENTI: u16 = 100;

pub const SPEED_DOWN_CENTI: u16 = 95;

pub const SPEED_UP_CENTI: u16 = 105;

/// Number of chat messages kept.
pub const CHAT_RING_CAPACITY: usize = 200;

/// How long a peer heartbeat remains usable as a drift reference.
pub const STALE_HEARTBEAT_MS: u64 = 5_000;

/// How long drift correction stays suspended after a position-carrying control
/// event (seek, play, pause) is sent or applied.
///
/// Right after such an event, the heartbeats we hold from other peers were
/// emitted before the event reached them, so they still report the old
/// position. Correcting against them would undo the user's seek and start a
/// back-and-forth loop.
pub const DRIFT_HOLDOFF_MS: u64 = 2_000;

/// Our own playback snapshot, updated when mpv reports a state change or when
/// we apply a remote control event locally.
#[derive(Debug, Clone, Copy, PartialEq, Eq, Structural)]
pub struct PlaybackState {
    pub media_pos_ms: u64,
    pub paused: bool,
    pub speed_centi: u16,
}

impl Default for PlaybackState {
    fn default() -> (r: Self)
        ensures
            r == (PlaybackState {
                media_pos_ms: 0,
                paused: true,
                speed_centi: SPEED_NORMAL_CENTI,
            }),
    {
        PlaybackState { media_pos_ms: 0, paused: true, speed_centi: SPEED_NORMAL_CENTI }
    }
}

/// Per-peer tracking.
#[derive(Debug, Clone)]
pub struct PeerState {
    pub nickname: String,
    pub rtt: RttEstimator,
    pub last_heartbeat: Option<StateHeartbeat>,
    pub last_heartbeat_received_at_ms: u64,
    /// Last `seq` already seen from this peer; used to drop repeats.
    pub last_applied_seq: Option<u64>,
}

impl View for PeerState {
    type V = PeerView;

    open spec fn view(&self) -> PeerView {
        PeerView {
            nickname: self.nickname@,
            rtt: self.rtt,
            last_heartbeat: match self.last_heartbeat {
                Some(hb) => Some(hb@),
                None => None,
            },
            last_heartbeat_received_at_ms: self.last_heartbeat_received_at_ms,
            last_applied_seq: self.last_applied_seq,
        }
    }
}

impl PeerState {
    fn new(nickname: String) -> (r: Self)
        ensures
            r@ == fresh_peer(nickname@),
    {
        PeerState {
            nickname,
            rtt: RttEstimator::new(),
            last_heartbeat: None,
            last_heartbeat_received_at_ms: 0,
            last_applied_seq: None,
        }
    }
}

/// Something that happened.
#[derive(Debug, Clone)]
pub enum Input {
    /// Periodic 1 Hz tick. Drives drift correction and heartbeat emission.
    Tick { now_ms: u64 },
    /// A frame arrived from a peer, with a fresh round-trip sample if the
    /// transport has one.
    FrameReceived {
        from: NodeId,
        frame: Frame,
        received_at_ms: u64,
        rtt_sample_ms: Option<u32>,
    },
    /// A control edge that mpv reported and has already applied. It is only
    /// broadcast to the mesh.
    LocalControl { action: ControlAction, now_ms: u64 },
    /// A control action from our own UI, which mpv has not been told of. It is
    /// broadcast and sent to the local player.
    UiControl { action: ControlAction, now_ms: u64 },
    /// The user flipped the local ready flag.
    LocalReady { ready: bool, now_ms: u64 },
    /// The user typed a chat message.
    LocalChat { text: String, now_ms: u64 },
    /// mpv's position, pause or speed changed without the user's doing.
    MpvStateUpdate { media_pos_ms: u64, paused: bool, speed_centi: u16 },
    /// The local mpv loaded a new file.
    LocalMediaChanged { media: MediaId, now_ms: u64 },
    /// A peer connected. `now_ms` stamps the seek that the joiner is sent.
    PeerConnected { node: NodeId, nickname: String, now_ms: u64 },
    PeerDisconnected { node: NodeId },
    /// The user toggled the override of the ready gate.
    SetOverride { enabled: bool },
}

/// An effect for the caller to carry out.
#[derive(Debug, Clone, PartialEq, Eq)]
pub enum Output {
    /// Send to every mesh peer.
    Broadcast(Frame),
    /// Send to exactly one peer.
    SendTo { to: NodeId, frame: Frame },
    /// Command to the local mpv.
    Mpv(MpvCommand),
    /// UI-level notice.
    Notify(Notice),
}

#[derive(Debug, Clone, Copy, PartialEq, Eq, Structural)]
pub enum MpvCommand {
    Pause(bool),
    Seek { media_pos_ms: u64 },
    SetSpeed { speed_centi: u16 },
}

#[derive(Debug, Clone, PartialEq, Eq)]
pub enum Notice {
    MediaMismatch {
        peer: NodeId,
        severity: MatchResult,
        peer_media: MediaId,
        our_media: Option<MediaId>,
    },
    DuplicateDropped { peer: NodeId, seq: u64 },
    ConflictDiscarded { from: NodeId, seq: u64 },
    StaleReferenceSkipped { peer: NodeId },
}

impl View for Notice {
    type V = NoticeView;

    open spec fn view(&self) -> NoticeView {
        match self {
            Notice::MediaMismatch { peer, severity, peer_media, our_media } => {
                NoticeView::MediaMismatch {
                    peer: *peer,
                    severity: *severity,
                    peer_media: peer_media@,
                    our_media: media_view(*our_media),
                }
            },
            Notice::DuplicateDropped { peer, seq } => NoticeView::DuplicateDropped {
                peer: *peer,
                seq: *seq,
            },
            Notice::ConflictDiscarded { from, seq } => NoticeView::ConflictDiscarded {
                from: *from,
                seq: *seq,
            },
            Notice::StaleReferenceSkipped { peer } => NoticeView::StaleReferenceSkipped {
                peer: *peer,
            },
        }
    }
}

impl View for Output {
    type V = OutputView;

    open spec fn view(&self) -> OutputView {
        match self {
            Output::Broadcast(frame) => OutputView::Broadcast(frame@),
            Output::SendTo { to, frame } => OutputView::SendTo { to: *to, frame: frame@ },
            Output::Mpv(cmd) => OutputView::Mpv(*cmd),
            Output::Notify(notice) => OutputView::Notify(notice@),
        }
    }
}

/// What a list of outputs says.
pub open spec fn outputs_view(outs: Seq<Output>) -> Seq<OutputView> {
    outs.map_values(|o: Output| o@)
}

/// What is known of the peers.
pub open spec fn peers_view(peers: Map<NodeId, PeerState>) -> Map<NodeId, PeerView> {
    peers.map_values(|p: PeerState| p@)
}

/// What a run of chat messages says.
pub open spec fn chat_view(chat: Seq<ChatMessage>) -> Seq<ChatMessageView> {
    chat.map_values(|m: ChatMessage| m@)
}

/// Authoritative room state for this peer.
#[derive(Debug)]
pub struct RoomState {
    local: NodeId,
    local_seq: u64,
    local_nickname: String,
    local_playback: PlaybackState,
    local_media: Option<MediaId>,
    peers: NodeMap<PeerState>,
    ready_gate: ReadyGate,
    local_ready: bool,
    last_applied_control: Option<ControlEvent>,
    /// Local wall clock of the last position-carrying control event we sent or
    /// applied, drift-issued seeks included.
    last_pos_control_at_ms: Option<u64>,
    chat_ring: VecDeque<ChatMessage>,
}

impl View for RoomState {
    type V = RoomView;

    closed spec fn view(&self) -> RoomView {
        RoomView {
            local: self.local,
            local_seq: self.local_seq,
            local_nickname: self.local_nickname@,
            local_playback: self.local_playback,
            local_media: media_view(self.local_media),
            peers: peers_view(self.peers@),
            gate: self.ready_gate@,
            local_ready: self.local_ready,
            last_applied_control: match self.last_applied_control {
                Some(ev) => Some(ev@),
                None => None,
            },
            last_pos_control_at_ms: self.last_pos_control_at_ms,
            chat: chat_view(self.chat_ring@),
        }
    }
}

proof fn lemma_peers_insert(m: Map<NodeId, PeerState>, n: NodeId, p: PeerState)
    ensures
        peers_view(m.insert(n, p)) == peers_view(m).insert(n, p@),
{
    assert(peers_view(m.insert(n, p)) =~= peers_view(m).insert(n, p@));
}

proof fn lemma_peers_remove(m: Map<NodeId, PeerState>, n: NodeId)
    ensures
        peers_view(m.remove(n)) == peers_view(m).remove(n),
{
    assert(peers_view(m.remove(n)) =~= peers_view(m).remove(n));
}

impl RoomState {
    /// The peer map and the ready gate are in order, and the chat ring is not
    /// overfull.
    pub closed spec fn wf(&self) -> bool {
        &&& self.peers.wf()
        &&& self.ready_gate.wf()
        &&& self.chat_ring@.len() <= CHAT_RING_CAPACITY
    }

    /// A room has finitely many peers, and its chat ring is not overfull.
    pub proof fn law_room_is_bounded(&self)
        requires
            self.wf(),
        ensures
            self@.peers.dom().finite(),
            self@.chat.len() <= CHAT_RING_CAPACITY,
    {
        self.peers.lemma_entries();
        assert(self@.peers.dom() =~= self.peers@.dom());
    }

    pub fn new(local: NodeId, local_nickname: String) -> (r: Self)
        ensures
            r.wf(),
            r@ == new_room(local, local_nickname@),
    {
        let mut ready_gate = ReadyGate::new();
        ready_gate.set(local, false);
        let r = RoomState {
            local,
            local_seq: 0,
            local_nickname,
            local_playback: PlaybackState::default(),
            local_media: None,
            peers: NodeMap::new(),
            ready_gate,
            local_ready: false,
            last_applied_control: None,
            last_pos_control_at_ms: None,
            chat_ring: VecDeque::with_capacity(CHAT_RING_CAPACITY),
        };
        proof {
            assert(r@.peers =~= Map::<NodeId, PeerView>::empty());
            assert(r@.chat =~= Seq::<ChatMessageView>::empty());
        }
        r
    }

    // --- Frame ingestion ---

    /// Sample a round-trip time for a known peer.
    fn note_rtt(&mut self, from: &NodeId, rtt_sample_ms: Option<u32>)
        requires
            old(self).wf(),
        ensures
            final(self).wf(),
            final(self)@ == sample_rtt(old(self)@, *from, rtt_sample_ms),
    {
        if let Some(rtt) = rtt_sample_ms {
            let ghost before = self.peers@;
            if let Some(peer) = self.peers.get_mut(from) {
                peer.rtt.sample(rtt);
            }
            proof {
                if before.contains_key(*from) {
                    lemma_peers_insert(before, *from, self.peers@[*from]);
                    assert(self.peers@ =~= before.insert(*from, self.peers@[*from]));
                }
            }
        }
    }

    /// Remember that event `seq` of a peer has been seen.
    fn note_applied_seq(&mut self, from: &NodeId, seq: u64)
        requires
            old(self).wf(),
        ensures
            final(self).wf(),
            final(self)@ == note_seq(old(self)@, *from, seq),
    {
        let ghost before = self.peers@;
        if let Some(peer) = self.peers.get_mut(from) {
            peer.last_applied_seq = Some(seq);
        }
        proof {
            if before.contains_key(*from) {
                lemma_peers_insert(before, *from, self.peers@[*from]);
                assert(self.peers@ =~= before.insert(*from, self.peers@[*from]));
            }
        }
    }

    /// The warning that a peer's media calls for, if any.
    fn media_warning(&self, from: NodeId, theirs: &MediaId) -> (r: Vec<Output>)
        ensures
            outputs_view(r@) == mismatch(from, self@.local_media, theirs@),
    {
        let severity = match &self.local_media {
            Some(ours) => match_media(ours, theirs),
            None => MatchResult::Different,
        };
        let mut outs: Vec<Output> = Vec::new();
        if severity != MatchResult::Identical {
            outs.push(
                Output::Notify(
                    Notice::MediaMismatch {
                        peer: from,
                        severity,
                        peer_media: theirs.clone(),
                        our_media: clone_media(&self.local_media),
                    },
                ),
            );
        }
        assert(outputs_view(outs@) =~= mismatch(from, self@.local_media, theirs@));
        outs
    }

    fn on_inbound_control(&mut self, from: NodeId, ev: ControlEvent, received_at_ms: u64) -> (r: Vec<
        Output,
    >)
        requires
            old(self).wf(),
        ensures
            final(self).wf(),
            (final(self)@, outputs_view(r@)) == inbound_control(
                old(self)@,
                from,
                ev@,
                received_at_ms,
            ),
    {
        // Drop repeats.
        if let Some(peer) = self.peers.get(&from) {
            if let Some(last) = peer.last_applied_seq {
                if ev.seq <= last {
                    let outs = vec![
                        Output::Notify(Notice::DuplicateDropped { peer: from, seq: ev.seq }),
                    ];
                    assert(outputs_view(outs@) =~= inbound_control(
                        old(self)@,
                        from,
                        ev@,
                        received_at_ms,
                    ).1);
                    return outs;
                }
            }
        }
        // Conflict resolution against the last applied control event.
        if let Some(prior) = &self.last_applied_control {
            if let ConflictOutcome::Discard = resolve(prior, &ev) {
                self.note_applied_seq(&from, ev.seq);
                let outs = vec![
                    Output::Notify(Notice::ConflictDiscarded { from, seq: ev.seq }),
                ];
                assert(outputs_view(outs@) =~= inbound_control(
                    old(self)@,
                    from,
                    ev@,
                    received_at_ms,
                ).1);
                return outs;
            }
        }
        let mut outs: Vec<Output> = Vec::new();
        match &ev.action {
            ControlAction::Pause { media_pos_ms } => {
                self.local_playback.paused = true;
                self.local_playback.media_pos_ms = *media_pos_ms;
                self.last_pos_control_at_ms = Some(received_at_ms);
                outs.push(Output::Mpv(MpvCommand::Seek { media_pos_ms: *media_pos_ms }));
                outs.push(Output::Mpv(MpvCommand::Pause(true)));
            }
            ControlAction::Play { media_pos_ms } => {
                self.local_playback.paused = false;
                self.local_playback.media_pos_ms = *media_pos_ms;
                self.last_pos_control_at_ms = Some(received_at_ms);
                outs.push(Output::Mpv(MpvCommand::Seek { media_pos_ms: *media_pos_ms }));
                outs.push(Output::Mpv(MpvCommand::Pause(false)));
            }
            ControlAction::Seek { media_pos_ms } => {
                self.local_playback.media_pos_ms = *media_pos_ms;
                self.last_pos_control_at_ms = Some(received_at_ms);
                outs.push(Output::Mpv(MpvCommand::Seek { media_pos_ms: *media_pos_ms }));
            }
            ControlAction::SetSpeed { speed_centi } => {
                self.local_playback.speed_centi = *speed_centi;
                outs.push(Output::Mpv(MpvCommand::SetSpeed { speed_centi: *speed_centi }));
            }
            ControlAction::MediaChanged { id } => {
                outs = self.media_warning(from, id);
            }
        }
        assert(outputs_view(outs@) =~= inbound_effects(old(self)@, from, ev@.action));
        self.note_applied_seq(&from, ev.seq);
        self.last_applied_control = Some(ev);
        outs
    }

    fn on_inbound_heartbeat(&mut self, from: NodeId, hb: &StateHeartbeat, received_at_ms: u64) -> (r:
        Vec<Output>)
        requires
            old(self).wf(),
        ensures
            final(self).wf(),
            (final(self)@, outputs_view(r@)) == inbound_heartbeat(
                old(self)@,
                from,
                hb@,
                received_at_ms,
            ),
    {
        // A heartbeat from an unknown node (a forged origin, or one racing its
        // own disconnect) must not seed a ready-gate entry that nothing would
        // ever clear.
        let ghost before = self.peers@;
        let known = self.peers.contains_key(&from);
        if let Some(peer) = self.peers.get_mut(&from) {
            peer.last_heartbeat = Some(hb.clone());
            peer.last_heartbeat_received_at_ms = received_at_ms;
        }
        proof {
            if known {
                lemma_peers_insert(before, from, self.peers@[from]);
                assert(self.peers@ =~= before.insert(from, self.peers@[from]));
            }
        }
        if known {
            self.ready_gate.set(from, hb.ready);
        }
        match &hb.media_id {
            Some(peer_media) => self.media_warning(from, peer_media),
            None => {
                let outs: Vec<Output> = Vec::new();
                assert(outputs_view(outs@) =~= Seq::<OutputView>::empty());
                outs
            }
        }
    }

    /// Put a node into the room under a nickname, keeping what is known of it.
    /// Says whether the node was new.
    fn register_node(&mut self, node: NodeId, nickname: String) -> (r: bool)
        requires
            old(self).wf(),
        ensures
            final(self).wf(),
            final(self)@ == register(old(self)@, node, nickname@),
            r == !old(self)@.peers.contains_key(node),
    {
        let ghost before = self.peers@;
        let is_new = !self.peers.contains_key(&node);
        if is_new {
            self.peers.insert(node, PeerState::new(nickname));
            proof {
                lemma_peers_insert(before, node, self.peers@[node]);
            }
        } else {
            if let Some(peer) = self.peers.get_mut(&node) {
                peer.nickname = nickname;
            }
            proof {
                lemma_peers_insert(before, node, self.peers@[node]);
                assert(self.peers@ =~= before.insert(node, self.peers@[node]));
            }
        }
        self.ready_gate.set_if_absent(node, false);
        is_new
    }

    /// Take a node out of the room.
    fn unregister_node(&mut self, node: &NodeId)
        requires
            old(self).wf(),
        ensures
            final(self).wf(),
            final(self)@ == unregister(old(self)@, *node),
    {
        proof {
            lemma_peers_remove(self.peers@, *node);
        }
        self.peers.remove(node);
        self.ready_gate.remove(node);
    }

    fn on_inbound_presence(&mut self, p: PresenceEvent)
        requires
            old(self).wf(),
        ensures
            final(self).wf(),
            final(self)@ == inbound_presence(old(self)@, p@),
    {
        match p {
            PresenceEvent::Join { node, nickname } => {
                self.register_node(node, nickname);
            }
            PresenceEvent::Leave { node } => {
                self.unregister_node(&node);
            }
            PresenceEvent::Ready { node, ready } => {
                // Readiness of a node that we do not track is ignored.
                if node == self.local || self.peers.contains_key(&node) {
                    self.ready_gate.set(node, ready);
                }
            }
            PresenceEvent::Rename { node, nickname } => {
                let ghost before = self.peers@;
                if let Some(peer) = self.peers.get_mut(&node) {
                    peer.nickname = nickname;
                }
                proof {
                    if before.contains_key(node) {
                        lemma_peers_insert(before, node, self.peers@[node]);
                        assert(self.peers@ =~= before.insert(node, self.peers@[node]));
                    }
                }
            }
            PresenceEvent::PeerList { peers } => {
                self.on_roster(&peers);
            }
            PresenceEvent::AddrAnnounce { .. } => {
                // Address bookkeeping is a transport concern.
            }
        }
    }

    /// A peer gave us its roster: everyone on it is in the room.
    fn on_roster(&mut self, roster: &Vec<RosterEntry>)
        requires
            old(self).wf(),
        ensures
            final(self).wf(),
            final(self)@ == register_all(old(self)@, roster_view(roster@)),
    {
        let mut i: usize = 0;
        let ghost all = roster_view(roster@);
        proof {
            assert(all.take(0) =~= Seq::empty());
        }
        while i < roster.len()
            invariant
                0 <= i <= roster@.len(),
                all == roster_view(roster@),
                self.wf(),
                self.local == old(self).local,
                self@ == register_all(old(self)@, all.take(i as int)),
            decreases roster@.len() - i,
        {
            let e = &roster[i];
            proof {
                assert(all.take(i + 1).drop_last() =~= all.take(i as int));
                assert(all.take(i + 1).last() == roster_entry_view(*e));
            }
            if e.0 != self.local {
                self.register_node(e.0, e.1.clone());
            }
            i = i + 1;
        }
        proof {
            assert(all.take(all.len() as int) =~= all);
        }
    }

    fn push_chat(&mut self, msg: ChatMessage)
        requires
            old(self).wf(),
        ensures
            final(self).wf(),
            final(self)@ == push_chat(old(self)@, msg@),
    {
        let ghost before = self.chat_ring@;
        if self.chat_ring.len() >= CHAT_RING_CAPACITY {
            self.chat_ring.pop_front();
            assert(chat_view(self.chat_ring@) =~= chat_view(before).skip(1));
        }
        let ghost middle = self.chat_ring@;
        self.chat_ring.push_back(msg);
        assert(chat_view(self.chat_ring@) =~= chat_view(middle).push(msg@));
    }

    fn on_frame(
        &mut self,
        from: NodeId,
        frame: Frame,
        received_at_ms: u64,
        rtt_sample_ms: Option<u32>,
    ) -> (r: Vec<Output>)
        requires
            old(self).wf(),
        ensures
            final(self).wf(),
            (final(self)@, outputs_view(r@)) == inbound_frame(
                old(self)@,
                from,
                frame@,
                received_at_ms,
                rtt_sample_ms,
            ),
    {
        self.note_rtt(&from, rtt_sample_ms);
        let ghost nothing = outputs_view(Seq::<Output>::empty());
        assert(nothing =~= Seq::<OutputView>::empty());
        match frame {
            Frame::Control(ev) => self.on_inbound_control(from, ev, received_at_ms),
            Frame::Heartbeat(hb) => self.on_inbound_heartbeat(from, &hb, received_at_ms),
            Frame::Presence(p) => {
                self.on_inbound_presence(p);
                Vec::new()
            }
            Frame::Chat(msg) => {
                self.push_chat(msg);
                Vec::new()
            }
        }
    }

    // --- Tick ---

    /// Whether the last heartbeat of a peer can serve as a drift reference.
    fn usable(&self, peer: &PeerState, now_ms: u64) -> (r: bool)
        ensures
            r == (peer.last_heartbeat is Some && crate::room::since(
                now_ms,
                peer.last_heartbeat_received_at_ms,
            ) <= STALE_HEARTBEAT_MS && match self@.last_pos_control_at_ms {
                Some(t) => peer.last_heartbeat_received_at_ms > t,
                None => true,
            }),
    {
        if peer.last_heartbeat.is_none() {
            return false;
        }
        if now_ms >= peer.last_heartbeat_received_at_ms && now_ms
            - peer.last_heartbeat_received_at_ms > STALE_HEARTBEAT_MS {
            return false;
        }
        // Heartbeats received at or before the last position control event
        // still report the pre-event position.
        match self.last_pos_control_at_ms {
            Some(t) => peer.last_heartbeat_received_at_ms > t,
            None => true,
        }
    }

    /// The drift reference and what the drift calculator needs to know of it.
    fn pick_reference(&self, now_ms: u64) -> (r: Option<(NodeId, ReferencePeer)>)
        requires
            self.wf(),
        ensures
            match r {
                Some((n, p)) => reference(self@, now_ms) == Some(n) && p == reference_peer(
                    self@,
                    n,
                ),
                None => reference(self@, now_ms) is None,
            },
    {
        let n: usize = self.peers.len();
        let mut best: Option<usize> = None;
        let mut i: usize = 0;
        let ghost es = self.peers.entries();
        let ghost room = self@;
        proof {
            self.peers.lemma_entries();
        }
        while i < n
            invariant
                0 <= i <= n,
                n == es.len(),
                es == self.peers.entries(),
                room == self@,
                room.peers == peers_view(self.peers@),
                ascending(keys_of(es)),
                forall|j: int|
                    #![trigger es[j]]
                    0 <= j < n ==> self.peers@.contains_key(es[j].0) && self.peers@[es[j].0]
                        == es[j].1,
                match best {
                    Some(b) => {
                        &&& b < i
                        &&& eligible(room, es[b as int].0, now_ms)
                        &&& forall|j: int|
                            0 <= j < i && eligible(room, (#[trigger] es[j]).0, now_ms) && j != b
                                ==> heard_at(room, es[j].0) < heard_at(room, es[b as int].0) || (
                            heard_at(room, es[j].0) == heard_at(room, es[b as int].0)
                                && es[b as int].0.before(es[j].0))
                    },
                    None => forall|j: int|
                        0 <= j < i ==> !eligible(room, (#[trigger] es[j]).0, now_ms),
                },
            decreases n - i,
        {
            let e = self.peers.at(i);
            let fit = self.usable(e.1, now_ms);
            assert(fit == eligible(room, es[i as int].0, now_ms));
            if fit {
                match best {
                    None => {
                        best = Some(i);
                    }
                    Some(b) => {
                        let champion = self.peers.at(b);
                        // "Freshest" goes by our own receive clock: comparing
                        // the peers' clocks would let a fast one always win.
                        if e.1.last_heartbeat_received_at_ms
                            > champion.1.last_heartbeat_received_at_ms {
                            best = Some(i);
                        } else {
                            assert(keys_of(es)[b as int].before(keys_of(es)[i as int]));
                        }
                    }
                }
            }
            i = i + 1;
        }
        match best {
            Some(b) => {
                let e = self.peers.at(b);
                let reference = match &e.1.last_heartbeat {
                    Some(hb) => ReferencePeer {
                        media_pos_ms: hb.media_pos_ms,
                        received_at_ms: e.1.last_heartbeat_received_at_ms,
                        paused: hb.paused,
                        one_way_ms: e.1.rtt.one_way_ms(),
                        speed_centi: hb.speed_centi,
                    },
                    None => {
                        assert(false);
                        return None;
                    }
                };
                proof {
                    let node = es[b as int].0;
                    assert(is_reference(room, node, now_ms)) by {
                        assert forall|m: NodeId| #[trigger]
                            eligible(room, m, now_ms) && m != node implies heard_at(room, m)
                            < heard_at(room, node) || (heard_at(room, m) == heard_at(room, node)
                            && node.before(m)) by {
                            assert(self.peers@.contains_key(m));
                            let j = choose|j: int| 0 <= j < es.len() && (#[trigger] es[j]).0 == m;
                            assert(eligible(room, es[j].0, now_ms));
                        }
                    }
                    law_reference_is_unique(room, node, now_ms);
                }
                Some((*e.0, reference))
            }
            None => {
                proof {
                    if exists|m: NodeId| is_reference(room, m, now_ms) {
                        let m = choose|m: NodeId| is_reference(room, m, now_ms);
                        assert(self.peers@.contains_key(m));
                        let j = choose|j: int| 0 <= j < es.len() && (#[trigger] es[j]).0 == m;
                        assert(!eligible(room, es[j].0, now_ms));
                    }
                }
                None
            }
        }
    }

    /// The peer that has been silent for longest, if any peer is stale.
    fn stalest_peer_with_heartbeat(&self, now_ms: u64) -> (r: Option<NodeId>)
        requires
            self.wf(),
        ensures
            r == stalest(self@, now_ms),
    {
        let n: usize = self.peers.len();
        let mut best: Option<(usize, u64)> = None;
        let mut i: usize = 0;
        let ghost es = self.peers.entries();
        let ghost room = self@;
        proof {
            self.peers.lemma_entries();
        }
        while i < n
            invariant
                0 <= i <= n,
                n == es.len(),
                es == self.peers.entries(),
                room == self@,
                room.peers == peers_view(self.peers@),
                ascending(keys_of(es)),
                forall|j: int|
                    #![trigger es[j]]
                    0 <= j < n ==> self.peers@.contains_key(es[j].0) && self.peers@[es[j].0]
                        == es[j].1,
                match best {
                    Some((b, a)) => {
                        &&& b < i
                        &&& stale(room, es[b as int].0, now_ms)
                        &&& a == age(room, es[b as int].0, now_ms)
                        &&& forall|j: int|
                            0 <= j < i && stale(room, (#[trigger] es[j]).0, now_ms) && j != b
                                ==> age(room, es[j].0, now_ms) < a || (age(
                                room,
                                es[j].0,
                                now_ms,
                            ) == a && es[j].0.before(es[b as int].0))
                    },
                    None => forall|j: int| 0 <= j < i ==> !stale(room, (#[trigger] es[j]).0, now_ms),
                },
            decreases n - i,
        {
            let e = self.peers.at(i);
            let a: u64 = if now_ms >= e.1.last_heartbeat_received_at_ms {
                now_ms - e.1.last_heartbeat_received_at_ms
            } else {
                0
            };
            assert(a == age(room, es[i as int].0, now_ms));
            if e.1.last_heartbeat.is_some() && a > STALE_HEARTBEAT_MS {
                assert(stale(room, es[i as int].0, now_ms));
                match best {
                    None => {
                        best = Some((i, a));
                    }
                    Some((b, oldest)) => {
                        if a >= oldest {
                            proof {
                                let ks = keys_of(es);
                                assert forall|j: int|
                                    0 <= j < i + 1 && stale(room, (#[trigger] es[j]).0, now_ms)
                                        && j != i implies age(room, es[j].0, now_ms) < a || (age(
                                    room,
                                    es[j].0,
                                    now_ms,
                                ) == a && es[j].0.before(es[i as int].0)) by {
                                    assert(ks[j].before(ks[i as int]));
                                }
                            }
                            best = Some((i, a));
                        }
                    }
                }
            } else {
                assert(!stale(room, es[i as int].0, now_ms));
            }
            i = i + 1;
        }
        match best {
            Some((b, a)) => {
                let e = self.peers.at(b);
                proof {
                    let node = es[b as int].0;
                    assert(is_stalest(room, node, now_ms)) by {
                        assert forall|m: NodeId| #[trigger]
                            stale(room, m, now_ms) && m != node implies age(room, m, now_ms) < age(
                            room,
                            node,
                            now_ms,
                        ) || (age(room, m, now_ms) == age(room, node, now_ms) && m.before(
                            node,
                        )) by {
                            assert(self.peers@.contains_key(m));
                            let j = choose|j: int| 0 <= j < es.len() && (#[trigger] es[j]).0 == m;
                            assert(stale(room, es[j].0, now_ms));
                        }
                    }
                    law_stalest_is_unique(room, node, now_ms);
                }
                Some(*e.0)
            }
            None => {
                proof {
                    if exists|m: NodeId| is_stalest(room, m, now_ms) {
                        let m = choose|m: NodeId| is_stalest(room, m, now_ms);
                        assert(self.peers@.contains_key(m));
                        let j = choose|j: int| 0 <= j < es.len() && (#[trigger] es[j]).0 == m;
                        assert(!stale(room, es[j].0, now_ms));
                    }
                }
                None
            }
        }
    }

    fn is_held_off(&self, now_ms: u64) -> (r: bool)
        ensures
            r == held_off(self@, now_ms),
    {
        match self.last_pos_control_at_ms {
            Some(t) => now_ms < t.saturating_add(DRIFT_HOLDOFF_MS),
            None => false,
        }
    }

    fn playback_for_drift(&self) -> (r: LocalPlayback)
        ensures
            r == own_playback(self@),
    {
        LocalPlayback {
            media_pos_ms: self.local_playback.media_pos_ms,
            paused: self.local_playback.paused,
        }
    }

    fn on_tick(&mut self, now_ms: u64) -> (r: Vec<Output>)
        requires
            old(self).wf(),
            can_tick(old(self)@, now_ms),
        ensures
            final(self).wf(),
            (final(self)@, outputs_view(r@)) == tick(old(self)@, now_ms),
    {
        let ghost room = self@;
        let mut outs: Vec<Output> = Vec::new();
        // 1. Emit our own heartbeat.
        let hb = StateHeartbeat {
            origin: self.local,
            origin_ts_ms: now_ms,
            media_pos_ms: self.local_playback.media_pos_ms,
            paused: self.local_playback.paused,
            speed_centi: self.local_playback.speed_centi,
            ready: self.local_ready,
            media_id: clone_media(&self.local_media),
        };
        assert(hb@ == own_heartbeat(room, now_ms));
        outs.push(Output::Broadcast(Frame::Heartbeat(hb)));
        // 2. Drift correction against the freshest non-stale reference peer,
        // suspended inside the hold-off window.
        if self.is_held_off(now_ms) {
            // No drift correction, no speed restore.
        } else if let Some((ref_node, reference)) = self.pick_reference(now_ms) {
            let local = self.playback_for_drift();
            match check_drift(&reference, &local, now_ms) {
                DriftAction::NoAction => {
                    // In the deadband: leave any correction speed.
                    if self.local_playback.speed_centi != SPEED_NORMAL_CENTI {
                        outs.push(
                            Output::Mpv(MpvCommand::SetSpeed { speed_centi: SPEED_NORMAL_CENTI }),
                        );
                    }
                }
                DriftAction::Slowdown => {
                    outs.push(Output::Mpv(MpvCommand::SetSpeed { speed_centi: SPEED_DOWN_CENTI }));
                }
                DriftAction::Speedup => {
                    outs.push(Output::Mpv(MpvCommand::SetSpeed { speed_centi: SPEED_UP_CENTI }));
                }
                DriftAction::Seek { target_ms } => {
                    // Of any two peers, only the one with the larger
                    // identifier seeks; the other one nudges its speed. If
                    // both sought toward each other's last known position they
                    // would swap places forever.
                    if ref_node < self.local {
                        outs.push(Output::Mpv(MpvCommand::Seek { media_pos_ms: target_ms }));
                        self.last_pos_control_at_ms = Some(now_ms);
                    } else if self.local_playback.media_pos_ms > target_ms {
                        outs.push(
                            Output::Mpv(MpvCommand::SetSpeed { speed_centi: SPEED_DOWN_CENTI }),
                        );
                    } else {
                        outs.push(
                            Output::Mpv(MpvCommand::SetSpeed { speed_centi: SPEED_UP_CENTI }),
                        );
                    }
                }
            }
        } else if let Some(peer) = self.stalest_peer_with_heartbeat(now_ms) {
            outs.push(Output::Notify(Notice::StaleReferenceSkipped { peer }));
        }
        proof {
            assert(outputs_view(outs@) =~= tick(room, now_ms).1);
        }
        outs
    }

    // --- Local actions ---

    /// Apply an action of ours and broadcast it. With `emit_mpv`, the batch
    /// starts with the commands that drive the local player to match.
    fn apply_local_control(&mut self, action: ControlAction, now_ms: u64, emit_mpv: bool) -> (r: Vec<
        Output,
    >)
        requires
            old(self).wf(),
            can_number(old(self)@),
        ensures
            final(self).wf(),
            (final(self)@, outputs_view(r@)) == local_control(
                old(self)@,
                action@,
                now_ms,
                emit_mpv,
            ),
    {
        let ghost room = self@;
        let mut outs: Vec<Output> = Vec::new();
        if emit_mpv {
            match &action {
                ControlAction::Pause { .. } => {
                    outs.push(Output::Mpv(MpvCommand::Pause(true)));
                }
                ControlAction::Play { .. } => {
                    outs.push(Output::Mpv(MpvCommand::Pause(false)));
                }
                ControlAction::Seek { media_pos_ms } => {
                    outs.push(Output::Mpv(MpvCommand::Seek { media_pos_ms: *media_pos_ms }));
                }
                ControlAction::SetSpeed { speed_centi } => {
                    outs.push(Output::Mpv(MpvCommand::SetSpeed { speed_centi: *speed_centi }));
                }
                ControlAction::MediaChanged { .. } => {
                    // mpv cannot be made to load a file from here.
                }
            }
            assert(outputs_view(outs@) =~= ui_commands(action@));
        }
        match &action {
            ControlAction::Pause { media_pos_ms } => {
                self.local_playback.paused = true;
                self.local_playback.media_pos_ms = *media_pos_ms;
                self.last_pos_control_at_ms = Some(now_ms);
            }
            ControlAction::Play { media_pos_ms } => {
                self.local_playback.paused = false;
                self.local_playback.media_pos_ms = *media_pos_ms;
                self.last_pos_control_at_ms = Some(now_ms);
            }
            ControlAction::Seek { media_pos_ms } => {
                self.local_playback.media_pos_ms = *media_pos_ms;
                self.last_pos_control_at_ms = Some(now_ms);
            }
            ControlAction::SetSpeed { speed_centi } => {
                self.local_playback.speed_centi = *speed_centi;
            }
            ControlAction::MediaChanged { id } => {
                self.local_media = Some(id.clone());
            }
        }
        self.local_seq = self.local_seq + 1;
        let ev = ControlEvent {
            origin: self.local,
            origin_ts_ms: now_ms,
            seq: self.local_seq,
            action,
        };
        assert(ev@ == own_event(room, action@, now_ms));
        self.last_applied_control = Some(ev.clone());
        outs.push(Output::Broadcast(Frame::Control(ev)));
        assert(outputs_view(outs@) =~= local_control(room, action@, now_ms, emit_mpv).1);
        outs
    }

    fn on_local_ready(&mut self, ready: bool) -> (r: Vec<Output>)
        requires
            old(self).wf(),
        ensures
            final(self).wf(),
            (final(self)@, outputs_view(r@)) == local_ready(old(self)@, ready),
    {
        self.local_ready = ready;
        self.ready_gate.set(self.local, ready);
        let outs = vec![
            Output::Broadcast(
                Frame::Presence(PresenceEvent::Ready { node: self.local, ready }),
            ),
        ];
        assert(outputs_view(outs@) =~= local_ready(old(self)@, ready).1);
        outs
    }

    fn on_local_chat(&mut self, text: String, now_ms: u64) -> (r: Vec<Output>)
        requires
            old(self).wf(),
        ensures
            final(self).wf(),
            (final(self)@, outputs_view(r@)) == local_chat(old(self)@, text@, now_ms),
    {
        let msg = ChatMessage { origin: self.local, origin_ts_ms: now_ms, text };
        self.push_chat(msg.clone());
        let outs = vec![Output::Broadcast(Frame::Chat(msg))];
        assert(outputs_view(outs@) =~= local_chat(old(self)@, text@, now_ms).1);
        outs
    }

    /// The roster for a joining peer.
    fn roster_without(&self, joiner: &NodeId) -> (r: Vec<RosterEntry>)
        requires
            self.wf(),
        ensures
            roster_view(r@) == roster_for(self@, *joiner),
    {
        let n: usize = self.peers.len();
        let mut r: Vec<RosterEntry> = vec![(self.local, self.local_nickname.clone(), Vec::new())];
        let ghost es = self.peers.entries();
        let ghost room = self@;
        let ghost mut keys = Seq::<NodeId>::empty();
        let mut i: usize = 0;
        proof {
            self.peers.lemma_entries();
            assert(roster_view(r@) =~= seq![(room.local, room.local_nickname, Seq::<u8>::empty())]
                + keys.map_values(|k: NodeId| (k, room.peers[k].nickname, Seq::<u8>::empty())));
        }
        while i < n
            invariant
                0 <= i <= n,
                n == es.len(),
                es == self.peers.entries(),
                room == self@,
                room.peers == peers_view(self.peers@),
                ascending(keys_of(es)),
                forall|j: int|
                    #![trigger es[j]]
                    0 <= j < n ==> self.peers@.contains_key(es[j].0) && self.peers@[es[j].0]
                        == es[j].1,
                keys == keys_of(es).take(i as int).filter(|k: NodeId| k != *joiner),
                roster_view(r@) == seq![(room.local, room.local_nickname, Seq::<u8>::empty())]
                    + keys.map_values(|k: NodeId| (k, room.peers[k].nickname, Seq::<u8>::empty())),
            decreases n - i,
        {
            let e = self.peers.at(i);
            let ghost before = r@;
            let ghost keys_before = keys;
            proof {
                let ks = keys_of(es);
                let f = |k: NodeId| k != *joiner;
                assert(ks.take(i + 1) =~= ks.take(i as int).push(ks[i as int]));
                reveal(Seq::filter);
                assert(ks.take(i + 1).drop_last() =~= ks.take(i as int));
                keys = ks.take(i + 1).filter(f);
            }
            if *e.0 != *joiner {
                r.push((*e.0, e.1.nickname.clone(), Vec::new()));
                proof {
                    let g = |k: NodeId| (k, room.peers[k].nickname, Seq::<u8>::empty());
                    assert(keys =~= keys_before.push(*e.0));
                    assert(roster_entry_view(r@.last()) == g(*e.0)) by {
                        assert(r@.last().2@ =~= Seq::<u8>::empty());
                    }
                    assert(keys.map_values(g) =~= keys_before.map_values(g).push(g(*e.0)));
                    assert(roster_view(r@) =~= roster_view(before).push(
                        roster_entry_view(r@.last()),
                    ));
                }
            }
            i = i + 1;
        }
        proof {
            let ks = keys_of(es);
            let f = |k: NodeId| k != *joiner;
            assert(ks.take(n as int) =~= ks);
            lemma_filtered_listing(ks, room.peers.dom(), *joiner);
        }
        r
    }

    fn on_peer_connected(&mut self, node: NodeId, nickname: String, now_ms: u64) -> (r: Vec<Output>)
        requires
            old(self).wf(),
            node == old(self)@.local || old(self)@.peers.contains_key(node)
                || old(self)@.local_media is None || can_number(old(self)@),
        ensures
            final(self).wf(),
            (final(self)@, outputs_view(r@)) == peer_connected(
                old(self)@,
                node,
                nickname@,
                now_ms,
            ),
    {
        let ghost room = self@;
        proof {
            assert(outputs_view(Seq::<Output>::empty()) =~= Seq::<OutputView>::empty());
        }
        if node == self.local {
            return Vec::new();
        }
        let new_peer = self.register_node(node, nickname.clone());
        if !new_peer {
            return Vec::new();
        }
        let ghost known = self@;
        // The new peer gets the current roster so it can dial everyone.
        let peers = self.roster_without(&node);
        let mut outs = vec![
            Output::SendTo { to: node, frame: Frame::Presence(PresenceEvent::PeerList { peers }) },
            Output::Broadcast(Frame::Presence(PresenceEvent::Join { node, nickname })),
        ];
        // Only the side that has media loaded tells the joiner where to seek: a
        // peer that has not opened a file yet would send the room back to the
        // start.
        if self.local_media.is_some() {
            self.local_seq = self.local_seq + 1;
            let seek_ev = ControlEvent {
                origin: self.local,
                origin_ts_ms: now_ms,
                seq: self.local_seq,
                action: ControlAction::Seek { media_pos_ms: self.local_playback.media_pos_ms },
            };
            outs.push(Output::SendTo { to: node, frame: Frame::Control(seek_ev) });
        }
        assert(outputs_view(outs@) =~= peer_connected(room, node, nickname@, now_ms).1);
        outs
    }

    fn on_peer_disconnected(&mut self, node: NodeId) -> (r: Vec<Output>)
        requires
            old(self).wf(),
        ensures
            final(self).wf(),
            (final(self)@, outputs_view(r@)) == peer_disconnected(old(self)@, node),
    {
        self.unregister_node(&node);
        let outs = vec![Output::Broadcast(Frame::Presence(PresenceEvent::Leave { node }))];
        assert(outputs_view(outs@) =~= peer_disconnected(old(self)@, node).1);
        outs
    }

    /// Drive the state machine with one input.
    pub fn apply(&mut self, input: Input) -> (r: Vec<Output>)
        requires
            old(self).wf(),
            can_step(old(self)@, input),
        ensures
            final(self).wf(),
            (final(self)@, outputs_view(r@)) == step(old(self)@, input),
    {
        proof {
            assert(outputs_view(Seq::<Output>::empty()) =~= Seq::<OutputView>::empty());
        }
        match input {
            Input::Tick { now_ms } => self.on_tick(now_ms),
            Input::FrameReceived { from, frame, received_at_ms, rtt_sample_ms } => self.on_frame(
                from,
                frame,
                received_at_ms,
                rtt_sample_ms,
            ),
            Input::LocalControl { action, now_ms } => self.apply_local_control(
                action,
                now_ms,
                false,
            ),
            Input::UiControl { action, now_ms } => self.apply_local_control(action, now_ms, true),
            Input::LocalReady { ready, .. } => self.on_local_ready(ready),
            Input::LocalChat { text, now_ms } => self.on_local_chat(text, now_ms),
            Input::MpvStateUpdate { media_pos_ms, paused, speed_centi } => {
                self.local_playback = PlaybackState { media_pos_ms, paused, speed_centi };
                Vec::new()
            }
            Input::LocalMediaChanged { media, now_ms } => self.apply_local_control(
                ControlAction::MediaChanged { id: media },
                now_ms,
                false,
            ),
            Input::PeerConnected { node, nickname, now_ms } => self.on_peer_connected(
                node,
                nickname,
                now_ms,
            ),
            Input::PeerDisconnected { node } => self.on_peer_disconnected(node),
            Input::SetOverride { enabled } => {
                self.ready_gate.set_override(enabled);
                Vec::new()
            }
        }
    }

    /// Whether [`RoomState::apply`] can represent the numbers that an input
    /// leads to. It cannot only where a sequence number or a projected position
    /// would overflow.
    pub fn can_apply(&self, input: &Input) -> (r: bool)
        requires
            self.wf(),
        ensures
            r == can_step(self@, *input),
    {
        match input {
            Input::Tick { now_ms } => {
                if self.is_held_off(*now_ms) {
                    return true;
                }
                match self.pick_reference(*now_ms) {
                    Some((_, reference)) => drift_computable(
                        &reference,
                        &self.playback_for_drift(),
                        *now_ms,
                    ),
                    None => true,
                }
            }
            Input::LocalControl { .. } => self.local_seq < u64::MAX,
            Input::UiControl { .. } => self.local_seq < u64::MAX,
            Input::LocalMediaChanged { .. } => self.local_seq < u64::MAX,
            Input::PeerConnected { node, .. } => *node == self.local || self.peers.contains_key(
                node,
            ) || self.local_media.is_none() || self.local_seq < u64::MAX,
            _ => true,
        }
    }

    // --- Observers ---

    pub fn local_node(&self) -> (r: NodeId)
        ensures
            r == self@.local,
    {
        self.local
    }

    pub fn local_playback(&self) -> (r: PlaybackState)
        ensures
            r == self@.local_playback,
    {
        self.local_playback
    }

    pub fn local_nickname(&self) -> (r: &str)
        ensures
            r@ == self@.local_nickname,
    {
        self.local_nickname.as_str()
    }

    pub fn local_ready(&self) -> (r: bool)
        ensures
            r == self@.local_ready,
    {
        self.local_ready
    }

    pub fn local_media(&self) -> (r: Option<&MediaId>)
        ensures
            r is Some <==> self@.local_media is Some,
            r is Some ==> Some(r->0@) == self@.local_media,
    {
        self.local_media.as_ref()
    }

    /// The peers in ascending order of their identifiers.
    pub fn peers(&self) -> (r: Vec<(&NodeId, &PeerState)>)
        requires
            self.wf(),
        ensures
            r@.map_values(|e: (&NodeId, &PeerState)| (*e.0, e.1@)) == listing(
                self@.peers.dom(),
            ).map_values(|n: NodeId| (n, self@.peers[n])),
    {
        let n: usize = self.peers.len();
        let mut r: Vec<(&NodeId, &PeerState)> = Vec::new();
        let ghost es = self.peers.entries();
        proof {
            self.peers.lemma_entries();
        }
        let mut i: usize = 0;
        while i < n
            invariant
                0 <= i <= n,
                n == es.len(),
                es == self.peers.entries(),
                r@.len() == i,
                forall|j: int| #![trigger r@[j]] 0 <= j < i ==> *r@[j].0 == es[j].0 && *r@[j].1 == es[j].1,
            decreases n - i,
        {
            r.push(self.peers.at(i));
            i = i + 1;
        }
        proof {
            assert(self@.peers.dom() =~= self.peers@.dom());
            let f = |e: (&NodeId, &PeerState)| (*e.0, e.1@);
            let g = |n: NodeId| (n, self@.peers[n]);
            assert(r@.map_values(f) =~= keys_of(es).map_values(g));
        }
        r
    }

    pub fn peer(&self, node: &NodeId) -> (r: Option<&PeerState>)
        requires
            self.wf(),
        ensures
            r is Some <==> self@.peers.contains_key(*node),
            r is Some ==> r->0@ == self@.peers[*node],
    {
        self.peers.get(node)
    }

    pub fn peer_count(&self) -> (r: usize)
        requires
            self.wf(),
        ensures
            r == self@.peers.dom().len(),
    {
        proof {
            assert(self@.peers.dom() =~= self.peers@.dom());
        }
        self.peers.len()
    }

    /// The chat messages kept, oldest first.
    pub fn chat(&self) -> (r: &VecDeque<ChatMessage>)
        requires
            self.wf(),
        ensures
            chat_view(r@) == self@.chat,
            r@.len() <= CHAT_RING_CAPACITY,
    {
        &self.chat_ring
    }

    pub fn ready_state(&self) -> (r: ReadyState)
        requires
            self.wf(),
        ensures
            r == self@.gate.state(),
    {
        self.ready_gate.state()
    }

    pub fn ready_gate(&self) -> (r: &ReadyGate)
        requires
            self.wf(),
        ensures
            r@ == self@.gate,
            r.wf(),
    {
        &self.ready_gate
    }

    /// The snapshot of one peer.
    fn snapshot_of(&self, node: &NodeId, peer: &PeerState) -> (r: PeerSnapshot)
        requires
            self.wf(),
            self@.peers.contains_key(*node),
            peer@ == self@.peers[*node],
        ensures
            r@ == peer_snapshot(self@, *node),
    {
        let ready = match self.ready_gate.get(node) {
            Some(ready) => ready,
            None => false,
        };
        let drift_ms = match &peer.last_heartbeat {
            Some(hb) => measure_drift(&self.local_playback, hb.media_pos_ms, hb.paused),
            None => None,
        };
        let media_match = match (&self.local_media, &peer.last_heartbeat) {
            (Some(ours), Some(hb)) => match &hb.media_id {
                Some(theirs) => Some(match_media(ours, theirs)),
                None => None,
            },
            _ => None,
        };
        PeerSnapshot {
            node: *node,
            nickname: peer.nickname.clone(),
            ready,
            rtt_ms: peer.rtt.estimate_ms(),
            drift_ms,
            media_match,
        }
    }

    /// Project the room into an immutable [`RoomSnapshot`] for rendering.
    pub fn snapshot(&self) -> (r: RoomSnapshot)
        requires
            self.wf(),
        ensures
            r@ == room_snapshot(self@),
    {
        let local = LocalSnapshot {
            node: self.local,
            nickname: self.local_nickname.clone(),
            ready: self.local_ready,
            playback: self.local_playback,
            media: clone_media(&self.local_media),
        };
        let n: usize = self.peers.len();
        let mut peers: Vec<PeerSnapshot> = Vec::new();
        let ghost es = self.peers.entries();
        proof {
            self.peers.lemma_entries();
        }
        let mut i: usize = 0;
        while i < n
            invariant
                0 <= i <= n,
                n == es.len(),
                es == self.peers.entries(),
                self.wf(),
                forall|j: int|
                    #![trigger es[j]]
                    0 <= j < n ==> self.peers@.contains_key(es[j].0) && self.peers@[es[j].0]
                        == es[j].1,
                peers@.len() == i,
                forall|j: int| #![trigger peers@[j]] 0 <= j < i ==> peers@[j]@ == peer_snapshot(self@, es[j].0),
            decreases n - i,
        {
            let e = self.peers.at(i);
            peers.push(self.snapshot_of(e.0, e.1));
            i = i + 1;
        }
        let mut chat: Vec<ChatMessage> = Vec::new();
        let mut k: usize = 0;
        while k < self.chat_ring.len()
            invariant
                0 <= k <= self.chat_ring@.len(),
                chat@ =~= self.chat_ring@.take(k as int),
            decreases self.chat_ring@.len() - k,
        {
            chat.push(self.chat_ring[k].clone());
            k = k + 1;
        }
        proof {
            assert(self@.peers.dom() =~= self.peers@.dom());
            assert(chat@ =~= self.chat_ring@);
            let g = |n: NodeId| peer_snapshot(self@, n);
            assert(peer_snapshots_view(peers@) =~= keys_of(es).map_values(g));
        }
        RoomSnapshot {
            local,
            peers,
            chat,
            ready_state: self.ready_gate.state(),
            override_enabled: self.ready_gate.is_override_enabled(),
        }
    }
}

/// Leaving one identifier out of an ascending listing lists the set without
/// it.
proof fn lemma_filtered_listing(keys: Seq<NodeId>, s: Set<NodeId>, joiner: NodeId)
    requires
        lists(keys, s),
    ensures
        listing(s.remove(joiner)) == keys.filter(|k: NodeId| k != joiner),
{
    let f = |k: NodeId| k != joiner;
    lemma_filter_ascending(keys, f);
    let kept = keys.filter(f);
    assert forall|n: NodeId| #[trigger] s.remove(joiner).contains(n) <==> kept.contains(n) by {
        lemma_filter_members(keys, f, n);
    }
    lemma_listing_is(kept, s.remove(joiner));
}

proof fn lemma_filter_members(keys: Seq<NodeId>, f: spec_fn(NodeId) -> bool, n: NodeId)
    ensures
        keys.filter(f).contains(n) <==> keys.contains(n) && f(n),
    decreases keys.len(),
{
    reveal(Seq::filter);
    if keys.len() > 0 {
        let rest = keys.drop_last();
        lemma_filter_members(rest, f, n);
        assert(keys =~= rest.push(keys.last()));
        assert(keys.contains(n) <==> rest.contains(n) || n == keys.last()) by {
            if rest.contains(n) {
                let i = choose|i: int| 0 <= i < rest.len() && rest[i] == n;
                assert(keys[i] == n);
            }
            if n == keys.last() {
                assert(keys[keys.len() - 1] == n);
            }
        }
        let kept = rest.filter(f);
        if f(keys.last()) {
            assert(keys.filter(f) =~= kept.push(keys.last()));
            assert(kept.push(keys.last())[kept.len() as int] == keys.last());
            if kept.contains(n) {
                let i = choose|i: int| 0 <= i < kept.len() && kept[i] == n;
                assert(keys.filter(f)[i] == n);
            }
        }
    }
}

proof fn lemma_filter_ascending(keys: Seq<NodeId>, f: spec_fn(NodeId) -> bool)
    requires
        ascending(keys),
    ensures
        ascending(keys.filter(f)),
    decreases keys.len(),
{
    reveal(Seq::filter);
    if keys.len() > 0 {
        let rest = keys.drop_last();
        lemma_filter_ascending(rest, f);
        let kept = rest.filter(f);
        if f(keys.last()) {
            assert forall|i: int, j: int| 0 <= i < j < kept.len() + 1 implies (
            #[trigger] kept.push(keys.last())[i]).before(#[trigger] kept.push(keys.last())[j]) by {
                if j == kept.len() {
                    assert(kept.contains(kept[i]));
                    lemma_filter_members(rest, f, kept[i]);
                    let k = choose|k: int| 0 <= k < rest.len() && rest[k] == kept[i];
                    assert(keys[k].before(keys[keys.len() - 1]));
                }
            }
        }
    }
}

/// An output says what it is.
pub proof fn law_outputs_say_what_they_are(
    frame: Frame,
    to: NodeId,
    cmd: MpvCommand,
    notice: Notice,
)
    ensures
        Output::Broadcast(frame)@ == OutputView::Broadcast(frame@),
        (Output::SendTo { to, frame })@ == (OutputView::SendTo { to, frame: frame@ }),
        Output::Mpv(cmd)@ == OutputView::Mpv(cmd),
        Output::Notify(notice)@ == OutputView::Notify(notice@),
{
}

} // verus!
