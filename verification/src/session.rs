//! The event loop without its input and output.
//!
//! A [`Session`] owns the room and everything around it: the echo guard, the
//! media collector, the address registry, and which peers are connected or
//! being dialed. Each event (an mpv edge, a key, a frame, a link going up or
//! down, a tick) leads to a list of effects for the caller to carry out.
//!
//! mpv edges are of three kinds. Those that the user caused are broadcast.
//! Those that echo a command of ours are not: the echo guard tells them apart.
//! Positions reported during playback only refresh the local state, but for the
//! first one after a seek, which is the seek's target.

use vstd::prelude::*;

use crate::addrs::{addr_parse, addr_wire, decode_addr, learn, AddrRegistry};
use crate::collector::{MediaCollector, MediaCollectorView};
use crate::double::{hundredths, millis, Double};
use crate::echo::EchoGuard;
use crate::node_id::NodeId;
use crate::node_map::NodeMap;
use crate::player::event::{MpvEvent, MpvEventView};
use crate::protocol::{
    clone_bytes, roster_entry_view, roster_view, ControlAction, ControlActionView, Frame, FrameView,
    PresenceEvent, PresenceEventView, RosterEntry, RosterEntryView,
};
use crate::room::{
    can_number, can_step, can_tick, local_chat, local_control, local_ready, peer_connected,
    peer_disconnected, step, tick, NoticeView, OutputView, RoomView,
};
use crate::state::{
    outputs_view, Input, MpvCommand, Notice, Output, PlaybackState, RoomState,
};
use crate::std_text::lowercase;
use crate::ui::{UiEvent, UiEventView};

verus! {

/// Why a command goes out to mpv.
#[derive(Debug, Clone, Copy, PartialEq, Eq, Structural)]
pub enum MpvDispatchOrigin {
    /// We decided on it.
    Local,
    /// A peer asked for it.
    Remote,
}

/// Something for the caller to do.
#[derive(Debug, PartialEq, Eq)]
pub enum Effect {
    /// Send a frame to every peer, reliably.
    Broadcast(Frame),
    /// Send a frame to every peer as a datagram, which may get lost.
    Datagram(Frame),
    /// Send a frame to one peer, reliably.
    SendTo { to: NodeId, frame: Frame },
    /// Send a command to mpv.
    Mpv(MpvCommand),
    /// Tell the user.
    Notify(Notice),
    /// Dial a peer at an address.
    Dial { node: NodeId, addr_bytes: Vec<u8> },
}

/// What an [`Effect`] says.
pub enum EffectView {
    Broadcast(FrameView),
    Datagram(FrameView),
    SendTo { to: NodeId, frame: FrameView },
    Mpv(MpvCommand),
    Notify(NoticeView),
    Dial { node: NodeId, addr_bytes: Seq<u8> },
}

impl View for Effect {
    type V = EffectView;

    open spec fn view(&self) -> EffectView {
        match self {
            Effect::Broadcast(f) => EffectView::Broadcast(f@),
            Effect::Datagram(f) => EffectView::Datagram(f@),
            Effect::SendTo { to, frame } => EffectView::SendTo { to: *to, frame: frame@ },
            Effect::Mpv(cmd) => EffectView::Mpv(*cmd),
            Effect::Notify(n) => EffectView::Notify(n@),
            Effect::Dial { node, addr_bytes } => EffectView::Dial {
                node: *node,
                addr_bytes: addr_bytes@,
            },
        }
    }
}

/// What a list of effects says.
pub open spec fn effects_view(effects: Seq<Effect>) -> Seq<EffectView> {
    effects.map_values(|e: Effect| e@)
}

/// What a [`Session`] knows.
pub struct SessionView {
    pub room: RoomView,
    pub echo: EchoGuard,
    pub media: MediaCollectorView,
    pub addrs: Map<NodeId, Seq<u8>>,
    pub connected: Set<NodeId>,
    pub pending_dials: Set<NodeId>,
    pub seek_in_progress: bool,
    pub seek_just_completed: bool,
}

/// A session of a room.
pub open spec fn new_session(room: RoomView, own_addr: Seq<u8>) -> SessionView {
    SessionView {
        room,
        echo: EchoGuard { pending_pause: None, pending_seek: None, pending_speed: None },
        media: MediaCollectorView::empty(),
        addrs: Map::<NodeId, Seq<u8>>::empty().insert(room.local, own_addr),
        connected: Set::empty(),
        pending_dials: Set::empty(),
        seek_in_progress: false,
        seek_just_completed: false,
    }
}

// --- Echo guard ---

/// The guard after a command went out to mpv.
pub open spec fn armed(echo: EchoGuard, cmd: MpvCommand, origin: MpvDispatchOrigin, now_ms: u64) ->
    EchoGuard {
    let deadline_ms = crate::echo::deadline(now_ms);
    match cmd {
        MpvCommand::Pause(expected) => EchoGuard {
            pending_pause: Some(crate::echo::PendingPause { expected, deadline_ms }),
            ..echo
        },
        MpvCommand::Seek { media_pos_ms } => EchoGuard {
            pending_seek: Some(
                crate::echo::PendingSeek {
                    expected: media_pos_ms,
                    deadline_ms,
                    origin: match origin {
                        MpvDispatchOrigin::Local => crate::echo::SeekOrigin::Local,
                        MpvDispatchOrigin::Remote => crate::echo::SeekOrigin::Remote,
                    },
                },
            ),
            ..echo
        },
        MpvCommand::SetSpeed { speed_centi } => EchoGuard {
            pending_speed: Some(
                crate::echo::PendingSpeed { expected: speed_centi, deadline_ms },
            ),
            ..echo
        },
    }
}

/// Remember a command that is about to go out to mpv.
pub fn arm_echo_for_dispatch(
    echo: &mut EchoGuard,
    cmd: MpvCommand,
    origin: MpvDispatchOrigin,
    now_ms: u64,
)
    ensures
        *final(echo) == armed(*old(echo), cmd, origin, now_ms),
{
    match cmd {
        MpvCommand::Pause(p) => echo.record_pause(p, now_ms),
        MpvCommand::Seek { media_pos_ms } => match origin {
            MpvDispatchOrigin::Local => echo.record_seek(media_pos_ms, now_ms),
            MpvDispatchOrigin::Remote => echo.record_seek_remote(media_pos_ms, now_ms),
        },
        MpvCommand::SetSpeed { speed_centi } => echo.record_speed(speed_centi, now_ms),
    }
}

/// What the first position after a seek means: the echo of a seek of ours, or a
/// seek of the user to be broadcast.
pub fn classify_post_seek_timepos(
    echo: &mut EchoGuard,
    media_pos_ms: u64,
    paused: bool,
    speed_centi: u16,
    now_ms: u64,
) -> (r: Input)
    ensures
        *final(echo) == old(echo).after_seek(media_pos_ms, now_ms),
        r == post_seek_input(*old(echo), media_pos_ms, paused, speed_centi, now_ms),
{
    if echo.consume_seek(media_pos_ms, now_ms) {
        Input::MpvStateUpdate { media_pos_ms, paused, speed_centi }
    } else {
        Input::LocalControl { action: ControlAction::Seek { media_pos_ms }, now_ms }
    }
}

// --- From outputs to effects ---

/// A roster entry with its address filled in, if it has none and we know it.
pub open spec fn filled_entry(addrs: Map<NodeId, Seq<u8>>, e: RosterEntryView) -> RosterEntryView {
    if e.2.len() > 0 {
        e
    } else if addrs.contains_key(e.0) {
        (e.0, e.1, addrs[e.0])
    } else {
        (e.0, e.1, Seq::empty())
    }
}

/// A frame with the addresses of a roster filled in.
pub open spec fn filled(addrs: Map<NodeId, Seq<u8>>, f: FrameView) -> FrameView {
    match f {
        FrameView::Presence(PresenceEventView::PeerList { peers }) => FrameView::Presence(
            PresenceEventView::PeerList {
                peers: peers.map_values(|e: RosterEntryView| filled_entry(addrs, e)),
            },
        ),
        _ => f,
    }
}

/// What one output leads to.
pub open spec fn dispatch_one(
    s: SessionView,
    out: OutputView,
    origin: MpvDispatchOrigin,
    now_ms: u64,
) -> (SessionView, Seq<EffectView>) {
    match out {
        OutputView::Broadcast(f) => (
            s,
            seq![
                if f is Heartbeat {
                    EffectView::Datagram(f)
                } else {
                    EffectView::Broadcast(filled(s.addrs, f))
                },
            ],
        ),
        OutputView::SendTo { to, frame } => (
            s,
            if s.connected.contains(to) {
                seq![EffectView::SendTo { to, frame: filled(s.addrs, frame) }]
            } else {
                seq![]
            },
        ),
        OutputView::Mpv(cmd) => (
            SessionView { echo: armed(s.echo, cmd, origin, now_ms), ..s },
            seq![EffectView::Mpv(cmd)],
        ),
        OutputView::Notify(n) => (s, seq![EffectView::Notify(n)]),
    }
}

/// What a list of outputs leads to, one after the other.
pub open spec fn dispatch_all(
    s: SessionView,
    outs: Seq<OutputView>,
    origin: MpvDispatchOrigin,
    now_ms: u64,
) -> (SessionView, Seq<EffectView>)
    decreases outs.len(),
{
    if outs.len() == 0 {
        (s, seq![])
    } else {
        let before = dispatch_all(s, outs.drop_last(), origin, now_ms);
        let here = dispatch_one(before.0, outs.last(), origin, now_ms);
        (here.0, before.1 + here.1)
    }
}

/// The room moved on; its outputs are dispatched.
pub open spec fn deliver(
    s: SessionView,
    next: (RoomView, Seq<OutputView>),
    origin: MpvDispatchOrigin,
    now_ms: u64,
) -> (SessionView, Seq<EffectView>) {
    dispatch_all(SessionView { room: next.0, ..s }, next.1, origin, now_ms)
}

// --- Events ---

/// The room with other playback, and nothing to send.
pub open spec fn refreshed(room: RoomView, playback: PlaybackState) -> (RoomView, Seq<OutputView>) {
    (RoomView { local_playback: playback, ..room }, seq![])
}

/// What a tick leads to. Whatever it has mpv do is our own decision.
pub open spec fn tick_step(s: SessionView, now_ms: u64) -> (SessionView, Seq<EffectView>) {
    deliver(s, tick(s.room, now_ms), MpvDispatchOrigin::Local, now_ms)
}

/// The address of a node was recorded.
pub open spec fn recorded(s: SessionView, node: NodeId, bytes: Seq<u8>) -> SessionView {
    SessionView { addrs: learn(s.addrs, node, bytes), ..s }
}

/// A dial is over, one way or the other.
pub open spec fn dialed(s: SessionView, node: NodeId) -> SessionView {
    SessionView { pending_dials: s.pending_dials.remove(node), ..s }
}

/// What the first position after a seek means.
pub open spec fn post_seek_input(
    echo: EchoGuard,
    media_pos_ms: u64,
    paused: bool,
    speed_centi: u16,
    now_ms: u64,
) -> Input {
    if echo.echoes_seek(media_pos_ms, now_ms) {
        Input::MpvStateUpdate { media_pos_ms, paused, speed_centi }
    } else {
        Input::LocalControl { action: ControlAction::Seek { media_pos_ms }, now_ms }
    }
}

/// What the user's wish leads to.
pub open spec fn ui_step(s: SessionView, ev: UiEventView, now_ms: u64) -> (
    SessionView,
    Seq<EffectView>,
) {
    let pos = s.room.local_playback.media_pos_ms;
    match ev {
        UiEventView::ToggleReady => deliver(
            s,
            local_ready(s.room, !s.room.local_ready),
            MpvDispatchOrigin::Local,
            now_ms,
        ),
        UiEventView::TogglePauseRelay => deliver(
            s,
            local_control(
                s.room,
                if s.room.local_playback.paused {
                    ControlActionView::Play { media_pos_ms: pos }
                } else {
                    ControlActionView::Pause { media_pos_ms: pos }
                },
                now_ms,
                true,
            ),
            MpvDispatchOrigin::Local,
            now_ms,
        ),
        UiEventView::SubmitChat(text) => if text.len() == 0 {
            (s, seq![])
        } else {
            deliver(s, local_chat(s.room, text, now_ms), MpvDispatchOrigin::Local, now_ms)
        },
        UiEventView::ToggleOverride => deliver(
            s,
            (
                RoomView {
                    gate: crate::ready::ReadyGateView {
                        override_enabled: !s.room.gate.override_enabled,
                        ..s.room.gate
                    },
                    ..s.room
                },
                seq![],
            ),
            MpvDispatchOrigin::Local,
            now_ms,
        ),
        UiEventView::CopyTicket => (s, seq![]),
        UiEventView::Quit => (s, seq![]),
    }
}

/// A change of the loaded file is announced, once everything about it is known.
pub open spec fn media_step(s: SessionView, now_ms: u64) -> (SessionView, Seq<EffectView>) {
    match s.media.news() {
        Some(id) => deliver(
            SessionView {
                media: MediaCollectorView { last_emitted: Some(id), ..s.media },
                ..s
            },
            local_control(s.room, ControlActionView::MediaChanged { id }, now_ms, false),
            MpvDispatchOrigin::Local,
            now_ms,
        ),
        None => (s, seq![]),
    }
}

/// The collector after a media event.
pub open spec fn collected(c: MediaCollectorView, ev: MpvEventView) -> MediaCollectorView {
    match ev {
        MpvEventView::Filename(name) => c.with_filename(lowercase(name)),
        MpvEventView::Duration(d) => MediaCollectorView {
            duration_s: Some(crate::double::whole_seconds(d@) as u32),
            ..c
        },
        MpvEventView::FileSize(n) => MediaCollectorView { file_size: Some(n), ..c },
        _ => c,
    }
}

/// What an event of mpv leads to.
pub open spec fn mpv_step(s: SessionView, ev: MpvEventView, now_ms: u64) -> (
    SessionView,
    Seq<EffectView>,
) {
    let playback = s.room.local_playback;
    let pos = playback.media_pos_ms;
    match ev {
        MpvEventView::Pause(paused) => deliver(
            SessionView { echo: s.echo.after_pause(paused, now_ms), ..s },
            if s.echo.echoes_pause(paused, now_ms) {
                refreshed(s.room, PlaybackState { paused, ..playback })
            } else {
                local_control(
                    s.room,
                    if paused {
                        ControlActionView::Pause { media_pos_ms: pos }
                    } else {
                        ControlActionView::Play { media_pos_ms: pos }
                    },
                    now_ms,
                    false,
                )
            },
            MpvDispatchOrigin::Local,
            now_ms,
        ),
        MpvEventView::TimePos(secs) => {
            let media_pos_ms = millis(secs@) as u64;
            if s.seek_just_completed {
                deliver(
                    SessionView {
                        seek_just_completed: false,
                        echo: s.echo.after_seek(media_pos_ms, now_ms),
                        ..s
                    },
                    if s.echo.echoes_seek(media_pos_ms, now_ms) {
                        refreshed(s.room, PlaybackState { media_pos_ms, ..playback })
                    } else {
                        local_control(
                            s.room,
                            ControlActionView::Seek { media_pos_ms },
                            now_ms,
                            false,
                        )
                    },
                    MpvDispatchOrigin::Local,
                    now_ms,
                )
            } else {
                deliver(
                    s,
                    refreshed(s.room, PlaybackState { media_pos_ms, ..playback }),
                    MpvDispatchOrigin::Local,
                    now_ms,
                )
            }
        },
        MpvEventView::Speed(x) => {
            let speed_centi = hundredths(x@) as u16;
            deliver(
                SessionView { echo: s.echo.after_speed(speed_centi, now_ms), ..s },
                if s.echo.echoes_speed(speed_centi, now_ms) {
                    refreshed(s.room, PlaybackState { speed_centi, ..playback })
                } else {
                    local_control(
                        s.room,
                        ControlActionView::SetSpeed { speed_centi },
                        now_ms,
                        false,
                    )
                },
                MpvDispatchOrigin::Local,
                now_ms,
            )
        },
        MpvEventView::Seeking => (SessionView { seek_in_progress: true, ..s }, seq![]),
        MpvEventView::PlaybackRestart => (
            if s.seek_in_progress {
                SessionView { seek_in_progress: false, seek_just_completed: true, ..s }
            } else {
                s
            },
            seq![],
        ),
        MpvEventView::EofReached => (s, seq![]),
        MpvEventView::Shutdown => (s, seq![]),
        _ => media_step(SessionView { media: collected(s.media, ev), ..s }, now_ms),
    }
}

/// The event leads to an event of ours that has to be numbered.
pub open spec fn mpv_numbers(s: SessionView, ev: MpvEventView, now_ms: u64) -> bool {
    match ev {
        MpvEventView::Pause(p) => !s.echo.echoes_pause(p, now_ms),
        MpvEventView::TimePos(secs) => s.seek_just_completed && !s.echo.echoes_seek(
            millis(secs@) as u64,
            now_ms,
        ),
        MpvEventView::Speed(x) => !s.echo.echoes_speed(hundredths(x@) as u16, now_ms),
        MpvEventView::Filename(_) => collected(s.media, ev).news() is Some,
        MpvEventView::Duration(_) => collected(s.media, ev).news() is Some,
        MpvEventView::FileSize(_) => collected(s.media, ev).news() is Some,
        _ => false,
    }
}

/// What one roster entry tells the transport: an address, and perhaps a peer to
/// dial. Ourselves, peers that we are connected to or dialing, and peers
/// without a readable address are left alone.
pub open spec fn snoop_entry(s: SessionView, e: RosterEntryView) -> (SessionView, Seq<EffectView>) {
    if e.0 == s.room.local {
        (s, seq![])
    } else {
        let known = SessionView { addrs: learn(s.addrs, e.0, e.2), ..s };
        if s.connected.contains(e.0) || s.pending_dials.contains(e.0) || e.2.len() == 0
            || addr_parse(e.2) is None {
            (known, seq![])
        } else {
            (
                SessionView { pending_dials: known.pending_dials.insert(e.0), ..known },
                seq![EffectView::Dial { node: e.0, addr_bytes: e.2 }],
            )
        }
    }
}

/// What a roster tells the transport.
pub open spec fn snoop_roster(s: SessionView, roster: Seq<RosterEntryView>) -> (
    SessionView,
    Seq<EffectView>,
)
    decreases roster.len(),
{
    if roster.len() == 0 {
        (s, seq![])
    } else {
        let before = snoop_roster(s, roster.drop_last());
        let here = snoop_entry(before.0, roster.last());
        (here.0, before.1 + here.1)
    }
}

/// What a frame tells the transport, before the room sees it.
pub open spec fn snoop(s: SessionView, f: FrameView) -> (SessionView, Seq<EffectView>) {
    match f {
        FrameView::Presence(PresenceEventView::AddrAnnounce { node, addr_bytes }) => (
            if node == s.room.local {
                s
            } else {
                SessionView { addrs: learn(s.addrs, node, addr_bytes), ..s }
            },
            seq![],
        ),
        FrameView::Presence(PresenceEventView::PeerList { peers }) => snoop_roster(s, peers),
        _ => (s, seq![]),
    }
}

/// What a frame of a peer leads to.
pub open spec fn frame_step(
    s: SessionView,
    from: NodeId,
    f: FrameView,
    rtt_sample_ms: Option<u32>,
    now_ms: u64,
) -> (SessionView, Seq<EffectView>) {
    let heard = snoop(s, f);
    let after = deliver(
        heard.0,
        crate::room::inbound_frame(s.room, from, f, now_ms, rtt_sample_ms),
        MpvDispatchOrigin::Remote,
        now_ms,
    );
    (after.0, heard.1 + after.1)
}

/// What a new link leads to: the peer is told our address, and the room is
/// told of the peer, under an abbreviated identifier until it names itself.
pub open spec fn connect_step(
    s: SessionView,
    node: NodeId,
    addr_bytes: Option<Seq<u8>>,
    own_addr: Seq<u8>,
    now_ms: u64,
) -> (SessionView, Seq<EffectView>) {
    let local = s.room.local;
    let known = match addr_bytes {
        Some(b) => learn(s.addrs, node, b),
        None => s.addrs,
    };
    let linked = SessionView {
        addrs: known.insert(local, own_addr),
        connected: s.connected.insert(node),
        pending_dials: s.pending_dials.remove(node),
        ..s
    };
    let after = deliver(
        linked,
        peer_connected(s.room, node, node.short_name(), now_ms),
        MpvDispatchOrigin::Local,
        now_ms,
    );
    (
        after.0,
        seq![
            EffectView::SendTo {
                to: node,
                frame: FrameView::Presence(
                    PresenceEventView::AddrAnnounce { node: local, addr_bytes: own_addr },
                ),
            },
        ] + after.1,
    )
}

/// What a lost link leads to.
pub open spec fn disconnect_step(s: SessionView, node: NodeId, now_ms: u64) -> (
    SessionView,
    Seq<EffectView>,
) {
    if s.connected.contains(node) {
        deliver(
            SessionView { connected: s.connected.remove(node), ..s },
            peer_disconnected(s.room, node),
            MpvDispatchOrigin::Local,
            now_ms,
        )
    } else {
        (s, seq![])
    }
}

// --- The session ---

/// The room and everything around it.
#[derive(Debug)]
pub struct Session {
    room: RoomState,
    echo: EchoGuard,
    media: MediaCollector,
    addrs: AddrRegistry,
    connected: NodeMap<()>,
    /// Peers that are being dialed.
    pending_dials: NodeMap<()>,
    /// mpv is seeking.
    seek_in_progress: bool,
    /// A seek is over; the next position is its target.
    seek_just_completed: bool,
}

impl View for Session {
    type V = SessionView;

    closed spec fn view(&self) -> SessionView {
        SessionView {
            room: self.room@,
            echo: self.echo,
            media: self.media@,
            addrs: self.addrs@,
            connected: self.connected@.dom(),
            pending_dials: self.pending_dials@.dom(),
            seek_in_progress: self.seek_in_progress,
            seek_just_completed: self.seek_just_completed,
        }
    }
}

/// Moves the items of `tail` to the end of `effects`.
fn extend(effects: &mut Vec<Effect>, tail: Vec<Effect>)
    ensures
        effects_view(final(effects)@) == effects_view(old(effects)@) + effects_view(tail@),
{
    let mut tail = tail;
    let ghost before = effects@;
    let ghost more = tail@;
    effects.append(&mut tail);
    assert(effects_view(effects@) =~= effects_view(before) + effects_view(more));
}

impl Session {
    pub closed spec fn wf(&self) -> bool {
        &&& self.room.wf()
        &&& self.addrs.wf()
        &&& self.connected.wf()
        &&& self.pending_dials.wf()
    }

    /// A session of a room, reachable at the given address.
    pub fn new(room: RoomState, own_addr: &iroh::EndpointAddr) -> (r: Self)
        requires
            room.wf(),
        ensures
            r.wf(),
            r@ == new_session(room@, addr_wire(*own_addr)),
    {
        let local = room.local_node();
        let r = Session {
            room,
            echo: EchoGuard::new(),
            media: MediaCollector::new(),
            addrs: AddrRegistry::with_self(local, own_addr),
            connected: NodeMap::new(),
            pending_dials: NodeMap::new(),
            seek_in_progress: false,
            seek_just_completed: false,
        };
        proof {
            assert(r@.connected =~= Set::empty());
            assert(r@.pending_dials =~= Set::empty());
        }
        r
    }

    /// The room.
    pub fn room(&self) -> (r: &RoomState)
        requires
            self.wf(),
        ensures
            r.wf(),
            r@ == self@.room,
    {
        &self.room
    }

    /// Record the address of a peer, such as the host named by a ticket.
    pub fn record_addr(&mut self, node: NodeId, bytes: Vec<u8>)
        requires
            old(self).wf(),
        ensures
            final(self).wf(),
            final(self)@ == recorded(old(self)@, node, bytes@),
    {
        self.addrs.insert(node, bytes);
    }

    /// Fill in the addresses of a roster that the room made with empty ones.
    /// Peers whose address we do not know keep an empty one.
    pub fn fill_peer_list_addrs(&self, frame: Frame) -> (r: Frame)
        requires
            self.wf(),
        ensures
            r@ == filled(self@.addrs, frame@),
    {
        match frame {
            Frame::Presence(PresenceEvent::PeerList { peers }) => {
                let rewritten = self.fill_roster(&peers);
                Frame::Presence(PresenceEvent::PeerList { peers: rewritten })
            }
            other => other,
        }
    }

    fn fill_roster(&self, peers: &Vec<RosterEntry>) -> (r: Vec<RosterEntry>)
        requires
            self.wf(),
        ensures
            roster_view(r@) == roster_view(peers@).map_values(
                |e: RosterEntryView| filled_entry(self@.addrs, e),
            ),
    {
        let mut r: Vec<RosterEntry> = Vec::new();
        let mut i: usize = 0;
        while i < peers.len()
            invariant
                0 <= i <= peers@.len(),
                self.wf(),
                r@.len() == i,
                forall|j: int|
                    #![trigger r@[j]]
                    0 <= j < i ==> roster_entry_view(r@[j]) == filled_entry(
                        self@.addrs,
                        roster_entry_view(peers@[j]),
                    ),
            decreases peers@.len() - i,
        {
            let e = &peers[i];
            let bytes = if e.2.len() > 0 {
                clone_bytes(e.2.as_slice())
            } else {
                self.addrs.get_or_empty(&e.0)
            };
            r.push((e.0, e.1.clone(), bytes));
            i = i + 1;
        }
        proof {
            let f = |e: RosterEntryView| filled_entry(self@.addrs, e);
            assert(roster_view(r@) =~= roster_view(peers@).map_values(f));
        }
        r
    }

    fn dispatch_one(&mut self, out: Output, origin: MpvDispatchOrigin, now_ms: u64) -> (r: Vec<
        Effect,
    >)
        requires
            old(self).wf(),
        ensures
            final(self).wf(),
            (final(self)@, effects_view(r@)) == dispatch_one(
                old(self)@,
                out@,
                origin,
                now_ms,
            ),
    {
        let mut effects: Vec<Effect> = Vec::new();
        match out {
            Output::Broadcast(frame) => {
                // Heartbeats tolerate loss; everything else does not.
                if let Frame::Heartbeat(hb) = frame {
                    effects.push(Effect::Datagram(Frame::Heartbeat(hb)));
                } else {
                    effects.push(Effect::Broadcast(self.fill_peer_list_addrs(frame)));
                }
            }
            Output::SendTo { to, frame } => {
                if self.connected.contains_key(&to) {
                    effects.push(Effect::SendTo { to, frame: self.fill_peer_list_addrs(frame) });
                }
            }
            Output::Mpv(cmd) => {
                // Armed before the command is sent, so that its echo cannot
                // come first.
                arm_echo_for_dispatch(&mut self.echo, cmd, origin, now_ms);
                effects.push(Effect::Mpv(cmd));
            }
            Output::Notify(notice) => {
                effects.push(Effect::Notify(notice));
            }
        }
        assert(effects_view(effects@) =~= dispatch_one(old(self)@, out@, origin, now_ms).1);
        effects
    }

    fn dispatch(&mut self, outs: Vec<Output>, origin: MpvDispatchOrigin, now_ms: u64) -> (r: Vec<
        Effect,
    >)
        requires
            old(self).wf(),
        ensures
            final(self).wf(),
            (final(self)@, effects_view(r@)) == dispatch_all(
                old(self)@,
                outputs_view(outs@),
                origin,
                now_ms,
            ),
    {
        let mut left = outs;
        let mut effects: Vec<Effect> = Vec::new();
        let ghost all = outputs_view(left@);
        let ghost mut done: int = 0;
        proof {
            assert(effects_view(effects@) =~= Seq::<EffectView>::empty());
            assert(all.take(0) =~= Seq::empty());
            assert(all.skip(0) =~= all);
        }
        while left.len() > 0
            invariant
                self.wf(),
                0 <= done <= all.len(),
                outputs_view(left@) == all.skip(done),
                left@.len() == all.len() - done,
                (self@, effects_view(effects@)) == dispatch_all(
                    old(self)@,
                    all.take(done),
                    origin,
                    now_ms,
                ),
            decreases left@.len(),
        {
            let ghost before = left@;
            let out = left.remove(0);
            proof {
                assert(out@ == all[done]) by {
                    assert(outputs_view(before)[0] == all.skip(done)[0]);
                }
                assert forall|i: int| 0 <= i < left@.len() implies #[trigger] outputs_view(left@)[i]
                    == all.skip(done + 1)[i] by {
                    assert(left@[i] == before[i + 1]);
                    assert(outputs_view(before)[i + 1] == all.skip(done)[i + 1]);
                }
                assert(outputs_view(left@) =~= all.skip(done + 1));
                assert(all.take(done + 1).drop_last() =~= all.take(done));
            }
            let tail = self.dispatch_one(out, origin, now_ms);
            extend(&mut effects, tail);
            proof {
                done = done + 1;
            }
        }
        proof {
            assert(all.take(all.len() as int) =~= all);
        }
        effects
    }

    /// Drive the room with one input and dispatch what comes out.
    fn apply(&mut self, input: Input, origin: MpvDispatchOrigin, now_ms: u64) -> (r: Vec<Effect>)
        requires
            old(self).wf(),
            can_step(old(self)@.room, input),
        ensures
            final(self).wf(),
            (final(self)@, effects_view(r@)) == deliver(
                old(self)@,
                step(old(self)@.room, input),
                origin,
                now_ms,
            ),
    {
        let outs = self.room.apply(input);
        self.dispatch(outs, origin, now_ms)
    }

    /// Whether one more event of ours can be numbered.
    pub fn has_numbers_left(&self) -> (r: bool)
        requires
            self.wf(),
        ensures
            r == can_number(self@.room),
    {
        self.room.can_apply(
            &Input::LocalControl { action: ControlAction::SetSpeed { speed_centi: 0 }, now_ms: 0 },
        )
    }

    /// Whether the drift computation of a tick stays within its number range.
    pub fn can_tick(&self, now_ms: u64) -> (r: bool)
        requires
            self.wf(),
        ensures
            r == can_tick(self@.room, now_ms),
    {
        self.room.can_apply(&Input::Tick { now_ms })
    }

    /// The user wants something.
    pub fn on_ui_event(&mut self, ev: UiEvent, now_ms: u64) -> (r: Vec<Effect>)
        requires
            old(self).wf(),
            ev is TogglePauseRelay ==> can_number(old(self)@.room),
        ensures
            final(self).wf(),
            (final(self)@, effects_view(r@)) == ui_step(old(self)@, ev@, now_ms),
    {
        proof {
            assert(effects_view(Seq::<Effect>::empty()) =~= Seq::<EffectView>::empty());
        }
        match ev {
            UiEvent::ToggleReady => {
                let ready = !self.room.local_ready();
                self.apply(
                    Input::LocalReady { ready, now_ms },
                    MpvDispatchOrigin::Local,
                    now_ms,
                )
            }
            UiEvent::TogglePauseRelay => {
                let playback = self.room.local_playback();
                let action = if playback.paused {
                    ControlAction::Play { media_pos_ms: playback.media_pos_ms }
                } else {
                    ControlAction::Pause { media_pos_ms: playback.media_pos_ms }
                };
                self.apply(
                    Input::UiControl { action, now_ms },
                    MpvDispatchOrigin::Local,
                    now_ms,
                )
            }
            UiEvent::SubmitChat(text) => {
                if text.as_str().is_empty() {
                    return Vec::new();
                }
                self.apply(Input::LocalChat { text, now_ms }, MpvDispatchOrigin::Local, now_ms)
            }
            UiEvent::ToggleOverride => {
                let enabled = !self.room.ready_gate().is_override_enabled();
                self.apply(Input::SetOverride { enabled }, MpvDispatchOrigin::Local, now_ms)
            }
            UiEvent::CopyTicket => Vec::new(),
            UiEvent::Quit => Vec::new(),
        }
    }

    /// A second has passed.
    pub fn on_tick(&mut self, now_ms: u64) -> (r: Vec<Effect>)
        requires
            old(self).wf(),
            can_tick(old(self)@.room, now_ms),
        ensures
            final(self).wf(),
            (final(self)@, effects_view(r@)) == tick_step(old(self)@, now_ms),
    {
        self.apply(Input::Tick { now_ms }, MpvDispatchOrigin::Local, now_ms)
    }

    /// mpv reported something.
    pub fn on_mpv(&mut self, ev: MpvEvent, now_ms: u64) -> (r: Vec<Effect>)
        requires
            old(self).wf(),
            mpv_numbers(old(self)@, ev@, now_ms) ==> can_number(old(self)@.room),
        ensures
            final(self).wf(),
            (final(self)@, effects_view(r@)) == mpv_step(old(self)@, ev@, now_ms),
    {
        proof {
            assert(effects_view(Seq::<Effect>::empty()) =~= Seq::<EffectView>::empty());
        }
        match ev {
            MpvEvent::Pause(paused) => self.on_mpv_pause(paused, now_ms),
            MpvEvent::TimePos(secs) => self.on_mpv_time_pos(secs, now_ms),
            MpvEvent::Speed(raw) => self.on_mpv_speed(raw, now_ms),
            MpvEvent::Seeking => {
                self.seek_in_progress = true;
                Vec::new()
            }
            MpvEvent::PlaybackRestart => {
                if self.seek_in_progress {
                    self.seek_just_completed = true;
                    self.seek_in_progress = false;
                }
                Vec::new()
            }
            MpvEvent::Filename(name) => {
                self.media.on_filename(name.as_str());
                self.maybe_publish_media(now_ms)
            }
            MpvEvent::Duration(d) => {
                self.media.on_duration_secs(d);
                self.maybe_publish_media(now_ms)
            }
            MpvEvent::FileSize(n) => {
                self.media.on_file_size(n);
                self.maybe_publish_media(now_ms)
            }
            MpvEvent::EofReached => Vec::new(),
            MpvEvent::Shutdown => Vec::new(),
        }
    }

    fn on_mpv_pause(&mut self, paused: bool, now_ms: u64) -> (r: Vec<Effect>)
        requires
            old(self).wf(),
            !old(self)@.echo.echoes_pause(paused, now_ms) ==> can_number(old(self)@.room),
        ensures
            final(self).wf(),
            (final(self)@, effects_view(r@)) == mpv_step(
                old(self)@,
                MpvEventView::Pause(paused),
                now_ms,
            ),
    {
        let playback = self.room.local_playback();
        let input = if self.echo.consume_pause(paused, now_ms) {
            // An echo: refresh the local state only.
            Input::MpvStateUpdate {
                media_pos_ms: playback.media_pos_ms,
                paused,
                speed_centi: playback.speed_centi,
            }
        } else if paused {
            Input::LocalControl {
                action: ControlAction::Pause { media_pos_ms: playback.media_pos_ms },
                now_ms,
            }
        } else {
            Input::LocalControl {
                action: ControlAction::Play { media_pos_ms: playback.media_pos_ms },
                now_ms,
            }
        };
        self.apply(input, MpvDispatchOrigin::Local, now_ms)
    }

    fn on_mpv_time_pos(&mut self, secs: Double, now_ms: u64) -> (r: Vec<Effect>)
        requires
            old(self).wf(),
            mpv_numbers(old(self)@, MpvEventView::TimePos(secs), now_ms) ==> can_number(
                old(self)@.room,
            ),
        ensures
            final(self).wf(),
            (final(self)@, effects_view(r@)) == mpv_step(
                old(self)@,
                MpvEventView::TimePos(secs),
                now_ms,
            ),
    {
        let ms: u64 = secs.seconds_to_millis();
        let playback = self.room.local_playback();
        if self.seek_just_completed {
            self.seek_just_completed = false;
            let input = classify_post_seek_timepos(
                &mut self.echo,
                ms,
                playback.paused,
                playback.speed_centi,
                now_ms,
            );
            return self.apply(input, MpvDispatchOrigin::Local, now_ms);
        }
        self.apply(
            Input::MpvStateUpdate {
                media_pos_ms: ms,
                paused: playback.paused,
                speed_centi: playback.speed_centi,
            },
            MpvDispatchOrigin::Local,
            now_ms,
        )
    }

    fn on_mpv_speed(&mut self, raw: Double, now_ms: u64) -> (r: Vec<Effect>)
        requires
            old(self).wf(),
            mpv_numbers(old(self)@, MpvEventView::Speed(raw), now_ms) ==> can_number(
                old(self)@.room,
            ),
        ensures
            final(self).wf(),
            (final(self)@, effects_view(r@)) == mpv_step(
                old(self)@,
                MpvEventView::Speed(raw),
                now_ms,
            ),
    {
        let centi: u16 = raw.to_hundredths();
        let playback = self.room.local_playback();
        let input = if self.echo.consume_speed(centi, now_ms) {
            Input::MpvStateUpdate {
                media_pos_ms: playback.media_pos_ms,
                paused: playback.paused,
                speed_centi: centi,
            }
        } else {
            Input::LocalControl { action: ControlAction::SetSpeed { speed_centi: centi }, now_ms }
        };
        self.apply(input, MpvDispatchOrigin::Local, now_ms)
    }

    fn maybe_publish_media(&mut self, now_ms: u64) -> (r: Vec<Effect>)
        requires
            old(self).wf(),
            old(self)@.media.news() is Some ==> can_number(old(self)@.room),
        ensures
            final(self).wf(),
            (final(self)@, effects_view(r@)) == media_step(old(self)@, now_ms),
    {
        proof {
            assert(effects_view(Seq::<Effect>::empty()) =~= Seq::<EffectView>::empty());
        }
        match self.media.take_if_changed() {
            Some(media) => self.apply(
                Input::LocalMediaChanged { media, now_ms },
                MpvDispatchOrigin::Local,
                now_ms,
            ),
            None => Vec::new(),
        }
    }

    /// Take note of the addresses on a roster, and of the peers to dial.
    fn snoop_roster(&mut self, roster: &Vec<RosterEntry>) -> (r: Vec<Effect>)
        requires
            old(self).wf(),
        ensures
            final(self).wf(),
            (final(self)@, effects_view(r@)) == snoop_roster(old(self)@, roster_view(roster@)),
    {
        let mut effects: Vec<Effect> = Vec::new();
        let ghost all = roster_view(roster@);
        let mut i: usize = 0;
        proof {
            assert(effects_view(effects@) =~= Seq::<EffectView>::empty());
            assert(all.take(0) =~= Seq::empty());
        }
        while i < roster.len()
            invariant
                0 <= i <= roster@.len(),
                all == roster_view(roster@),
                self.wf(),
                (self@, effects_view(effects@)) == snoop_roster(old(self)@, all.take(i as int)),
            decreases roster@.len() - i,
        {
            proof {
                assert(all.take(i + 1).drop_last() =~= all.take(i as int));
                assert(all.take(i + 1).last() == roster_entry_view(roster@[i as int]));
            }
            let tail = self.snoop_entry(&roster[i]);
            extend(&mut effects, tail);
            i = i + 1;
        }
        proof {
            assert(all.take(all.len() as int) =~= all);
        }
        effects
    }

    fn snoop_entry(&mut self, e: &RosterEntry) -> (r: Vec<Effect>)
        requires
            old(self).wf(),
        ensures
            final(self).wf(),
            (final(self)@, effects_view(r@)) == snoop_entry(old(self)@, roster_entry_view(*e)),
    {
        let mut effects: Vec<Effect> = Vec::new();
        proof {
            assert(effects_view(effects@) =~= Seq::<EffectView>::empty());
        }
        let node = e.0;
        if node == self.room.local_node() {
            return effects;
        }
        self.addrs.insert(node, clone_bytes(e.2.as_slice()));
        if self.connected.contains_key(&node) || self.pending_dials.contains_key(&node) {
            return effects;
        }
        if e.2.len() == 0 || decode_addr(e.2.as_slice()).is_none() {
            return effects;
        }
        let ghost pending = self.pending_dials@;
        self.pending_dials.insert(node, ());
        effects.push(Effect::Dial { node, addr_bytes: clone_bytes(e.2.as_slice()) });
        proof {
            assert(self.pending_dials@.dom() =~= pending.dom().insert(node));
            assert(effects_view(effects@) =~= seq![
                EffectView::Dial { node, addr_bytes: e.2@ },
            ]);
        }
        effects
    }

    /// A frame arrived from a peer, with a fresh round-trip sample if there is
    /// one. Addresses in it are noted before the room sees it.
    pub fn on_peer_frame(
        &mut self,
        from: NodeId,
        frame: Frame,
        rtt_sample_ms: Option<u32>,
        now_ms: u64,
    ) -> (r: Vec<Effect>)
        requires
            old(self).wf(),
        ensures
            final(self).wf(),
            (final(self)@, effects_view(r@)) == frame_step(
                old(self)@,
                from,
                frame@,
                rtt_sample_ms,
                now_ms,
            ),
    {
        let ghost before = self@;
        let mut effects: Vec<Effect> = Vec::new();
        proof {
            assert(effects_view(effects@) =~= Seq::<EffectView>::empty());
        }
        if let Frame::Presence(presence) = &frame {
            match presence {
                PresenceEvent::AddrAnnounce { node, addr_bytes } => {
                    let local = self.room.local_node();
                    self.addrs.apply_announce(*node, addr_bytes.as_slice(), local);
                }
                PresenceEvent::PeerList { peers } => {
                    effects = self.snoop_roster(peers);
                    proof {
                        lemma_snoop_keeps_room(before, roster_view(peers@));
                    }
                }
                _ => {}
            }
        }
        assert((self@, effects_view(effects@)) == snoop(before, frame@));
        assert(self@.room == before.room);
        let tail = self.apply(
            Input::FrameReceived { from, frame, received_at_ms: now_ms, rtt_sample_ms },
            MpvDispatchOrigin::Remote,
            now_ms,
        );
        extend(&mut effects, tail);
        effects
    }

    /// A link to a peer is up, dialed by us (then its address is known) or by
    /// the peer. `None` if there is a link to this peer already; the new one is
    /// to be dropped.
    pub fn on_peer_connected(
        &mut self,
        node: NodeId,
        addr_bytes: Option<Vec<u8>>,
        own_addr: &iroh::EndpointAddr,
        now_ms: u64,
    ) -> (r: Option<Vec<Effect>>)
        requires
            old(self).wf(),
            old(self)@.connected.contains(node) || node == old(self)@.room.local
                || old(self)@.room.peers.contains_key(node) || old(self)@.room.local_media is None
                || can_number(old(self)@.room),
        ensures
            final(self).wf(),
            match r {
                Some(effects) => !old(self)@.connected.contains(node) && (
                    final(self)@,
                    effects_view(effects@),
                ) == connect_step(
                    old(self)@,
                    node,
                    match addr_bytes {
                        Some(b) => Some(b@),
                        None => None,
                    },
                    addr_wire(*own_addr),
                    now_ms,
                ),
                None => old(self)@.connected.contains(node) && final(self)@ == dialed(
                    old(self)@,
                    node,
                ),
            },
    {
        let ghost before = self@;
        let ghost dials = self.pending_dials@;
        self.pending_dials.remove(&node);
        assert(self.pending_dials@.dom() =~= dials.dom().remove(node));
        if self.connected.contains_key(&node) {
            return None;
        }
        if let Some(bytes) = addr_bytes {
            self.addrs.insert(node, bytes);
        }
        let ghost links = self.connected@;
        self.connected.insert(node, ());
        assert(self.connected@.dom() =~= links.dom().insert(node));
        let local = self.room.local_node();
        self.addrs.refresh_self(local, own_addr);
        let announce = Frame::Presence(
            PresenceEvent::AddrAnnounce { node: local, addr_bytes: self.addrs.get_or_empty(&local) },
        );
        let mut effects = vec![Effect::SendTo { to: node, frame: announce }];
        assert(effects_view(effects@) =~= seq![
            EffectView::SendTo {
                to: node,
                frame: FrameView::Presence(
                    PresenceEventView::AddrAnnounce {
                        node: local,
                        addr_bytes: addr_wire(*own_addr),
                    },
                ),
            },
        ]);
        let tail = self.apply(
            Input::PeerConnected { node, nickname: node.abbreviated(), now_ms },
            MpvDispatchOrigin::Local,
            now_ms,
        );
        extend(&mut effects, tail);
        Some(effects)
    }

    /// The link to a peer is down.
    pub fn on_peer_disconnected(&mut self, node: NodeId, now_ms: u64) -> (r: Vec<Effect>)
        requires
            old(self).wf(),
        ensures
            final(self).wf(),
            (final(self)@, effects_view(r@)) == disconnect_step(old(self)@, node, now_ms),
    {
        if !self.connected.contains_key(&node) {
            proof {
                assert(effects_view(Seq::<Effect>::empty()) =~= Seq::<EffectView>::empty());
            }
            return Vec::new();
        }
        let ghost links = self.connected@;
        self.connected.remove(&node);
        assert(self.connected@.dom() =~= links.dom().remove(node));
        self.apply(Input::PeerDisconnected { node }, MpvDispatchOrigin::Local, now_ms)
    }

    /// A peer could not be dialed. It may be tried again.
    pub fn on_dial_failed(&mut self, node: NodeId)
        requires
            old(self).wf(),
        ensures
            final(self).wf(),
            final(self)@ == dialed(old(self)@, node),
    {
        let ghost dials = self.pending_dials@;
        self.pending_dials.remove(&node);
        assert(self.pending_dials@.dom() =~= dials.dom().remove(node));
    }
}

/// Noting addresses leaves the room alone.
proof fn lemma_snoop_keeps_room(s: SessionView, roster: Seq<RosterEntryView>)
    ensures
        snoop_roster(s, roster).0.room == s.room,
        snoop_roster(s, roster).0.connected == s.connected,
    decreases roster.len(),
{
    if roster.len() > 0 {
        lemma_snoop_keeps_room(s, roster.drop_last());
    }
}

} // verus!
