//! Messages exchanged between peers.
//!
//! Every inter-peer message is a [`Frame`]. Each type that holds text or bytes
//! has a model (`...View`) in which text is a sequence of characters and lists
//! are mathematical sequences; contracts speak of the models.

use vstd::prelude::*;

use crate::node_id::NodeId;

verus! {

/// Content-identity tuple used to detect "are we watching the same file?".
///
/// This is intentionally not a content hash: hashing multi-gigabyte files at
/// startup is too slow. A mismatch is surfaced but does not block playback.
#[derive(Debug, PartialEq, Eq, Hash)]
pub struct MediaId {
    /// Lowercased filename (basename only, no path). Callers lowercase it
    /// before constructing.
    pub filename_lower: String,
    pub size_bytes: u64,
    /// Duration in whole seconds, rounded.
    pub duration_s: u32,
}

/// What a [`MediaId`] says.
pub struct MediaIdView {
    pub filename_lower: Seq<char>,
    pub size_bytes: u64,
    pub duration_s: u32,
}

impl View for MediaId {
    type V = MediaIdView;

    open spec fn view(&self) -> MediaIdView {
        MediaIdView {
            filename_lower: self.filename_lower@,
            size_bytes: self.size_bytes,
            duration_s: self.duration_s,
        }
    }
}

impl Clone for MediaId {
    fn clone(&self) -> (r: Self)
        ensures
            r == *self,
    {
        MediaId {
            filename_lower: self.filename_lower.clone(),
            size_bytes: self.size_bytes,
            duration_s: self.duration_s,
        }
    }
}

/// What an optional [`MediaId`] says.
pub open spec fn media_view(media: Option<MediaId>) -> Option<MediaIdView> {
    match media {
        Some(m) => Some(m@),
        None => None,
    }
}

/// A copy of an optional [`MediaId`].
pub fn clone_media(media: &Option<MediaId>) -> (r: Option<MediaId>)
    ensures
        r == *media,
{
    match media {
        Some(m) => Some(m.clone()),
        None => None,
    }
}

/// A change of playback that a user asked for.
#[derive(Debug, PartialEq, Eq)]
pub enum ControlAction {
    Play { media_pos_ms: u64 },
    Pause { media_pos_ms: u64 },
    Seek { media_pos_ms: u64 },
    /// Playback speed in centiunits: 100 is normal speed.
    SetSpeed { speed_centi: u16 },
    MediaChanged { id: MediaId },
}

/// What a [`ControlAction`] says.
pub enum ControlActionView {
    Play { media_pos_ms: u64 },
    Pause { media_pos_ms: u64 },
    Seek { media_pos_ms: u64 },
    SetSpeed { speed_centi: u16 },
    MediaChanged { id: MediaIdView },
}

impl View for ControlAction {
    type V = ControlActionView;

    open spec fn view(&self) -> ControlActionView {
        match self {
            ControlAction::Play { media_pos_ms } => ControlActionView::Play {
                media_pos_ms: *media_pos_ms,
            },
            ControlAction::Pause { media_pos_ms } => ControlActionView::Pause {
                media_pos_ms: *media_pos_ms,
            },
            ControlAction::Seek { media_pos_ms } => ControlActionView::Seek {
                media_pos_ms: *media_pos_ms,
            },
            ControlAction::SetSpeed { speed_centi } => ControlActionView::SetSpeed {
                speed_centi: *speed_centi,
            },
            ControlAction::MediaChanged { id } => ControlActionView::MediaChanged { id: id@ },
        }
    }
}

impl Clone for ControlAction {
    fn clone(&self) -> (r: Self)
        ensures
            r == *self,
    {
        match self {
            ControlAction::Play { media_pos_ms } => ControlAction::Play {
                media_pos_ms: *media_pos_ms,
            },
            ControlAction::Pause { media_pos_ms } => ControlAction::Pause {
                media_pos_ms: *media_pos_ms,
            },
            ControlAction::Seek { media_pos_ms } => ControlAction::Seek {
                media_pos_ms: *media_pos_ms,
            },
            ControlAction::SetSpeed { speed_centi } => ControlAction::SetSpeed {
                speed_centi: *speed_centi,
            },
            ControlAction::MediaChanged { id } => ControlAction::MediaChanged { id: id.clone() },
        }
    }
}

/// A reliably-ordered control event delivered on the per-pair control stream.
#[derive(Debug, PartialEq, Eq)]
pub struct ControlEvent {
    pub origin: NodeId,
    /// Originator's wall clock at the moment the event was emitted, in ms
    /// since the UNIX epoch.
    pub origin_ts_ms: u64,
    /// Monotonic per-origin sequence number. Receivers drop repeats by it.
    pub seq: u64,
    pub action: ControlAction,
}

/// What a [`ControlEvent`] says.
pub struct ControlEventView {
    pub origin: NodeId,
    pub origin_ts_ms: u64,
    pub seq: u64,
    pub action: ControlActionView,
}

impl View for ControlEvent {
    type V = ControlEventView;

    open spec fn view(&self) -> ControlEventView {
        ControlEventView {
            origin: self.origin,
            origin_ts_ms: self.origin_ts_ms,
            seq: self.seq,
            action: self.action@,
        }
    }
}

impl Clone for ControlEvent {
    fn clone(&self) -> (r: Self)
        ensures
            r == *self,
    {
        ControlEvent {
            origin: self.origin,
            origin_ts_ms: self.origin_ts_ms,
            seq: self.seq,
            action: self.action.clone(),
        }
    }
}

/// Unreliable 1 Hz playback-state snapshot sent as a datagram.
#[derive(Debug, PartialEq, Eq)]
pub struct StateHeartbeat {
    pub origin: NodeId,
    pub origin_ts_ms: u64,
    pub media_pos_ms: u64,
    pub paused: bool,
    pub speed_centi: u16,
    pub ready: bool,
    pub media_id: Option<MediaId>,
}

/// What a [`StateHeartbeat`] says.
pub struct StateHeartbeatView {
    pub origin: NodeId,
    pub origin_ts_ms: u64,
    pub media_pos_ms: u64,
    pub paused: bool,
    pub speed_centi: u16,
    pub ready: bool,
    pub media_id: Option<MediaIdView>,
}

impl View for StateHeartbeat {
    type V = StateHeartbeatView;

    open spec fn view(&self) -> StateHeartbeatView {
        StateHeartbeatView {
            origin: self.origin,
            origin_ts_ms: self.origin_ts_ms,
            media_pos_ms: self.media_pos_ms,
            paused: self.paused,
            speed_centi: self.speed_centi,
            ready: self.ready,
            media_id: media_view(self.media_id),
        }
    }
}

impl Clone for StateHeartbeat {
    fn clone(&self) -> (r: Self)
        ensures
            r == *self,
    {
        StateHeartbeat {
            origin: self.origin,
            origin_ts_ms: self.origin_ts_ms,
            media_pos_ms: self.media_pos_ms,
            paused: self.paused,
            speed_centi: self.speed_centi,
            ready: self.ready,
            media_id: clone_media(&self.media_id),
        }
    }
}

/// A roster entry: a peer, its nickname, and its transport address in encoded
/// form. Empty address bytes mean "address not yet known".
pub type RosterEntry = (NodeId, String, Vec<u8>);

/// What a roster entry says.
pub type RosterEntryView = (NodeId, Seq<char>, Seq<u8>);

pub open spec fn roster_entry_view(e: RosterEntry) -> RosterEntryView {
    (e.0, e.1@, e.2@)
}

pub open spec fn roster_view(peers: Seq<RosterEntry>) -> Seq<RosterEntryView> {
    peers.map_values(|e: RosterEntry| roster_entry_view(e))
}

/// Who is in the room, and how they can be reached.
#[derive(Debug, PartialEq, Eq)]
pub enum PresenceEvent {
    Join { node: NodeId, nickname: String },
    Leave { node: NodeId },
    Ready { node: NodeId, ready: bool },
    Rename { node: NodeId, nickname: String },
    /// Sent by an existing peer to a freshly joined peer so it can dial the
    /// rest of the mesh. The address bytes are opaque to the room.
    PeerList { peers: Vec<(NodeId, String, Vec<u8>)> },
    /// Sent by a peer on connect so every other peer learns its current
    /// address.
    AddrAnnounce { node: NodeId, addr_bytes: Vec<u8> },
}

/// What a [`PresenceEvent`] says.
pub enum PresenceEventView {
    Join { node: NodeId, nickname: Seq<char> },
    Leave { node: NodeId },
    Ready { node: NodeId, ready: bool },
    Rename { node: NodeId, nickname: Seq<char> },
    PeerList { peers: Seq<RosterEntryView> },
    AddrAnnounce { node: NodeId, addr_bytes: Seq<u8> },
}

impl View for PresenceEvent {
    type V = PresenceEventView;

    open spec fn view(&self) -> PresenceEventView {
        match self {
            PresenceEvent::Join { node, nickname } => PresenceEventView::Join {
                node: *node,
                nickname: nickname@,
            },
            PresenceEvent::Leave { node } => PresenceEventView::Leave { node: *node },
            PresenceEvent::Ready { node, ready } => PresenceEventView::Ready {
                node: *node,
                ready: *ready,
            },
            PresenceEvent::Rename { node, nickname } => PresenceEventView::Rename {
                node: *node,
                nickname: nickname@,
            },
            PresenceEvent::PeerList { peers } => PresenceEventView::PeerList {
                peers: roster_view(peers@),
            },
            PresenceEvent::AddrAnnounce { node, addr_bytes } => PresenceEventView::AddrAnnounce {
                node: *node,
                addr_bytes: addr_bytes@,
            },
        }
    }
}

/// A copy of some bytes.
pub fn clone_bytes(bytes: &[u8]) -> (r: Vec<u8>)
    ensures
        r@ == bytes@,
{
    let mut r: Vec<u8> = Vec::new();
    r.extend_from_slice(bytes);
    assert(r@ =~= bytes@);
    r
}

/// A copy of a roster.
fn clone_roster(peers: &Vec<RosterEntry>) -> (r: Vec<RosterEntry>)
    ensures
        roster_view(r@) == roster_view(peers@),
{
    let mut r: Vec<RosterEntry> = Vec::new();
    let mut i: usize = 0;
    while i < peers.len()
        invariant
            0 <= i <= peers@.len(),
            roster_view(r@) =~= roster_view(peers@).take(i as int),
        decreases peers@.len() - i,
    {
        let ghost before = r@;
        let e = &peers[i];
        r.push((e.0, e.1.clone(), clone_bytes(e.2.as_slice())));
        proof {
            assert(roster_view(r@) =~= roster_view(before).push(roster_entry_view(r@.last())));
        }
        i = i + 1;
    }
    r
}

impl Clone for PresenceEvent {
    fn clone(&self) -> (r: Self)
        ensures
            r@ == self@,
    {
        match self {
            PresenceEvent::Join { node, nickname } => PresenceEvent::Join {
                node: *node,
                nickname: nickname.clone(),
            },
            PresenceEvent::Leave { node } => PresenceEvent::Leave { node: *node },
            PresenceEvent::Ready { node, ready } => PresenceEvent::Ready {
                node: *node,
                ready: *ready,
            },
            PresenceEvent::Rename { node, nickname } => PresenceEvent::Rename {
                node: *node,
                nickname: nickname.clone(),
            },
            PresenceEvent::PeerList { peers } => PresenceEvent::PeerList {
                peers: clone_roster(peers),
            },
            PresenceEvent::AddrAnnounce { node, addr_bytes } => PresenceEvent::AddrAnnounce {
                node: *node,
                addr_bytes: clone_bytes(addr_bytes.as_slice()),
            },
        }
    }
}

/// One line of chat.
#[derive(Debug, PartialEq, Eq)]
pub struct ChatMessage {
    pub origin: NodeId,
    pub origin_ts_ms: u64,
    pub text: String,
}

/// What a [`ChatMessage`] says.
pub struct ChatMessageView {
    pub origin: NodeId,
    pub origin_ts_ms: u64,
    pub text: Seq<char>,
}

impl View for ChatMessage {
    type V = ChatMessageView;

    open spec fn view(&self) -> ChatMessageView {
        ChatMessageView {
            origin: self.origin,
            origin_ts_ms: self.origin_ts_ms,
            text: self.text@,
        }
    }
}

impl Clone for ChatMessage {
    fn clone(&self) -> (r: Self)
        ensures
            r == *self,
    {
        ChatMessage {
            origin: self.origin,
            origin_ts_ms: self.origin_ts_ms,
            text: self.text.clone(),
        }
    }
}

/// Top-level wire envelope.
#[derive(Debug, PartialEq, Eq)]
pub enum Frame {
    Control(ControlEvent),
    Heartbeat(StateHeartbeat),
    Presence(PresenceEvent),
    Chat(ChatMessage),
}

/// What a [`Frame`] says.
pub enum FrameView {
    Control(ControlEventView),
    Heartbeat(StateHeartbeatView),
    Presence(PresenceEventView),
    Chat(ChatMessageView),
}

impl View for Frame {
    type V = FrameView;

    open spec fn view(&self) -> FrameView {
        match self {
            Frame::Control(ev) => FrameView::Control(ev@),
            Frame::Heartbeat(hb) => FrameView::Heartbeat(hb@),
            Frame::Presence(p) => FrameView::Presence(p@),
            Frame::Chat(msg) => FrameView::Chat(msg@),
        }
    }
}

impl Clone for Frame {
    fn clone(&self) -> (r: Self)
        ensures
            r@ == self@,
    {
        match self {
            Frame::Control(ev) => Frame::Control(ev.clone()),
            Frame::Heartbeat(hb) => Frame::Heartbeat(hb.clone()),
            Frame::Presence(p) => Frame::Presence(p.clone()),
            Frame::Chat(msg) => Frame::Chat(msg.clone()),
        }
    }
}

/// A frame says what it is: every field of it, unchanged.
pub proof fn law_frames_say_what_they_are(
    origin: NodeId,
    origin_ts_ms: u64,
    seq: u64,
    pos: u64,
    speed: u16,
    paused: bool,
    ready: bool,
    media: MediaId,
    msg: ChatMessage,
    name: String,
    bytes: Vec<u8>,
)
    ensures
        (ControlAction::Play { media_pos_ms: pos })@ == (ControlActionView::Play {
            media_pos_ms: pos,
        }),
        (ControlAction::Pause { media_pos_ms: pos })@ == (ControlActionView::Pause {
            media_pos_ms: pos,
        }),
        (ControlAction::Seek { media_pos_ms: pos })@ == (ControlActionView::Seek {
            media_pos_ms: pos,
        }),
        (ControlAction::SetSpeed { speed_centi: speed })@ == (ControlActionView::SetSpeed {
            speed_centi: speed,
        }),
        (ControlAction::MediaChanged { id: media })@ == (ControlActionView::MediaChanged {
            id: media@,
        }),
        media@.filename_lower == media.filename_lower@,
        media@.size_bytes == media.size_bytes,
        media@.duration_s == media.duration_s,
        (ControlEvent {
            origin,
            origin_ts_ms,
            seq,
            action: ControlAction::Seek { media_pos_ms: pos },
        })@ == (ControlEventView {
            origin,
            origin_ts_ms,
            seq,
            action: ControlActionView::Seek { media_pos_ms: pos },
        }),
        (StateHeartbeat {
            origin,
            origin_ts_ms,
            media_pos_ms: pos,
            paused,
            speed_centi: speed,
            ready,
            media_id: Some(media),
        })@ == (StateHeartbeatView {
            origin,
            origin_ts_ms,
            media_pos_ms: pos,
            paused,
            speed_centi: speed,
            ready,
            media_id: Some(media@),
        }),
        msg@ == (ChatMessageView {
            origin: msg.origin,
            origin_ts_ms: msg.origin_ts_ms,
            text: msg.text@,
        }),
        Frame::Chat(msg)@ == FrameView::Chat(msg@),
        (PresenceEvent::Join { node: origin, nickname: name })@ == (PresenceEventView::Join {
            node: origin,
            nickname: name@,
        }),
        (PresenceEvent::Leave { node: origin })@ == (PresenceEventView::Leave { node: origin }),
        (PresenceEvent::Ready { node: origin, ready })@ == (PresenceEventView::Ready {
            node: origin,
            ready,
        }),
        (PresenceEvent::Rename { node: origin, nickname: name })@ == (PresenceEventView::Rename {
            node: origin,
            nickname: name@,
        }),
        (PresenceEvent::AddrAnnounce { node: origin, addr_bytes: bytes })@ == (
        PresenceEventView::AddrAnnounce { node: origin, addr_bytes: bytes@ }),
        roster_entry_view((origin, name, bytes)) == (origin, name@, bytes@),
{
}

} // verus!
