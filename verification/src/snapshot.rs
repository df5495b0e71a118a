//! Immutable projection of the room for rendering.
//!
//! The event loop owns the room and changes it serially; the UI reads
//! snapshots at its own pace.

use vstd::prelude::*;

use crate::media::{media_match, MatchResult};
use crate::node_id::NodeId;
use crate::node_map::{law_finite_sets_are_listed, listing, lists};
use crate::protocol::{ChatMessage, ChatMessageView, MediaId, MediaIdView};
use crate::ready::ReadyState;
use crate::room::RoomView;
use crate::state::PlaybackState;

verus! {

/// Full snapshot of the room for the UI to render.
#[derive(Debug, Clone)]
pub struct RoomSnapshot {
    pub local: LocalSnapshot,
    pub peers: Vec<PeerSnapshot>,
    pub chat: Vec<ChatMessage>,
    pub ready_state: ReadyState,
    pub override_enabled: bool,
}

#[derive(Debug, Clone)]
pub struct LocalSnapshot {
    pub node: NodeId,
    pub nickname: String,
    pub ready: bool,
    pub playback: PlaybackState,
    pub media: Option<MediaId>,
}

#[derive(Debug, Clone)]
pub struct PeerSnapshot {
    pub node: NodeId,
    pub nickname: String,
    pub ready: bool,
    /// Round-trip estimate to this peer in ms, if there is a sample.
    pub rtt_ms: Option<u32>,
    /// Signed drift vs. this peer in ms. Positive means we are ahead of the
    /// peer; negative means we are behind. `None` if the peer has no heartbeat
    /// yet or we cannot compare (one side is paused, or the difference is not
    /// representable).
    pub drift_ms: Option<i64>,
    /// How the media in this peer's last heartbeat compares with ours.
    pub media_match: Option<MatchResult>,
}

/// What a [`LocalSnapshot`] says.
pub struct LocalSnapshotView {
    pub node: NodeId,
    pub nickname: Seq<char>,
    pub ready: bool,
    pub playback: PlaybackState,
    pub media: Option<MediaIdView>,
}

/// What a [`PeerSnapshot`] says.
pub struct PeerSnapshotView {
    pub node: NodeId,
    pub nickname: Seq<char>,
    pub ready: bool,
    pub rtt_ms: Option<u32>,
    pub drift_ms: Option<i64>,
    pub media_match: Option<MatchResult>,
}

/// What a [`RoomSnapshot`] says.
pub struct RoomSnapshotView {
    pub local: LocalSnapshotView,
    pub peers: Seq<PeerSnapshotView>,
    pub chat: Seq<ChatMessageView>,
    pub ready_state: ReadyState,
    pub override_enabled: bool,
}

impl View for LocalSnapshot {
    type V = LocalSnapshotView;

    open spec fn view(&self) -> LocalSnapshotView {
        LocalSnapshotView {
            node: self.node,
            nickname: self.nickname@,
            ready: self.ready,
            playback: self.playback,
            media: crate::protocol::media_view(self.media),
        }
    }
}

impl View for PeerSnapshot {
    type V = PeerSnapshotView;

    open spec fn view(&self) -> PeerSnapshotView {
        PeerSnapshotView {
            node: self.node,
            nickname: self.nickname@,
            ready: self.ready,
            rtt_ms: self.rtt_ms,
            drift_ms: self.drift_ms,
            media_match: self.media_match,
        }
    }
}

/// What a list of peer snapshots says.
pub open spec fn peer_snapshots_view(peers: Seq<PeerSnapshot>) -> Seq<PeerSnapshotView> {
    peers.map_values(|p: PeerSnapshot| p@)
}

impl View for RoomSnapshot {
    type V = RoomSnapshotView;

    open spec fn view(&self) -> RoomSnapshotView {
        RoomSnapshotView {
            local: self.local@,
            peers: peer_snapshots_view(self.peers@),
            chat: crate::state::chat_view(self.chat@),
            ready_state: self.ready_state,
            override_enabled: self.override_enabled,
        }
    }
}

/// How far we are ahead of a peer, where the two can be compared.
pub open spec fn drift_from(ours: PlaybackState, their_pos_ms: u64, their_paused: bool) -> Option<
    i64,
> {
    let diff = ours.media_pos_ms - their_pos_ms;
    if ours.paused == their_paused && i64::MIN <= diff <= i64::MAX {
        Some(diff as i64)
    } else {
        None
    }
}

/// The snapshot of peer `n`.
pub open spec fn peer_snapshot(room: RoomView, n: NodeId) -> PeerSnapshotView {
    let p = room.peers[n];
    PeerSnapshotView {
        node: n,
        nickname: p.nickname,
        ready: room.gate.peers.contains_key(n) && room.gate.peers[n],
        rtt_ms: p.rtt.estimate(),
        drift_ms: match p.last_heartbeat {
            Some(hb) => drift_from(room.local_playback, hb.media_pos_ms, hb.paused),
            None => None,
        },
        media_match: match (room.local_media, p.last_heartbeat) {
            (Some(ours), Some(hb)) => match hb.media_id {
                Some(theirs) => Some(media_match(ours, theirs)),
                None => None,
            },
            _ => None,
        },
    }
}

/// The snapshot of a room: peers in ascending order, the whole chat ring.
pub open spec fn room_snapshot(room: RoomView) -> RoomSnapshotView {
    RoomSnapshotView {
        local: LocalSnapshotView {
            node: room.local,
            nickname: room.local_nickname,
            ready: room.local_ready,
            playback: room.local_playback,
            media: room.local_media,
        },
        peers: listing(room.peers.dom()).map_values(|n: NodeId| peer_snapshot(room, n)),
        chat: room.chat,
        ready_state: room.gate.state(),
        override_enabled: room.gate.override_enabled,
    }
}

/// How far we are ahead of a peer, where the two can be compared.
pub fn measure_drift(ours: &PlaybackState, their_pos_ms: u64, their_paused: bool) -> (r: Option<i64>)
    ensures
        r == drift_from(*ours, their_pos_ms, their_paused),
{
    if ours.paused != their_paused {
        return None;
    }
    let diff: i128 = ours.media_pos_ms as i128 - their_pos_ms as i128;
    if i64::MIN as i128 <= diff && diff <= i64::MAX as i128 {
        Some(diff as i64)
    } else {
        None
    }
}

/// A snapshot shows the room as it is: ourselves, the whole chat, whether the
/// room may play, and every peer once, in ascending order.
pub proof fn law_snapshots_show_the_room(room: RoomView)
    requires
        room.peers.dom().finite(),
    ensures
        ({
            let snap = room_snapshot(room);
            &&& snap.local.node == room.local
            &&& snap.local.nickname == room.local_nickname
            &&& snap.local.ready == room.local_ready
            &&& snap.local.playback == room.local_playback
            &&& snap.local.media == room.local_media
            &&& snap.chat == room.chat
            &&& snap.ready_state == room.gate.state()
            &&& snap.override_enabled == room.gate.override_enabled
            &&& lists(snap.peers.map_values(|p: PeerSnapshotView| p.node), room.peers.dom())
        }),
{
    law_finite_sets_are_listed(room.peers.dom());
    assert(room_snapshot(room).peers.map_values(|p: PeerSnapshotView| p.node) =~= listing(
        room.peers.dom(),
    ));
}

/// What a snapshot shows of a peer: its nickname, whether it is known to be
/// ready, and the round-trip estimate. How far we are ahead is shown once we
/// heard from it, if both play or both are paused. How the files compare is shown
/// if both have one.
pub proof fn law_snapshots_show_each_peer(room: RoomView, i: int)
    requires
        room.peers.dom().finite(),
        0 <= i < room_snapshot(room).peers.len(),
    ensures
        ({
            let shown = room_snapshot(room).peers[i];
            let peer = room.peers[shown.node];
            let comparable = peer.last_heartbeat is Some && peer.last_heartbeat->0.paused
                == room.local_playback.paused;
            let ahead = room.local_playback.media_pos_ms
                - peer.last_heartbeat->0.media_pos_ms;
            let both_have_files = room.local_media is Some && peer.last_heartbeat is Some
                && peer.last_heartbeat->0.media_id is Some;
            let ours = room.local_media->0;
            let theirs = peer.last_heartbeat->0.media_id->0;
            &&& room.peers.contains_key(shown.node)
            &&& shown.nickname == peer.nickname
            &&& shown.ready <==> room.gate.peers.contains_key(shown.node)
                && room.gate.peers[shown.node]
            &&& shown.rtt_ms == peer.rtt.estimate()
            &&& !comparable ==> shown.drift_ms is None
            &&& comparable && i64::MIN <= ahead <= i64::MAX ==> shown.drift_ms is Some
                && shown.drift_ms->0 == ahead
            &&& shown.media_match is Some <==> both_have_files
            &&& both_have_files ==> {
                &&& shown.media_match == Some(MatchResult::Different) <==> ours.filename_lower
                    != theirs.filename_lower
                &&& shown.media_match == Some(MatchResult::Identical) <==> ours.filename_lower
                    == theirs.filename_lower && ours.size_bytes == theirs.size_bytes
                    && ours.duration_s == theirs.duration_s
            }
        }),
{
    law_finite_sets_are_listed(room.peers.dom());
    let names = listing(room.peers.dom());
    assert(names.contains(names[i]));
    let peer = room.peers[names[i]];
    if room.local_media is Some && peer.last_heartbeat is Some
        && peer.last_heartbeat->0.media_id is Some {
        crate::media::law_match_compares_all_fields(
            room.local_media->0,
            peer.last_heartbeat->0.media_id->0,
        );
    }
}

} // verus!
