//! What each input does to the room, said of its outcome.
//!
//! The laws here speak of [`step`] alone: of what the room knew before, of what
//! it knows and sends afterwards, and of what other rooms make of that.

use vstd::prelude::*;

use crate::media::MatchResult;
use crate::node_id::NodeId;
use crate::node_map::{law_finite_sets_are_listed, lists};
use crate::protocol::{
    ChatMessageView, ControlAction, ControlActionView, ControlEventView, Frame, FrameView, MediaId,
    MediaIdView, PresenceEventView, RosterEntryView, StateHeartbeatView,
};
use crate::room::{
    can_step, is_reference, new_room, reference, stalest, step, NoticeView, OutputView, PeerView,
    RoomView,
};
use crate::room_laws::{
    law_reference_is_unique, law_roster_keeps_what_is_known, law_stale_peer_gives_stalest,
    lemma_roster_keeps_rest, roster_nickname,
};
use crate::ready::ReadyState;
use crate::state::{Input, MpvCommand, PlaybackState};

verus! {

// --- Control events of peers ---

/// Both actions pause, both play, both seek, both set the speed, or both name a
/// file.
pub open spec fn alike(a: ControlActionView, b: ControlActionView) -> bool {
    ||| a is Pause && b is Pause
    ||| a is Play && b is Play
    ||| a is Seek && b is Seek
    ||| a is SetSpeed && b is SetSpeed
    ||| a is MediaChanged && b is MediaChanged
}

/// `ev` comes within half a second of an earlier event of the same kind. Earlier
/// is what has the smaller timestamp, then the smaller origin.
pub open spec fn loses_to(ev: ControlEventView, prior: ControlEventView) -> bool {
    &&& alike(ev.action, prior.action)
    &&& -500 < ev.origin_ts_ms - prior.origin_ts_ms < 500
    &&& prior.origin_ts_ms < ev.origin_ts_ms || (prior.origin_ts_ms == ev.origin_ts_ms
        && prior.origin.before(ev.origin))
}

/// Nothing keeps the room from applying `ev`: no event of this peer with its
/// number or a larger one was seen, and it does not lose to the last one applied.
pub open spec fn is_news(room: RoomView, from: NodeId, ev: ControlEventView) -> bool {
    &&& room.peers.contains_key(from) ==> match room.peers[from].last_applied_seq {
        Some(last) => last < ev.seq,
        None => true,
    }
    &&& match room.last_applied_control {
        Some(prior) => !loses_to(ev, prior),
        None => true,
    }
}

/// The player after a command.
pub open spec fn obeyed(player: PlaybackState, cmd: MpvCommand) -> PlaybackState {
    match cmd {
        MpvCommand::Pause(paused) => PlaybackState { paused, ..player },
        MpvCommand::Seek { media_pos_ms } => PlaybackState { media_pos_ms, ..player },
        MpvCommand::SetSpeed { speed_centi } => PlaybackState { speed_centi, ..player },
    }
}

/// The player after the commands among some outputs.
pub open spec fn driven(player: PlaybackState, outs: Seq<OutputView>) -> PlaybackState
    decreases outs.len(),
{
    if outs.len() == 0 {
        player
    } else {
        let before = driven(player, outs.drop_last());
        match outs.last() {
            OutputView::Mpv(cmd) => obeyed(before, cmd),
            _ => before,
        }
    }
}

proof fn lemma_driven_by_one(player: PlaybackState, a: OutputView)
    ensures
        driven(player, seq![a]) == match a {
            OutputView::Mpv(cmd) => obeyed(player, cmd),
            _ => player,
        },
{
    assert(seq![a].drop_last() =~= Seq::empty());
    assert(driven(player, Seq::empty()) == player);
}

proof fn lemma_driven_by_two(player: PlaybackState, a: OutputView, b: OutputView)
    ensures
        driven(player, seq![a, b]) == driven(driven(player, seq![a]), seq![b]),
{
    assert(seq![a, b].drop_last() =~= seq![a]);
    lemma_driven_by_one(driven(player, seq![a]), b);
}

/// What somebody asked for holds of the playback.
pub open spec fn fulfilled(playback: PlaybackState, action: ControlActionView) -> bool {
    match action {
        ControlActionView::Pause { media_pos_ms } => playback.paused && playback.media_pos_ms
            == media_pos_ms,
        ControlActionView::Play { media_pos_ms } => !playback.paused && playback.media_pos_ms
            == media_pos_ms,
        ControlActionView::Seek { media_pos_ms } => playback.media_pos_ms == media_pos_ms,
        ControlActionView::SetSpeed { speed_centi } => playback.speed_centi == speed_centi,
        ControlActionView::MediaChanged { .. } => true,
    }
}

/// What an action leaves alone is as it was.
pub open spec fn undisturbed(
    before: PlaybackState,
    after: PlaybackState,
    action: ControlActionView,
) -> bool {
    &&& !(action is Pause || action is Play) ==> after.paused == before.paused
    &&& !(action is Pause || action is Play || action is Seek) ==> after.media_pos_ms
        == before.media_pos_ms
    &&& !(action is SetSpeed) ==> after.speed_centi == before.speed_centi
}

/// A control event that is news is applied. The playback is what was asked for,
/// a player that obeys the commands gets there too, the event is remembered as
/// the last one applied, and its number as seen from that peer.
pub proof fn law_news_is_applied(
    room: RoomView,
    from: NodeId,
    frame: Frame,
    ev: ControlEventView,
    received_at_ms: u64,
    rtt_sample_ms: Option<u32>,
)
    requires
        frame@ == FrameView::Control(ev),
        is_news(room, from, ev),
    ensures
        ({
            let (after, outs) = step(
                room,
                Input::FrameReceived { from, frame, received_at_ms, rtt_sample_ms },
            );
            &&& fulfilled(after.local_playback, ev.action)
            &&& undisturbed(room.local_playback, after.local_playback, ev.action)
            &&& driven(room.local_playback, outs) == after.local_playback
            &&& after.last_applied_control == Some(ev)
            &&& after.peers.dom() == room.peers.dom()
            &&& room.peers.contains_key(from) ==> after.peers[from].last_applied_seq == Some(ev.seq)
            &&& after.last_pos_control_at_ms == if ev.action is Pause || ev.action is Play
                || ev.action is Seek {
                Some(received_at_ms)
            } else {
                room.last_pos_control_at_ms
            }
        }),
{
    let (after, outs) = step(
        room,
        Input::FrameReceived { from, frame, received_at_ms, rtt_sample_ms },
    );
    assert(after.peers.dom() =~= room.peers.dom());
    let player = room.local_playback;
    match ev.action {
        ControlActionView::Pause { media_pos_ms } => {
            let a = OutputView::Mpv(MpvCommand::Seek { media_pos_ms });
            let b = OutputView::Mpv(MpvCommand::Pause(true));
            assert(outs =~= seq![a, b]);
            lemma_driven_by_one(player, a);
            lemma_driven_by_two(player, a, b);
            lemma_driven_by_one(driven(player, seq![a]), b);
        },
        ControlActionView::Play { media_pos_ms } => {
            let a = OutputView::Mpv(MpvCommand::Seek { media_pos_ms });
            let b = OutputView::Mpv(MpvCommand::Pause(false));
            assert(outs =~= seq![a, b]);
            lemma_driven_by_one(player, a);
            lemma_driven_by_two(player, a, b);
            lemma_driven_by_one(driven(player, seq![a]), b);
        },
        ControlActionView::Seek { media_pos_ms } => {
            let a = OutputView::Mpv(MpvCommand::Seek { media_pos_ms });
            assert(outs =~= seq![a]);
            lemma_driven_by_one(player, a);
        },
        ControlActionView::SetSpeed { speed_centi } => {
            let a = OutputView::Mpv(MpvCommand::SetSpeed { speed_centi });
            assert(outs =~= seq![a]);
            lemma_driven_by_one(player, a);
        },
        ControlActionView::MediaChanged { id } => {
            if outs.len() > 0 {
                assert(outs =~= seq![outs[0]]);
                lemma_driven_by_one(player, outs[0]);
            } else {
                assert(outs =~= Seq::empty());
            }
        },
    }
}

/// An applied control event leads to commands alone, in order: first to the
/// position, then to the pause state or the speed. Only news of a file leads to
/// none.
pub proof fn law_applied_event_commands_the_player(
    room: RoomView,
    from: NodeId,
    frame: Frame,
    ev: ControlEventView,
    received_at_ms: u64,
    rtt_sample_ms: Option<u32>,
)
    requires
        frame@ == FrameView::Control(ev),
        is_news(room, from, ev),
    ensures
        ({
            let outs = step(
                room,
                Input::FrameReceived { from, frame, received_at_ms, rtt_sample_ms },
            ).1;
            match ev.action {
                ControlActionView::Pause { media_pos_ms } => outs == seq![
                    OutputView::Mpv(MpvCommand::Seek { media_pos_ms }),
                    OutputView::Mpv(MpvCommand::Pause(true)),
                ],
                ControlActionView::Play { media_pos_ms } => outs == seq![
                    OutputView::Mpv(MpvCommand::Seek { media_pos_ms }),
                    OutputView::Mpv(MpvCommand::Pause(false)),
                ],
                ControlActionView::Seek { media_pos_ms } => outs == seq![
                    OutputView::Mpv(MpvCommand::Seek { media_pos_ms }),
                ],
                ControlActionView::SetSpeed { speed_centi } => outs == seq![
                    OutputView::Mpv(MpvCommand::SetSpeed { speed_centi }),
                ],
                ControlActionView::MediaChanged { .. } => forall|i: int|
                    0 <= i < outs.len() ==> (#[trigger] outs[i]) is Notify,
            }
        }),
{
}

/// Of two events of a peer with growing numbers that do not conflict, both are
/// applied: the second right after the first.
pub proof fn law_successive_events_are_both_applied(
    room: RoomView,
    from: NodeId,
    first: Frame,
    second: Frame,
    a: ControlEventView,
    b: ControlEventView,
    at_ms: u64,
    then_ms: u64,
)
    requires
        room.peers.contains_key(from),
        first@ == FrameView::Control(a),
        second@ == FrameView::Control(b),
        is_news(room, from, a),
        a.seq < b.seq,
        !loses_to(b, a),
    ensures
        ({
            let one = step(
                room,
                Input::FrameReceived {
                    from,
                    frame: first,
                    received_at_ms: at_ms,
                    rtt_sample_ms: None,
                },
            ).0;
            let (two, outs) = step(
                one,
                Input::FrameReceived {
                    from,
                    frame: second,
                    received_at_ms: then_ms,
                    rtt_sample_ms: None,
                },
            );
            &&& one.last_applied_control == Some(a)
            &&& two.last_applied_control == Some(b)
            &&& fulfilled(one.local_playback, a.action)
            &&& fulfilled(two.local_playback, b.action)
            &&& driven(one.local_playback, outs) == two.local_playback
        }),
{
    law_news_is_applied(room, from, first, a, at_ms, None);
    let one = step(
        room,
        Input::FrameReceived { from, frame: first, received_at_ms: at_ms, rtt_sample_ms: None },
    ).0;
    law_news_is_applied(one, from, second, b, then_ms, None);
}

/// A control event that is no news changes nothing but what was measured and
/// counted of its sender, commands nothing, and is reported.
pub proof fn law_other_events_are_refused(
    room: RoomView,
    from: NodeId,
    frame: Frame,
    ev: ControlEventView,
    received_at_ms: u64,
)
    requires
        frame@ == FrameView::Control(ev),
        !is_news(room, from, ev),
    ensures
        ({
            let (after, outs) = step(
                room,
                Input::FrameReceived { from, frame, received_at_ms, rtt_sample_ms: None },
            );
            let seen = room.peers.contains_key(from) && (room.peers[from].last_applied_seq matches Some(
                last,
            ) && ev.seq <= last);
            &&& after == (RoomView { peers: after.peers, ..room })
            &&& seen ==> after == room && outs == seq![
                OutputView::Notify(NoticeView::DuplicateDropped { peer: from, seq: ev.seq }),
            ]
            &&& !seen ==> outs == seq![
                OutputView::Notify(NoticeView::ConflictDiscarded { from, seq: ev.seq }),
            ]
            &&& !seen && room.peers.contains_key(from) ==> after.peers == room.peers.insert(
                from,
                PeerView { last_applied_seq: Some(ev.seq), ..room.peers[from] },
            )
            &&& !room.peers.contains_key(from) ==> after.peers == room.peers
        }),
{
}

/// What else a control event leaves alone: who we are, our media and readiness,
/// our numbers, the chat, the ready gate, and all that is known of the peers but
/// the number, and the round-trip time if it was measured.
pub proof fn law_control_events_touch_nothing_else(
    room: RoomView,
    from: NodeId,
    frame: Frame,
    ev: ControlEventView,
    received_at_ms: u64,
    n: NodeId,
)
    requires
        frame@ == FrameView::Control(ev),
    ensures
        ({
            let after = step(
                room,
                Input::FrameReceived { from, frame, received_at_ms, rtt_sample_ms: None },
            ).0;
            &&& after.local == room.local
            &&& after.local_seq == room.local_seq
            &&& after.local_nickname == room.local_nickname
            &&& after.local_media == room.local_media
            &&& after.local_ready == room.local_ready
            &&& after.gate == room.gate
            &&& after.chat == room.chat
            &&& after.peers.contains_key(n) == room.peers.contains_key(n)
            &&& room.peers.contains_key(n) ==> after.peers[n] == (PeerView {
                last_applied_seq: after.peers[n].last_applied_seq,
                ..room.peers[n]
            })
            &&& room.peers.contains_key(n) && n != from ==> after.peers[n] == room.peers[n]
        }),
{
}

/// A round-trip sample enters the estimate of the sender if it is known, whatever
/// the frame, and no other estimate changes.
pub proof fn law_samples_enter_the_estimate(
    room: RoomView,
    from: NodeId,
    frame: Frame,
    received_at_ms: u64,
    rtt_sample_ms: Option<u32>,
    n: NodeId,
)
    requires
        !(frame@ is Presence),
        room.peers.contains_key(n),
    ensures
        ({
            let after = step(
                room,
                Input::FrameReceived { from, frame, received_at_ms, rtt_sample_ms },
            ).0;
            let old_rtt = room.peers[n].rtt;
            let new_rtt = after.peers[n].rtt;
            &&& after.peers.contains_key(n)
            &&& n == from && rtt_sample_ms is Some ==> new_rtt == old_rtt.after(rtt_sample_ms->0)
            &&& n == from && rtt_sample_ms is Some && old_rtt.average() is None
                ==> new_rtt.estimate() == rtt_sample_ms
            &&& n != from || rtt_sample_ms is None ==> new_rtt == old_rtt
        }),
{
    if let Some(sample) = rtt_sample_ms {
        if room.peers[n].rtt.average() is None {
            crate::rtt::law_first_sample_is_verbatim(room.peers[n].rtt, sample);
        }
    }
}

// --- Media ---

/// What is to be said about a peer's file, given ours: nothing if they agree in
/// name, size and length; that only the name agrees; or that they differ. Having
/// no file differs from having one.
pub open spec fn right_warning(
    peer: NodeId,
    ours: Option<MediaIdView>,
    theirs: MediaIdView,
    outs: Seq<OutputView>,
) -> bool {
    let same_name = ours is Some && ours->0.filename_lower == theirs.filename_lower;
    let same_file = same_name && ours->0.size_bytes == theirs.size_bytes && ours->0.duration_s
        == theirs.duration_s;
    if same_file {
        outs.len() == 0
    } else {
        outs == seq![
            OutputView::Notify(
                NoticeView::MediaMismatch {
                    peer,
                    severity: if same_name {
                        MatchResult::SameNameDifferentFile
                    } else {
                        MatchResult::Different
                    },
                    peer_media: theirs,
                    our_media: ours,
                },
            ),
        ]
    }
}

/// A peer that changes its file causes the right warning.
pub proof fn law_changed_file_is_compared(
    room: RoomView,
    from: NodeId,
    frame: Frame,
    ev: ControlEventView,
    received_at_ms: u64,
    rtt_sample_ms: Option<u32>,
)
    requires
        frame@ == FrameView::Control(ev),
        is_news(room, from, ev),
        ev.action is MediaChanged,
    ensures
        right_warning(
            from,
            room.local_media,
            ev.action->id,
            step(room, Input::FrameReceived { from, frame, received_at_ms, rtt_sample_ms }).1,
        ),
{
    let ours = room.local_media;
    let theirs = ev.action->id;
    if ours is Some && ours->0.filename_lower == theirs.filename_lower && ours->0.size_bytes
        == theirs.size_bytes && ours->0.duration_s == theirs.duration_s {
        assert(ours->0 == theirs);
    }
}

/// A heartbeat causes the right warning about the sender's file, and none if it
/// names no file.
pub proof fn law_heartbeat_file_is_compared(
    room: RoomView,
    from: NodeId,
    frame: Frame,
    hb: StateHeartbeatView,
    received_at_ms: u64,
    rtt_sample_ms: Option<u32>,
)
    requires
        frame@ == FrameView::Heartbeat(hb),
    ensures
        ({
            let outs = step(
                room,
                Input::FrameReceived { from, frame, received_at_ms, rtt_sample_ms },
            ).1;
            match hb.media_id {
                Some(theirs) => right_warning(from, room.local_media, theirs, outs),
                None => outs.len() == 0,
            }
        }),
{
    if let Some(theirs) = hb.media_id {
        let ours = room.local_media;
        if ours is Some && ours->0.filename_lower == theirs.filename_lower && ours->0.size_bytes
            == theirs.size_bytes && ours->0.duration_s == theirs.duration_s {
            assert(ours->0 == theirs);
        }
    }
}

// --- Heartbeats, presence and chat of peers ---

/// A heartbeat of a known peer is kept with the time of its arrival, and says
/// whether the peer is ready. One of a stranger is not kept. Nothing else
/// changes.
pub proof fn law_heartbeats_are_kept(
    room: RoomView,
    from: NodeId,
    frame: Frame,
    hb: StateHeartbeatView,
    received_at_ms: u64,
    n: NodeId,
)
    requires
        frame@ == FrameView::Heartbeat(hb),
    ensures
        ({
            let after = step(
                room,
                Input::FrameReceived { from, frame, received_at_ms, rtt_sample_ms: None },
            ).0;
            let known = room.peers.contains_key(from);
            &&& after == (RoomView { peers: after.peers, gate: after.gate, ..room })
            &&& after.gate.override_enabled == room.gate.override_enabled
            &&& !known ==> after == room
            &&& known ==> after.peers.contains_key(from) && after.peers[from] == (PeerView {
                last_heartbeat: Some(hb),
                last_heartbeat_received_at_ms: received_at_ms,
                ..room.peers[from]
            })
            &&& known ==> after.gate.peers.contains_key(from) && after.gate.peers[from] == hb.ready
            &&& n != from ==> after.peers.contains_key(n) == room.peers.contains_key(n)
                && after.peers[n] == room.peers[n]
            &&& n != from ==> after.gate.peers.contains_key(n) == room.gate.peers.contains_key(n)
                && after.gate.peers[n] == room.gate.peers[n]
        }),
{
}

/// A presence event sends nothing and commands nothing, and changes nothing but
/// the peers and the ready gate.
pub proof fn law_presence_is_silent(
    room: RoomView,
    from: NodeId,
    frame: Frame,
    received_at_ms: u64,
    rtt_sample_ms: Option<u32>,
)
    requires
        frame@ is Presence,
    ensures
        ({
            let (after, outs) = step(
                room,
                Input::FrameReceived { from, frame, received_at_ms, rtt_sample_ms },
            );
            &&& outs.len() == 0
            &&& after == (RoomView { peers: after.peers, gate: after.gate, ..room })
            &&& after.gate.override_enabled == room.gate.override_enabled
        }),
{
    if let FrameView::Presence(PresenceEventView::PeerList { peers }) = frame@ {
        lemma_roster_keeps_rest(crate::room::sample_rtt(room, from, rtt_sample_ms), peers);
    }
}

/// Nothing is known differently of `n`.
pub open spec fn same_of(before: RoomView, after: RoomView, n: NodeId) -> bool {
    &&& after.peers.contains_key(n) == before.peers.contains_key(n)
    &&& after.peers[n] == before.peers[n]
    &&& after.gate.peers.contains_key(n) == before.gate.peers.contains_key(n)
    &&& after.gate.peers[n] == before.gate.peers[n]
}

/// `node` is in the room under this nickname. If it was before, all else that
/// was known of it stays; if not, nothing else is known, and it is not ready.
pub open spec fn arrived(
    before: RoomView,
    after: RoomView,
    node: NodeId,
    nickname: Seq<char>,
) -> bool {
    let was_known = before.peers.contains_key(node);
    let was_tracked = before.gate.peers.contains_key(node);
    &&& after.peers.contains_key(node)
    &&& after.peers[node].nickname == nickname
    &&& was_known ==> after.peers[node] == (PeerView { nickname, ..before.peers[node] })
    &&& !was_known ==> after.peers[node].last_heartbeat is None
        && after.peers[node].last_applied_seq is None && after.peers[node].rtt.average() is None
    &&& after.gate.peers.contains_key(node)
    &&& after.gate.peers[node] == (was_tracked && before.gate.peers[node])
}

/// What each presence event says of one node is what the room knows of it
/// afterwards, and nothing changes for the others.
pub proof fn law_presence_is_believed(
    room: RoomView,
    from: NodeId,
    frame: Frame,
    p: PresenceEventView,
    received_at_ms: u64,
    n: NodeId,
)
    requires
        frame@ == FrameView::Presence(p),
    ensures
        ({
            let after = step(
                room,
                Input::FrameReceived { from, frame, received_at_ms, rtt_sample_ms: None },
            ).0;
            match p {
                PresenceEventView::Join { node, nickname } => {
                    &&& arrived(room, after, node, nickname)
                    &&& n != node ==> same_of(room, after, n)
                },
                PresenceEventView::Leave { node } => {
                    &&& !after.peers.contains_key(node)
                    &&& !after.gate.peers.contains_key(node)
                    &&& n != node ==> same_of(room, after, n)
                },
                PresenceEventView::Ready { node, ready } => {
                    let followed = node == room.local || room.peers.contains_key(node);
                    &&& after.peers == room.peers
                    &&& followed ==> after.gate.peers.contains_key(node) && after.gate.peers[node]
                        == ready
                    &&& !followed ==> after == room
                    &&& n != node ==> same_of(room, after, n)
                },
                PresenceEventView::Rename { node, nickname } => {
                    &&& after.gate == room.gate
                    &&& room.peers.contains_key(node) ==> after.peers.contains_key(node)
                        && after.peers[node] == (PeerView { nickname, ..room.peers[node] })
                    &&& !room.peers.contains_key(node) ==> after == room
                    &&& n != node ==> same_of(room, after, n)
                },
                PresenceEventView::PeerList { peers } => match roster_nickname(peers, n) {
                    Some(nickname) if n != room.local => arrived(room, after, n, nickname),
                    _ => same_of(room, after, n),
                },
                PresenceEventView::AddrAnnounce { .. } => after == room,
            }
        }),
{
    crate::rtt::law_fresh_estimator_has_no_average();
    if let PresenceEventView::PeerList { peers } = p {
        law_roster_keeps_what_is_known(room, peers, n);
    }
}

/// Whoever is on a roster has a nickname there, and it stands in an entry for
/// that node.
pub proof fn law_roster_nickname_is_on_the_roster(roster: Seq<RosterEntryView>, node: NodeId)
    ensures
        match roster_nickname(roster, node) {
            Some(nickname) => exists|i: int|
                0 <= i < roster.len() && (#[trigger] roster[i]).0 == node && roster[i].1 == nickname
                    && forall|j: int| i < j < roster.len() ==> (#[trigger] roster[j]).0 != node,
            None => forall|i: int| 0 <= i < roster.len() ==> (#[trigger] roster[i]).0 != node,
        },
    decreases roster.len(),
{
    if roster.len() > 0 {
        let rest = roster.drop_last();
        law_roster_nickname_is_on_the_roster(rest, node);
        let end = roster.len() - 1;
        if roster.last().0 == node {
            assert(roster[end].0 == node && roster[end].1 == roster.last().1);
        } else {
            match roster_nickname(rest, node) {
                Some(nickname) => {
                    let i = choose|i: int|
                        0 <= i < rest.len() && (#[trigger] rest[i]).0 == node && rest[i].1
                            == nickname && forall|j: int|
                            i < j < rest.len() ==> (#[trigger] rest[j]).0 != node;
                    assert forall|j: int| i < j < roster.len() implies (#[trigger] roster[j]).0
                        != node by {
                        if j < end {
                            assert(rest[j] == roster[j]);
                        }
                    }
                    assert(roster[i] == rest[i]);
                },
                None => {
                    assert forall|i: int| 0 <= i < roster.len() implies (#[trigger] roster[i]).0
                        != node by {
                        if i < end {
                            assert(rest[i] == roster[i]);
                        }
                    }
                },
            }
        }
    }
}

/// A message of a peer becomes the last one of the chat, unchanged. The messages
/// before it stay in order; there are never more than 200, and only then does
/// the oldest go. Nothing is sent.
pub proof fn law_messages_are_kept(
    room: RoomView,
    from: NodeId,
    frame: Frame,
    msg: ChatMessageView,
    received_at_ms: u64,
)
    requires
        frame@ == FrameView::Chat(msg),
        room.chat.len() <= 200,
    ensures
        ({
            let (after, outs) = step(
                room,
                Input::FrameReceived { from, frame, received_at_ms, rtt_sample_ms: None },
            );
            &&& outs.len() == 0
            &&& after == (RoomView { chat: after.chat, ..room })
            &&& follows(room.chat, msg, after.chat)
        }),
{
    let after = step(
        room,
        Input::FrameReceived { from, frame, received_at_ms, rtt_sample_ms: None },
    ).0;
    lemma_chat_follows(room.chat, msg);
}

/// `after` is the chat with one more message.
pub open spec fn follows(
    before: Seq<ChatMessageView>,
    msg: ChatMessageView,
    after: Seq<ChatMessageView>,
) -> bool {
    let gone: int = if before.len() == 200 {
        1
    } else {
        0
    };
    &&& after.len() == before.len() + 1 - gone
    &&& after.last() == msg
    &&& forall|i: int| gone <= i < before.len() ==> (#[trigger] before[i]) == after[i - gone]
}

proof fn lemma_chat_follows(before: Seq<ChatMessageView>, msg: ChatMessageView)
    requires
        before.len() <= 200,
    ensures
        follows(before, msg, crate::room::chat_after(before, msg)),
{
}

// --- Ticks ---

/// The first output of a tick is a heartbeat to all peers that tells where we
/// are; a tick changes nothing but when drift was last corrected by a seek.
pub proof fn law_ticks_tell_where_we_are(room: RoomView, now_ms: u64)
    ensures
        ({
            let (after, outs) = step(room, Input::Tick { now_ms });
            &&& 1 <= outs.len() <= 2
            &&& outs[0] == OutputView::Broadcast(
                FrameView::Heartbeat(
                    StateHeartbeatView {
                        origin: room.local,
                        origin_ts_ms: now_ms,
                        media_pos_ms: room.local_playback.media_pos_ms,
                        paused: room.local_playback.paused,
                        speed_centi: room.local_playback.speed_centi,
                        ready: room.local_ready,
                        media_id: room.local_media,
                    },
                ),
            )
            &&& outs.len() == 2 ==> outs[1] is Mpv || outs[1] is Notify
            &&& after == (RoomView {
                last_pos_control_at_ms: after.last_pos_control_at_ms,
                ..room
            })
            &&& after.last_pos_control_at_ms == if outs.len() == 2 && outs[1] matches OutputView::Mpv(
                MpvCommand::Seek { .. },
            ) {
                Some(now_ms)
            } else {
                room.last_pos_control_at_ms
            }
        }),
{
}

/// A tick within two seconds of an event that moved the position sends the
/// heartbeat and nothing else.
pub proof fn law_ticks_wait_after_a_jump(room: RoomView, at_ms: u64, now_ms: u64)
    requires
        room.last_pos_control_at_ms == Some(at_ms),
        now_ms < at_ms + 2_000,
        now_ms < u64::MAX,
    ensures
        step(room, Input::Tick { now_ms }).1.len() == 1,
        step(room, Input::Tick { now_ms }).0 == room,
{
}

/// The last heartbeat of `n` is at most five seconds old and arrived after the
/// last event that moved the position.
pub open spec fn is_current(room: RoomView, n: NodeId, now_ms: u64) -> bool {
    &&& room.peers.contains_key(n)
    &&& room.peers[n].last_heartbeat is Some
    &&& now_ms - room.peers[n].last_heartbeat_received_at_ms <= 5_000
    &&& match room.last_pos_control_at_ms {
        Some(t) => t < room.peers[n].last_heartbeat_received_at_ms,
        None => true,
    }
}

/// Of all current heartbeats, that of `n` arrived last; of those that arrived
/// with it, it is that of the smallest identifier.
pub open spec fn is_freshest(room: RoomView, n: NodeId, now_ms: u64) -> bool {
    &&& is_current(room, n, now_ms)
    &&& forall|m: NodeId| #[trigger]
        is_current(room, m, now_ms) && m != n
            ==> room.peers[m].last_heartbeat_received_at_ms
            < room.peers[n].last_heartbeat_received_at_ms || (
        room.peers[m].last_heartbeat_received_at_ms == room.peers[n].last_heartbeat_received_at_ms
            && n.before(m))
}

/// How much the peer played since its heartbeat arrived, at its speed.
pub open spec fn played_since(room: RoomView, n: NodeId, now_ms: u64) -> int {
    let speed = room.peers[n].last_heartbeat->0.speed_centi as int;
    let then = room.peers[n].last_heartbeat_received_at_ms;
    if now_ms >= then {
        (now_ms - then) * speed / 100
    } else {
        -((then - now_ms) * speed / 100)
    }
}

/// Where the peer should be by now: where it was, what it played since, and half
/// a round trip.
pub open spec fn expected_at(room: RoomView, n: NodeId, now_ms: u64) -> int {
    room.peers[n].last_heartbeat->0.media_pos_ms + played_since(room, n, now_ms)
        + match room.peers[n].rtt.estimate() {
        Some(rtt) => rtt as int / 2,
        None => 0,
    }
}

/// Times and positions in the range of ordinary numbers, and no sum beyond it.
pub open spec fn in_ordinary_range(room: RoomView, n: NodeId, now_ms: u64) -> bool {
    let start = room.peers[n].last_heartbeat->0.media_pos_ms as int;
    &&& now_ms <= i64::MAX
    &&& room.peers[n].last_heartbeat_received_at_ms <= i64::MAX
    &&& start <= i64::MAX
    &&& room.local_playback.media_pos_ms <= i64::MAX
    &&& i64::MIN <= played_since(room, n, now_ms) <= i64::MAX
    &&& i64::MIN <= start + played_since(room, n, now_ms) <= i64::MAX
    &&& expected_at(room, n, now_ms) <= i64::MAX
}

/// Outside the window after a jump, a tick corrects drift against the freshest
/// peer, if both play. Less than 100 ms off, we play at normal speed. Less than
/// a second ahead, we slow down; less than a second behind, we speed up. Further
/// off, the one with the larger identifier jumps to where the other should be,
/// and the one with the smaller identifier slows down or speeds up. So no speed
/// that is set increases the distance.
pub proof fn law_ticks_reduce_drift(room: RoomView, n: NodeId, now_ms: u64)
    requires
        is_freshest(room, n, now_ms),
        in_ordinary_range(room, n, now_ms),
        match room.last_pos_control_at_ms {
            Some(t) => t + 2_000 <= now_ms,
            None => true,
        },
        !room.local_playback.paused,
        !room.peers[n].last_heartbeat->0.paused,
    ensures
        ({
            let (after, outs) = step(room, Input::Tick { now_ms });
            let goal = if expected_at(room, n, now_ms) < 0 {
                0
            } else {
                expected_at(room, n, now_ms)
            };
            let ahead = room.local_playback.media_pos_ms - goal;
            &&& -100 < ahead < 100 && room.local_playback.speed_centi == 100 ==> outs.len() == 1
            &&& -100 < ahead < 100 && room.local_playback.speed_centi != 100 ==> outs.len() == 2
                && outs[1] == OutputView::Mpv(MpvCommand::SetSpeed { speed_centi: 100 })
            &&& (100 <= ahead < 1_000 || (1_000 <= ahead && !n.before(room.local)))
                ==> outs.len() == 2 && outs[1] == OutputView::Mpv(
                MpvCommand::SetSpeed { speed_centi: 95 },
            )
            &&& (-1_000 < ahead <= -100 || (ahead <= -1_000 && !n.before(room.local)))
                ==> outs.len() == 2 && outs[1] == OutputView::Mpv(
                MpvCommand::SetSpeed { speed_centi: 105 },
            )
            &&& (1_000 <= ahead || ahead <= -1_000) && n.before(room.local) ==> outs.len() == 2
                && outs[1] == OutputView::Mpv(MpvCommand::Seek { media_pos_ms: goal as u64 })
                && after.last_pos_control_at_ms == Some(now_ms)
            &&& (-1_000 < ahead < 1_000 || !n.before(room.local)) ==> after == room
        }),
{
    lemma_freshest_is_reference(room, n, now_ms);
    lemma_projection(room, n, now_ms);
}

proof fn lemma_projection(room: RoomView, n: NodeId, now_ms: u64)
    requires
        in_ordinary_range(room, n, now_ms),
    ensures
        ({
            let p = crate::room::reference_peer(room, n);
            &&& crate::drift::advanced(p, now_ms) == played_since(room, n, now_ms)
            &&& crate::drift::projection(p, now_ms) == expected_at(room, n, now_ms)
            &&& crate::drift::projection_in_range(p, now_ms)
        }),
{
    let hb = room.peers[n].last_heartbeat->0;
    let p = crate::room::reference_peer(room, n);
    let then = room.peers[n].last_heartbeat_received_at_ms;
    let x = crate::drift::elapsed(p, now_ms) * p.speed_centi as int;
    assert(crate::drift::elapsed(p, now_ms) == now_ms - then);
    if now_ms >= then {
        assert(x >= 0) by (nonlinear_arith)
            requires
                x == (now_ms - then) * (hb.speed_centi as int),
                now_ms >= then,
        ;
    } else {
        assert(-x == (then - now_ms) * (hb.speed_centi as int)) by (nonlinear_arith)
            requires
                x == (now_ms - then) * (hb.speed_centi as int),
        ;
        assert(x <= 0) by (nonlinear_arith)
            requires
                x == (now_ms - then) * (hb.speed_centi as int),
                now_ms < then,
        ;
    }
    assert(crate::drift::quotient_toward_zero(x, 100) == played_since(room, n, now_ms));
    assert(crate::drift::advanced(p, now_ms) == played_since(room, n, now_ms));
    assert(crate::drift::projection(p, now_ms) == expected_at(room, n, now_ms));
}

proof fn lemma_freshest_is_reference(room: RoomView, n: NodeId, now_ms: u64)
    requires
        is_freshest(room, n, now_ms),
    ensures
        reference(room, now_ms) == Some(n),
{
    assert forall|m: NodeId| #[trigger]
        crate::room::eligible(room, m, now_ms) == is_current(room, m, now_ms) by {}
    assert(is_reference(room, n, now_ms)) by {
        assert forall|m: NodeId| #[trigger]
            crate::room::eligible(room, m, now_ms) && m != n implies crate::room::heard_at(room, m)
            < crate::room::heard_at(room, n) || (crate::room::heard_at(room, m)
            == crate::room::heard_at(room, n) && n.before(m)) by {
            assert(is_current(room, m, now_ms));
        }
    }
    law_reference_is_unique(room, n, now_ms);
}

/// Where one of the two is paused, drift is not corrected: a tick only goes back
/// to normal speed.
pub proof fn law_paused_peers_do_not_drift(room: RoomView, n: NodeId, now_ms: u64)
    requires
        is_freshest(room, n, now_ms),
        room.local_playback.paused || room.peers[n].last_heartbeat->0.paused,
    ensures
        ({
            let (after, outs) = step(room, Input::Tick { now_ms });
            &&& after == room
            &&& outs.len() == 2 ==> room.local_playback.speed_centi != 100 && outs[1]
                == OutputView::Mpv(MpvCommand::SetSpeed { speed_centi: 100 })
            &&& outs.len() == 1 ==> room.local_playback.speed_centi == 100
                || room.last_pos_control_at_ms is Some
        }),
{
    lemma_freshest_is_reference(room, n, now_ms);
}

/// Without a current heartbeat a tick commands nothing. It names a peer that was
/// silent for more than five seconds, and for no less than any other, if there is
/// one.
pub proof fn law_silent_peers_are_named(room: RoomView, now_ms: u64)
    requires
        room.peers.dom().finite(),
        forall|m: NodeId| !(#[trigger] is_current(room, m, now_ms)),
    ensures
        ({
            let (after, outs) = step(room, Input::Tick { now_ms });
            &&& after == room
            &&& outs.len() == 2 ==> exists|n: NodeId|
                outs[1] == OutputView::Notify(NoticeView::StaleReferenceSkipped { peer: n })
                    && #[trigger] room.peers.contains_key(n) && room.peers[n].last_heartbeat is Some
                    && now_ms - room.peers[n].last_heartbeat_received_at_ms > 5_000 && forall|
                    m: NodeId,
                |
                    (#[trigger] room.peers.contains_key(m)) && room.peers[m].last_heartbeat is Some
                        ==> room.peers[n].last_heartbeat_received_at_ms
                        <= room.peers[m].last_heartbeat_received_at_ms
            &&& outs.len() == 1 && room.last_pos_control_at_ms is None ==> forall|m: NodeId|
                (#[trigger] room.peers.contains_key(m)) ==> room.peers[m].last_heartbeat is None
        }),
{
    let (after, outs) = step(room, Input::Tick { now_ms });
    assert forall|m: NodeId| !is_reference(room, m, now_ms) by {
        if is_reference(room, m, now_ms) {
            assert(is_current(room, m, now_ms));
        }
    }
    if outs.len() == 2 {
        let n = stalest(room, now_ms)->0;
        assert(crate::room::is_stalest(room, n, now_ms));
        assert(room.peers.contains_key(n));
        assert forall|m: NodeId|
            (#[trigger] room.peers.contains_key(m))
                && room.peers[m].last_heartbeat is Some implies room.peers[n].last_heartbeat_received_at_ms
            <= room.peers[m].last_heartbeat_received_at_ms by {
            if crate::room::stale(room, m, now_ms) && m != n {
            }
        }
    } else if room.last_pos_control_at_ms is None {
        assert forall|m: NodeId| (#[trigger] room.peers.contains_key(m)) implies room.peers[m].last_heartbeat is None by {
            if room.peers[m].last_heartbeat is Some {
                assert(!is_current(room, m, now_ms));
                law_stale_peer_gives_stalest(room, m, now_ms);
            }
        }
    }
}

// --- What we do ---

/// What we do, whether in mpv or in our UI, is done to our playback and told to
/// all peers as one event of ours, with the next number. What mpv has not done
/// yet is commanded first, and nothing else is sent.
pub proof fn law_own_actions_are_told(
    room: RoomView,
    action: ControlAction,
    now_ms: u64,
    in_mpv: bool,
)
    requires
        room.local_seq < u64::MAX,
    ensures
        ({
            let (after, outs) = step(
                room,
                if in_mpv {
                    Input::LocalControl { action, now_ms }
                } else {
                    Input::UiControl { action, now_ms }
                },
            );
            let ev = ControlEventView {
                origin: room.local,
                origin_ts_ms: now_ms,
                seq: (room.local_seq + 1) as u64,
                action: action@,
            };
            &&& fulfilled(after.local_playback, action@)
            &&& undisturbed(room.local_playback, after.local_playback, action@)
            &&& outs.last() == OutputView::Broadcast(FrameView::Control(ev))
            &&& in_mpv || action@ is MediaChanged ==> outs.len() == 1
            &&& !in_mpv && !(action@ is MediaChanged) ==> outs.len() == 2 && match action@ {
                ControlActionView::Pause { .. } => outs[0] == OutputView::Mpv(
                    MpvCommand::Pause(true),
                ),
                ControlActionView::Play { .. } => outs[0] == OutputView::Mpv(
                    MpvCommand::Pause(false),
                ),
                ControlActionView::Seek { media_pos_ms } => outs[0] == OutputView::Mpv(
                    MpvCommand::Seek { media_pos_ms },
                ),
                ControlActionView::SetSpeed { speed_centi } => outs[0] == OutputView::Mpv(
                    MpvCommand::SetSpeed { speed_centi },
                ),
                _ => true,
            }
            &&& after == (RoomView {
                local_playback: after.local_playback,
                local_seq: ev.seq,
                local_media: if action@ is MediaChanged {
                    Some(action@->id)
                } else {
                    room.local_media
                },
                last_applied_control: Some(ev),
                last_pos_control_at_ms: if action@ is Pause || action@ is Play || action@ is Seek {
                    Some(now_ms)
                } else {
                    room.last_pos_control_at_ms
                },
                ..room
            })
        }),
{
}

/// A new file of ours is remembered and told to all peers as one event of ours,
/// with the next number. Playback stays as it is.
pub proof fn law_own_file_is_told(room: RoomView, media: MediaId, now_ms: u64)
    requires
        room.local_seq < u64::MAX,
    ensures
        ({
            let (after, outs) = step(room, Input::LocalMediaChanged { media, now_ms });
            let ev = ControlEventView {
                origin: room.local,
                origin_ts_ms: now_ms,
                seq: (room.local_seq + 1) as u64,
                action: ControlActionView::MediaChanged { id: media@ },
            };
            &&& outs == seq![OutputView::Broadcast(FrameView::Control(ev))]
            &&& after == (RoomView {
                local_media: Some(media@),
                local_seq: ev.seq,
                last_applied_control: Some(ev),
                ..room
            })
        }),
{
    assert(step(room, Input::LocalMediaChanged { media, now_ms }).1 =~= seq![
        step(room, Input::LocalMediaChanged { media, now_ms }).1[0],
    ]);
}

/// What we do reaches a peer that plays as we do: once it heard of it, and unless
/// it has heard of something newer or earlier, it plays as we do again.
pub proof fn law_peers_follow(
    ours: RoomView,
    theirs: RoomView,
    action: ControlAction,
    frame: Frame,
    now_ms: u64,
    received_at_ms: u64,
    in_mpv: bool,
)
    requires
        ours.local_seq < u64::MAX,
        ours.local_playback == theirs.local_playback,
        ({
            let outs = step(
                ours,
                if in_mpv {
                    Input::LocalControl { action, now_ms }
                } else {
                    Input::UiControl { action, now_ms }
                },
            ).1;
            outs.last() == OutputView::Broadcast(frame@)
        }),
        frame@ is Control ==> is_news(theirs, ours.local, frame@->Control_0),
    ensures
        ({
            let we = step(
                ours,
                if in_mpv {
                    Input::LocalControl { action, now_ms }
                } else {
                    Input::UiControl { action, now_ms }
                },
            ).0;
            let (they, outs) = step(
                theirs,
                Input::FrameReceived {
                    from: ours.local,
                    frame,
                    received_at_ms,
                    rtt_sample_ms: None,
                },
            );
            &&& frame@ is Control
            &&& they.local_playback == we.local_playback
            &&& they.last_applied_control == we.last_applied_control
            &&& driven(theirs.local_playback, outs) == they.local_playback
        }),
{
    law_own_actions_are_told(ours, action, now_ms, in_mpv);
    law_news_is_applied(
        theirs,
        ours.local,
        frame,
        frame@->Control_0,
        received_at_ms,
        None,
    );
}

/// Our ready flag is what the user set it to, whatever it was; the ready gate
/// knows it of us; and all peers are told just that.
pub proof fn law_own_readiness_is_told(room: RoomView, ready: bool, now_ms: u64, n: NodeId)
    ensures
        ({
            let (after, outs) = step(room, Input::LocalReady { ready, now_ms });
            &&& after.local_ready == ready
            &&& after.gate.peers.contains_key(room.local)
            &&& after.gate.peers[room.local] == ready
            &&& n != room.local ==> same_of(room, after, n)
            &&& after.peers == room.peers
            &&& outs == seq![
                OutputView::Broadcast(
                    FrameView::Presence(PresenceEventView::Ready { node: room.local, ready }),
                ),
            ]
            &&& after == (RoomView { local_ready: ready, gate: after.gate, ..room })
            &&& after.gate.override_enabled == room.gate.override_enabled
        }),
{
}

/// As long as we are not ready and there is no override, the room waits.
pub proof fn law_room_waits_for_us(room: RoomView, now_ms: u64)
    requires
        !room.gate.override_enabled,
    ensures
        step(room, Input::LocalReady { ready: false, now_ms }).0.gate.state() is Pending,
{
    let gate = step(room, Input::LocalReady { ready: false, now_ms }).0.gate;
    assert(gate.peers.contains_key(room.local) && !gate.peers[room.local]);
}

/// Our readiness reaches a peer that has us in its room, and nobody else's
/// readiness changes there.
pub proof fn law_readiness_reaches_peers(
    ours: RoomView,
    theirs: RoomView,
    ready: bool,
    frame: Frame,
    now_ms: u64,
    received_at_ms: u64,
    n: NodeId,
)
    requires
        theirs.peers.contains_key(ours.local),
        step(ours, Input::LocalReady { ready, now_ms }).1.contains(OutputView::Broadcast(frame@)),
    ensures
        ({
            let they = step(
                theirs,
                Input::FrameReceived {
                    from: ours.local,
                    frame,
                    received_at_ms,
                    rtt_sample_ms: None,
                },
            ).0;
            &&& they.gate.peers.contains_key(ours.local)
            &&& they.gate.peers[ours.local] == ready
            &&& n != ours.local ==> same_of(theirs, they, n)
        }),
{
    let outs = step(ours, Input::LocalReady { ready, now_ms }).1;
    let i = choose|i: int| 0 <= i < outs.len() && outs[i] == OutputView::Broadcast(frame@);
    assert(outs[i] == outs[0]);
}

/// What we say becomes the last message of our chat and is sent to all peers as
/// it was said, with our origin and the time.
pub proof fn law_own_words_are_sent(room: RoomView, text: String, now_ms: u64)
    requires
        room.chat.len() <= 200,
    ensures
        ({
            let (after, outs) = step(room, Input::LocalChat { text, now_ms });
            let msg = ChatMessageView { origin: room.local, origin_ts_ms: now_ms, text: text@ };
            &&& outs == seq![OutputView::Broadcast(FrameView::Chat(msg))]
            &&& after == (RoomView { chat: after.chat, ..room })
            &&& follows(room.chat, msg, after.chat)
        }),
{
    lemma_chat_follows(
        room.chat,
        ChatMessageView { origin: room.local, origin_ts_ms: now_ms, text: text@ },
    );
}

/// A peer that receives what we said has the same last message as we have.
pub proof fn law_words_arrive_as_said(
    ours: RoomView,
    theirs: RoomView,
    text: String,
    frame: Frame,
    now_ms: u64,
    received_at_ms: u64,
)
    requires
        step(ours, Input::LocalChat { text, now_ms }).1.contains(OutputView::Broadcast(frame@)),
    ensures
        ({
            let we = step(ours, Input::LocalChat { text, now_ms }).0;
            let they = step(
                theirs,
                Input::FrameReceived {
                    from: ours.local,
                    frame,
                    received_at_ms,
                    rtt_sample_ms: None,
                },
            ).0;
            &&& we.chat.len() > 0
            &&& they.chat.len() > 0
            &&& they.chat.last() == we.chat.last()
            &&& we.chat.last().text == text@
            &&& we.chat.last().origin == ours.local
            &&& we.chat.last().origin_ts_ms == now_ms
        }),
{
    let outs = step(ours, Input::LocalChat { text, now_ms }).1;
    let i = choose|i: int| 0 <= i < outs.len() && outs[i] == OutputView::Broadcast(frame@);
    assert(outs[i] == outs[0]);
}

/// What mpv reports is where we are; nothing else changes, and nothing is sent.
pub proof fn law_reports_are_believed(
    room: RoomView,
    media_pos_ms: u64,
    paused: bool,
    speed_centi: u16,
)
    ensures
        ({
            let (after, outs) = step(
                room,
                Input::MpvStateUpdate { media_pos_ms, paused, speed_centi },
            );
            &&& outs.len() == 0
            &&& after.local_playback.media_pos_ms == media_pos_ms
            &&& after.local_playback.paused == paused
            &&& after.local_playback.speed_centi == speed_centi
            &&& after == (RoomView { local_playback: after.local_playback, ..room })
        }),
{
}

/// The override is what it was set to; nothing else changes, and nothing is
/// sent.
pub proof fn law_override_is_set(room: RoomView, enabled: bool)
    ensures
        ({
            let (after, outs) = step(room, Input::SetOverride { enabled });
            &&& outs.len() == 0
            &&& after.gate.override_enabled == enabled
            &&& after.gate.peers == room.gate.peers
            &&& after == (RoomView { gate: after.gate, ..room })
        }),
{
}

// --- Peers that come and go ---

/// A peer that connects is in the room under its nickname, and nothing changes
/// for the others. A new one is sent the roster, all others are told that it
/// joined, and, if we have a file open, it is told to come to where we are. One
/// that was there already, and ourselves, lead to nothing.
pub proof fn law_new_peers_are_introduced(
    room: RoomView,
    node: NodeId,
    nickname: String,
    now_ms: u64,
    n: NodeId,
)
    requires
        room.local_seq < u64::MAX,
    ensures
        ({
            let (after, outs) = step(room, Input::PeerConnected { node, nickname, now_ms });
            let is_new = node != room.local && !room.peers.contains_key(node);
            &&& node == room.local ==> after == room
            &&& node != room.local ==> arrived(room, after, node, nickname@)
            &&& n != node ==> same_of(room, after, n)
            &&& after == (RoomView {
                peers: after.peers,
                gate: after.gate,
                local_seq: after.local_seq,
                ..room
            })
            &&& after.gate.override_enabled == room.gate.override_enabled
            &&& !is_new ==> outs.len() == 0 && after.local_seq == room.local_seq
            &&& is_new ==> {
                &&& outs.len() == if room.local_media is Some {
                    3int
                } else {
                    2
                }
                &&& outs[0] matches OutputView::SendTo {
                    to,
                    frame: FrameView::Presence(PresenceEventView::PeerList { .. }),
                } && to == node
                &&& outs[1] == OutputView::Broadcast(
                    FrameView::Presence(PresenceEventView::Join { node, nickname: nickname@ }),
                )
                &&& room.local_media is None ==> after.local_seq == room.local_seq
                &&& room.local_media is Some ==> after.local_seq == room.local_seq + 1 && outs[2]
                    == (OutputView::SendTo {
                    to: node,
                    frame: FrameView::Control(
                        ControlEventView {
                            origin: room.local,
                            origin_ts_ms: now_ms,
                            seq: (room.local_seq + 1) as u64,
                            action: ControlActionView::Seek {
                                media_pos_ms: room.local_playback.media_pos_ms,
                            },
                        },
                    ),
                })
            }
        }),
{
    crate::rtt::law_fresh_estimator_has_no_average();
}

/// The roster that a new peer is sent names us first, with our nickname, then
/// everyone else in the room but the peer itself, each with its nickname, in
/// ascending order and once. No addresses are filled in yet.
pub proof fn law_roster_names_the_room(
    room: RoomView,
    node: NodeId,
    nickname: String,
    now_ms: u64,
)
    requires
        room.peers.dom().finite(),
        node != room.local,
        !room.peers.contains_key(node),
    ensures
        ({
            let outs = step(room, Input::PeerConnected { node, nickname, now_ms }).1;
            let roster = outs[0]->SendTo_frame->Presence_0->PeerList_peers;
            &&& roster.len() == 1 + room.peers.dom().len()
            &&& roster[0] == (room.local, room.local_nickname, Seq::<u8>::empty())
            &&& lists(roster.skip(1).map_values(|e: RosterEntryView| e.0), room.peers.dom())
            &&& forall|i: int|
                1 <= i < roster.len() ==> (#[trigger] roster[i]).1
                    == room.peers[roster[i].0].nickname && roster[i].2.len() == 0
        }),
{
    let known = crate::room::register(room, node, nickname@);
    let others = known.peers.dom().remove(node);
    assert(others =~= room.peers.dom());
    law_finite_sets_are_listed(others);
    let names = crate::node_map::listing(others);
    let outs = step(room, Input::PeerConnected { node, nickname, now_ms }).1;
    let roster = outs[0]->SendTo_frame->Presence_0->PeerList_peers;
    assert(roster == crate::room::roster_for(known, node));
    assert(roster.skip(1).map_values(|e: RosterEntryView| e.0) =~= names);
    assert forall|i: int| 1 <= i < roster.len() implies (#[trigger] roster[i]).1
        == room.peers[roster[i].0].nickname && roster[i].2.len() == 0 by {
        let m = names[i - 1];
        assert(roster[i].0 == m);
        assert(names.contains(m));
        assert(others.contains(m));
    }
}

/// Everyone whom a new peer finds on our roster is in its room afterwards, under
/// the nickname by which we know them, and so are we.
pub proof fn law_roster_introduces_the_room(
    ours: RoomView,
    theirs: RoomView,
    node: NodeId,
    nickname: String,
    frame: Frame,
    now_ms: u64,
    received_at_ms: u64,
    n: NodeId,
)
    requires
        ours.peers.dom().finite(),
        node != ours.local,
        theirs.local == node,
        !ours.peers.contains_key(node),
        !ours.peers.contains_key(ours.local),
        step(ours, Input::PeerConnected { node, nickname, now_ms }).1[0] == (OutputView::SendTo {
            to: node,
            frame: frame@,
        }),
        n == ours.local || ours.peers.contains_key(n),
    ensures
        ({
            let they = step(
                theirs,
                Input::FrameReceived {
                    from: ours.local,
                    frame,
                    received_at_ms,
                    rtt_sample_ms: None,
                },
            ).0;
            &&& they.peers.contains_key(n)
            &&& they.peers[n].nickname == if n == ours.local {
                ours.local_nickname
            } else {
                ours.peers[n].nickname
            }
        }),
{
    law_roster_names_the_room(ours, node, nickname, now_ms);
    let roster = frame@->Presence_0->PeerList_peers;
    let names = roster.skip(1).map_values(|e: RosterEntryView| e.0);
    law_roster_nickname_is_on_the_roster(roster, n);
    if n == ours.local {
        assert(roster[0].0 == n);
        if let Some(nick) = roster_nickname(roster, n) {
            let i = choose|i: int|
                0 <= i < roster.len() && (#[trigger] roster[i]).0 == n && roster[i].1 == nick
                    && forall|j: int| i < j < roster.len() ==> (#[trigger] roster[j]).0 != n;
            if i > 0 {
                assert(names[i - 1] == n);
                assert(names.contains(n));
                assert(ours.peers.dom().contains(n));
            }
        }
    } else {
        assert(ours.peers.dom().contains(n));
        assert(names.contains(n));
        let k = choose|k: int| 0 <= k < names.len() && names[k] == n;
        assert(roster[k + 1].0 == n);
    }
    law_presence_is_believed(
        theirs,
        ours.local,
        frame,
        frame@->Presence_0,
        received_at_ms,
        n,
    );
}

/// A peer that disconnects is out of the room and no longer waited for; nothing
/// changes for the others, and they are told.
pub proof fn law_lost_peers_are_dropped(room: RoomView, node: NodeId, n: NodeId)
    ensures
        ({
            let (after, outs) = step(room, Input::PeerDisconnected { node });
            &&& !after.peers.contains_key(node)
            &&& !after.gate.peers.contains_key(node)
            &&& n != node ==> same_of(room, after, n)
            &&& after == (RoomView { peers: after.peers, gate: after.gate, ..room })
            &&& after.gate.override_enabled == room.gate.override_enabled
            &&& outs == seq![
                OutputView::Broadcast(FrameView::Presence(PresenceEventView::Leave { node })),
            ]
        }),
{
}

/// A new room knows nobody but us: paused at the start, at normal speed, not
/// ready, without a file, without a message, and with no event sent or applied.
pub proof fn law_new_rooms_are_empty(local: NodeId, nickname: Seq<char>, n: NodeId)
    ensures
        ({
            let room = new_room(local, nickname);
            &&& room.local == local
            &&& room.local_nickname == nickname
            &&& room.local_seq == 0
            &&& room.local_playback.media_pos_ms == 0
            &&& room.local_playback.paused
            &&& room.local_playback.speed_centi == 100
            &&& room.local_media is None
            &&& !room.local_ready
            &&& !room.peers.contains_key(n)
            &&& room.gate.peers.contains_key(n) == (n == local)
            &&& !room.gate.peers[local]
            &&& !room.gate.override_enabled
            &&& room.gate.state() is Pending
            &&& room.last_applied_control is None
            &&& room.last_pos_control_at_ms is None
            &&& room.chat.len() == 0
        }),
{
    let gate = new_room(local, nickname).gate;
    assert(gate.peers.contains_key(local) && !gate.peers[local]);
}

/// The room may play exactly when somebody is in it and everyone is ready, or,
/// with the override, somebody is.
pub proof fn law_room_plays_when_all_are_ready(room: RoomView)
    ensures
        room.gate.state() == ReadyState::AllReady <==> {
            &&& exists|n: NodeId| #[trigger] room.gate.peers.contains_key(n)
            &&& (forall|n: NodeId| #[trigger] room.gate.peers.contains_key(n) ==> room.gate.peers[n])
                || (room.gate.override_enabled && exists|n: NodeId| #[trigger]
                room.gate.peers.contains_key(n) && room.gate.peers[n])
        },
{
}

/// As long as our numbers have not run out, every input but a tick can be
/// applied. A tick can be where no heartbeat is current, within two seconds of a
/// jump, where one side is paused, and in the range of ordinary numbers.
pub proof fn law_ordinary_inputs_can_be_applied(room: RoomView, input: Input, n: NodeId)
    ensures
        room.local_seq < u64::MAX && !(input is Tick) ==> can_step(room, input),
        input is FrameReceived || input is LocalReady || input is LocalChat
            || input is MpvStateUpdate || input is PeerDisconnected || input is SetOverride
            ==> can_step(room, input),
        input matches Input::Tick { now_ms } ==> {
            &&& (forall|m: NodeId| !(#[trigger] is_current(room, m, now_ms))) ==> can_step(
                room,
                input,
            )
            &&& is_freshest(room, n, now_ms) && in_ordinary_range(room, n, now_ms) ==> can_step(
                room,
                input,
            )
            &&& is_freshest(room, n, now_ms) && (room.local_playback.paused
                || room.peers[n].last_heartbeat->0.paused) ==> can_step(room, input)
            &&& room.last_pos_control_at_ms is Some && now_ms < room.last_pos_control_at_ms->0
                + 2_000 && now_ms < u64::MAX ==> can_step(room, input)
        },
{
    if let Input::Tick { now_ms } = input {
        if forall|m: NodeId| !(#[trigger] is_current(room, m, now_ms)) {
            assert forall|m: NodeId| !is_reference(room, m, now_ms) by {
                if is_reference(room, m, now_ms) {
                    assert(is_current(room, m, now_ms));
                }
            }
        }
        if is_freshest(room, n, now_ms) {
            lemma_freshest_is_reference(room, n, now_ms);
            if in_ordinary_range(room, n, now_ms) {
                lemma_projection(room, n, now_ms);
            }
        }
    }
}

} // verus!
