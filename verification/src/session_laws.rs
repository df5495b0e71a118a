//! What holds of the event loop as a whole.

use vstd::prelude::*;

use crate::addrs::addr_parse;
use crate::double::{hundredths, millis, Double};
use crate::echo::{deadline, near};
use crate::node_id::NodeId;
use crate::player::event::MpvEventView;
use crate::protocol::{
    ControlActionView, ControlEventView, FrameView, PresenceEventView, RosterEntryView,
};
use crate::room::{
    carries_position, inbound_frame, is_duplicate, is_superseded, own_event, sample_rtt, seek_to,
    OutputView,
};
use crate::session::{
    dispatch_all, dispatch_one, filled, frame_step, mpv_step, refreshed, snoop_entry, snoop_roster,
    EffectView, MpvDispatchOrigin, SessionView,
};
use crate::state::{MpvCommand, PlaybackState};

verus! {

/// The session after mpv reported the start and the end of a seek.
pub open spec fn after_seek_edges(s: SessionView, now_ms: u64) -> SessionView {
    mpv_step(mpv_step(s, MpvEventView::Seeking, now_ms).0, MpvEventView::PlaybackRestart, now_ms).0
}

pub proof fn lemma_dispatch_single(
    s: SessionView,
    out: OutputView,
    origin: MpvDispatchOrigin,
    now_ms: u64,
)
    ensures
        dispatch_all(s, seq![out], origin, now_ms) == dispatch_one(s, out, origin, now_ms),
{
    let outs = seq![out];
    assert(outs.drop_last() =~= Seq::empty());
    let here = dispatch_one(s, out, origin, now_ms);
    assert(dispatch_all(s, outs.drop_last(), origin, now_ms) == (s, Seq::<EffectView>::empty()));
    assert(Seq::<EffectView>::empty() + here.1 =~= here.1);
}

pub proof fn lemma_dispatch_pair(
    s: SessionView,
    a: OutputView,
    b: OutputView,
    origin: MpvDispatchOrigin,
    now_ms: u64,
)
    ensures
        ({
            let first = dispatch_one(s, a, origin, now_ms);
            let second = dispatch_one(first.0, b, origin, now_ms);
            dispatch_all(s, seq![a, b], origin, now_ms) == (second.0, first.1 + second.1)
        }),
{
    let outs = seq![a, b];
    assert(outs.drop_last() =~= seq![a]);
    lemma_dispatch_single(s, a, origin, now_ms);
}

/// A seek, pause or play of a peer is never sent back: when mpv has carried it
/// out, the position that it reports within the guard's window, wherever it
/// landed, only refreshes the local state. This is what keeps two players with
/// different keyframes from chasing each other.
pub proof fn law_remote_seek_is_not_rebroadcast(
    s: SessionView,
    from: NodeId,
    ev: ControlEventView,
    rtt_sample_ms: Option<u32>,
    at_ms: u64,
    landed: Double,
    now_ms: u64,
)
    requires
        carries_position(ev.action),
        !is_duplicate(s.room, from, ev.seq),
        !is_superseded(s.room, ev),
        now_ms < deadline(at_ms),
    ensures
        ({
            let heard = frame_step(s, from, FrameView::Control(ev), rtt_sample_ms, at_ms).0;
            let settled = mpv_step(
                after_seek_edges(heard, now_ms),
                MpvEventView::TimePos(landed),
                now_ms,
            );
            &&& settled.1 == Seq::<EffectView>::empty()
            &&& settled.0.room.local_playback == (PlaybackState {
                media_pos_ms: millis(landed@) as u64,
                ..heard.room.local_playback
            })
            &&& settled.0.room.local_seq == heard.room.local_seq
        }),
{
    let heard = frame_step(s, from, FrameView::Control(ev), rtt_sample_ms, at_ms).0;
    let sampled = sample_rtt(s.room, from, rtt_sample_ms);
    let next = inbound_frame(s.room, from, FrameView::Control(ev), at_ms, rtt_sample_ms);
    let base = SessionView { room: next.0, ..s };
    assert(is_duplicate(sampled, from, ev.seq) == is_duplicate(s.room, from, ev.seq));
    match ev.action {
        ControlActionView::Seek { media_pos_ms } => {
            lemma_dispatch_single(base, seek_to(media_pos_ms), MpvDispatchOrigin::Remote, at_ms);
        },
        ControlActionView::Pause { media_pos_ms } => {
            lemma_dispatch_pair(
                base,
                seek_to(media_pos_ms),
                OutputView::Mpv(MpvCommand::Pause(true)),
                MpvDispatchOrigin::Remote,
                at_ms,
            );
        },
        ControlActionView::Play { media_pos_ms } => {
            lemma_dispatch_pair(
                base,
                seek_to(media_pos_ms),
                OutputView::Mpv(MpvCommand::Pause(false)),
                MpvDispatchOrigin::Remote,
                at_ms,
            );
        },
        _ => {},
    }
    let settling = after_seek_edges(heard, now_ms);
    assert(settling.echo.echoes_seek(millis(landed@) as u64, now_ms));
}

/// mpv's report of a pause that we had it carry out is not broadcast: it only
/// refreshes the local state, and a second one would count as the user's.
pub proof fn law_pause_echo_is_silent(
    s: SessionView,
    paused: bool,
    origin: MpvDispatchOrigin,
    at_ms: u64,
    now_ms: u64,
)
    requires
        now_ms < deadline(at_ms),
    ensures
        ({
            let cmd = OutputView::Mpv(MpvCommand::Pause(paused));
            let sent = dispatch_one(s, cmd, origin, at_ms).0;
            let echoed = mpv_step(sent, MpvEventView::Pause(paused), now_ms);
            &&& echoed.1 == Seq::<EffectView>::empty()
            &&& echoed.0.room == refreshed(
                s.room,
                PlaybackState { paused, ..s.room.local_playback },
            ).0
            &&& echoed.0.echo.pending_pause is None
        }),
{
}

/// mpv's report of a speed that we had it take on is not broadcast: it only
/// refreshes the local state, and a second one would count as the user's.
pub proof fn law_speed_echo_is_silent(
    s: SessionView,
    speed: Double,
    origin: MpvDispatchOrigin,
    at_ms: u64,
    now_ms: u64,
)
    requires
        now_ms < deadline(at_ms),
    ensures
        ({
            let speed_centi = hundredths(speed@) as u16;
            let cmd = OutputView::Mpv(MpvCommand::SetSpeed { speed_centi });
            let sent = dispatch_one(s, cmd, origin, at_ms).0;
            let echoed = mpv_step(sent, MpvEventView::Speed(speed), now_ms);
            &&& echoed.1 == Seq::<EffectView>::empty()
            &&& echoed.0.room == refreshed(
                s.room,
                PlaybackState { speed_centi, ..s.room.local_playback },
            ).0
            &&& echoed.0.echo.pending_speed is None
        }),
{
}

/// mpv's report of a seek that we decided on is not broadcast if it landed near
/// the target: it only refreshes the local state.
pub proof fn law_local_seek_echo_is_silent(
    s: SessionView,
    target_ms: u64,
    landed: Double,
    at_ms: u64,
    now_ms: u64,
)
    requires
        now_ms < deadline(at_ms),
        near(target_ms, millis(landed@) as u64),
    ensures
        ({
            let sent = dispatch_one(s, seek_to(target_ms), MpvDispatchOrigin::Local, at_ms).0;
            let echoed = mpv_step(
                after_seek_edges(sent, now_ms),
                MpvEventView::TimePos(landed),
                now_ms,
            );
            &&& echoed.1 == Seq::<EffectView>::empty()
            &&& echoed.0.room == refreshed(
                s.room,
                PlaybackState { media_pos_ms: millis(landed@) as u64, ..s.room.local_playback },
            ).0
            &&& echoed.0.echo.pending_seek is None
        }),
{
}

/// A seek of the user, with no command to mpv outstanding, is broadcast to the
/// mesh, and nothing else happens.
pub proof fn law_user_seek_is_broadcast(s: SessionView, target: Double, now_ms: u64)
    requires
        s.echo.pending_seek is None,
    ensures
        mpv_step(after_seek_edges(s, now_ms), MpvEventView::TimePos(target), now_ms).1 == seq![
            EffectView::Broadcast(
                FrameView::Control(
                    own_event(
                        s.room,
                        ControlActionView::Seek { media_pos_ms: millis(target@) as u64 },
                        now_ms,
                    ),
                ),
            ),
        ],
{
    let ready = after_seek_edges(s, now_ms);
    let pos = millis(target@) as u64;
    let action = ControlActionView::Seek { media_pos_ms: pos };
    let next = crate::room::local_control(s.room, action, now_ms, false);
    let out = OutputView::Broadcast(FrameView::Control(own_event(s.room, action, now_ms)));
    assert(next.1 =~= seq![out]);
    lemma_dispatch_single(
        SessionView {
            room: next.0,
            seek_just_completed: false,
            echo: ready.echo.after_seek(pos, now_ms),
            ..ready
        },
        out,
        MpvDispatchOrigin::Local,
        now_ms,
    );
}

/// Positions reported during playback are never broadcast.
pub proof fn law_playback_progress_is_silent(s: SessionView, pos: Double, now_ms: u64)
    requires
        !s.seek_just_completed,
    ensures
        mpv_step(s, MpvEventView::TimePos(pos), now_ms).1 == Seq::<EffectView>::empty(),
        mpv_step(s, MpvEventView::TimePos(pos), now_ms).0.room.local_seq == s.room.local_seq,
{
}

/// Reliable frames go only to peers that are connected, and datagrams carry
/// nothing but heartbeats.
pub open spec fn well_addressed(s: SessionView, e: EffectView) -> bool {
    match e {
        EffectView::SendTo { to, .. } => s.connected.contains(to),
        EffectView::Datagram(f) => f is Heartbeat,
        EffectView::Broadcast(f) => !(f is Heartbeat),
        _ => true,
    }
}

/// Dispatching outputs sends only to connected peers, sends heartbeats and
/// nothing else as datagrams, and changes nothing but the echo guard.
pub proof fn law_dispatch_is_well_addressed(
    s: SessionView,
    outs: Seq<OutputView>,
    origin: MpvDispatchOrigin,
    now_ms: u64,
)
    ensures
        forall|i: int|
            0 <= i < dispatch_all(s, outs, origin, now_ms).1.len() ==> well_addressed(
                s,
                #[trigger] dispatch_all(s, outs, origin, now_ms).1[i],
            ),
        dispatch_all(s, outs, origin, now_ms).0 == (SessionView {
            echo: dispatch_all(s, outs, origin, now_ms).0.echo,
            ..s
        }),
    decreases outs.len(),
{
    if outs.len() > 0 {
        law_dispatch_is_well_addressed(s, outs.drop_last(), origin, now_ms);
        let before = dispatch_all(s, outs.drop_last(), origin, now_ms);
        let here = dispatch_one(before.0, outs.last(), origin, now_ms);
        let all = dispatch_all(s, outs, origin, now_ms);
        assert(all.1 == before.1 + here.1);
        assert forall|i: int| 0 <= i < all.1.len() implies well_addressed(
            s,
            #[trigger] all.1[i],
        ) by {
            if i < before.1.len() {
                assert(all.1[i] == before.1[i]);
            } else {
                assert(all.1[i] == here.1[i - before.1.len()]);
            }
        }
    }
}

/// The effect dials a peer that is noted as being dialed, is not ourselves, and
/// was neither connected nor being dialed before.
pub open spec fn proper_dial(before: SessionView, after: SessionView, e: EffectView) -> bool {
    e matches EffectView::Dial { node, addr_bytes } && {
        &&& node != before.room.local
        &&& !before.connected.contains(node)
        &&& !before.pending_dials.contains(node)
        &&& after.pending_dials.contains(node)
        &&& addr_bytes.len() > 0
    }
}

/// A roster has peers dialed that are neither connected nor being dialed, each
/// of them once, and remembers that they are being dialed.
pub proof fn law_peers_are_dialed_once(s: SessionView, roster: Seq<RosterEntryView>)
    ensures
        ({
            let heard = snoop_roster(s, roster);
            &&& forall|i: int|
                0 <= i < heard.1.len() ==> proper_dial(s, heard.0, #[trigger] heard.1[i])
            &&& forall|i: int, j: int|
                0 <= i < j < heard.1.len() ==> (#[trigger] heard.1[i])->Dial_node != (
                #[trigger] heard.1[j])->Dial_node
            &&& s.pending_dials.subset_of(heard.0.pending_dials)
            &&& heard.0.connected == s.connected
            &&& heard.0.room == s.room
        }),
    decreases roster.len(),
{
    if roster.len() > 0 {
        law_peers_are_dialed_once(s, roster.drop_last());
        let before = snoop_roster(s, roster.drop_last());
        let here = snoop_entry(before.0, roster.last());
        let heard = snoop_roster(s, roster);
        assert(heard.1 == before.1 + here.1);
        assert forall|i: int| 0 <= i < heard.1.len() implies proper_dial(
            s,
            heard.0,
            #[trigger] heard.1[i],
        ) by {
            if i < before.1.len() {
                assert(heard.1[i] == before.1[i]);
                assert(proper_dial(s, before.0, before.1[i]));
            } else {
                assert(heard.1[i] == here.1[0]);
            }
        }
        assert forall|i: int, j: int| 0 <= i < j < heard.1.len() implies (
        #[trigger] heard.1[i])->Dial_node != (#[trigger] heard.1[j])->Dial_node by {
            assert(heard.1[i] == before.1[i]);
            assert(proper_dial(s, before.0, before.1[i]));
            if j < before.1.len() {
                assert(heard.1[j] == before.1[j]);
            } else {
                assert(heard.1[j] == here.1[0]);
            }
        }
    }
}

/// Nothing is left to do about a roster entry: it is ourselves, has no readable
/// address, or is connected or being dialed.
pub open spec fn settled(s: SessionView, e: RosterEntryView) -> bool {
    ||| e.0 == s.room.local
    ||| e.2.len() == 0
    ||| addr_parse(e.2) is None
    ||| s.connected.contains(e.0)
    ||| s.pending_dials.contains(e.0)
}

/// Everyone on a roster who is not ourselves and has a readable address ends up
/// connected or being dialed.
pub proof fn law_whole_roster_is_dialed(s: SessionView, roster: Seq<RosterEntryView>)
    ensures
        forall|i: int|
            0 <= i < roster.len() ==> settled(snoop_roster(s, roster).0, #[trigger] roster[i]),
    decreases roster.len(),
{
    if roster.len() > 0 {
        let rest = roster.drop_last();
        law_whole_roster_is_dialed(s, rest);
        law_peers_are_dialed_once(s, rest);
        let before = snoop_roster(s, rest).0;
        let after = snoop_roster(s, roster).0;
        assert forall|i: int| 0 <= i < roster.len() implies settled(
            after,
            #[trigger] roster[i],
        ) by {
            if i < rest.len() {
                assert(settled(before, rest[i]));
            }
        }
    }
}

/// A roster on which nothing is left to do has nobody dialed.
proof fn lemma_settled_roster_is_silent(s: SessionView, roster: Seq<RosterEntryView>)
    requires
        forall|i: int| 0 <= i < roster.len() ==> settled(s, #[trigger] roster[i]),
    ensures
        snoop_roster(s, roster).1 == Seq::<EffectView>::empty(),
        snoop_roster(s, roster).0.pending_dials == s.pending_dials,
    decreases roster.len(),
{
    if roster.len() > 0 {
        let rest = roster.drop_last();
        assert forall|i: int| 0 <= i < rest.len() implies settled(s, #[trigger] rest[i]) by {
            assert(rest[i] == roster[i]);
        }
        lemma_settled_roster_is_silent(s, rest);
        law_peers_are_dialed_once(s, rest);
        assert(settled(s, roster[roster.len() - 1]));
        assert(snoop_roster(s, roster).1 =~= Seq::<EffectView>::empty());
    }
}

/// A roster that comes again has nobody dialed again.
pub proof fn law_repeated_roster_dials_nobody(s: SessionView, roster: Seq<RosterEntryView>)
    ensures
        snoop_roster(snoop_roster(s, roster).0, roster).1 == Seq::<EffectView>::empty(),
{
    law_whole_roster_is_dialed(s, roster);
    lemma_settled_roster_is_silent(snoop_roster(s, roster).0, roster);
}

/// A roster goes out with every address filled in that we know. An address that
/// is there already stays, and one that we do not know stays empty.
pub proof fn law_filling_keeps_given_addresses(
    addrs: Map<NodeId, Seq<u8>>,
    peers: Seq<RosterEntryView>,
    i: int,
)
    requires
        0 <= i < peers.len(),
    ensures
        ({
            let f = filled(addrs, FrameView::Presence(PresenceEventView::PeerList { peers }));
            let out = f->Presence_0->PeerList_peers;
            &&& out.len() == peers.len()
            &&& out[i].0 == peers[i].0
            &&& out[i].1 == peers[i].1
            &&& out[i].2 == if peers[i].2.len() == 0 && addrs.contains_key(peers[i].0) {
                addrs[peers[i].0]
            } else {
                peers[i].2
            }
        }),
{
}

} // verus!
