//! What each event does to the session, said of its outcome.
//!
//! The laws here speak of what goes in and what comes out: what mpv, the user
//! or a peer did, what is sent and commanded, and what other sessions make of
//! that.

use vstd::prelude::*;

use crate::addrs::addr_parse;
use crate::collector::MediaCollectorView;
use crate::double::{hundredths, millis, whole_seconds, Double};
use crate::echo::{EchoGuard, SeekOrigin};
use crate::node_id::NodeId;
use crate::player::event::MpvEventView;
use crate::protocol::{
    ChatMessageView, ControlAction, ControlActionView, ControlEventView, Frame, FrameView, MediaIdView,
    PresenceEventView, RosterEntryView,
};
use crate::room::{step, OutputView, RoomView};
use crate::session::{
    connect_step, deliver, dialed, disconnect_step, dispatch_all, dispatch_one, frame_step,
    mpv_step, new_session, post_seek_input, recorded, snoop_roster, tick_step, ui_step, EffectView,
    MpvDispatchOrigin, SessionView,
};
use crate::session_laws::{
    law_dispatch_is_well_addressed, law_peers_are_dialed_once, lemma_dispatch_pair,
    lemma_dispatch_single,
};
use crate::state::{Input, MpvCommand, PlaybackState};
use crate::std_text::lowercase;
use crate::step_laws::{is_news, law_applied_event_commands_the_player, law_news_is_applied};
use crate::ui::UiEventView;

verus! {

/// All that is sent is one event of ours to all peers, with the next number.
pub open spec fn only_tells(
    before: SessionView,
    after: SessionView,
    effects: Seq<EffectView>,
    action: ControlActionView,
    now_ms: u64,
) -> bool {
    let ev = ControlEventView {
        origin: before.room.local,
        origin_ts_ms: now_ms,
        seq: (before.room.local_seq + 1) as u64,
        action,
    };
    &&& effects == seq![EffectView::Broadcast(FrameView::Control(ev))]
    &&& after.room.local_seq == before.room.local_seq + 1
    &&& after.room.last_applied_control == Some(ev)
}

/// Nothing is sent, and the room is the same but for the playback.
pub open spec fn only_takes_note(
    before: SessionView,
    after: SessionView,
    effects: Seq<EffectView>,
) -> bool {
    &&& effects.len() == 0
    &&& after.room == (RoomView { local_playback: after.room.local_playback, ..before.room })
}

// --- What mpv reports ---

/// mpv paused or went on playing. If we had it do so within the last three
/// seconds, nothing is sent. If not, it was the user: all peers are told to pause
/// or to play, at the current position. Either way the room is paused exactly if
/// mpv is.
pub proof fn law_pause_in_mpv_is_relayed(s: SessionView, paused: bool, now_ms: u64)
    requires
        s.room.local_seq < u64::MAX,
    ensures
        ({
            let (after, effects) = mpv_step(s, MpvEventView::Pause(paused), now_ms);
            let pos = s.room.local_playback.media_pos_ms;
            let expected = s.echo.pending_pause is Some && s.echo.pending_pause->0.expected
                == paused && now_ms < s.echo.pending_pause->0.deadline_ms;
            &&& after.room.local_playback == (PlaybackState { paused, ..s.room.local_playback })
            &&& expected ==> only_takes_note(s, after, effects) && after.echo.pending_pause is None
            &&& !expected && paused ==> only_tells(
                s,
                after,
                effects,
                ControlActionView::Pause { media_pos_ms: pos },
                now_ms,
            )
            &&& !expected && !paused ==> only_tells(
                s,
                after,
                effects,
                ControlActionView::Play { media_pos_ms: pos },
                now_ms,
            )
        }),
{
    let pos = s.room.local_playback.media_pos_ms;
    let action = if paused {
        ControlActionView::Pause { media_pos_ms: pos }
    } else {
        ControlActionView::Play { media_pos_ms: pos }
    };
    lemma_telling(
        SessionView { echo: s.echo.after_pause(paused, now_ms), ..s },
        action,
        now_ms,
    );
}

/// Delivering an action of ours that mpv carried out sends one event.
proof fn lemma_telling(s: SessionView, action: ControlActionView, now_ms: u64)
    requires
        s.room.local_seq < u64::MAX,
    ensures
        ({
            let next = crate::room::local_control(s.room, action, now_ms, false);
            let r = deliver(s, next, MpvDispatchOrigin::Local, now_ms);
            &&& only_tells(s, r.0, r.1, action, now_ms)
            &&& r.0 == (SessionView { room: next.0, ..s })
        }),
{
    let next = crate::room::local_control(s.room, action, now_ms, false);
    let out = next.1[0];
    assert(next.1 =~= seq![out]);
    lemma_dispatch_single(
        SessionView { room: next.0, ..s },
        out,
        MpvDispatchOrigin::Local,
        now_ms,
    );
}

/// mpv plays at another speed. If we had it do so within the last three seconds,
/// nothing is sent. If not, it was the user: all peers are told. Either way the
/// room has the speed that mpv has.
pub proof fn law_speed_in_mpv_is_relayed(s: SessionView, speed: Double, now_ms: u64)
    requires
        s.room.local_seq < u64::MAX,
    ensures
        ({
            let (after, effects) = mpv_step(s, MpvEventView::Speed(speed), now_ms);
            let speed_centi = hundredths(speed@) as u16;
            let expected = s.echo.pending_speed is Some && s.echo.pending_speed->0.expected
                == speed_centi && now_ms < s.echo.pending_speed->0.deadline_ms;
            &&& after.room.local_playback == (PlaybackState {
                speed_centi,
                ..s.room.local_playback
            })
            &&& expected ==> only_takes_note(s, after, effects) && after.echo.pending_speed is None
            &&& !expected ==> only_tells(
                s,
                after,
                effects,
                ControlActionView::SetSpeed { speed_centi },
                now_ms,
            )
        }),
{
    let speed_centi = hundredths(speed@) as u16;
    lemma_telling(
        SessionView { echo: s.echo.after_speed(speed_centi, now_ms), ..s },
        ControlActionView::SetSpeed { speed_centi },
        now_ms,
    );
}

/// mpv reports a position. It is where the room is from now on. Only the first
/// one after a seek may be told to the peers: it is, unless we had mpv seek within
/// the last three seconds, for a peer or to within a second of there.
pub proof fn law_seeks_in_mpv_are_relayed(s: SessionView, pos: Double, now_ms: u64)
    requires
        s.room.local_seq < u64::MAX,
    ensures
        ({
            let (after, effects) = mpv_step(s, MpvEventView::TimePos(pos), now_ms);
            let media_pos_ms = millis(pos@) as u64;
            let sought = s.echo.pending_seek;
            let expected = sought is Some && now_ms < sought->0.deadline_ms && (
            sought->0.origin is Remote || -1_000 <= sought->0.expected - media_pos_ms <= 1_000);
            &&& after.room.local_playback == (PlaybackState {
                media_pos_ms,
                ..s.room.local_playback
            })
            &&& !after.seek_just_completed
            &&& !s.seek_just_completed ==> only_takes_note(s, after, effects) && after.echo
                == s.echo
            &&& s.seek_just_completed && expected ==> only_takes_note(s, after, effects)
                && after.echo.pending_seek is None
            &&& s.seek_just_completed && !expected ==> only_tells(
                s,
                after,
                effects,
                ControlActionView::Seek { media_pos_ms },
                now_ms,
            )
        }),
{
    let media_pos_ms = millis(pos@) as u64;
    if s.seek_just_completed {
        lemma_telling(
            SessionView {
                seek_just_completed: false,
                echo: s.echo.after_seek(media_pos_ms, now_ms),
                ..s
            },
            ControlActionView::Seek { media_pos_ms },
            now_ms,
        );
    }
}

/// A seek lasts from its start to the restart of playback, and only then is the
/// next position its target. Neither is told to anybody, and nothing else
/// changes. The end of a file and of mpv change nothing at all.
pub proof fn law_seeks_last_until_playback_restarts(s: SessionView, now_ms: u64)
    ensures
        ({
            let (started, nothing) = mpv_step(s, MpvEventView::Seeking, now_ms);
            let (over, still_nothing) = mpv_step(started, MpvEventView::PlaybackRestart, now_ms);
            let (again, nor_then) = mpv_step(s, MpvEventView::PlaybackRestart, now_ms);
            &&& nothing.len() == 0 && still_nothing.len() == 0 && nor_then.len() == 0
            &&& started.seek_in_progress && started.seek_just_completed == s.seek_just_completed
            &&& !over.seek_in_progress && over.seek_just_completed
            &&& !s.seek_in_progress ==> again == s
            &&& started == (SessionView { seek_in_progress: true, ..s })
            &&& over == (SessionView { seek_in_progress: false, seek_just_completed: true, ..s })
            &&& mpv_step(s, MpvEventView::EofReached, now_ms) == (s, Seq::<EffectView>::empty())
            &&& mpv_step(s, MpvEventView::Shutdown, now_ms) == (s, Seq::<EffectView>::empty())
        }),
{
}

/// Only the collector changed.
pub open spec fn only_collects(
    before: SessionView,
    after: SessionView,
    effects: Seq<EffectView>,
) -> bool {
    effects.len() == 0 && after == (SessionView { media: after.media, ..before })
}

/// What the collector knows of the file.
pub open spec fn knows(
    c: MediaCollectorView,
    filename: Option<Seq<char>>,
    duration_s: Option<u32>,
    file_size: Option<u64>,
) -> bool {
    c.filename == filename && c.duration_s == duration_s && c.file_size == file_size
}

/// A report about the loaded file is collected. As soon as name, length and size
/// are known, and they are not what was announced last, the file is announced to
/// all peers and is our file from then on. A new name makes length and size
/// unknown. In between, nothing is sent.
pub proof fn law_loaded_files_are_announced(s: SessionView, ev: MpvEventView, now_ms: u64)
    requires
        s.room.local_seq < u64::MAX,
        ev is Filename || ev is Duration || ev is FileSize,
    ensures
        ({
            let (after, effects) = mpv_step(s, ev, now_ms);
            let old = s.media;
            let c = after.media;
            let complete = c.filename is Some && c.duration_s is Some && c.file_size is Some;
            let id = MediaIdView {
                filename_lower: c.filename->0,
                size_bytes: c.file_size->0,
                duration_s: c.duration_s->0,
            };
            &&& match ev {
                MpvEventView::Filename(name) => if old.filename == Some(lowercase(name)) {
                    knows(c, old.filename, old.duration_s, old.file_size)
                } else {
                    knows(c, Some(lowercase(name)), None, None)
                },
                MpvEventView::Duration(secs) => knows(
                    c,
                    old.filename,
                    Some(whole_seconds(secs@) as u32),
                    old.file_size,
                ),
                MpvEventView::FileSize(n) => knows(c, old.filename, old.duration_s, Some(n)),
                _ => true,
            }
            &&& !complete || old.last_emitted == Some(id) ==> only_collects(s, after, effects)
                && c.last_emitted == old.last_emitted
            &&& complete && old.last_emitted != Some(id) ==> {
                &&& only_tells(
                    s,
                    after,
                    effects,
                    ControlActionView::MediaChanged { id },
                    now_ms,
                )
                &&& after.room.local_media == Some(id)
                &&& after.room.local_playback == s.room.local_playback
                &&& c.last_emitted == Some(id)
            }
        }),
{
    let c = crate::session::collected(s.media, ev);
    if let Some(id) = c.news() {
        lemma_telling(
            SessionView { media: MediaCollectorView { last_emitted: Some(id), ..c }, ..s },
            ControlActionView::MediaChanged { id },
            now_ms,
        );
    }
}

// --- What the user wants ---

/// The user changes the ready flag: it is the other one from then on, and all
/// peers are told.
pub proof fn law_ready_key_toggles(s: SessionView, now_ms: u64)
    ensures
        ({
            let (after, effects) = ui_step(s, UiEventView::ToggleReady, now_ms);
            &&& after.room.local_ready == !s.room.local_ready
            &&& after.room.gate.peers.contains_key(s.room.local)
            &&& after.room.gate.peers[s.room.local] == !s.room.local_ready
            &&& effects == seq![
                EffectView::Broadcast(
                    FrameView::Presence(
                        PresenceEventView::Ready {
                            node: s.room.local,
                            ready: !s.room.local_ready,
                        },
                    ),
                ),
            ]
            &&& ui_step(after, UiEventView::ToggleReady, now_ms).0.room.local_ready
                == s.room.local_ready
        }),
{
    lemma_ready_toggle(s, now_ms);
    let after = ui_step(s, UiEventView::ToggleReady, now_ms).0;
    lemma_ready_toggle(after, now_ms);
}

proof fn lemma_ready_toggle(s: SessionView, now_ms: u64)
    ensures
        ({
            let (after, effects) = ui_step(s, UiEventView::ToggleReady, now_ms);
            let next = crate::room::local_ready(s.room, !s.room.local_ready);
            &&& after == (SessionView { room: next.0, ..s })
            &&& effects == seq![
                EffectView::Broadcast(
                    FrameView::Presence(
                        PresenceEventView::Ready {
                            node: s.room.local,
                            ready: !s.room.local_ready,
                        },
                    ),
                ),
            ]
        }),
{
    let next = crate::room::local_ready(s.room, !s.room.local_ready);
    assert(next.1 =~= seq![next.1[0]]);
    lemma_dispatch_single(
        SessionView { room: next.0, ..s },
        next.1[0],
        MpvDispatchOrigin::Local,
        now_ms,
    );
}

/// The user pauses or goes on from our UI: mpv is commanded, all peers are told,
/// at the current position, and the room is paused if it was not. mpv's report of
/// it within three seconds sends nothing more.
pub proof fn law_pause_key_toggles(s: SessionView, now_ms: u64, reported_at_ms: u64)
    requires
        s.room.local_seq < u64::MAX,
        now_ms <= u64::MAX - 3_000,
        reported_at_ms < now_ms + 3_000,
    ensures
        ({
            let (after, effects) = ui_step(s, UiEventView::TogglePauseRelay, now_ms);
            let was = s.room.local_playback;
            let pos = was.media_pos_ms;
            let (settled, more) = mpv_step(
                after,
                MpvEventView::Pause(!was.paused),
                reported_at_ms,
            );
            &&& after.room.local_playback == (PlaybackState { paused: !was.paused, ..was })
            &&& effects.len() == 2
            &&& effects[0] == EffectView::Mpv(MpvCommand::Pause(!was.paused))
            &&& effects[1] == EffectView::Broadcast(
                FrameView::Control(
                    ControlEventView {
                        origin: s.room.local,
                        origin_ts_ms: now_ms,
                        seq: (s.room.local_seq + 1) as u64,
                        action: if was.paused {
                            ControlActionView::Play { media_pos_ms: pos }
                        } else {
                            ControlActionView::Pause { media_pos_ms: pos }
                        },
                    },
                ),
            )
            &&& more.len() == 0
            &&& settled.room == after.room
        }),
{
    let was = s.room.local_playback;
    let pos = was.media_pos_ms;
    let action = if was.paused {
        ControlActionView::Play { media_pos_ms: pos }
    } else {
        ControlActionView::Pause { media_pos_ms: pos }
    };
    let next = crate::room::local_control(s.room, action, now_ms, true);
    let a = OutputView::Mpv(MpvCommand::Pause(!was.paused));
    let b = next.1.last();
    assert(next.1 =~= seq![a, b]);
    lemma_dispatch_pair(
        SessionView { room: next.0, ..s },
        a,
        b,
        MpvDispatchOrigin::Local,
        now_ms,
    );
}

/// What the user says is the last message of the chat, and is sent to all peers
/// as it was said. Nothing is said by saying nothing.
pub proof fn law_messages_are_sent_as_typed(s: SessionView, text: Seq<char>, now_ms: u64)
    ensures
        ({
            let (after, effects) = ui_step(s, UiEventView::SubmitChat(text), now_ms);
            let msg = ChatMessageView { origin: s.room.local, origin_ts_ms: now_ms, text };
            &&& text.len() == 0 ==> after == s && effects.len() == 0
            &&& text.len() > 0 ==> after.room.chat.len() > 0 && after.room.chat.last() == msg
                && effects == seq![EffectView::Broadcast(FrameView::Chat(msg))]
        }),
{
    let next = crate::room::local_chat(s.room, text, now_ms);
    assert(next.1 =~= seq![next.1[0]]);
    lemma_dispatch_single(
        SessionView { room: next.0, ..s },
        next.1[0],
        MpvDispatchOrigin::Local,
        now_ms,
    );
}

/// The override is the other one from then on; nothing is sent, and nothing else
/// changes. Copying the ticket and quitting change nothing here.
pub proof fn law_override_key_toggles(s: SessionView, now_ms: u64)
    ensures
        ({
            let (after, effects) = ui_step(s, UiEventView::ToggleOverride, now_ms);
            &&& effects.len() == 0
            &&& after.room.gate.override_enabled == !s.room.gate.override_enabled
            &&& after.room.gate.peers == s.room.gate.peers
            &&& after == (SessionView {
                room: RoomView { gate: after.room.gate, ..s.room },
                ..s
            })
        }),
        ui_step(s, UiEventView::CopyTicket, now_ms) == (s, Seq::<EffectView>::empty()),
        ui_step(s, UiEventView::Quit, now_ms) == (s, Seq::<EffectView>::empty()),
{
}

// --- Outputs of the room ---

/// What an output of the room has carried out: heartbeats as datagrams, all other
/// frames reliably, commands and notices as they are. Rosters may have had
/// addresses filled in.
pub open spec fn carries_out(out: OutputView, effect: EffectView) -> bool {
    match out {
        OutputView::Broadcast(f) => if f is Heartbeat {
            effect == EffectView::Datagram(f)
        } else {
            effect matches EffectView::Broadcast(g) && same_but_for_addresses(f, g)
        },
        OutputView::SendTo { to, frame } => effect matches EffectView::SendTo { to: whom, frame: g }
            && whom == to && same_but_for_addresses(frame, g),
        OutputView::Mpv(cmd) => effect == EffectView::Mpv(cmd),
        OutputView::Notify(n) => effect == EffectView::Notify(n),
    }
}

/// The same frame, or rosters that name the same nodes by the same nicknames.
pub open spec fn same_but_for_addresses(f: FrameView, g: FrameView) -> bool {
    match (f, g) {
        (
            FrameView::Presence(PresenceEventView::PeerList { peers: a }),
            FrameView::Presence(PresenceEventView::PeerList { peers: b }),
        ) => a.len() == b.len() && forall|i: int|
            #![trigger a[i]]
            0 <= i < a.len() ==> a[i].0 == b[i].0 && a[i].1 == b[i].1,
        _ => f == g,
    }
}

/// Every output is carried out, in order, but for frames to a peer that is not
/// connected.
pub proof fn law_outputs_are_carried_out(
    s: SessionView,
    outs: Seq<OutputView>,
    origin: MpvDispatchOrigin,
    now_ms: u64,
)
    requires
        forall|i: int|
            0 <= i < outs.len() ==> ((#[trigger] outs[i]) matches OutputView::SendTo { to, .. }
                ==> s.connected.contains(to)),
    ensures
        ({
            let (after, effects) = dispatch_all(s, outs, origin, now_ms);
            &&& effects.len() == outs.len()
            &&& forall|i: int| #![trigger outs[i]]
                0 <= i < outs.len() ==> carries_out(outs[i], effects[i])
            &&& after == (SessionView { echo: after.echo, ..s })
        }),
    decreases outs.len(),
{
    law_dispatch_is_well_addressed(s, outs, origin, now_ms);
    if outs.len() > 0 {
        let rest = outs.drop_last();
        assert forall|i: int| 0 <= i < rest.len() implies ((#[trigger] rest[i]) matches OutputView::SendTo {
            to,
            ..
        } ==> s.connected.contains(to)) by {
            assert(rest[i] == outs[i]);
        }
        law_outputs_are_carried_out(s, rest, origin, now_ms);
        let before = dispatch_all(s, rest, origin, now_ms);
        let last = outs[outs.len() - 1];
        let here = dispatch_one(before.0, last, origin, now_ms);
        let all = dispatch_all(s, outs, origin, now_ms).1;
        assert(all == before.1 + here.1);
        assert(here.1.len() == 1);
        assert(carries_out(last, here.1[0]));
        assert forall|i: int| #![trigger outs[i]] 0 <= i < outs.len() implies carries_out(
            outs[i],
            all[i],
        ) by {
            if i < rest.len() {
                assert(outs[i] == rest[i]);
                assert(all[i] == before.1[i]);
            } else {
                assert(all[i] == here.1[0]);
            }
        }
    }
}

/// A command to mpv is remembered for three seconds, so that its report is known
/// for what it is; a frame to a peer that is not connected is dropped.
pub proof fn law_commands_are_remembered(
    s: SessionView,
    cmd: MpvCommand,
    origin: MpvDispatchOrigin,
    now_ms: u64,
    to: NodeId,
    frame: FrameView,
)
    requires
        now_ms <= u64::MAX - 3_000,
    ensures
        ({
            let echo = dispatch_one(s, OutputView::Mpv(cmd), origin, now_ms).0.echo;
            match cmd {
                MpvCommand::Pause(p) => {
                    &&& echo.pending_pause is Some
                    &&& echo.pending_pause->0.expected == p
                    &&& echo.pending_pause->0.deadline_ms == now_ms + 3_000
                    &&& echo.pending_seek == s.echo.pending_seek
                    &&& echo.pending_speed == s.echo.pending_speed
                },
                MpvCommand::Seek { media_pos_ms } => {
                    &&& echo.pending_seek is Some
                    &&& echo.pending_seek->0.expected == media_pos_ms
                    &&& echo.pending_seek->0.deadline_ms == now_ms + 3_000
                    &&& echo.pending_seek->0.origin is Remote <==> origin is Remote
                    &&& echo.pending_pause == s.echo.pending_pause
                    &&& echo.pending_speed == s.echo.pending_speed
                },
                MpvCommand::SetSpeed { speed_centi } => {
                    &&& echo.pending_speed is Some
                    &&& echo.pending_speed->0.expected == speed_centi
                    &&& echo.pending_speed->0.deadline_ms == now_ms + 3_000
                    &&& echo.pending_pause == s.echo.pending_pause
                    &&& echo.pending_seek == s.echo.pending_seek
                },
            }
        }),
        !s.connected.contains(to) ==> dispatch_one(
            s,
            OutputView::SendTo { to, frame },
            origin,
            now_ms,
        ) == (s, Seq::<EffectView>::empty()),
{
}

// --- Ticks and frames ---

/// A tick of the session is a tick of its room, with each output carried out. A
/// seek to correct drift is remembered as our own, not as a peer's.
pub proof fn law_ticks_are_carried_out(s: SessionView, now_ms: u64)
    requires
        now_ms <= u64::MAX - 3_000,
    ensures
        ({
            let (room, outs) = step(s.room, Input::Tick { now_ms });
            let (after, effects) = tick_step(s, now_ms);
            &&& after.room == room
            &&& effects.len() == outs.len()
            &&& effects[0] is Datagram
            &&& forall|i: int| #![trigger outs[i]]
                0 <= i < outs.len() ==> carries_out(outs[i], effects[i])
            &&& after == (SessionView { room, echo: after.echo, ..s })
            &&& outs.len() == 2 ==> match outs[1] {
                OutputView::Mpv(MpvCommand::Seek { media_pos_ms }) => {
                    &&& after.echo.pending_seek is Some
                    &&& after.echo.pending_seek->0.expected == media_pos_ms
                    &&& after.echo.pending_seek->0.deadline_ms == now_ms + 3_000
                    &&& after.echo.pending_seek->0.origin is Local
                },
                _ => true,
            }
            &&& outs.len() == 1 ==> after.echo == s.echo
        }),
{
    let (room, outs) = step(s.room, Input::Tick { now_ms });
    let base = SessionView { room, ..s };
    law_outputs_are_carried_out(base, outs, MpvDispatchOrigin::Local, now_ms);
    assert(carries_out(outs[0], tick_step(s, now_ms).1[0]));
    if outs.len() == 2 {
        assert(outs =~= seq![outs[0], outs[1]]);
        lemma_dispatch_pair(base, outs[0], outs[1], MpvDispatchOrigin::Local, now_ms);
    } else {
        assert(outs =~= seq![outs[0]]);
        lemma_dispatch_single(base, outs[0], MpvDispatchOrigin::Local, now_ms);
    }
}

/// A frame of a peer does to the room what the room says of it. Each output is
/// carried out; before that, peers on a roster are dialed. But for those, only
/// addresses and the echo guard change.
pub proof fn law_frames_reach_the_room(
    s: SessionView,
    from: NodeId,
    frame: Frame,
    rtt_sample_ms: Option<u32>,
    now_ms: u64,
)
    ensures
        ({
            let (room, outs) = step(
                s.room,
                Input::FrameReceived { from, frame, received_at_ms: now_ms, rtt_sample_ms },
            );
            let (after, effects) = frame_step(s, from, frame@, rtt_sample_ms, now_ms);
            let dials = effects.len() - outs.len();
            &&& after.room == room
            &&& dials >= 0
            &&& forall|i: int| 0 <= i < dials ==> (#[trigger] effects[i]) is Dial
            &&& forall|i: int| #![trigger outs[i]]
                0 <= i < outs.len() ==> carries_out(outs[i], effects[dials + i])
            &&& !(frame@ is Presence) ==> dials == 0 && after.addrs == s.addrs
                && after.pending_dials == s.pending_dials
            &&& after.connected == s.connected
            &&& after.media == s.media
            &&& after.seek_in_progress == s.seek_in_progress
            &&& after.seek_just_completed == s.seek_just_completed
        }),
{
    let (room, outs) = step(
        s.room,
        Input::FrameReceived { from, frame, received_at_ms: now_ms, rtt_sample_ms },
    );
    let heard = crate::session::snoop(s, frame@);
    if let FrameView::Presence(PresenceEventView::PeerList { peers }) = frame@ {
        law_peers_are_dialed_once(s, peers);
        lemma_roster_changes_addresses_only(s, peers);
    }
    law_outputs_are_carried_out(
        SessionView { room, ..heard.0 },
        outs,
        MpvDispatchOrigin::Remote,
        now_ms,
    );
    let tail = deliver(heard.0, (room, outs), MpvDispatchOrigin::Remote, now_ms);
    let effects = frame_step(s, from, frame@, rtt_sample_ms, now_ms).1;
    assert(effects =~= heard.1 + tail.1);
    assert forall|i: int| #![trigger outs[i]] 0 <= i < outs.len() implies carries_out(
        outs[i],
        effects[heard.1.len() + i],
    ) by {
        assert(effects[heard.1.len() + i] == tail.1[i]);
    }
    if let FrameView::Presence(PresenceEventView::PeerList { peers }) = frame@ {
        assert forall|i: int| 0 <= i < heard.1.len() implies (#[trigger] effects[i]) is Dial by {
            assert(effects[i] == heard.1[i]);
        }
    }
}

proof fn lemma_roster_changes_addresses_only(s: SessionView, roster: Seq<RosterEntryView>)
    ensures
        ({
            let after = snoop_roster(s, roster).0;
            after == (SessionView {
                addrs: after.addrs,
                pending_dials: after.pending_dials,
                ..s
            })
        }),
    decreases roster.len(),
{
    if roster.len() > 0 {
        lemma_roster_changes_addresses_only(s, roster.drop_last());
    }
}

/// What a roster says of addresses: the last one that is given for a node is
/// known of it afterwards, unless it is ourselves, and all others are as before.
pub proof fn law_rosters_spread_addresses(
    s: SessionView,
    roster: Seq<RosterEntryView>,
    node: NodeId,
)
    ensures
        ({
            let after = snoop_roster(s, roster).0.addrs;
            let given = |i: int|
                0 <= i < roster.len() && roster[i].0 == node && roster[i].2.len() > 0;
            &&& after.contains_key(node) && after[node] != s.addrs[node] ==> node != s.room.local
                && exists|i: int| #[trigger] given(i) && after[node] == roster[i].2
            &&& s.addrs.contains_key(node) ==> after.contains_key(node)
            &&& node != s.room.local && (exists|i: int| #[trigger] given(i))
                ==> after.contains_key(node)
            &&& (forall|i: int| !(#[trigger] given(i))) || node == s.room.local
                ==> after.contains_key(node) == s.addrs.contains_key(node) && after[node]
                == s.addrs[node]
        }),
    decreases roster.len(),
{
    let given = |i: int| 0 <= i < roster.len() && roster[i].0 == node && roster[i].2.len() > 0;
    if roster.len() > 0 {
        let rest = roster.drop_last();
        let end = roster.len() - 1;
        law_rosters_spread_addresses(s, rest, node);
        lemma_roster_changes_addresses_only(s, rest);
        let earlier = |i: int|
            0 <= i < rest.len() && rest[i].0 == node && rest[i].2.len() > 0;
        assert forall|i: int| #[trigger] earlier(i) implies given(i) by {
            assert(rest[i] == roster[i]);
        }
        assert forall|i: int| i != end && #[trigger] given(i) implies earlier(i) by {
            assert(rest[i] == roster[i]);
        }
        if given(end) {
            assert(roster[end].2 == roster.last().2);
        }
        let mid = snoop_roster(s, rest).0.addrs;
        if mid.contains_key(node) && mid[node] != s.addrs[node] {
            let i = choose|i: int| #[trigger] earlier(i) && mid[node] == rest[i].2;
            assert(given(i) && mid[node] == roster[i].2);
        }
        assert(given(end) <==> roster.last().0 == node && roster.last().2.len() > 0);
        if exists|i: int| #[trigger] given(i) && i != end {
            let i = choose|i: int| #[trigger] given(i) && i != end;
            assert(earlier(i));
        }
    }
}

/// What a peer announces as its address is known of it; nobody else can announce
/// ours, and saying nothing announces nothing.
pub proof fn law_announced_addresses_are_known(
    s: SessionView,
    from: NodeId,
    frame: FrameView,
    node: NodeId,
    addr_bytes: Seq<u8>,
    now_ms: u64,
    n: NodeId,
)
    requires
        frame == FrameView::Presence(PresenceEventView::AddrAnnounce { node, addr_bytes }),
    ensures
        ({
            let (after, effects) = frame_step(s, from, frame, None, now_ms);
            &&& effects.len() == 0
            &&& after == (SessionView { addrs: after.addrs, ..s })
            &&& node != s.room.local && addr_bytes.len() > 0 ==> after.addrs.contains_key(node)
                && after.addrs[node] == addr_bytes
            &&& node == s.room.local || addr_bytes.len() == 0 ==> after == s
            &&& n != node ==> after.addrs.contains_key(n) == s.addrs.contains_key(n)
                && after.addrs[n] == s.addrs[n]
        }),
{
}

/// What a peer does reaches our player: commands that lead it to where the peer
/// is, and nothing is sent to anybody. A seek among them is remembered as the
/// peer's.
pub proof fn law_peers_drive_our_player(
    s: SessionView,
    from: NodeId,
    frame: Frame,
    ev: ControlEventView,
    now_ms: u64,
)
    requires
        frame@ == FrameView::Control(ev),
        is_news(s.room, from, ev),
    ensures
        ({
            let (after, effects) = frame_step(s, from, frame@, None, now_ms);
            match ev.action {
                ControlActionView::Pause { media_pos_ms } => {
                    &&& effects == seq![
                        EffectView::Mpv(MpvCommand::Seek { media_pos_ms }),
                        EffectView::Mpv(MpvCommand::Pause(true)),
                    ]
                    &&& after.room.local_playback.paused
                    &&& after.room.local_playback.media_pos_ms == media_pos_ms
                },
                ControlActionView::Play { media_pos_ms } => {
                    &&& effects == seq![
                        EffectView::Mpv(MpvCommand::Seek { media_pos_ms }),
                        EffectView::Mpv(MpvCommand::Pause(false)),
                    ]
                    &&& !after.room.local_playback.paused
                    &&& after.room.local_playback.media_pos_ms == media_pos_ms
                },
                ControlActionView::Seek { media_pos_ms } => {
                    &&& effects == seq![EffectView::Mpv(MpvCommand::Seek { media_pos_ms })]
                    &&& after.room.local_playback.media_pos_ms == media_pos_ms
                },
                ControlActionView::SetSpeed { speed_centi } => {
                    &&& effects == seq![EffectView::Mpv(MpvCommand::SetSpeed { speed_centi })]
                    &&& after.room.local_playback.speed_centi == speed_centi
                },
                ControlActionView::MediaChanged { .. } => true,
            }
        }),
{
    law_news_is_applied(s.room, from, frame, ev, now_ms, None);
    law_applied_event_commands_the_player(s.room, from, frame, ev, now_ms, None);
    law_frames_reach_the_room(s, from, frame, None, now_ms);
    let outs = step(
        s.room,
        Input::FrameReceived { from, frame, received_at_ms: now_ms, rtt_sample_ms: None },
    ).1;
    let effects = frame_step(s, from, frame@, None, now_ms).1;
    if outs.len() >= 1 {
        assert(carries_out(outs[0], effects[0]));
    }
    if outs.len() >= 2 {
        assert(carries_out(outs[1], effects[1]));
    }
    match ev.action {
        ControlActionView::Pause { media_pos_ms } => {
            assert(effects =~= seq![
                EffectView::Mpv(MpvCommand::Seek { media_pos_ms }),
                EffectView::Mpv(MpvCommand::Pause(true)),
            ]);
        },
        ControlActionView::Play { media_pos_ms } => {
            assert(effects =~= seq![
                EffectView::Mpv(MpvCommand::Seek { media_pos_ms }),
                EffectView::Mpv(MpvCommand::Pause(false)),
            ]);
        },
        ControlActionView::Seek { media_pos_ms } => {
            assert(effects =~= seq![EffectView::Mpv(MpvCommand::Seek { media_pos_ms })]);
        },
        ControlActionView::SetSpeed { speed_centi } => {
            assert(effects =~= seq![EffectView::Mpv(MpvCommand::SetSpeed { speed_centi })]);
        },
        _ => {},
    }
}

/// When a user pauses or goes on in mpv, the player of a peer is brought to the
/// same position and pause state.
pub proof fn law_pausing_pauses_everyone(
    ours: SessionView,
    theirs: SessionView,
    paused: bool,
    frame: Frame,
    now_ms: u64,
    heard_at_ms: u64,
)
    requires
        ours.room.local_seq < u64::MAX,
        ours.echo.pending_pause is None,
        mpv_step(ours, MpvEventView::Pause(paused), now_ms).1.contains(
            EffectView::Broadcast(frame@),
        ),
        frame@ is Control ==> is_news(theirs.room, ours.room.local, frame@->Control_0),
    ensures
        ({
            let (they, effects) = frame_step(theirs, ours.room.local, frame@, None, heard_at_ms);
            &&& effects == seq![
                EffectView::Mpv(
                    MpvCommand::Seek { media_pos_ms: ours.room.local_playback.media_pos_ms },
                ),
                EffectView::Mpv(MpvCommand::Pause(paused)),
            ]
            &&& they.room.local_playback.paused == paused
            &&& they.room.local_playback.media_pos_ms == ours.room.local_playback.media_pos_ms
        }),
{
    law_pause_in_mpv_is_relayed(ours, paused, now_ms);
    let sent = mpv_step(ours, MpvEventView::Pause(paused), now_ms).1;
    let i = choose|i: int| 0 <= i < sent.len() && sent[i] == EffectView::Broadcast(frame@);
    assert(sent[i] == sent[0]);
    law_peers_drive_our_player(
        theirs,
        ours.room.local,
        frame,
        frame@->Control_0,
        heard_at_ms,
    );
}

// --- Links ---

/// A new link: the peer counts as connected and no longer as being dialed, its
/// address is known if we dialed it, and ours is refreshed. The peer is first
/// told our address; then the room's outputs on its arrival are carried out.
pub proof fn law_links_are_greeted(
    s: SessionView,
    node: NodeId,
    addr_bytes: Option<Seq<u8>>,
    own_addr: Seq<u8>,
    nickname: String,
    now_ms: u64,
    n: NodeId,
)
    requires
        nickname@ == node.short_name(),
    ensures
        ({
            let (after, effects) = connect_step(s, node, addr_bytes, own_addr, now_ms);
            let (room, outs) = step(s.room, Input::PeerConnected { node, nickname, now_ms });
            &&& after.room == room
            &&& after.connected.contains(node)
            &&& !after.pending_dials.contains(node)
            &&& n != node ==> after.connected.contains(n) == s.connected.contains(n)
            &&& n != node ==> after.pending_dials.contains(n) == s.pending_dials.contains(n)
            &&& after.addrs.contains_key(s.room.local)
            &&& after.addrs[s.room.local] == own_addr
            &&& node != s.room.local && addr_bytes is Some && addr_bytes->0.len() > 0
                ==> after.addrs.contains_key(node) && after.addrs[node] == addr_bytes->0
            &&& n != s.room.local && (n != node || addr_bytes is None) ==> after.addrs.contains_key(
                n,
            ) == s.addrs.contains_key(n) && after.addrs[n] == s.addrs[n]
            &&& effects.len() == 1 + outs.len()
            &&& effects[0] == (EffectView::SendTo {
                to: node,
                frame: FrameView::Presence(
                    PresenceEventView::AddrAnnounce {
                        node: s.room.local,
                        addr_bytes: own_addr,
                    },
                ),
            })
            &&& forall|i: int| #![trigger outs[i]]
                0 <= i < outs.len() ==> carries_out(outs[i], effects[1 + i])
            &&& after.media == s.media
            &&& after.seek_in_progress == s.seek_in_progress
            &&& after.seek_just_completed == s.seek_just_completed
        }),
{
    let (room, outs) = step(s.room, Input::PeerConnected { node, nickname, now_ms });
    let known = match addr_bytes {
        Some(b) => crate::addrs::learn(s.addrs, node, b),
        None => s.addrs,
    };
    let linked = SessionView {
        addrs: known.insert(s.room.local, own_addr),
        connected: s.connected.insert(node),
        pending_dials: s.pending_dials.remove(node),
        ..s
    };
    law_outputs_are_carried_out(
        SessionView { room, ..linked },
        outs,
        MpvDispatchOrigin::Local,
        now_ms,
    );
    let tail = deliver(linked, (room, outs), MpvDispatchOrigin::Local, now_ms);
    let effects = connect_step(s, node, addr_bytes, own_addr, now_ms).1;
    assert forall|i: int| #![trigger outs[i]] 0 <= i < outs.len() implies carries_out(
        outs[i],
        effects[1 + i],
    ) by {
        assert(effects[1 + i] == tail.1[i]);
    }
}

/// A lost link: the peer no longer counts as connected, is out of the room, and
/// all others are told. A link that we do not have cannot be lost.
pub proof fn law_lost_links_are_told(s: SessionView, node: NodeId, now_ms: u64, n: NodeId)
    ensures
        ({
            let (after, effects) = disconnect_step(s, node, now_ms);
            &&& !after.connected.contains(node)
            &&& n != node ==> after.connected.contains(n) == s.connected.contains(n)
            &&& !s.connected.contains(node) ==> after == s && effects.len() == 0
            &&& s.connected.contains(node) ==> {
                &&& effects == seq![
                    EffectView::Broadcast(
                        FrameView::Presence(PresenceEventView::Leave { node }),
                    ),
                ]
                &&& !after.room.peers.contains_key(node)
                &&& !after.room.gate.peers.contains_key(node)
                &&& after.room == step(s.room, Input::PeerDisconnected { node }).0
                &&& after.addrs == s.addrs
                &&& after.pending_dials == s.pending_dials
                &&& after.echo == s.echo
            }
        }),
{
    let next = step(s.room, Input::PeerDisconnected { node });
    assert(next.1 =~= seq![next.1[0]]);
    lemma_dispatch_single(
        SessionView { room: next.0, connected: s.connected.remove(node), ..s },
        next.1[0],
        MpvDispatchOrigin::Local,
        now_ms,
    );
}

/// A new session has no links, dials nobody, expects no report of mpv, and knows
/// no address but ours.
pub proof fn law_new_sessions_are_idle(room: RoomView, own_addr: Seq<u8>, n: NodeId)
    ensures
        ({
            let s = new_session(room, own_addr);
            &&& s.room == room
            &&& !s.connected.contains(n)
            &&& !s.pending_dials.contains(n)
            &&& s.addrs.contains_key(n) == (n == room.local)
            &&& s.addrs[room.local] == own_addr
            &&& s.echo.pending_pause is None
            &&& s.echo.pending_seek is None
            &&& s.echo.pending_speed is None
            &&& knows(s.media, None, None, None)
            &&& s.media.last_emitted is None
            &&& !s.seek_in_progress
            &&& !s.seek_just_completed
        }),
{
}

/// A recorded address is known of its node and changes nothing else; no bytes
/// record nothing.
pub proof fn law_recorded_addresses_are_known(
    s: SessionView,
    node: NodeId,
    bytes: Seq<u8>,
    n: NodeId,
)
    ensures
        ({
            let after = recorded(s, node, bytes);
            &&& bytes.len() > 0 ==> after.addrs.contains_key(node) && after.addrs[node] == bytes
            &&& bytes.len() == 0 ==> after == s
            &&& n != node ==> after.addrs.contains_key(n) == s.addrs.contains_key(n)
                && after.addrs[n] == s.addrs[n]
            &&& after == (SessionView { addrs: after.addrs, ..s })
        }),
{
}

/// A peer whose dial is over may be dialed again; nothing else changes. A roster
/// that names it with a readable address then has it dialed.
pub proof fn law_failed_dials_may_be_repeated(s: SessionView, e: RosterEntryView, n: NodeId)
    requires
        e.0 != s.room.local,
        !s.connected.contains(e.0),
        e.2.len() > 0,
        addr_parse(e.2) is Some,
    ensures
        ({
            let after = dialed(s, e.0);
            &&& !after.pending_dials.contains(e.0)
            &&& n != e.0 ==> after.pending_dials.contains(n) == s.pending_dials.contains(n)
            &&& after == (SessionView { pending_dials: after.pending_dials, ..s })
            &&& snoop_roster(after, seq![e]).1 == seq![
                EffectView::Dial { node: e.0, addr_bytes: e.2 },
            ]
        }),
{
    let after = dialed(s, e.0);
    assert(seq![e].drop_last() =~= Seq::empty());
    assert(snoop_roster(after, Seq::empty()) == (after, Seq::<EffectView>::empty()));
    assert(snoop_roster(after, seq![e]).1 =~= seq![
        EffectView::Dial { node: e.0, addr_bytes: e.2 },
    ]);
}

/// The first position after a seek is taken note of if it echoes a command of
/// ours, and is a seek of the user if not. Either way it is where we are.
pub proof fn law_first_position_is_echo_or_seek(
    echo: EchoGuard,
    media_pos_ms: u64,
    paused: bool,
    speed_centi: u16,
    now_ms: u64,
)
    ensures
        ({
            let input = post_seek_input(echo, media_pos_ms, paused, speed_centi, now_ms);
            let sought = echo.pending_seek;
            let expected = sought is Some && now_ms < sought->0.deadline_ms && (
            sought->0.origin == SeekOrigin::Remote || -1_000 <= sought->0.expected - media_pos_ms
                <= 1_000);
            &&& expected ==> input == (Input::MpvStateUpdate { media_pos_ms, paused, speed_centi })
            &&& !expected ==> input == (Input::LocalControl {
                action: ControlAction::Seek { media_pos_ms },
                now_ms,
            })
        }),
{
}

} // verus!
