//! The room state machine.

use syncmesh::media::MatchResult;
use syncmesh::node_id::NodeId;
use syncmesh::protocol::{
    ChatMessage, ControlAction, ControlEvent, Frame, MediaId, PresenceEvent, StateHeartbeat,
};
use syncmesh::ready::ReadyState;
use syncmesh::state::{
    Input, MpvCommand, Notice, Output, PlaybackState, RoomState, CHAT_RING_CAPACITY,
    SPEED_NORMAL_CENTI, SPEED_UP_CENTI,
};

fn n(b: u8) -> NodeId {
    NodeId::from_bytes([b; 32])
}

fn new_room() -> RoomState {
    RoomState::new(n(1), "me".into())
}

fn hb(origin: NodeId, ts: u64, pos: u64, paused: bool, ready: bool) -> StateHeartbeat {
    StateHeartbeat {
        origin,
        origin_ts_ms: ts,
        media_pos_ms: pos,
        paused,
        speed_centi: SPEED_NORMAL_CENTI,
        ready,
        media_id: None,
    }
}

// --- Construction ---

#[test]
fn new_room_has_self_in_ready_gate() {
    let r = new_room();
    assert_eq!(r.local_node(), n(1));
    assert_eq!(r.peer_count(), 0);
    // Self is not ready by default.
    assert_eq!(r.ready_state(), ReadyState::Pending);
}

// --- Peer join/leave ---

#[test]
fn peer_connect_emits_peerlist_and_join_broadcast() {
    let mut r = new_room();
    let outs = r.apply(Input::PeerConnected {
        node: n(2),
        nickname: "alice".into(),
        now_ms: 0,
    });
    assert!(outs.iter().any(|o| matches!(
        o,
        Output::SendTo {
            to,
            frame: Frame::Presence(PresenceEvent::PeerList { .. })
        } if *to == n(2)
    )));
    assert!(outs.iter().any(|o| matches!(
        o,
        Output::Broadcast(Frame::Presence(PresenceEvent::Join { node, .. })) if *node == n(2)
    )));
    assert_eq!(r.peer_count(), 1);
}

#[test]
fn second_peer_connect_does_not_duplicate_peerlist() {
    let mut r = new_room();
    let _ = r.apply(Input::PeerConnected {
        node: n(2),
        nickname: "alice".into(),
        now_ms: 0,
    });
    // Reconnect with different nickname: updates in place, no roster resend.
    let outs = r.apply(Input::PeerConnected {
        node: n(2),
        nickname: "alice2".into(),
        now_ms: 0,
    });
    assert!(outs.iter().all(|o| !matches!(
        o,
        Output::SendTo {
            frame: Frame::Presence(PresenceEvent::PeerList { .. }),
            ..
        }
    )));
    assert_eq!(r.peer(&n(2)).unwrap().nickname, "alice2");
}

#[test]
fn peer_disconnect_removes_and_broadcasts_leave() {
    let mut r = new_room();
    let _ = r.apply(Input::PeerConnected {
        node: n(2),
        nickname: "alice".into(),
        now_ms: 0,
    });
    let outs = r.apply(Input::PeerDisconnected { node: n(2) });
    assert_eq!(r.peer_count(), 0);
    assert!(
        outs.iter()
            .any(|o| matches!(o, Output::Broadcast(Frame::Presence(PresenceEvent::Leave { node })) if *node == n(2)))
    );
}

// --- Ready gate ---

#[test]
fn local_ready_toggle_broadcasts_and_updates_gate() {
    let mut r = new_room();
    let outs = r.apply(Input::LocalReady {
        ready: true,
        now_ms: 100,
    });
    assert!(outs.iter().any(|o| matches!(
        o,
        Output::Broadcast(Frame::Presence(PresenceEvent::Ready { ready: true, .. }))
    )));
    assert!(r.local_ready());
    // Self-only gate: single ready peer → AllReady.
    assert_eq!(r.ready_state(), ReadyState::AllReady);
}

#[test]
fn remote_ready_via_presence_updates_gate() {
    let mut r = new_room();
    let _ = r.apply(Input::PeerConnected {
        node: n(2),
        nickname: "a".into(),
        now_ms: 0,
    });
    let _ = r.apply(Input::LocalReady {
        ready: true,
        now_ms: 1,
    });
    assert_eq!(r.ready_state(), ReadyState::Pending);

    let _ = r.apply(Input::FrameReceived {
        from: n(2),
        frame: Frame::Presence(PresenceEvent::Ready {
            node: n(2),
            ready: true,
        }),
        received_at_ms: 10,
        rtt_sample_ms: None,
    });
    assert_eq!(r.ready_state(), ReadyState::AllReady);
}

// --- Control event dedup and conflict ---

#[test]
fn duplicate_seq_is_dropped_with_notice() {
    let mut r = new_room();
    let _ = r.apply(Input::PeerConnected {
        node: n(2),
        nickname: "a".into(),
        now_ms: 0,
    });
    let ev = ControlEvent {
        origin: n(2),
        origin_ts_ms: 1000,
        seq: 5,
        action: ControlAction::Pause { media_pos_ms: 100 },
    };
    let outs1 = r.apply(Input::FrameReceived {
        from: n(2),
        frame: Frame::Control(ev.clone()),
        received_at_ms: 10,
        rtt_sample_ms: None,
    });
    assert!(
        outs1
            .iter()
            .any(|o| matches!(o, Output::Mpv(MpvCommand::Pause(true))))
    );
    // Re-send same seq → dropped.
    let outs2 = r.apply(Input::FrameReceived {
        from: n(2),
        frame: Frame::Control(ev),
        received_at_ms: 20,
        rtt_sample_ms: None,
    });
    assert!(
        outs2
            .iter()
            .any(|o| matches!(o, Output::Notify(Notice::DuplicateDropped { seq: 5, .. })))
    );
    assert!(!outs2.iter().any(|o| matches!(o, Output::Mpv(_))));
}

#[test]
fn conflicting_control_is_discarded_by_lex_rule() {
    let mut r = new_room();
    let _ = r.apply(Input::PeerConnected {
        node: n(2),
        nickname: "a".into(),
        now_ms: 0,
    });
    let _ = r.apply(Input::PeerConnected {
        node: n(3),
        nickname: "b".into(),
        now_ms: 0,
    });
    // Apply pause from n(2) at ts=1000.
    let first = ControlEvent {
        origin: n(2),
        origin_ts_ms: 1000,
        seq: 1,
        action: ControlAction::Pause { media_pos_ms: 100 },
    };
    let _ = r.apply(Input::FrameReceived {
        from: n(2),
        frame: Frame::Control(first),
        received_at_ms: 10,
        rtt_sample_ms: None,
    });
    // n(3) sends a pause at ts=1100 → within window, larger tuple → discard.
    let second = ControlEvent {
        origin: n(3),
        origin_ts_ms: 1100,
        seq: 1,
        action: ControlAction::Pause { media_pos_ms: 200 },
    };
    let outs = r.apply(Input::FrameReceived {
        from: n(3),
        frame: Frame::Control(second),
        received_at_ms: 20,
        rtt_sample_ms: None,
    });
    assert!(
        outs.iter()
            .any(|o| matches!(o, Output::Notify(Notice::ConflictDiscarded { from, seq: 1 }) if *from == n(3)))
    );
    assert!(!outs.iter().any(|o| matches!(o, Output::Mpv(_))));
}

// --- Inbound control applies to mpv + updates local state ---

#[test]
fn inbound_pause_applies_to_mpv_and_updates_local_state() {
    let mut r = new_room();
    let _ = r.apply(Input::PeerConnected {
        node: n(2),
        nickname: "a".into(),
        now_ms: 0,
    });
    let ev = ControlEvent {
        origin: n(2),
        origin_ts_ms: 1000,
        seq: 1,
        action: ControlAction::Pause { media_pos_ms: 5000 },
    };
    let outs = r.apply(Input::FrameReceived {
        from: n(2),
        frame: Frame::Control(ev),
        received_at_ms: 10,
        rtt_sample_ms: Some(30),
    });
    let seek = outs.iter().find_map(|o| match o {
        Output::Mpv(MpvCommand::Seek { media_pos_ms }) => Some(*media_pos_ms),
        _ => None,
    });
    let pause = outs
        .iter()
        .any(|o| matches!(o, Output::Mpv(MpvCommand::Pause(true))));
    assert_eq!(seek, Some(5000));
    assert!(pause);
    assert!(r.local_playback().paused);
    assert_eq!(r.local_playback().media_pos_ms, 5000);
    // RTT sample recorded.
    assert_eq!(r.peer(&n(2)).unwrap().rtt.estimate_ms(), Some(30));
}

#[test]
fn inbound_set_speed_updates_local_and_mpv() {
    let mut r = new_room();
    let _ = r.apply(Input::PeerConnected {
        node: n(2),
        nickname: "a".into(),
        now_ms: 0,
    });
    let ev = ControlEvent {
        origin: n(2),
        origin_ts_ms: 1000,
        seq: 1,
        action: ControlAction::SetSpeed { speed_centi: 95 },
    };
    let outs = r.apply(Input::FrameReceived {
        from: n(2),
        frame: Frame::Control(ev),
        received_at_ms: 10,
        rtt_sample_ms: None,
    });
    assert!(
        outs.iter()
            .any(|o| matches!(o, Output::Mpv(MpvCommand::SetSpeed { speed_centi: 95 })))
    );
    assert_eq!(r.local_playback().speed_centi, 95);
}

// --- Heartbeat & drift ---

#[test]
fn tick_emits_heartbeat() {
    let mut r = new_room();
    let outs = r.apply(Input::Tick { now_ms: 1_000 });
    let found = outs
        .iter()
        .any(|o| matches!(o, Output::Broadcast(Frame::Heartbeat(_))));
    assert!(found, "expected heartbeat broadcast, got {outs:?}");
}

#[test]
fn tick_with_drifted_peer_emits_speedup() {
    let mut r = new_room();
    let _ = r.apply(Input::PeerConnected {
        node: n(2),
        nickname: "a".into(),
        now_ms: 0,
    });
    // Local is at 10_000; peer heartbeat says they're at 10_500 at the
    // same wall-clock → I'm 500 ms behind → Speedup.
    r.apply(Input::MpvStateUpdate {
        media_pos_ms: 10_000,
        paused: false,
        speed_centi: SPEED_NORMAL_CENTI,
    });
    let _ = r.apply(Input::FrameReceived {
        from: n(2),
        frame: Frame::Heartbeat(hb(n(2), 1_000, 10_500, false, true)),
        received_at_ms: 1_000,
        rtt_sample_ms: Some(0),
    });
    let outs = r.apply(Input::Tick { now_ms: 1_000 });
    assert!(outs.iter().any(|o| matches!(
        o,
        Output::Mpv(MpvCommand::SetSpeed {
            speed_centi: SPEED_UP_CENTI
        })
    )));
}

#[test]
fn tick_with_hard_drift_emits_seek() {
    // Reference n(0) sorts below local n(1), so the tie-break allows the
    // local peer to hard-seek toward it.
    let mut r = new_room();
    let _ = r.apply(Input::PeerConnected {
        node: n(0),
        nickname: "a".into(),
        now_ms: 0,
    });
    r.apply(Input::MpvStateUpdate {
        media_pos_ms: 10_000,
        paused: false,
        speed_centi: SPEED_NORMAL_CENTI,
    });
    let _ = r.apply(Input::FrameReceived {
        from: n(0),
        frame: Frame::Heartbeat(hb(n(0), 1_000, 20_000, false, true)),
        received_at_ms: 1_000,
        rtt_sample_ms: None,
    });
    let outs = r.apply(Input::Tick { now_ms: 1_000 });
    assert!(outs.iter().any(|o| matches!(
        o,
        Output::Mpv(MpvCommand::Seek {
            media_pos_ms: 20_000
        })
    )));
}

#[test]
fn hard_drift_toward_higher_id_reference_degrades_to_speed_nudge() {
    // Local n(1) < reference n(2): the tie-break forbids the hard seek
    // (n(2) is the one that corrects toward us) and we emit a soft speed
    // correction in the drift direction instead.
    let mut r = new_room();
    let _ = r.apply(Input::PeerConnected {
        node: n(2),
        nickname: "a".into(),
        now_ms: 0,
    });
    r.apply(Input::MpvStateUpdate {
        media_pos_ms: 10_000,
        paused: false,
        speed_centi: SPEED_NORMAL_CENTI,
    });
    let _ = r.apply(Input::FrameReceived {
        from: n(2),
        frame: Frame::Heartbeat(hb(n(2), 1_000, 20_000, false, true)),
        received_at_ms: 1_000,
        rtt_sample_ms: None,
    });
    let outs = r.apply(Input::Tick { now_ms: 1_000 });
    assert!(
        !outs
            .iter()
            .any(|o| matches!(o, Output::Mpv(MpvCommand::Seek { .. }))),
        "lower-id peer must not hard-seek toward a higher-id reference"
    );
    // We're 10 s behind → speed up to crawl toward the reference.
    assert!(outs.iter().any(|o| matches!(
        o,
        Output::Mpv(MpvCommand::SetSpeed {
            speed_centi: SPEED_UP_CENTI
        })
    )));
}

#[test]
fn drift_is_held_off_after_local_seek() {
    // A user seek must not be undone by drift correction against a
    // heartbeat that predates it (the reported 10 s ping-pong bug).
    let mut r = new_room();
    let _ = r.apply(Input::PeerConnected {
        node: n(0),
        nickname: "a".into(),
        now_ms: 0,
    });
    r.apply(Input::MpvStateUpdate {
        media_pos_ms: 10_000,
        paused: false,
        speed_centi: SPEED_NORMAL_CENTI,
    });
    // Pre-seek heartbeat: peer is at our old position.
    let _ = r.apply(Input::FrameReceived {
        from: n(0),
        frame: Frame::Heartbeat(hb(n(0), 1_000, 10_000, false, true)),
        received_at_ms: 1_000,
        rtt_sample_ms: None,
    });
    // User seeks 10 s ahead.
    let _ = r.apply(Input::LocalControl {
        action: ControlAction::Seek {
            media_pos_ms: 20_000,
        },
        now_ms: 1_500,
    });
    // Tick inside the hold-off window: no drift correction at all.
    let outs = r.apply(Input::Tick { now_ms: 2_000 });
    assert!(
        !outs.iter().any(|o| matches!(o, Output::Mpv(_))),
        "drift must be suspended right after a local seek, got {outs:?}"
    );
}

#[test]
fn drift_is_held_off_after_inbound_seek() {
    let mut r = new_room();
    let _ = r.apply(Input::PeerConnected {
        node: n(0),
        nickname: "a".into(),
        now_ms: 0,
    });
    r.apply(Input::MpvStateUpdate {
        media_pos_ms: 10_000,
        paused: false,
        speed_centi: SPEED_NORMAL_CENTI,
    });
    let _ = r.apply(Input::FrameReceived {
        from: n(0),
        frame: Frame::Heartbeat(hb(n(0), 1_000, 10_000, false, true)),
        received_at_ms: 1_000,
        rtt_sample_ms: None,
    });
    // Peer seeks 10 s ahead; we apply it.
    let _ = r.apply(Input::FrameReceived {
        from: n(0),
        frame: Frame::Control(ControlEvent {
            origin: n(0),
            origin_ts_ms: 1_400,
            seq: 1,
            action: ControlAction::Seek {
                media_pos_ms: 20_000,
            },
        }),
        received_at_ms: 1_500,
        rtt_sample_ms: None,
    });
    r.apply(Input::MpvStateUpdate {
        media_pos_ms: 20_000,
        paused: false,
        speed_centi: SPEED_NORMAL_CENTI,
    });
    // Tick inside the hold-off: the stale pre-seek heartbeat (peer at
    // 10_000) must not drag us back.
    let outs = r.apply(Input::Tick { now_ms: 2_400 });
    assert!(
        !outs.iter().any(|o| matches!(o, Output::Mpv(_))),
        "drift must be suspended right after applying an inbound seek, got {outs:?}"
    );
}

#[test]
fn drift_resumes_after_holdoff_with_fresh_heartbeat() {
    let mut r = new_room();
    let _ = r.apply(Input::PeerConnected {
        node: n(0),
        nickname: "a".into(),
        now_ms: 0,
    });
    r.apply(Input::MpvStateUpdate {
        media_pos_ms: 10_000,
        paused: false,
        speed_centi: SPEED_NORMAL_CENTI,
    });
    let _ = r.apply(Input::LocalControl {
        action: ControlAction::Seek {
            media_pos_ms: 10_000,
        },
        now_ms: 1_000,
    });
    // Fresh post-seek heartbeat (received after the control event) shows
    // the peer genuinely 10 s ahead.
    let _ = r.apply(Input::FrameReceived {
        from: n(0),
        frame: Frame::Heartbeat(hb(n(0), 3_500, 20_000, false, true)),
        received_at_ms: 3_500,
        rtt_sample_ms: None,
    });
    // Past the hold-off (1_000 + 2_000): correction runs again.
    let outs = r.apply(Input::Tick { now_ms: 3_500 });
    assert!(outs.iter().any(|o| matches!(
        o,
        Output::Mpv(MpvCommand::Seek {
            media_pos_ms: 20_000
        })
    )));
}

#[test]
fn heartbeat_predating_position_control_is_never_a_reference() {
    // Post-seek heartbeats ride unreliable datagrams and can drop. Even
    // after the hold-off expires, a heartbeat received before the seek
    // must not be used for correction.
    let mut r = new_room();
    let _ = r.apply(Input::PeerConnected {
        node: n(0),
        nickname: "a".into(),
        now_ms: 0,
    });
    r.apply(Input::MpvStateUpdate {
        media_pos_ms: 10_000,
        paused: false,
        speed_centi: SPEED_NORMAL_CENTI,
    });
    // Heartbeat received at 1_000 (pre-seek), peer at our old position.
    let _ = r.apply(Input::FrameReceived {
        from: n(0),
        frame: Frame::Heartbeat(hb(n(0), 1_000, 10_000, false, true)),
        received_at_ms: 1_000,
        rtt_sample_ms: None,
    });
    let _ = r.apply(Input::LocalControl {
        action: ControlAction::Seek {
            media_pos_ms: 20_000,
        },
        now_ms: 1_500,
    });
    // Tick after the hold-off but within the 5 s heartbeat-staleness
    // budget; the only stored heartbeat predates the seek.
    let outs = r.apply(Input::Tick { now_ms: 4_000 });
    assert!(
        !outs
            .iter()
            .any(|o| matches!(o, Output::Mpv(MpvCommand::Seek { .. }))),
        "pre-seek heartbeat must be skipped as a drift reference, got {outs:?}"
    );
}

#[test]
fn drift_seek_arms_holdoff() {
    let mut r = new_room();
    let _ = r.apply(Input::PeerConnected {
        node: n(0),
        nickname: "a".into(),
        now_ms: 0,
    });
    r.apply(Input::MpvStateUpdate {
        media_pos_ms: 10_000,
        paused: false,
        speed_centi: SPEED_NORMAL_CENTI,
    });
    let _ = r.apply(Input::FrameReceived {
        from: n(0),
        frame: Frame::Heartbeat(hb(n(0), 1_000, 20_000, false, true)),
        received_at_ms: 1_000,
        rtt_sample_ms: None,
    });
    let outs = r.apply(Input::Tick { now_ms: 1_000 });
    assert!(
        outs.iter()
            .any(|o| matches!(o, Output::Mpv(MpvCommand::Seek { .. })))
    );
    // mpv applies the drift seek.
    r.apply(Input::MpvStateUpdate {
        media_pos_ms: 20_000,
        paused: false,
        speed_centi: SPEED_NORMAL_CENTI,
    });
    // Next tick is inside the hold-off armed by the drift seek; the same
    // stale heartbeat must not trigger another correction.
    let outs = r.apply(Input::Tick { now_ms: 2_000 });
    assert!(
        !outs
            .iter()
            .any(|o| matches!(o, Output::Mpv(MpvCommand::Seek { .. }))),
        "drift seek must arm the hold-off, got {outs:?}"
    );
}

#[test]
fn tick_skips_stale_reference() {
    let mut r = new_room();
    let _ = r.apply(Input::PeerConnected {
        node: n(2),
        nickname: "a".into(),
        now_ms: 0,
    });
    r.apply(Input::MpvStateUpdate {
        media_pos_ms: 10_000,
        paused: false,
        speed_centi: SPEED_NORMAL_CENTI,
    });
    let _ = r.apply(Input::FrameReceived {
        from: n(2),
        frame: Frame::Heartbeat(hb(n(2), 1_000, 20_000, false, true)),
        received_at_ms: 1_000,
        rtt_sample_ms: None,
    });
    // Advance far beyond the 5s stale threshold.
    let outs = r.apply(Input::Tick { now_ms: 10_000 });
    assert!(
        !outs
            .iter()
            .any(|o| matches!(o, Output::Mpv(MpvCommand::Seek { .. })))
    );
    assert!(outs.iter().any(
        |o| matches!(o, Output::Notify(Notice::StaleReferenceSkipped { peer }) if *peer == n(2))
    ));
}

// --- Local control emits broadcast ---

#[test]
fn local_control_emits_broadcast_with_increasing_seq() {
    let mut r = new_room();
    let outs1 = r.apply(Input::LocalControl {
        action: ControlAction::Pause { media_pos_ms: 100 },
        now_ms: 1_000,
    });
    let outs2 = r.apply(Input::LocalControl {
        action: ControlAction::Play { media_pos_ms: 200 },
        now_ms: 2_000,
    });
    let seq1 = outs1.iter().find_map(|o| match o {
        Output::Broadcast(Frame::Control(ev)) => Some(ev.seq),
        _ => None,
    });
    let seq2 = outs2.iter().find_map(|o| match o {
        Output::Broadcast(Frame::Control(ev)) => Some(ev.seq),
        _ => None,
    });
    assert!(seq1.is_some() && seq2.is_some());
    assert!(seq2.unwrap() > seq1.unwrap());
    assert!(!r.local_playback().paused);
    assert_eq!(r.local_playback().media_pos_ms, 200);
}

// --- Chat ---

#[test]
fn local_chat_broadcasts_and_rings() {
    let mut r = new_room();
    let _ = r.apply(Input::LocalChat {
        text: "hello".into(),
        now_ms: 1_000,
    });
    assert_eq!(r.chat().len(), 1);
    assert_eq!(r.chat().front().unwrap().text, "hello");
}

#[test]
fn chat_ring_evicts_oldest_beyond_capacity() {
    let mut r = new_room();
    for i in 0..(CHAT_RING_CAPACITY + 10) {
        r.apply(Input::LocalChat {
            text: format!("msg{i}"),
            now_ms: i as u64,
        });
    }
    assert_eq!(r.chat().len(), CHAT_RING_CAPACITY);
    // Oldest preserved should be msg10.
    assert_eq!(r.chat().front().unwrap().text, "msg10");
}

#[test]
fn remote_chat_is_ringed_but_not_broadcast() {
    let mut r = new_room();
    let _ = r.apply(Input::PeerConnected {
        node: n(2),
        nickname: "a".into(),
        now_ms: 0,
    });
    let msg = ChatMessage {
        origin: n(2),
        origin_ts_ms: 1,
        text: "hi there".into(),
    };
    let outs = r.apply(Input::FrameReceived {
        from: n(2),
        frame: Frame::Chat(msg),
        received_at_ms: 10,
        rtt_sample_ms: None,
    });
    assert!(outs.is_empty());
    assert_eq!(r.chat().len(), 1);
}

// --- Media mismatch ---

#[test]
fn heartbeat_with_different_media_emits_mismatch_notice() {
    let mut r = new_room();
    let _ = r.apply(Input::PeerConnected {
        node: n(2),
        nickname: "a".into(),
        now_ms: 0,
    });
    r.apply(Input::LocalMediaChanged {
        media: MediaId {
            filename_lower: "a.mkv".into(),
            size_bytes: 100,
            duration_s: 10,
        },
        now_ms: 0,
    });
    let mut h = hb(n(2), 1_000, 0, true, false);
    h.media_id = Some(MediaId {
        filename_lower: "b.mkv".into(),
        size_bytes: 200,
        duration_s: 10,
    });
    let outs = r.apply(Input::FrameReceived {
        from: n(2),
        frame: Frame::Heartbeat(h),
        received_at_ms: 1_000,
        rtt_sample_ms: None,
    });
    assert!(outs.iter().any(|o| matches!(
        o,
        Output::Notify(Notice::MediaMismatch {
            severity: MatchResult::Different,
            ..
        })
    )));
}

#[test]
fn heartbeat_with_same_name_different_size_is_soft_mismatch() {
    let mut r = new_room();
    let _ = r.apply(Input::PeerConnected {
        node: n(2),
        nickname: "a".into(),
        now_ms: 0,
    });
    r.apply(Input::LocalMediaChanged {
        media: MediaId {
            filename_lower: "a.mkv".into(),
            size_bytes: 100,
            duration_s: 10,
        },
        now_ms: 0,
    });
    let mut h = hb(n(2), 1_000, 0, true, false);
    h.media_id = Some(MediaId {
        filename_lower: "a.mkv".into(),
        size_bytes: 999,
        duration_s: 10,
    });
    let outs = r.apply(Input::FrameReceived {
        from: n(2),
        frame: Frame::Heartbeat(h),
        received_at_ms: 1_000,
        rtt_sample_ms: None,
    });
    assert!(outs.iter().any(|o| matches!(
        o,
        Output::Notify(Notice::MediaMismatch {
            severity: MatchResult::SameNameDifferentFile,
            ..
        })
    )));
}

// --- Override flag ---

#[test]
fn override_flag_allows_advance_with_partial_ready() {
    let mut r = new_room();
    let _ = r.apply(Input::PeerConnected {
        node: n(2),
        nickname: "a".into(),
        now_ms: 0,
    });
    let _ = r.apply(Input::LocalReady {
        ready: true,
        now_ms: 1,
    });
    assert_eq!(r.ready_state(), ReadyState::Pending);

    r.apply(Input::SetOverride { enabled: true });
    assert_eq!(r.ready_state(), ReadyState::AllReady);
}

// --- Inbound control: Play / Seek / MediaChanged (Pause + SetSpeed already covered) ---

#[test]
fn inbound_play_seeks_and_unpauses_and_updates_local_state() {
    let mut r = new_room();
    let _ = r.apply(Input::PeerConnected {
        node: n(2),
        nickname: "a".into(),
        now_ms: 0,
    });
    // Start paused so we can observe the transition to playing.
    r.apply(Input::MpvStateUpdate {
        media_pos_ms: 0,
        paused: true,
        speed_centi: SPEED_NORMAL_CENTI,
    });
    let ev = ControlEvent {
        origin: n(2),
        origin_ts_ms: 1_000,
        seq: 1,
        action: ControlAction::Play {
            media_pos_ms: 7_500,
        },
    };
    let outs = r.apply(Input::FrameReceived {
        from: n(2),
        frame: Frame::Control(ev),
        received_at_ms: 10,
        rtt_sample_ms: None,
    });
    assert!(outs.iter().any(|o| matches!(
        o,
        Output::Mpv(MpvCommand::Seek {
            media_pos_ms: 7_500
        })
    )));
    assert!(
        outs.iter()
            .any(|o| matches!(o, Output::Mpv(MpvCommand::Pause(false))))
    );
    assert!(!r.local_playback().paused);
    assert_eq!(r.local_playback().media_pos_ms, 7_500);
}

#[test]
fn inbound_seek_updates_position_without_changing_pause() {
    let mut r = new_room();
    let _ = r.apply(Input::PeerConnected {
        node: n(2),
        nickname: "a".into(),
        now_ms: 0,
    });
    r.apply(Input::MpvStateUpdate {
        media_pos_ms: 0,
        paused: false,
        speed_centi: SPEED_NORMAL_CENTI,
    });
    let ev = ControlEvent {
        origin: n(2),
        origin_ts_ms: 1_000,
        seq: 1,
        action: ControlAction::Seek {
            media_pos_ms: 42_000,
        },
    };
    let outs = r.apply(Input::FrameReceived {
        from: n(2),
        frame: Frame::Control(ev),
        received_at_ms: 10,
        rtt_sample_ms: None,
    });
    assert!(outs.iter().any(|o| matches!(
        o,
        Output::Mpv(MpvCommand::Seek {
            media_pos_ms: 42_000
        })
    )));
    // No Pause command emitted for a bare Seek.
    assert!(
        !outs
            .iter()
            .any(|o| matches!(o, Output::Mpv(MpvCommand::Pause(_))))
    );
    assert_eq!(r.local_playback().media_pos_ms, 42_000);
    assert!(!r.local_playback().paused);
}

#[test]
fn inbound_media_changed_with_matching_local_emits_no_notice() {
    let mut r = new_room();
    let _ = r.apply(Input::PeerConnected {
        node: n(2),
        nickname: "a".into(),
        now_ms: 0,
    });
    let media = MediaId {
        filename_lower: "a.mkv".into(),
        size_bytes: 100,
        duration_s: 10,
    };
    r.apply(Input::LocalMediaChanged {
        media: media.clone(),
        now_ms: 0,
    });
    let ev = ControlEvent {
        origin: n(2),
        origin_ts_ms: 2_000,
        seq: 1,
        action: ControlAction::MediaChanged { id: media },
    };
    let outs = r.apply(Input::FrameReceived {
        from: n(2),
        frame: Frame::Control(ev),
        received_at_ms: 10,
        rtt_sample_ms: None,
    });
    assert!(
        !outs
            .iter()
            .any(|o| matches!(o, Output::Notify(Notice::MediaMismatch { .. })))
    );
}

#[test]
fn inbound_media_changed_with_different_local_emits_mismatch() {
    let mut r = new_room();
    let _ = r.apply(Input::PeerConnected {
        node: n(2),
        nickname: "a".into(),
        now_ms: 0,
    });
    r.apply(Input::LocalMediaChanged {
        media: MediaId {
            filename_lower: "a.mkv".into(),
            size_bytes: 100,
            duration_s: 10,
        },
        now_ms: 0,
    });
    let ev = ControlEvent {
        origin: n(2),
        origin_ts_ms: 2_000,
        seq: 1,
        action: ControlAction::MediaChanged {
            id: MediaId {
                filename_lower: "b.mkv".into(),
                size_bytes: 200,
                duration_s: 10,
            },
        },
    };
    let outs = r.apply(Input::FrameReceived {
        from: n(2),
        frame: Frame::Control(ev),
        received_at_ms: 10,
        rtt_sample_ms: None,
    });
    assert!(outs.iter().any(|o| matches!(
        o,
        Output::Notify(Notice::MediaMismatch {
            severity: MatchResult::Different,
            our_media: Some(_),
            ..
        })
    )));
}

#[test]
fn inbound_media_changed_without_local_media_emits_mismatch_with_none() {
    let mut r = new_room();
    let _ = r.apply(Input::PeerConnected {
        node: n(2),
        nickname: "a".into(),
        now_ms: 0,
    });
    let ev = ControlEvent {
        origin: n(2),
        origin_ts_ms: 2_000,
        seq: 1,
        action: ControlAction::MediaChanged {
            id: MediaId {
                filename_lower: "b.mkv".into(),
                size_bytes: 200,
                duration_s: 10,
            },
        },
    };
    let outs = r.apply(Input::FrameReceived {
        from: n(2),
        frame: Frame::Control(ev),
        received_at_ms: 10,
        rtt_sample_ms: None,
    });
    assert!(outs.iter().any(|o| matches!(
        o,
        Output::Notify(Notice::MediaMismatch {
            severity: MatchResult::Different,
            our_media: None,
            ..
        })
    )));
}

// --- Heartbeat media mismatch: local has no media ---

#[test]
fn heartbeat_with_peer_media_and_no_local_media_emits_mismatch() {
    let mut r = new_room();
    let _ = r.apply(Input::PeerConnected {
        node: n(2),
        nickname: "a".into(),
        now_ms: 0,
    });
    let mut h = hb(n(2), 1_000, 0, true, false);
    h.media_id = Some(MediaId {
        filename_lower: "only-they-have-it.mkv".into(),
        size_bytes: 500,
        duration_s: 60,
    });
    let outs = r.apply(Input::FrameReceived {
        from: n(2),
        frame: Frame::Heartbeat(h),
        received_at_ms: 1_000,
        rtt_sample_ms: None,
    });
    assert!(outs.iter().any(|o| matches!(
        o,
        Output::Notify(Notice::MediaMismatch {
            severity: MatchResult::Different,
            our_media: None,
            ..
        })
    )));
}

// --- Inbound presence: Join / Leave / Rename / PeerList ---

#[test]
fn inbound_presence_join_adds_peer_and_registers_in_gate() {
    let mut r = new_room();
    let outs = r.apply(Input::FrameReceived {
        from: n(2),
        frame: Frame::Presence(PresenceEvent::Join {
            node: n(3),
            nickname: "carol".into(),
        }),
        received_at_ms: 10,
        rtt_sample_ms: None,
    });
    assert!(outs.is_empty());
    assert_eq!(r.peer(&n(3)).unwrap().nickname, "carol");
    // Gate should now include the new peer as not-ready.
    let _ = r.apply(Input::LocalReady {
        ready: true,
        now_ms: 1,
    });
    assert_eq!(r.ready_state(), ReadyState::Pending);
}

#[test]
fn inbound_presence_leave_removes_peer_and_clears_gate() {
    let mut r = new_room();
    let _ = r.apply(Input::PeerConnected {
        node: n(2),
        nickname: "alice".into(),
        now_ms: 0,
    });
    // With local ready + peer not ready → Pending.
    let _ = r.apply(Input::LocalReady {
        ready: true,
        now_ms: 1,
    });
    assert_eq!(r.ready_state(), ReadyState::Pending);

    let outs = r.apply(Input::FrameReceived {
        from: n(2),
        frame: Frame::Presence(PresenceEvent::Leave { node: n(2) }),
        received_at_ms: 10,
        rtt_sample_ms: None,
    });
    assert!(outs.is_empty());
    assert_eq!(r.peer_count(), 0);
    // Gate cleared → only local (ready) remains → AllReady.
    assert_eq!(r.ready_state(), ReadyState::AllReady);
}

#[test]
fn inbound_presence_rename_updates_nickname() {
    let mut r = new_room();
    let _ = r.apply(Input::PeerConnected {
        node: n(2),
        nickname: "alice".into(),
        now_ms: 0,
    });
    let outs = r.apply(Input::FrameReceived {
        from: n(2),
        frame: Frame::Presence(PresenceEvent::Rename {
            node: n(2),
            nickname: "alice-the-second".into(),
        }),
        received_at_ms: 10,
        rtt_sample_ms: None,
    });
    assert!(outs.is_empty());
    assert_eq!(r.peer(&n(2)).unwrap().nickname, "alice-the-second");
}

#[test]
fn inbound_presence_rename_on_unknown_node_is_noop() {
    let mut r = new_room();
    let outs = r.apply(Input::FrameReceived {
        from: n(2),
        frame: Frame::Presence(PresenceEvent::Rename {
            node: n(9),
            nickname: "ghost".into(),
        }),
        received_at_ms: 10,
        rtt_sample_ms: None,
    });
    assert!(outs.is_empty());
    assert_eq!(r.peer_count(), 0);
}

#[test]
fn inbound_peer_list_registers_all_nodes_and_skips_self() {
    let mut r = new_room();
    let outs = r.apply(Input::FrameReceived {
        from: n(2),
        frame: Frame::Presence(PresenceEvent::PeerList {
            peers: vec![
                (n(1), "me-echoed-back".into(), vec![]), // skipped: this is us
                (n(2), "alice".into(), vec![]),
                (n(3), "bob".into(), vec![]),
            ],
        }),
        received_at_ms: 10,
        rtt_sample_ms: None,
    });
    assert!(outs.is_empty());
    assert_eq!(r.peer_count(), 2);
    assert_eq!(r.peer(&n(2)).unwrap().nickname, "alice");
    assert_eq!(r.peer(&n(3)).unwrap().nickname, "bob");
    assert!(r.peer(&n(1)).is_none());
}

#[test]
fn inbound_peer_list_updates_existing_nickname() {
    let mut r = new_room();
    let _ = r.apply(Input::PeerConnected {
        node: n(2),
        nickname: "old-name".into(),
        now_ms: 0,
    });
    let _ = r.apply(Input::FrameReceived {
        from: n(3),
        frame: Frame::Presence(PresenceEvent::PeerList {
            peers: vec![(n(2), "new-name".into(), vec![])],
        }),
        received_at_ms: 10,
        rtt_sample_ms: None,
    });
    assert_eq!(r.peer(&n(2)).unwrap().nickname, "new-name");
}

// --- Local non-Pause control paths ---

#[test]
fn local_seek_broadcasts_and_updates_position() {
    let mut r = new_room();
    r.apply(Input::MpvStateUpdate {
        media_pos_ms: 1_000,
        paused: false,
        speed_centi: SPEED_NORMAL_CENTI,
    });
    let outs = r.apply(Input::LocalControl {
        action: ControlAction::Seek {
            media_pos_ms: 12_345,
        },
        now_ms: 5_000,
    });
    assert!(outs.iter().any(|o| matches!(
        o,
        Output::Broadcast(Frame::Control(ControlEvent {
            action: ControlAction::Seek {
                media_pos_ms: 12_345
            },
            ..
        }))
    )));
    assert_eq!(r.local_playback().media_pos_ms, 12_345);
    // Pause state unchanged by Seek.
    assert!(!r.local_playback().paused);
}

#[test]
fn local_set_speed_broadcasts_and_updates_speed() {
    let mut r = new_room();
    let outs = r.apply(Input::LocalControl {
        action: ControlAction::SetSpeed { speed_centi: 125 },
        now_ms: 0,
    });
    assert!(outs.iter().any(|o| matches!(
        o,
        Output::Broadcast(Frame::Control(ControlEvent {
            action: ControlAction::SetSpeed { speed_centi: 125 },
            ..
        }))
    )));
    assert_eq!(r.local_playback().speed_centi, 125);
}

#[test]
fn local_media_changed_via_control_action_sets_local_media() {
    let mut r = new_room();
    let media = MediaId {
        filename_lower: "x.mkv".into(),
        size_bytes: 7,
        duration_s: 1,
    };
    let outs = r.apply(Input::LocalControl {
        action: ControlAction::MediaChanged { id: media.clone() },
        now_ms: 0,
    });
    assert!(outs.iter().any(|o| matches!(
        o,
        Output::Broadcast(Frame::Control(ControlEvent {
            action: ControlAction::MediaChanged { .. },
            ..
        }))
    )));
    assert_eq!(r.local_media(), Some(&media));
}

// --- Snapshot projection ---

#[test]
fn snapshot_reflects_local_fields() {
    let r = new_room();
    let s = r.snapshot();
    assert_eq!(s.local.node, n(1));
    assert_eq!(s.local.nickname, "me");
    assert!(!s.local.ready);
    assert_eq!(s.local.playback, PlaybackState::default());
    assert!(s.local.media.is_none());
    assert!(s.peers.is_empty());
    assert!(s.chat.is_empty());
    assert_eq!(s.ready_state, ReadyState::Pending);
    assert!(!s.override_enabled);
}

#[test]
fn snapshot_includes_peers_with_nicknames_and_ready_flags() {
    let mut r = new_room();
    let _ = r.apply(Input::PeerConnected {
        node: n(2),
        nickname: "alice".into(),
        now_ms: 0,
    });
    let _ = r.apply(Input::FrameReceived {
        from: n(2),
        frame: Frame::Presence(PresenceEvent::Ready {
            node: n(2),
            ready: true,
        }),
        received_at_ms: 1,
        rtt_sample_ms: None,
    });
    let s = r.snapshot();
    assert_eq!(s.peers.len(), 1);
    assert_eq!(s.peers[0].node, n(2));
    assert_eq!(s.peers[0].nickname, "alice");
    assert!(s.peers[0].ready);
}

#[test]
fn snapshot_chat_captures_ring_contents() {
    let mut r = new_room();
    let _ = r.apply(Input::LocalChat {
        text: "hello".into(),
        now_ms: 10,
    });
    let _ = r.apply(Input::LocalChat {
        text: "world".into(),
        now_ms: 20,
    });
    let s = r.snapshot();
    assert_eq!(s.chat.len(), 2);
    assert_eq!(s.chat[0].text, "hello");
    assert_eq!(s.chat[1].text, "world");
}

#[test]
fn snapshot_override_flag_tracked() {
    let mut r = new_room();
    let _ = r.apply(Input::SetOverride { enabled: true });
    assert!(r.snapshot().override_enabled);
    let _ = r.apply(Input::SetOverride { enabled: false });
    assert!(!r.snapshot().override_enabled);
}

// --- H1: reciprocal auto-seek ---

fn media(name: &str) -> MediaId {
    MediaId {
        filename_lower: name.into(),
        size_bytes: 1,
        duration_s: 1,
    }
}

#[test]
fn peer_connect_without_local_media_emits_no_auto_seek() {
    // A joiner that hasn't opened a file must not send Seek{0} to the host,
    // which would yank the whole room back to 0:00 (H1).
    let mut r = new_room();
    let outs = r.apply(Input::PeerConnected {
        node: n(2),
        nickname: "a".into(),
        now_ms: 5_000,
    });
    assert!(
        !outs.iter().any(|o| matches!(
            o,
            Output::SendTo {
                frame: Frame::Control(ControlEvent {
                    action: ControlAction::Seek { .. },
                    ..
                }),
                ..
            }
        )),
        "no auto-seek should be sent when we have no media loaded, got {outs:?}"
    );
}

#[test]
fn peer_connect_with_local_media_emits_auto_seek_stamped_with_clock() {
    // The side that *has* media still seeks the joiner to its position, and
    // the event carries a real wall clock (not the old origin_ts_ms: 0 that
    // would always lose conflict resolution).
    let mut r = new_room();
    r.apply(Input::LocalMediaChanged {
        media: media("film.mkv"),
        now_ms: 100,
    });
    r.apply(Input::MpvStateUpdate {
        media_pos_ms: 7_777,
        paused: false,
        speed_centi: SPEED_NORMAL_CENTI,
    });
    let outs = r.apply(Input::PeerConnected {
        node: n(2),
        nickname: "a".into(),
        now_ms: 4_242,
    });
    let seek = outs.iter().find_map(|o| match o {
        Output::SendTo {
            to,
            frame:
                Frame::Control(ev @ ControlEvent {
                    action: ControlAction::Seek { media_pos_ms },
                    ..
                }),
        } if *to == n(2) => Some((*media_pos_ms, ev.origin_ts_ms)),
        _ => None,
    });
    assert_eq!(
        seek,
        Some((7_777, 4_242)),
        "auto-seek must target our position and carry now_ms, got {outs:?}"
    );
}

// --- H2: UI-origin control drives local mpv ---

#[test]
fn ui_control_pause_emits_mpv_command_and_broadcast() {
    let mut r = new_room();
    let outs = r.apply(Input::UiControl {
        action: ControlAction::Pause { media_pos_ms: 1_234 },
        now_ms: 1,
    });
    assert!(
        outs.iter()
            .any(|o| matches!(o, Output::Mpv(MpvCommand::Pause(true)))),
        "UI pause must drive local mpv, got {outs:?}"
    );
    assert!(
        outs.iter()
            .any(|o| matches!(o, Output::Broadcast(Frame::Control(_)))),
        "UI pause must also broadcast to the mesh"
    );
    assert!(r.local_playback().paused);
    assert_eq!(r.local_playback().media_pos_ms, 1_234);
}

#[test]
fn ui_control_play_emits_unpause_mpv_command() {
    let mut r = new_room();
    let outs = r.apply(Input::UiControl {
        action: ControlAction::Play { media_pos_ms: 0 },
        now_ms: 1,
    });
    assert!(
        outs.iter()
            .any(|o| matches!(o, Output::Mpv(MpvCommand::Pause(false)))),
        "UI play must unpause local mpv, got {outs:?}"
    );
    assert!(!r.local_playback().paused);
}

#[test]
fn local_control_from_mpv_edge_emits_no_mpv_command() {
    // The mpv-origin path must stay broadcast-only: mpv already applied the
    // edge, re-commanding it would be redundant churn.
    let mut r = new_room();
    let outs = r.apply(Input::LocalControl {
        action: ControlAction::Pause { media_pos_ms: 1_234 },
        now_ms: 1,
    });
    assert!(
        !outs.iter().any(|o| matches!(o, Output::Mpv(_))),
        "mpv-origin LocalControl must not echo a command back, got {outs:?}"
    );
}

// --- M2: ready-gate ghost entries ---

#[test]
fn ready_presence_for_unknown_node_is_ignored() {
    // Self-only room that is AllReady must not be wedged to Pending by a
    // stray/forged Ready{false} for a node we don't track.
    let mut r = new_room();
    let _ = r.apply(Input::LocalReady {
        ready: true,
        now_ms: 1,
    });
    assert_eq!(r.ready_state(), ReadyState::AllReady);
    let _ = r.apply(Input::FrameReceived {
        from: n(9),
        frame: Frame::Presence(PresenceEvent::Ready {
            node: n(9),
            ready: false,
        }),
        received_at_ms: 10,
        rtt_sample_ms: None,
    });
    assert_eq!(r.ready_state(), ReadyState::AllReady);
    assert!(r.ready_gate().get(&n(9)).is_none());
}

#[test]
fn heartbeat_from_unknown_node_does_not_seed_ready_gate() {
    let mut r = new_room();
    let _ = r.apply(Input::LocalReady {
        ready: true,
        now_ms: 1,
    });
    let _ = r.apply(Input::FrameReceived {
        from: n(9),
        frame: Frame::Heartbeat(hb(n(9), 1_000, 0, false, false)),
        received_at_ms: 1_000,
        rtt_sample_ms: None,
    });
    assert_eq!(r.ready_state(), ReadyState::AllReady);
    assert!(r.ready_gate().get(&n(9)).is_none());
}

#[test]
fn rejoin_does_not_clobber_existing_ready() {
    // A re-broadcast Join for a peer that already flipped ready must not
    // reset it to false (which would transiently block AllReady).
    let mut r = new_room();
    let _ = r.apply(Input::PeerConnected {
        node: n(2),
        nickname: "a".into(),
        now_ms: 0,
    });
    let _ = r.apply(Input::FrameReceived {
        from: n(2),
        frame: Frame::Presence(PresenceEvent::Ready {
            node: n(2),
            ready: true,
        }),
        received_at_ms: 1,
        rtt_sample_ms: None,
    });
    assert_eq!(r.ready_gate().get(&n(2)), Some(true));
    let _ = r.apply(Input::FrameReceived {
        from: n(2),
        frame: Frame::Presence(PresenceEvent::Join {
            node: n(2),
            nickname: "a-again".into(),
        }),
        received_at_ms: 2,
        rtt_sample_ms: None,
    });
    assert_eq!(
        r.ready_gate().get(&n(2)),
        Some(true),
        "re-Join must not clobber a known peer's ready flag"
    );
}
