//! Laws of the room and the wire, on concrete values.

use syncmesh::conflict::{resolve, ConflictOutcome};
use syncmesh::drift::{
    check_drift, drift_computable, project_reference, DriftAction, LocalPlayback, ReferencePeer,
};
use syncmesh::media::{match_media, MatchResult};
use syncmesh::node_id::NodeId;
use syncmesh::protocol::{
    ChatMessage, ControlAction, ControlEvent, Frame, MediaId, PresenceEvent, StateHeartbeat,
};
use syncmesh::snapshot::measure_drift;
use syncmesh::state::{Input, MpvCommand, Notice, Output, PlaybackState, RoomState};

fn n(b: u8) -> NodeId {
    NodeId::from_bytes([b; 32])
}

fn event(origin: u8, ts: u64, seq: u64, action: ControlAction) -> ControlEvent {
    ControlEvent {
        origin: n(origin),
        origin_ts_ms: ts,
        seq,
        action,
    }
}

fn pause(origin: u8, ts: u64, seq: u64, pos: u64) -> ControlEvent {
    event(origin, ts, seq, ControlAction::Pause { media_pos_ms: pos })
}

fn room_with_peers(peers: &[u8]) -> RoomState {
    let mut r = RoomState::new(n(1), "me".into());
    for p in peers {
        let _ = r.apply(Input::PeerConnected {
            node: n(*p),
            nickname: format!("p{p}"),
            now_ms: 0,
        });
    }
    r
}

fn receive(r: &mut RoomState, from: u8, frame: Frame, at: u64) -> Vec<Output> {
    r.apply(Input::FrameReceived {
        from: n(from),
        frame,
        received_at_ms: at,
        rtt_sample_ms: None,
    })
}

fn heartbeat(origin: u8, pos: u64, ready: bool) -> Frame {
    Frame::Heartbeat(StateHeartbeat {
        origin: n(origin),
        origin_ts_ms: 0,
        media_pos_ms: pos,
        paused: false,
        speed_centi: 100,
        ready,
        media_id: None,
    })
}

#[test]
fn one_of_two_conflicting_events_survives_everywhere() {
    let a = pause(2, 1_000, 1, 10);
    let b = pause(3, 1_400, 1, 20);
    assert_eq!(resolve(&a, &b), ConflictOutcome::Discard);
    assert_eq!(resolve(&b, &a), ConflictOutcome::Apply);
    let mut ab = room_with_peers(&[2, 3]);
    let _ = receive(&mut ab, 2, Frame::Control(a.clone()), 1_500);
    let _ = receive(&mut ab, 3, Frame::Control(b.clone()), 1_510);
    let mut ba = room_with_peers(&[2, 3]);
    let _ = receive(&mut ba, 3, Frame::Control(b), 1_500);
    let _ = receive(&mut ba, 2, Frame::Control(a), 1_510);
    assert_eq!(ab.local_playback(), ba.local_playback());
    assert_eq!(ab.local_playback().media_pos_ms, 10);
}

#[test]
fn events_far_apart_or_of_different_kinds_do_not_conflict() {
    let a = pause(2, 1_000, 1, 10);
    let later = pause(3, 1_500, 1, 20);
    assert_eq!(resolve(&a, &later), ConflictOutcome::Apply);
    let speed = event(3, 1_000, 1, ControlAction::SetSpeed { speed_centi: 90 });
    assert_eq!(resolve(&a, &speed), ConflictOutcome::Apply);
    let max = pause(2, u64::MAX, 1, 10);
    let near = pause(3, u64::MAX - 499, 1, 10);
    assert_eq!(resolve(&near, &max), ConflictOutcome::Discard);
    assert_eq!(resolve(&a, &a.clone()), ConflictOutcome::Apply);
}

#[test]
fn repeats_and_older_events_are_dropped() {
    let mut r = room_with_peers(&[2]);
    let _ = receive(&mut r, 2, Frame::Control(pause(2, 10_000, 5, 7)), 10_000);
    for seq in [5, 4, 0] {
        let outs = receive(&mut r, 2, Frame::Control(pause(2, 90_000, seq, 99)), 90_000);
        assert_eq!(
            outs,
            vec![Output::Notify(Notice::DuplicateDropped { peer: n(2), seq })]
        );
    }
    assert_eq!(r.local_playback().media_pos_ms, 7);
}

#[test]
fn a_discarded_event_counts_as_seen() {
    let mut r = room_with_peers(&[2, 3]);
    let _ = receive(&mut r, 2, Frame::Control(pause(2, 1_000, 1, 10)), 1_000);
    let loser = Frame::Control(pause(3, 1_001, 8, 20));
    let outs = receive(&mut r, 3, loser.clone(), 1_002);
    assert_eq!(
        outs,
        vec![Output::Notify(Notice::ConflictDiscarded { from: n(3), seq: 8 })]
    );
    let outs = receive(&mut r, 3, loser, 1_003);
    assert!(matches!(
        outs.as_slice(),
        [Output::Notify(Notice::DuplicateDropped { .. })]
    ));
}

#[test]
fn strangers_never_enter_the_ready_gate() {
    let mut r = room_with_peers(&[2]);
    let before = r.ready_gate().len();
    let _ = receive(&mut r, 9, heartbeat(9, 0, false), 1);
    let _ = receive(
        &mut r,
        2,
        Frame::Presence(PresenceEvent::Ready {
            node: n(9),
            ready: false,
        }),
        2,
    );
    assert_eq!(r.ready_gate().len(), before);
    let _ = receive(
        &mut r,
        2,
        Frame::Presence(PresenceEvent::PeerList {
            peers: vec![(n(1), "me".into(), vec![]), (n(7), "g".into(), vec![])],
        }),
        3,
    );
    assert_eq!(r.ready_gate().not_ready(), vec![n(1), n(2), n(7)]);
    let _ = r.apply(Input::PeerDisconnected { node: n(7) });
    assert_eq!(r.ready_gate().not_ready(), vec![n(1), n(2)]);
}

#[test]
fn numbers_of_our_events_increase() {
    let mut r = room_with_peers(&[]);
    let mut seen = Vec::new();
    for i in 0..3u64 {
        let outs = r.apply(Input::UiControl {
            action: ControlAction::Seek { media_pos_ms: i },
            now_ms: i * 1_000,
        });
        for o in outs {
            if let Output::Broadcast(Frame::Control(ev)) = o {
                seen.push(ev.seq);
            }
        }
    }
    assert_eq!(seen, vec![1, 2, 3]);
}

#[test]
fn drift_correction_waits_after_a_seek() {
    let mut r = room_with_peers(&[2]);
    let _ = r.apply(Input::MpvStateUpdate {
        media_pos_ms: 0,
        paused: false,
        speed_centi: 100,
    });
    let _ = r.apply(Input::LocalControl {
        action: ControlAction::Seek {
            media_pos_ms: 60_000,
        },
        now_ms: 10_000,
    });
    let _ = receive(&mut r, 2, heartbeat(2, 0, true), 10_500);
    for now in [10_500, 11_000, 11_999] {
        let outs = r.apply(Input::Tick { now_ms: now });
        assert_eq!(outs.len(), 1, "only the heartbeat at {now}");
    }
    // Node 2 comes after us, so we only nudge the speed.
    let outs = r.apply(Input::Tick { now_ms: 12_000 });
    assert_eq!(outs[1], Output::Mpv(MpvCommand::SetSpeed { speed_centi: 95 }));
}

#[test]
fn of_two_peers_only_the_larger_seeks() {
    let build = |me: u8, other: u8, my_pos: u64| {
        let mut r = RoomState::new(n(me), "x".into());
        let _ = r.apply(Input::PeerConnected {
            node: n(other),
            nickname: "y".into(),
            now_ms: 0,
        });
        let _ = r.apply(Input::MpvStateUpdate {
            media_pos_ms: my_pos,
            paused: false,
            speed_centi: 100,
        });
        r
    };
    let mut small = build(1, 2, 50_000);
    let mut large = build(2, 1, 10_000);
    let _ = receive(&mut small, 2, heartbeat(2, 10_000, true), 1_000);
    let _ = receive(&mut large, 1, heartbeat(1, 50_000, true), 1_000);
    let a = small.apply(Input::Tick { now_ms: 1_000 });
    let b = large.apply(Input::Tick { now_ms: 1_000 });
    assert_eq!(a[1], Output::Mpv(MpvCommand::SetSpeed { speed_centi: 95 }));
    assert_eq!(
        b[1],
        Output::Mpv(MpvCommand::Seek {
            media_pos_ms: 50_000
        })
    );
}

#[test]
fn the_smallest_identifier_wins_among_equally_fresh_references() {
    let mut r = RoomState::new(n(9), "me".into());
    for p in [4u8, 2, 3] {
        let _ = r.apply(Input::PeerConnected {
            node: n(p),
            nickname: "p".into(),
            now_ms: 0,
        });
    }
    let _ = r.apply(Input::MpvStateUpdate {
        media_pos_ms: 0,
        paused: false,
        speed_centi: 100,
    });
    let _ = receive(&mut r, 4, heartbeat(4, 40_000, true), 100);
    let _ = receive(&mut r, 3, heartbeat(3, 30_000, true), 100);
    let _ = receive(&mut r, 2, heartbeat(2, 20_000, true), 99);
    let outs = r.apply(Input::Tick { now_ms: 100 });
    assert_eq!(
        outs[1],
        Output::Mpv(MpvCommand::Seek {
            media_pos_ms: 30_000
        })
    );
}

#[test]
fn the_largest_identifier_is_named_among_equally_stale_peers() {
    let mut r = room_with_peers(&[2, 3]);
    let _ = receive(&mut r, 2, heartbeat(2, 0, true), 100);
    let _ = receive(&mut r, 3, heartbeat(3, 0, true), 100);
    let outs = r.apply(Input::Tick { now_ms: 5_101 });
    assert_eq!(
        outs[1],
        Output::Notify(Notice::StaleReferenceSkipped { peer: n(3) })
    );
    let outs = r.apply(Input::Tick { now_ms: 5_100 });
    assert!(!matches!(outs.get(1), Some(Output::Notify(_))));
}

#[test]
fn the_projection_ignores_a_common_clock_offset() {
    let reference = |at| ReferencePeer {
        media_pos_ms: 5_000,
        received_at_ms: at,
        paused: false,
        one_way_ms: 20,
        speed_centi: 150,
    };
    for shift in [0u64, 1, 1_000_000_000_000] {
        assert_eq!(
            project_reference(&reference(100 + shift), 1_100 + shift),
            5_000 + 1_500 + 20
        );
    }
    // A receive time in the future rounds toward zero.
    assert_eq!(project_reference(&reference(101), 100), 5_000 - 1 + 20);
}

#[test]
fn a_seek_lands_where_no_correction_is_needed() {
    let reference = ReferencePeer {
        media_pos_ms: 70_000,
        received_at_ms: 1_000,
        paused: false,
        one_way_ms: 50,
        speed_centi: 100,
    };
    let me = |pos| LocalPlayback {
        media_pos_ms: pos,
        paused: false,
    };
    match check_drift(&reference, &me(10), 2_000) {
        DriftAction::Seek { target_ms } => {
            assert_eq!(target_ms, 71_050);
            assert_eq!(
                check_drift(&reference, &me(target_ms), 2_000),
                DriftAction::NoAction
            );
        }
        other => panic!("unexpected: {other:?}"),
    }
}

#[test]
fn positions_out_of_range_are_recognised() {
    let far = ReferencePeer {
        media_pos_ms: u64::MAX,
        received_at_ms: 0,
        paused: false,
        one_way_ms: 1,
        speed_centi: 100,
    };
    let me = LocalPlayback {
        media_pos_ms: 0,
        paused: false,
    };
    assert!(!drift_computable(&far, &me, 0));
    let paused = ReferencePeer { paused: true, ..far };
    assert!(drift_computable(&paused, &me, 0));
    let mut r = room_with_peers(&[2]);
    let _ = r.apply(Input::MpvStateUpdate {
        media_pos_ms: 0,
        paused: false,
        speed_centi: 100,
    });
    let _ = receive(&mut r, 2, heartbeat(2, u64::MAX, true), 1);
    assert!(!r.can_apply(&Input::Tick { now_ms: 10 }));
    assert!(r.can_apply(&Input::Tick { now_ms: 50_000 }));
    assert!(r.can_apply(&Input::LocalReady {
        ready: true,
        now_ms: 0
    }));
}

#[test]
fn drift_is_shown_only_where_it_can_be_compared() {
    let ours = |pos, paused| PlaybackState {
        media_pos_ms: pos,
        paused,
        speed_centi: 100,
    };
    assert_eq!(measure_drift(&ours(1_500, false), 1_000, false), Some(500));
    assert_eq!(measure_drift(&ours(1_000, true), 1_500, true), Some(-500));
    assert_eq!(measure_drift(&ours(1_000, true), 1_500, false), None);
    assert_eq!(measure_drift(&ours(u64::MAX, false), 0, false), None);
    assert_eq!(
        measure_drift(&ours(0, false), 1 << 63, false),
        Some(i64::MIN)
    );
}

#[test]
fn the_snapshot_lists_peers_in_ascending_order() {
    let mut r = room_with_peers(&[5, 2, 9]);
    let _ = receive(&mut r, 5, heartbeat(5, 1_000, true), 10);
    let s = r.snapshot();
    let nodes: Vec<_> = s.peers.iter().map(|p| p.node).collect();
    assert_eq!(nodes, vec![n(2), n(5), n(9)]);
    assert!(s.peers[1].ready);
    // We are paused, the peer is not.
    assert_eq!(s.peers[1].drift_ms, None);
    let listed: Vec<_> = r.peers().into_iter().map(|(node, _)| *node).collect();
    assert_eq!(listed, nodes);
}

#[test]
fn media_comparison_is_symmetric() {
    let a = MediaId {
        filename_lower: "a".into(),
        size_bytes: 1,
        duration_s: 1,
    };
    let b = MediaId {
        size_bytes: 2,
        ..a.clone()
    };
    assert_eq!(match_media(&a, &b), MatchResult::SameNameDifferentFile);
    assert_eq!(match_media(&a, &b), match_media(&b, &a));
}

#[test]
fn frames_have_their_wire_form() {
    let frame = Frame::Control(event(7, 300, 1, ControlAction::SetSpeed { speed_centi: 95 }));
    let mut expected = vec![0u8];
    expected.extend([7; 32]);
    expected.extend([0xac, 0x02, 0x01, 0x03, 0x5f]);
    assert_eq!(frame.encode(), expected);

    let frame = Frame::Heartbeat(StateHeartbeat {
        origin: n(1),
        origin_ts_ms: u64::MAX,
        media_pos_ms: 0,
        paused: true,
        speed_centi: 100,
        ready: false,
        media_id: Some(MediaId {
            filename_lower: "é".into(),
            size_bytes: 128,
            duration_s: 1,
        }),
    });
    let mut expected = vec![1u8];
    expected.extend([1; 32]);
    expected.extend([0xff; 9]);
    expected.extend([0x01, 0x00, 0x01, 0x64, 0x00, 0x01, 0x02, 0xc3, 0xa9, 0x80, 0x01, 0x01]);
    assert_eq!(frame.encode(), expected);

    let frame = Frame::Presence(PresenceEvent::PeerList {
        peers: vec![(n(2), "b".into(), vec![9, 8])],
    });
    let mut expected = vec![2u8, 4, 1];
    expected.extend([2; 32]);
    expected.extend([1, b'b', 2, 9, 8]);
    assert_eq!(frame.encode(), expected);
}

#[test]
fn bytes_after_a_frame_are_ignored_and_missing_ones_are_not() {
    let frame = Frame::Chat(ChatMessage {
        origin: n(3),
        origin_ts_ms: 5,
        text: "hello".into(),
    });
    let mut bytes = frame.encode();
    for cut in 0..bytes.len() {
        assert!(Frame::decode(&bytes[..cut]).is_err(), "cut at {cut}");
    }
    bytes.extend([1, 2, 3]);
    assert_eq!(Frame::decode(&bytes).unwrap(), frame);
}

#[test]
fn malformed_fields_are_refused() {
    // An unknown variant of each enum.
    assert!(Frame::decode(&[4]).is_err());
    let mut control = vec![0u8];
    control.extend([7; 32]);
    control.extend([1, 1, 5, 0]);
    assert!(Frame::decode(&control).is_err());
    let mut presence = vec![2u8, 6];
    presence.extend([7; 32]);
    assert!(Frame::decode(&presence).is_err());
    // A flag that is neither 0 nor 1.
    let mut ready = vec![2u8, 2];
    ready.extend([7; 32]);
    ready.push(2);
    assert!(Frame::decode(&ready).is_err());
    // A speed that does not fit in 16 bits.
    let mut speed = vec![0u8];
    speed.extend([7; 32]);
    speed.extend([1, 1, 3, 0xff, 0xff, 0x04]);
    assert!(Frame::decode(&speed).is_err());
    // Text that is not UTF-8.
    let mut chat = vec![3u8];
    chat.extend([7; 32]);
    chat.extend([0, 1, 0xff]);
    assert!(Frame::decode(&chat).is_err());
    // A roster that promises more entries than there are.
    assert!(Frame::decode(&[2, 4, 0xff, 0xff, 0xff, 0xff, 0x0f]).is_err());
    // Padded varints are accepted.
    let mut padded = vec![0x80u8, 0x00];
    padded.extend([7; 32]);
    padded.extend([1, 1, 0, 9]);
    assert_eq!(
        Frame::decode(&padded).unwrap(),
        Frame::Control(event(7, 1, 1, ControlAction::Play { media_pos_ms: 9 }))
    );
}

#[test]
fn every_control_event_without_a_file_is_compact() {
    for action in [
        ControlAction::Play {
            media_pos_ms: u64::MAX,
        },
        ControlAction::Seek {
            media_pos_ms: u64::MAX,
        },
        ControlAction::SetSpeed {
            speed_centi: u16::MAX,
        },
    ] {
        let frame = Frame::Control(event(255, u64::MAX, u64::MAX, action));
        assert!(frame.encode().len() <= 64);
    }
}

#[test]
fn two_peers_that_pause_at_the_same_moment_agree() {
    let room = |own: u8, other: u8| {
        let mut r = RoomState::new(n(own), format!("p{own}"));
        let _ = r.apply(Input::PeerConnected {
            node: n(other),
            nickname: format!("p{other}"),
            now_ms: 0,
        });
        r
    };
    let act = |r: &mut RoomState, pos: u64, now_ms: u64| {
        let outs = r.apply(Input::LocalControl {
            action: ControlAction::Pause { media_pos_ms: pos },
            now_ms,
        });
        match outs.into_iter().next() {
            Some(Output::Broadcast(frame)) => frame,
            other => panic!("expected a broadcast, got {other:?}"),
        }
    };
    let mut a = room(1, 2);
    let mut b = room(2, 1);
    let from_a = act(&mut a, 700, 10_000);
    let from_b = act(&mut b, 900, 9_900);
    let _ = receive(&mut a, 2, from_b, 10_050);
    let _ = receive(&mut b, 1, from_a, 10_050);
    assert_eq!(a.local_playback(), b.local_playback());
    assert_eq!(a.local_playback().media_pos_ms, 900);
}

#[test]
fn a_copy_of_a_snapshot_says_the_same() {
    let snap = room_with_peers(&[3, 2]).snapshot();
    let copy = snap.clone();
    assert_eq!(copy.peers.len(), 2);
    assert_eq!(copy.peers[0].nickname, snap.peers[0].nickname);
    assert_eq!(copy.local.node, snap.local.node);
}

#[test]
fn an_event_that_loses_changes_only_the_number() {
    let mut r = room_with_peers(&[2, 3]);
    let _ = receive(&mut r, 2, Frame::Control(pause(2, 1_000, 1, 10)), 1_500);
    let before = r.local_playback();
    let outs = receive(&mut r, 3, Frame::Control(pause(3, 1_400, 7, 20)), 1_510);
    assert_eq!(
        outs,
        vec![Output::Notify(Notice::ConflictDiscarded { from: n(3), seq: 7 })]
    );
    assert_eq!(r.local_playback(), before);
    assert_eq!(r.peer(&n(3)).unwrap().last_applied_seq, Some(7));
    assert_eq!(r.peer(&n(3)).unwrap().nickname, "p3");
}

#[test]
fn a_heartbeat_from_before_a_seek_corrects_nothing() {
    let mut r = RoomState::new(n(9), "me".into());
    let _ = r.apply(Input::PeerConnected {
        node: n(2),
        nickname: "p2".into(),
        now_ms: 0,
    });
    let _ = r.apply(Input::MpvStateUpdate {
        media_pos_ms: 0,
        paused: false,
        speed_centi: 100,
    });
    let _ = receive(&mut r, 2, heartbeat(2, 90_000, true), 1_000);
    let _ = r.apply(Input::LocalControl {
        action: ControlAction::Seek { media_pos_ms: 5 },
        now_ms: 1_000,
    });
    let outs = r.apply(Input::Tick { now_ms: 3_500 });
    assert!(!outs.iter().any(|o| matches!(o, Output::Mpv(_))));
    let _ = receive(&mut r, 2, heartbeat(2, 90_000, true), 3_600);
    let outs = r.apply(Input::Tick { now_ms: 3_600 });
    assert!(outs.contains(&Output::Mpv(MpvCommand::Seek {
        media_pos_ms: 90_000
    })));
}

#[test]
fn a_peer_on_a_roster_keeps_what_is_known_of_it() {
    let mut r = room_with_peers(&[2]);
    let _ = receive(&mut r, 2, heartbeat(2, 70, true), 40);
    let _ = receive(&mut r, 2, Frame::Control(pause(2, 50, 4, 70)), 50);
    let roster = Frame::Presence(PresenceEvent::PeerList {
        peers: vec![
            (n(1), "not me".into(), Vec::new()),
            (n(2), "zoe".into(), Vec::new()),
            (n(5), "new".into(), Vec::new()),
        ],
    });
    for _ in 0..2 {
        assert!(receive(&mut r, 2, roster.clone(), 60).is_empty());
        assert_eq!(r.peer_count(), 2);
        let p = r.peer(&n(2)).unwrap();
        assert_eq!(p.nickname, "zoe");
        assert_eq!(p.last_applied_seq, Some(4));
        assert_eq!(p.last_heartbeat_received_at_ms, 40);
        assert!(p.last_heartbeat.is_some());
        assert_eq!(r.ready_gate().get(&n(2)), Some(true));
        assert_eq!(r.ready_gate().get(&n(5)), Some(false));
    }
}

#[test]
fn a_roster_for_a_joiner_names_us_once() {
    let mut r = room_with_peers(&[3, 2]);
    let outs = r.apply(Input::PeerConnected {
        node: n(4),
        nickname: "p4".into(),
        now_ms: 0,
    });
    let Output::SendTo {
        frame: Frame::Presence(PresenceEvent::PeerList { peers }),
        ..
    } = &outs[0]
    else {
        panic!("expected a roster, got {outs:?}");
    };
    let nodes: Vec<NodeId> = peers.iter().map(|p| p.0).collect();
    assert_eq!(nodes, vec![n(1), n(2), n(3)]);
}
