//! The event loop without its input and output.

use iroh::EndpointAddr;
use syncmesh::addrs::{encode_addr, endpoint_id_to_node};
use syncmesh::double::Double;
use syncmesh::identity;
use syncmesh::node_id::NodeId;
use syncmesh::player::event::MpvEvent;
use syncmesh::protocol::{ControlAction, ControlEvent, Frame, PresenceEvent, StateHeartbeat};
use syncmesh::session::{Effect, Session};
use syncmesh::state::{MpvCommand, Notice, RoomState};
use syncmesh::ui::UiEvent;

fn node(b: u8) -> NodeId {
    NodeId::from_bytes([b; 32])
}

fn some_addr() -> EndpointAddr {
    EndpointAddr::new(identity::generate().public())
        .with_ip_addr("127.0.0.1:4433".parse().unwrap())
}

fn secs(x: f64) -> Double {
    Double { bits: x.to_bits() }
}

/// A session of node 1 whose own address is also returned.
fn session() -> (Session, EndpointAddr) {
    let own = some_addr();
    let room = RoomState::new(node(1), "me".into());
    (Session::new(room, &own), own)
}

fn load_media(s: &mut Session, now_ms: u64) -> Vec<Effect> {
    let mut effects = s.on_mpv(MpvEvent::Filename("Movie.MKV".into()), now_ms);
    effects.extend(s.on_mpv(MpvEvent::Duration(secs(3_600.4)), now_ms));
    effects.extend(s.on_mpv(MpvEvent::FileSize(1_000), now_ms));
    effects
}

fn seek_event(seq: u64, media_pos_ms: u64, ts: u64) -> Frame {
    Frame::Control(ControlEvent {
        origin: node(2),
        origin_ts_ms: ts,
        seq,
        action: ControlAction::Seek { media_pos_ms },
    })
}

#[test]
fn a_new_link_is_greeted_with_our_address_and_the_roster() {
    let (mut s, own) = session();
    let effects = s.on_peer_connected(node(2), None, &own, 5).unwrap();
    let own_bytes = encode_addr(&own).unwrap();
    assert_eq!(
        effects,
        vec![
            Effect::SendTo {
                to: node(2),
                frame: Frame::Presence(PresenceEvent::AddrAnnounce {
                    node: node(1),
                    addr_bytes: own_bytes.clone()
                })
            },
            Effect::SendTo {
                to: node(2),
                frame: Frame::Presence(PresenceEvent::PeerList {
                    peers: vec![(node(1), "me".into(), own_bytes)]
                })
            },
            Effect::Broadcast(Frame::Presence(PresenceEvent::Join {
                node: node(2),
                nickname: "02020202…".into()
            })),
        ]
    );
    assert!(s.on_peer_connected(node(2), None, &own, 6).is_none());
}

#[test]
fn rosters_carry_the_addresses_that_we_know() {
    let (mut s, own) = session();
    let addr = vec![1, 2, 3];
    assert!(s
        .on_peer_connected(node(2), Some(addr.clone()), &own, 0)
        .is_some());
    let effects = s.on_peer_connected(node(3), None, &own, 0).unwrap();
    let rosters: Vec<_> = effects
        .iter()
        .filter_map(|e| match e {
            Effect::SendTo {
                frame: Frame::Presence(PresenceEvent::PeerList { peers }),
                ..
            } => Some(peers.clone()),
            _ => None,
        })
        .collect();
    assert_eq!(rosters.len(), 1);
    assert_eq!(rosters[0][1], (node(2), "02020202…".to_string(), addr));
}

#[test]
fn peers_on_a_roster_are_dialed_once() {
    let (mut s, own) = session();
    let _ = s.on_peer_connected(node(2), None, &own, 0);
    let third = some_addr();
    let third_node = endpoint_id_to_node(third.id);
    let bytes = encode_addr(&third).unwrap();
    let roster = || {
        Frame::Presence(PresenceEvent::PeerList {
            peers: vec![
                (node(1), "me".into(), bytes.clone()),
                (node(2), "b".into(), bytes.clone()),
                (third_node, "c".into(), bytes.clone()),
                (node(8), "no address".into(), vec![]),
                (node(9), "bad address".into(), vec![0xff; 4]),
            ],
        })
    };
    let dial = Effect::Dial {
        node: third_node,
        addr_bytes: bytes.clone(),
    };
    assert_eq!(s.on_peer_frame(node(2), roster(), None, 10), vec![dial]);
    // Being dialed already.
    assert_eq!(s.on_peer_frame(node(2), roster(), None, 11), vec![]);
    // A failed dial may be tried again.
    s.on_dial_failed(third_node);
    let again = s.on_peer_frame(node(2), roster(), None, 12);
    assert!(matches!(again.as_slice(), [Effect::Dial { .. }]));
    // Once connected, not any more.
    assert!(s.on_peer_connected(third_node, None, &own, 13).is_some());
    assert_eq!(s.on_peer_frame(node(2), roster(), None, 14), vec![]);
    assert_eq!(s.room().peer_count(), 4);
}

#[test]
fn announced_addresses_fill_later_rosters() {
    let (mut s, own) = session();
    let _ = s.on_peer_connected(node(2), None, &own, 0);
    let announce = |node, bytes: &[u8]| {
        Frame::Presence(PresenceEvent::AddrAnnounce {
            node,
            addr_bytes: bytes.to_vec(),
        })
    };
    let _ = s.on_peer_frame(node(2), announce(node(2), &[7, 7]), None, 1);
    let _ = s.on_peer_frame(node(2), announce(node(1), &[6, 6]), None, 1);
    let filled = s.fill_peer_list_addrs(Frame::Presence(PresenceEvent::PeerList {
        peers: vec![
            (node(1), "me".into(), vec![]),
            (node(2), "b".into(), vec![]),
            (node(3), "c".into(), vec![]),
            (node(2), "b".into(), vec![1]),
        ],
    }));
    assert_eq!(
        filled,
        Frame::Presence(PresenceEvent::PeerList {
            peers: vec![
                (node(1), "me".into(), encode_addr(&own).unwrap()),
                (node(2), "b".into(), vec![7, 7]),
                (node(3), "c".into(), vec![]),
                (node(2), "b".into(), vec![1]),
            ]
        })
    );
}

#[test]
fn a_recorded_address_is_used() {
    let (mut s, _) = session();
    s.record_addr(node(5), vec![5]);
    s.record_addr(node(5), vec![]);
    let filled = s.fill_peer_list_addrs(Frame::Presence(PresenceEvent::PeerList {
        peers: vec![(node(5), "e".into(), vec![])],
    }));
    assert!(matches!(
        filled,
        Frame::Presence(PresenceEvent::PeerList { peers }) if peers[0].2 == vec![5]
    ));
}

#[test]
fn a_seek_of_a_peer_is_not_sent_back() {
    let (mut s, own) = session();
    let _ = s.on_peer_connected(node(2), None, &own, 0);
    let effects = s.on_peer_frame(node(2), seek_event(1, 600_000, 1_000), Some(30), 1_010);
    assert_eq!(
        effects,
        vec![Effect::Mpv(MpvCommand::Seek {
            media_pos_ms: 600_000
        })]
    );
    assert!(s.on_mpv(MpvEvent::Seeking, 1_100).is_empty());
    assert!(s.on_mpv(MpvEvent::PlaybackRestart, 1_200).is_empty());
    assert!(s.on_mpv(MpvEvent::TimePos(secs(540.25)), 1_210).is_empty());
    assert_eq!(s.room().local_playback().media_pos_ms, 540_250);
    assert_eq!(
        s.room().peer(&node(2)).unwrap().rtt.estimate_ms(),
        Some(30)
    );
}

#[test]
fn a_seek_of_the_user_is_broadcast() {
    let (mut s, _) = session();
    let _ = s.on_mpv(MpvEvent::Seeking, 10);
    let _ = s.on_mpv(MpvEvent::PlaybackRestart, 20);
    let effects = s.on_mpv(MpvEvent::TimePos(secs(30.0)), 30);
    assert!(matches!(
        effects.as_slice(),
        [Effect::Broadcast(Frame::Control(ControlEvent {
            seq: 1,
            action: ControlAction::Seek {
                media_pos_ms: 30_000
            },
            ..
        }))]
    ));
    // The next position is playback progress.
    assert!(s.on_mpv(MpvEvent::TimePos(secs(31.0)), 40).is_empty());
    // A restart without a seek changes nothing.
    let _ = s.on_mpv(MpvEvent::PlaybackRestart, 50);
    assert!(s.on_mpv(MpvEvent::TimePos(secs(90.0)), 60).is_empty());
}

#[test]
fn the_ui_pauses_the_mesh_and_the_local_player() {
    let (mut s, _) = session();
    let _ = s.on_mpv(MpvEvent::TimePos(secs(2.0)), 0);
    let effects = s.on_ui_event(UiEvent::TogglePauseRelay, 100);
    // The room starts paused, so this plays.
    assert!(matches!(
        effects.as_slice(),
        [
            Effect::Mpv(MpvCommand::Pause(false)),
            Effect::Broadcast(Frame::Control(ControlEvent {
                action: ControlAction::Play {
                    media_pos_ms: 2_000
                },
                ..
            }))
        ]
    ));
    // mpv's echo is swallowed; the same edge again is the user's doing.
    assert!(s.on_mpv(MpvEvent::Pause(false), 200).is_empty());
    assert_eq!(s.on_mpv(MpvEvent::Pause(false), 300).len(), 1);
    let effects = s.on_ui_event(UiEvent::TogglePauseRelay, 400);
    assert_eq!(effects[0], Effect::Mpv(MpvCommand::Pause(true)));
}

#[test]
fn speed_edges_are_told_apart_from_echoes() {
    let (mut s, own) = session();
    let _ = s.on_peer_connected(node(2), None, &own, 0);
    let frame = Frame::Control(ControlEvent {
        origin: node(2),
        origin_ts_ms: 5,
        seq: 1,
        action: ControlAction::SetSpeed { speed_centi: 125 },
    });
    assert_eq!(
        s.on_peer_frame(node(2), frame, None, 10),
        vec![Effect::Mpv(MpvCommand::SetSpeed { speed_centi: 125 })]
    );
    assert!(s.on_mpv(MpvEvent::Speed(secs(1.25)), 20).is_empty());
    let effects = s.on_mpv(MpvEvent::Speed(secs(1.5)), 30);
    assert!(matches!(
        effects.as_slice(),
        [Effect::Broadcast(Frame::Control(ControlEvent {
            action: ControlAction::SetSpeed { speed_centi: 150 },
            ..
        }))]
    ));
}

#[test]
fn a_loaded_file_is_announced_once() {
    let (mut s, _) = session();
    let effects = load_media(&mut s, 7);
    assert_eq!(effects.len(), 1);
    match &effects[0] {
        Effect::Broadcast(Frame::Control(ControlEvent {
            action: ControlAction::MediaChanged { id },
            ..
        })) => {
            assert_eq!(id.filename_lower, "movie.mkv");
            assert_eq!(id.duration_s, 3_600);
            assert_eq!(id.size_bytes, 1_000);
        }
        other => panic!("unexpected: {other:?}"),
    }
    assert!(load_media(&mut s, 8).is_empty());
    assert!(s.on_mpv(MpvEvent::EofReached, 9).is_empty());
    assert!(s.on_mpv(MpvEvent::Shutdown, 9).is_empty());
}

#[test]
fn a_joiner_is_told_where_to_seek() {
    let (mut s, own) = session();
    let _ = load_media(&mut s, 1);
    let _ = s.on_mpv(MpvEvent::TimePos(secs(12.0)), 2);
    let effects = s.on_peer_connected(node(2), None, &own, 3).unwrap();
    assert!(effects.iter().any(|e| matches!(
        e,
        Effect::SendTo {
            frame: Frame::Control(ControlEvent {
                seq: 2,
                action: ControlAction::Seek {
                    media_pos_ms: 12_000
                },
                ..
            }),
            ..
        }
    )));
}

#[test]
fn heartbeats_travel_as_datagrams() {
    let (mut s, _) = session();
    assert!(s.can_tick(1_000));
    let effects = s.on_tick(1_000);
    assert!(matches!(
        effects.as_slice(),
        [Effect::Datagram(Frame::Heartbeat(StateHeartbeat {
            origin_ts_ms: 1_000,
            ..
        }))]
    ));
}

#[test]
fn a_lost_link_is_announced_once() {
    let (mut s, own) = session();
    let _ = s.on_peer_connected(node(2), None, &own, 0);
    assert_eq!(
        s.on_peer_disconnected(node(2), 1),
        vec![Effect::Broadcast(Frame::Presence(PresenceEvent::Leave {
            node: node(2)
        }))]
    );
    assert!(s.on_peer_disconnected(node(2), 2).is_empty());
    assert_eq!(s.room().peer_count(), 0);
}

#[test]
fn wishes_of_the_user_reach_the_room() {
    let (mut s, _) = session();
    assert!(s.has_numbers_left());
    let effects = s.on_ui_event(UiEvent::ToggleReady, 1);
    assert_eq!(
        effects,
        vec![Effect::Broadcast(Frame::Presence(PresenceEvent::Ready {
            node: node(1),
            ready: true
        }))]
    );
    assert!(s.on_ui_event(UiEvent::SubmitChat(String::new()), 2).is_empty());
    assert_eq!(s.on_ui_event(UiEvent::SubmitChat("hi".into()), 3).len(), 1);
    assert_eq!(s.room().chat().len(), 1);
    assert!(s.on_ui_event(UiEvent::ToggleOverride, 4).is_empty());
    assert!(s.room().ready_gate().is_override_enabled());
    assert!(s.on_ui_event(UiEvent::ToggleOverride, 5).is_empty());
    assert!(!s.room().ready_gate().is_override_enabled());
    assert!(s.on_ui_event(UiEvent::CopyTicket, 6).is_empty());
    assert!(s.on_ui_event(UiEvent::Quit, 7).is_empty());
}

#[test]
fn notices_are_passed_on() {
    let (mut s, own) = session();
    let _ = s.on_peer_connected(node(2), None, &own, 0);
    let _ = s.on_peer_frame(node(2), seek_event(4, 1, 1), None, 1);
    assert_eq!(
        s.on_peer_frame(node(2), seek_event(4, 1, 1), None, 2),
        vec![Effect::Notify(Notice::DuplicateDropped {
            peer: node(2),
            seq: 4
        })]
    );
}

#[test]
fn the_report_of_a_pause_from_the_ui_is_not_broadcast() {
    let (mut s, _) = session();
    let sent = s.on_ui_event(UiEvent::TogglePauseRelay, 1_000);
    assert!(sent.contains(&Effect::Mpv(MpvCommand::Pause(false))));
    assert!(s.on_mpv(MpvEvent::Pause(false), 3_999).is_empty());
    assert!(!s.room().local_playback().paused);
    // A second report counts as the user's.
    let again = s.on_mpv(MpvEvent::Pause(false), 3_999);
    assert!(matches!(
        again.as_slice(),
        [Effect::Broadcast(Frame::Control(ControlEvent {
            action: ControlAction::Play { .. },
            ..
        }))]
    ));
}

#[test]
fn a_drift_seek_that_lands_near_its_target_is_not_broadcast() {
    let own = some_addr();
    let room = RoomState::new(node(9), "me".into());
    let mut s = Session::new(room, &own);
    let _ = s.on_peer_connected(node(2), None, &own, 0);
    let _ = s.on_mpv(MpvEvent::Pause(false), 0);
    let _ = s.on_peer_frame(
        node(2),
        Frame::Heartbeat(StateHeartbeat {
            origin: node(2),
            origin_ts_ms: 0,
            media_pos_ms: 60_000,
            paused: false,
            speed_centi: 100,
            ready: true,
            media_id: None,
        }),
        None,
        10_000,
    );
    let effects = s.on_tick(10_000);
    assert!(effects.contains(&Effect::Mpv(MpvCommand::Seek {
        media_pos_ms: 60_000
    })));
    let _ = s.on_mpv(MpvEvent::Seeking, 10_100);
    let _ = s.on_mpv(MpvEvent::PlaybackRestart, 10_200);
    assert!(s.on_mpv(MpvEvent::TimePos(secs(59.5)), 10_200).is_empty());
    assert_eq!(s.room().local_playback().media_pos_ms, 59_500);
}

#[test]
fn everyone_readable_on_a_roster_is_dialed_and_nobody_again() {
    let (mut s, _) = session();
    let addr = encode_addr(&some_addr()).unwrap();
    let roster = Frame::Presence(PresenceEvent::PeerList {
        peers: vec![
            (node(1), "me".into(), addr.clone()),
            (node(3), "c".into(), addr.clone()),
            (node(4), "d".into(), Vec::new()),
            (node(5), "e".into(), vec![1, 2, 3]),
            (node(6), "f".into(), addr.clone()),
        ],
    });
    let dialed = s.on_peer_frame(node(2), roster.clone(), None, 1);
    assert_eq!(
        dialed,
        vec![
            Effect::Dial {
                node: node(3),
                addr_bytes: addr.clone()
            },
            Effect::Dial {
                node: node(6),
                addr_bytes: addr
            },
        ]
    );
    assert!(s.on_peer_frame(node(2), roster, None, 2).is_empty());
}
