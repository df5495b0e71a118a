//! Two peers with echo guards: a seek of one is followed by the other, and does
//! not come back.

use syncmesh::echo::EchoGuard;
use syncmesh::node_id::NodeId;
use syncmesh::protocol::{ControlAction, ControlEvent, Frame};
use syncmesh::session::{arm_echo_for_dispatch, classify_post_seek_timepos, MpvDispatchOrigin};
use syncmesh::state::{Input, Output, RoomState};

struct Peer {
    state: RoomState,
    echo: EchoGuard,
    outbox: Vec<Frame>,
}

impl Peer {
    fn new(me: NodeId, name: &str) -> Self {
        Self {
            state: RoomState::new(me, name.into()),
            echo: EchoGuard::new(),
            outbox: Vec::new(),
        }
    }

    fn add_peer(&mut self, peer: NodeId, nick: &str) {
        let outs = self.state.apply(Input::PeerConnected {
            node: peer,
            nickname: nick.into(),
            now_ms: 0,
        });
        self.collect(outs, MpvDispatchOrigin::Local);
    }

    fn step(&mut self, input: Input, origin: MpvDispatchOrigin, now_ms: u64) {
        let outs = self.state.apply(input);
        self.collect_at(outs, origin, now_ms);
    }

    fn collect(&mut self, outs: Vec<Output>, origin: MpvDispatchOrigin) {
        self.collect_at(outs, origin, 0);
    }

    fn collect_at(&mut self, outs: Vec<Output>, origin: MpvDispatchOrigin, now_ms: u64) {
        for out in outs {
            match out {
                Output::Broadcast(f) | Output::SendTo { frame: f, .. } => self.outbox.push(f),
                Output::Mpv(cmd) => {
                    arm_echo_for_dispatch(&mut self.echo, cmd, origin, now_ms);
                }
                Output::Notify(_) => {}
            }
        }
    }

    fn drain_seek_broadcasts(&mut self) -> Vec<u64> {
        let seeks = self
            .outbox
            .iter()
            .filter_map(|f| match f {
                Frame::Control(ev) => match ev.action {
                    ControlAction::Seek { media_pos_ms } => Some(media_pos_ms),
                    _ => None,
                },
                _ => None,
            })
            .collect();
        self.outbox.clear();
        seeks
    }
}

fn node(b: u8) -> NodeId {
    NodeId::from_bytes([b; 32])
}

fn deliver(to: &mut Peer, from: NodeId, frame: Frame, now_ms: u64) {
    to.step(
        Input::FrameReceived {
            from,
            frame,
            received_at_ms: now_ms,
            rtt_sample_ms: None,
        },
        MpvDispatchOrigin::Remote,
        now_ms,
    );
}

#[test]
fn user_click_on_a_does_not_cause_b_to_re_broadcast_when_mpv_keyframe_drifts() {
    let a_id = node(1);
    let b_id = node(2);

    let mut a = Peer::new(a_id, "alice");
    let mut b = Peer::new(b_id, "bob");
    a.add_peer(b_id, "bob");
    b.add_peer(a_id, "alice");
    a.outbox.clear();
    b.outbox.clear();

    let click_ms = 600_000;
    let user_input_a = classify_post_seek_timepos(&mut a.echo, click_ms, false, 100, 1_000);
    a.step(user_input_a, MpvDispatchOrigin::Local, 1_000);

    let a_seeks = a.drain_seek_broadcasts();
    assert_eq!(
        a_seeks,
        vec![click_ms],
        "A must broadcast its user-click seek to the mesh",
    );

    let broadcast = Frame::Control(ControlEvent {
        origin: a_id,
        origin_ts_ms: 1_000,
        seq: 1,
        action: ControlAction::Seek {
            media_pos_ms: click_ms,
        },
    });
    deliver(&mut b, a_id, broadcast, 1_050);

    assert!(
        b.drain_seek_broadcasts().is_empty(),
        "B must not broadcast on the inbound frame itself",
    );

    let b_mpv_landed_at = click_ms - 1_500;
    let post_seek_input =
        classify_post_seek_timepos(&mut b.echo, b_mpv_landed_at, false, 100, 1_200);

    match &post_seek_input {
        Input::MpvStateUpdate { media_pos_ms, .. } => {
            assert_eq!(*media_pos_ms, b_mpv_landed_at);
        }
        Input::LocalControl { action, .. } => {
            panic!(
                "B treated the echo of a remote seek as a user action: {action:?}",
            );
        }
        other => panic!("unexpected classification: {other:?}"),
    }

    b.step(post_seek_input, MpvDispatchOrigin::Local, 1_200);

    let b_seeks_after_mpv_echo = b.drain_seek_broadcasts();
    assert!(
        b_seeks_after_mpv_echo.is_empty(),
        "B re-broadcast {} seek(s) in response to mpv's keyframe-snapped reply: {b_seeks_after_mpv_echo:?}",
        b_seeks_after_mpv_echo.len(),
    );
}

#[test]
fn local_user_seek_still_broadcasts_normally() {
    let me_id = node(1);
    let other_id = node(2);

    let mut me = Peer::new(me_id, "me");
    me.add_peer(other_id, "other");
    me.outbox.clear();

    let click_ms = 30_000;
    let input = classify_post_seek_timepos(&mut me.echo, click_ms, false, 100, 500);

    matches!(input, Input::LocalControl { .. })
        .then_some(())
        .expect("user-initiated seek with no echo entry must produce LocalControl");

    me.step(input, MpvDispatchOrigin::Local, 500);
    assert_eq!(me.drain_seek_broadcasts(), vec![click_ms]);
}
