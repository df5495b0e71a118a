//! Two playing peers, one of which seeks: drift correction must not undo the
//! seek, nor make the two chase each other.

use syncmesh::node_id::NodeId;
use syncmesh::protocol::ControlAction;
use syncmesh::state::{Input, MpvCommand, Output, RoomState, SPEED_NORMAL_CENTI};

fn node(b: u8) -> NodeId {
    NodeId::from_bytes([b; 32])
}

struct SimPeer {
    state: RoomState,
    pos_ms: u64,
    speed_centi: u16,
    seeks_applied: Vec<u64>,
}

impl SimPeer {
    fn new(id: NodeId, nick: &str) -> Self {
        Self {
            state: RoomState::new(id, nick.into()),
            pos_ms: 0,
            speed_centi: SPEED_NORMAL_CENTI,
            seeks_applied: Vec::new(),
        }
    }

    fn advance(&mut self, dt_ms: u64) {
        self.pos_ms += dt_ms * u64::from(self.speed_centi) / 100;
        let _ = self.state.apply(Input::MpvStateUpdate {
            media_pos_ms: self.pos_ms,
            paused: false,
            speed_centi: self.speed_centi,
        });
    }

    fn run_mpv(&mut self, outs: &[Output]) {
        for out in outs {
            if let Output::Mpv(cmd) = out {
                match cmd {
                    MpvCommand::Seek { media_pos_ms } => {
                        self.pos_ms = *media_pos_ms;
                        self.seeks_applied.push(*media_pos_ms);
                    }
                    MpvCommand::SetSpeed { speed_centi } => self.speed_centi = *speed_centi,
                    MpvCommand::Pause(_) => {}
                }
            }
        }
        let _ = self.state.apply(Input::MpvStateUpdate {
            media_pos_ms: self.pos_ms,
            paused: false,
            speed_centi: self.speed_centi,
        });
    }
}

fn deliver(outs: &[Output], dst: &mut SimPeer, src_node: NodeId, now_ms: u64) {
    for out in outs {
        if let Output::Broadcast(frame) = out {
            let dst_outs = dst.state.apply(Input::FrameReceived {
                from: src_node,
                frame: frame.clone(),
                received_at_ms: now_ms,
                rtt_sample_ms: None,
            });
            dst.run_mpv(&dst_outs);
        }
    }
}

#[test]
fn forward_seek_while_playing_does_not_oscillate() {
    let id_a = node(1);
    let id_b = node(2);
    let mut a = SimPeer::new(id_a, "alice");
    let mut b = SimPeer::new(id_b, "bob");

    let _ = a.state.apply(Input::PeerConnected {
        node: id_b,
        nickname: "bob".into(),
        now_ms: 0,
    });
    let _ = b.state.apply(Input::PeerConnected {
        node: id_a,
        nickname: "alice".into(),
        now_ms: 0,
    });

    a.pos_ms = 60_000;
    b.pos_ms = 60_000;
    a.advance(0);
    b.advance(0);

    let mut now: u64 = 1_000;
    let step_ms: u64 = 250;

    for _ in 0..20 {
        a.advance(step_ms);
        b.advance(step_ms);
        now += step_ms;
        if now % 1_000 == 0 {
            let outs_a = a.state.apply(Input::Tick { now_ms: now });
            a.run_mpv(&outs_a);
            deliver(&outs_a, &mut b, id_a, now);
            let outs_b = b.state.apply(Input::Tick { now_ms: now });
            b.run_mpv(&outs_b);
            deliver(&outs_b, &mut a, id_b, now);
        }
    }
    assert!(
        a.seeks_applied.is_empty() && b.seeks_applied.is_empty(),
        "no corrections expected while in sync"
    );

    a.advance(step_ms);
    b.advance(step_ms);
    now += step_ms;
    a.pos_ms += 10_000;
    let seek_target = a.pos_ms;
    let outs = a.state.apply(Input::LocalControl {
        action: ControlAction::Seek {
            media_pos_ms: seek_target,
        },
        now_ms: now,
    });
    a.run_mpv(&outs);
    deliver(&outs, &mut b, id_a, now);
    assert_eq!(b.seeks_applied, vec![seek_target]);
    a.seeks_applied.clear();
    b.seeks_applied.clear();

    for _ in 0..32 {
        a.advance(step_ms);
        b.advance(step_ms);
        now += step_ms;
        if now % 1_000 == 0 {
            let outs_a = a.state.apply(Input::Tick { now_ms: now });
            a.run_mpv(&outs_a);
            deliver(&outs_a, &mut b, id_a, now);
            let outs_b = b.state.apply(Input::Tick { now_ms: now });
            b.run_mpv(&outs_b);
            deliver(&outs_b, &mut a, id_b, now);
        }
    }

    assert!(
        a.seeks_applied.is_empty(),
        "peer A must not drift-seek after its own forward seek; got {:?}",
        a.seeks_applied
    );
    assert!(
        b.seeks_applied.is_empty(),
        "peer B must not drift-seek after applying the inbound seek; got {:?}",
        b.seeks_applied
    );
    let diff = a.pos_ms.abs_diff(b.pos_ms);
    assert!(
        diff <= 500,
        "peers must remain in sync after the seek; positions {} vs {} (diff {diff} ms)",
        a.pos_ms,
        b.pos_ms
    );
    assert!(
        a.pos_ms >= seek_target,
        "the user's forward seek must not be undone; A at {} (target was {seek_target})",
        a.pos_ms
    );
}
