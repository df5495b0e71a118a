//! Several rooms that exchange frames over links with a fixed delay.

use std::collections::{BTreeMap, VecDeque};

use syncmesh::node_id::NodeId;
use syncmesh::protocol::{ControlAction, Frame};
use syncmesh::ready::ReadyState;
use syncmesh::state::{Input, MpvCommand, Output, RoomState};

struct Pending {
    deliver_at: u64,
    from: NodeId,
    to: NodeId,
    frame: Frame,
    rtt_sample_ms: Option<u32>,
}

struct Mesh {
    nodes: BTreeMap<NodeId, RoomState>,
    link_delay_ms: u64,
    queue: VecDeque<Pending>,
    now_ms: u64,
}

impl Mesh {
    fn new(ids: &[NodeId], link_delay_ms: u64) -> Self {
        let mut nodes = BTreeMap::new();
        for id in ids {
            nodes.insert(*id, RoomState::new(*id, id.abbreviated()));
        }
        for id in ids {
            for other in ids {
                if id == other {
                    continue;
                }
                if let Some(room) = nodes.get_mut(id) {
                    room.apply(Input::PeerConnected {
                        node: *other,
                        nickname: other.abbreviated(),
                        now_ms: 0,
                    });
                }
            }
        }
        Self {
            nodes,
            link_delay_ms,
            queue: VecDeque::new(),
            now_ms: 0,
        }
    }

    fn dispatch(&mut self, emitter: NodeId, outputs: Vec<Output>) {
        for out in outputs {
            match out {
                Output::Broadcast(frame) => {
                    for peer in self.nodes.keys().copied().collect::<Vec<_>>() {
                        if peer == emitter {
                            continue;
                        }
                        self.queue.push_back(Pending {
                            deliver_at: self.now_ms + self.link_delay_ms,
                            from: emitter,
                            to: peer,
                            frame: frame.clone(),
                            rtt_sample_ms: Some(u32::try_from(self.link_delay_ms * 2).unwrap_or(0)),
                        });
                    }
                }
                Output::SendTo { to, frame } => {
                    self.queue.push_back(Pending {
                        deliver_at: self.now_ms + self.link_delay_ms,
                        from: emitter,
                        to,
                        frame,
                        rtt_sample_ms: Some(u32::try_from(self.link_delay_ms * 2).unwrap_or(0)),
                    });
                }
                Output::Mpv(_) | Output::Notify(_) => {}
            }
        }
    }

    fn flush(&mut self) -> Vec<(NodeId, MpvCommand)> {
        let mut applied_mpv = Vec::new();
        loop {
            let next_idx = self.queue.iter().position(|p| p.deliver_at <= self.now_ms);
            let Some(idx) = next_idx else { break };
            let pending = self.queue.remove(idx).expect("index came from position()");
            let received_at = self.now_ms;
            let outputs = self
                .nodes
                .get_mut(&pending.to)
                .expect("destination exists")
                .apply(Input::FrameReceived {
                    from: pending.from,
                    frame: pending.frame,
                    received_at_ms: received_at,
                    rtt_sample_ms: pending.rtt_sample_ms,
                });
            for out in &outputs {
                if let Output::Mpv(cmd) = out {
                    applied_mpv.push((pending.to, *cmd));
                }
            }
            self.dispatch(pending.to, outputs);
        }
        applied_mpv
    }

    fn tick_all(&mut self) -> Vec<(NodeId, MpvCommand)> {
        let ids: Vec<NodeId> = self.nodes.keys().copied().collect();
        let mut applied = Vec::new();
        for id in ids {
            let outs = self
                .nodes
                .get_mut(&id)
                .expect("node exists")
                .apply(Input::Tick {
                    now_ms: self.now_ms,
                });
            for out in &outs {
                if let Output::Mpv(cmd) = out {
                    applied.push((id, *cmd));
                }
            }
            self.dispatch(id, outs);
        }
        applied
    }

    fn advance_to(&mut self, now_ms: u64) -> Vec<(NodeId, MpvCommand)> {
        assert!(now_ms >= self.now_ms, "time must move forward");
        self.now_ms = now_ms;
        self.flush()
    }

    fn local_control(&mut self, node: NodeId, action: ControlAction) -> Vec<(NodeId, MpvCommand)> {
        let outs = self
            .nodes
            .get_mut(&node)
            .expect("node exists")
            .apply(Input::LocalControl {
                action,
                now_ms: self.now_ms,
            });
        let mut applied: Vec<(NodeId, MpvCommand)> = outs
            .iter()
            .filter_map(|o| match o {
                Output::Mpv(cmd) => Some((node, *cmd)),
                _ => None,
            })
            .collect();
        self.dispatch(node, outs);
        applied.extend(self.flush());
        applied
    }

    fn local_ready(&mut self, node: NodeId, ready: bool) {
        let outs = self
            .nodes
            .get_mut(&node)
            .expect("node exists")
            .apply(Input::LocalReady {
                ready,
                now_ms: self.now_ms,
            });
        self.dispatch(node, outs);
        let _ = self.flush();
    }

    fn mpv_state(&mut self, node: NodeId, pos_ms: u64, paused: bool) {
        let outs = self
            .nodes
            .get_mut(&node)
            .expect("node exists")
            .apply(Input::MpvStateUpdate {
                media_pos_ms: pos_ms,
                paused,
                speed_centi: 100,
            });
        self.dispatch(node, outs);
    }
}

fn n(b: u8) -> NodeId {
    NodeId::from_bytes([b; 32])
}

#[test]
fn three_peer_pause_propagates_to_everyone() {
    let ids = [n(1), n(2), n(3)];
    let mut mesh = Mesh::new(&ids, 10); // 10 ms link delay
    mesh.advance_to(100);

    for id in ids {
        mesh.mpv_state(id, 0, false);
    }

    let applied = mesh.local_control(
        n(1),
        ControlAction::Pause {
            media_pos_ms: 1_000,
        },
    );

    let after_deliver = mesh.advance_to(200);
    let combined: Vec<_> = applied.into_iter().chain(after_deliver).collect();

    for id in [n(2), n(3)] {
        assert!(
            combined
                .iter()
                .any(|(n_, c)| *n_ == id && matches!(c, MpvCommand::Pause(true))),
            "peer {id:?} did not receive Pause(true). Got: {combined:?}"
        );
        assert!(
            combined.iter().any(|(n_, c)| *n_ == id
                && matches!(
                    c,
                    MpvCommand::Seek {
                        media_pos_ms: 1_000
                    }
                )),
            "peer {id:?} did not receive Seek(1000). Got: {combined:?}"
        );
    }
}

#[test]
fn heartbeat_delivery_lets_a_lagging_peer_catch_up_via_drift() {
    let ids = [n(1), n(2)];
    let mut mesh = Mesh::new(&ids, 5);
    mesh.advance_to(1_000);

    mesh.mpv_state(n(1), 10_000, false);
    mesh.mpv_state(n(2), 9_500, false);

    let _ = mesh.tick_all();
    let _ = mesh.advance_to(1_010);
    let tick_mpv = mesh.tick_all();

    let speedups: Vec<_> = tick_mpv
        .iter()
        .filter(|(id, cmd)| {
            *id == n(2) && matches!(cmd, MpvCommand::SetSpeed { speed_centi } if *speed_centi > 100)
        })
        .collect();
    assert!(
        !speedups.is_empty(),
        "peer 2 did not speed up in response to peer 1's lead. All mpv: {tick_mpv:?}"
    );
}

#[test]
fn ready_gate_converges_across_mesh_after_unanimous_ready() {
    let ids = [n(1), n(2), n(3)];
    let mut mesh = Mesh::new(&ids, 5);
    mesh.advance_to(0);

    for id in ids {
        let r = mesh.nodes.get(&id).unwrap();
        assert_eq!(
            r.ready_state(),
            ReadyState::Pending,
            "{id:?} should be Pending before anyone is ready"
        );
    }

    for id in ids {
        mesh.local_ready(id, true);
        mesh.advance_to(mesh.now_ms + 10);
    }

    mesh.advance_to(mesh.now_ms + 100);
    mesh.tick_all();
    mesh.advance_to(mesh.now_ms + 100);

    for id in ids {
        let r = mesh.nodes.get(&id).unwrap();
        assert_eq!(
            r.ready_state(),
            ReadyState::AllReady,
            "{id:?} should be AllReady after all peers signalled ready"
        );
    }
}

#[test]
fn simultaneous_pause_from_two_peers_converges_deterministically() {
    let ids = [n(1), n(2), n(3)];
    let mut mesh = Mesh::new(&ids, 5);
    mesh.advance_to(1_000);

    for id in ids {
        mesh.mpv_state(id, 5_000, false);
    }

    let outs1 = mesh
        .nodes
        .get_mut(&n(1))
        .unwrap()
        .apply(Input::LocalControl {
            action: ControlAction::Pause {
                media_pos_ms: 5_000,
            },
            now_ms: 1_000,
        });
    let outs2 = mesh
        .nodes
        .get_mut(&n(2))
        .unwrap()
        .apply(Input::LocalControl {
            action: ControlAction::Pause {
                media_pos_ms: 5_100,
            },
            now_ms: 1_000,
        });
    mesh.dispatch(n(1), outs1);
    mesh.dispatch(n(2), outs2);

    mesh.advance_to(2_000);
    mesh.flush();

    let p3 = mesh.nodes.get(&n(3)).unwrap();
    assert!(p3.local_playback().paused);
    assert_eq!(
        p3.local_playback().media_pos_ms,
        5_000,
        "peer 3 should converge to the canonical pause position"
    );
}
