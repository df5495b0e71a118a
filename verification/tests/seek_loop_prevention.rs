//! The echo of a seek that a peer asked for is swallowed wherever mpv lands.

use syncmesh::echo::EchoGuard;
use syncmesh::node_id::NodeId;
use syncmesh::protocol::{ControlAction, ControlEvent, Frame};
use syncmesh::state::{Input, MpvCommand, Output, RoomState};

fn node(b: u8) -> NodeId {
    NodeId::from_bytes([b; 32])
}

#[test]
fn remote_driven_seek_does_not_re_broadcast_when_mpv_snaps_far_off() {
    let me = node(2);
    let a = node(1);

    let mut state = RoomState::new(me, "bob".into());
    let _ = state.apply(Input::PeerConnected {
        node: a,
        nickname: "alice".into(),
        now_ms: 0,
    });

    let seek_ms_a = 600_000;
    let outs = state.apply(Input::FrameReceived {
        from: a,
        frame: Frame::Control(ControlEvent {
            origin: a,
            origin_ts_ms: 1_000,
            seq: 1,
            action: ControlAction::Seek {
                media_pos_ms: seek_ms_a,
            },
        }),
        received_at_ms: 1_010,
        rtt_sample_ms: None,
    });

    let mpv_cmd = outs.iter().find_map(|o| match o {
        Output::Mpv(cmd) => Some(*cmd),
        _ => None,
    });
    assert_eq!(
        mpv_cmd,
        Some(MpvCommand::Seek {
            media_pos_ms: seek_ms_a
        }),
        "inbound Seek must produce a matching mpv Seek command",
    );

    let mut echo = EchoGuard::new();
    let now = 1_020;
    echo.record_seek_remote(seek_ms_a, now);

    let mpv_landed_at = seek_ms_a - 1_500;
    let consumed = echo.consume_seek(mpv_landed_at, now + 200);

    assert!(
        consumed,
        "echo guard must suppress the post-PlaybackRestart TimePos for a \
         remote-driven seek even when mpv's keyframe snap drifts beyond the \
         local-origin tolerance; otherwise the bin re-broadcasts and starts \
         a 2-peer ping-pong loop",
    );
}

#[test]
fn local_user_seek_still_uses_keyframe_snap_tolerance() {
    let mut echo = EchoGuard::new();
    echo.record_seek(10_000, 0);
    assert!(!echo.consume_seek(15_000, 100));
}
