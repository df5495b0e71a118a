//! Commands for mpv, and what it reports.

use serde_json::Value;
use syncmesh::double::Double;
use syncmesh::json::JsonScalar;
use syncmesh::player::command::MpvCommand;
use syncmesh::player::event::{translate, MpvEvent};
use syncmesh::player::ipc::{
    classify_exit, observe_request, observed_property, quit_request, read_line, reply_outcome,
    IpcLine, MpvError, MpvExit, OBSERVED_COUNT, OBSERVED_PROPERTIES,
};
use syncmesh::player::process::{
    after_failed_connect, ipc_pipe_name, ipc_socket_name, mpv_args, SpawnOptions,
};
use syncmesh::state;

fn secs(x: f64) -> Double {
    Double { bits: x.to_bits() }
}

fn event_of(line: &str) -> Option<MpvEvent> {
    match read_line(line) {
        IpcLine::Event(ev) => Some(ev),
        _ => None,
    }
}

fn json(text: &str) -> Value {
    serde_json::from_str(text).unwrap()
}

#[test]
fn pause_true_is_translated() {
    let v = r#"{"event": "property-change", "id": 1, "name": "pause", "data": true}"#;
    assert_eq!(event_of(v), Some(MpvEvent::Pause(true)));
}

#[test]
fn pause_false_is_translated() {
    let v = r#"{"event": "property-change", "name": "pause", "data": false}"#;
    assert_eq!(event_of(v), Some(MpvEvent::Pause(false)));
}

#[test]
fn time_pos_is_translated_as_float() {
    let v = r#"{"event": "property-change", "name": "time-pos", "data": 42.5}"#;
    assert_eq!(event_of(v), Some(MpvEvent::TimePos(secs(42.5))));
}

#[test]
fn null_data_on_property_change_yields_none() {
    let v = r#"{"event": "property-change", "name": "time-pos", "data": null}"#;
    assert_eq!(event_of(v), None);
}

#[test]
fn speed_translates_to_f64() {
    let v = r#"{"event": "property-change", "name": "speed", "data": 1.05}"#;
    assert_eq!(event_of(v), Some(MpvEvent::Speed(secs(1.05))));
}

#[test]
fn filename_translates_to_string() {
    let v = r#"{"event": "property-change", "name": "filename", "data": "movie.mkv"}"#;
    assert_eq!(
        event_of(v),
        Some(MpvEvent::Filename("movie.mkv".to_string()))
    );
}

#[test]
fn duration_translates_to_f64() {
    let v = r#"{"event": "property-change", "name": "duration", "data": 3600.0}"#;
    assert_eq!(event_of(v), Some(MpvEvent::Duration(secs(3600.0))));
}

#[test]
fn file_size_translates_to_u64() {
    let v = r#"{"event": "property-change", "name": "file-size", "data": 1234567890}"#;
    assert_eq!(event_of(v), Some(MpvEvent::FileSize(1_234_567_890)));
}

#[test]
fn seeking_event_is_translated() {
    assert_eq!(
        event_of(r#"{"event": "seek"}"#),
        Some(MpvEvent::Seeking)
    );
}

#[test]
fn playback_restart_event_is_translated() {
    assert_eq!(
        event_of(r#"{"event": "playback-restart"}"#),
        Some(MpvEvent::PlaybackRestart)
    );
}

#[test]
fn end_file_eof_is_translated() {
    assert_eq!(
        event_of(r#"{"event": "end-file", "reason": "eof"}"#),
        Some(MpvEvent::EofReached)
    );
}

#[test]
fn end_file_with_other_reason_is_ignored() {
    assert_eq!(
        event_of(r#"{"event": "end-file", "reason": "quit"}"#),
        None
    );
    assert_eq!(
        event_of(r#"{"event": "end-file", "reason": "error"}"#),
        None
    );
}

#[test]
fn unknown_property_yields_none() {
    let v = r#"{"event": "property-change", "name": "volume", "data": 50}"#;
    assert_eq!(event_of(v), None);
}

#[test]
fn unknown_event_yields_none() {
    assert_eq!(event_of(r#"{"event": "idle"}"#), None);
}

#[test]
fn command_reply_yields_none() {
    // Command replies have request_id and no "event" field.
    let v = r#"{"request_id": 1, "error": "success", "data": null}"#;
    assert_eq!(event_of(v), None);
}

#[test]
fn seeking_false_data_yields_none() {
    // `seeking` property flips to false when the seek completes; that's
    // conveyed by PlaybackRestart elsewhere, so we skip the false edge.
    let v = r#"{"event": "property-change", "name": "seeking", "data": false}"#;
    assert_eq!(event_of(v), None);
}

#[test]
fn other_shapes_are_no_events() {
    // The value does not fit the property.
    assert_eq!(
        event_of(r#"{"event":"property-change","name":"pause","data":1}"#),
        None
    );
    assert_eq!(
        event_of(r#"{"event":"property-change","name":"file-size","data":1.5}"#),
        None
    );
    assert_eq!(
        event_of(r#"{"event":"property-change","name":"filename","data":["x"]}"#),
        None
    );
    assert_eq!(event_of(r#"{"event":"property-change","name":"pause"}"#), None);
    assert_eq!(event_of(r#"{"event":"end-file"}"#), None);
    assert_eq!(event_of(r#"{"event":7}"#), None);
}

#[test]
fn end_of_file_is_reported_as_a_property_too() {
    let on = r#"{"event":"property-change","name":"eof-reached","data":true}"#;
    let off = r#"{"event":"property-change","name":"eof-reached","data":false}"#;
    assert_eq!(event_of(on), Some(MpvEvent::EofReached));
    assert_eq!(event_of(off), None);
    let seeking = r#"{"event":"property-change","name":"seeking","data":true}"#;
    assert_eq!(event_of(seeking), Some(MpvEvent::Seeking));
}

#[test]
fn the_first_member_with_a_key_counts() {
    let members = vec![
        ("event".to_string(), JsonScalar::Text("seek".to_string())),
        ("event".to_string(), JsonScalar::Text("other".to_string())),
    ];
    assert_eq!(translate(&members), Some(MpvEvent::Seeking));
    assert_eq!(translate(&Vec::new()), None);
}

#[test]
fn lines_are_sorted_out() {
    assert_eq!(read_line(""), IpcLine::Blank);
    assert_eq!(read_line("not json at all"), IpcLine::Malformed);
    assert_eq!(read_line("[1, 2]"), IpcLine::Ignored);
    assert_eq!(read_line(r#"{"event":"idle"}"#), IpcLine::Ignored);
    assert_eq!(
        read_line(r#"{"request_id":3,"error":"invalid parameter"}"#),
        IpcLine::Reply {
            request_id: 3,
            error: "invalid parameter".to_string()
        }
    );
    // No error means success, and a reply is never an event.
    assert_eq!(
        read_line(r#"{"request_id":4,"event":"seek"}"#),
        IpcLine::Reply {
            request_id: 4,
            error: "success".to_string()
        }
    );
    assert_eq!(
        read_line(r#"{"event":"seek","request_id":-1}"#),
        IpcLine::Event(MpvEvent::Seeking)
    );
}

#[test]
fn replies_decide_the_outcome() {
    assert!(reply_outcome(Some("success".to_string())).is_ok());
    assert!(matches!(
        reply_outcome(Some("invalid parameter".to_string())),
        Err(MpvError::CommandFailed(e)) if e == "invalid parameter"
    ));
    assert!(matches!(reply_outcome(None), Err(MpvError::Closed)));
}

#[test]
fn the_exit_status_is_classified() {
    assert!(matches!(
        classify_exit(true, Some(0)),
        MpvExit::Clean { code: Some(0) }
    ));
    assert!(matches!(
        classify_exit(false, None),
        MpvExit::Crashed { code: None }
    ));
}

#[test]
fn pause_true_renders_set_property() {
    let v = MpvCommand::Pause(true).to_json(7);
    assert_eq!(
        json(&v),
        json(r#"{"command": ["set_property", "pause", true], "request_id": 7}"#)
    );
}

#[test]
fn seek_converts_ms_to_seconds() {
    let v = MpvCommand::Seek { media_pos_ms: 12_500 }.to_json(1);
    assert_eq!(
        json(&v),
        json(r#"{"command": ["seek", 12.5, "absolute"], "request_id": 1}"#)
    );
}

#[test]
fn set_speed_converts_centi_to_float() {
    let v = MpvCommand::SetSpeed { speed_centi: 95 }.to_json(2);
    assert_eq!(
        json(&v),
        json(r#"{"command": ["set_property", "speed", 0.95], "request_id": 2}"#)
    );
}

#[test]
fn load_file_renders_replace() {
    let v = MpvCommand::LoadFile {
        path: "C:/videos/a b.mkv".into(),
    }
    .to_json(3);
    assert_eq!(
        json(&v),
        json(r#"{"command": ["loadfile", "C:/videos/a b.mkv", "replace"], "request_id": 3}"#)
    );
}

#[test]
fn from_core_preserves_variants() {
    assert_eq!(
        MpvCommand::from(state::MpvCommand::Pause(false)),
        MpvCommand::Pause(false)
    );
    assert_eq!(
        MpvCommand::from(state::MpvCommand::Seek { media_pos_ms: 42 }),
        MpvCommand::Seek { media_pos_ms: 42 }
    );
    assert_eq!(
        MpvCommand::from(state::MpvCommand::SetSpeed { speed_centi: 105 }),
        MpvCommand::SetSpeed { speed_centi: 105 }
    );
}

#[test]
fn lines_are_written_exactly() {
    assert_eq!(
        MpvCommand::Seek { media_pos_ms: 12_000 }.to_json(18),
        "{\"command\":[\"seek\",12.0,\"absolute\"],\"request_id\":18}\n"
    );
    assert_eq!(
        MpvCommand::LoadFile {
            path: "a\"b\\c\n".to_string()
        }
        .to_json(1),
        "{\"command\":[\"loadfile\",\"a\\\"b\\\\c\\n\",\"replace\"],\"request_id\":1}\n"
    );
    assert_eq!(
        quit_request(5),
        "{\"command\":[\"quit\"],\"request_id\":5}\n"
    );
    assert_eq!(
        observe_request(1, 2),
        "{\"command\":[\"observe_property\",2,\"time-pos\"],\"request_id\":2}\n"
    );
}

#[test]
fn positions_are_sent_as_the_nearest_double() {
    for ms in [0u64, 1, 999, 1_000, 1_001, 3_600_123, 123_456_789_012, u64::MAX] {
        let line = MpvCommand::Seek { media_pos_ms: ms }.to_json(1);
        let v = json(&line);
        assert_eq!(v["command"][1].as_f64(), Some(ms as f64 / 1000.0), "{ms}");
    }
    for centi in [0u16, 5, 95, 100, 105, 12_345, u16::MAX] {
        let line = MpvCommand::SetSpeed { speed_centi: centi }.to_json(1);
        let v = json(&line);
        assert_eq!(v["command"][2].as_f64(), Some(f64::from(centi) / 100.0));
    }
}

#[test]
fn every_property_is_observed_once() {
    let mut names = Vec::new();
    for i in 0..OBSERVED_COUNT {
        let v = json(&observe_request(i, 1 + i as u64));
        assert_eq!(v["command"][0].as_str(), Some("observe_property"));
        assert_eq!(v["command"][1].as_u64(), Some(i as u64 + 1));
        names.push(v["command"][2].as_str().unwrap().to_string());
    }
    names.sort();
    assert_eq!(
        names,
        vec![
            "duration",
            "eof-reached",
            "file-size",
            "filename",
            "pause",
            "seeking",
            "speed",
            "time-pos"
        ]
    );
}

#[test]
fn mpv_gets_its_arguments_in_order() {
    let mut options = SpawnOptions::default();
    assert_eq!(options.mpv_binary, "mpv");
    assert_eq!(
        mpv_args(&options, "/tmp/s.sock"),
        vec![
            "--input-ipc-server=/tmp/s.sock",
            "--no-terminal",
            "--idle=yes",
            "--force-window=yes"
        ]
    );
    options.keep_alive = false;
    options.extra_args = vec!["--vo=null".to_string(), "--ao=null".to_string()];
    options.initial_file = Some("movie.mkv".to_string());
    assert_eq!(
        mpv_args(&options, "x"),
        vec![
            "--input-ipc-server=x",
            "--no-terminal",
            "--vo=null",
            "--ao=null",
            "movie.mkv"
        ]
    );
}

#[test]
fn ipc_endpoints_are_named_by_process_and_time() {
    assert_eq!(ipc_socket_name(12, 345), "syncmesh-12-345.sock");
    assert_eq!(ipc_pipe_name(12, 345), r"\\.\pipe\syncmesh-12-345");
    assert_ne!(ipc_socket_name(1, 2), ipc_socket_name(1, 3));
}

#[test]
fn connecting_is_retried_until_the_deadline() {
    let refused = || std::io::Error::other("refused");
    assert!(after_failed_connect(99, 100, 50, refused()).is_ok());
    assert!(matches!(
        after_failed_connect(100, 100, 50, refused()),
        Err(MpvError::Connect { waited_ms: 50, .. })
    ));
}

#[test]
fn generated_path_has_expected_shape() {
    let socket = ipc_socket_name(4_242, 17);
    assert!(socket.contains("syncmesh-"), "unix socket path: {socket}");
    let pipe = ipc_pipe_name(4_242, 17);
    assert!(
        pipe.starts_with(r"\\.\pipe\syncmesh-"),
        "windows pipe path: {pipe}"
    );
}

#[test]
fn generated_paths_are_unique() {
    assert_ne!(ipc_socket_name(1, 23), ipc_socket_name(1, 24));
    assert_ne!(ipc_socket_name(1, 23), ipc_socket_name(12, 3));
    assert_ne!(ipc_pipe_name(1, 23), ipc_pipe_name(12, 3));
}

#[test]
fn special_characters_in_a_path_are_escaped() {
    let load = |path: &str| MpvCommand::LoadFile { path: path.into() }.to_json(1);
    assert_eq!(
        load("a\"b\\c\n\t\r\u{8}\u{c}\u{1f}\u{7f}é/"),
        "{\"command\":[\"loadfile\",\"a\\\"b\\\\c\\n\\t\\r\\b\\f\\u001f\u{7f}é/\",\"replace\"],\"request_id\":1}\n"
    );
}

#[test]
fn all_but_the_end_of_a_seek_is_observed() {
    assert_eq!(
        OBSERVED_PROPERTIES,
        [
            "pause",
            "time-pos",
            "seeking",
            "playback-restart",
            "eof-reached",
            "speed",
            "filename",
            "duration",
            "file-size",
        ]
    );
    let observed: Vec<&str> = (0..OBSERVED_COUNT).map(observed_property).collect();
    let wanted: Vec<&str> = OBSERVED_PROPERTIES
        .into_iter()
        .filter(|p| *p != "playback-restart")
        .collect();
    assert_eq!(observed, wanted);
}
