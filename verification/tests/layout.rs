//! What the UI shows.

use syncmesh::node_id::NodeId;
use syncmesh::protocol::{ChatMessage, MediaId};
use syncmesh::ready::ReadyState;
use syncmesh::snapshot::{LocalSnapshot, PeerSnapshot, RoomSnapshot};
use syncmesh::state::PlaybackState;
use syncmesh::ui::keybinds::{translate, Key, KeyAction, KeyPress, Mode};
use syncmesh::ui::layout::{
    chat_lines, chat_offset, compose, debug_lines, debug_popup, format_ms, help_lines, input_line, keyhints,
    peer_rows, ready_glyph, status_bar, Area,
};
use syncmesh::ui::{handle_key, note_copy, CopyOutcome, UiContext, UiEvent, UiState};

fn make_snapshot(nickname: &str, with_peers: bool, with_chat: bool) -> RoomSnapshot {
    let local = LocalSnapshot {
        node: NodeId::from_bytes([1u8; 32]),
        nickname: nickname.into(),
        ready: true,
        playback: PlaybackState {
            media_pos_ms: 125_000,
            paused: false,
            speed_centi: 100,
        },
        media: None,
    };
    let peers = if with_peers {
        vec![PeerSnapshot {
            node: NodeId::from_bytes([2u8; 32]),
            nickname: "alice".into(),
            ready: false,
            rtt_ms: Some(42),
            drift_ms: Some(-30),
            media_match: None,
        }]
    } else {
        Vec::new()
    };
    let chat = if with_chat {
        vec![ChatMessage {
            origin: NodeId::from_bytes([2u8; 32]),
            origin_ts_ms: 0,
            text: "hi there".into(),
        }]
    } else {
        Vec::new()
    };
    RoomSnapshot {
        local,
        peers,
        chat,
        ready_state: ReadyState::Pending,
        override_enabled: false,
    }
}

fn no_ticket() -> UiContext {
    UiContext { ticket: None }
}

#[test]
fn format_ms_handles_hours() {
    assert_eq!(format_ms(1000), "00:01");
    assert_eq!(format_ms(61_000), "01:01");
    assert_eq!(format_ms(3_601_000), "01:00:01");
}

#[test]
fn the_status_bar_sums_up_the_room() {
    let mut snap = make_snapshot("me", true, false);
    assert_eq!(
        status_bar(&snap),
        "syncmesh · no media · 02:05 / --:-- · playing · 2 peers · waiting"
    );
    snap.local.media = Some(MediaId {
        filename_lower: "movie.mkv".into(),
        size_bytes: 1,
        duration_s: 7_200,
    });
    snap.local.playback.paused = true;
    snap.ready_state = ReadyState::AllReady;
    snap.peers.clear();
    assert_eq!(
        status_bar(&snap),
        "syncmesh · movie.mkv · 02:05 / 02:00:00 · paused · 1 peers · all ready"
    );
}

#[test]
fn the_peer_list_starts_with_ourselves() {
    let snap = make_snapshot("me", true, false);
    let rows = peer_rows(&snap);
    assert_eq!(rows.len(), 2);
    assert!(rows[0].ready);
    assert_eq!(rows[0].title, "me (me)");
    assert_eq!(rows[0].detail, "    --     --ms");
    assert!(!rows[1].ready);
    assert_eq!(rows[1].title, "alice");
    assert_eq!(rows[1].detail, "    42ms    -30ms");
}

#[test]
fn unknown_measurements_leave_their_columns_empty() {
    let mut snap = make_snapshot("me", true, false);
    snap.peers[0].rtt_ms = None;
    snap.peers[0].drift_ms = None;
    assert_eq!(peer_rows(&snap)[1].detail, "    --ms       ");
    assert_eq!(
        debug_lines(&snap)[2],
        "alice             rtt   --ms  drift      ms"
    );
}

#[test]
fn the_observability_pane_lists_the_peers() {
    let mut snap = make_snapshot("me", true, false);
    snap.override_enabled = true;
    snap.peers[0].nickname = "a nickname that is too long".into();
    snap.peers[0].drift_ms = Some(7);
    let lines = debug_lines(&snap);
    assert_eq!(lines[0], "peers: 2   ready: pending   override: on");
    assert_eq!(lines[1].chars().count(), 38);
    assert_eq!(lines[2], "a nickname that   rtt   42ms  drift    +7ms");
}

#[test]
fn the_observability_pane_stays_on_the_screen() {
    let screen = Area {
        x: 0,
        y: 0,
        width: 120,
        height: 24,
    };
    assert_eq!(
        debug_popup(screen, 1),
        Area {
            x: 77,
            y: 18,
            width: 42,
            height: 4
        }
    );
    let small = Area {
        x: 0,
        y: 0,
        width: 40,
        height: 10,
    };
    assert_eq!(
        debug_popup(small, 100_000),
        Area {
            x: 1,
            y: 0,
            width: 38,
            height: 8
        }
    );
    let tiny = Area {
        x: 0,
        y: 0,
        width: 1,
        height: 1,
    };
    assert_eq!(debug_popup(tiny, 0).height, 3);
}

#[test]
fn chat_messages_name_their_speaker() {
    let mut snap = make_snapshot("me", true, true);
    snap.chat.push(ChatMessage {
        origin: NodeId::from_bytes([1; 32]),
        origin_ts_ms: 1,
        text: "hello".into(),
    });
    snap.chat.push(ChatMessage {
        origin: NodeId::from_bytes([0xab; 32]),
        origin_ts_ms: 2,
        text: "who am I".into(),
    });
    assert_eq!(
        chat_lines(&snap),
        vec![
            ("     alice: ".to_string(), "hi there".to_string()),
            ("       you: ".to_string(), "hello".to_string()),
            (" abababab…: ".to_string(), "who am I".to_string()),
        ]
    );
}

#[test]
fn the_chat_follows_or_stays_where_it_was_scrolled() {
    let mut ui = UiState::new();
    assert_eq!(chat_offset(&ui, 30, 10), 20);
    assert_eq!(chat_offset(&ui, 5, 10), 0);
    let _ = handle_key(&mut ui, KeyAction::ChatScrollUp, &no_ticket());
    assert!(!ui.chat_follow);
    assert_eq!(chat_offset(&ui, 30, 10), 15);
    let _ = handle_key(&mut ui, KeyAction::ChatScrollDown, &no_ticket());
    assert!(ui.chat_follow);
    assert_eq!(ui.chat_scroll, 0);
    let _ = handle_key(&mut ui, KeyAction::ChatScrollUp, &no_ticket());
    let _ = handle_key(&mut ui, KeyAction::ChatScrollUp, &no_ticket());
    assert_eq!(ui.chat_scroll, 10);
    let _ = handle_key(&mut ui, KeyAction::ChatScrollBottom, &no_ticket());
    assert!(ui.chat_follow && ui.chat_scroll == 0);
    ui.chat_scroll = u16::MAX - 2;
    let _ = handle_key(&mut ui, KeyAction::ChatScrollUp, &no_ticket());
    assert_eq!(ui.chat_scroll, u16::MAX);
    assert_eq!(chat_offset(&ui, 1_000_000, 10), 0);
}

#[test]
fn the_input_line_depends_on_the_mode() {
    let mut ui = UiState::new();
    assert_eq!(input_line(&ui), ("  ", String::new()));
    ui.flash = Some("ticket copied".into());
    assert_eq!(input_line(&ui), ("! ", "ticket copied".to_string()));
    ui.mode = Mode::Chat;
    for c in "hello".chars() {
        ui.input.append(c);
    }
    assert_eq!(input_line(&ui), ("> ", "hello".to_string()));
    ui.mode = Mode::Help;
    assert_eq!(input_line(&ui), ("  ", String::new()));
}

#[test]
fn hints_and_help_name_the_keys() {
    assert!(keyhints(Mode::Normal).contains("ctrl-d debug"));
    assert!(keyhints(Mode::Chat).contains("enter send"));
    assert_eq!(keyhints(Mode::Help), "press any key to close");
    let help = help_lines();
    assert_eq!(help[0], "syncmesh keybindings");
    assert!(help.iter().any(|l| l.contains("toggle ready")));
    assert_eq!(ready_glyph(true), "●");
    assert_eq!(ready_glyph(false), "○");
}

#[test]
fn submitting_chat_sends_it_and_leaves_chat_mode() {
    let mut ui = UiState::new();
    ui.mode = Mode::Chat;
    for c in " hi ".chars() {
        assert_eq!(handle_key(&mut ui, KeyAction::ChatAppend(c), &no_ticket()), None);
    }
    assert_eq!(
        handle_key(&mut ui, KeyAction::ChatSubmit, &no_ticket()),
        Some(UiEvent::SubmitChat("hi".into()))
    );
    assert_eq!(ui.mode, Mode::Normal);
    assert!(ui.input.is_empty());
    // Nothing is sent for a blank line.
    ui.mode = Mode::Chat;
    ui.input.append(' ');
    assert_eq!(handle_key(&mut ui, KeyAction::ChatSubmit, &no_ticket()), None);
    assert_eq!(ui.mode, Mode::Normal);
}

#[test]
fn editing_keys_edit_the_line() {
    let mut ui = UiState::new();
    for c in "ab cd".chars() {
        ui.input.append(c);
    }
    let _ = handle_key(&mut ui, KeyAction::ChatBackspace, &no_ticket());
    assert_eq!(ui.input.as_str(), "ab c");
    let _ = handle_key(&mut ui, KeyAction::ChatWordDelete, &no_ticket());
    assert_eq!(ui.input.as_str(), "ab ");
    assert_eq!(handle_key(&mut ui, KeyAction::Ignore, &no_ticket()), None);
    assert_eq!(ui.input.as_str(), "ab ");
}

#[test]
fn copying_needs_a_ticket() {
    let mut ui = UiState::new();
    let copy = || KeyAction::Emit(UiEvent::CopyTicket);
    assert_eq!(handle_key(&mut ui, copy(), &no_ticket()), None);
    assert_eq!(ui.flash.as_deref(), Some("no ticket to copy"));
    let ctx = UiContext {
        ticket: Some("syncmesh1abc".into()),
    };
    assert_eq!(handle_key(&mut ui, copy(), &ctx), Some(UiEvent::CopyTicket));
    note_copy(&mut ui, CopyOutcome::Copied, "syncmesh1abc");
    assert_eq!(ui.flash.as_deref(), Some("ticket copied"));
    note_copy(&mut ui, CopyOutcome::Failed, "syncmesh1abc");
    assert_eq!(
        ui.flash.as_deref(),
        Some("clipboard unavailable; ticket: syncmesh1abc")
    );
    note_copy(&mut ui, CopyOutcome::Unsupported, "syncmesh1abc");
    assert_eq!(ui.flash.as_deref(), Some("ticket: syncmesh1abc"));
    // A change of mode clears the message.
    let _ = handle_key(&mut ui, KeyAction::SetMode(Mode::Help), &ctx);
    assert_eq!(ui.flash, None);
    assert_eq!(ui.mode, Mode::Help);
}

#[test]
fn the_observability_pane_is_toggled() {
    let mut ui = UiState::new();
    assert!(!ui.debug_visible);
    let _ = handle_key(&mut ui, KeyAction::ToggleDebug, &no_ticket());
    assert!(ui.debug_visible);
    let _ = handle_key(&mut ui, KeyAction::ToggleDebug, &no_ticket());
    assert!(!ui.debug_visible);
    assert_eq!(
        handle_key(&mut ui, KeyAction::Emit(UiEvent::Quit), &no_ticket()),
        Some(UiEvent::Quit)
    );
}

/// Everything that is shown, as text.
fn shown(snap: &RoomSnapshot, ui: &UiState) -> String {
    let screen = compose(snap, ui);
    let mut lines = vec![screen.status];
    for row in screen.peers {
        lines.push(format!("{} {}", ready_glyph(row.ready), row.title));
        lines.push(row.detail);
    }
    for (who, text) in screen.chat {
        lines.push(format!("{who}{text}"));
    }
    lines.push(format!("{}{}", screen.input.0, screen.input.1));
    lines.push(screen.hints.to_string());
    for pane in [screen.debug, screen.help].into_iter().flatten() {
        lines.push(pane.title.to_string());
        lines.extend(pane.lines);
    }
    lines.join("\n")
}

#[test]
fn status_bar_contains_nickname_and_peer_count() {
    let snap = make_snapshot("me", true, false);
    let ui = UiState::new();
    let text = shown(&snap, &ui);
    assert!(text.contains("syncmesh"));
    assert!(text.contains("2 peers"));
}

#[test]
fn peer_pane_shows_nickname() {
    let snap = make_snapshot("me", true, false);
    let ui = UiState::new();
    let text = shown(&snap, &ui);
    assert!(text.contains("alice"), "expected alice in:\n{text}");
    assert!(text.contains("me (me)"), "expected local row in:\n{text}");
}

#[test]
fn chat_pane_renders_messages() {
    let snap = make_snapshot("me", true, true);
    let ui = UiState::new();
    let text = shown(&snap, &ui);
    assert!(text.contains("hi there"), "expected chat text in:\n{text}");
    assert!(text.contains("alice"));
}

#[test]
fn help_overlay_appears_in_help_mode() {
    let snap = make_snapshot("me", false, false);
    let mut ui = UiState::new();
    ui.mode = Mode::Help;
    let text = shown(&snap, &ui);
    assert!(text.contains("syncmesh keybindings"));
    assert!(text.contains("toggle ready"));
}

#[test]
fn chat_mode_shows_input_prompt() {
    let snap = make_snapshot("me", false, false);
    let mut ui = UiState::new();
    ui.mode = Mode::Chat;
    for c in "hello".chars() {
        ui.input.append(c);
    }
    let text = shown(&snap, &ui);
    assert!(text.contains("> hello"), "expected > hello in:\n{text}");
    assert!(text.contains("enter send"));
}

#[test]
fn debug_overlay_renders_when_visible() {
    let snap = make_snapshot("me", true, false);
    let mut ui = UiState::new();
    ui.debug_visible = true;
    let text = shown(&snap, &ui);
    assert!(
        text.contains("debug (Ctrl-D)"),
        "expected debug overlay title in:\n{text}"
    );
    assert!(
        text.contains("42"),
        "expected rtt=42 in debug pane:\n{text}"
    );
    assert!(
        text.contains("alice"),
        "expected peer nickname in debug pane:\n{text}"
    );
}

#[test]
fn debug_overlay_hidden_by_default() {
    let snap = make_snapshot("me", true, false);
    let ui = UiState::new();
    let text = shown(&snap, &ui);
    assert!(!text.contains("debug (Ctrl-D)"));
}

fn on_a_terminal(width: u16, height: u16) {
    let snap = make_snapshot("me", true, true);
    let ui = UiState::new();
    let screen = compose(&snap, &ui);
    let _ = chat_offset(&ui, screen.chat.len(), height);
    let full = Area {
        x: 0,
        y: 0,
        width,
        height,
    };
    let popup = debug_popup(full, snap.peers.len());
    assert!(popup.x + popup.width <= width);
    assert!(popup.y + popup.height <= height);
}

#[test]
fn large_terminal_size_does_not_panic() {
    on_a_terminal(200, 60);
}

#[test]
fn small_terminal_size_does_not_panic() {
    on_a_terminal(40, 10);
}

#[test]
fn escape_drops_what_was_typed() {
    let mut ui = UiState::new();
    ui.mode = Mode::Chat;
    ui.input.append('h');
    let press = KeyPress {
        key: Key::Esc,
        ctrl: false,
    };
    let action = translate(ui.mode, press);
    assert_eq!(action, KeyAction::SetMode(Mode::Normal));
    assert_eq!(handle_key(&mut ui, action, &no_ticket()), None);
    assert_eq!(ui.mode, Mode::Normal);
    assert!(ui.input.is_empty());
}

#[test]
fn other_changes_of_mode_keep_what_was_typed() {
    let mut ui = UiState::new();
    ui.input.append('h');
    for mode in [Mode::Chat, Mode::Help, Mode::Normal] {
        let _ = handle_key(&mut ui, KeyAction::SetMode(mode), &no_ticket());
        assert_eq!(ui.input.as_str(), "h");
    }
}
