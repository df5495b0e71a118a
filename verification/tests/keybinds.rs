//! Keys.

use syncmesh::ui::keybinds::{translate, Key, KeyAction, KeyPress, Mode};
use syncmesh::ui::UiEvent;

fn key(code: Key) -> KeyPress {
    KeyPress { key: code, ctrl: false }
}

fn ctrl(code: Key) -> KeyPress {
    KeyPress { key: code, ctrl: true }
}

#[test]
fn normal_r_toggles_ready() {
    assert_eq!(
        translate(Mode::Normal, key(Key::Char('r'))),
        KeyAction::Emit(UiEvent::ToggleReady)
    );
}

#[test]
fn normal_space_toggles_pause() {
    assert_eq!(
        translate(Mode::Normal, key(Key::Char(' '))),
        KeyAction::Emit(UiEvent::TogglePauseRelay)
    );
}

#[test]
fn normal_slash_enters_chat_mode() {
    assert_eq!(
        translate(Mode::Normal, key(Key::Char('/'))),
        KeyAction::SetMode(Mode::Chat)
    );
}

#[test]
fn normal_q_quits() {
    assert_eq!(
        translate(Mode::Normal, key(Key::Char('q'))),
        KeyAction::Emit(UiEvent::Quit)
    );
}

#[test]
fn normal_tab_toggles_override() {
    assert_eq!(
        translate(Mode::Normal, key(Key::Tab)),
        KeyAction::Emit(UiEvent::ToggleOverride)
    );
}

#[test]
fn normal_question_opens_help() {
    assert_eq!(
        translate(Mode::Normal, key(Key::Char('?'))),
        KeyAction::SetMode(Mode::Help)
    );
}

#[test]
fn ctrl_c_always_quits_even_in_chat() {
    assert_eq!(
        translate(Mode::Chat, ctrl(Key::Char('c'))),
        KeyAction::Emit(UiEvent::Quit)
    );
}

#[test]
fn chat_enter_submits() {
    assert_eq!(
        translate(Mode::Chat, key(Key::Enter)),
        KeyAction::ChatSubmit
    );
}

#[test]
fn chat_esc_returns_to_normal() {
    assert_eq!(
        translate(Mode::Chat, key(Key::Esc)),
        KeyAction::SetMode(Mode::Normal)
    );
}

#[test]
fn chat_char_appends() {
    assert_eq!(
        translate(Mode::Chat, key(Key::Char('x'))),
        KeyAction::ChatAppend('x')
    );
}

#[test]
fn chat_ctrl_w_word_deletes() {
    assert_eq!(
        translate(Mode::Chat, ctrl(Key::Char('w'))),
        KeyAction::ChatWordDelete
    );
}

#[test]
fn chat_backspace_deletes_one() {
    assert_eq!(
        translate(Mode::Chat, key(Key::Backspace)),
        KeyAction::ChatBackspace
    );
}

#[test]
fn help_any_key_dismisses() {
    assert_eq!(
        translate(Mode::Help, key(Key::Char('r'))),
        KeyAction::SetMode(Mode::Normal)
    );
    assert_eq!(
        translate(Mode::Help, key(Key::Esc)),
        KeyAction::SetMode(Mode::Normal)
    );
}

#[test]
fn normal_pageup_scrolls_chat_up() {
    assert_eq!(
        translate(Mode::Normal, key(Key::PageUp)),
        KeyAction::ChatScrollUp
    );
}

#[test]
fn normal_pagedown_scrolls_chat_down() {
    assert_eq!(
        translate(Mode::Normal, key(Key::PageDown)),
        KeyAction::ChatScrollDown
    );
}

#[test]
fn normal_end_jumps_chat_to_bottom() {
    assert_eq!(
        translate(Mode::Normal, key(Key::End)),
        KeyAction::ChatScrollBottom
    );
}

#[test]
fn chat_mode_pageup_also_scrolls() {
    assert_eq!(
        translate(Mode::Chat, key(Key::PageUp)),
        KeyAction::ChatScrollUp
    );
}

#[test]
fn unmapped_normal_key_is_ignored() {
    assert_eq!(
        translate(Mode::Normal, key(Key::Char('x'))),
        KeyAction::Ignore
    );
}

#[test]
fn ctrl_d_toggles_the_observability_pane_outside_help() {
    assert_eq!(
        translate(Mode::Normal, ctrl(Key::Char('d'))),
        KeyAction::ToggleDebug
    );
    assert_eq!(
        translate(Mode::Chat, ctrl(Key::Char('d'))),
        KeyAction::ToggleDebug
    );
    assert_eq!(
        translate(Mode::Help, ctrl(Key::Char('d'))),
        KeyAction::SetMode(Mode::Normal)
    );
}

#[test]
fn plain_letters_are_typed_in_chat_mode() {
    for c in ['c', 'd', 'w', 'q', ' '] {
        assert_eq!(
            translate(Mode::Chat, key(Key::Char(c))),
            KeyAction::ChatAppend(c)
        );
    }
    assert_eq!(translate(Mode::Chat, key(Key::Other)), KeyAction::Ignore);
    assert_eq!(
        translate(Mode::Normal, key(Key::Char('c'))),
        KeyAction::Emit(UiEvent::CopyTicket)
    );
}
