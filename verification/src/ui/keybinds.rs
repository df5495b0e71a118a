//! What keys mean.
//!
//! In normal mode most keys trigger actions; in chat mode they feed the input
//! line; the help overlay goes away on any key.

use vstd::prelude::*;

use crate::ui::{UiEvent, UiEventView};

verus! {

/// How key presses are interpreted.
#[derive(Debug, Clone, Copy, PartialEq, Eq, Structural)]
pub enum Mode {
    Normal,
    Chat,
    Help,
}

impl Default for Mode {
    fn default() -> (r: Self)
        ensures
            r == Mode::Normal,
    {
        Mode::Normal
    }
}

/// A key.
#[derive(Debug, Clone, Copy, PartialEq, Eq, Structural)]
pub enum Key {
    Char(char),
    Enter,
    Esc,
    Backspace,
    Tab,
    PageUp,
    PageDown,
    End,
    Other,
}

/// A key press.
#[derive(Debug, Clone, Copy, PartialEq, Eq, Structural)]
pub struct KeyPress {
    pub key: Key,
    /// The control key was held.
    pub ctrl: bool,
}

/// What the UI should do in response to a key.
#[derive(Debug, Clone, PartialEq, Eq)]
pub enum KeyAction {
    /// Send this event to the event loop.
    Emit(UiEvent),
    /// Append a character to the input line.
    ChatAppend(char),
    /// Delete the last character of the input line.
    ChatBackspace,
    /// Delete the last word of the input line.
    ChatWordDelete,
    /// Send the input line as a message.
    ChatSubmit,
    /// Scroll the chat toward older messages.
    ChatScrollUp,
    /// Scroll the chat toward newer messages.
    ChatScrollDown,
    /// Jump to the newest message.
    ChatScrollBottom,
    /// Show or hide the observability pane.
    ToggleDebug,
    /// Enter a different mode.
    SetMode(Mode),
    /// Ignore this key.
    Ignore,
}

/// What a [`KeyAction`] says.
pub enum KeyActionView {
    Emit(UiEventView),
    ChatAppend(char),
    ChatBackspace,
    ChatWordDelete,
    ChatSubmit,
    ChatScrollUp,
    ChatScrollDown,
    ChatScrollBottom,
    ToggleDebug,
    SetMode(Mode),
    Ignore,
}

impl View for KeyAction {
    type V = KeyActionView;

    open spec fn view(&self) -> KeyActionView {
        match self {
            KeyAction::Emit(ev) => KeyActionView::Emit(ev@),
            KeyAction::ChatAppend(c) => KeyActionView::ChatAppend(*c),
            KeyAction::ChatBackspace => KeyActionView::ChatBackspace,
            KeyAction::ChatWordDelete => KeyActionView::ChatWordDelete,
            KeyAction::ChatSubmit => KeyActionView::ChatSubmit,
            KeyAction::ChatScrollUp => KeyActionView::ChatScrollUp,
            KeyAction::ChatScrollDown => KeyActionView::ChatScrollDown,
            KeyAction::ChatScrollBottom => KeyActionView::ChatScrollBottom,
            KeyAction::ToggleDebug => KeyActionView::ToggleDebug,
            KeyAction::SetMode(mode) => KeyActionView::SetMode(*mode),
            KeyAction::Ignore => KeyActionView::Ignore,
        }
    }
}

/// What a key means in normal mode.
pub open spec fn normal_meaning(key: Key) -> KeyActionView {
    match key {
        Key::Char('q') => KeyActionView::Emit(UiEventView::Quit),
        Key::Char('r') => KeyActionView::Emit(UiEventView::ToggleReady),
        Key::Char('c') => KeyActionView::Emit(UiEventView::CopyTicket),
        Key::Char(' ') => KeyActionView::Emit(UiEventView::TogglePauseRelay),
        Key::Char('/') => KeyActionView::SetMode(Mode::Chat),
        Key::Char('?') => KeyActionView::SetMode(Mode::Help),
        Key::Tab => KeyActionView::Emit(UiEventView::ToggleOverride),
        Key::PageUp => KeyActionView::ChatScrollUp,
        Key::PageDown => KeyActionView::ChatScrollDown,
        Key::End => KeyActionView::ChatScrollBottom,
        _ => KeyActionView::Ignore,
    }
}

/// What a key means in chat mode.
pub open spec fn chat_meaning(press: KeyPress) -> KeyActionView {
    if press.ctrl && press.key == Key::Char('w') {
        KeyActionView::ChatWordDelete
    } else {
        match press.key {
            Key::Enter => KeyActionView::ChatSubmit,
            Key::Esc => KeyActionView::SetMode(Mode::Normal),
            Key::Backspace => KeyActionView::ChatBackspace,
            Key::PageUp => KeyActionView::ChatScrollUp,
            Key::PageDown => KeyActionView::ChatScrollDown,
            Key::End => KeyActionView::ChatScrollBottom,
            Key::Char(c) => KeyActionView::ChatAppend(c),
            _ => KeyActionView::Ignore,
        }
    }
}

/// What a key press means: any key leaves the help; otherwise Ctrl-C quits and
/// Ctrl-D toggles the observability pane, in every mode.
pub open spec fn meaning(mode: Mode, press: KeyPress) -> KeyActionView {
    if mode is Help {
        KeyActionView::SetMode(Mode::Normal)
    } else if press.ctrl && press.key == Key::Char('c') {
        KeyActionView::Emit(UiEventView::Quit)
    } else if press.ctrl && press.key == Key::Char('d') {
        KeyActionView::ToggleDebug
    } else if mode is Normal {
        normal_meaning(press.key)
    } else {
        chat_meaning(press)
    }
}

/// Translate a key press in the given mode.
pub fn translate(mode: Mode, press: KeyPress) -> (r: KeyAction)
    ensures
        r@ == meaning(mode, press),
{
    if mode == Mode::Help {
        return KeyAction::SetMode(Mode::Normal);
    }
    if press.ctrl {
        match press.key {
            Key::Char('c') => {
                return KeyAction::Emit(UiEvent::Quit);
            }
            Key::Char('d') => {
                return KeyAction::ToggleDebug;
            }
            _ => {}
        }
    }
    if mode == Mode::Normal {
        translate_normal(press.key)
    } else {
        translate_chat(press)
    }
}

fn translate_normal(key: Key) -> (r: KeyAction)
    ensures
        r@ == normal_meaning(key),
{
    match key {
        Key::Char('q') => KeyAction::Emit(UiEvent::Quit),
        Key::Char('r') => KeyAction::Emit(UiEvent::ToggleReady),
        Key::Char('c') => KeyAction::Emit(UiEvent::CopyTicket),
        Key::Char(' ') => KeyAction::Emit(UiEvent::TogglePauseRelay),
        Key::Char('/') => KeyAction::SetMode(Mode::Chat),
        Key::Char('?') => KeyAction::SetMode(Mode::Help),
        Key::Tab => KeyAction::Emit(UiEvent::ToggleOverride),
        Key::PageUp => KeyAction::ChatScrollUp,
        Key::PageDown => KeyAction::ChatScrollDown,
        Key::End => KeyAction::ChatScrollBottom,
        _ => KeyAction::Ignore,
    }
}

fn translate_chat(press: KeyPress) -> (r: KeyAction)
    ensures
        r@ == chat_meaning(press),
{
    if press.ctrl {
        if let Key::Char('w') = press.key {
            return KeyAction::ChatWordDelete;
        }
    }
    match press.key {
        Key::Enter => KeyAction::ChatSubmit,
        Key::Esc => KeyAction::SetMode(Mode::Normal),
        Key::Backspace => KeyAction::ChatBackspace,
        // Scrolling works while composing, too.
        Key::PageUp => KeyAction::ChatScrollUp,
        Key::PageDown => KeyAction::ChatScrollDown,
        Key::End => KeyAction::ChatScrollBottom,
        Key::Char(c) => KeyAction::ChatAppend(c),
        _ => KeyAction::Ignore,
    }
}

/// Any key leaves the help.
pub proof fn law_any_key_leaves_help(press: KeyPress)
    ensures
        meaning(Mode::Help, press) == KeyActionView::SetMode(Mode::Normal),
{
}

/// Outside the help, Ctrl-C quits and Ctrl-D toggles the observability pane,
/// and nothing else in chat mode leaves the room.
pub proof fn law_control_keys_work_everywhere(mode: Mode, key: Key)
    requires
        !(mode is Help),
    ensures
        meaning(mode, KeyPress { key: Key::Char('c'), ctrl: true }) == KeyActionView::Emit(
            UiEventView::Quit,
        ),
        meaning(mode, KeyPress { key: Key::Char('d'), ctrl: true }) is ToggleDebug,
        !(meaning(Mode::Chat, KeyPress { key, ctrl: false }) is Emit),
{
}

/// In normal mode each key does what the help says of it, and all others
/// nothing.
pub proof fn law_keys_do_what_the_help_says(key: Key, ctrl: bool)
    requires
        ctrl ==> key != Key::Char('c') && key != Key::Char('d'),
    ensures
        ({
            let action = meaning(Mode::Normal, KeyPress { key, ctrl });
            &&& action == KeyActionView::Emit(UiEventView::ToggleReady) <==> key == Key::Char('r')
            &&& action == KeyActionView::Emit(UiEventView::CopyTicket) <==> key == Key::Char('c')
            &&& action == KeyActionView::Emit(UiEventView::TogglePauseRelay) <==> key
                == Key::Char(' ')
            &&& action == KeyActionView::SetMode(Mode::Chat) <==> key == Key::Char('/')
            &&& action == KeyActionView::Emit(UiEventView::ToggleOverride) <==> key == Key::Tab
            &&& action == KeyActionView::SetMode(Mode::Help) <==> key == Key::Char('?')
            &&& action == KeyActionView::Emit(UiEventView::Quit) <==> key == Key::Char('q')
            &&& action is ChatScrollUp <==> key == Key::PageUp
            &&& action is ChatScrollDown <==> key == Key::PageDown
            &&& action is ChatScrollBottom <==> key == Key::End
            &&& !(action is ChatAppend) && !(action is ChatBackspace) && !(
            action is ChatWordDelete) && !(action is ChatSubmit) && !(action is ToggleDebug)
        }),
{
}

/// In chat mode every character is typed; the other keys edit, send, cancel or
/// scroll.
pub proof fn law_chat_mode_is_for_typing(key: Key, c: char)
    ensures
        meaning(Mode::Chat, KeyPress { key: Key::Char(c), ctrl: false })
            == KeyActionView::ChatAppend(c),
        ({
            let action = meaning(Mode::Chat, KeyPress { key, ctrl: false });
            &&& action is ChatAppend <==> key is Char
            &&& action is ChatSubmit <==> key is Enter
            &&& action == KeyActionView::SetMode(Mode::Normal) <==> key is Esc
            &&& action is ChatBackspace <==> key is Backspace
            &&& action is ChatScrollUp <==> key is PageUp
            &&& action is ChatScrollDown <==> key is PageDown
            &&& action is ChatScrollBottom <==> key is End
            &&& action is Ignore <==> key is Tab || key is Other
        }),
        meaning(Mode::Chat, KeyPress { key: Key::Char('w'), ctrl: true }) is ChatWordDelete,
{
}

} // verus!
