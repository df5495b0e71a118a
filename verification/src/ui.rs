//! The terminal UI, up to the terminal: what keys mean, and what is shown.

use vstd::prelude::*;
use vstd::string::*;

pub mod keybinds;
pub mod layout;

use crate::input::{law_last_word_is_deleted, word_deleted, ChatInput};
use crate::std_text::{trimmed, white_space};
use crate::ui::keybinds::{meaning, Key, KeyAction, KeyActionView, KeyPress, Mode};

verus! {

/// What the user wants, for the event loop to act on.
#[derive(Debug, Clone, PartialEq, Eq)]
pub enum UiEvent {
    ToggleReady,
    TogglePauseRelay,
    SubmitChat(String),
    ToggleOverride,
    CopyTicket,
    Quit,
}

/// What a [`UiEvent`] says.
pub enum UiEventView {
    ToggleReady,
    TogglePauseRelay,
    SubmitChat(Seq<char>),
    ToggleOverride,
    CopyTicket,
    Quit,
}

impl View for UiEvent {
    type V = UiEventView;

    open spec fn view(&self) -> UiEventView {
        match self {
            UiEvent::ToggleReady => UiEventView::ToggleReady,
            UiEvent::TogglePauseRelay => UiEventView::TogglePauseRelay,
            UiEvent::SubmitChat(text) => UiEventView::SubmitChat(text@),
            UiEvent::ToggleOverride => UiEventView::ToggleOverride,
            UiEvent::CopyTicket => UiEventView::CopyTicket,
            UiEvent::Quit => UiEventView::Quit,
        }
    }
}

/// What the UI needs to know besides the room.
#[derive(Debug, Clone)]
pub struct UiContext {
    /// The ticket of this room. `None` when we joined somebody else's.
    pub ticket: Option<String>,
}

/// State of the UI that is not part of the room.
#[derive(Debug)]
pub struct UiState {
    pub mode: Mode,
    pub input: ChatInput,
    /// A short message, shown until the mode changes.
    pub flash: Option<String>,
    /// Lines scrolled up from the bottom of the chat.
    pub chat_scroll: u16,
    /// Stay at the newest message.
    pub chat_follow: bool,
    /// Show the observability pane.
    pub debug_visible: bool,
}

/// What a [`UiState`] says.
pub struct UiStateView {
    pub mode: Mode,
    pub input: Seq<char>,
    pub flash: Option<Seq<char>>,
    pub chat_scroll: u16,
    pub chat_follow: bool,
    pub debug_visible: bool,
}

/// What optional text says.
pub open spec fn text_view(t: Option<String>) -> Option<Seq<char>> {
    match t {
        Some(s) => Some(s@),
        None => None,
    }
}

impl View for UiState {
    type V = UiStateView;

    open spec fn view(&self) -> UiStateView {
        UiStateView {
            mode: self.mode,
            input: self.input@,
            flash: text_view(self.flash),
            chat_scroll: self.chat_scroll,
            chat_follow: self.chat_follow,
            debug_visible: self.debug_visible,
        }
    }
}

impl UiState {
    pub fn new() -> (r: Self)
        ensures
            r@ == (UiStateView {
                mode: Mode::Normal,
                input: Seq::empty(),
                flash: None,
                chat_scroll: 0,
                chat_follow: true,
                debug_visible: false,
            }),
    {
        UiState {
            mode: Mode::Normal,
            input: ChatInput::new(),
            flash: None,
            chat_scroll: 0,
            chat_follow: true,
            debug_visible: false,
        }
    }
}

/// Lines that one key press scrolls.
pub const CHAT_SCROLL_STEP: u16 = 5;

/// The UI after an action that only concerns itself.
pub open spec fn ui_after(ui: UiStateView, action: KeyActionView, has_ticket: bool) -> UiStateView {
    match action {
        KeyActionView::Ignore => ui,
        KeyActionView::SetMode(mode) => UiStateView {
            mode,
            flash: None,
            input: if ui.mode is Chat && mode is Normal {
                Seq::empty()
            } else {
                ui.input
            },
            ..ui
        },
        KeyActionView::ChatAppend(c) => UiStateView { input: ui.input.push(c), ..ui },
        KeyActionView::ChatBackspace => UiStateView {
            input: if ui.input.len() == 0 {
                ui.input
            } else {
                ui.input.drop_last()
            },
            ..ui
        },
        KeyActionView::ChatWordDelete => UiStateView {
            input: word_deleted(ui.input),
            ..ui
        },
        KeyActionView::ChatSubmit => UiStateView { input: Seq::empty(), mode: Mode::Normal, ..ui },
        KeyActionView::ChatScrollUp => UiStateView {
            chat_follow: false,
            chat_scroll: if ui.chat_scroll + CHAT_SCROLL_STEP <= u16::MAX {
                (ui.chat_scroll + CHAT_SCROLL_STEP) as u16
            } else {
                u16::MAX
            },
            ..ui
        },
        KeyActionView::ChatScrollDown => {
            let scroll = if ui.chat_scroll >= CHAT_SCROLL_STEP {
                (ui.chat_scroll - CHAT_SCROLL_STEP) as u16
            } else {
                0
            };
            UiStateView {
                chat_scroll: scroll,
                chat_follow: ui.chat_follow || scroll == 0,
                ..ui
            }
        },
        KeyActionView::ChatScrollBottom => UiStateView { chat_scroll: 0, chat_follow: true, ..ui },
        KeyActionView::ToggleDebug => UiStateView { debug_visible: !ui.debug_visible, ..ui },
        KeyActionView::Emit(UiEventView::CopyTicket) => if has_ticket {
            ui
        } else {
            UiStateView { flash: Some("no ticket to copy"@), ..ui }
        },
        KeyActionView::Emit(_) => ui,
    }
}

/// The event that an action sends to the event loop. Blank chat is not sent,
/// and there has to be a ticket to copy it.
pub open spec fn ui_sends(ui: UiStateView, action: KeyActionView, has_ticket: bool) -> Option<
    UiEventView,
> {
    match action {
        KeyActionView::ChatSubmit => if trimmed(ui.input).len() == 0 {
            None
        } else {
            Some(UiEventView::SubmitChat(trimmed(ui.input)))
        },
        KeyActionView::Emit(UiEventView::CopyTicket) => if has_ticket {
            Some(UiEventView::CopyTicket)
        } else {
            None
        },
        KeyActionView::Emit(ev) => Some(ev),
        _ => None,
    }
}

/// What an optional event says.
pub open spec fn ui_event_view(e: Option<UiEvent>) -> Option<UiEventView> {
    match e {
        Some(ev) => Some(ev@),
        None => None,
    }
}

/// Carry out an action. On `CopyTicket` the caller puts the ticket on the
/// clipboard and reports with [`note_copy`].
pub fn handle_key(ui: &mut UiState, action: KeyAction, ctx: &UiContext) -> (r: Option<UiEvent>)
    ensures
        final(ui)@ == ui_after(old(ui)@, action@, ctx.ticket is Some),
        ui_event_view(r) == ui_sends(old(ui)@, action@, ctx.ticket is Some),
{
    match action {
        KeyAction::Ignore => None,
        KeyAction::SetMode(mode) => {
            // Leaving the chat without sending drops what was typed.
            if ui.mode == Mode::Chat && mode == Mode::Normal {
                ui.input.clear();
            }
            ui.mode = mode;
            ui.flash = None;
            None
        }
        KeyAction::ChatAppend(c) => {
            ui.input.append(c);
            None
        }
        KeyAction::ChatBackspace => {
            ui.input.backspace();
            None
        }
        KeyAction::ChatWordDelete => {
            ui.input.word_delete();
            None
        }
        KeyAction::ChatSubmit => {
            let text = ui.input.take();
            ui.mode = Mode::Normal;
            match text {
                Some(text) => Some(UiEvent::SubmitChat(text)),
                None => None,
            }
        }
        KeyAction::ChatScrollUp => {
            ui.chat_follow = false;
            ui.chat_scroll = ui.chat_scroll.saturating_add(CHAT_SCROLL_STEP);
            None
        }
        KeyAction::ChatScrollDown => {
            ui.chat_scroll = ui.chat_scroll.saturating_sub(CHAT_SCROLL_STEP);
            if ui.chat_scroll == 0 {
                ui.chat_follow = true;
            }
            None
        }
        KeyAction::ChatScrollBottom => {
            ui.chat_scroll = 0;
            ui.chat_follow = true;
            None
        }
        KeyAction::ToggleDebug => {
            ui.debug_visible = !ui.debug_visible;
            None
        }
        KeyAction::Emit(UiEvent::CopyTicket) => {
            if ctx.ticket.is_none() {
                ui.flash = Some("no ticket to copy".to_owned());
                None
            } else {
                Some(UiEvent::CopyTicket)
            }
        }
        KeyAction::Emit(ev) => Some(ev),
    }
}

/// What became of putting the ticket on the clipboard.
#[derive(Debug, Clone, Copy, PartialEq, Eq, Structural)]
pub enum CopyOutcome {
    Copied,
    /// The clipboard refused.
    Failed,
    /// This build has no clipboard.
    Unsupported,
}

/// The message about a copy: the ticket itself wherever it is not on the
/// clipboard.
pub open spec fn copy_message(outcome: CopyOutcome, ticket: Seq<char>) -> Seq<char> {
    match outcome {
        CopyOutcome::Copied => "ticket copied"@,
        CopyOutcome::Failed => "clipboard unavailable; ticket: "@ + ticket,
        CopyOutcome::Unsupported => "ticket: "@ + ticket,
    }
}

/// Tell the user what became of copying the ticket.
pub fn note_copy(ui: &mut UiState, outcome: CopyOutcome, ticket: &str)
    ensures
        final(ui)@ == (UiStateView { flash: Some(copy_message(outcome, ticket@)), ..old(ui)@ }),
{
    let message = match outcome {
        CopyOutcome::Copied => "ticket copied".to_owned(),
        CopyOutcome::Failed => "clipboard unavailable; ticket: ".to_owned().concat(ticket),
        CopyOutcome::Unsupported => "ticket: ".to_owned().concat(ticket),
    };
    ui.flash = Some(message);
}

impl Default for UiState {
    fn default() -> (r: Self)
        ensures
            r@ == (UiStateView {
                mode: Mode::Normal,
                input: Seq::empty(),
                flash: None,
                chat_scroll: 0,
                chat_follow: false,
                debug_visible: false,
            }),
    {
        UiState {
            mode: Mode::Normal,
            input: ChatInput::new(),
            flash: None,
            chat_scroll: 0,
            chat_follow: false,
            debug_visible: false,
        }
    }
}

/// Escape leaves the chat and drops what was typed: nothing is sent, and the
/// next message starts on an empty line.
pub proof fn law_escape_cancels_chat(ui: UiStateView, ctrl: bool, has_ticket: bool)
    requires
        ui.mode is Chat,
    ensures
        ({
            let action = meaning(ui.mode, KeyPress { key: Key::Esc, ctrl });
            let after = ui_after(ui, action, has_ticket);
            &&& after.mode is Normal
            &&& after.input == Seq::<char>::empty()
            &&& ui_sends(ui, action, has_ticket) is None
            &&& ui_after(after, KeyActionView::SetMode(Mode::Chat), has_ticket).input == Seq::<
                char,
            >::empty()
        }),
{
}

/// Scrolling down as often as up leads back to the bottom, where the chat
/// follows new messages again.
pub proof fn law_scroll_down_undoes_up(ui: UiStateView)
    requires
        ui.chat_scroll <= u16::MAX - CHAT_SCROLL_STEP,
    ensures
        ({
            let up = ui_after(ui, KeyActionView::ChatScrollUp, false);
            let back = ui_after(up, KeyActionView::ChatScrollDown, false);
            &&& back.chat_scroll == ui.chat_scroll
            &&& back.chat_follow == (ui.chat_scroll == 0)
            &&& !up.chat_follow
        }),
{
}

/// Typing appends to the line, sending empties it and leaves the chat, a change
/// of mode leads there. Nothing but what belongs to an action changes.
pub proof fn law_actions_change_what_is_theirs(
    ui: UiStateView,
    action: KeyActionView,
    has_ticket: bool,
)
    ensures
        ({
            let after = ui_after(ui, action, has_ticket);
            &&& action matches KeyActionView::ChatAppend(c) ==> after.input.len() == ui.input.len()
                + 1 && after.input.last() == c && after.input.drop_last() == ui.input
            &&& action is ChatBackspace && ui.input.len() > 0 ==> ui.input == after.input.push(
                ui.input.last(),
            )
            &&& action is ChatBackspace && ui.input.len() == 0 ==> after.input.len() == 0
            &&& action is ChatSubmit ==> after.input.len() == 0 && after.mode is Normal
            &&& action matches KeyActionView::SetMode(mode) ==> after.mode == mode
                && after.flash is None
            &&& action is ToggleDebug ==> after.debug_visible == !ui.debug_visible
            &&& action == KeyActionView::Emit(UiEventView::CopyTicket) && !has_ticket
                ==> after.flash is Some
            &&& action == KeyActionView::Emit(UiEventView::CopyTicket) && has_ticket ==> after == ui
            &&& action is Ignore ==> after == ui
            &&& !(action is SetMode) && !(action is ChatSubmit) ==> after.mode == ui.mode
            &&& !(action is SetMode) && action != KeyActionView::Emit(UiEventView::CopyTicket)
                ==> after.flash == ui.flash
            &&& action is Emit || action is Ignore || action is ChatScrollUp
                || action is ChatScrollDown || action is ChatScrollBottom || action is ToggleDebug
                ==> after.input == ui.input
            &&& !(action is ToggleDebug) ==> after.debug_visible == ui.debug_visible
            &&& !(action is ChatScrollUp || action is ChatScrollDown || action is ChatScrollBottom)
                ==> after.chat_scroll == ui.chat_scroll && after.chat_follow == ui.chat_follow
        }),
{
    if let KeyActionView::ChatAppend(c) = action {
        assert(ui.input.push(c).drop_last() =~= ui.input);
    }
    if action is ChatBackspace && ui.input.len() > 0 {
        assert(ui.input =~= ui.input.drop_last().push(ui.input.last()));
    }
}

/// Scrolling up goes five lines toward older messages and stops following;
/// scrolling down goes five lines back, and at the bottom follows again.
pub proof fn law_scrolling_goes_by_five(ui: UiStateView, has_ticket: bool)
    requires
        ui.chat_scroll <= u16::MAX - 5,
    ensures
        ({
            let up = ui_after(ui, KeyActionView::ChatScrollUp, has_ticket);
            let down = ui_after(ui, KeyActionView::ChatScrollDown, has_ticket);
            let bottom = ui_after(ui, KeyActionView::ChatScrollBottom, has_ticket);
            &&& up.chat_scroll == ui.chat_scroll + 5 && !up.chat_follow
            &&& ui.chat_scroll >= 5 ==> down.chat_scroll == ui.chat_scroll - 5
            &&& ui.chat_scroll < 5 ==> down.chat_scroll == 0
            &&& down.chat_scroll == 0 ==> down.chat_follow
            &&& down.chat_scroll > 0 ==> down.chat_follow == ui.chat_follow
            &&& bottom.chat_scroll == 0 && bottom.chat_follow
        }),
{
}

/// What is sent: a typed line without the white space around it, if anything is
/// left; the ticket is copied only if there is one; other wishes as they are; and
/// nothing else.
pub proof fn law_only_wishes_are_sent(ui: UiStateView, action: KeyActionView, has_ticket: bool)
    ensures
        ({
            let sent = ui_sends(ui, action, has_ticket);
            &&& action is ChatSubmit ==> match sent {
                Some(UiEventView::SubmitChat(text)) => text == trimmed(ui.input) && text.len() > 0,
                None => trimmed(ui.input).len() == 0,
                _ => false,
            }
            &&& action matches KeyActionView::Emit(ev) ==> sent == if ev is CopyTicket
                && !has_ticket {
                None::<UiEventView>
            } else {
                Some(ev)
            }
            &&& !(action is ChatSubmit) && !(action is Emit) ==> sent is None
        }),
{
}

/// A message about a copy ends with the ticket, unless it was copied.
pub proof fn law_uncopied_tickets_are_shown(ticket: Seq<char>)
    ensures
        ({
            let failed = copy_message(CopyOutcome::Failed, ticket);
            let unsupported = copy_message(CopyOutcome::Unsupported, ticket);
            &&& failed.len() >= ticket.len()
            &&& failed.skip(failed.len() - ticket.len()) == ticket
            &&& unsupported.len() >= ticket.len()
            &&& unsupported.skip(unsupported.len() - ticket.len()) == ticket
        }),
{
    let failed = copy_message(CopyOutcome::Failed, ticket);
    let unsupported = copy_message(CopyOutcome::Unsupported, ticket);
    assert(failed.skip(failed.len() - ticket.len()) =~= ticket);
    assert(unsupported.skip(unsupported.len() - ticket.len()) =~= ticket);
}

/// Deleting a word leaves the start of the typed line, empty or ending with white
/// space. What goes is a run of characters that are no white space, if there is
/// one, and the white space behind it.
pub proof fn law_word_key_deletes_the_last_word(ui: UiStateView, has_ticket: bool)
    ensures
        ({
            let after = ui_after(ui, KeyActionView::ChatWordDelete, has_ticket);
            let left = after.input;
            &&& after == (UiStateView { input: left, ..ui })
            &&& left.len() <= ui.input.len()
            &&& left == ui.input.take(left.len() as int)
            &&& left.len() > 0 ==> white_space(left.last())
            &&& exists|k: int|
                #![trigger ui.input.take(k)]
                left.len() <= k <= ui.input.len() && (k > 0 ==> left.len() < k) && (forall|j: int|
                    left.len() <= j < k ==> !white_space(#[trigger] ui.input[j])) && (forall|
                    j: int,
                | k <= j < ui.input.len() ==> white_space(#[trigger] ui.input[j]))
        }),
{
    law_last_word_is_deleted(ui.input);
    let k = crate::std_text::without_trailing_space(ui.input).len() as int;
    let head = ui.input.take(k);
}

} // verus!
