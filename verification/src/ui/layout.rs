//! What is shown.
//!
//! ```text
//! status bar
//! peers | chat
//! input line
//! key hints
//! ```
//! Everything here turns a snapshot of the room and the state of the UI into
//! text and positions; drawing them is up to the terminal.

use vstd::prelude::*;
use vstd::string::*;

use crate::node_id::NodeId;
use crate::protocol::ChatMessageView;
use crate::ready::ReadyState;
use crate::snapshot::{
    peer_snapshots_view, PeerSnapshot, PeerSnapshotView, RoomSnapshot, RoomSnapshotView,
};
use crate::text::{
    decimal, decimal_text, digits_value, first_chars, law_decimal_can_be_read,
    law_padding_keeps_the_value, pad_end, pad_start, padded_end, padded_start, push_decimal,
    signed_decimal, signed_text, take_chars, two_digits,
};
use crate::ui::keybinds::Mode;
use crate::ui::{text_view, UiState, UiStateView};

verus! {

// --- Times ---

/// Seconds as minutes and seconds, with hours in front if there are any.
pub open spec fn clock(total: nat) -> Seq<char> {
    let tail = two_digits(total % 3600 / 60) + ":"@ + two_digits(total % 60);
    if total >= 3600 {
        two_digits(total / 3600) + ":"@ + tail
    } else {
        tail
    }
}

fn push_two_digits(out: &mut String, n: u64)
    ensures
        final(out)@ == old(out)@ + two_digits(n as nat),
{
    let digits = pad_start(decimal_text(n as u128).as_str(), '0', 2);
    out.append(digits.as_str());
}

/// Seconds as `mm:ss` or `hh:mm:ss`.
pub fn format_secs(total: u64) -> (r: String)
    ensures
        r@ == clock(total as nat),
{
    let mut r = String::new();
    let h: u64 = total / 3600;
    if h > 0 {
        push_two_digits(&mut r, h);
        r.append(":");
    }
    push_two_digits(&mut r, total % 3600 / 60);
    r.append(":");
    push_two_digits(&mut r, total % 60);
    assert(r@ =~= clock(total as nat));
    r
}

/// Milliseconds as `mm:ss` or `hh:mm:ss`.
pub fn format_ms(ms: u64) -> (r: String)
    ensures
        r@ == clock(ms as nat / 1000),
{
    format_secs(ms / 1000)
}

/// A full dot for ready, a hollow one for not ready.
pub fn ready_glyph(ready: bool) -> (r: &'static str)
    ensures
        r@ == glyph(ready),
{
    if ready {
        "●"
    } else {
        "○"
    }
}

pub open spec fn glyph(ready: bool) -> Seq<char> {
    if ready {
        "●"@
    } else {
        "○"@
    }
}

// --- Status bar ---

/// The status bar: file, position, duration, playback, peers, readiness.
pub open spec fn status_text(snap: RoomSnapshotView) -> Seq<char> {
    let file = match snap.local.media {
        Some(m) => m.filename_lower,
        None => "no media"@,
    };
    let duration = match snap.local.media {
        Some(m) => clock(m.duration_s as nat),
        None => "--:--"@,
    };
    let playback = if snap.local.playback.paused {
        "paused"@
    } else {
        "playing"@
    };
    let gate = match snap.ready_state {
        ReadyState::AllReady => "all ready"@,
        ReadyState::Pending => "waiting"@,
    };
    "syncmesh · "@ + file + " · "@ + clock(snap.local.playback.media_pos_ms as nat / 1000) + " / "@
        + duration + " · "@ + playback + " · "@ + decimal((snap.peers.len() + 1) as nat)
        + " peers · "@ + gate
}

/// The status bar.
pub fn status_bar(snap: &RoomSnapshot) -> (r: String)
    ensures
        r@ == status_text(snap@),
{
    let mut r = "syncmesh · ".to_owned();
    match &snap.local.media {
        Some(m) => r.append(m.filename_lower.as_str()),
        None => r.append("no media"),
    }
    r.append(" · ");
    let pos = format_ms(snap.local.playback.media_pos_ms);
    r.append(pos.as_str());
    r.append(" / ");
    match &snap.local.media {
        Some(m) => {
            let dur = format_secs(m.duration_s as u64);
            r.append(dur.as_str());
        }
        None => r.append("--:--"),
    }
    r.append(" · ");
    if snap.local.playback.paused {
        r.append("paused");
    } else {
        r.append("playing");
    }
    r.append(" · ");
    push_decimal(&mut r, snap.peers.len() as u128 + 1);
    r.append(" peers · ");
    match snap.ready_state {
        ReadyState::AllReady => r.append("all ready"),
        ReadyState::Pending => r.append("waiting"),
    }
    r
}

// --- Peers ---

/// One peer in the list: a line with a readiness dot, and a line of detail.
#[derive(Debug, PartialEq, Eq)]
pub struct PeerRow {
    pub ready: bool,
    pub title: String,
    pub detail: String,
}

/// What a [`PeerRow`] says.
pub struct PeerRowView {
    pub ready: bool,
    pub title: Seq<char>,
    pub detail: Seq<char>,
}

impl View for PeerRow {
    type V = PeerRowView;

    open spec fn view(&self) -> PeerRowView {
        PeerRowView { ready: self.ready, title: self.title@, detail: self.detail@ }
    }
}

/// What a list of rows says.
pub open spec fn rows_view(rows: Seq<PeerRow>) -> Seq<PeerRowView> {
    rows.map_values(|r: PeerRow| r@)
}

/// Round-trip time in a column of four.
pub open spec fn rtt_column(rtt_ms: Option<u32>) -> Seq<char> {
    padded_start(
        match rtt_ms {
            Some(m) => decimal(m as nat) + "ms"@,
            None => "--ms"@,
        },
        ' ',
        4,
    )
}

/// Drift with its sign in a column of five.
pub open spec fn drift_column(drift_ms: Option<i64>) -> Seq<char> {
    match drift_ms {
        Some(d) => padded_start(signed_decimal(d as int), ' ', 5),
        None => "     "@,
    }
}

/// The row of another peer.
pub open spec fn peer_row(p: PeerSnapshotView) -> PeerRowView {
    PeerRowView {
        ready: p.ready,
        title: p.nickname,
        detail: "    "@ + rtt_column(p.rtt_ms) + "  "@ + match p.drift_ms {
            Some(_) => drift_column(p.drift_ms) + "ms"@,
            None => drift_column(p.drift_ms),
        },
    }
}

/// The peer list: ourselves first, then the others.
pub open spec fn peer_list(snap: RoomSnapshotView) -> Seq<PeerRowView> {
    seq![
        PeerRowView {
            ready: snap.local.ready,
            title: snap.local.nickname + " (me)"@,
            detail: "    --     --ms"@,
        },
    ] + snap.peers.map_values(|p: PeerSnapshotView| peer_row(p))
}

fn drift_text(drift_ms: Option<i64>) -> (r: String)
    ensures
        r@ == drift_column(drift_ms),
{
    match drift_ms {
        Some(d) => pad_start(signed_text(d).as_str(), ' ', 5),
        None => "     ".to_owned(),
    }
}

fn row_of(p: &PeerSnapshot) -> (r: PeerRow)
    ensures
        r@ == peer_row(p@),
{
    let rtt = match p.rtt_ms {
        Some(m) => decimal_text(m as u128).concat("ms"),
        None => "--ms".to_owned(),
    };
    let column = pad_start(rtt.as_str(), ' ', 4);
    let drift = drift_text(p.drift_ms);
    let mut detail = "    ".to_owned();
    detail.append(column.as_str());
    detail.append("  ");
    detail.append(drift.as_str());
    if p.drift_ms.is_some() {
        detail.append("ms");
    }
    assert(detail@ =~= peer_row(p@).detail);
    PeerRow { ready: p.ready, title: p.nickname.clone(), detail }
}

/// The peer list.
pub fn peer_rows(snap: &RoomSnapshot) -> (r: Vec<PeerRow>)
    ensures
        rows_view(r@) == peer_list(snap@),
{
    let me = PeerRow {
        ready: snap.local.ready,
        title: snap.local.nickname.clone().concat(" (me)"),
        detail: "    --     --ms".to_owned(),
    };
    let mut rows: Vec<PeerRow> = vec![me];
    let ghost peers = snap@.peers;
    let ghost f = |p: PeerSnapshotView| peer_row(p);
    let mut i: usize = 0;
    assert(rows_view(rows@) =~= seq![me@] + peers.map_values(f).take(0));
    while i < snap.peers.len()
        invariant
            0 <= i <= snap.peers@.len(),
            peers == peer_snapshots_view(snap.peers@),
            f == (|p: PeerSnapshotView| peer_row(p)),
            rows_view(rows@) == seq![me@] + peers.map_values(f).take(i as int),
        decreases snap.peers@.len() - i,
    {
        let ghost before = rows@;
        rows.push(row_of(&snap.peers[i]));
        proof {
            assert(rows_view(rows@) =~= rows_view(before).push(peer_row(snap.peers@[i as int]@)));
            assert(peers.map_values(f).take(i + 1) =~= peers.map_values(f).take(i as int).push(
                peer_row(peers[i as int]),
            ));
            assert(rows_view(rows@) =~= seq![me@] + peers.map_values(f).take(i + 1));
        }
        i = i + 1;
    }
    proof {
        assert(peers.map_values(f).take(i as int) =~= peers.map_values(f));
    }
    rows
}

// --- Observability pane ---

/// The first line of the observability pane.
pub open spec fn debug_header(snap: RoomSnapshotView) -> Seq<char> {
    "peers: "@ + decimal((snap.peers.len() + 1) as nat) + "   ready: "@ + (match snap.ready_state {
        ReadyState::AllReady => "all"@,
        ReadyState::Pending => "pending"@,
    }) + "   override: "@ + (if snap.override_enabled {
        "on"@
    } else {
        "off"@
    })
}

/// A line of the observability pane: nickname, round-trip time, drift.
pub open spec fn debug_line(p: PeerSnapshotView) -> Seq<char> {
    padded_end(first_chars(p.nickname, 16), 16) + "  rtt "@ + (match p.rtt_ms {
        Some(m) => padded_start(decimal(m as nat), ' ', 4),
        None => "  --"@,
    }) + "ms  drift "@ + drift_column(p.drift_ms) + "ms"@
}

/// The observability pane: a header, a rule, a line per peer.
pub open spec fn debug_text(snap: RoomSnapshotView) -> Seq<Seq<char>> {
    seq![debug_header(snap), "──────────────────────────────────────"@]
        + snap.peers.map_values(|p: PeerSnapshotView| debug_line(p))
}

/// What a list of lines says.
pub open spec fn lines_view(lines: Seq<String>) -> Seq<Seq<char>> {
    lines.map_values(|l: String| l@)
}

fn debug_line_of(p: &PeerSnapshot) -> (r: String)
    ensures
        r@ == debug_line(p@),
{
    let nick = take_chars(p.nickname.as_str(), 16);
    let mut r = pad_end(nick.as_str(), 16);
    r.append("  rtt ");
    match p.rtt_ms {
        Some(m) => {
            let rtt = pad_start(decimal_text(m as u128).as_str(), ' ', 4);
            r.append(rtt.as_str());
        }
        None => r.append("  --"),
    }
    r.append("ms  drift ");
    let drift = drift_text(p.drift_ms);
    r.append(drift.as_str());
    r.append("ms");
    r
}

/// The lines of the observability pane.
pub fn debug_lines(snap: &RoomSnapshot) -> (r: Vec<String>)
    ensures
        lines_view(r@) == debug_text(snap@),
{
    let mut header = "peers: ".to_owned();
    push_decimal(&mut header, snap.peers.len() as u128 + 1);
    header.append("   ready: ");
    match snap.ready_state {
        ReadyState::AllReady => header.append("all"),
        ReadyState::Pending => header.append("pending"),
    }
    header.append("   override: ");
    if snap.override_enabled {
        header.append("on");
    } else {
        header.append("off");
    }
    let rule = "──────────────────────────────────────".to_owned();
    let mut lines: Vec<String> = vec![header, rule];
    let ghost peers = snap@.peers;
    let ghost head = seq![header@, rule@];
    let ghost f = |p: PeerSnapshotView| debug_line(p);
    let mut i: usize = 0;
    assert(lines_view(lines@) =~= head + peers.map_values(f).take(0));
    while i < snap.peers.len()
        invariant
            0 <= i <= snap.peers@.len(),
            peers == peer_snapshots_view(snap.peers@),
            f == (|p: PeerSnapshotView| debug_line(p)),
            lines_view(lines@) == head + peers.map_values(f).take(i as int),
        decreases snap.peers@.len() - i,
    {
        let ghost before = lines@;
        lines.push(debug_line_of(&snap.peers[i]));
        proof {
            assert(lines_view(lines@) =~= lines_view(before).push(
                debug_line(snap.peers@[i as int]@),
            ));
            assert(peers.map_values(f).take(i + 1) =~= peers.map_values(f).take(i as int).push(
                debug_line(peers[i as int]),
            ));
            assert(lines_view(lines@) =~= head + peers.map_values(f).take(i + 1));
        }
        i = i + 1;
    }
    proof {
        assert(peers.map_values(f).take(i as int) =~= peers.map_values(f));
    }
    lines
}

/// A rectangle on the screen.
#[derive(Debug, Clone, Copy, PartialEq, Eq, Structural)]
pub struct Area {
    pub x: u16,
    pub y: u16,
    pub width: u16,
    pub height: u16,
}

/// `a - b`, or zero.
pub open spec fn minus(a: int, b: int) -> int {
    if a >= b {
        a - b
    } else {
        0
    }
}

/// `a + b`, or the largest `u16`.
pub open spec fn plus(a: int, b: int) -> int {
    if a + b <= u16::MAX {
        a + b
    } else {
        u16::MAX as int
    }
}

/// The smaller one.
pub open spec fn least(a: int, b: int) -> int {
    if a <= b {
        a
    } else {
        b
    }
}

/// Where the observability pane goes: at the bottom right, with a line per peer
/// and three more as far as there is room, above the input line and the hints.
pub open spec fn debug_area(screen: Area, peers: nat) -> Area {
    let wanted = plus(least(peers as int, u16::MAX as int), 3);
    let room = least(wanted, minus(screen.height as int, 2));
    let h = if room < 3 {
        3
    } else {
        room
    };
    let w = least(42, minus(screen.width as int, 2));
    Area {
        x: minus(plus(screen.x as int, screen.width as int), w + 1) as u16,
        y: minus(plus(screen.y as int, screen.height as int), h + 2) as u16,
        width: w as u16,
        height: h as u16,
    }
}

/// Where the observability pane goes.
pub fn debug_popup(screen: Area, peers: usize) -> (r: Area)
    ensures
        r == debug_area(screen, peers as nat),
{
    let count: u16 = if peers <= u16::MAX as usize {
        peers as u16
    } else {
        u16::MAX
    };
    let wanted: u16 = count.saturating_add(3);
    let limit: u16 = screen.height.saturating_sub(2);
    let room: u16 = if wanted <= limit {
        wanted
    } else {
        limit
    };
    let h: u16 = if room < 3 {
        3
    } else {
        room
    };
    let avail: u16 = screen.width.saturating_sub(2);
    let w: u16 = if 42 <= avail {
        42
    } else {
        avail
    };
    let right: u16 = screen.x.saturating_add(screen.width);
    let bottom: u16 = screen.y.saturating_add(screen.height);
    Area { x: right.saturating_sub(w + 1), y: bottom.saturating_sub(h + 2), width: w, height: h }
}

// --- Chat ---

/// The nickname of the first peer with this identifier.
pub open spec fn nickname_of(peers: Seq<PeerSnapshotView>, n: NodeId) -> Option<Seq<char>>
    decreases peers.len(),
{
    if peers.len() == 0 {
        None
    } else if peers[0].node == n {
        Some(peers[0].nickname)
    } else {
        nickname_of(peers.skip(1), n)
    }
}

/// Who said it: ourselves, a known peer by its nickname, or an identifier.
pub open spec fn speaker(snap: RoomSnapshotView, origin: NodeId) -> Seq<char> {
    if origin == snap.local.node {
        "you"@
    } else {
        match nickname_of(snap.peers, origin) {
            Some(nick) => nick,
            None => origin.short_name(),
        }
    }
}

/// What stands in front of a chat message.
pub open spec fn chat_prefix(snap: RoomSnapshotView, origin: NodeId) -> Seq<char> {
    padded_start(speaker(snap, origin), ' ', 10) + ": "@
}

fn find_nickname(peers: &Vec<PeerSnapshot>, n: &NodeId) -> (r: Option<String>)
    ensures
        text_view(r) == nickname_of(peer_snapshots_view(peers@), *n),
{
    let ghost all = peer_snapshots_view(peers@);
    let mut i: usize = 0;
    proof {
        assert(all.skip(0) =~= all);
    }
    while i < peers.len()
        invariant
            0 <= i <= peers@.len(),
            all == peer_snapshots_view(peers@),
            nickname_of(all, *n) == nickname_of(all.skip(i as int), *n),
        decreases peers@.len() - i,
    {
        proof {
            assert(all.skip(i as int)[0] == peers@[i as int]@);
            assert(all.skip(i as int).skip(1) =~= all.skip(i + 1));
        }
        if peers[i].node == *n {
            return Some(peers[i].nickname.clone());
        }
        i = i + 1;
    }
    None
}

/// What stands in front of a message of `origin`.
pub fn chat_speaker(snap: &RoomSnapshot, origin: &NodeId) -> (r: String)
    ensures
        r@ == chat_prefix(snap@, *origin),
{
    let who = if *origin == snap.local.node {
        "you".to_owned()
    } else {
        match find_nickname(&snap.peers, origin) {
            Some(nick) => nick,
            None => origin.abbreviated(),
        }
    };
    let mut r = pad_start(who.as_str(), ' ', 10);
    r.append(": ");
    r
}

/// One line of the chat: who, and what.
pub type ChatLine = (String, String);

/// What a list of chat lines says.
pub open spec fn chat_lines_view(lines: Seq<ChatLine>) -> Seq<(Seq<char>, Seq<char>)> {
    lines.map_values(|l: ChatLine| (l.0@, l.1@))
}

/// The chat, oldest message first.
pub open spec fn chat_text(snap: RoomSnapshotView) -> Seq<(Seq<char>, Seq<char>)> {
    snap.chat.map_values(|m: ChatMessageView| (chat_prefix(snap, m.origin), m.text))
}

/// The chat, oldest message first.
pub fn chat_lines(snap: &RoomSnapshot) -> (r: Vec<ChatLine>)
    ensures
        chat_lines_view(r@) == chat_text(snap@),
{
    let mut lines: Vec<ChatLine> = Vec::new();
    let mut i: usize = 0;
    while i < snap.chat.len()
        invariant
            0 <= i <= snap.chat@.len(),
            lines@.len() == i,
            forall|j: int|
                #![trigger lines@[j]]
                0 <= j < i ==> lines@[j].0@ == chat_prefix(snap@, snap.chat@[j].origin)
                    && lines@[j].1@ == snap.chat@[j].text@,
        decreases snap.chat@.len() - i,
    {
        let m = &snap.chat[i];
        lines.push((chat_speaker(snap, &m.origin), m.text.clone()));
        i = i + 1;
    }
    assert(chat_lines_view(lines@) =~= chat_text(snap@));
    lines
}

/// The first line of the chat that is shown: as far down as it goes when
/// following, else so far up from there as was scrolled.
pub open spec fn scroll_offset(ui: UiStateView, lines: nat, height: u16) -> int {
    let bottom = minus(least(lines as int, u16::MAX as int), height as int);
    if ui.chat_follow {
        bottom
    } else {
        minus(bottom, ui.chat_scroll as int)
    }
}

/// The first line of the chat that is shown.
pub fn chat_offset(ui: &UiState, lines: usize, height: u16) -> (r: u16)
    ensures
        r == scroll_offset(ui@, lines as nat, height),
{
    let count: u16 = if lines <= u16::MAX as usize {
        lines as u16
    } else {
        u16::MAX
    };
    let bottom: u16 = count.saturating_sub(height);
    if ui.chat_follow {
        bottom
    } else {
        bottom.saturating_sub(ui.chat_scroll)
    }
}

// --- Input line and hints ---

/// The input line: what is being typed, or a short message.
pub open spec fn input_text(ui: UiStateView) -> (Seq<char>, Seq<char>) {
    match (ui.mode, ui.flash) {
        (Mode::Chat, _) => ("> "@, ui.input),
        (Mode::Normal, Some(flash)) => ("! "@, flash),
        _ => ("  "@, ""@),
    }
}

/// The input line: a mark and the text.
pub fn input_line(ui: &UiState) -> (r: (&'static str, String))
    ensures
        (r.0@, r.1@) == input_text(ui@),
{
    match ui.mode {
        Mode::Chat => ("> ", ui.input.as_str().to_owned()),
        Mode::Normal => match &ui.flash {
            Some(flash) => ("! ", flash.clone()),
            None => ("  ", "".to_owned()),
        },
        Mode::Help => ("  ", "".to_owned()),
    }
}

/// The hints for a mode.
pub open spec fn hints(mode: Mode) -> Seq<char> {
    match mode {
        Mode::Normal =>
            "r ready   c copy   space pause   / chat   tab override   ctrl-d debug   ? help   q quit"@,
        Mode::Chat => "enter send   esc cancel   ctrl-w delete word"@,
        Mode::Help => "press any key to close"@,
    }
}

/// The hints for a mode.
pub fn keyhints(mode: Mode) -> (r: &'static str)
    ensures
        r@ == hints(mode),
{
    match mode {
        Mode::Normal =>
            "r ready   c copy   space pause   / chat   tab override   ctrl-d debug   ? help   q quit",
        Mode::Chat => "enter send   esc cancel   ctrl-w delete word",
        Mode::Help => "press any key to close",
    }
}

/// The lines of the help overlay.
pub open spec fn help_text() -> Seq<Seq<char>> {
    seq![
        "syncmesh keybindings"@,
        ""@,
        "  r         toggle ready"@,
        "  c         copy room ticket to clipboard"@,
        "  space     toggle pause for the mesh"@,
        "  /         enter chat mode"@,
        "  tab       toggle ready-gate override"@,
        "  ctrl-d    toggle debug pane (RTT / drift)"@,
        "  ?         show this help"@,
        "  q         quit"@,
        ""@,
        "  chat mode: enter to send, esc to cancel, ctrl-w word delete"@,
    ]
}

/// The lines of the help overlay.
pub fn help_lines() -> (r: Vec<String>)
    ensures
        lines_view(r@) == help_text(),
{
    let lines = vec![
        "syncmesh keybindings".to_owned(),
        "".to_owned(),
        "  r         toggle ready".to_owned(),
        "  c         copy room ticket to clipboard".to_owned(),
        "  space     toggle pause for the mesh".to_owned(),
        "  /         enter chat mode".to_owned(),
        "  tab       toggle ready-gate override".to_owned(),
        "  ctrl-d    toggle debug pane (RTT / drift)".to_owned(),
        "  ?         show this help".to_owned(),
        "  q         quit".to_owned(),
        "".to_owned(),
        "  chat mode: enter to send, esc to cancel, ctrl-w word delete".to_owned(),
    ];
    assert(lines_view(lines@) =~= help_text());
    lines
}

// --- The whole screen ---

/// The title of the observability pane.
pub const DEBUG_TITLE: &'static str = "debug (Ctrl-D)";

/// The title of the help overlay.
pub const HELP_TITLE: &'static str = "help";

/// A pane on top of the others.
#[derive(Debug)]
pub struct Overlay {
    pub title: &'static str,
    pub lines: Vec<String>,
}

/// Everything that is shown, from top to bottom.
#[derive(Debug)]
pub struct Screen {
    pub status: String,
    pub peers: Vec<PeerRow>,
    pub chat: Vec<ChatLine>,
    /// A mark and the text.
    pub input: (&'static str, String),
    pub hints: &'static str,
    pub debug: Option<Overlay>,
    pub help: Option<Overlay>,
}

/// What an [`Overlay`] shows.
pub struct OverlayView {
    pub title: Seq<char>,
    pub lines: Seq<Seq<char>>,
}

/// What a [`Screen`] shows.
pub struct ScreenView {
    pub status: Seq<char>,
    pub peers: Seq<PeerRowView>,
    pub chat: Seq<(Seq<char>, Seq<char>)>,
    pub input: (Seq<char>, Seq<char>),
    pub hints: Seq<char>,
    pub debug: Option<OverlayView>,
    pub help: Option<OverlayView>,
}

impl View for Overlay {
    type V = OverlayView;

    open spec fn view(&self) -> OverlayView {
        OverlayView { title: self.title@, lines: lines_view(self.lines@) }
    }
}

/// What an overlay shows, if there is one.
pub open spec fn overlay_view(o: Option<Overlay>) -> Option<OverlayView> {
    match o {
        Some(o) => Some(o@),
        None => None,
    }
}

impl View for Screen {
    type V = ScreenView;

    open spec fn view(&self) -> ScreenView {
        ScreenView {
            status: self.status@,
            peers: rows_view(self.peers@),
            chat: chat_lines_view(self.chat@),
            input: (self.input.0@, self.input.1@),
            hints: self.hints@,
            debug: overlay_view(self.debug),
            help: overlay_view(self.help),
        }
    }
}

/// The screen for a room: the observability pane is shown when it was toggled
/// on, the help overlay in help mode.
pub open spec fn screen_of(snap: RoomSnapshotView, ui: UiStateView) -> ScreenView {
    ScreenView {
        status: status_text(snap),
        peers: peer_list(snap),
        chat: chat_text(snap),
        input: input_text(ui),
        hints: hints(ui.mode),
        debug: if ui.debug_visible {
            Some(OverlayView { title: DEBUG_TITLE@, lines: debug_text(snap) })
        } else {
            None
        },
        help: if ui.mode is Help {
            Some(OverlayView { title: HELP_TITLE@, lines: help_text() })
        } else {
            None
        },
    }
}

/// Compose the screen for a room.
pub fn compose(snap: &RoomSnapshot, ui: &UiState) -> (r: Screen)
    ensures
        r@ == screen_of(snap@, ui@),
{
    let debug = if ui.debug_visible {
        Some(Overlay { title: DEBUG_TITLE, lines: debug_lines(snap) })
    } else {
        None
    };
    let help = if ui.mode == Mode::Help {
        Some(Overlay { title: HELP_TITLE, lines: help_lines() })
    } else {
        None
    };
    Screen {
        status: status_bar(snap),
        peers: peer_rows(snap),
        chat: chat_lines(snap),
        input: input_line(ui),
        hints: keyhints(ui.mode),
        debug,
        help,
    }
}

/// The observability pane stays on a screen that is large enough for it.
pub proof fn law_debug_area_fits(screen: Area, peers: nat)
    requires
        screen.width >= 3,
        screen.height >= 5,
        screen.x + screen.width <= u16::MAX,
        screen.y + screen.height <= u16::MAX,
    ensures
        ({
            let a = debug_area(screen, peers);
            &&& screen.x <= a.x
            &&& a.x + a.width <= screen.x + screen.width
            &&& a.height <= screen.height
            &&& a.y + a.height <= screen.y + screen.height
        }),
{
}

/// A time can be read: below an hour it is minutes and seconds of two digits,
/// and they add up to the time.
pub proof fn law_short_times_can_be_read(total: nat)
    requires
        total < 3600,
    ensures
        clock(total).len() == 5,
        clock(total)[2] == ':',
        60 * digits_value(clock(total).subrange(0, 2)) + digits_value(clock(total).subrange(3, 5))
            == total,
        digits_value(clock(total).subrange(3, 5)) < 60,
{
    reveal_strlit(":");
    let m = total % 3600 / 60;
    let s = total % 60;
    lemma_two_digits(m);
    lemma_two_digits(s);
    assert(clock(total).subrange(0, 2) =~= two_digits(m));
    assert(clock(total).subrange(3, 5) =~= two_digits(s));
}

/// From an hour on the hours stand in front, and hours, minutes and seconds add
/// up to the time.
pub proof fn law_long_times_can_be_read(total: nat)
    requires
        total >= 3600,
    ensures
        ({
            let c = clock(total);
            let n = c.len();
            &&& n >= 8
            &&& c[n - 3] == ':' && c[n - 6] == ':'
            &&& 3600 * digits_value(c.take(n - 6)) + 60 * digits_value(c.subrange(n - 5, n - 3))
                + digits_value(c.subrange(n - 2, n as int)) == total
            &&& digits_value(c.subrange(n - 5, n - 3)) < 60
            &&& digits_value(c.subrange(n - 2, n as int)) < 60
        }),
{
    reveal_strlit(":");
    let h = total / 3600;
    let m = total % 3600 / 60;
    let s = total % 60;
    law_decimal_can_be_read(h);
    law_padding_keeps_the_value(decimal(h), 2);
    lemma_two_digits(m);
    lemma_two_digits(s);
    let c = clock(total);
    let n = c.len();
    assert(c.take(n - 6) =~= two_digits(h));
    assert(c.subrange(n - 5, n - 3) =~= two_digits(m));
    assert(c.subrange(n - 2, n as int) =~= two_digits(s));
}

proof fn lemma_two_digits(n: nat)
    requires
        n < 100,
    ensures
        two_digits(n).len() == 2,
        digits_value(two_digits(n)) == n,
{
    law_decimal_can_be_read(n);
    law_padding_keeps_the_value(decimal(n), 2);
    if n >= 10 {
        assert(n / 10 < 10);
        assert(decimal(n / 10).len() == 1);
    }
}

/// The peer list has a row for us and one for each peer, in the order of the
/// snapshot, with the nickname and the readiness of each.
pub proof fn law_everyone_has_a_row(snap: RoomSnapshotView, i: int)
    requires
        0 <= i < snap.peers.len(),
    ensures
        peer_list(snap).len() == snap.peers.len() + 1,
        peer_list(snap)[0].ready == snap.local.ready,
        peer_list(snap)[0].title == snap.local.nickname + " (me)"@,
        peer_list(snap)[i + 1].ready == snap.peers[i].ready,
        peer_list(snap)[i + 1].title == snap.peers[i].nickname,
{
}

/// The observability pane has a line for each peer below two others; each starts
/// with the nickname, cut off at 16 characters.
pub proof fn law_everyone_has_a_line(snap: RoomSnapshotView, i: int)
    requires
        0 <= i < snap.peers.len(),
    ensures
        debug_text(snap).len() == snap.peers.len() + 2,
        debug_text(snap)[i + 2].len() >= 16,
        forall|j: int|
            0 <= j < 16 && j < snap.peers[i].nickname.len() ==> #[trigger] debug_text(snap)[i
                + 2][j] == snap.peers[i].nickname[j],
        forall|j: int|
            snap.peers[i].nickname.len() <= j < 16 ==> #[trigger] debug_text(snap)[i + 2][j] == ' ',
{
    let nick = first_chars(snap.peers[i].nickname, 16);
    crate::text::law_padding_keeps_the_text(nick, ' ', 16);
    let head = padded_end(nick, 16);
    let line = debug_text(snap)[i + 2];
    assert(line == debug_line(snap.peers[i]));
    assert forall|j: int| 0 <= j < 16 implies #[trigger] line[j] == head[j] by {}
    assert forall|j: int| 0 <= j < nick.len() implies #[trigger] head[j] == nick[j] by {
        assert(head.take(nick.len() as int)[j] == head[j]);
    }
}

/// Our own messages are marked as ours, those of a peer in the room by its
/// nickname, and those of anyone else by an identifier. The text is shown as it
/// is, in the order of the chat.
pub proof fn law_messages_show_who_said_them(snap: RoomSnapshotView, i: int, k: int)
    requires
        0 <= i < snap.chat.len(),
    ensures
        chat_text(snap).len() == snap.chat.len(),
        chat_text(snap)[i].1 == snap.chat[i].text,
        snap.chat[i].origin == snap.local.node ==> speaker(snap, snap.chat[i].origin) == "you"@,
        snap.chat[i].origin != snap.local.node && 0 <= k < snap.peers.len() && snap.peers[k].node
            == snap.chat[i].origin && (forall|j: int|
            0 <= j < k ==> (#[trigger] snap.peers[j]).node != snap.chat[i].origin) ==> speaker(
            snap,
            snap.chat[i].origin,
        ) == snap.peers[k].nickname,
        snap.chat[i].origin != snap.local.node && (forall|j: int|
            0 <= j < snap.peers.len() ==> (#[trigger] snap.peers[j]).node != snap.chat[i].origin)
            ==> speaker(snap, snap.chat[i].origin) == snap.chat[i].origin.short_name(),
        chat_text(snap)[i].0 == padded_start(speaker(snap, snap.chat[i].origin), ' ', 10) + ": "@,
{
    lemma_nickname(snap.peers, snap.chat[i].origin, k);
}

proof fn lemma_nickname(peers: Seq<PeerSnapshotView>, n: NodeId, k: int)
    ensures
        0 <= k < peers.len() && peers[k].node == n && (forall|j: int|
            0 <= j < k ==> (#[trigger] peers[j]).node != n) ==> nickname_of(peers, n) == Some(
            peers[k].nickname,
        ),
        (forall|j: int| 0 <= j < peers.len() ==> (#[trigger] peers[j]).node != n) ==> nickname_of(
            peers,
            n,
        ) is None,
    decreases peers.len(),
{
    if peers.len() > 0 {
        let rest = peers.skip(1);
        lemma_nickname(rest, n, k - 1);
        assert forall|j: int| 0 <= j < rest.len() implies #[trigger] rest[j] == peers[j + 1] by {}
        if 0 < k < peers.len() {
            assert(rest[k - 1] == peers[k]);
            if forall|j: int| 0 <= j < k ==> (#[trigger] peers[j]).node != n {
                assert(peers[0].node != n);
                assert forall|j: int| 0 <= j < k - 1 implies (#[trigger] rest[j]).node != n by {
                    assert(rest[j] == peers[j + 1]);
                }
            }
        }
    }
}

/// The chat never scrolls past its end. When following, the last line is shown at
/// the bottom; else the view is as far up from there as was scrolled, if there is
/// so much above.
pub proof fn law_chat_scrolls_within_its_lines(ui: UiStateView, lines: nat, height: u16)
    requires
        lines <= u16::MAX,
    ensures
        ({
            let top = scroll_offset(ui, lines, height);
            &&& 0 <= top <= lines
            &&& lines <= height ==> top == 0
            &&& ui.chat_follow && lines > height ==> top + height == lines
            &&& !ui.chat_follow && lines >= height + ui.chat_scroll ==> top + height
                + ui.chat_scroll == lines
            &&& !ui.chat_follow && lines < height + ui.chat_scroll ==> top == 0
        }),
{
}

/// What is typed is shown in chat mode, a short message in normal mode, and
/// nothing while the help is open.
pub proof fn law_typed_text_is_shown(ui: UiStateView)
    ensures
        ui.mode is Chat ==> input_text(ui).1 == ui.input,
        ui.mode is Normal && ui.flash is Some ==> input_text(ui).1 == ui.flash->0,
        ui.mode is Normal && ui.flash is None ==> input_text(ui).1 == ""@,
        ui.mode is Help ==> input_text(ui).1 == ""@,
{
}

/// A screen shows the observability pane exactly when it is switched on, the help
/// exactly in help mode, and always the room.
pub proof fn law_panes_are_shown_on_demand(snap: RoomSnapshotView, ui: UiStateView)
    ensures
        ({
            let screen = screen_of(snap, ui);
            &&& screen.debug is Some <==> ui.debug_visible
            &&& screen.help is Some <==> ui.mode is Help
            &&& screen.peers.len() == snap.peers.len() + 1
            &&& screen.chat.len() == snap.chat.len()
            &&& screen.status == status_text(snap)
            &&& screen.debug is Some ==> screen.debug->0.lines == debug_text(snap)
            &&& screen.help is Some ==> screen.help->0.lines == help_text()
        }),
{
}

/// A round-trip time can be read from its column, and so can a drift with its
/// sign.
pub proof fn law_columns_can_be_read(rtt_ms: u32, drift_ms: i64)
    ensures
        ({
            let r = rtt_column(Some(rtt_ms));
            let digits = decimal(rtt_ms as nat);
            &&& r.len() >= 4
            &&& r.subrange(r.len() - 2 - digits.len(), r.len() - 2) == digits
            &&& r.skip(r.len() - 2) == "ms"@
        }),
        ({
            let d = drift_column(Some(drift_ms));
            let digits = signed_decimal(drift_ms as int);
            &&& d.len() >= 5
            &&& d.skip(d.len() - digits.len()) == digits
        }),
{
    reveal_strlit("ms");
    let body = decimal(rtt_ms as nat) + "ms"@;
    crate::text::law_padding_keeps_the_text(body, ' ', 4);
    let r = rtt_column(Some(rtt_ms));
    let digits = decimal(rtt_ms as nat);
    let more = r.len() - body.len();
    assert(r.subrange(r.len() - 2 - digits.len(), r.len() - 2) =~= r.skip(more).take(
        digits.len() as int,
    ));
    assert(body.take(digits.len() as int) =~= digits);
    assert(r.skip(r.len() - 2) =~= r.skip(more).skip(digits.len() as int));
    assert(body.skip(digits.len() as int) =~= "ms"@);
    crate::text::law_padding_keeps_the_text(signed_decimal(drift_ms as int), ' ', 5);
}

/// On a screen with room enough, the observability pane is 42 wide and has a line
/// for each peer and three more; it leaves one column free at the right and two
/// lines at the bottom.
pub proof fn law_debug_area_is_at_the_bottom_right(screen: Area, peers: nat)
    requires
        screen.width >= 44,
        screen.height >= peers + 5,
        screen.x + screen.width <= u16::MAX,
        screen.y + screen.height <= u16::MAX,
    ensures
        ({
            let a = debug_area(screen, peers);
            &&& a.width == 42
            &&& a.height == peers + 3
            &&& a.x + a.width + 1 == screen.x + screen.width
            &&& a.y + a.height + 2 == screen.y + screen.height
        }),
{
}

/// The status bar names the file, the position and the length, or that there is
/// no file; whether we play; how many are in the room; and whether all are
/// ready.
pub proof fn law_status_sums_up_the_room(
    snap: RoomSnapshotView,
    file: Seq<char>,
    length: Seq<char>,
)
    requires
        match snap.local.media {
            Some(m) => file == m.filename_lower && length == clock(m.duration_s as nat),
            None => file == "no media"@ && length == "--:--"@,
        },
    ensures
        ({
            let start = "syncmesh · "@ + file + " · "@ + clock(
                snap.local.playback.media_pos_ms as nat / 1000,
            ) + " / "@ + length + " · "@;
            let count = " · "@ + decimal((snap.peers.len() + 1) as nat) + " peers · "@;
            let s = status_text(snap);
            &&& snap.local.playback.paused && snap.ready_state is AllReady ==> s == start
                + "paused"@ + count + "all ready"@
            &&& snap.local.playback.paused && snap.ready_state is Pending ==> s == start
                + "paused"@ + count + "waiting"@
            &&& !snap.local.playback.paused && snap.ready_state is AllReady ==> s == start
                + "playing"@ + count + "all ready"@
            &&& !snap.local.playback.paused && snap.ready_state is Pending ==> s == start
                + "playing"@ + count + "waiting"@
        }),
{
    let start = "syncmesh · "@ + file + " · "@ + clock(
        snap.local.playback.media_pos_ms as nat / 1000,
    ) + " / "@ + length + " · "@;
    let count = " · "@ + decimal((snap.peers.len() + 1) as nat) + " peers · "@;
    let playback = if snap.local.playback.paused {
        "paused"@
    } else {
        "playing"@
    };
    let gate = match snap.ready_state {
        ReadyState::AllReady => "all ready"@,
        ReadyState::Pending => "waiting"@,
    };
    assert(status_text(snap) =~= start + playback + count + gate);
}

/// A row shows the round-trip time and how far we are ahead, each in its column;
/// what is not known shows as dashes or stays empty.
pub proof fn law_rows_show_what_is_measured(p: PeerSnapshotView)
    ensures
        ({
            let d = peer_row(p).detail;
            &&& p.rtt_ms is Some && p.drift_ms is Some ==> d == "    "@ + padded_start(
                decimal(p.rtt_ms->0 as nat) + "ms"@,
                ' ',
                4,
            ) + "  "@ + (padded_start(signed_decimal(p.drift_ms->0 as int), ' ', 5) + "ms"@)
            &&& p.rtt_ms is None && p.drift_ms is None ==> d == "    "@ + "--ms"@ + "  "@
                + "     "@
            &&& p.rtt_ms is None && p.drift_ms is Some ==> d == "    "@ + "--ms"@ + "  "@ + (
            padded_start(signed_decimal(p.drift_ms->0 as int), ' ', 5) + "ms"@)
            &&& p.rtt_ms is Some && p.drift_ms is None ==> d == "    "@ + padded_start(
                decimal(p.rtt_ms->0 as nat) + "ms"@,
                ' ',
                4,
            ) + "  "@ + "     "@
        }),
{
    reveal_strlit("--ms");
}

/// A line of the observability pane goes on with the round-trip time and how far
/// we are ahead; the first line counts the room and says whether it may play and
/// whether the override is on.
pub proof fn law_lines_show_what_is_measured(snap: RoomSnapshotView, i: int)
    requires
        0 <= i < snap.peers.len(),
    ensures
        ({
            let p = snap.peers[i];
            let tail = debug_text(snap)[i + 2].skip(16);
            &&& p.rtt_ms is Some && p.drift_ms is Some ==> tail == "  rtt "@ + padded_start(
                decimal(p.rtt_ms->0 as nat),
                ' ',
                4,
            ) + "ms  drift "@ + padded_start(signed_decimal(p.drift_ms->0 as int), ' ', 5) + "ms"@
            &&& p.rtt_ms is None && p.drift_ms is None ==> tail == "  rtt "@ + "  --"@
                + "ms  drift "@ + "     "@ + "ms"@
        }),
        ({
            let head = "peers: "@ + decimal((snap.peers.len() + 1) as nat) + "   ready: "@;
            let h = debug_text(snap)[0];
            &&& snap.ready_state is AllReady && snap.override_enabled ==> h == head + "all"@
                + "   override: "@ + "on"@
            &&& snap.ready_state is AllReady && !snap.override_enabled ==> h == head + "all"@
                + "   override: "@ + "off"@
            &&& snap.ready_state is Pending && snap.override_enabled ==> h == head + "pending"@
                + "   override: "@ + "on"@
            &&& snap.ready_state is Pending && !snap.override_enabled ==> h == head + "pending"@
                + "   override: "@ + "off"@
        }),
{
    let p = snap.peers[i];
    let nick = first_chars(p.nickname, 16);
    crate::text::law_padding_keeps_the_text(nick, ' ', 16);
    let line = debug_text(snap)[i + 2];
    assert(line == debug_line(p));
    let rtt = match p.rtt_ms {
        Some(m) => padded_start(decimal(m as nat), ' ', 4),
        None => "  --"@,
    };
    assert(padded_end(nick, 16).len() == 16);
    assert(line.skip(16) =~= "  rtt "@ + rtt + "ms  drift "@ + drift_column(p.drift_ms) + "ms"@);
}

} // verus!
