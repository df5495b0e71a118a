//! The conversation with mpv over its IPC socket.
//!
//! Each line is a reply to a command, tagged with the number of the request, or
//! an event.

use vstd::prelude::*;

use crate::json::{
    args_view, command_line, get_member, get_text, member, parse_line, parsed_line, render_command,
    text_member, JsonArg, JsonArgView, JsonLine, JsonLineView, JsonScalar, JsonScalarView,
};
use crate::player::event::{reported, translate, MpvEvent, MpvEventView};

verus! {

/// An error reported by the `serde_json` crate.
#[verifier::external_type_specification]
#[verifier::external_body]
pub struct ExJsonError(serde_json::Error);

/// Something went wrong with mpv.
#[derive(Debug)]
pub enum MpvError {
    /// mpv could not be started.
    Spawn(std::io::Error),
    /// The IPC endpoint could not be reached in time.
    Connect { waited_ms: u64, source: std::io::Error },
    /// The IPC endpoint could not be read or written.
    Io(std::io::Error),
    /// mpv sent something that is not JSON.
    BadJson(serde_json::Error),
    /// mpv refused a command.
    CommandFailed(String),
    /// The connection is closed.
    Closed,
}

/// How the mpv process ended.
#[derive(Debug)]
pub enum MpvExit {
    /// mpv exited cleanly.
    Clean { code: Option<i32> },
    /// mpv crashed or was killed.
    Crashed { code: Option<i32> },
    /// The handle was dropped and mpv killed.
    Killed,
    /// We never managed to talk to mpv.
    SpawnFailed(MpvError),
}

/// What we want to hear of from mpv. The end of a seek, `playback-restart`, is
/// no property: mpv reports it as an event by itself.
pub const OBSERVED_PROPERTIES: [&'static str; 9] = [
    "pause",
    "time-pos",
    "seeking",
    "playback-restart",
    "eof-reached",
    "speed",
    "filename",
    "duration",
    "file-size",
];

/// How many properties we ask mpv to observe.
pub const OBSERVED_COUNT: usize = 8;

/// The properties that we ask mpv to observe, in the order of the requests. The
/// end of a seek is reported as an event by itself.
pub open spec fn observed_properties() -> Seq<Seq<char>> {
    seq![
        "pause"@,
        "time-pos"@,
        "seeking"@,
        "eof-reached"@,
        "speed"@,
        "filename"@,
        "duration"@,
        "file-size"@,
    ]
}

/// We ask mpv to observe all that we want to hear of, but for what is reported
/// as an event by itself.
pub proof fn law_all_but_events_are_observed()
    ensures
        observed_properties().len() == OBSERVED_COUNT,
        OBSERVED_PROPERTIES@[3]@ == "playback-restart"@,
        observed_properties() == OBSERVED_PROPERTIES@.remove(3).map_values(|p: &'static str| p@),
{
    assert(observed_properties() =~= OBSERVED_PROPERTIES@.remove(3).map_values(
        |p: &'static str| p@,
    ));
}

/// The property with number `i`.
pub fn observed_property(i: usize) -> (r: &'static str)
    requires
        i < OBSERVED_COUNT,
    ensures
        r@ == observed_properties()[i as int],
{
    match i {
        0 => "pause",
        1 => "time-pos",
        2 => "seeking",
        3 => "eof-reached",
        4 => "speed",
        5 => "filename",
        6 => "duration",
        _ => "file-size",
    }
}

/// The words of the request to observe property number `i`. Observers are
/// numbered from one.
pub open spec fn observe_words(i: int) -> Seq<JsonArgView> {
    seq![
        JsonArgView::Text("observe_property"@),
        JsonArgView::Whole((i + 1) as u64),
        JsonArgView::Text(observed_properties()[i]),
    ]
}

/// The line that asks mpv to observe property number `i`.
pub fn observe_request(i: usize, request_id: u64) -> (r: String)
    requires
        i < OBSERVED_COUNT,
    ensures
        r@ == command_line(observe_words(i as int), request_id),
{
    let args = vec![
        JsonArg::Text("observe_property".to_owned()),
        JsonArg::Whole((i + 1) as u64),
        JsonArg::Text(observed_property(i).to_owned()),
    ];
    assert(args_view(args@) =~= observe_words(i as int));
    render_command(&args, request_id)
}

/// The line that asks mpv to quit.
pub fn quit_request(request_id: u64) -> (r: String)
    ensures
        r@ == command_line(seq![JsonArgView::Text("quit"@)], request_id),
{
    let args = vec![JsonArg::Text("quit".to_owned())];
    assert(args_view(args@) =~= seq![JsonArgView::Text("quit"@)]);
    render_command(&args, request_id)
}

/// What a line from mpv is.
#[derive(Debug, PartialEq, Eq)]
pub enum IpcLine {
    /// Nothing.
    Blank,
    /// Not JSON. It is skipped.
    Malformed,
    /// The reply to a request, with mpv's verdict.
    Reply { request_id: u64, error: String },
    /// An event that matters.
    Event(MpvEvent),
    /// Anything else.
    Ignored,
}

/// What an [`IpcLine`] says.
pub enum IpcLineView {
    Blank,
    Malformed,
    Reply { request_id: u64, error: Seq<char> },
    Event(MpvEventView),
    Ignored,
}

impl View for IpcLine {
    type V = IpcLineView;

    open spec fn view(&self) -> IpcLineView {
        match self {
            IpcLine::Blank => IpcLineView::Blank,
            IpcLine::Malformed => IpcLineView::Malformed,
            IpcLine::Reply { request_id, error } => IpcLineView::Reply {
                request_id: *request_id,
                error: error@,
            },
            IpcLine::Event(ev) => IpcLineView::Event(ev@),
            IpcLine::Ignored => IpcLineView::Ignored,
        }
    }
}

/// What parsed JSON from mpv is. An object with a request number is a reply; a
/// reply that names no error is a success.
pub open spec fn classified(line: JsonLineView) -> IpcLineView {
    match line {
        JsonLineView::Malformed => IpcLineView::Malformed,
        JsonLineView::NotAnObject => IpcLineView::Ignored,
        JsonLineView::Object(members) => match member(members, "request_id"@) {
            Some(JsonScalarView::Number { unsigned: Some(request_id), .. }) => IpcLineView::Reply {
                request_id,
                error: match text_member(members, "error"@) {
                    Some(error) => error,
                    None => "success"@,
                },
            },
            _ => match reported(members) {
                Some(ev) => IpcLineView::Event(ev),
                None => IpcLineView::Ignored,
            },
        },
    }
}

/// Sort out parsed JSON from mpv.
pub fn classify(line: &JsonLine) -> (r: IpcLine)
    ensures
        r@ == classified(line@),
{
    let members = match line {
        JsonLine::Malformed => {
            return IpcLine::Malformed;
        }
        JsonLine::NotAnObject => {
            return IpcLine::Ignored;
        }
        JsonLine::Object(members) => members,
    };
    if let Some(JsonScalar::Number { unsigned: Some(id), .. }) = get_member(members, "request_id") {
        let error = match get_text(members, "error") {
            Some(error) => error.clone(),
            None => "success".to_owned(),
        };
        return IpcLine::Reply { request_id: *id, error };
    }
    match translate(members) {
        Some(ev) => IpcLine::Event(ev),
        None => IpcLine::Ignored,
    }
}

/// Sort out a line from mpv.
pub fn read_line(line: &str) -> (r: IpcLine)
    ensures
        r@ == if line@.len() == 0 {
            IpcLineView::Blank
        } else {
            classified(parsed_line(line@))
        },
{
    if line.is_empty() {
        return IpcLine::Blank;
    }
    classify(&parse_line(line))
}

/// The outcome of a request: mpv's reply, or none if the connection closed
/// first.
pub fn reply_outcome(error: Option<String>) -> (r: Result<(), MpvError>)
    ensures
        match error {
            Some(e) => if e@ == "success"@ {
                r is Ok
            } else {
                r == Err::<(), MpvError>(MpvError::CommandFailed(e))
            },
            None => r matches Err(MpvError::Closed),
        },
{
    match error {
        Some(e) => {
            if e == "success".to_owned() {
                Ok(())
            } else {
                Err(MpvError::CommandFailed(e))
            }
        }
        None => Err(MpvError::Closed),
    }
}

/// How mpv ended, by its exit status.
pub fn classify_exit(success: bool, code: Option<i32>) -> (r: MpvExit)
    ensures
        r == if success {
            MpvExit::Clean { code }
        } else {
            MpvExit::Crashed { code }
        },
{
    if success {
        MpvExit::Clean { code }
    } else {
        MpvExit::Crashed { code }
    }
}

/// An object without a request number is never taken for a reply, and a reply
/// is never taken for an event.
pub proof fn law_replies_are_no_events(members: Seq<(Seq<char>, JsonScalarView)>)
    ensures
        classified(JsonLineView::Object(members)) is Reply ==> member(members, "request_id"@) is Some,
        classified(JsonLineView::Object(members)) is Event ==> !(member(
            members,
            "request_id"@,
        ) matches Some(JsonScalarView::Number { unsigned: Some(_), .. })),
{
}

/// An object with the number of a request is mpv's reply to it, and says what
/// went wrong, or that nothing did. Any other object is the event that it
/// reports, if it reports one.
pub proof fn law_lines_are_replies_or_events(
    members: Seq<(Seq<char>, JsonScalarView)>,
    double: Option<crate::double::Double>,
    id: u64,
)
    ensures
        member(members, "request_id"@) == Some(
            JsonScalarView::Number { double, unsigned: Some(id) },
        ) ==> classified(JsonLineView::Object(members)) == (IpcLineView::Reply {
            request_id: id,
            error: match text_member(members, "error"@) {
                Some(error) => error,
                None => "success"@,
            },
        }),
        member(members, "request_id"@) is None && reported(members) is Some ==> classified(
            JsonLineView::Object(members),
        ) == IpcLineView::Event(reported(members)->0),
        member(members, "request_id"@) is None && reported(members) is None ==> classified(
            JsonLineView::Object(members),
        ) is Ignored,
        classified(JsonLineView::Malformed) is Malformed,
        classified(JsonLineView::NotAnObject) is Ignored,
{
}

/// Every property that we ask mpv to observe is asked for by name, under the
/// number after its place.
pub proof fn law_requests_name_the_property(i: int)
    requires
        0 <= i < OBSERVED_COUNT,
    ensures
        observe_words(i).len() == 3,
        observe_words(i)[0] == JsonArgView::Text("observe_property"@),
        observe_words(i)[1] == JsonArgView::Whole((i + 1) as u64),
        observe_words(i)[2] == JsonArgView::Text(observed_properties()[i]),
{
}

} // verus!
