//! Events reported by mpv.
//!
//! mpv reports more than we observe; everything else is ignored.

use vstd::prelude::*;

use crate::double::Double;
use crate::json::{
    get_member, get_text, is_text, member, members_view, text_member, JsonScalar, JsonScalarView,
    Member,
};

verus! {

/// An event of mpv that matters to us.
#[derive(Debug, Clone, PartialEq, Eq)]
pub enum MpvEvent {
    /// The pause state changed.
    Pause(bool),
    /// The position moved, in seconds. mpv reports this about every 100 ms
    /// during playback.
    TimePos(Double),
    /// A seek started: positions are misleading until it is over.
    Seeking,
    /// The last seek or file load is over and playback is live again.
    PlaybackRestart,
    /// The end of the file was reached.
    EofReached,
    /// The playback speed changed (1 is normal).
    Speed(Double),
    /// A new file was loaded; this is its basename.
    Filename(String),
    /// Duration of the loaded file, in seconds.
    Duration(Double),
    /// Size of the loaded file, in bytes.
    FileSize(u64),
    /// mpv is gone. No further events follow.
    Shutdown,
}

/// What an [`MpvEvent`] says.
pub enum MpvEventView {
    Pause(bool),
    TimePos(Double),
    Seeking,
    PlaybackRestart,
    EofReached,
    Speed(Double),
    Filename(Seq<char>),
    Duration(Double),
    FileSize(u64),
    Shutdown,
}

impl View for MpvEvent {
    type V = MpvEventView;

    open spec fn view(&self) -> MpvEventView {
        match self {
            MpvEvent::Pause(p) => MpvEventView::Pause(*p),
            MpvEvent::TimePos(x) => MpvEventView::TimePos(*x),
            MpvEvent::Seeking => MpvEventView::Seeking,
            MpvEvent::PlaybackRestart => MpvEventView::PlaybackRestart,
            MpvEvent::EofReached => MpvEventView::EofReached,
            MpvEvent::Speed(x) => MpvEventView::Speed(*x),
            MpvEvent::Filename(name) => MpvEventView::Filename(name@),
            MpvEvent::Duration(x) => MpvEventView::Duration(*x),
            MpvEvent::FileSize(n) => MpvEventView::FileSize(*n),
            MpvEvent::Shutdown => MpvEventView::Shutdown,
        }
    }
}

/// What an optional event says.
pub open spec fn event_view(e: Option<MpvEvent>) -> Option<MpvEventView> {
    match e {
        Some(ev) => Some(ev@),
        None => None,
    }
}

/// The event for a property that changed. A value that does not fit the
/// property, or none, is no event, and the end of a seek is reported
/// elsewhere.
pub open spec fn property_event(name: Seq<char>, data: JsonScalarView) -> Option<MpvEventView> {
    match data {
        JsonScalarView::Bool(b) => if name == "pause"@ {
            Some(MpvEventView::Pause(b))
        } else if name == "seeking"@ && b {
            Some(MpvEventView::Seeking)
        } else if name == "eof-reached"@ && b {
            Some(MpvEventView::EofReached)
        } else {
            None
        },
        JsonScalarView::Number { double, unsigned } => if name == "file-size"@ {
            match unsigned {
                Some(n) => Some(MpvEventView::FileSize(n)),
                None => None,
            }
        } else {
            match double {
                Some(x) => if name == "time-pos"@ {
                    Some(MpvEventView::TimePos(x))
                } else if name == "speed"@ {
                    Some(MpvEventView::Speed(x))
                } else if name == "duration"@ {
                    Some(MpvEventView::Duration(x))
                } else {
                    None
                },
                None => None,
            }
        },
        JsonScalarView::Text(t) => if name == "filename"@ {
            Some(MpvEventView::Filename(t))
        } else {
            None
        },
        _ => None,
    }
}

/// The event that an object from mpv reports, if it reports one that matters.
pub open spec fn reported(members: Seq<(Seq<char>, JsonScalarView)>) -> Option<MpvEventView> {
    match text_member(members, "event"@) {
        Some(event) => if event == "property-change"@ {
            match (text_member(members, "name"@), member(members, "data"@)) {
                (Some(name), Some(data)) => property_event(name, data),
                _ => None,
            }
        } else if event == "seek"@ {
            Some(MpvEventView::Seeking)
        } else if event == "playback-restart"@ {
            Some(MpvEventView::PlaybackRestart)
        } else if event == "end-file"@ && text_member(members, "reason"@) == Some("eof"@) {
            Some(MpvEventView::EofReached)
        } else {
            None
        },
        None => None,
    }
}

/// Different literals are different texts.
proof fn lemma_property_names()
    ensures
        "pause"@ != "seeking"@,
        "pause"@ != "eof-reached"@,
        "seeking"@ != "eof-reached"@,
        "time-pos"@ != "speed"@,
        "time-pos"@ != "duration"@,
        "time-pos"@ != "file-size"@,
        "speed"@ != "duration"@,
        "speed"@ != "file-size"@,
        "duration"@ != "file-size"@,
{
    reveal_strlit("pause");
    reveal_strlit("seeking");
    reveal_strlit("eof-reached");
    reveal_strlit("time-pos");
    reveal_strlit("speed");
    reveal_strlit("duration");
    reveal_strlit("file-size");
    assert("pause"@.len() == 5 && "seeking"@.len() == 7 && "eof-reached"@.len() == 11);
    assert("time-pos"@.len() == 8 && "speed"@.len() == 5 && "duration"@.len() == 8);
    assert("time-pos"@[0] == 't' && "duration"@[0] == 'd');
    assert("file-size"@.len() == 9);
}

fn translate_property_change(name: &String, data: &JsonScalar) -> (r: Option<MpvEvent>)
    ensures
        event_view(r) == property_event(name@, data@),
{
    proof {
        lemma_property_names();
    }
    match data {
        JsonScalar::Bool(b) => {
            if is_text(name, "pause") {
                Some(MpvEvent::Pause(*b))
            } else if is_text(name, "seeking") {
                if *b {
                    Some(MpvEvent::Seeking)
                } else {
                    None
                }
            } else if is_text(name, "eof-reached") {
                if *b {
                    Some(MpvEvent::EofReached)
                } else {
                    None
                }
            } else {
                None
            }
        }
        JsonScalar::Number { double, unsigned } => {
            if is_text(name, "file-size") {
                match unsigned {
                    Some(n) => Some(MpvEvent::FileSize(*n)),
                    None => None,
                }
            } else {
                match double {
                    Some(x) => {
                        if is_text(name, "time-pos") {
                            Some(MpvEvent::TimePos(*x))
                        } else if is_text(name, "speed") {
                            Some(MpvEvent::Speed(*x))
                        } else if is_text(name, "duration") {
                            Some(MpvEvent::Duration(*x))
                        } else {
                            None
                        }
                    }
                    None => None,
                }
            }
        }
        JsonScalar::Text(t) => {
            if is_text(name, "filename") {
                Some(MpvEvent::Filename(t.clone()))
            } else {
                None
            }
        }
        _ => None,
    }
}

/// Translate an object from mpv into an event. Unknown events give `None`
/// rather than an error, so a newer mpv does no harm.
pub fn translate(members: &Vec<Member>) -> (r: Option<MpvEvent>)
    ensures
        event_view(r) == reported(members_view(members@)),
{
    let event = match get_text(members, "event") {
        Some(event) => event,
        None => {
            return None;
        }
    };
    if is_text(event, "property-change") {
        match (get_text(members, "name"), get_member(members, "data")) {
            (Some(name), Some(data)) => translate_property_change(name, data),
            _ => None,
        }
    } else if is_text(event, "seek") {
        Some(MpvEvent::Seeking)
    } else if is_text(event, "playback-restart") {
        Some(MpvEvent::PlaybackRestart)
    } else if is_text(event, "end-file") {
        // Only the natural end of a file matters, not a quit or an error.
        match get_text(members, "reason") {
            Some(reason) => {
                if is_text(reason, "eof") {
                    Some(MpvEvent::EofReached)
                } else {
                    None
                }
            }
            None => None,
        }
    } else {
        None
    }
}

/// Each property that we observe is reported as what it is, if its value is of
/// the right kind; no value is no report.
pub proof fn law_properties_are_reported(
    b: bool,
    x: Double,
    n: u64,
    t: Seq<char>,
    double: Option<Double>,
    unsigned: Option<u64>,
    name: Seq<char>,
)
    ensures
        property_event("pause"@, JsonScalarView::Bool(b)) == Some(MpvEventView::Pause(b)),
        property_event("seeking"@, JsonScalarView::Bool(true)) == Some(MpvEventView::Seeking),
        property_event("seeking"@, JsonScalarView::Bool(false)) is None,
        property_event("eof-reached"@, JsonScalarView::Bool(true)) == Some(
            MpvEventView::EofReached,
        ),
        property_event("eof-reached"@, JsonScalarView::Bool(false)) is None,
        property_event("time-pos"@, JsonScalarView::Number { double: Some(x), unsigned }) == Some(
            MpvEventView::TimePos(x),
        ),
        property_event("speed"@, JsonScalarView::Number { double: Some(x), unsigned }) == Some(
            MpvEventView::Speed(x),
        ),
        property_event("duration"@, JsonScalarView::Number { double: Some(x), unsigned }) == Some(
            MpvEventView::Duration(x),
        ),
        property_event("file-size"@, JsonScalarView::Number { double, unsigned: Some(n) }) == Some(
            MpvEventView::FileSize(n),
        ),
        property_event("filename"@, JsonScalarView::Text(t)) == Some(MpvEventView::Filename(t)),
        property_event(name, JsonScalarView::Null) is None,
        property_event(name, JsonScalarView::Composite) is None,
{
    lemma_property_names();
}

/// What kind of report a value can lead to: flags to pause, seek and end,
/// numbers to position, speed, length and size, text to a name.
pub proof fn law_values_fit_their_reports(name: Seq<char>, data: JsonScalarView)
    ensures
        match property_event(name, data) {
            Some(MpvEventView::Pause(b)) => name == "pause"@ && data == JsonScalarView::Bool(b),
            Some(MpvEventView::Seeking) => name == "seeking"@ && data == JsonScalarView::Bool(true),
            Some(MpvEventView::EofReached) => name == "eof-reached"@ && data
                == JsonScalarView::Bool(true),
            Some(MpvEventView::TimePos(x)) => name == "time-pos"@ && data is Number && data->double
                == Some(x),
            Some(MpvEventView::Speed(x)) => name == "speed"@ && data is Number && data->double
                == Some(x),
            Some(MpvEventView::Duration(x)) => name == "duration"@ && data is Number && data->double
                == Some(x),
            Some(MpvEventView::FileSize(n)) => name == "file-size"@ && data is Number && data->unsigned
                == Some(n),
            Some(MpvEventView::Filename(t)) => name == "filename"@ && data
                == JsonScalarView::Text(t),
            Some(_) => false,
            None => true,
        },
{
}

/// An object reports by its event: a change of a property with name and value, a
/// seek, the restart of playback, or the end of a file that was played through.
pub proof fn law_objects_report_by_their_event(members: Seq<(Seq<char>, JsonScalarView)>)
    ensures
        ({
            let event = text_member(members, "event"@);
            let name = text_member(members, "name"@);
            let data = member(members, "data"@);
            let reason = text_member(members, "reason"@);
            &&& event is None ==> reported(members) is None
            &&& event == Some("property-change"@) && name is Some && data is Some ==> reported(
                members,
            ) == property_event(name->0, data->0)
            &&& event == Some("property-change"@) && (name is None || data is None) ==> reported(
                members,
            ) is None
            &&& event == Some("seek"@) ==> reported(members) == Some(MpvEventView::Seeking)
            &&& event == Some("playback-restart"@) ==> reported(members) == Some(
                MpvEventView::PlaybackRestart,
            )
            &&& event == Some("end-file"@) ==> reported(members) == if reason == Some("eof"@) {
                Some(MpvEventView::EofReached)
            } else {
                None
            }
        }),
{
    reveal_strlit("property-change");
    reveal_strlit("seek");
    reveal_strlit("playback-restart");
    reveal_strlit("end-file");
    assert("property-change"@.len() == 15 && "seek"@.len() == 4 && "playback-restart"@.len() == 16
        && "end-file"@.len() == 8);
}

} // verus!
