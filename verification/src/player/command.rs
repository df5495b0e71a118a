//! Commands for the local mpv.
//!
//! The room only ever pauses, seeks and changes speed; the player can also load
//! a file.

use vstd::prelude::*;
use vstd::string::*;

use crate::json::{args_view, command_line, render_command, JsonArg, JsonArgView, JsonScalarView};
use crate::player::event::{property_event, MpvEventView};
use crate::text::{
    decimal, digits_value, law_decimal_can_be_read, law_padding_keeps_the_value, pad_start,
    padded_start, push_decimal,
};

verus! {

#[derive(Debug, PartialEq, Eq)]
pub enum MpvCommand {
    /// Set the pause state. `true` is paused.
    Pause(bool),
    /// Absolute seek to the given position.
    Seek { media_pos_ms: u64 },
    /// Playback speed in centiunits: 100 is normal speed.
    SetSpeed { speed_centi: u16 },
    /// Replace the currently loaded file.
    LoadFile { path: String },
}

impl From<crate::state::MpvCommand> for MpvCommand {
    fn from(c: crate::state::MpvCommand) -> (r: Self) {
        match c {
            crate::state::MpvCommand::Pause(p) => MpvCommand::Pause(p),
            crate::state::MpvCommand::Seek { media_pos_ms } => MpvCommand::Seek { media_pos_ms },
            crate::state::MpvCommand::SetSpeed { speed_centi } => MpvCommand::SetSpeed {
                speed_centi,
            },
        }
    }
}

impl vstd::std_specs::convert::FromSpecImpl<crate::state::MpvCommand> for MpvCommand {
    open spec fn obeys_from_spec() -> bool {
        true
    }

    open spec fn from_spec(c: crate::state::MpvCommand) -> MpvCommand {
        match c {
            crate::state::MpvCommand::Pause(p) => MpvCommand::Pause(p),
            crate::state::MpvCommand::Seek { media_pos_ms } => MpvCommand::Seek { media_pos_ms },
            crate::state::MpvCommand::SetSpeed { speed_centi } => MpvCommand::SetSpeed {
                speed_centi,
            },
        }
    }
}

/// Thousandths with a decimal point.
pub open spec fn thousandths(n: nat) -> Seq<char> {
    decimal(n / 1000) + "."@ + padded_start(decimal(n % 1000), '0', 3)
}

/// Hundredths with a decimal point.
pub open spec fn hundredths(n: nat) -> Seq<char> {
    decimal(n / 100) + "."@ + padded_start(decimal(n % 100), '0', 2)
}

/// The words of a command.
pub open spec fn words(cmd: MpvCommand) -> Seq<JsonArgView> {
    match cmd {
        MpvCommand::Pause(p) => seq![
            JsonArgView::Text("set_property"@),
            JsonArgView::Text("pause"@),
            JsonArgView::Bool(p),
        ],
        MpvCommand::Seek { media_pos_ms } => seq![
            JsonArgView::Text("seek"@),
            JsonArgView::Decimal(thousandths(media_pos_ms as nat)),
            JsonArgView::Text("absolute"@),
        ],
        MpvCommand::SetSpeed { speed_centi } => seq![
            JsonArgView::Text("set_property"@),
            JsonArgView::Text("speed"@),
            JsonArgView::Decimal(hundredths(speed_centi as nat)),
        ],
        MpvCommand::LoadFile { path } => seq![
            JsonArgView::Text("loadfile"@),
            JsonArgView::Text(path@),
            JsonArgView::Text("replace"@),
        ],
    }
}

fn fixed_point(n: u64, unit: u64, places: usize) -> (r: String)
    requires
        unit > 0,
    ensures
        r@ == decimal(n as nat / unit as nat) + "."@ + padded_start(
            decimal(n as nat % unit as nat),
            '0',
            places as nat,
        ),
{
    let mut r = String::new();
    push_decimal(&mut r, (n / unit) as u128);
    r.append(".");
    let mut fraction = String::new();
    push_decimal(&mut fraction, (n % unit) as u128);
    assert(fraction@ =~= decimal(n as nat % unit as nat));
    let padded = pad_start(fraction.as_str(), '0', places);
    r.append(padded.as_str());
    assert(r@ =~= decimal(n as nat / unit as nat) + "."@ + padded@);
    r
}

impl MpvCommand {
    /// The words of the command as mpv expects them: positions in seconds,
    /// speeds as a factor.
    pub fn to_args(&self) -> (r: Vec<JsonArg>)
        ensures
            args_view(r@) == words(*self),
    {
        let args = match self {
            MpvCommand::Pause(p) => vec![
                JsonArg::Text("set_property".to_owned()),
                JsonArg::Text("pause".to_owned()),
                JsonArg::Bool(*p),
            ],
            MpvCommand::Seek { media_pos_ms } => vec![
                JsonArg::Text("seek".to_owned()),
                JsonArg::Decimal(fixed_point(*media_pos_ms, 1000, 3)),
                JsonArg::Text("absolute".to_owned()),
            ],
            MpvCommand::SetSpeed { speed_centi } => vec![
                JsonArg::Text("set_property".to_owned()),
                JsonArg::Text("speed".to_owned()),
                JsonArg::Decimal(fixed_point(*speed_centi as u64, 100, 2)),
            ],
            MpvCommand::LoadFile { path } => vec![
                JsonArg::Text("loadfile".to_owned()),
                JsonArg::Text(path.clone()),
                JsonArg::Text("replace".to_owned()),
            ],
        };
        assert(args_view(args@) =~= words(*self));
        args
    }

    /// The line to send for this command. mpv echoes the request number back on
    /// its reply.
    pub fn to_json(&self, request_id: u64) -> (r: String)
        ensures
            r@ == command_line(words(*self), request_id),
    {
        render_command(&self.to_args(), request_id)
    }
}

/// A position is sent in seconds with three places: whole seconds and
/// thousandths add up to it.
pub proof fn law_positions_are_sent_in_seconds(media_pos_ms: u64)
    ensures
        ({
            let w = words(MpvCommand::Seek { media_pos_ms });
            let d = w[1]->Decimal_0;
            let n = d.len() as int;
            &&& w.len() == 3
            &&& w[0] == JsonArgView::Text("seek"@)
            &&& w[1] is Decimal
            &&& w[2] == JsonArgView::Text("absolute"@)
            &&& n >= 5
            &&& d[n - 4] == '.'
            &&& 1_000 * digits_value(d.take(n - 4)) + digits_value(d.skip(n - 3)) == media_pos_ms
        }),
{
    lemma_fixed_point(media_pos_ms as nat, 1_000, 3);
}

/// A speed is sent as a factor with two places: whole and hundredths add up to
/// it.
pub proof fn law_speeds_are_sent_as_factors(speed_centi: u16)
    ensures
        ({
            let w = words(MpvCommand::SetSpeed { speed_centi });
            let d = w[2]->Decimal_0;
            let n = d.len() as int;
            &&& w.len() == 3
            &&& w[0] == JsonArgView::Text("set_property"@)
            &&& w[1] == JsonArgView::Text("speed"@)
            &&& w[2] is Decimal
            &&& n >= 4
            &&& d[n - 3] == '.'
            &&& 100 * digits_value(d.take(n - 3)) + digits_value(d.skip(n - 2)) == speed_centi
        }),
{
    lemma_fixed_point(speed_centi as nat, 100, 2);
}

proof fn lemma_fixed_point(n: nat, unit: nat, places: nat)
    requires
        unit == 1_000 && places == 3 || unit == 100 && places == 2,
    ensures
        ({
            let d = decimal(n / unit) + "."@ + padded_start(decimal(n % unit), '0', places);
            let len = d.len() as int;
            &&& len >= places + 2
            &&& d[len - places - 1] == '.'
            &&& unit * digits_value(d.take(len - places - 1)) + digits_value(d.skip(len - places))
                == n
        }),
{
    reveal_strlit(".");
    let f = n % unit;
    law_decimal_can_be_read(n / unit);
    law_decimal_can_be_read(f);
    law_padding_keeps_the_value(decimal(f), places);
    assert(decimal(f).len() <= places) by {
        if f >= 10 {
            assert(decimal(f).len() == decimal(f / 10).len() + 1);
            if f >= 100 {
                assert(decimal(f / 10).len() == decimal(f / 10 / 10).len() + 1);
                assert(f / 10 / 10 < 10);
            }
        }
    }
    let tail = padded_start(decimal(f), '0', places);
    let d = decimal(n / unit) + "."@ + tail;
    let len = d.len() as int;
    assert(tail.len() == places);
    assert(d.take(len - places - 1) =~= decimal(n / unit));
    assert(d.skip(len - places) =~= tail);
    vstd::arithmetic::div_mod::lemma_fundamental_div_mod(n as int, unit as int);
}

/// Pausing sets the property under which mpv reports it, and so does the speed: a
/// command of the room to pause is reported as just that.
pub proof fn law_what_is_set_is_reported(paused: bool)
    ensures
        ({
            let cmd = <MpvCommand as vstd::std_specs::convert::FromSpec<
                crate::state::MpvCommand,
            >>::from_spec(crate::state::MpvCommand::Pause(paused));
            let w = words(cmd);
            &&& w.len() == 3
            &&& w[0] == JsonArgView::Text("set_property"@)
            &&& w[1] is Text
            &&& w[2] == JsonArgView::Bool(paused)
            &&& property_event(w[1]->Text_0, JsonScalarView::Bool(paused)) == Some(
                MpvEventView::Pause(paused),
            )
        }),
{
}

/// The commands of the room become commands of mpv unchanged, and a file is
/// loaded in the place of the one before.
pub proof fn law_commands_are_passed_on(
    paused: bool,
    media_pos_ms: u64,
    speed_centi: u16,
    path: String,
)
    ensures
        <MpvCommand as vstd::std_specs::convert::FromSpec<crate::state::MpvCommand>>::from_spec(
            crate::state::MpvCommand::Pause(paused),
        ) == MpvCommand::Pause(paused),
        <MpvCommand as vstd::std_specs::convert::FromSpec<crate::state::MpvCommand>>::from_spec(
            crate::state::MpvCommand::Seek { media_pos_ms },
        ) == (MpvCommand::Seek { media_pos_ms }),
        <MpvCommand as vstd::std_specs::convert::FromSpec<crate::state::MpvCommand>>::from_spec(
            crate::state::MpvCommand::SetSpeed { speed_centi },
        ) == (MpvCommand::SetSpeed { speed_centi }),
        words(MpvCommand::LoadFile { path }) == seq![
            JsonArgView::Text("loadfile"@),
            JsonArgView::Text(path@),
            JsonArgView::Text("replace"@),
        ],
{
}

} // verus!
