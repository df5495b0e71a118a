//! The JSON that goes over mpv's IPC socket.
//!
//! Each line is one JSON object. Of an inbound object only the members at its
//! top level matter; of their values, only whether they are text, a flag or a
//! number.

use vstd::prelude::*;
use vstd::string::*;

use crate::double::Double;
use crate::text::{decimal, decimal_text, digits_value, hex_digit, law_decimal_can_be_read};

verus! {

/// A value at the top level of an inbound object.
#[derive(Debug, PartialEq, Eq)]
pub enum JsonScalar {
    Null,
    Bool(bool),
    /// A number: as a double, and as a `u64` if it was written as one.
    Number { double: Option<Double>, unsigned: Option<u64> },
    Text(String),
    /// An array or an object.
    Composite,
}

/// What a [`JsonScalar`] says.
pub enum JsonScalarView {
    Null,
    Bool(bool),
    Number { double: Option<Double>, unsigned: Option<u64> },
    Text(Seq<char>),
    Composite,
}

impl View for JsonScalar {
    type V = JsonScalarView;

    open spec fn view(&self) -> JsonScalarView {
        match self {
            JsonScalar::Null => JsonScalarView::Null,
            JsonScalar::Bool(b) => JsonScalarView::Bool(*b),
            JsonScalar::Number { double, unsigned } => JsonScalarView::Number {
                double: *double,
                unsigned: *unsigned,
            },
            JsonScalar::Text(t) => JsonScalarView::Text(t@),
            JsonScalar::Composite => JsonScalarView::Composite,
        }
    }
}

/// A member of an inbound object.
pub type Member = (String, JsonScalar);

/// What a list of members says.
pub open spec fn members_view(members: Seq<Member>) -> Seq<(Seq<char>, JsonScalarView)> {
    members.map_values(|m: Member| (m.0@, m.1@))
}

/// A parsed line.
#[derive(Debug, PartialEq, Eq)]
pub enum JsonLine {
    /// Not JSON.
    Malformed,
    /// JSON, but not an object.
    NotAnObject,
    Object(Vec<(String, JsonScalar)>),
}

/// What a parsed line says.
pub enum JsonLineView {
    Malformed,
    NotAnObject,
    Object(Seq<(Seq<char>, JsonScalarView)>),
}

impl View for JsonLine {
    type V = JsonLineView;

    open spec fn view(&self) -> JsonLineView {
        match self {
            JsonLine::Malformed => JsonLineView::Malformed,
            JsonLine::NotAnObject => JsonLineView::NotAnObject,
            JsonLine::Object(members) => JsonLineView::Object(members_view(members@)),
        }
    }
}

/// What `serde_json` makes of a line.
pub uninterp spec fn parsed_line(line: Seq<char>) -> JsonLineView;

/// `serde_json::from_str` of a `serde_json::Value`, its top level taken apart.
/// What the line has to look like is left unsaid.
#[verifier::external_body]
pub(crate) fn parse_line(line: &str) -> (r: JsonLine)
    ensures
        r@ == parsed_line(line@),
{
    match serde_json::from_str(line) {
        Ok(serde_json::Value::Object(m)) => JsonLine::Object(m.into_iter().map(|(k, v)| (k, match v {
            serde_json::Value::Null => JsonScalar::Null,
            serde_json::Value::Bool(b) => JsonScalar::Bool(b),
            serde_json::Value::Number(n) => JsonScalar::Number {
                double: n.as_f64().map(|x| Double { bits: x.to_bits() }),
                unsigned: n.as_u64(),
            },
            serde_json::Value::String(s) => JsonScalar::Text(s),
            serde_json::Value::Array(_) => JsonScalar::Composite,
            serde_json::Value::Object(_) => JsonScalar::Composite,
        })).collect()),
        Ok(_) => JsonLine::NotAnObject,
        Err(_) => JsonLine::Malformed,
    }
}

/// The value of the first member with this key.
pub open spec fn member(members: Seq<(Seq<char>, JsonScalarView)>, key: Seq<char>) -> Option<
    JsonScalarView,
>
    decreases members.len(),
{
    if members.len() == 0 {
        None
    } else if members[0].0 == key {
        Some(members[0].1)
    } else {
        member(members.skip(1), key)
    }
}

/// The text of the first member with this key, if it is text.
pub open spec fn text_member(members: Seq<(Seq<char>, JsonScalarView)>, key: Seq<char>) -> Option<
    Seq<char>,
> {
    match member(members, key) {
        Some(JsonScalarView::Text(t)) => Some(t),
        _ => None,
    }
}

/// Look up a member.
pub fn get_member<'a>(members: &'a Vec<Member>, key: &str) -> (r: Option<&'a JsonScalar>)
    ensures
        r is Some <==> member(members_view(members@), key@) is Some,
        r is Some ==> member(members_view(members@), key@) == Some(r->0@),
{
    let wanted = key.to_owned();
    let mut i: usize = 0;
    let ghost all = members_view(members@);
    proof {
        assert(all.skip(0) =~= all);
    }
    while i < members.len()
        invariant
            0 <= i <= members@.len(),
            all == members_view(members@),
            wanted@ == key@,
            member(all, key@) == member(all.skip(i as int), key@),
        decreases members@.len() - i,
    {
        proof {
            assert(all.skip(i as int)[0] == all[i as int]);
            assert(all.skip(i as int).skip(1) =~= all.skip(i + 1));
        }
        if members[i].0 == wanted {
            return Some(&members[i].1);
        }
        i = i + 1;
    }
    None
}

/// Look up a member that is text.
pub fn get_text<'a>(members: &'a Vec<Member>, key: &str) -> (r: Option<&'a String>)
    ensures
        r is Some <==> text_member(members_view(members@), key@) is Some,
        r is Some ==> text_member(members_view(members@), key@) == Some(r->0@),
{
    match get_member(members, key) {
        Some(JsonScalar::Text(t)) => Some(t),
        _ => None,
    }
}

/// Whether text equals a literal.
pub fn is_text(s: &String, literal: &str) -> (r: bool)
    ensures
        r == (s@ == literal@),
{
    *s == literal.to_owned()
}

/// A character in a JSON string: quotes, backslashes and control characters are
/// escaped, everything else stands for itself.
pub open spec fn escaped(c: char) -> Seq<char> {
    let n = c as nat;
    if c == '"' {
        seq!['\\', '"']
    } else if c == '\\' {
        seq!['\\', '\\']
    } else if n == 0x08 {
        seq!['\\', 'b']
    } else if n == 0x09 {
        seq!['\\', 't']
    } else if n == 0x0a {
        seq!['\\', 'n']
    } else if n == 0x0c {
        seq!['\\', 'f']
    } else if n == 0x0d {
        seq!['\\', 'r']
    } else if n < 0x20 {
        seq!['\\', 'u', '0', '0', hex_digit(n / 16), hex_digit(n % 16)]
    } else {
        seq![c]
    }
}

/// Text in a JSON string.
pub open spec fn escaped_text(t: Seq<char>) -> Seq<char>
    decreases t.len(),
{
    if t.len() == 0 {
        seq![]
    } else {
        escaped_text(t.drop_last()) + escaped(t.last())
    }
}

/// A JSON string, quoted and escaped.
pub open spec fn quoted(t: Seq<char>) -> Seq<char> {
    seq!['"'] + escaped_text(t) + seq!['"']
}

/// `serde_json::to_string` of a `str` is the text between quotes, with quotes,
/// backslashes and control characters escaped.
#[verifier::external_body]
fn quote(t: &str) -> (r: String)
    ensures
        r@ == quoted(t@),
{
    serde_json::to_string(t).expect("text always serialises")
}

/// Text without quotes, backslashes and control characters comes out between
/// quotes as it is.
pub proof fn law_plain_text_is_only_quoted(t: Seq<char>)
    requires
        forall|i: int| 0 <= i < t.len() ==> escaped(#[trigger] t[i]) == seq![t[i]],
    ensures
        quoted(t) == seq!['"'] + t + seq!['"'],
{
    lemma_plain_text(t);
}

proof fn lemma_plain_text(t: Seq<char>)
    requires
        forall|i: int| 0 <= i < t.len() ==> escaped(#[trigger] t[i]) == seq![t[i]],
    ensures
        escaped_text(t) == t,
    decreases t.len(),
{
    if t.len() > 0 {
        let head = t.drop_last();
        assert forall|i: int| 0 <= i < head.len() implies escaped(#[trigger] head[i])
            == seq![head[i]] by {
            assert(head[i] == t[i]);
        }
        lemma_plain_text(head);
        assert(escaped(t[t.len() - 1]) == seq![t.last()]);
        assert(escaped_text(t) =~= t);
    } else {
        assert(escaped_text(t) =~= t);
    }
}

/// How the double that a decimal is read as is written in JSON, if the text is
/// a number.
pub uninterp spec fn number_text(decimal: Seq<char>) -> Option<Seq<char>>;

/// `serde_json::Number::from_str`, printed again. Which double the text is read
/// as, and how that is written, is left unsaid.
#[verifier::external_body]
fn normalise_number(decimal: &str) -> (r: Option<String>)
    ensures
        match r {
            Some(t) => number_text(decimal@) == Some(t@),
            None => number_text(decimal@) is None,
        },
{
    decimal.parse::<serde_json::Number>().ok().map(|n| n.to_string())
}

/// An argument of an outbound command.
#[derive(Debug, PartialEq, Eq)]
pub enum JsonArg {
    Text(String),
    Bool(bool),
    Whole(u64),
    /// A number written with a decimal point.
    Decimal(String),
}

/// What a [`JsonArg`] says.
pub enum JsonArgView {
    Text(Seq<char>),
    Bool(bool),
    Whole(u64),
    Decimal(Seq<char>),
}

impl View for JsonArg {
    type V = JsonArgView;

    open spec fn view(&self) -> JsonArgView {
        match self {
            JsonArg::Text(t) => JsonArgView::Text(t@),
            JsonArg::Bool(b) => JsonArgView::Bool(*b),
            JsonArg::Whole(n) => JsonArgView::Whole(*n),
            JsonArg::Decimal(t) => JsonArgView::Decimal(t@),
        }
    }
}

/// What a list of arguments says.
pub open spec fn args_view(args: Seq<JsonArg>) -> Seq<JsonArgView> {
    args.map_values(|a: JsonArg| a@)
}

/// An argument as JSON.
pub open spec fn arg_text(a: JsonArgView) -> Seq<char> {
    match a {
        JsonArgView::Text(t) => quoted(t),
        JsonArgView::Bool(b) => if b {
            "true"@
        } else {
            "false"@
        },
        JsonArgView::Whole(n) => decimal(n as nat),
        JsonArgView::Decimal(t) => match number_text(t) {
            Some(n) => n,
            None => t,
        },
    }
}

/// The arguments as JSON, separated by commas.
pub open spec fn args_text(args: Seq<JsonArgView>) -> Seq<char>
    decreases args.len(),
{
    if args.len() == 0 {
        seq![]
    } else if args.len() == 1 {
        arg_text(args[0])
    } else {
        args_text(args.drop_last()) + ","@ + arg_text(args.last())
    }
}

/// The line that carries a command: an object with the command and the number
/// under which mpv replies, and a newline.
pub open spec fn command_line(args: Seq<JsonArgView>, request_id: u64) -> Seq<char> {
    "{\"command\":["@ + args_text(args) + "],\"request_id\":"@ + decimal(request_id as nat) + "}\n"@
}

fn render_arg(a: &JsonArg) -> (r: String)
    ensures
        r@ == arg_text(a@),
{
    match a {
        JsonArg::Text(t) => quote(t.as_str()),
        JsonArg::Bool(b) => if *b {
            "true".to_owned()
        } else {
            "false".to_owned()
        },
        JsonArg::Whole(n) => decimal_text(*n as u128),
        JsonArg::Decimal(t) => match normalise_number(t.as_str()) {
            Some(n) => n,
            None => t.clone(),
        },
    }
}

/// Render a command as the line to send.
pub fn render_command(args: &Vec<JsonArg>, request_id: u64) -> (r: String)
    ensures
        r@ == command_line(args_view(args@), request_id),
{
    let mut r = "{\"command\":[".to_owned();
    let ghost start = r@;
    let ghost all = args_view(args@);
    let mut i: usize = 0;
    proof {
        assert(all.take(0) =~= Seq::empty());
        assert(r@ =~= start + args_text(all.take(0)));
    }
    while i < args.len()
        invariant
            0 <= i <= args@.len(),
            all == args_view(args@),
            r@ == start + args_text(all.take(i as int)),
        decreases args@.len() - i,
    {
        proof {
            let next = all.take(i + 1);
            assert(next.drop_last() =~= all.take(i as int));
            assert(next.last() == args@[i as int]@);
            if i == 0 {
                assert(all.take(0) =~= Seq::empty());
            }
        }
        if i > 0 {
            r.append(",");
        }
        let text = render_arg(&args[i]);
        r.append(text.as_str());
        proof {
            let next = all.take(i + 1);
            if i == 0 {
                assert(next =~= seq![all[0]]);
            }
            assert(r@ =~= start + args_text(next));
        }
        i = i + 1;
    }
    proof {
        assert(all.take(all.len() as int) =~= all);
    }
    r.append("],\"request_id\":");
    let id = decimal_text(request_id as u128);
    r.append(id.as_str());
    r.append("}\n");
    r
}

/// The first member with a key counts; without one there is none.
pub proof fn law_first_member_counts(
    members: Seq<(Seq<char>, JsonScalarView)>,
    key: Seq<char>,
    i: int,
)
    ensures
        0 <= i < members.len() && members[i].0 == key && (forall|j: int|
            0 <= j < i ==> (#[trigger] members[j]).0 != key) ==> member(members, key) == Some(
            members[i].1,
        ),
        (forall|j: int| 0 <= j < members.len() ==> (#[trigger] members[j]).0 != key) ==> member(
            members,
            key,
        ) is None,
    decreases members.len(),
{
    if members.len() > 0 {
        let rest = members.skip(1);
        law_first_member_counts(rest, key, i - 1);
        assert forall|j: int| 0 <= j < rest.len() implies #[trigger] rest[j] == members[j + 1] by {}
        if 0 < i < members.len() {
            assert(rest[i - 1] == members[i]);
            if forall|j: int| 0 <= j < i ==> (#[trigger] members[j]).0 != key {
                assert(members[0].0 != key);
                assert forall|j: int| 0 <= j < i - 1 implies (#[trigger] rest[j]).0 != key by {
                    assert(rest[j] == members[j + 1]);
                }
            }
        }
    }
}

/// A command of three words names them in order, separated by commas, and carries
/// the number of the request.
pub proof fn law_commands_name_their_words(
    a: JsonArgView,
    b: JsonArgView,
    c: JsonArgView,
    request_id: u64,
)
    ensures
        command_line(seq![a, b, c], request_id) == "{\"command\":["@ + (arg_text(a) + ","@ + arg_text(
            b,
        ) + ","@ + arg_text(c)) + "],\"request_id\":"@ + decimal(request_id as nat) + "}\n"@,
        command_line(seq![a], request_id) == "{\"command\":["@ + arg_text(a)
            + "],\"request_id\":"@ + decimal(request_id as nat) + "}\n"@,
{
    assert(seq![a, b, c].drop_last() =~= seq![a, b]);
    assert(seq![a, b].drop_last() =~= seq![a]);
    assert(args_text(seq![a]) == arg_text(a));
    assert(args_text(seq![a, b]) == args_text(seq![a]) + ","@ + arg_text(b));
    assert(args_text(seq![a, b, c]) == args_text(seq![a, b]) + ","@ + arg_text(c));
}

/// Words are written as JSON has them: text in quotes, flags by name, whole
/// numbers in decimal, decimals as the JSON number that they are read as.
pub proof fn law_words_are_json(t: Seq<char>, n: u64, d: Seq<char>)
    ensures
        arg_text(JsonArgView::Text(t)) == quoted(t),
        arg_text(JsonArgView::Bool(true)) == "true"@,
        arg_text(JsonArgView::Bool(false)) == "false"@,
        digits_value(arg_text(JsonArgView::Whole(n))) == n,
        number_text(d) is Some ==> Some(arg_text(JsonArgView::Decimal(d))) == number_text(d),
        number_text(d) is None ==> arg_text(JsonArgView::Decimal(d)) == d,
{
    law_decimal_can_be_read(n as nat);
}

} // verus!
