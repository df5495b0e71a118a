//! Tickets for sharing a room.
//!
//! A ticket is a string that a joiner pastes: `syncmesh1` followed by base32
//! text. The base32 payload is a version byte and the postcard form of the
//! host's `iroh::EndpointAddr`.

use vstd::arithmetic::power2::pow2;
use vstd::prelude::*;
use vstd::string::*;
use vstd::utf8::{encode_utf8, is_ascii_chars, is_ascii_chars_encode_utf8};

use crate::addrs::{addr_from_postcard, addr_parse, addr_to_postcard, addr_wire, comes_back};
use crate::std_text::{
    all_ascii, ascii_lower, ascii_upper, is_graphic, lemma_graphic_ends_stay, lowercase, trimmed,
    uppercase,
};
use crate::text::starts_with;

verus! {

/// The payload format.
pub const VERSION: u8 = 1;

/// What is wrong with base32 text.
#[derive(Debug, Clone, Copy, PartialEq, Eq, Structural)]
pub enum Base32ErrorKind {
    /// Its length is impossible.
    Length,
    /// It holds a character that is no symbol.
    Symbol,
    /// Its spare bits are not zero.
    Trailing,
    /// Its padding is malformed.
    Padding,
}

/// Why and where base32 text is malformed.
#[derive(Debug, Clone, Copy, PartialEq, Eq, Structural)]
pub struct Base32Error {
    pub position: usize,
    pub kind: Base32ErrorKind,
}

#[derive(Debug)]
pub enum TicketError {
    /// The ticket does not start with `syncmesh1`.
    MissingPrefix,
    /// What follows the prefix is not base32.
    Base32(Base32Error),
    /// The payload is empty.
    Empty,
    /// The payload has a version that we do not know.
    UnsupportedVersion(u8),
    /// The payload is not an address.
    Postcard(postcard::Error),
}

/// What every ticket starts with.
pub open spec fn prefix() -> Seq<char> {
    seq!['s', 'y', 'n', 'c', 'm', 'e', 's', 'h', '1']
}

/// Bit number `i` of a byte string, most significant first; zero past the end.
pub open spec fn bit_at(b: Seq<u8>, i: int) -> nat {
    if 0 <= i < 8 * b.len() {
        b[i / 8] as nat / pow2((7 - i % 8) as nat) % 2
    } else {
        0
    }
}

/// The symbol for five bits: a letter, then a digit from 2 to 7.
pub open spec fn base32_symbol(v: nat) -> char {
    if v < 26 {
        (65 + v) as char
    } else {
        (24 + v) as char
    }
}

/// Base32 without padding: one symbol for every five bits, the last group
/// filled up with zero bits.
pub open spec fn base32(b: Seq<u8>) -> Seq<char> {
    Seq::new(
        (8 * b.len() + 4) / 5,
        |k: int|
            base32_symbol(
                16 * bit_at(b, 5 * k) + 8 * bit_at(b, 5 * k + 1) + 4 * bit_at(b, 5 * k + 2) + 2
                    * bit_at(b, 5 * k + 3) + bit_at(b, 5 * k + 4),
            ),
    )
}

/// `data_encoding::BASE32_NOPAD.encode` gives the base32 form. It takes no
/// input longer than the 512th part of a `usize`.
#[verifier::external_body]
fn base32_encode(input: &[u8]) -> (r: String)
    requires
        input@.len() <= usize::MAX / 512,
    ensures
        r@ == base32(input@),
{
    data_encoding::BASE32_NOPAD.encode(input)
}

/// `data_encoding::BASE32_NOPAD.decode` succeeds exactly on the base32 forms of
/// byte strings, spare bits zero, and gives back the byte string. Which error
/// comes back otherwise is left unsaid. It takes no input longer than the
/// eighth part of a `usize`.
#[verifier::external_body]
fn base32_decode(input: &[u8]) -> (r: Result<Vec<u8>, Base32Error>)
    requires
        input@.len() <= usize::MAX / 8,
    ensures
        match r {
            Ok(v) => input@ == encode_utf8(base32(v@)) && (forall|b: Seq<u8>|
                input@ == encode_utf8(#[trigger] base32(b)) ==> v@ == b),
            Err(_) => forall|b: Seq<u8>| input@ != encode_utf8(#[trigger] base32(b)),
        },
{
    data_encoding::BASE32_NOPAD.decode(input).map_err(|e| Base32Error {
        position: e.position,
        kind: match e.kind {
            data_encoding::DecodeKind::Length => Base32ErrorKind::Length,
            data_encoding::DecodeKind::Symbol => Base32ErrorKind::Symbol,
            data_encoding::DecodeKind::Trailing => Base32ErrorKind::Trailing,
            data_encoding::DecodeKind::Padding => Base32ErrorKind::Padding,
        },
    })
}

/// The payload of a ticket.
pub open spec fn payload_of(addr: iroh::EndpointAddr) -> Seq<u8> {
    seq![VERSION] + addr_wire(addr)
}

/// The ticket for an address.
pub open spec fn ticket_of(addr: iroh::EndpointAddr) -> Seq<char> {
    prefix() + base32(payload_of(addr))
}

fn prefix_text() -> (r: &'static str)
    ensures
        r@ == prefix(),
{
    proof {
        reveal_strlit("syncmesh1");
    }
    let r = "syncmesh1";
    assert(r@ =~= prefix());
    r
}

/// Encode an address as a shareable ticket string.
pub fn encode(addr: &iroh::EndpointAddr) -> (r: String)
    requires
        addr_wire(*addr).len() < usize::MAX / 512,
    ensures
        r@ == ticket_of(*addr),
{
    match addr_to_postcard(addr) {
        Ok(body) => encode_wire(body),
        Err(_) => String::new(),
    }
}

/// The ticket for an address in postcard form.
fn encode_wire(body: Vec<u8>) -> (r: String)
    requires
        body@.len() < usize::MAX / 512,
    ensures
        r@ == prefix() + base32(seq![VERSION] + body@),
{
    let mut body = body;
    let ghost wire = body@;
    let mut payload: Vec<u8> = vec![VERSION];
    payload.append(&mut body);
    assert(payload@ =~= seq![VERSION] + wire);
    let mut out = prefix_text().to_owned();
    let text = base32_encode(payload.as_slice());
    out.append(text.as_str());
    out
}

/// Encode an address, if its postcard form is not too long for base32.
pub fn try_encode(addr: &iroh::EndpointAddr) -> (r: Option<String>)
    ensures
        match r {
            Some(t) => t@ == ticket_of(*addr) && addr_wire(*addr).len() < usize::MAX / 512,
            None => addr_wire(*addr).len() >= usize::MAX / 512,
        },
{
    match addr_to_postcard(addr) {
        Ok(body) => {
            if body.len() < usize::MAX / 512 {
                Some(encode_wire(body))
            } else {
                None
            }
        }
        Err(_) => None,
    }
}

/// What reading a ticket leads to.
pub enum TicketView {
    MissingPrefix,
    Base32,
    Empty,
    UnsupportedVersion(u8),
    Postcard,
    /// The postcard form of the address.
    Address(Seq<u8>),
}

/// What a payload says.
pub open spec fn read_payload(payload: Seq<u8>) -> TicketView {
    if payload.len() == 0 {
        TicketView::Empty
    } else if payload[0] != VERSION {
        TicketView::UnsupportedVersion(payload[0])
    } else {
        match addr_parse(payload.skip(1)) {
            Some(wire) => TicketView::Address(wire),
            None => TicketView::Postcard,
        }
    }
}

/// What upper-case base32 text says.
pub open spec fn read_base32(upper: Seq<char>) -> TicketView {
    if exists|b: Seq<u8>| encode_utf8(upper) == encode_utf8(#[trigger] base32(b)) {
        read_payload(
            choose|b: Seq<u8>| encode_utf8(upper) == encode_utf8(#[trigger] base32(b)),
        )
    } else {
        TicketView::Base32
    }
}

/// What a ticket says, once trimmed and in lower case.
pub open spec fn read_normalized(lower: Seq<char>) -> TicketView {
    if starts_with(lower, prefix()) {
        read_base32(uppercase(lower.skip(9)))
    } else {
        TicketView::MissingPrefix
    }
}

/// What a ticket says. Case and surrounding white space do not matter.
pub open spec fn read_ticket(ticket: Seq<char>) -> TicketView {
    read_normalized(lowercase(trimmed(ticket)))
}

/// The outcome is the one that was read.
pub open spec fn agrees(r: Result<iroh::EndpointAddr, TicketError>, v: TicketView) -> bool {
    match (r, v) {
        (Ok(a), TicketView::Address(wire)) => addr_wire(a) == wire,
        (Err(TicketError::MissingPrefix), TicketView::MissingPrefix) => true,
        (Err(TicketError::Base32(_)), TicketView::Base32) => true,
        (Err(TicketError::Empty), TicketView::Empty) => true,
        (Err(TicketError::UnsupportedVersion(a)), TicketView::UnsupportedVersion(b)) => a == b,
        (Err(TicketError::Postcard(_)), TicketView::Postcard) => true,
        _ => false,
    }
}

/// The outcome is an address of the same endpoint as `a`: same key, same IP
/// addresses and ports, and the same relays if their texts are read as what they
/// are. Then, unless two addresses differ in nothing but the scope, the outcome
/// makes the same ticket again. Only where the text of a relay is not read as
/// what it is may the payload be refused.
pub open spec fn gives_back(r: Result<iroh::EndpointAddr, TicketError>, a: iroh::EndpointAddr) ->
    bool {
    match r {
        Ok(b) => comes_back(Some(b), a),
        Err(e) => comes_back(None, a) && e is Postcard,
    }
}

/// Read the payload of a ticket: check the version, parse the address.
pub fn decode_payload(payload: &[u8]) -> (r: Result<iroh::EndpointAddr, TicketError>)
    ensures
        agrees(r, read_payload(payload@)),
        forall|a: iroh::EndpointAddr| payload@ == #[trigger] payload_of(a) ==> gives_back(r, a),
{
    if payload.len() == 0 {
        return Err(TicketError::Empty);
    }
    if payload[0] != VERSION {
        return Err(TicketError::UnsupportedVersion(payload[0]));
    }
    let body = vstd::slice::slice_subrange(payload, 1, payload.len());
    assert(body@ =~= payload@.skip(1));
    proof {
        assert forall|a: iroh::EndpointAddr| payload@ == #[trigger] payload_of(a) implies body@
            == addr_wire(a) by {
            assert(payload_of(a).skip(1) =~= addr_wire(a));
        }
    }
    match addr_from_postcard(body) {
        Ok(a) => Ok(a),
        Err(e) => Err(TicketError::Postcard(e)),
    }
}

/// Text that differs from `u` at most in the case of ASCII letters.
pub open spec fn same_but_for_case(t: Seq<char>, u: Seq<char>) -> bool {
    &&& t.len() == u.len()
    &&& all_ascii(t)
    &&& forall|i: int| 0 <= i < t.len() ==> ascii_lower(#[trigger] t[i]) == ascii_lower(u[i])
}

/// The base32 text of the ticket is short enough to be decoded.
pub open spec fn decodable(ticket: Seq<char>) -> bool {
    encode_utf8(uppercase(lowercase(trimmed(ticket)).skip(9))).len() <= usize::MAX / 8
}

/// `s` without the ticket prefix, if it starts with it.
fn strip_ticket_prefix(s: &str) -> (r: Option<&str>)
    ensures
        match r {
            Some(rest) => starts_with(s@, prefix()) && rest@ == s@.skip(9),
            None => !starts_with(s@, prefix()),
        },
{
    let n: usize = s.unicode_len();
    if n < 9 {
        return None;
    }
    let head = s.substring_char(0, 9).to_owned();
    assert(head@ =~= s@.take(9));
    if head == prefix_text().to_owned() {
        let rest = s.substring_char(9, n);
        assert(rest@ =~= s@.skip(9));
        Some(rest)
    } else {
        None
    }
}

/// Read upper-case base32 text.
pub fn decode_base32(upper: &str) -> (r: Result<iroh::EndpointAddr, TicketError>)
    requires
        encode_utf8(upper@).len() <= usize::MAX / 8,
    ensures
        agrees(r, read_base32(upper@)),
        forall|a: iroh::EndpointAddr|
            upper@ == base32(#[trigger] payload_of(a)) ==> gives_back(r, a),
{
    match base32_decode(upper.as_bytes()) {
        Ok(payload) => {
            let ghost p = payload@;
            assert(encode_utf8(upper@) == encode_utf8(base32(p)));
            assert(read_base32(upper@) == read_payload(p));
            decode_payload(payload.as_slice())
        }
        Err(e) => {
            proof {
                assert forall|a: iroh::EndpointAddr|
                    upper@ == base32(#[trigger] payload_of(a)) implies false by {}
            }
            Err(TicketError::Base32(e))
        }
    }
}

/// A ticket that was trimmed and put in lower case, in upper case again behind
/// the prefix. `None` if it does not start with the prefix.
fn split_ticket(ticket: &str) -> (r: Option<String>)
    ensures
        ({
            let lower = lowercase(trimmed(ticket@));
            match r {
                Some(upper) => starts_with(lower, prefix()) && upper@ == uppercase(lower.skip(9)),
                None => !starts_with(lower, prefix()),
            }
        }),
        forall|a: iroh::EndpointAddr|
            #![trigger ticket_of(a)]
            ticket@ == ticket_of(a) || same_but_for_case(trimmed(ticket@), ticket_of(a)) ==> {
                &&& r is Some
                &&& r->0@ == base32(payload_of(a))
            },
{
    let trim = ticket.trim();
    let lower = trim.to_lowercase();
    proof {
        assert forall|a: iroh::EndpointAddr|
            #![trigger ticket_of(a)]
            ticket@ == ticket_of(a) implies trim@ == ticket_of(a) && same_but_for_case(
            trim@,
            ticket_of(a),
        ) by {
            lemma_ticket_is_graphic(a);
            lemma_graphic_ends_stay(ticket@);
        }
        assert forall|a: iroh::EndpointAddr|
            #![trigger ticket_of(a)]
            same_but_for_case(trim@, ticket_of(a)) implies starts_with(lower@, prefix())
            && lower@.skip(9) =~= base32(payload_of(a)).map_values(|c: char| ascii_lower(c)) by {
            lemma_prefix_of_lower(trim@, lower@, a);
        }
    }
    match strip_ticket_prefix(lower.as_str()) {
        Some(rest) => {
            let upper = rest.to_uppercase();
            proof {
                assert forall|a: iroh::EndpointAddr|
                    #![trigger ticket_of(a)]
                    same_but_for_case(trim@, ticket_of(a)) implies upper@ == base32(
                    payload_of(a),
                ) by {
                    lemma_upper_of_lower(payload_of(a), rest@, upper@);
                }
            }
            Some(upper)
        }
        None => None,
    }
}

/// Parse a ticket string back into the address it encodes.
///
/// Case and surrounding white space do not matter. A ticket decodes to an
/// address with the key, the IP addresses and the relays that it was made from,
/// as long as the text of each relay URL is read as that URL.
pub fn decode(ticket: &str) -> (r: Result<iroh::EndpointAddr, TicketError>)
    requires
        decodable(ticket@),
    ensures
        agrees(r, read_ticket(ticket@)),
        forall|a: iroh::EndpointAddr|
            #![trigger ticket_of(a)]
            ticket@ == ticket_of(a) || same_but_for_case(trimmed(ticket@), ticket_of(a))
                ==> gives_back(r, a),
{
    match split_ticket(ticket) {
        Some(upper) => decode_base32(upper.as_str()),
        None => Err(TicketError::MissingPrefix),
    }
}

/// Parse a ticket string, if it is not too long for base32.
pub fn try_decode(ticket: &str) -> (r: Option<Result<iroh::EndpointAddr, TicketError>>)
    ensures
        match r {
            Some(outcome) => agrees(outcome, read_ticket(ticket@)) && (forall|a: iroh::EndpointAddr|
                #![trigger ticket_of(a)]
                ticket@ == ticket_of(a) || same_but_for_case(trimmed(ticket@), ticket_of(a))
                    ==> gives_back(outcome, a)),
            None => !decodable(ticket@),
        },
        forall|a: iroh::EndpointAddr|
            #![trigger ticket_of(a)]
            (ticket@ == ticket_of(a) || same_but_for_case(trimmed(ticket@), ticket_of(a)))
                && addr_wire(a).len() < usize::MAX / 512 ==> r is Some,
{
    match split_ticket(ticket) {
        Some(upper) => {
            proof {
                assert forall|a: iroh::EndpointAddr|
                    #![trigger ticket_of(a)]
                    upper@ == base32(payload_of(a)) && addr_wire(a).len() < usize::MAX
                        / 512 implies encode_utf8(upper@).len() <= usize::MAX / 8 by {
                    lemma_short_base32(payload_of(a));
                }
            }
            if upper.as_str().as_bytes().len() <= usize::MAX / 8 {
                Some(decode(ticket))
            } else {
                None
            }
        }
        None => Some(Err(TicketError::MissingPrefix)),
    }
}

proof fn lemma_symbol(b: Seq<u8>, k: int)
    requires
        0 <= k < base32(b).len(),
    ensures
        ({
            let c = base32(b)[k];
            ('A' <= c <= 'Z') || ('2' <= c <= '7')
        }),
{
    assert(forall|i: int| bit_at(b, i) <= 1) by {
        assert forall|i: int| bit_at(b, i) <= 1 by {}
    }
    let v = 16 * bit_at(b, 5 * k) + 8 * bit_at(b, 5 * k + 1) + 4 * bit_at(b, 5 * k + 2) + 2
        * bit_at(b, 5 * k + 3) + bit_at(b, 5 * k + 4);
    assert(v < 32);
}

/// The base32 form takes one byte per symbol.
proof fn lemma_short_base32(payload: Seq<u8>)
    ensures
        encode_utf8(base32(payload)).len() == (8 * payload.len() + 4) / 5,
{
    let b = base32(payload);
    assert forall|k: int| 0 <= k < b.len() implies (#[trigger] b[k]) as nat <= 127 by {
        lemma_symbol(payload, k);
    }
    assert(is_ascii_chars(b));
    is_ascii_chars_encode_utf8(b);
}

proof fn lemma_ticket_is_graphic(a: iroh::EndpointAddr)
    ensures
        ({
            let t = ticket_of(a);
            &&& t.len() > 9
            &&& is_graphic(t[0])
            &&& is_graphic(t.last())
            &&& same_but_for_case(t, t)
        }),
{
    let p = payload_of(a);
    let t = ticket_of(a);
    let b = base32(p);
    assert(p.len() >= 1);
    assert(b.len() >= 1);
    assert(t.last() == b[b.len() - 1]);
    lemma_symbol(p, b.len() - 1);
    assert(all_ascii(t)) by {
        assert forall|i: int| 0 <= i < t.len() implies crate::std_text::is_ascii_char(
            #[trigger] t[i],
        ) by {
            if i >= 9 {
                assert(t[i] == b[i - 9]);
                lemma_symbol(p, i - 9);
            }
        }
    }
}

proof fn lemma_prefix_of_lower(trim: Seq<char>, lower: Seq<char>, a: iroh::EndpointAddr)
    requires
        same_but_for_case(trim, ticket_of(a)),
        lower == trim.map_values(|c: char| ascii_lower(c)),
    ensures
        starts_with(lower, prefix()),
        lower.skip(9) == base32(payload_of(a)).map_values(|c: char| ascii_lower(c)),
{
    let t = ticket_of(a);
    let b = base32(payload_of(a));
    assert forall|i: int| 0 <= i < 9 implies lower.take(9)[i] == prefix()[i] by {
        assert(lower[i] == ascii_lower(trim[i]));
        assert(ascii_lower(trim[i]) == ascii_lower(t[i]));
        assert(t[i] == prefix()[i]);
    }
    assert(lower.take(9) =~= prefix());
    assert forall|i: int| 0 <= i < b.len() implies lower.skip(9)[i] == ascii_lower(b[i]) by {
        assert(lower[i + 9] == ascii_lower(trim[i + 9]));
        assert(t[i + 9] == b[i]);
    }
    assert(lower.skip(9) =~= b.map_values(|c: char| ascii_lower(c)));
}

proof fn lemma_upper_of_lower(payload: Seq<u8>, rest: Seq<char>, upper: Seq<char>)
    requires
        rest == base32(payload).map_values(|c: char| ascii_lower(c)),
        all_ascii(rest) ==> upper == rest.map_values(|c: char| ascii_upper(c)),
    ensures
        upper == base32(payload),
{
    let b = base32(payload);
    assert forall|i: int| 0 <= i < b.len() implies crate::std_text::is_ascii_char(
        #[trigger] rest[i],
    ) && ascii_upper(rest[i]) == b[i] by {
        lemma_symbol(payload, i);
        assert(rest[i] == ascii_lower(b[i]));
    }
    assert(all_ascii(rest));
    assert(upper =~= b);
}

/// The payload of a ticket is the version, which is 1, and the address.
pub proof fn law_payloads_are_versioned(addr: iroh::EndpointAddr)
    ensures
        payload_of(addr).len() == 1 + addr_wire(addr).len(),
        payload_of(addr)[0] == 1,
        payload_of(addr).skip(1) == addr_wire(addr),
        ticket_of(addr).len() >= 9,
        ticket_of(addr).take(9) == seq!['s', 'y', 'n', 'c', 'm', 'e', 's', 'h', '1'],
        ticket_of(addr).skip(9) == base32(payload_of(addr)),
{
    assert(payload_of(addr).skip(1) =~= addr_wire(addr));
    assert(ticket_of(addr).take(9) =~= prefix());
    assert(ticket_of(addr).skip(9) =~= base32(payload_of(addr)));
}

/// A payload is read only if it has the right version; what is wrong with any
/// other is said.
pub proof fn law_other_versions_are_refused(payload: Seq<u8>)
    ensures
        payload.len() == 0 <==> read_payload(payload) is Empty,
        payload.len() > 0 && payload[0] != 1 ==> read_payload(payload)
            == TicketView::UnsupportedVersion(payload[0]),
        payload.len() > 0 && payload[0] == 1 ==> match addr_parse(payload.skip(1)) {
            Some(wire) => read_payload(payload) == TicketView::Address(wire),
            None => read_payload(payload) is Postcard,
        },
{
}

/// Only what starts with the prefix, once trimmed and in lower case, can be a
/// ticket; what follows is read as base32.
pub proof fn law_tickets_start_with_the_prefix(ticket: Seq<char>)
    ensures
        ({
            let t = lowercase(trimmed(ticket));
            let marked = t.len() >= 9 && t.take(9) == seq![
                's',
                'y',
                'n',
                'c',
                'm',
                'e',
                's',
                'h',
                '1',
            ];
            &&& read_ticket(ticket) is MissingPrefix ==> !marked
            &&& !marked ==> read_ticket(ticket) is MissingPrefix
            &&& marked ==> read_ticket(ticket) == read_base32(uppercase(t.skip(9)))
        }),
{
}

} // verus!
