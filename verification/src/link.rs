//! Links between peers, up to the transport.
//!
//! Each pair of peers shares one connection with a control stream for reliable
//! frames and datagrams for heartbeats. The dialer opens the stream and writes
//! one byte, without which the other side would not see it.

use vstd::prelude::*;
use vstd::string::*;

use crate::framing::{FrameRecvError, FrameSendError};
use crate::text::{hex, hex_text};

verus! {

/// Identifies the protocol on a connection.
pub fn alpn() -> (r: Vec<u8>)
    ensures
        r@ == seq![
            0x73u8, 0x79u8, 0x6eu8, 0x63u8, 0x6du8, 0x65u8, 0x73u8, 0x68u8, 0x2fu8, 0x30u8,
        ],
{
    // "syncmesh/0"
    let r: Vec<u8> = vec![0x73, 0x79, 0x6e, 0x63, 0x6d, 0x65, 0x73, 0x68, 0x2f, 0x30];
    assert(r@ =~= seq![
        0x73u8, 0x79u8, 0x6eu8, 0x63u8, 0x6du8, 0x65u8, 0x73u8, 0x68u8, 0x2fu8, 0x30u8,
    ]);
    r
}

/// The byte that the dialer sends first: the version of the protocol.
pub const PROTOCOL_HELLO: u8 = 1;

#[derive(Debug)]
pub enum PeerLinkError {
    /// The control stream could not be opened.
    OpenBi(String),
    /// The control stream could not be accepted.
    AcceptBi(String),
    /// A datagram could not be sent or received.
    Datagram(String),
    FrameSend(FrameSendError),
    FrameRecv(FrameRecvError),
}

/// The complaint about an unexpected first byte.
pub open spec fn bad_hello(byte: u8) -> Seq<char> {
    "unexpected protocol hello byte: 0x"@ + hex(seq![byte])
}

/// Check the first byte of a control stream.
pub fn check_hello(byte: u8) -> (r: Result<(), PeerLinkError>)
    ensures
        match r {
            Ok(()) => byte == PROTOCOL_HELLO,
            Err(PeerLinkError::AcceptBi(message)) => byte != PROTOCOL_HELLO && message@ == bad_hello(
                byte,
            ),
            Err(_) => false,
        },
{
    if byte == PROTOCOL_HELLO {
        return Ok(());
    }
    let bytes: [u8; 1] = [byte];
    assert(bytes@ =~= seq![byte]);
    let mut message = "unexpected protocol hello byte: 0x".to_owned();
    let digits = hex_text(&bytes);
    message.append(digits.as_str());
    Err(PeerLinkError::AcceptBi(message))
}

/// Which path of a connection to take the round-trip time from: the first one
/// that is selected, or the first one if none is.
pub open spec fn is_measured_path(selected: Seq<bool>, i: int) -> bool {
    &&& 0 <= i < selected.len()
    &&& if exists|j: int| 0 <= j < selected.len() && #[trigger] selected[j] {
        selected[i] && forall|j: int| 0 <= j < i ==> !#[trigger] selected[j]
    } else {
        i == 0
    }
}

/// Pick the path to measure, given which paths are selected. `None` without
/// paths.
pub fn pick_path(selected: &Vec<bool>) -> (r: Option<usize>)
    ensures
        match r {
            Some(i) => is_measured_path(selected@, i as int),
            None => selected@.len() == 0,
        },
{
    let mut i: usize = 0;
    while i < selected.len()
        invariant
            0 <= i <= selected@.len(),
            forall|j: int| 0 <= j < i ==> !#[trigger] selected@[j],
        decreases selected@.len() - i,
    {
        if selected[i] {
            assert(selected@[i as int]);
            return Some(i);
        }
        i = i + 1;
    }
    if selected.len() == 0 {
        None
    } else {
        Some(0)
    }
}

/// How an endpoint is set up.
#[derive(Debug, Clone)]
pub struct MeshConfig {
    /// No relay and no address lookup: for use on one machine.
    pub localhost_only: bool,
    /// Use this relay instead of the default ones. Ignored for local use.
    pub relay_override: Option<String>,
}

impl MeshConfig {
    pub fn localhost() -> (r: Self)
        ensures
            r.localhost_only,
            r.relay_override is None,
    {
        MeshConfig { localhost_only: true, relay_override: None }
    }

    /// The same with another relay.
    pub fn with_relay_override(self, url: String) -> (r: Self)
        ensures
            r == (MeshConfig { relay_override: Some(url), ..self }),
    {
        MeshConfig { localhost_only: self.localhost_only, relay_override: Some(url) }
    }

    /// The relay to use instead of the default ones.
    pub fn custom_relay(&self) -> (r: Option<&String>)
        ensures
            match r {
                Some(url) => !self.localhost_only && self.relay_override == Some(*url),
                None => self.localhost_only || self.relay_override is None,
            },
    {
        if self.localhost_only {
            None
        } else {
            self.relay_override.as_ref()
        }
    }
}

impl Default for MeshConfig {
    fn default() -> (r: Self)
        ensures
            !r.localhost_only,
            r.relay_override is None,
    {
        MeshConfig { localhost_only: false, relay_override: None }
    }
}

/// The first selected path is measured; where none is selected, the first of
/// all; and no other.
pub proof fn law_one_path_is_measured(selected: Seq<bool>, i: int, k: int)
    requires
        is_measured_path(selected, i),
        0 <= k < selected.len(),
    ensures
        selected[k] && (forall|j: int| 0 <= j < k ==> !(#[trigger] selected[j])) ==> i == k,
        (forall|j: int| 0 <= j < selected.len() ==> !(#[trigger] selected[j])) ==> i == 0,
        !selected[i] ==> !selected[k],
{
    if selected[k] && (forall|j: int| 0 <= j < k ==> !(#[trigger] selected[j])) {
        if i < k {
            assert(!selected[i]);
        }
        if k < i {
            assert(!selected[k]);
        }
    }
}

/// The complaint about a first byte ends with that byte: different bytes lead to
/// different complaints.
pub proof fn law_complaint_names_the_byte(a: u8, b: u8)
    requires
        bad_hello(a) == bad_hello(b),
    ensures
        a == b,
{
    let head = "unexpected protocol hello byte: 0x"@;
    assert(bad_hello(a).skip(head.len() as int) =~= hex(seq![a]));
    assert(bad_hello(b).skip(head.len() as int) =~= hex(seq![b]));
    crate::text::law_hex_can_be_read(seq![a]);
    crate::text::law_hex_can_be_read(seq![b]);
    assert(seq![a][0] == seq![b][0]);
}

} // verus!
