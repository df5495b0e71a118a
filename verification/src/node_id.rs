//! 32-byte peer identifier (an Ed25519 public key).
//!
//! Equality and ordering depend only on the 32 bytes: identifiers are ordered
//! lexicographically, and that order is the tie-breaker used throughout the
//! room state machine.

use core::cmp::Ordering;
use vstd::prelude::*;

use crate::text::{hex, hex_text, hex_value, law_hex_can_be_read};

verus! {

/// A 32-byte Ed25519 public key identifying a peer.
#[derive(Debug, Clone, Copy, Eq, Ord, Hash)]
pub struct NodeId(pub [u8; 32]);

/// `a` precedes `b` lexicographically: they agree up to some index, where
/// `a` holds the smaller byte.
pub open spec fn precedes(a: Seq<u8>, b: Seq<u8>) -> bool {
    exists|i: int| #[trigger] first_difference(a, b, i) && a[i] < b[i]
}

/// `i` is the first index at which `a` and `b` differ.
pub open spec fn first_difference(a: Seq<u8>, b: Seq<u8>, i: int) -> bool {
    &&& 0 <= i < a.len()
    &&& i < b.len()
    &&& forall|j: int| 0 <= j < i ==> #[trigger] a[j] == b[j]
    &&& a[i] != b[i]
}

impl NodeId {
    /// The strict order on identifiers.
    pub open spec fn before(self, other: NodeId) -> bool {
        precedes(self.0@, other.0@)
    }

    /// Returns the raw 32 bytes.
    pub fn as_bytes(&self) -> (r: &[u8; 32])
        ensures
            *r == self.0,
    {
        &self.0
    }

    /// Constructs a `NodeId` from a byte array.
    pub fn from_bytes(bytes: [u8; 32]) -> (r: Self)
        ensures
            r.0 == bytes,
    {
        Self(bytes)
    }

    /// The first four bytes in hexadecimal and an ellipsis: enough to tell
    /// peers apart in logs.
    pub fn abbreviated(&self) -> (r: String)
        ensures
            r@ == self.short_name(),
    {
        let head: [u8; 4] = [self.0[0], self.0[1], self.0[2], self.0[3]];
        assert(head@ =~= self.0@.take(4));
        let mut r = hex_text(&head);
        r.push('\u{2026}');
        r
    }

    /// All bytes in hexadecimal.
    pub fn to_hex(&self) -> (r: String)
        ensures
            r@ == hex(self.0@),
    {
        hex_text(&self.0)
    }

    /// The first four bytes in hexadecimal and an ellipsis.
    pub open spec fn short_name(self) -> Seq<char> {
        hex(self.0@.take(4)).push('\u{2026}')
    }
}

/// Identifiers with the same bytes are the same identifier.
pub proof fn lemma_same_bytes(a: NodeId, b: NodeId)
    requires
        a.0@ == b.0@,
    ensures
        a == b,
{
    assert(a.0 =~= b.0);
}

/// The order is irreflexive.
pub proof fn lemma_before_irreflexive(a: NodeId)
    ensures
        !a.before(a),
{
}

/// The order is transitive.
pub proof fn lemma_before_transitive(a: NodeId, b: NodeId, c: NodeId)
    requires
        a.before(b),
        b.before(c),
    ensures
        a.before(c),
{
    let i = choose|i: int| #[trigger] first_difference(a.0@, b.0@, i) && a.0@[i] < b.0@[i];
    let j = choose|j: int| #[trigger] first_difference(b.0@, c.0@, j) && b.0@[j] < c.0@[j];
    let k = if i <= j { i } else { j };
    assert(first_difference(a.0@, c.0@, k));
}

/// The order is asymmetric.
pub proof fn lemma_before_asymmetric(a: NodeId, b: NodeId)
    requires
        a.before(b),
    ensures
        !b.before(a),
        a != b,
{
    if b.before(a) {
        lemma_before_transitive(a, b, a);
    }
}

/// Any two distinct identifiers are ordered one way or the other.
pub proof fn lemma_before_total(a: NodeId, b: NodeId)
    ensures
        a == b || a.before(b) || b.before(a),
{
    if a != b {
        if forall|j: int| 0 <= j < 32 ==> #[trigger] a.0@[j] == b.0@[j] {
            assert(a.0@ =~= b.0@);
            lemma_same_bytes(a, b);
        }
        let w = choose|j: int| 0 <= j < 32 && #[trigger] a.0@[j] != b.0@[j];
        lemma_least_difference(a.0@, b.0@, w);
        let i = choose|i: int| first_difference(a.0@, b.0@, i);
        if a.0@[i] < b.0@[i] {
            assert(a.before(b));
        } else {
            assert(first_difference(b.0@, a.0@, i));
            assert(b.before(a));
        }
    }
}

proof fn lemma_least_difference(a: Seq<u8>, b: Seq<u8>, w: int)
    requires
        0 <= w < a.len(),
        w < b.len(),
        a[w] != b[w],
    ensures
        exists|i: int| first_difference(a, b, i),
    decreases w,
{
    if forall|j: int| 0 <= j < w ==> #[trigger] a[j] == b[j] {
        assert(first_difference(a, b, w));
    } else {
        let v = choose|j: int| 0 <= j < w && #[trigger] a[j] != b[j];
        lemma_least_difference(a, b, v);
    }
}

/// Where two identifiers stand to each other in the byte order.
pub open spec fn node_order(a: NodeId, b: NodeId) -> Ordering {
    if a.before(b) {
        Ordering::Less
    } else if a == b {
        Ordering::Equal
    } else {
        Ordering::Greater
    }
}

/// Whether `a` comes before `b` in the byte order.
fn comes_before(a: &NodeId, b: &NodeId) -> (r: bool)
    ensures
        r == a.before(*b),
{
    let mut i: usize = 0;
    while i < 32
        invariant
            0 <= i <= 32,
            forall|j: int| 0 <= j < i ==> #[trigger] a.0@[j] == b.0@[j],
        decreases 32 - i,
    {
        if a.0[i] != b.0[i] {
            assert(first_difference(a.0@, b.0@, i as int));
            assert(first_difference(b.0@, a.0@, i as int));
            if a.0[i] < b.0[i] {
                assert(a.before(*b));
                return true;
            }
            proof {
                assert(b.before(*a));
                lemma_before_asymmetric(*b, *a);
            }
            return false;
        }
        i = i + 1;
    }
    proof {
        assert(a.0@ =~= b.0@);
        lemma_same_bytes(*a, *b);
        lemma_before_irreflexive(*a);
    }
    false
}

fn order_of(a: &NodeId, b: &NodeId) -> (r: Ordering)
    ensures
        r == node_order(*a, *b),
{
    if comes_before(a, b) {
        Ordering::Less
    } else if comes_before(b, a) {
        proof {
            lemma_before_irreflexive(*a);
        }
        Ordering::Greater
    } else {
        proof {
            lemma_before_total(*a, *b);
        }
        Ordering::Equal
    }
}

impl PartialEq for NodeId {
    fn eq(&self, other: &Self) -> (r: bool) {
        proof {
            lemma_before_irreflexive(*self);
        }
        matches!(order_of(self, other), Ordering::Equal)
    }
}

impl vstd::std_specs::cmp::PartialEqSpecImpl for NodeId {
    open spec fn obeys_eq_spec() -> bool {
        true
    }

    open spec fn eq_spec(&self, other: &Self) -> bool {
        *self == *other
    }
}

impl PartialOrd for NodeId {
    fn partial_cmp(&self, other: &Self) -> (r: Option<Ordering>) {
        Some(order_of(self, other))
    }
}

impl vstd::std_specs::cmp::PartialOrdSpecImpl for NodeId {
    open spec fn obeys_partial_cmp_spec() -> bool {
        true
    }

    open spec fn partial_cmp_spec(&self, other: &Self) -> Option<Ordering> {
        Some(node_order(*self, *other))
    }
}

impl From<[u8; 32]> for NodeId {
    fn from(bytes: [u8; 32]) -> (r: Self) {
        Self(bytes)
    }
}

impl vstd::std_specs::convert::FromSpecImpl<[u8; 32]> for NodeId {
    open spec fn obeys_from_spec() -> bool {
        true
    }

    open spec fn from_spec(bytes: [u8; 32]) -> NodeId {
        NodeId(bytes)
    }
}

/// The first byte that differs decides which of two identifiers comes first.
pub proof fn law_first_difference_decides(a: NodeId, b: NodeId, i: int)
    requires
        0 <= i < 32,
        forall|j: int| 0 <= j < i ==> #[trigger] a.0@[j] == b.0@[j],
        a.0@[i] < b.0@[i],
    ensures
        a.before(b),
        !b.before(a),
        a != b,
{
    assert(first_difference(a.0@, b.0@, i));
    lemma_before_asymmetric(a, b);
}

/// The short name is the first four bytes in hexadecimal and an ellipsis: peers
/// with the same short name agree in these bytes.
pub proof fn law_short_names_show_four_bytes(a: NodeId, b: NodeId, i: int)
    requires
        0 <= i < 4,
    ensures
        a.short_name().len() == 9,
        a.short_name().last() == '\u{2026}',
        a.0@[i] == 16 * hex_value(a.short_name()[2 * i]) + hex_value(a.short_name()[2 * i + 1]),
        a.short_name() == b.short_name() ==> a.0@[i] == b.0@[i],
{
    law_hex_can_be_read(a.0@.take(4));
    law_hex_can_be_read(b.0@.take(4));
    assert(a.0@.take(4)[i] == a.0@[i]);
    assert(b.0@.take(4)[i] == b.0@[i]);
}

} // verus!
