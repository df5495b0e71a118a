//! Ready-state gate.
//!
//! Every peer advertises whether it is ready. Playback may advance when *all*
//! peers are ready, unless the override is enabled, in which case one ready
//! peer is enough.

use vstd::prelude::*;

use crate::node_id::NodeId;
use crate::node_map::{ascending, keys_of, lemma_listing_is, listing, lists, NodeMap};

verus! {

#[derive(Debug, Clone, Copy, PartialEq, Eq, Structural)]
pub enum ReadyState {
    /// Playback should remain paused.
    Pending,
    /// Playback may proceed.
    AllReady,
}

/// Tracks per-peer readiness and derives the room-wide [`ReadyState`].
#[derive(Debug, Clone)]
pub struct ReadyGate {
    peers: NodeMap<bool>,
    override_enabled: bool,
}

/// What a [`ReadyGate`] knows.
pub struct ReadyGateView {
    pub peers: Map<NodeId, bool>,
    pub override_enabled: bool,
}

impl ReadyGateView {
    pub open spec fn empty() -> ReadyGateView {
        ReadyGateView { peers: Map::empty(), override_enabled: false }
    }

    /// The peers that are not ready.
    pub open spec fn laggards(self) -> Set<NodeId> {
        Set::new(|n: NodeId| self.peers.contains_key(n) && !self.peers[n])
    }

    pub open spec fn all_ready(self) -> bool {
        forall|n: NodeId| #[trigger] self.peers.contains_key(n) ==> self.peers[n]
    }

    pub open spec fn any_ready(self) -> bool {
        exists|n: NodeId| #[trigger] self.peers.contains_key(n) && self.peers[n]
    }

    pub open spec fn is_empty(self) -> bool {
        forall|n: NodeId| !(#[trigger] self.peers.contains_key(n))
    }

    /// The room-wide state: an empty room waits; otherwise everyone must be
    /// ready, or somebody if the override is enabled.
    pub open spec fn state(self) -> ReadyState {
        if !self.is_empty() && (self.all_ready() || (self.override_enabled && self.any_ready())) {
            ReadyState::AllReady
        } else {
            ReadyState::Pending
        }
    }

    /// `node` is known as `ready` from now on.
    pub open spec fn set(self, node: NodeId, ready: bool) -> ReadyGateView {
        ReadyGateView { peers: self.peers.insert(node, ready), ..self }
    }

    /// `node` is known as `ready` from now on, unless it was known before.
    pub open spec fn set_if_absent(self, node: NodeId, ready: bool) -> ReadyGateView {
        if self.peers.contains_key(node) {
            self
        } else {
            self.set(node, ready)
        }
    }

    /// `node` is no longer known.
    pub open spec fn remove(self, node: NodeId) -> ReadyGateView {
        ReadyGateView { peers: self.peers.remove(node), ..self }
    }
}

/// `node` stands among the first `end` entries and is not ready.
spec fn laggard_before(entries: Seq<(NodeId, bool)>, end: int, node: NodeId) -> bool {
    exists|k: int| 0 <= k < end && (#[trigger] entries[k]).0 == node && !entries[k].1
}

impl View for ReadyGate {
    type V = ReadyGateView;

    closed spec fn view(&self) -> ReadyGateView {
        ReadyGateView { peers: self.peers@, override_enabled: self.override_enabled }
    }
}

impl Default for ReadyGate {
    fn default() -> (r: Self)
        ensures
            r.wf(),
            r@ == ReadyGateView::empty(),
    {
        ReadyGate::new()
    }
}

impl ReadyGate {
    pub closed spec fn wf(&self) -> bool {
        self.peers.wf()
    }

    /// A gate tracks finitely many peers.
    pub proof fn law_gate_is_finite(&self)
        requires
            self.wf(),
        ensures
            self@.peers.dom().finite(),
    {
        self.peers.lemma_entries();
    }

    pub fn new() -> (r: Self)
        ensures
            r.wf(),
            r@ == ReadyGateView::empty(),
    {
        ReadyGate { peers: NodeMap::new(), override_enabled: false }
    }

    /// Enable or disable the override. When enabled, [`ReadyGate::state`] is
    /// `AllReady` as long as at least one peer is ready.
    pub fn set_override(&mut self, enabled: bool)
        requires
            old(self).wf(),
        ensures
            final(self).wf(),
            final(self)@ == (ReadyGateView { override_enabled: enabled, ..old(self)@ }),
    {
        self.override_enabled = enabled;
    }

    pub fn is_override_enabled(&self) -> (r: bool)
        ensures
            r == self@.override_enabled,
    {
        self.override_enabled
    }

    /// Register or update a peer's readiness. The local node is included so the
    /// gate can reason about the full room.
    pub fn set(&mut self, node: NodeId, ready: bool)
        requires
            old(self).wf(),
        ensures
            final(self).wf(),
            final(self)@ == old(self)@.set(node, ready),
    {
        self.peers.insert(node, ready);
    }

    /// Register a peer's readiness if the peer is unknown; never changes the
    /// readiness of a known one.
    pub fn set_if_absent(&mut self, node: NodeId, ready: bool)
        requires
            old(self).wf(),
        ensures
            final(self).wf(),
            final(self)@ == old(self)@.set_if_absent(node, ready),
    {
        if !self.peers.contains_key(&node) {
            self.peers.insert(node, ready);
        }
    }

    /// Remove a peer (e.g. on disconnect).
    pub fn remove(&mut self, node: &NodeId)
        requires
            old(self).wf(),
        ensures
            final(self).wf(),
            final(self)@ == old(self)@.remove(*node),
    {
        self.peers.remove(node);
    }

    /// Look up a specific peer's current readiness.
    pub fn get(&self, node: &NodeId) -> (r: Option<bool>)
        requires
            self.wf(),
        ensures
            r == (if self@.peers.contains_key(*node) {
                Some(self@.peers[*node])
            } else {
                None
            }),
    {
        match self.peers.get(node) {
            Some(ready) => Some(*ready),
            None => None,
        }
    }

    /// Number of peers tracked (including self).
    pub fn len(&self) -> (r: usize)
        requires
            self.wf(),
        ensures
            r == self@.peers.dom().len(),
            self@.peers.dom().finite(),
            r == 0 <==> self@.is_empty(),
    {
        proof {
            self.law_gate_is_finite();
            law_empty_gate_has_no_peers(self@);
        }
        self.peers.len()
    }

    pub fn is_empty(&self) -> (r: bool)
        requires
            self.wf(),
        ensures
            r == self@.is_empty(),
    {
        proof {
            self.peers.lemma_entries();
        }
        let n: usize = self.peers.len();
        if n > 0 {
            assert(self@.peers.contains_key(self.peers.entries()[0].0));
        }
        n == 0
    }

    /// Derived room-wide state.
    pub fn state(&self) -> (r: ReadyState)
        requires
            self.wf(),
        ensures
            r == self@.state(),
    {
        if self.is_empty() {
            // No peers: nothing to play against.
            return ReadyState::Pending;
        }
        let n: usize = self.peers.len();
        let mut any_ready = false;
        let mut all_ready = true;
        let mut i: usize = 0;
        let ghost es = self.peers.entries();
        while i < n
            invariant
                0 <= i <= n,
                n == es.len(),
                es == self.peers.entries(),
                any_ready <==> exists|j: int| 0 <= j < i && (#[trigger] es[j]).1,
                all_ready <==> forall|j: int| 0 <= j < i ==> (#[trigger] es[j]).1,
            decreases n - i,
        {
            let e = self.peers.at(i);
            if *e.1 {
                assert(es[i as int].1);
                any_ready = true;
            } else {
                assert(!es[i as int].1);
                all_ready = false;
            }
            i = i + 1;
        }
        proof {
            self.peers.lemma_entries();
            let m = self.peers@;
            if all_ready {
                assert forall|k: NodeId| #[trigger] m.contains_key(k) implies m[k] by {
                    let j = choose|j: int| 0 <= j < es.len() && (#[trigger] es[j]).0 == k;
                    assert(es[j].1);
                }
            } else {
                let j = choose|j: int| 0 <= j < es.len() && !(#[trigger] es[j]).1;
                assert(m.contains_key(es[j].0) && !m[es[j].0]);
            }
            if any_ready {
                let j = choose|j: int| 0 <= j < es.len() && (#[trigger] es[j]).1;
                assert(m.contains_key(es[j].0) && m[es[j].0]);
            } else if self@.any_ready() {
                let k = choose|k: NodeId| #[trigger] m.contains_key(k) && m[k];
                let j = choose|j: int| 0 <= j < es.len() && (#[trigger] es[j]).0 == k;
                assert(es[j].1);
            }
        }
        if all_ready || (self.override_enabled && any_ready) {
            ReadyState::AllReady
        } else {
            ReadyState::Pending
        }
    }

    /// The peers that are currently not ready, in ascending order. Useful for
    /// the "waiting on ..." display.
    pub fn not_ready(&self) -> (r: Vec<NodeId>)
        requires
            self.wf(),
        ensures
            r@ == listing(self@.laggards()),
            ascending(r@),
            forall|n: NodeId| #[trigger] r@.contains(n) <==> self@.laggards().contains(n),
    {
        let n: usize = self.peers.len();
        let mut r: Vec<NodeId> = Vec::new();
        let mut i: usize = 0;
        let ghost es = self.peers.entries();
        proof {
            self.peers.lemma_entries();
        }
        while i < n
            invariant
                0 <= i <= n,
                n == es.len(),
                es == self.peers.entries(),
                ascending(keys_of(es)),
                ascending(r@),
                forall|j: int| 0 <= j < r@.len() ==> laggard_before(es, i as int, #[trigger] r@[j]),
                forall|k: int|
                    0 <= k < i && !(#[trigger] es[k]).1 ==> r@.contains(es[k].0),
            decreases n - i,
        {
            let e = self.peers.at(i);
            let ghost before = r@;
            if !*e.1 {
                r.push(*e.0);
                proof {
                    assert forall|a: int, b: int| 0 <= a < b < r@.len() implies (
                    #[trigger] r@[a]).before(#[trigger] r@[b]) by {
                        assert(r@[a] == before[a]);
                        if b == before.len() {
                            assert(laggard_before(es, i as int, before[a]));
                            let k = choose|k: int|
                                0 <= k < i && (#[trigger] es[k]).0 == before[a] && !es[k].1;
                            assert(keys_of(es)[k].before(keys_of(es)[i as int]));
                        }
                    }
                    assert forall|k: int| 0 <= k < i + 1 && !(#[trigger] es[k]).1 implies r@.contains(
                        es[k].0,
                    ) by {
                        if k < i {
                            let j = choose|j: int| 0 <= j < before.len() && before[j] == es[k].0;
                            assert(r@[j] == es[k].0);
                        } else {
                            assert(r@[before.len() as int] == es[k].0);
                        }
                    }
                }
            }
            proof {
                assert forall|j: int| 0 <= j < r@.len() implies laggard_before(
                    es,
                    i + 1,
                    #[trigger] r@[j],
                ) by {
                    assert(j < before.len() ==> r@[j] == before[j]);
                    assert(j < before.len() ==> laggard_before(es, i as int, before[j]));
                    assert(j == before.len() ==> es[i as int].0 == r@[j]);
                }
            }
            i = i + 1;
        }
        proof {
            let s = self@.laggards();
            assert forall|m: NodeId| #[trigger] s.contains(m) <==> r@.contains(m) by {
                if s.contains(m) {
                    let k = choose|k: int| 0 <= k < es.len() && (#[trigger] es[k]).0 == m;
                    assert(!es[k].1);
                }
                if r@.contains(m) {
                    let j = choose|j: int| 0 <= j < r@.len() && r@[j] == m;
                    assert(laggard_before(es, es.len() as int, r@[j]));
                    let k = choose|k: int|
                        0 <= k < es.len() && (#[trigger] es[k]).0 == r@[j] && !es[k].1;
                    assert(self.peers@.contains_key(es[k].0));
                }
            }
            assert(lists(r@, s));
            lemma_listing_is(r@, s);
        }
        r
    }
}

/// A gate is empty exactly when it tracks no peer.
pub proof fn law_empty_gate_has_no_peers(gate: ReadyGateView)
    requires
        gate.peers.dom().finite(),
    ensures
        gate.is_empty() <==> gate.peers.dom().len() == 0,
{
    if gate.peers.dom().len() == 0 {
        assert(gate.peers.dom() =~= Set::empty());
        assert forall|n: NodeId| !(#[trigger] gate.peers.contains_key(n)) by {
            assert(!gate.peers.dom().contains(n));
        }
    } else {
        let n = gate.peers.dom().choose();
        assert(gate.peers.contains_key(n));
    }
}

/// Tracking a new peer adds one to the count, a known one nothing; forgetting a
/// known peer takes one away, an unknown one nothing.
pub proof fn law_gate_counts_peers(gate: ReadyGateView, node: NodeId, ready: bool)
    requires
        gate.peers.dom().finite(),
    ensures
        ({
            let before = gate.peers.dom().len();
            let known = gate.peers.contains_key(node);
            &&& gate.set(node, ready).peers.dom().len() == if known {
                before
            } else {
                before + 1
            }
            &&& gate.remove(node).peers.dom().len() == if known {
                before - 1
            } else {
                before as int
            }
            &&& !known ==> gate.remove(node) == gate
        }),
{
    let d = gate.peers.dom();
    assert(gate.set(node, ready).peers.dom() =~= d.insert(node));
    assert(gate.remove(node).peers.dom() =~= d.remove(node));
    if d.contains(node) {
        assert(d.insert(node) =~= d);
    } else {
        assert(d.remove(node) =~= d);
        assert(gate.remove(node).peers =~= gate.peers);
    }
}

/// Without the override, playback may advance exactly when the room is not
/// empty and nobody is waited for.
pub proof fn law_gate_is_unanimous(gate: ReadyGateView)
    requires
        !gate.override_enabled,
    ensures
        gate.state() is AllReady <==> !gate.is_empty() && (forall|n: NodeId|
            !(#[trigger] gate.laggards().contains(n))),
{
    assert forall|n: NodeId| gate.peers.contains_key(n) && !gate.peers[n] implies
        #[trigger] gate.laggards().contains(n) by {}
    if gate.all_ready() {
        assert forall|n: NodeId| !(#[trigger] gate.laggards().contains(n)) by {
            if gate.laggards().contains(n) {
                assert(gate.peers.contains_key(n));
            }
        }
    } else {
        let n = choose|n: NodeId| #[trigger] gate.peers.contains_key(n) && !gate.peers[n];
        assert(gate.laggards().contains(n));
    }
}

/// Even with the override, at least one peer has to be ready.
pub proof fn law_override_needs_one_ready(gate: ReadyGateView)
    ensures
        gate.state() is AllReady ==> gate.any_ready(),
        gate.override_enabled && gate.any_ready() ==> gate.state() is AllReady,
{
    if gate.state() is AllReady {
        let n = choose|n: NodeId| #[trigger] gate.peers.contains_key(n);
        assert(gate.peers.contains_key(n));
    }
}

/// What is set is what is known, and nothing else changes. Setting only what is
/// unknown changes nothing that is known. What is removed is unknown.
pub proof fn law_gate_remembers(gate: ReadyGateView, node: NodeId, ready: bool, other: NodeId)
    ensures
        ({
            let g = gate.set(node, ready);
            &&& g.peers.contains_key(node) && g.peers[node] == ready
            &&& other != node ==> g.peers.contains_key(other) == gate.peers.contains_key(other)
                && g.peers[other] == gate.peers[other]
            &&& g.override_enabled == gate.override_enabled
        }),
        ({
            let g = gate.set_if_absent(node, ready);
            &&& g.peers.contains_key(node)
            &&& g.peers[node] == if gate.peers.contains_key(node) {
                gate.peers[node]
            } else {
                ready
            }
            &&& other != node ==> g.peers.contains_key(other) == gate.peers.contains_key(other)
                && g.peers[other] == gate.peers[other]
            &&& g.override_enabled == gate.override_enabled
        }),
        ({
            let g = gate.remove(node);
            &&& !g.peers.contains_key(node)
            &&& other != node ==> g.peers.contains_key(other) == gate.peers.contains_key(other)
                && g.peers[other] == gate.peers[other]
            &&& g.override_enabled == gate.override_enabled
        }),
        !ReadyGateView::empty().peers.contains_key(node),
        !ReadyGateView::empty().override_enabled,
{
}

/// Exactly the known peers that are not ready are waited for.
pub proof fn law_laggards_are_not_ready(gate: ReadyGateView, node: NodeId)
    ensures
        gate.laggards().contains(node) <==> gate.peers.contains_key(node) && !gate.peers[node],
{
}

} // verus!
