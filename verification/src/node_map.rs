//! A map keyed by [`NodeId`], kept in ascending key order.
//!
//! The room walks its peers in the order of their identifiers (rosters,
//! snapshots, tie-breaks), so the map is stored as one strictly ascending
//! vector of entries. Its model is a mathematical map; [`listing`] recovers the
//! order in which the entries are walked.

use vstd::prelude::*;

use crate::node_id::{
    lemma_before_asymmetric, lemma_before_irreflexive, lemma_before_total, lemma_before_transitive,
    NodeId,
};

verus! {

/// Every identifier comes before all later ones.
pub open spec fn ascending(keys: Seq<NodeId>) -> bool {
    forall|i: int, j: int|
        0 <= i < j < keys.len() ==> (#[trigger] keys[i]).before(#[trigger] keys[j])
}

/// `keys` names exactly the members of `s`, in ascending order.
pub open spec fn lists(keys: Seq<NodeId>, s: Set<NodeId>) -> bool {
    &&& ascending(keys)
    &&& forall|n: NodeId| #[trigger] s.contains(n) <==> keys.contains(n)
}

/// The members of a finite set of identifiers in ascending order.
pub open spec fn listing(s: Set<NodeId>) -> Seq<NodeId> {
    choose|keys: Seq<NodeId>| lists(keys, s)
}

/// A set has only one ascending listing.
pub proof fn lemma_listing_unique(a: Seq<NodeId>, b: Seq<NodeId>, s: Set<NodeId>)
    requires
        lists(a, s),
        lists(b, s),
    ensures
        a == b,
    decreases a.len(),
{
    if a.len() == 0 {
        if b.len() > 0 {
            assert(b.contains(b[0]));
            assert(s.contains(b[0]));
            assert(a.contains(b[0]));
        }
        assert(a =~= b);
    } else {
        assert(a.contains(a[0]));
        assert(s.contains(a[0]));
        assert(b.contains(a[0]));
        assert(b.contains(b[0]));
        assert(s.contains(b[0]));
        assert(a.contains(b[0]));
        if a[0] != b[0] {
            let i = choose|i: int| 0 <= i < a.len() && a[i] == b[0];
            let j = choose|j: int| 0 <= j < b.len() && b[j] == a[0];
            assert(a[0].before(a[i]));
            assert(b[0].before(b[j]));
            lemma_before_asymmetric(a[0], b[0]);
        }
        let at = a.skip(1);
        let bt = b.skip(1);
        let st = s.remove(a[0]);
        lemma_tail_lists(a, s);
        lemma_tail_lists(b, s);
        lemma_listing_unique(at, bt, st);
        assert(a =~= seq![a[0]] + at);
        assert(b =~= seq![b[0]] + bt);
    }
}

proof fn lemma_tail_lists(a: Seq<NodeId>, s: Set<NodeId>)
    requires
        lists(a, s),
        a.len() > 0,
    ensures
        lists(a.skip(1), s.remove(a[0])),
{
    let at = a.skip(1);
    let st = s.remove(a[0]);
    assert forall|n: NodeId| #[trigger] st.contains(n) <==> at.contains(n) by {
        if st.contains(n) {
            assert(s.contains(n));
            let i = choose|i: int| 0 <= i < a.len() && a[i] == n;
            assert(at[i - 1] == n);
        }
        if at.contains(n) {
            let i = choose|i: int| 0 <= i < at.len() && at[i] == n;
            assert(a[i + 1] == n);
            assert(a[0].before(a[i + 1]));
            lemma_before_irreflexive(n);
            assert(a.contains(n));
            assert(s.contains(n));
        }
    }
}

/// An ascending listing is the listing.
pub proof fn lemma_listing_is(keys: Seq<NodeId>, s: Set<NodeId>)
    requires
        lists(keys, s),
    ensures
        listing(s) == keys,
{
    lemma_listing_unique(listing(s), keys, s);
}

/// Every finite set of identifiers has an ascending listing, with as many
/// entries as the set has members.
pub proof fn law_finite_sets_are_listed(s: Set<NodeId>)
    requires
        s.finite(),
    ensures
        lists(listing(s), s),
        listing(s).len() == s.len(),
    decreases s.len(),
{
    if s.len() == 0 {
        assert(s =~= Set::empty());
        let keys = Seq::<NodeId>::empty();
        assert(lists(keys, s));
        lemma_listing_is(keys, s);
    } else {
        let last = lemma_greatest(s, s.choose());
        let rest = s.remove(last);
        law_finite_sets_are_listed(rest);
        let head = listing(rest);
        let keys = head.push(last);
        assert forall|i: int, j: int| 0 <= i < j < keys.len() implies (#[trigger] keys[i]).before(
            #[trigger] keys[j],
        ) by {
            assert(head.contains(head[i]));
            assert(rest.contains(head[i]));
        }
        assert forall|n: NodeId| #[trigger] s.contains(n) <==> keys.contains(n) by {
            if s.contains(n) {
                if n == last {
                    assert(keys[head.len() as int] == n);
                } else {
                    assert(rest.contains(n));
                    let i = choose|i: int| 0 <= i < head.len() && head[i] == n;
                    assert(keys[i] == n);
                }
            }
            if keys.contains(n) {
                let i = choose|i: int| 0 <= i < keys.len() && keys[i] == n;
                if i < head.len() {
                    assert(head.contains(head[i]));
                    assert(rest.contains(n));
                }
            }
        }
        lemma_listing_is(keys, s);
    }
}

/// A finite set with a member has a greatest one.
proof fn lemma_greatest(s: Set<NodeId>, n: NodeId) -> (last: NodeId)
    requires
        s.finite(),
        s.contains(n),
    ensures
        s.contains(last),
        forall|m: NodeId| #[trigger] s.contains(m) && m != last ==> m.before(last),
    decreases s.len(),
{
    let rest = s.remove(n);
    if rest.len() == 0 {
        assert(rest =~= Set::empty());
        assert forall|m: NodeId| #[trigger] s.contains(m) implies m == n by {
            assert(!rest.contains(m));
        }
        n
    } else {
        let l = lemma_greatest(rest, rest.choose());
        lemma_before_total(n, l);
        let last = if n.before(l) {
            l
        } else {
            n
        };
        assert forall|m: NodeId| #[trigger] s.contains(m) && m != last implies m.before(last) by {
            if m != n {
                assert(rest.contains(m));
                if last == n && m != l {
                    lemma_before_transitive(m, l, n);
                }
            }
        }
        last
    }
}

/// The keys of a sequence of entries.
pub open spec fn keys_of<V>(entries: Seq<(NodeId, V)>) -> Seq<NodeId> {
    entries.map_values(|e: (NodeId, V)| e.0)
}

/// The map that a sequence of entries with distinct keys stands for.
pub open spec fn map_of<V>(entries: Seq<(NodeId, V)>) -> Map<NodeId, V> {
    Map::new(
        |n: NodeId| keys_of(entries).contains(n),
        |n: NodeId| entries[keys_of(entries).index_of(n)].1,
    )
}

/// A map from identifiers to values, walked in ascending key order.
#[derive(Debug, Clone)]
pub struct NodeMap<V> {
    entries: Vec<(NodeId, V)>,
}

impl<V> View for NodeMap<V> {
    type V = Map<NodeId, V>;

    closed spec fn view(&self) -> Map<NodeId, V> {
        map_of(self.entries@)
    }
}

impl<V> NodeMap<V> {
    /// The entries in the order in which they are walked.
    pub closed spec fn entries(&self) -> Seq<(NodeId, V)> {
        self.entries@
    }

    /// The keys are strictly ascending.
    pub closed spec fn wf(&self) -> bool {
        ascending(keys_of(self.entries@))
    }

    /// What the walked entries have to do with the map.
    pub proof fn lemma_entries(&self)
        requires
            self.wf(),
        ensures
            lists(keys_of(self.entries()), self@.dom()),
            listing(self@.dom()) == keys_of(self.entries()),
            self@.dom().finite(),
            forall|i: int|
                #![trigger self.entries()[i]]
                0 <= i < self.entries().len() ==> self@.contains_key(self.entries()[i].0)
                    && self@[self.entries()[i].0] == self.entries()[i].1,
            forall|n: NodeId| #[trigger]
                self@.contains_key(n) ==> exists|i: int|
                    0 <= i < self.entries().len() && (#[trigger] self.entries()[i]).0 == n,
    {
        let es = self.entries@;
        let ks = keys_of(es);
        lemma_listing_is(ks, self@.dom());
        lemma_len(es);
        assert forall|i: int| #![trigger es[i]] 0 <= i < es.len() implies self@.contains_key(es[i].0)
            && self@[es[i].0] == es[i].1 by {
            lemma_lookup(es, i);
        }
        assert forall|n: NodeId| #[trigger] self@.contains_key(n) implies exists|i: int|
            0 <= i < es.len() && (#[trigger] es[i]).0 == n by {
            let i = choose|i: int| 0 <= i < ks.len() && ks[i] == n;
            assert(es[i].0 == n);
        }
    }

    pub fn new() -> (r: Self)
        ensures
            r.wf(),
            r@ == Map::<NodeId, V>::empty(),
    {
        let r = NodeMap { entries: Vec::new() };
        assert(r@ =~= Map::<NodeId, V>::empty());
        r
    }

    /// The first index whose key does not come before `node`.
    fn rank(&self, node: &NodeId) -> (r: usize)
        requires
            self.wf(),
        ensures
            r <= self.entries@.len(),
            forall|i: int| 0 <= i < r ==> (#[trigger] self.entries@[i]).0.before(*node),
            r < self.entries@.len() ==> !self.entries@[r as int].0.before(*node),
    {
        let mut i: usize = 0;
        while i < self.entries.len() && self.entries[i].0 < *node
            invariant
                0 <= i <= self.entries@.len(),
                forall|j: int| 0 <= j < i ==> (#[trigger] self.entries@[j]).0.before(*node),
            decreases self.entries@.len() - i,
        {
            i = i + 1;
        }
        i
    }

    /// The index of the entry for `node`, if there is one.
    pub fn find(&self, node: &NodeId) -> (r: Option<usize>)
        requires
            self.wf(),
        ensures
            r is Some <==> self@.contains_key(*node),
            r is Some ==> r->0 < self.entries().len() && self.entries()[r->0 as int].0 == *node,
    {
        let i = self.rank(node);
        let ghost es = self.entries@;
        if i < self.entries.len() && self.entries[i].0 == *node {
            proof {
                lemma_lookup(es, i as int);
            }
            Some(i)
        } else {
            proof {
                lemma_absent(es, i as int, *node);
            }
            None
        }
    }

    pub fn contains_key(&self, node: &NodeId) -> (r: bool)
        requires
            self.wf(),
        ensures
            r == self@.contains_key(*node),
    {
        self.find(node).is_some()
    }

    pub fn get(&self, node: &NodeId) -> (r: Option<&V>)
        requires
            self.wf(),
        ensures
            r is Some <==> self@.contains_key(*node),
            r is Some ==> *r->0 == self@[*node],
    {
        match self.find(node) {
            Some(i) => {
                proof {
                    lemma_lookup(self.entries@, i as int);
                }
                Some(&self.entries[i].1)
            }
            None => None,
        }
    }

    /// Sets the value for `node`, replacing an earlier one.
    pub fn insert(&mut self, node: NodeId, value: V)
        requires
            old(self).wf(),
        ensures
            final(self).wf(),
            final(self)@ == old(self)@.insert(node, value),
    {
        let i = self.rank(&node);
        let ghost es = self.entries@;
        if i < self.entries.len() && self.entries[i].0 == node {
            self.entries[i] = (node, value);
            proof {
                lemma_update(es, i as int, value);
            }
        } else {
            self.entries.insert(i, (node, value));
            proof {
                lemma_insert(es, i as int, node, value);
            }
        }
    }

    /// Drops the entry for `node`, if there is one.
    pub fn remove(&mut self, node: &NodeId)
        requires
            old(self).wf(),
        ensures
            final(self).wf(),
            final(self)@ == old(self)@.remove(*node),
    {
        let ghost es = self.entries@;
        match self.find(node) {
            Some(i) => {
                self.entries.remove(i);
                proof {
                    lemma_remove(es, i as int);
                }
            }
            None => {
                assert(self@ =~= old(self)@.remove(*node));
            }
        }
    }

    pub fn len(&self) -> (r: usize)
        requires
            self.wf(),
        ensures
            r == self@.dom().len(),
            self@.dom().finite(),
            r == self.entries().len(),
    {
        proof {
            lemma_len(self.entries@);
        }
        self.entries.len()
    }

    /// The entry at position `i` of the walk.
    pub fn at(&self, i: usize) -> (r: (&NodeId, &V))
        requires
            i < self.entries().len(),
        ensures
            *r.0 == self.entries()[i as int].0,
            *r.1 == self.entries()[i as int].1,
    {
        (&self.entries[i].0, &self.entries[i].1)
    }

    /// The value for `node`, for changing it in place.
    pub fn get_mut(&mut self, node: &NodeId) -> (r: Option<&mut V>)
        requires
            old(self).wf(),
        ensures
            match r {
                Some(v) => {
                    &&& old(self)@.contains_key(*node)
                    &&& *v == old(self)@[*node]
                    &&& final(self).wf()
                    &&& final(self)@ == old(self)@.insert(*node, *final(v))
                }
                None => !old(self)@.contains_key(*node) && *final(self) == *old(self),
            },
    {
        let ghost es = self.entries@;
        match self.find(node) {
            Some(i) => {
                proof {
                    lemma_lookup(es, i as int);
                    assert forall|v: V|
                        #![trigger es.update(i as int, (*node, v))]
                        ascending(keys_of(es.update(i as int, (*node, v)))) && map_of(
                            es.update(i as int, (*node, v)),
                        ) == map_of(es).insert(*node, v) by {
                        lemma_update(es, i as int, v);
                    }
                }
                Some(&mut self.entries[i].1)
            }
            None => None,
        }
    }
}

proof fn lemma_lookup<V>(es: Seq<(NodeId, V)>, i: int)
    requires
        ascending(keys_of(es)),
        0 <= i < es.len(),
    ensures
        map_of(es).contains_key(es[i].0),
        map_of(es)[es[i].0] == es[i].1,
{
    let ks = keys_of(es);
    assert(ks[i] == es[i].0);
    assert(ks.contains(es[i].0));
    let j = ks.index_of(es[i].0);
    assert(ks[j] == ks[i]);
    if i < j {
        lemma_before_irreflexive(ks[i]);
    } else if j < i {
        lemma_before_irreflexive(ks[j]);
    }
}

proof fn lemma_absent<V>(es: Seq<(NodeId, V)>, i: int, node: NodeId)
    requires
        ascending(keys_of(es)),
        0 <= i <= es.len(),
        forall|j: int| 0 <= j < i ==> (#[trigger] es[j]).0.before(node),
        i < es.len() ==> !es[i].0.before(node) && es[i].0 != node,
    ensures
        !map_of(es).contains_key(node),
        forall|j: int| i <= j < es.len() ==> node.before((#[trigger] es[j]).0),
{
    let ks = keys_of(es);
    assert forall|j: int| i <= j < es.len() implies node.before((#[trigger] es[j]).0) by {
        lemma_before_total(node, es[i].0);
        if j > i {
            assert(ks[i].before(ks[j]));
            lemma_before_transitive(node, es[i].0, es[j].0);
        }
    }
    if ks.contains(node) {
        let j = choose|j: int| 0 <= j < ks.len() && ks[j] == node;
        assert(es[j].0 == node);
        lemma_before_irreflexive(node);
    }
}

proof fn lemma_update<V>(es: Seq<(NodeId, V)>, i: int, v: V)
    requires
        ascending(keys_of(es)),
        0 <= i < es.len(),
    ensures
        ascending(keys_of(es.update(i, (es[i].0, v)))),
        map_of(es.update(i, (es[i].0, v))) == map_of(es).insert(es[i].0, v),
{
    let node = es[i].0;
    let fs = es.update(i, (node, v));
    assert(keys_of(fs) =~= keys_of(es));
    assert(keys_of(es)[i] == node);
    assert(keys_of(es).contains(node));
    lemma_lookup(fs, i);
    assert forall|n: NodeId| map_of(fs).contains_key(n) && n != node implies #[trigger] map_of(fs)[n]
        == map_of(es)[n] by {
        let j = keys_of(es).index_of(n);
        assert(keys_of(es).contains(n));
        assert(keys_of(es)[j] == n);
        assert(j != i);
    }
    assert(map_of(fs) =~= map_of(es).insert(node, v));
}

proof fn lemma_insert<V>(es: Seq<(NodeId, V)>, i: int, node: NodeId, v: V)
    requires
        ascending(keys_of(es)),
        0 <= i <= es.len(),
        forall|j: int| 0 <= j < i ==> (#[trigger] es[j]).0.before(node),
        i < es.len() ==> !es[i].0.before(node) && es[i].0 != node,
    ensures
        ascending(keys_of(es.insert(i, (node, v)))),
        map_of(es.insert(i, (node, v))) == map_of(es).insert(node, v),
{
    let fs = es.insert(i, (node, v));
    let ks = keys_of(es);
    let ls = keys_of(fs);
    lemma_absent(es, i, node);
    assert forall|a: int, b: int| 0 <= a < b < ls.len() implies (#[trigger] ls[a]).before(
        #[trigger] ls[b],
    ) by {
        let oa = if a < i { a } else { a - 1 };
        let ob = if b < i { b } else { b - 1 };
        if a != i && b != i {
            assert(ls[a] == ks[oa] && ls[b] == ks[ob]);
        } else if a == i {
            assert(ls[b] == es[ob].0);
        } else {
            assert(ls[a] == es[oa].0);
        }
    }
    assert forall|n: NodeId| #![auto] map_of(fs).contains_key(n) <==> map_of(es).insert(
        node,
        v,
    ).contains_key(n) by {
        if ks.contains(n) {
            let j = choose|j: int| 0 <= j < ks.len() && ks[j] == n;
            assert(ls[if j < i { j } else { j + 1 }] == n);
        }
        if ls.contains(n) {
            let j = choose|j: int| 0 <= j < ls.len() && ls[j] == n;
            if j != i {
                assert(ks[if j < i { j } else { j - 1 }] == n);
            }
        }
        assert(ls[i] == node);
    }
    assert forall|n: NodeId| #![auto] map_of(fs).contains_key(n) implies map_of(fs)[n] == map_of(
        es,
    ).insert(node, v)[n] by {
        let j = ls.index_of(n);
        assert(ls.contains(n));
        assert(ls[j] == n);
        lemma_lookup(fs, j);
        if j != i {
            lemma_lookup(es, if j < i { j } else { j - 1 });
            lemma_before_irreflexive(node);
        }
    }
    assert(map_of(fs) =~= map_of(es).insert(node, v));
}

proof fn lemma_remove<V>(es: Seq<(NodeId, V)>, i: int)
    requires
        ascending(keys_of(es)),
        0 <= i < es.len(),
    ensures
        ascending(keys_of(es.remove(i))),
        map_of(es.remove(i)) == map_of(es).remove(es[i].0),
{
    let fs = es.remove(i);
    let ks = keys_of(es);
    let ls = keys_of(fs);
    let node = es[i].0;
    assert forall|a: int, b: int| 0 <= a < b < ls.len() implies (#[trigger] ls[a]).before(
        #[trigger] ls[b],
    ) by {
        let oa = if a < i { a } else { a + 1 };
        let ob = if b < i { b } else { b + 1 };
        assert(ls[a] == ks[oa] && ls[b] == ks[ob]);
    }
    assert forall|n: NodeId| #![auto] map_of(fs).contains_key(n) <==> map_of(es).remove(
        node,
    ).contains_key(n) by {
        if ks.contains(n) && n != node {
            let j = choose|j: int| 0 <= j < ks.len() && ks[j] == n;
            assert(ls[if j < i { j } else { j - 1 }] == n);
        }
        if ls.contains(n) {
            let j = choose|j: int| 0 <= j < ls.len() && ls[j] == n;
            let o = if j < i { j } else { j + 1 };
            assert(ks[o] == n);
            assert(ks[i] == node);
            lemma_before_irreflexive(n);
        }
    }
    assert forall|n: NodeId| #![auto] map_of(fs).contains_key(n) implies map_of(fs)[n] == map_of(
        es,
    ).remove(node)[n] by {
        let j = ls.index_of(n);
        assert(ls.contains(n));
        assert(ls[j] == n);
        lemma_lookup(fs, j);
        lemma_lookup(es, if j < i { j } else { j + 1 });
    }
    assert(map_of(fs) =~= map_of(es).remove(node));
}

proof fn lemma_len<V>(es: Seq<(NodeId, V)>)
    requires
        ascending(keys_of(es)),
    ensures
        map_of(es).dom().finite(),
        map_of(es).dom().len() == es.len(),
{
    let ks = keys_of(es);
    assert(ks.no_duplicates()) by {
        assert forall|i: int, j: int| 0 <= i < ks.len() && 0 <= j < ks.len() && i != j implies ks[i]
            != ks[j] by {
            if i < j {
                lemma_before_irreflexive(ks[i]);
            } else {
                lemma_before_irreflexive(ks[j]);
            }
        }
    }
    ks.unique_seq_to_set();
    assert(map_of(es).dom() =~= ks.to_set());
}

} // verus!
