//! Transport addresses of peers.
//!
//! The room treats addresses as opaque bytes. Here they are the postcard form
//! of an `iroh::EndpointAddr`, kept per peer to fill in rosters and to dial
//! peers that a roster names.

use vstd::prelude::*;

use crate::node_id::NodeId;
use crate::node_map::NodeMap;
use crate::protocol::clone_bytes;

verus! {

/// Where and under which key an endpoint can be reached.
#[verifier::external_type_specification]
#[verifier::external_body]
pub struct ExEndpointAddr(iroh::EndpointAddr);

/// The public key of an endpoint.
#[verifier::external_type_specification]
#[verifier::external_body]
pub struct ExEndpointId(iroh::EndpointId);

/// The postcard form of an address.
pub uninterp spec fn addr_wire(addr: iroh::EndpointAddr) -> Seq<u8>;

/// The postcard form of the address that bytes stand for, if they stand for
/// one.
pub uninterp spec fn addr_parse(bytes: Seq<u8>) -> Option<Seq<u8>>;

/// The bytes of a public key.
pub uninterp spec fn id_bytes(id: iroh::EndpointId) -> Seq<u8>;

/// The IP addresses of an endpoint in order, each as text without a scope, and
/// the ports.
pub uninterp spec fn ip_points(addr: iroh::EndpointAddr) -> Seq<(Seq<char>, u16)>;

/// The relay URLs of an endpoint in order, as text.
pub uninterp spec fn relay_texts(addr: iroh::EndpointAddr) -> Seq<Seq<char>>;

/// The text of the relay URL that a text is read as, if it is read as one.
pub uninterp spec fn relay_parse(text: Seq<char>) -> Option<Seq<char>>;

/// The text of every relay URL is read as that URL. There are others: a URL that
/// was edited after it was read can have a text that is no URL, or another one.
pub open spec fn relays_reparse(addr: iroh::EndpointAddr) -> bool {
    forall|u: Seq<char>| #[trigger]
        relay_texts(addr).contains(u) ==> relay_parse(u) == Some(u)
}

/// No two addresses of the endpoint differ in nothing but the scope.
pub open spec fn ips_are_distinct(addr: iroh::EndpointAddr) -> bool {
    ip_points(addr).no_duplicates()
}

/// Both have the same key and are found at the same IP addresses and ports.
pub open spec fn same_key_and_ips(a: iroh::EndpointAddr, b: iroh::EndpointAddr) -> bool {
    &&& addr_wire(a).take(32) == addr_wire(b).take(32)
    &&& ip_points(a).to_set() == ip_points(b).to_set()
}

/// Both have the same key, are found at the same IP addresses and ports, and
/// use the same relays.
pub open spec fn same_endpoint(a: iroh::EndpointAddr, b: iroh::EndpointAddr) -> bool {
    &&& same_key_and_ips(a, b)
    &&& relay_texts(a) == relay_texts(b)
}

/// What comes of reading the postcard form of `a`: an address with the same key,
/// IP addresses and ports, and with the same relays if their texts are read as
/// what they are. Then, unless two addresses differ in nothing but the scope, the
/// postcard form is the same as a whole, addresses of other transports included.
/// Only where the text of a relay is not read as what it is may there be none.
pub open spec fn comes_back(r: Option<iroh::EndpointAddr>, a: iroh::EndpointAddr) -> bool {
    match r {
        Some(b) => {
            &&& same_key_and_ips(b, a)
            &&& relays_reparse(a) ==> same_endpoint(b, a)
            &&& relays_reparse(a) && ips_are_distinct(a) ==> addr_wire(b) == addr_wire(a)
        },
        None => !relays_reparse(a),
    }
}

/// What a list of IP addresses and ports says.
pub open spec fn points_view(points: Seq<(String, u16)>) -> Seq<(Seq<char>, u16)> {
    points.map_values(|p: (String, u16)| (p.0@, p.1))
}

/// What a list of texts says.
pub open spec fn texts_view(texts: Seq<String>) -> Seq<Seq<char>> {
    texts.map_values(|t: String| t@)
}

/// `iroh::EndpointAddr::ip_addrs` lists the IP addresses and ports of an
/// endpoint, in the order of the set that holds them.
#[verifier::external_body]
fn addr_ips(addr: &iroh::EndpointAddr) -> (r: Vec<(String, u16)>)
    ensures
        points_view(r@) == ip_points(*addr),
{
    addr.ip_addrs().map(|a| (a.ip().to_string(), a.port())).collect()
}

/// `iroh::EndpointAddr::relay_urls` lists the relay URLs of an endpoint, in the
/// order of the set that holds them.
#[verifier::external_body]
fn addr_relays(addr: &iroh::EndpointAddr) -> (r: Vec<String>)
    ensures
        texts_view(r@) == relay_texts(*addr),
{
    addr.relay_urls().map(|u| u.to_string()).collect()
}

/// `str::parse` to an `iroh::RelayUrl`, and the text of the result.
#[verifier::external_body]
fn parse_relay(text: &str) -> (r: Option<String>)
    ensures
        match r {
            Some(t) => relay_parse(text@) == Some(t@),
            None => relay_parse(text@) is None,
        },
{
    text.parse::<iroh::RelayUrl>().ok().map(|u| u.to_string())
}

/// `postcard::to_allocvec` of an `iroh::EndpointAddr`. It always succeeds, and
/// the form starts with the 32 bytes of the endpoint's key. What follows them
/// is left unsaid.
#[verifier::external_body]
pub(crate) fn addr_to_postcard(addr: &iroh::EndpointAddr) -> (r: Result<Vec<u8>, postcard::Error>)
    ensures
        match r {
            Ok(v) => v@ == addr_wire(*addr) && v@.len() > 32,
            Err(_) => false,
        },
{
    postcard::to_allocvec(addr)
}

/// `postcard::from_bytes` of an `iroh::EndpointAddr`. The key of the result is
/// the first 32 bytes. Of the postcard form of an address, the IP addresses and
/// ports come back. Relay URLs are written as text and read again: where each
/// text is read as what it is, reading succeeds and the relays come back too, and
/// so does everything that the format holds: the result has the same postcard
/// form. The scope of an IPv6 address has no place in the format, so two
/// addresses that differ in nothing else become one, and the form shorter.
#[verifier::external_body]
pub(crate) fn addr_from_postcard(bytes: &[u8]) -> (r: Result<iroh::EndpointAddr, postcard::Error>)
    ensures
        match r {
            Ok(a) => {
                &&& addr_parse(bytes@) == Some(addr_wire(a))
                &&& bytes@.len() > 32
                &&& addr_wire(a).len() > 32
                &&& addr_wire(a).take(32) == bytes@.take(32)
            },
            Err(_) => addr_parse(bytes@) is None,
        },
        forall|a: iroh::EndpointAddr|
            bytes@ == #[trigger] addr_wire(a) ==> match r {
                Ok(b) => comes_back(Some(b), a),
                Err(_) => comes_back(None, a),
            },
{
    postcard::from_bytes(bytes)
}

/// `iroh::EndpointId::as_bytes` gives the 32 bytes of the key.
#[verifier::external_body]
fn endpoint_id_bytes(id: &iroh::EndpointId) -> (r: [u8; 32])
    ensures
        r@ == id_bytes(*id),
{
    *id.as_bytes()
}

/// The peer identifier of an endpoint: the bytes of its key.
pub fn endpoint_id_to_node(id: iroh::EndpointId) -> (r: NodeId)
    ensures
        r.0@ == id_bytes(id),
{
    NodeId::from_bytes(endpoint_id_bytes(&id))
}

/// The IP addresses and ports at which an endpoint may be reached directly.
pub fn direct_addrs(addr: &iroh::EndpointAddr) -> (r: Vec<(String, u16)>)
    ensures
        points_view(r@) == ip_points(*addr),
{
    addr_ips(addr)
}

/// The URLs of the relays that an endpoint uses.
pub fn relays(addr: &iroh::EndpointAddr) -> (r: Vec<String>)
    ensures
        texts_view(r@) == relay_texts(*addr),
{
    addr_relays(addr)
}

/// Whether the text of every relay URL is read as that URL, so that the postcard
/// form of the address can be read and names the same relays.
pub fn relays_survive(addr: &iroh::EndpointAddr) -> (r: bool)
    ensures
        r == relays_reparse(*addr),
{
    let urls = relays(addr);
    let ghost texts = texts_view(urls@);
    let mut i: usize = 0;
    while i < urls.len()
        invariant
            0 <= i <= urls@.len(),
            texts == texts_view(urls@),
            texts == relay_texts(*addr),
            forall|j: int| 0 <= j < i ==> relay_parse(#[trigger] texts[j]) == Some(texts[j]),
        decreases urls@.len() - i,
    {
        let same = match parse_relay(urls[i].as_str()) {
            Some(text) => text == urls[i],
            None => false,
        };
        assert(texts[i as int] == urls@[i as int]@);
        if !same {
            assert(texts.contains(texts[i as int]));
            assert(relay_texts(*addr).contains(texts[i as int]));
            return false;
        }
        i = i + 1;
    }
    assert forall|u: Seq<char>| #[trigger] relay_texts(*addr).contains(u) implies relay_parse(u)
        == Some(u) by {
        let j = choose|j: int| 0 <= j < texts.len() && texts[j] == u;
        assert(relay_parse(texts[j]) == Some(texts[j]));
    }
    true
}

/// Whether no two addresses differ in nothing but the scope, which is lost in
/// the postcard form.
pub fn ips_survive(addr: &iroh::EndpointAddr) -> (r: bool)
    ensures
        r == ips_are_distinct(*addr),
{
    let ips = direct_addrs(addr);
    let ghost points = points_view(ips@);
    let mut i: usize = 0;
    while i < ips.len()
        invariant
            0 <= i <= ips@.len(),
            points == points_view(ips@),
            points == ip_points(*addr),
            forall|k: int, m: int| 0 <= k < m < i ==> #[trigger] points[k] != #[trigger] points[m],
        decreases ips@.len() - i,
    {
        let mut j: usize = 0;
        while j < i
            invariant
                0 <= j <= i < ips@.len(),
                points == points_view(ips@),
                points == ip_points(*addr),
                forall|k: int| 0 <= k < j ==> #[trigger] points[k] != points[i as int],
            decreases i - j,
        {
            assert(points[j as int] == (ips@[j as int].0@, ips@[j as int].1));
            assert(points[i as int] == (ips@[i as int].0@, ips@[i as int].1));
            if ips[j].0 == ips[i].0 && ips[j].1 == ips[i].1 {
                return false;
            }
            j = j + 1;
        }
        i = i + 1;
    }
    true
}

/// The postcard form of an address.
pub fn encode_addr(addr: &iroh::EndpointAddr) -> (r: Option<Vec<u8>>)
    ensures
        r matches Some(v) && v@ == addr_wire(*addr) && v@.len() > 32,
{
    match addr_to_postcard(addr) {
        Ok(v) => Some(v),
        Err(_) => None,
    }
}

/// The address that bytes stand for. Empty or malformed bytes give `None`.
pub fn decode_addr(bytes: &[u8]) -> (r: Option<iroh::EndpointAddr>)
    ensures
        match r {
            Some(a) => {
                &&& addr_parse(bytes@) == Some(addr_wire(a))
                &&& addr_wire(a).len() > 32
                &&& addr_wire(a).take(32) == bytes@.take(32)
            },
            None => bytes@.len() == 0 || addr_parse(bytes@) is None,
        },
        bytes@.len() == 0 ==> r is None,
        forall|a: iroh::EndpointAddr|
            bytes@ == #[trigger] addr_wire(a) && bytes@.len() > 0 ==> comes_back(r, a),
{
    if bytes.len() == 0 {
        return None;
    }
    match addr_from_postcard(bytes) {
        Ok(a) => Some(a),
        Err(_) => None,
    }
}

/// Encoded addresses by peer. An address is never empty.
#[derive(Debug)]
pub struct AddrRegistry {
    known: NodeMap<Vec<u8>>,
}

impl View for AddrRegistry {
    type V = Map<NodeId, Seq<u8>>;

    closed spec fn view(&self) -> Map<NodeId, Seq<u8>> {
        self.known@.map_values(|b: Vec<u8>| b@)
    }
}

/// The addresses known after one more is reported. Empty bytes say nothing.
pub open spec fn learn(known: Map<NodeId, Seq<u8>>, node: NodeId, bytes: Seq<u8>) -> Map<
    NodeId,
    Seq<u8>,
> {
    if bytes.len() == 0 {
        known
    } else {
        known.insert(node, bytes)
    }
}

impl AddrRegistry {
    pub closed spec fn wf(&self) -> bool {
        &&& self.known.wf()
        &&& forall|n: NodeId| #[trigger] self.known@.contains_key(n) ==> self.known@[n]@.len() > 0
    }

    pub fn new() -> (r: Self)
        ensures
            r.wf(),
            r@ == Map::<NodeId, Seq<u8>>::empty(),
    {
        let r = AddrRegistry { known: NodeMap::new() };
        assert(r@ =~= Map::<NodeId, Seq<u8>>::empty());
        r
    }

    /// A registry that knows the local endpoint's address, so that the first
    /// roster we send carries it.
    pub fn with_self(local: NodeId, addr: &iroh::EndpointAddr) -> (r: Self)
        ensures
            r.wf(),
            r@ == Map::<NodeId, Seq<u8>>::empty().insert(local, addr_wire(*addr)),
    {
        let mut r = AddrRegistry::new();
        if let Some(bytes) = encode_addr(addr) {
            r.insert(local, bytes);
        }
        r
    }

    /// Record (or overwrite) the address of a node. Empty bytes are ignored.
    pub fn insert(&mut self, node: NodeId, bytes: Vec<u8>)
        requires
            old(self).wf(),
        ensures
            final(self).wf(),
            final(self)@ == learn(old(self)@, node, bytes@),
    {
        if bytes.len() == 0 {
            return;
        }
        let ghost before = self.known@;
        self.known.insert(node, bytes);
        proof {
            assert(self@ =~= old(self)@.insert(node, bytes@));
        }
    }

    /// The address of a node, if known.
    pub fn get(&self, node: &NodeId) -> (r: Option<&[u8]>)
        requires
            self.wf(),
        ensures
            r is Some <==> self@.contains_key(*node),
            r is Some ==> r->0@ == self@[*node] && r->0@.len() > 0,
    {
        match self.known.get(node) {
            Some(b) => Some(b.as_slice()),
            None => None,
        }
    }

    /// A copy of the address of a node; empty if unknown.
    pub fn get_or_empty(&self, node: &NodeId) -> (r: Vec<u8>)
        requires
            self.wf(),
        ensures
            r@ == if self@.contains_key(*node) {
                self@[*node]
            } else {
                Seq::empty()
            },
    {
        match self.get(node) {
            Some(b) => clone_bytes(b),
            None => {
                let r: Vec<u8> = Vec::new();
                assert(r@ =~= Seq::<u8>::empty());
                r
            }
        }
    }

    /// Take note of an address that a peer announced. Nobody else can announce
    /// ours.
    pub fn apply_announce(&mut self, node: NodeId, bytes: &[u8], local: NodeId)
        requires
            old(self).wf(),
        ensures
            final(self).wf(),
            final(self)@ == if node == local {
                old(self)@
            } else {
                learn(old(self)@, node, bytes@)
            },
    {
        if node == local {
            return;
        }
        self.insert(node, clone_bytes(bytes));
    }

    /// Refresh the local endpoint's address, which changes as direct addresses
    /// come and go.
    pub fn refresh_self(&mut self, local: NodeId, addr: &iroh::EndpointAddr)
        requires
            old(self).wf(),
        ensures
            final(self).wf(),
            final(self)@ == old(self)@.insert(local, addr_wire(*addr)),
    {
        if let Some(bytes) = encode_addr(addr) {
            self.insert(local, bytes);
        }
    }
}

impl Default for AddrRegistry {
    fn default() -> (r: Self)
        ensures
            r.wf(),
            r@ == Map::<NodeId, Seq<u8>>::empty(),
    {
        AddrRegistry::new()
    }
}

/// The address learned last is the one that is known, and learning about one
/// peer changes nothing for the others.
pub proof fn law_last_address_wins(
    known: Map<NodeId, Seq<u8>>,
    node: NodeId,
    first: Seq<u8>,
    second: Seq<u8>,
    other: NodeId,
)
    requires
        second.len() > 0,
        other != node,
    ensures
        learn(learn(known, node, first), node, second)[node] == second,
        learn(known, node, second).contains_key(other) == known.contains_key(other),
        known.contains_key(other) ==> learn(known, node, second)[other] == known[other],
{
}

} // verus!
