//! Addresses of peers.

use iroh::EndpointAddr;
use syncmesh::addrs::{decode_addr, encode_addr, endpoint_id_to_node, AddrRegistry};
use syncmesh::identity;
use syncmesh::node_id::NodeId;

fn sample_addr() -> EndpointAddr {
    let k = identity::generate();
    EndpointAddr::new(k.public()).with_ip_addr("127.0.0.1:12345".parse().unwrap())
}

fn node(b: u8) -> NodeId {
    NodeId::from_bytes([b; 32])
}

#[test]
fn encode_decode_round_trips_endpoint_addr() {
    let orig = sample_addr();
    let bytes = encode_addr(&orig).expect("encode ok");
    let parsed = decode_addr(&bytes).expect("decode ok");
    assert_eq!(parsed.id, orig.id);
    let orig_ips: Vec<_> = orig.ip_addrs().copied().collect();
    let parsed_ips: Vec<_> = parsed.ip_addrs().copied().collect();
    assert_eq!(parsed_ips, orig_ips);
}

#[test]
fn decode_empty_returns_none() {
    assert!(decode_addr(&[]).is_none());
}

#[test]
fn decode_garbage_returns_none() {
    assert!(decode_addr(&[0xff; 4]).is_none());
}

#[test]
fn registry_insert_and_get() {
    let mut r = AddrRegistry::new();
    let bytes = encode_addr(&sample_addr()).unwrap();
    r.insert(node(1), bytes.clone());
    assert_eq!(r.get(&node(1)), Some(bytes.as_slice()));
    assert_eq!(r.get(&node(2)), None);
}

#[test]
fn registry_drops_empty_bytes() {
    let mut r = AddrRegistry::new();
    r.insert(node(7), vec![]);
    assert!(r.get(&node(7)).is_none());
}

#[test]
fn registry_insert_overwrites_previous() {
    let mut r = AddrRegistry::new();
    r.insert(node(3), vec![1, 2, 3]);
    r.insert(node(3), vec![9, 9, 9]);
    assert_eq!(r.get(&node(3)), Some([9, 9, 9].as_slice()));
}

#[test]
fn an_address_starts_with_the_key() {
    let addr = sample_addr();
    let bytes = encode_addr(&addr).unwrap();
    assert_eq!(&bytes[..32], addr.id.as_bytes());
    assert_eq!(endpoint_id_to_node(addr.id).as_bytes(), addr.id.as_bytes());
}

#[test]
fn the_registry_knows_the_local_address() {
    let first = sample_addr();
    let mut r = AddrRegistry::with_self(node(1), &first);
    assert_eq!(r.get(&node(1)), encode_addr(&first).as_deref());
    let second = sample_addr();
    r.refresh_self(node(1), &second);
    assert_eq!(r.get(&node(1)), encode_addr(&second).as_deref());
}

#[test]
fn nobody_else_can_announce_our_address() {
    let mut r = AddrRegistry::new();
    r.apply_announce(node(1), &[1, 2], node(1));
    assert!(r.get(&node(1)).is_none());
    r.apply_announce(node(2), &[1, 2], node(1));
    assert_eq!(r.get(&node(2)), Some([1, 2].as_slice()));
    r.apply_announce(node(2), &[], node(1));
    assert_eq!(r.get(&node(2)), Some([1, 2].as_slice()));
    assert_eq!(r.get_or_empty(&node(2)), vec![1, 2]);
    assert!(r.get_or_empty(&node(3)).is_empty());
}
