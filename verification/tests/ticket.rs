//! Tickets, and the addresses in them.

use data_encoding::BASE32_NOPAD;
use iroh::{EndpointAddr, RelayUrl};
use syncmesh::addrs::{
    decode_addr, direct_addrs, encode_addr, ips_survive, relays, relays_survive,
};
use syncmesh::identity;
use syncmesh::ticket::{
    decode, decode_payload, encode, try_decode, try_encode, Base32Error, Base32ErrorKind,
    TicketError,
};

const PREFIX: &str = "syncmesh1";

fn addr_with_ip() -> EndpointAddr {
    let k = identity::generate();
    EndpointAddr::new(k.public()).with_ip_addr("127.0.0.1:12345".parse().unwrap())
}

#[test]
fn round_trip_preserves_endpoint_id_and_ip() {
    let original = addr_with_ip();
    let ticket = encode(&original);
    assert!(ticket.starts_with(PREFIX));
    let parsed = decode(&ticket).unwrap();
    assert_eq!(parsed.id, original.id);
    let parsed_ips: Vec<_> = parsed.ip_addrs().copied().collect();
    let orig_ips: Vec<_> = original.ip_addrs().copied().collect();
    assert_eq!(parsed_ips, orig_ips);
}

#[test]
fn accepts_mixed_case_and_surrounding_whitespace() {
    let a = addr_with_ip();
    let t = encode(&a);
    let upper = t.to_uppercase();
    let padded = format!("   {upper}  ");
    let parsed = decode(&padded).unwrap();
    assert_eq!(parsed.id, a.id);
}

#[test]
fn rejects_missing_prefix() {
    assert!(matches!(decode("not-a-ticket"), Err(TicketError::MissingPrefix)));
}

#[test]
fn rejects_bad_base32() {
    assert!(matches!(decode("syncmesh1!!!"), Err(TicketError::Base32(_))));
}

#[test]
fn rejects_wrong_version() {
    let payload = [0xffu8, 0x00, 0x00];
    let enc = format!("{PREFIX}{}", BASE32_NOPAD.encode(&payload));
    assert!(matches!(decode(&enc), Err(TicketError::UnsupportedVersion(0xff))));
}

#[test]
fn rejects_an_empty_payload() {
    assert!(matches!(decode("syncmesh1"), Err(TicketError::Empty)));
    assert!(matches!(decode_payload(&[]), Err(TicketError::Empty)));
}

#[test]
fn rejects_a_payload_that_is_no_address() {
    let enc = format!("{PREFIX}{}", BASE32_NOPAD.encode(&[1u8, 2, 3]));
    assert!(matches!(decode(&enc), Err(TicketError::Postcard(_))));
}

#[test]
fn base32_errors_say_what_and_where() {
    let r = decode("syncmesh1ae!a");
    assert!(matches!(
        r,
        Err(TicketError::Base32(Base32Error {
            position: 2,
            kind: Base32ErrorKind::Symbol
        }))
    ));
    // A single symbol cannot encode anything.
    let r = decode("syncmesh1a");
    assert!(matches!(
        r,
        Err(TicketError::Base32(Base32Error {
            kind: Base32ErrorKind::Length,
            ..
        }))
    ));
    // "AB" has a spare bit set.
    let r = decode("syncmesh1ab");
    assert!(matches!(
        r,
        Err(TicketError::Base32(Base32Error {
            kind: Base32ErrorKind::Trailing,
            ..
        }))
    ));
}

#[test]
fn a_ticket_is_base32_of_the_version_and_the_address() {
    let a = addr_with_ip();
    let mut payload = vec![1u8];
    payload.extend(postcard::to_allocvec(&a).unwrap());
    let expected = format!("{PREFIX}{}", BASE32_NOPAD.encode(&payload));
    assert_eq!(encode(&a), expected);
    assert_eq!(try_encode(&a), Some(expected));
}

#[test]
fn ordinary_tickets_are_short_enough() {
    let a = addr_with_ip();
    let t = encode(&a);
    let parsed = try_decode(&t).expect("short enough").unwrap();
    assert_eq!(parsed.id, a.id);
    assert!(matches!(
        try_decode("nope"),
        Some(Err(TicketError::MissingPrefix))
    ));
}

#[test]
fn a_ticket_gives_back_every_address_and_relay() {
    let a = EndpointAddr::new(identity::generate().public())
        .with_ip_addr("10.0.0.7:4433".parse().unwrap())
        .with_ip_addr("[2001:db8::1]:99".parse().unwrap())
        .with_relay_url("https://relay.example.com/".parse().unwrap());
    let b = try_decode(&encode(&a)).expect("short enough").unwrap();
    assert_eq!(b, a);
    assert_eq!(
        direct_addrs(&b),
        vec![("10.0.0.7".to_string(), 4433), ("2001:db8::1".to_string(), 99)]
    );
    assert_eq!(relays(&b), vec!["https://relay.example.com/".to_string()]);
}

#[test]
fn the_scope_of_an_address_is_not_in_a_ticket() {
    let key = identity::generate().public();
    let scoped = EndpointAddr::new(key).with_ip_addr("[fe80::1%3]:7".parse().unwrap());
    let b = decode(&encode(&scoped)).unwrap();
    assert_ne!(b, scoped);
    assert_eq!(direct_addrs(&b), direct_addrs(&scoped));
    assert_eq!(direct_addrs(&b), vec![("fe80::1".to_string(), 7)]);
}

/// An address with a relay URL that lost its host after it was read.
fn addr_with_edited_relay(url: &str) -> EndpointAddr {
    let parsed: RelayUrl = url.parse().unwrap();
    let mut edited = (*parsed).clone();
    edited.set_host(None).unwrap();
    addr_with_ip().with_relay_url(RelayUrl::from(edited))
}

#[test]
fn ordinary_relays_survive() {
    let a = addr_with_ip();
    assert!(relays_survive(&a));
    assert!(relays_survive(&a.with_relay_url("https://r.example/x?y".parse().unwrap())));
}

#[test]
fn a_relay_whose_text_is_no_url_makes_the_ticket_unreadable() {
    let a = addr_with_edited_relay("foo://host//a:b:c");
    assert_eq!(relays(&a), vec!["foo://a:b:c".to_string()]);
    assert!(!relays_survive(&a));
    assert!(matches!(decode(&encode(&a)), Err(TicketError::Postcard(_))));
    assert!(decode_addr(&encode_addr(&a).unwrap()).is_none());
}

#[test]
fn a_relay_whose_text_is_another_url_comes_back_as_that() {
    let a = addr_with_edited_relay("foo://host//a:080");
    assert_eq!(relays(&a), vec!["foo://a:080".to_string()]);
    assert!(!relays_survive(&a));
    let b = decode(&encode(&a)).unwrap();
    assert_eq!(b.id, a.id);
    assert_eq!(direct_addrs(&b), direct_addrs(&a));
    assert_eq!(relays(&b), vec!["foo://a:80".to_string()]);
}

#[test]
fn a_ticket_read_back_makes_the_same_ticket() {
    let a = EndpointAddr::new(identity::generate().public())
        .with_ip_addr("[fe80::2%9]:7".parse().unwrap())
        .with_ip_addr("[fe80::1%3]:7".parse().unwrap())
        .with_ip_addr("10.0.0.7:4433".parse().unwrap())
        .with_relay_url("https://relay.example.com/".parse().unwrap());
    assert!(relays_survive(&a));
    assert!(ips_survive(&a));
    let t = encode(&a);
    let b = decode(&t).unwrap();
    assert_eq!(encode(&b), t);
    assert_eq!(encode_addr(&b), encode_addr(&a));
}

#[test]
fn addresses_that_differ_only_in_scope_are_told() {
    let a = EndpointAddr::new(identity::generate().public())
        .with_ip_addr("[fe80::1%3]:7".parse().unwrap())
        .with_ip_addr("[fe80::1%4]:7".parse().unwrap());
    let listed = direct_addrs(&a);
    assert!(listed.iter().all(|p| *p == ("fe80::1".to_string(), 7)));
    assert_eq!(ips_survive(&a), listed.len() == 1);
    let b = decode(&encode(&a)).unwrap();
    assert_eq!(direct_addrs(&b), vec![("fe80::1".to_string(), 7)]);
    assert!(ips_survive(&b));
}
