//! Plain values in postcard's binary format.
//!
//! The functions here hand single values to the `postcard` crate and say what
//! the crate makes of them. Integers are little-endian base-128 varints, a
//! flag is one byte, text and byte strings carry their length in front.

use vstd::prelude::*;
use vstd::utf8::{
    decode_utf8, encode_utf8, encode_utf8_decode_utf8, encode_utf8_valid_utf8, valid_utf8,
};

verus! {

/// An error reported by the `postcard` crate.
#[verifier::external_type_specification]
#[verifier::external_body]
pub struct ExPostcardError(postcard::Error);

/// The varint encoding of a number: seven bits per byte, least significant
/// first, with the top bit set on all bytes but the last.
pub open spec fn varint(n: nat) -> Seq<u8>
    decreases n,
{
    if n < 128 {
        seq![n as u8]
    } else {
        seq![(128 + n % 128) as u8] + varint(n / 128)
    }
}

/// Reads a varint of at most `max_len` bytes, the last of which, if all are
/// used, is at most `last_max`. Gives the number and the bytes after it.
pub open spec fn read_varint(s: Seq<u8>, max_len: nat, last_max: nat) -> Option<(nat, Seq<u8>)>
    decreases max_len,
{
    if s.len() == 0 || max_len == 0 {
        None
    } else if s[0] < 128 {
        if max_len == 1 && s[0] > last_max {
            None
        } else {
            Some((s[0] as nat, s.skip(1)))
        }
    } else {
        match read_varint(s.skip(1), (max_len - 1) as nat, last_max) {
            Some((n, rest)) => Some(((s[0] - 128 + 128 * n) as nat, rest)),
            None => None,
        }
    }
}

/// A 64-bit number takes at most ten bytes.
pub open spec fn read_u64(s: Seq<u8>) -> Option<(nat, Seq<u8>)> {
    read_varint(s, 10, 1)
}

/// A 32-bit number takes at most five bytes.
pub open spec fn read_u32(s: Seq<u8>) -> Option<(nat, Seq<u8>)> {
    read_varint(s, 5, 15)
}

/// A 16-bit number takes at most three bytes.
pub open spec fn read_u16(s: Seq<u8>) -> Option<(nat, Seq<u8>)> {
    read_varint(s, 3, 3)
}

/// A length has the width of a `usize`.
pub open spec fn read_len(s: Seq<u8>) -> Option<(nat, Seq<u8>)> {
    if usize::MAX == u64::MAX {
        read_u64(s)
    } else {
        read_u32(s)
    }
}

/// The encoding of a flag.
pub open spec fn flag(b: bool) -> Seq<u8> {
    seq![if b {
        1u8
    } else {
        0u8
    }]
}

/// Reads a flag.
pub open spec fn read_flag(s: Seq<u8>) -> Option<(bool, Seq<u8>)> {
    if s.len() > 0 && s[0] <= 1 {
        Some((s[0] == 1, s.skip(1)))
    } else {
        None
    }
}

/// The encoding of a byte string: its length, then the bytes.
pub open spec fn byte_string(b: Seq<u8>) -> Seq<u8> {
    varint(b.len()) + b
}

/// Reads a byte string.
pub open spec fn read_byte_string(s: Seq<u8>) -> Option<(Seq<u8>, Seq<u8>)> {
    match read_len(s) {
        Some((n, rest)) => if n <= rest.len() {
            Some((rest.take(n as int), rest.skip(n as int)))
        } else {
            None
        },
        None => None,
    }
}

/// The encoding of text: its UTF-8 bytes as a byte string.
pub open spec fn text(t: Seq<char>) -> Seq<u8> {
    byte_string(encode_utf8(t))
}

/// Reads text.
pub open spec fn read_text(s: Seq<u8>) -> Option<(Seq<char>, Seq<u8>)> {
    match read_byte_string(s) {
        Some((b, rest)) => if valid_utf8(b) {
            Some((decode_utf8(b), rest))
        } else {
            None
        },
        None => None,
    }
}

/// Reads 32 bytes.
pub open spec fn read_array(s: Seq<u8>) -> Option<(Seq<u8>, Seq<u8>)> {
    if s.len() >= 32 {
        Some((s.take(32), s.skip(32)))
    } else {
        None
    }
}

/// `postcard::to_allocvec` of a `u64` is its varint encoding. Narrower
/// unsigned integers are encoded alike.
#[verifier::external_body]
pub(crate) fn put_u64(v: u64) -> (r: Vec<u8>)
    ensures
        r@ == varint(v as nat),
{
    postcard::to_allocvec(&v).expect("integers always encode")
}

/// `postcard::to_allocvec` of a `bool` is one byte, 0 or 1.
#[verifier::external_body]
pub(crate) fn put_bool(v: bool) -> (r: Vec<u8>)
    ensures
        r@ == flag(v),
{
    postcard::to_allocvec(&v).expect("flags always encode")
}

/// `postcard::to_allocvec` of a `str` is the length of its UTF-8 bytes and the
/// bytes.
#[verifier::external_body]
pub(crate) fn put_str(v: &str) -> (r: Vec<u8>)
    ensures
        r@ == text(v@),
{
    postcard::to_allocvec(v).expect("text always encodes")
}

/// `postcard::to_allocvec` of a byte slice is its length and the bytes.
#[verifier::external_body]
pub(crate) fn put_bytes(v: &[u8]) -> (r: Vec<u8>)
    ensures
        r@ == byte_string(v@),
{
    postcard::to_allocvec(v).expect("bytes always encode")
}

/// `postcard::to_allocvec` of an array of 32 bytes is the bytes.
#[verifier::external_body]
pub(crate) fn put_array(v: &[u8; 32]) -> (r: Vec<u8>)
    ensures
        r@ == v@,
{
    postcard::to_allocvec(v).expect("bytes always encode")
}

/// `postcard::take_from_bytes` reads a `u64` as a varint of at most ten bytes
/// and hands back the bytes after it. Which error comes back for malformed
/// bytes is left unsaid.
#[verifier::external_body]
pub(crate) fn take_u64(s: &[u8]) -> (r: Result<(u64, &[u8]), postcard::Error>)
    ensures
        match r {
            Ok((v, rest)) => read_u64(s@) == Some((v as nat, rest@)),
            Err(_) => read_u64(s@) is None,
        },
{
    postcard::take_from_bytes(s)
}

/// `postcard::take_from_bytes` reads a `u32` as a varint of at most five bytes.
#[verifier::external_body]
pub(crate) fn take_u32(s: &[u8]) -> (r: Result<(u32, &[u8]), postcard::Error>)
    ensures
        match r {
            Ok((v, rest)) => read_u32(s@) == Some((v as nat, rest@)),
            Err(_) => read_u32(s@) is None,
        },
{
    postcard::take_from_bytes(s)
}

/// `postcard::take_from_bytes` reads a `u16` as a varint of at most three
/// bytes.
#[verifier::external_body]
pub(crate) fn take_u16(s: &[u8]) -> (r: Result<(u16, &[u8]), postcard::Error>)
    ensures
        match r {
            Ok((v, rest)) => read_u16(s@) == Some((v as nat, rest@)),
            Err(_) => read_u16(s@) is None,
        },
{
    postcard::take_from_bytes(s)
}

/// `postcard::take_from_bytes` reads a `bool` from a byte that is 0 or 1.
#[verifier::external_body]
pub(crate) fn take_bool(s: &[u8]) -> (r: Result<(bool, &[u8]), postcard::Error>)
    ensures
        match r {
            Ok((v, rest)) => read_flag(s@) == Some((v, rest@)),
            Err(_) => read_flag(s@) is None,
        },
{
    postcard::take_from_bytes(s)
}

/// `postcard::take_from_bytes` reads an `Option<()>` from a byte that is 0
/// (`None`) or 1 (`Some`). The value of an option stands right behind it.
#[verifier::external_body]
pub(crate) fn take_option(s: &[u8]) -> (r: Result<(Option<()>, &[u8]), postcard::Error>)
    ensures
        match r {
            Ok((v, rest)) => read_flag(s@) == Some((v is Some, rest@)),
            Err(_) => read_flag(s@) is None,
        },
{
    postcard::take_from_bytes(s)
}

/// `postcard::take_from_bytes` reads a `String` from a length and that many
/// bytes of valid UTF-8.
#[verifier::external_body]
pub(crate) fn take_string(s: &[u8]) -> (r: Result<(String, &[u8]), postcard::Error>)
    ensures
        match r {
            Ok((v, rest)) => read_text(s@) == Some((v@, rest@)),
            Err(_) => read_text(s@) is None,
        },
{
    postcard::take_from_bytes(s)
}

/// `postcard::take_from_bytes` reads a `Vec<u8>` from a length and that many
/// bytes.
#[verifier::external_body]
pub(crate) fn take_bytes(s: &[u8]) -> (r: Result<(Vec<u8>, &[u8]), postcard::Error>)
    ensures
        match r {
            Ok((v, rest)) => read_byte_string(s@) == Some((v@, rest@)),
            Err(_) => read_byte_string(s@) is None,
        },
{
    postcard::take_from_bytes(s)
}

/// `postcard::take_from_bytes` reads an array of 32 bytes from as many bytes.
#[verifier::external_body]
pub(crate) fn take_array(s: &[u8]) -> (r: Result<([u8; 32], &[u8]), postcard::Error>)
    ensures
        match r {
            Ok((v, rest)) => read_array(s@) == Some((v@, rest@)),
            Err(_) => read_array(s@) is None,
        },
{
    postcard::take_from_bytes(s)
}

/// Reads a length.
pub(crate) fn take_len(s: &[u8]) -> (r: Result<(usize, &[u8]), postcard::Error>)
    ensures
        match r {
            Ok((v, rest)) => read_len(s@) == Some((v as nat, rest@)),
            Err(_) => read_len(s@) is None,
        },
{
    if usize::MAX as u64 == u64::MAX {
        let (n, rest) = take_u64(s)?;
        Ok((n as usize, rest))
    } else {
        let (n, rest) = take_u32(s)?;
        Ok((n as usize, rest))
    }
}

/// `postcard::Error::SerdeDeCustom`, the error that postcard reports for the
/// number of a variant that does not exist.
#[verifier::external_body]
pub(crate) fn no_such_variant() -> postcard::Error {
    postcard::Error::SerdeDeCustom
}

/// Reading back a varint gives the number and leaves what follows it.
pub proof fn lemma_read_varint(n: nat, rest: Seq<u8>, max_len: nat, last_max: nat)
    requires
        max_len >= 1,
        n < capacity(max_len, last_max),
    ensures
        read_varint(varint(n) + rest, max_len, last_max) == Some((n, rest)),
        varint(n).len() >= 1,
        varint(n).len() <= max_len,
    decreases n,
{
    let s = varint(n) + rest;
    if n < 128 {
        assert(s[0] == n);
        assert(s.skip(1) =~= rest);
    } else {
        assert(max_len > 1);
        assert(n / 128 < capacity((max_len - 1) as nat, last_max)) by (nonlinear_arith)
            requires
                n < 128 * capacity((max_len - 1) as nat, last_max),
        ;
        lemma_read_varint(n / 128, rest, (max_len - 1) as nat, last_max);
        assert(s[0] == (128 + n % 128) as u8);
        assert(s.skip(1) =~= varint(n / 128) + rest);
    }
}

/// Numbers below this fit in a varint of `max_len` bytes whose last byte is at
/// most `last_max`.
pub open spec fn capacity(max_len: nat, last_max: nat) -> nat
    decreases max_len,
{
    if max_len <= 1 {
        if last_max < 128 {
            last_max + 1
        } else {
            128
        }
    } else {
        128 * capacity((max_len - 1) as nat, last_max)
    }
}

pub proof fn lemma_read_u64(n: u64, rest: Seq<u8>)
    ensures
        read_u64(varint(n as nat) + rest) == Some((n as nat, rest)),
        1 <= varint(n as nat).len() <= 10,
{
    reveal_with_fuel(capacity, 11);
    assert(capacity(10, 1) == 0x1_0000_0000_0000_0000);
    lemma_read_varint(n as nat, rest, 10, 1);
}

pub proof fn lemma_read_u32(n: u32, rest: Seq<u8>)
    ensures
        read_u32(varint(n as nat) + rest) == Some((n as nat, rest)),
        1 <= varint(n as nat).len() <= 5,
{
    reveal_with_fuel(capacity, 6);
    assert(capacity(5, 15) == 0x1_0000_0000);
    lemma_read_varint(n as nat, rest, 5, 15);
}

pub proof fn lemma_read_u16(n: u16, rest: Seq<u8>)
    ensures
        read_u16(varint(n as nat) + rest) == Some((n as nat, rest)),
        1 <= varint(n as nat).len() <= 3,
{
    reveal_with_fuel(capacity, 4);
    assert(capacity(3, 3) == 0x1_0000);
    lemma_read_varint(n as nat, rest, 3, 3);
}

pub proof fn lemma_read_len(n: usize, rest: Seq<u8>)
    ensures
        read_len(varint(n as nat) + rest) == Some((n as nat, rest)),
{
    if usize::MAX == u64::MAX {
        lemma_read_u64(n as u64, rest);
    } else {
        lemma_read_u32(n as u32, rest);
    }
}

pub proof fn lemma_read_flag(b: bool, rest: Seq<u8>)
    ensures
        read_flag(flag(b) + rest) == Some((b, rest)),
{
    assert((flag(b) + rest).skip(1) =~= rest);
}

pub proof fn lemma_read_byte_string(b: Seq<u8>, rest: Seq<u8>)
    requires
        b.len() <= usize::MAX,
    ensures
        read_byte_string(byte_string(b) + rest) == Some((b, rest)),
{
    assert(byte_string(b) + rest =~= varint(b.len()) + (b + rest));
    lemma_read_len(b.len() as usize, b + rest);
    assert((b + rest).take(b.len() as int) =~= b);
    assert((b + rest).skip(b.len() as int) =~= rest);
}

pub proof fn lemma_read_text(t: Seq<char>, rest: Seq<u8>)
    requires
        encode_utf8(t).len() <= usize::MAX,
    ensures
        read_text(text(t) + rest) == Some((t, rest)),
{
    lemma_read_byte_string(encode_utf8(t), rest);
    encode_utf8_valid_utf8(t);
    encode_utf8_decode_utf8(t);
}

pub proof fn lemma_read_array(a: Seq<u8>, rest: Seq<u8>)
    requires
        a.len() == 32,
    ensures
        read_array(a + rest) == Some((a, rest)),
{
    assert((a + rest).take(32) =~= a);
    assert((a + rest).skip(32) =~= rest);
}

} // verus!
