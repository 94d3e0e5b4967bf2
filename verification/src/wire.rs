//! Fixed-width integers on the wire: little-endian, as rtnetlink lays them
//! out on the hosts this library serves.

use vstd::prelude::*;
use crate::error::NetlinkError;

verus! {

/// The two bytes of `x`, low byte first.
pub open spec fn le_u16(x: u16) -> Seq<u8> {
    seq![(x % 256) as u8, (x / 256) as u8]
}

/// The four bytes of `x`, low byte first.
pub open spec fn le_u32(x: u32) -> Seq<u8> {
    seq![
        (x % 256) as u8,
        ((x / 256) % 256) as u8,
        ((x / 65536) % 256) as u8,
        (x / 16777216) as u8,
    ]
}

/// The four bytes of `x` in two's complement, low byte first.
pub open spec fn le_i32(x: i32) -> Seq<u8> {
    le_u32(x as u32)
}

/// The number that the first two bytes of `s` spell, low byte first.
pub open spec fn u16_of_le(s: Seq<u8>) -> u16
    recommends
        s.len() >= 2,
{
    (s[0] as int + s[1] as int * 256) as u16
}

/// The number that the first four bytes of `s` spell, low byte first.
pub open spec fn u32_of_le(s: Seq<u8>) -> u32
    recommends
        s.len() >= 4,
{
    (s[0] as int + s[1] as int * 256 + s[2] as int * 65536 + s[3] as int * 16777216) as u32
}

/// The signed number that the first four bytes of `s` spell, low byte first.
pub open spec fn i32_of_le(s: Seq<u8>) -> i32
    recommends
        s.len() >= 4,
{
    u32_of_le(s) as i32
}

/// The number that the first four bytes of `s` spell, high byte first.
pub open spec fn u32_of_be(s: Seq<u8>) -> u32
    recommends
        s.len() >= 4,
{
    (s[3] as int + s[2] as int * 256 + s[1] as int * 65536 + s[0] as int * 16777216) as u32
}

/// Decoding undoes encoding, for each width.
pub proof fn lemma_le_roundtrip(a: u16, b: u32, c: i32)
    ensures
        le_u16(a).len() == 2,
        le_u32(b).len() == 4,
        le_i32(c).len() == 4,
        u16_of_le(le_u16(a)) == a,
        u32_of_le(le_u32(b)) == b,
        i32_of_le(le_i32(c)) == c,
{
    assert((c as u32) as i32 == c) by (bit_vector);
}

/// `bincode::serialize` on a `u16`. In its fixed-width little-endian
/// configuration, without a size limit and writing into a vector, the call
/// cannot fail and yields the two bytes of `x`, low byte first.
#[verifier::external_body]
pub(crate) fn encode_u16(x: u16) -> (r: Option<Vec<u8>>)
    ensures
        r is Some,
        r->Some_0@ == le_u16(x),
{
    bincode::serialize(&x).ok()
}

/// `bincode::serialize` on a `u32`. In its fixed-width little-endian
/// configuration, without a size limit and writing into a vector, the call
/// cannot fail and yields the four bytes of `x`, low byte first.
#[verifier::external_body]
pub(crate) fn encode_u32(x: u32) -> (r: Option<Vec<u8>>)
    ensures
        r is Some,
        r->Some_0@ == le_u32(x),
{
    bincode::serialize(&x).ok()
}

/// Encodes `x` in two bytes.
pub fn u16_to_bytes(x: u16) -> (v: Vec<u8>)
    ensures
        v@ == le_u16(x),
{
    let mut v: Vec<u8> = Vec::new();
    v.push((x % 256) as u8);
    v.push((x / 256) as u8);
    assert(v@ =~= le_u16(x));
    v
}

/// Encodes `x` in four bytes.
pub fn u32_to_bytes(x: u32) -> (v: Vec<u8>)
    ensures
        v@ == le_u32(x),
{
    let mut v: Vec<u8> = Vec::new();
    v.push((x % 256) as u8);
    v.push(((x / 256) % 256) as u8);
    v.push(((x / 65536) % 256) as u8);
    v.push((x / 16777216) as u8);
    assert(v@ =~= le_u32(x));
    v
}

/// Encodes `x` in four bytes, two's complement.
pub fn i32_to_bytes(x: i32) -> (v: Vec<u8>)
    ensures
        v@ == le_i32(x),
{
    u32_to_bytes(x as u32)
}

/// Reads the two-byte number at `at`.
pub fn read_u16(buf: &[u8], at: usize) -> (x: u16)
    requires
        at + 2 <= buf@.len(),
    ensures
        x == u16_of_le(buf@.subrange(at as int, at + 2)),
{
    let lo: u16 = buf[at] as u16;
    let hi: u16 = buf[at + 1] as u16;
    lo + hi * 256
}

/// Reads the four-byte number at `at`.
pub fn read_u32(buf: &[u8], at: usize) -> (x: u32)
    requires
        at + 4 <= buf@.len(),
    ensures
        x == u32_of_le(buf@.subrange(at as int, at + 4)),
{
    let b0: u32 = buf[at] as u32;
    let b1: u32 = buf[at + 1] as u32;
    let b2: u32 = buf[at + 2] as u32;
    let b3: u32 = buf[at + 3] as u32;
    b0 + b1 * 256 + b2 * 65536 + b3 * 16777216
}

/// Reads the signed four-byte number at `at`.
pub fn read_i32(buf: &[u8], at: usize) -> (x: i32)
    requires
        at + 4 <= buf@.len(),
    ensures
        x == i32_of_le(buf@.subrange(at as int, at + 4)),
{
    read_u32(buf, at) as i32
}

/// Reads the four-byte number at `at` whose high byte comes first.
pub fn read_u32_be(buf: &[u8], at: usize) -> (x: u32)
    requires
        at + 4 <= buf@.len(),
    ensures
        x == u32_of_be(buf@.subrange(at as int, at + 4)),
{
    let b0: u32 = buf[at] as u32;
    let b1: u32 = buf[at + 1] as u32;
    let b2: u32 = buf[at + 2] as u32;
    let b3: u32 = buf[at + 3] as u32;
    b3 + b2 * 256 + b1 * 65536 + b0 * 16777216
}

/// The number at the start of a payload; none where it has fewer than four
/// bytes.
pub open spec fn u32_at(v: Seq<u8>) -> Option<u32> {
    if v.len() >= 4 {
        Some(u32_of_le(v.subrange(0, 4)))
    } else {
        None
    }
}

/// The signed number at the start of a payload; none where it has fewer
/// than four bytes.
pub open spec fn i32_at(v: Seq<u8>) -> Option<i32> {
    if v.len() >= 4 {
        Some(i32_of_le(v.subrange(0, 4)))
    } else {
        None
    }
}

/// The number at the start of a payload, high byte first; none where it has
/// fewer than four bytes.
pub open spec fn u32_be_at(v: Seq<u8>) -> Option<u32> {
    if v.len() >= 4 {
        Some(u32_of_be(v.subrange(0, 4)))
    } else {
        None
    }
}

/// The first byte of a payload; none where it is empty.
pub open spec fn u8_at(v: Seq<u8>) -> Option<u8> {
    if v.len() >= 1 {
        Some(v[0])
    } else {
        None
    }
}

/// Reads the number at the start of a payload.
pub fn value_u32(v: &[u8]) -> (r: Result<u32, NetlinkError>)
    ensures
        match u32_at(v@) {
            Some(x) => r == Ok::<u32, NetlinkError>(x),
            None => r == Err::<u32, NetlinkError>(NetlinkError::MalformedMessage),
        },
{
    if v.len() >= 4 {
        Ok(read_u32(v, 0))
    } else {
        Err(NetlinkError::MalformedMessage)
    }
}

/// Reads the signed number at the start of a payload.
pub fn value_i32(v: &[u8]) -> (r: Result<i32, NetlinkError>)
    ensures
        match i32_at(v@) {
            Some(x) => r == Ok::<i32, NetlinkError>(x),
            None => r == Err::<i32, NetlinkError>(NetlinkError::MalformedMessage),
        },
{
    if v.len() >= 4 {
        Ok(read_i32(v, 0))
    } else {
        Err(NetlinkError::MalformedMessage)
    }
}

/// Reads the number at the start of a payload, high byte first.
pub fn value_u32_be(v: &[u8]) -> (r: Result<u32, NetlinkError>)
    ensures
        match u32_be_at(v@) {
            Some(x) => r == Ok::<u32, NetlinkError>(x),
            None => r == Err::<u32, NetlinkError>(NetlinkError::MalformedMessage),
        },
{
    if v.len() >= 4 {
        Ok(read_u32_be(v, 0))
    } else {
        Err(NetlinkError::MalformedMessage)
    }
}

/// Reads the first byte of a payload.
pub fn value_u8(v: &[u8]) -> (r: Result<u8, NetlinkError>)
    ensures
        match u8_at(v@) {
            Some(x) => r == Ok::<u8, NetlinkError>(x),
            None => r == Err::<u8, NetlinkError>(NetlinkError::MalformedMessage),
        },
{
    if v.len() >= 1 {
        Ok(v[0])
    } else {
        Err(NetlinkError::MalformedMessage)
    }
}

} // verus!
