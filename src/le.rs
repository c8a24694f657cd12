//! Little-endian integers read out of byte sequences.
use byteorder::{ByteOrder, LittleEndian};
use vstd::prelude::*;
use vstd::slice::slice_subrange;

verus! {

/// The `u16` stored least significant byte first at position `at` of `b`.
pub open spec fn u16_le(b: Seq<u8>, at: int) -> u16 {
    (b[at] as u16) | ((b[at + 1] as u16) << 8u16)
}

/// The `u32` stored least significant byte first at position `at` of `b`.
pub open spec fn u32_le(b: Seq<u8>, at: int) -> u32 {
    (b[at] as u32) | ((b[at + 1] as u32) << 8u32) | ((b[at + 2] as u32) << 16u32) | ((b[at
        + 3] as u32) << 24u32)
}

/// The `u64` stored least significant byte first at position `at` of `b`.
pub open spec fn u64_le(b: Seq<u8>, at: int) -> u64 {
    (b[at] as u64) | ((b[at + 1] as u64) << 8u64) | ((b[at + 2] as u64) << 16u64) | ((b[at
        + 3] as u64) << 24u64) | ((b[at + 4] as u64) << 32u64) | ((b[at + 5] as u64) << 40u64)
        | ((b[at + 6] as u64) << 48u64) | ((b[at + 7] as u64) << 56u64)
}

/// The four bytes that store `v` least significant first.
pub open spec fn u32_bytes(v: u32) -> Seq<u8> {
    seq![v as u8, (v >> 8u32) as u8, (v >> 16u32) as u8, (v >> 24u32) as u8]
}

/// The eight bytes that store `v` least significant first.
pub open spec fn u64_bytes(v: u64) -> Seq<u8> {
    seq![
        v as u8,
        (v >> 8u64) as u8,
        (v >> 16u64) as u8,
        (v >> 24u64) as u8,
        (v >> 32u64) as u8,
        (v >> 40u64) as u8,
        (v >> 48u64) as u8,
        (v >> 56u64) as u8,
    ]
}

/// Reading back the bytes that store a `u32` gives the `u32`.
pub proof fn lemma_u32_round_trip(v: u32, b: Seq<u8>, at: int)
    requires
        0 <= at,
        at + 4 <= b.len(),
        b.subrange(at, at + 4) == u32_bytes(v),
    ensures
        u32_le(b, at) == v,
{
    let s = u32_bytes(v);
    assert(b[at] == s[0] && b[at + 1] == s[1] && b[at + 2] == s[2] && b[at + 3] == s[3]);
    assert(((v as u8) as u32) | ((((v >> 8u32) as u8) as u32) << 8u32) | ((((v >> 16u32) as u8)
        as u32) << 16u32) | ((((v >> 24u32) as u8) as u32) << 24u32) == v) by (bit_vector);
}

/// Reading back the bytes that store a `u64` gives the `u64`.
pub proof fn lemma_u64_round_trip(v: u64, b: Seq<u8>, at: int)
    requires
        0 <= at,
        at + 8 <= b.len(),
        b.subrange(at, at + 8) == u64_bytes(v),
    ensures
        u64_le(b, at) == v,
{
    let s = u64_bytes(v);
    assert(b[at] == s[0] && b[at + 1] == s[1] && b[at + 2] == s[2] && b[at + 3] == s[3]);
    assert(b[at + 4] == s[4] && b[at + 5] == s[5] && b[at + 6] == s[6] && b[at + 7] == s[7]);
    assert(((v as u8) as u64) | ((((v >> 8u64) as u8) as u64) << 8u64) | ((((v >> 16u64) as u8)
        as u64) << 16u64) | ((((v >> 24u64) as u8) as u64) << 24u64) | ((((v >> 32u64) as u8)
        as u64) << 32u64) | ((((v >> 40u64) as u8) as u64) << 40u64) | ((((v >> 48u64) as u8)
        as u64) << 48u64) | ((((v >> 56u64) as u8) as u64) << 56u64) == v) by (bit_vector);
}

/// Relies on byteorder's `LittleEndian::read_u16`: the first two bytes of
/// `buf`, least significant first; it panics on fewer than two bytes.
#[verifier::external_body]
fn read_u16(buf: &[u8]) -> (r: u16)
    requires
        buf@.len() >= 2,
    ensures
        r == u16_le(buf@, 0),
{
    LittleEndian::read_u16(buf)
}

/// Relies on byteorder's `LittleEndian::read_u32`: the first four bytes of
/// `buf`, least significant first; it panics on fewer than four bytes.
#[verifier::external_body]
fn read_u32(buf: &[u8]) -> (r: u32)
    requires
        buf@.len() >= 4,
    ensures
        r == u32_le(buf@, 0),
{
    LittleEndian::read_u32(buf)
}

/// Relies on byteorder's `LittleEndian::read_u64`: the first eight bytes of
/// `buf`, least significant first; it panics on fewer than eight bytes.
#[verifier::external_body]
fn read_u64(buf: &[u8]) -> (r: u64)
    requires
        buf@.len() >= 8,
    ensures
        r == u64_le(buf@, 0),
{
    LittleEndian::read_u64(buf)
}

/// The `u16` at position `at` of `b`.
pub fn u16_at(b: &[u8], at: usize) -> (r: u16)
    requires
        at + 2 <= b@.len(),
    ensures
        r == u16_le(b@, at as int),
{
    let tail = slice_subrange(b, at, b.len());
    let r = read_u16(tail);
    assert(tail@[0] == b@[at as int] && tail@[1] == b@[at + 1]);
    r
}

/// The `u32` at position `at` of `b`.
pub fn u32_at(b: &[u8], at: usize) -> (r: u32)
    requires
        at + 4 <= b@.len(),
    ensures
        r == u32_le(b@, at as int),
{
    let tail = slice_subrange(b, at, b.len());
    let r = read_u32(tail);
    assert(tail@[0] == b@[at as int] && tail@[1] == b@[at + 1]);
    assert(tail@[2] == b@[at + 2] && tail@[3] == b@[at + 3]);
    r
}

/// The `u64` at position `at` of `b`.
pub fn u64_at(b: &[u8], at: usize) -> (r: u64)
    requires
        at + 8 <= b@.len(),
    ensures
        r == u64_le(b@, at as int),
{
    let tail = slice_subrange(b, at, b.len());
    let r = read_u64(tail);
    assert(tail@[0] == b@[at as int] && tail@[1] == b@[at + 1]);
    assert(tail@[2] == b@[at + 2] && tail@[3] == b@[at + 3]);
    assert(tail@[4] == b@[at + 4] && tail@[5] == b@[at + 5]);
    assert(tail@[6] == b@[at + 6] && tail@[7] == b@[at + 7]);
    r
}

} // verus!
