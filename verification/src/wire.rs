//! Little-endian byte encodings used by the OpenRGB SDK wire format.

use vstd::prelude::*;

verus! {

/// The two bytes of `x`, least significant first.
pub open spec fn le16(x: u16) -> Seq<u8> {
    seq![(x % 256) as u8, (x / 256) as u8]
}

/// The four bytes of `x`, least significant first.
pub open spec fn le32(x: u32) -> Seq<u8> {
    seq![
        (x % 256) as u8,
        ((x / 256) % 256) as u8,
        ((x / 65536) % 256) as u8,
        (x / 16777216) as u8,
    ]
}

/// The `u16` whose little-endian bytes start `s`.
pub open spec fn u16_of(s: Seq<u8>) -> u16
    recommends
        s.len() >= 2,
{
    (s[0] + s[1] * 256) as u16
}

/// The `u32` whose little-endian bytes start `s`.
pub open spec fn u32_of(s: Seq<u8>) -> u32
    recommends
        s.len() >= 4,
{
    (s[0] + s[1] * 256 + s[2] * 65536 + s[3] * 16777216) as u32
}

/// `n` reduced to 16 bits, as `as u16` does on the wire.
pub open spec fn wrap16(n: nat) -> u16 {
    (n % 65536) as u16
}

/// `n` reduced to 32 bits, as `as u32` does on the wire.
pub open spec fn wrap32(n: nat) -> u32 {
    (n % 0x1_0000_0000) as u32
}

/// The two's-complement bit pattern of `v`.
pub open spec fn bits_of_i32(v: i32) -> u32 {
    if v >= 0 { v as u32 } else { (v + 0x1_0000_0000) as u32 }
}

/// The `i32` whose two's-complement bit pattern is `x`.
pub open spec fn i32_of_bits(x: u32) -> i32 {
    if x < 0x8000_0000 { x as i32 } else { (x - 0x1_0000_0000) as i32 }
}

pub proof fn lemma_le16_roundtrip(x: u16)
    ensures
        le16(x).len() == 2,
        u16_of(le16(x)) == x,
{
}

pub proof fn lemma_le32_roundtrip(x: u32)
    ensures
        le32(x).len() == 4,
        u32_of(le32(x)) == x,
{
    let q1 = x / 256;
    let q2 = x / 65536;
    let q3 = x / 16777216;
    assert(x == x % 256 + 256 * q1);
    assert(q2 == q1 / 256) by (nonlinear_arith)
        requires
            q1 == x / 256,
            q2 == x / 65536,
    ;
    assert(q3 == q2 / 256) by (nonlinear_arith)
        requires
            q2 == x / 65536,
            q3 == x / 16777216,
    ;
    assert(q1 == q1 % 256 + 256 * q2);
    assert(q2 == q2 % 256 + 256 * q3);
    assert(q3 < 256);
}

pub proof fn lemma_i32_bits_roundtrip(v: i32)
    ensures
        i32_of_bits(bits_of_i32(v)) == v,
{
}

/// Append the little-endian bytes of a `u16`.
pub fn push_u16(buf: &mut Vec<u8>, x: u16)
    ensures
        final(buf)@ == old(buf)@ + le16(x),
{
    buf.push((x % 256) as u8);
    buf.push((x / 256) as u8);
    assert(final(buf)@ =~= old(buf)@ + le16(x));
}

/// Append the little-endian bytes of a `u32`.
pub fn push_u32(buf: &mut Vec<u8>, x: u32)
    ensures
        final(buf)@ == old(buf)@ + le32(x),
{
    buf.push((x % 256) as u8);
    buf.push(((x / 256) % 256) as u8);
    buf.push(((x / 65536) % 256) as u8);
    buf.push((x / 16777216) as u8);
    assert(final(buf)@ =~= old(buf)@ + le32(x));
}

/// The two's-complement bit pattern of an `i32`, as `to_le_bytes` lays it out.
pub fn i32_bits(v: i32) -> (r: u32)
    ensures
        r == bits_of_i32(v),
{
    if v >= 0 {
        v as u32
    } else {
        let w: i64 = v as i64 + 0x1_0000_0000i64;
        w as u32
    }
}

/// The `i32` that a little-endian `u32` bit pattern denotes.
pub fn i32_from_bits(x: u32) -> (r: i32)
    ensures
        r == i32_of_bits(x),
{
    if x < 0x8000_0000 {
        x as i32
    } else {
        let w: i64 = x as i64 - 0x1_0000_0000i64;
        w as i32
    }
}

} // verus!
