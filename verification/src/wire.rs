use vstd::arithmetic::div_mod::{lemma_div_denominator, lemma_fundamental_div_mod};
use vstd::prelude::*;

verus! {

/// The two bytes of a 16-bit value in little-endian order.
pub open spec fn le_bytes_u16(v: u16) -> Seq<u8> {
    seq![(v % 256) as u8, (v / 256) as u8]
}

/// The four bytes of a 32-bit value in little-endian order.
pub open spec fn le_bytes_u32(v: u32) -> Seq<u8> {
    seq![
        (v % 256) as u8,
        ((v / 256) % 256) as u8,
        ((v / 65536) % 256) as u8,
        ((v / 16777216) % 256) as u8,
    ]
}

/// The 16-bit value carried by two little-endian bytes.
pub open spec fn u16_from_le(b0: u8, b1: u8) -> u16 {
    (b0 + 256 * b1) as u16
}

/// The 32-bit value carried by four little-endian bytes.
pub open spec fn u32_from_le(b0: u8, b1: u8, b2: u8, b3: u8) -> u32 {
    (b0 + 256 * b1 + 65536 * b2 + 16777216 * b3) as u32
}

/// The two's-complement 16-bit pattern of a signed value.
pub open spec fn i16_to_u16(v: i16) -> u16 {
    if v >= 0 {
        v as u16
    } else {
        (v + 65536) as u16
    }
}

/// The signed value carried by a two's-complement 16-bit pattern.
pub open spec fn u16_to_i16(u: u16) -> i16 {
    if u < 32768 {
        u as i16
    } else {
        (u - 65536) as i16
    }
}

/// Reading back the two little-endian bytes of a 16-bit value gives the
/// value.
pub proof fn lemma_u16_le_roundtrip(v: u16)
    ensures
        u16_from_le((v % 256) as u8, (v / 256) as u8) == v,
{
    lemma_fundamental_div_mod(v as int, 256);
}

/// Reading back the four little-endian bytes of a 32-bit value gives the
/// value.
pub proof fn lemma_u32_le_roundtrip(v: u32)
    ensures
        u32_from_le(
            (v % 256) as u8,
            ((v / 256) % 256) as u8,
            ((v / 65536) % 256) as u8,
            ((v / 16777216) % 256) as u8,
        ) == v,
{
    let n = v as int;
    lemma_fundamental_div_mod(n, 256);
    lemma_fundamental_div_mod(n / 256, 256);
    lemma_fundamental_div_mod(n / 65536, 256);
    lemma_div_denominator(n, 256, 256);
    lemma_div_denominator(n, 65536, 256);
    assert(n / 16777216 < 256) by {
        lemma_div_denominator(n, 16777216, 256);
        lemma_fundamental_div_mod(n / 16777216, 256);
    };
}

/// The two's-complement pattern of a signed value carries the value.
pub proof fn lemma_i16_u16_roundtrip(v: i16)
    ensures
        u16_to_i16(i16_to_u16(v)) == v,
{
}

/// Reads an unsigned byte.
pub fn read_u8(bytes: &Vec<u8>, pos: usize) -> (r: u8)
    requires
        pos < bytes.len(),
    ensures
        r == bytes@[pos as int],
{
    bytes[pos]
}

/// Reads a 16-bit unsigned value from two little-endian bytes.
pub fn read_u16_le(bytes: &Vec<u8>, pos: usize) -> (r: u16)
    requires
        pos + 2 <= bytes.len(),
    ensures
        r == u16_from_le(bytes@[pos as int], bytes@[pos as int + 1]),
{
    let b0 = bytes[pos];
    let b1 = bytes[pos + 1];
    (b0 as u16) + 256 * (b1 as u16)
}

/// Reads a 32-bit unsigned value from four little-endian bytes.
pub fn read_u32_le(bytes: &Vec<u8>, pos: usize) -> (r: u32)
    requires
        pos + 4 <= bytes.len(),
    ensures
        r == u32_from_le(
            bytes@[pos as int],
            bytes@[pos as int + 1],
            bytes@[pos as int + 2],
            bytes@[pos as int + 3],
        ),
{
    let b0 = bytes[pos];
    let b1 = bytes[pos + 1];
    let b2 = bytes[pos + 2];
    let b3 = bytes[pos + 3];
    (b0 as u32) + 256 * (b1 as u32) + 65536 * (b2 as u32) + 16777216 * (b3 as u32)
}

/// Reads a 16-bit signed value from two little-endian bytes holding its
/// two's-complement pattern.
pub fn read_i16_le(bytes: &Vec<u8>, pos: usize) -> (r: i16)
    requires
        pos + 2 <= bytes.len(),
    ensures
        r == u16_to_i16(u16_from_le(bytes@[pos as int], bytes@[pos as int + 1])),
{
    let u = read_u16_le(bytes, pos);
    if u < 32768 {
        u as i16
    } else {
        ((u as i32) - 65536) as i16
    }
}

/// Appends the two little-endian bytes of a 16-bit value.
pub fn push_u16_le(out: &mut Vec<u8>, v: u16)
    ensures
        final(out)@ == old(out)@ + le_bytes_u16(v),
{
    out.push((v % 256) as u8);
    out.push((v / 256) as u8);
    proof {
        assert(out@ =~= old(out)@ + le_bytes_u16(v));
    }
}

/// Appends the four little-endian bytes of a 32-bit value.
pub fn push_u32_le(out: &mut Vec<u8>, v: u32)
    ensures
        final(out)@ == old(out)@ + le_bytes_u32(v),
{
    out.push((v % 256) as u8);
    out.push(((v / 256) % 256) as u8);
    out.push(((v / 65536) % 256) as u8);
    out.push(((v / 16777216) % 256) as u8);
    proof {
        assert(out@ =~= old(out)@ + le_bytes_u32(v));
    }
}

/// Appends the two little-endian bytes of the two's-complement pattern of a
/// 16-bit signed value.
pub fn push_i16_le(out: &mut Vec<u8>, v: i16)
    ensures
        final(out)@ == old(out)@ + le_bytes_u16(i16_to_u16(v)),
{
    let u: u16 = if v >= 0 {
        v as u16
    } else {
        ((v as i32) + 65536) as u16
    };
    push_u16_le(out, u);
}

} // verus!
