//! Numbers as little-endian bytes.

use vstd::prelude::*;

verus! {

/// The 16-bit number whose two little-endian bytes start at `o` in `b`.
pub open spec fn le_u16(b: Seq<u8>, o: int) -> u16 {
    (b[o] + b[o + 1] * 0x100) as u16
}

/// The 32-bit number whose four little-endian bytes start at `o` in `b`.
pub open spec fn le_u32(b: Seq<u8>, o: int) -> u32 {
    (b[o] + b[o + 1] * 0x100 + b[o + 2] * 0x1_0000 + b[o + 3] * 0x100_0000) as u32
}

/// The 64-bit number whose eight little-endian bytes start at `o` in `b`.
pub open spec fn le_u64(b: Seq<u8>, o: int) -> u64 {
    (le_u32(b, o) + le_u32(b, o + 4) * 0x1_0000_0000) as u64
}

/// The signed number that the 32 bits of `v` stand for in two's complement.
pub open spec fn as_signed(v: u32) -> i32 {
    if v < 0x8000_0000 {
        v as i32
    } else {
        (v - 0x1_0000_0000) as i32
    }
}

/// The 32 bits that stand for `x` in two's complement.
pub open spec fn as_unsigned(x: i32) -> u32 {
    if x >= 0 {
        x as u32
    } else {
        (x + 0x1_0000_0000) as u32
    }
}

/// The signed 32-bit number whose four little-endian bytes start at `o` in `b`.
pub open spec fn le_i32(b: Seq<u8>, o: int) -> i32 {
    as_signed(le_u32(b, o))
}

/// The four little-endian bytes of `x`.
pub open spec fn u32_le(x: u32) -> Seq<u8> {
    seq![
        (x % 0x100) as u8,
        (x / 0x100 % 0x100) as u8,
        (x / 0x1_0000 % 0x100) as u8,
        (x / 0x100_0000) as u8,
    ]
}

/// The eight little-endian bytes of `x`.
pub open spec fn u64_le(x: u64) -> Seq<u8> {
    u32_le((x % 0x1_0000_0000) as u32) + u32_le((x / 0x1_0000_0000) as u32)
}

/// The four little-endian bytes of `x` in two's complement.
pub open spec fn i32_le(x: i32) -> Seq<u8> {
    u32_le(as_unsigned(x))
}

/// Reading back what `u32_le` wrote gives the number again, wherever the four
/// bytes stand in a longer sequence.
pub proof fn lemma_u32_round_trip(x: u32, b: Seq<u8>, o: int)
    requires
        0 <= o,
        o + 4 <= b.len(),
        b.subrange(o, o + 4) == u32_le(x),
    ensures
        le_u32(b, o) == x,
{
    let s = b.subrange(o, o + 4);
    assert(s[0] == b[o] && s[1] == b[o + 1] && s[2] == b[o + 2] && s[3] == b[o + 3]);
    assert(u32_le(x)[0] == (x % 0x100) as u8);
    assert(u32_le(x)[1] == (x / 0x100 % 0x100) as u8);
    assert(u32_le(x)[2] == (x / 0x1_0000 % 0x100) as u8);
    assert(u32_le(x)[3] == (x / 0x100_0000) as u8);
}

/// Reading back what `u64_le` wrote gives the number again.
pub proof fn lemma_u64_round_trip(x: u64, b: Seq<u8>, o: int)
    requires
        0 <= o,
        o + 8 <= b.len(),
        b.subrange(o, o + 8) == u64_le(x),
    ensures
        le_u64(b, o) == x,
{
    let lo = (x % 0x1_0000_0000) as u32;
    let hi = (x / 0x1_0000_0000) as u32;
    let s = b.subrange(o, o + 8);
    assert(u32_le(lo).len() == 4 && u32_le(hi).len() == 4);
    assert(b.subrange(o, o + 4) =~= s.subrange(0, 4));
    assert(b.subrange(o + 4, o + 8) =~= s.subrange(4, 8));
    assert(s.subrange(0, 4) =~= u32_le(lo));
    assert(s.subrange(4, 8) =~= u32_le(hi));
    lemma_u32_round_trip(lo, b, o);
    lemma_u32_round_trip(hi, b, o + 4);
}

/// Reading back what `i32_le` wrote gives the number again.
pub proof fn lemma_i32_round_trip(x: i32, b: Seq<u8>, o: int)
    requires
        0 <= o,
        o + 4 <= b.len(),
        b.subrange(o, o + 4) == i32_le(x),
    ensures
        le_i32(b, o) == x,
{
    lemma_u32_round_trip(as_unsigned(x), b, o);
}

/// Reads a 16-bit number from `b` at `o`.
pub fn decode_u16(b: &[u8], o: usize) -> (v: u16)
    requires
        o + 2 <= b@.len(),
    ensures
        v == le_u16(b@, o as int),
{
    (b[o] as u16) + (b[o + 1] as u16) * 0x100
}

/// Reads a 32-bit number from `b` at `o`.
pub fn decode_u32(b: &[u8], o: usize) -> (v: u32)
    requires
        o + 4 <= b@.len(),
    ensures
        v == le_u32(b@, o as int),
{
    (b[o] as u32) + (b[o + 1] as u32) * 0x100 + (b[o + 2] as u32) * 0x1_0000 + (b[o + 3] as u32)
        * 0x100_0000
}

/// Reads a 64-bit number from `b` at `o`.
pub fn decode_u64(b: &[u8], o: usize) -> (v: u64)
    requires
        o + 8 <= b@.len(),
    ensures
        v == le_u64(b@, o as int),
{
    let n: usize = b.len();
    assert(o + 8 <= n);
    let lo: u32 = decode_u32(b, o);
    let hi: u32 = decode_u32(b, o + 4);
    (lo as u64) + (hi as u64) * 0x1_0000_0000
}

/// Reads a signed 32-bit number from `b` at `o`.
pub fn decode_i32(b: &[u8], o: usize) -> (v: i32)
    requires
        o + 4 <= b@.len(),
    ensures
        v == le_i32(b@, o as int),
{
    let bits: u32 = decode_u32(b, o);
    if bits < 0x8000_0000 {
        bits as i32
    } else {
        ((bits as i64) - 0x1_0000_0000) as i32
    }
}

/// Appends the four little-endian bytes of `x` to `out`.
pub fn push_u32(out: &mut Vec<u8>, x: u32)
    ensures
        final(out)@ == old(out)@ + u32_le(x),
{
    out.push((x % 0x100) as u8);
    out.push((x / 0x100 % 0x100) as u8);
    out.push((x / 0x1_0000 % 0x100) as u8);
    out.push((x / 0x100_0000) as u8);
    assert(out@ =~= old(out)@ + u32_le(x));
}

/// Appends the eight little-endian bytes of `x` to `out`.
pub fn push_u64(out: &mut Vec<u8>, x: u64)
    ensures
        final(out)@ == old(out)@ + u64_le(x),
{
    push_u32(out, (x % 0x1_0000_0000) as u32);
    push_u32(out, (x / 0x1_0000_0000) as u32);
    assert(out@ =~= old(out)@ + u64_le(x));
}

/// Appends the four little-endian bytes of `x` to `out`.
pub fn push_i32(out: &mut Vec<u8>, x: i32)
    ensures
        final(out)@ == old(out)@ + i32_le(x),
{
    let bits: u32 = if x >= 0 {
        x as u32
    } else {
        ((x as i64) + 0x1_0000_0000) as u32
    };
    push_u32(out, bits);
}

} // verus!
