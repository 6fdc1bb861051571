//! Little-endian scalars over byte sequences.

use vstd::prelude::*;

verus! {

/// The 16-bit value whose little-endian bytes start at `at` in `b`.
#[verifier::opaque]
pub open spec fn le_u16(b: Seq<u8>, at: int) -> u16
    recommends
        0 <= at,
        at + 2 <= b.len(),
{
    (b[at] + 256 * b[at + 1]) as u16
}

/// The 32-bit value whose little-endian bytes start at `at` in `b`.
#[verifier::opaque]
pub open spec fn le_u32(b: Seq<u8>, at: int) -> u32
    recommends
        0 <= at,
        at + 4 <= b.len(),
{
    (b[at] + 256 * b[at + 1] + 65536 * b[at + 2] + 16777216 * b[at + 3]) as u32
}

/// The two little-endian bytes of `x`.
#[verifier::opaque]
pub open spec fn u16_le_bytes(x: u16) -> Seq<u8> {
    seq![(x % 256) as u8, (x / 256) as u8]
}

/// The four little-endian bytes of `x`.
#[verifier::opaque]
pub open spec fn u32_le_bytes(x: u32) -> Seq<u8> {
    seq![
        (x % 256) as u8,
        ((x / 256) % 256) as u8,
        ((x / 65536) % 256) as u8,
        (x / 16777216) as u8,
    ]
}

/// The unsigned 32-bit pattern of `x` in two's complement.
pub open spec fn i32_bits(x: i32) -> u32 {
    if x >= 0 {
        x as u32
    } else {
        (x + 0x1_0000_0000) as u32
    }
}

/// The signed value of the two's complement pattern `u`.
pub open spec fn bits_i32(u: u32) -> i32 {
    if u < 0x8000_0000 {
        u as i32
    } else {
        (u - 0x1_0000_0000) as i32
    }
}

/// A 16-bit value has two bytes.
pub proof fn lemma_u16_le_len(x: u16)
    ensures
        u16_le_bytes(x).len() == 2,
{
    reveal(u16_le_bytes);
}

/// A 32-bit value has four bytes.
pub proof fn lemma_u32_le_len(x: u32)
    ensures
        u32_le_bytes(x).len() == 4,
{
    reveal(u32_le_bytes);
}

/// Each pair of bytes is the bytes of the value read from it.
pub proof fn lemma_u16_le_bytes(b: Seq<u8>, at: int)
    requires
        0 <= at,
        at + 2 <= b.len(),
    ensures
        u16_le_bytes(le_u16(b, at)) == b.subrange(at, at + 2),
{
    reveal(le_u16);
    reveal(u16_le_bytes);
    assert(u16_le_bytes(le_u16(b, at)) =~= b.subrange(at, at + 2));
}

/// Where the bytes of `x` stand at `at` in `b`, reading there gives `x`.
pub proof fn lemma_le_u16_reads(b: Seq<u8>, at: int, x: u16)
    requires
        0 <= at,
        at + 2 <= b.len(),
        b.subrange(at, at + 2) == u16_le_bytes(x),
    ensures
        le_u16(b, at) == x,
{
    reveal(le_u16);
    reveal(u16_le_bytes);
    let part = b.subrange(at, at + 2);
    assert(part[0] == b[at] && part[1] == b[at + 1]);
}

/// Each run of four bytes is the bytes of the value read from it.
pub proof fn lemma_u32_le_bytes(b: Seq<u8>, at: int)
    requires
        0 <= at,
        at + 4 <= b.len(),
    ensures
        u32_le_bytes(le_u32(b, at)) == b.subrange(at, at + 4),
{
    reveal(le_u32);
    reveal(u32_le_bytes);
    let x = le_u32(b, at);
    let (b0, b1, b2, b3) = (b[at] as int, b[at + 1] as int, b[at + 2] as int, b[at + 3] as int);
    let hi = b1 + 256 * b2 + 65536 * b3;
    assert(x == b0 + 256 * hi);
    assert(x % 256 == b0);
    assert(x / 256 == hi);
    let hi2 = b2 + 256 * b3;
    assert(hi == b1 + 256 * hi2);
    assert(hi % 256 == b1);
    assert(hi / 256 == hi2);
    assert(x / 65536 == hi2);
    assert(hi2 % 256 == b2);
    assert(hi2 / 256 == b3);
    assert(x / 16777216 == b3);
    assert(u32_le_bytes(x) =~= b.subrange(at, at + 4));
}

/// Where the bytes of `x` stand at `at` in `b`, reading there gives `x`.
pub proof fn lemma_le_u32_reads(b: Seq<u8>, at: int, x: u32)
    requires
        0 <= at,
        at + 4 <= b.len(),
        b.subrange(at, at + 4) == u32_le_bytes(x),
    ensures
        le_u32(b, at) == x,
{
    reveal(le_u32);
    reveal(u32_le_bytes);
    let part = b.subrange(at, at + 4);
    assert(part[0] == b[at] && part[1] == b[at + 1] && part[2] == b[at + 2] && part[3] == b[at
        + 3]);
    let xi = x as int;
    let hi = xi / 256;
    assert(xi == xi % 256 + 256 * hi);
    let hi2 = hi / 256;
    assert(hi == hi % 256 + 256 * hi2);
    assert(hi2 == xi / 65536);
    assert(hi2 == hi2 % 256 + 256 * (hi2 / 256));
    assert(hi2 / 256 == xi / 16777216);
}

/// The signed and unsigned readings of a 32-bit pattern are inverse.
pub proof fn lemma_i32_bits_roundtrip(x: i32, u: u32)
    ensures
        bits_i32(i32_bits(x)) == x,
        i32_bits(bits_i32(u)) == u,
{
}

/// Reads a little-endian `u16` at `at`.
pub fn read_u16_le(b: &[u8], at: usize) -> (x: u16)
    requires
        at + 2 <= b@.len(),
    ensures
        x == le_u16(b@, at as int),
{
    proof {
        reveal(le_u16);
    }
    let lo: u16 = b[at] as u16;
    let hi: u16 = b[at + 1] as u16;
    lo + 256 * hi
}

/// Reads a little-endian `u32` at `at`.
pub fn read_u32_le(b: &[u8], at: usize) -> (x: u32)
    requires
        at + 4 <= b@.len(),
    ensures
        x == le_u32(b@, at as int),
{
    proof {
        reveal(le_u32);
    }
    let b0: u32 = b[at] as u32;
    let b1: u32 = b[at + 1] as u32;
    let b2: u32 = b[at + 2] as u32;
    let b3: u32 = b[at + 3] as u32;
    b0 + 256 * b1 + 65536 * b2 + 16777216 * b3
}

/// Appends the little-endian bytes of `x` to `out`.
pub fn push_u16_le(out: &mut Vec<u8>, x: u16)
    ensures
        final(out)@ == old(out)@ + u16_le_bytes(x),
        final(out)@.len() == old(out)@.len() + 2,
{
    proof {
        reveal(u16_le_bytes);
    }
    out.push((x % 256) as u8);
    out.push((x / 256) as u8);
    assert(out@ =~= old(out)@ + u16_le_bytes(x));
}

/// Appends the little-endian bytes of `x` to `out`.
pub fn push_u32_le(out: &mut Vec<u8>, x: u32)
    ensures
        final(out)@ == old(out)@ + u32_le_bytes(x),
        final(out)@.len() == old(out)@.len() + 4,
{
    proof {
        reveal(u32_le_bytes);
    }
    out.push((x % 256) as u8);
    out.push(((x / 256) % 256) as u8);
    out.push(((x / 65536) % 256) as u8);
    out.push((x / 16777216) as u8);
    assert(out@ =~= old(out)@ + u32_le_bytes(x));
}

/// Appends the bytes of `src` from `from` up to `to` to `out`.
pub fn push_bytes(out: &mut Vec<u8>, src: &[u8], from: usize, to: usize)
    requires
        from <= to <= src@.len(),
    ensures
        final(out)@ == old(out)@ + src@.subrange(from as int, to as int),
{
    let mut i: usize = from;
    while i < to
        invariant
            from <= i <= to <= src@.len(),
            out@ == old(out)@ + src@.subrange(from as int, i as int),
        decreases to - i,
    {
        out.push(src[i]);
        i += 1;
        assert(out@ =~= old(out)@ + src@.subrange(from as int, i as int));
    }
}

/// Appends `count` zero bytes to `out`.
pub fn push_zeros(out: &mut Vec<u8>, count: usize)
    ensures
        final(out)@ == old(out)@ + Seq::new(count as nat, |i: int| 0u8),
{
    let mut i: usize = 0;
    while i < count
        invariant
            i <= count,
            out@ == old(out)@ + Seq::new(i as nat, |j: int| 0u8),
        decreases count - i,
    {
        out.push(0u8);
        i += 1;
        assert(out@ =~= old(out)@ + Seq::new(i as nat, |j: int| 0u8));
    }
}

/// The two's complement pattern of `x`.
pub fn i32_to_bits(x: i32) -> (u: u32)
    ensures
        u == i32_bits(x),
{
    if x >= 0 {
        x as u32
    } else {
        (x as i64 + 0x1_0000_0000) as u32
    }
}

/// The signed value of the pattern `u`.
pub fn bits_to_i32(u: u32) -> (x: i32)
    ensures
        x == bits_i32(u),
{
    if u < 0x8000_0000 {
        u as i32
    } else {
        (u as i64 - 0x1_0000_0000) as i32
    }
}

} // verus!
