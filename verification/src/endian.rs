//! Big-endian encoding of the fixed-width integers of the binary format.

use vstd::prelude::*;

verus! {

/// The four bytes of `x`, most significant first.
pub open spec fn u32_be(x: u32) -> Seq<u8> {
    seq![
        ((x >> 24) & 0xff) as u8,
        ((x >> 16) & 0xff) as u8,
        ((x >> 8) & 0xff) as u8,
        (x & 0xff) as u8,
    ]
}

/// The number whose big-endian bytes are the first four of `b`.
pub open spec fn be_u32(b: Seq<u8>) -> u32 {
    (b[0] as u32) << 24 | (b[1] as u32) << 16 | (b[2] as u32) << 8 | (b[3] as u32)
}

/// The eight bytes of `x`, most significant first.
pub open spec fn u64_be(x: u64) -> Seq<u8> {
    seq![
        ((x >> 56) & 0xff) as u8,
        ((x >> 48) & 0xff) as u8,
        ((x >> 40) & 0xff) as u8,
        ((x >> 32) & 0xff) as u8,
        ((x >> 24) & 0xff) as u8,
        ((x >> 16) & 0xff) as u8,
        ((x >> 8) & 0xff) as u8,
        (x & 0xff) as u8,
    ]
}

/// The number whose big-endian bytes are the first eight of `b`.
pub open spec fn be_u64(b: Seq<u8>) -> u64 {
    (b[0] as u64) << 56 | (b[1] as u64) << 48 | (b[2] as u64) << 40 | (b[3] as u64) << 32 | (
    b[4] as u64) << 24 | (b[5] as u64) << 16 | (b[6] as u64) << 8 | (b[7] as u64)
}

/// The eight bytes of the two's complement form of `x`, most significant
/// first.
pub open spec fn i64_be(x: i64) -> Seq<u8> {
    u64_be(x as u64)
}

/// The signed number whose two's complement big-endian bytes are the first
/// eight of `b`.
pub open spec fn be_i64(b: Seq<u8>) -> i64 {
    be_u64(b) as i64
}

/// Decoding the bytes of a `u32` gives the number back.
pub proof fn lemma_u32_be_roundtrip(x: u32)
    ensures
        u32_be(x).len() == 4,
        be_u32(u32_be(x)) == x,
{
    assert((((x >> 24) & 0xff) as u8 as u32) << 24 | (((x >> 16) & 0xff) as u8 as u32) << 16 | (((x
        >> 8) & 0xff) as u8 as u32) << 8 | ((x & 0xff) as u8 as u32) == x) by (bit_vector);
}

/// Decoding the bytes of a `u64` gives the number back.
pub proof fn lemma_u64_be_roundtrip(x: u64)
    ensures
        u64_be(x).len() == 8,
        be_u64(u64_be(x)) == x,
{
    assert((((x >> 56) & 0xff) as u8 as u64) << 56 | (((x >> 48) & 0xff) as u8 as u64) << 48 | (((x
        >> 40) & 0xff) as u8 as u64) << 40 | (((x >> 32) & 0xff) as u8 as u64) << 32 | (((x >> 24)
        & 0xff) as u8 as u64) << 24 | (((x >> 16) & 0xff) as u8 as u64) << 16 | (((x >> 8) & 0xff) as u8 as u64)
        << 8 | ((x & 0xff) as u8 as u64) == x) by (bit_vector);
}

/// Decoding the bytes of an `i64` gives the number back.
pub proof fn lemma_i64_be_roundtrip(x: i64)
    ensures
        i64_be(x).len() == 8,
        be_i64(i64_be(x)) == x,
{
    lemma_u64_be_roundtrip(x as u64);
    assert((x as u64) as i64 == x) by (bit_vector);
}

/// Appends the big-endian bytes of `x` to `out`.
pub fn push_u32_be(out: &mut Vec<u8>, x: u32)
    ensures
        final(out)@ == old(out)@ + u32_be(x),
{
    out.push(((x >> 24) & 0xff) as u8);
    out.push(((x >> 16) & 0xff) as u8);
    out.push(((x >> 8) & 0xff) as u8);
    out.push((x & 0xff) as u8);
    proof {
        assert(final(out)@ =~= old(out)@ + u32_be(x));
    }
}

/// Appends the big-endian bytes of `x` to `out`.
pub fn push_u64_be(out: &mut Vec<u8>, x: u64)
    ensures
        final(out)@ == old(out)@ + u64_be(x),
{
    out.push(((x >> 56) & 0xff) as u8);
    out.push(((x >> 48) & 0xff) as u8);
    out.push(((x >> 40) & 0xff) as u8);
    out.push(((x >> 32) & 0xff) as u8);
    out.push(((x >> 24) & 0xff) as u8);
    out.push(((x >> 16) & 0xff) as u8);
    out.push(((x >> 8) & 0xff) as u8);
    out.push((x & 0xff) as u8);
    proof {
        assert(final(out)@ =~= old(out)@ + u64_be(x));
    }
}

/// Appends the big-endian two's complement bytes of `x` to `out`.
pub fn push_i64_be(out: &mut Vec<u8>, x: i64)
    ensures
        final(out)@ == old(out)@ + i64_be(x),
{
    push_u64_be(out, x as u64);
}

/// The `u32` stored big-endian in `data[at..at + 4]`.
pub fn u32_from_be(data: &[u8], at: usize) -> (x: u32)
    requires
        at + 4 <= data.len(),
    ensures
        x == be_u32(data@.subrange(at as int, at + 4)),
{
    (data[at] as u32) << 24 | (data[at + 1] as u32) << 16 | (data[at + 2] as u32) << 8 | (data[at
        + 3] as u32)
}

/// The `u64` stored big-endian in `data[at..at + 8]`.
pub fn u64_from_be(data: &[u8], at: usize) -> (x: u64)
    requires
        at + 8 <= data.len(),
    ensures
        x == be_u64(data@.subrange(at as int, at + 8)),
{
    (data[at] as u64) << 56 | (data[at + 1] as u64) << 48 | (data[at + 2] as u64) << 40 | (data[at
        + 3] as u64) << 32 | (data[at + 4] as u64) << 24 | (data[at + 5] as u64) << 16 | (data[at
        + 6] as u64) << 8 | (data[at + 7] as u64)
}

/// The `i64` stored big-endian, in two's complement, in `data[at..at + 8]`.
pub fn i64_from_be(data: &[u8], at: usize) -> (x: i64)
    requires
        at + 8 <= data.len(),
    ensures
        x == be_i64(data@.subrange(at as int, at + 8)),
{
    u64_from_be(data, at) as i64
}

} // verus!
