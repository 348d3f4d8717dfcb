//! Little-endian integers, as the frames carry them.

use vstd::prelude::*;

verus! {

/// The four bytes of `x`, least significant first.
#[verifier::opaque]
pub open spec fn u32_le(x: u32) -> Seq<u8> {
    seq![
        (x % 0x100) as u8,
        (x / 0x100 % 0x100) as u8,
        (x / 0x1_0000 % 0x100) as u8,
        (x / 0x100_0000) as u8,
    ]
}

/// The number whose four bytes, least significant first, are `b[0]` to `b[3]`.
#[verifier::opaque]
pub open spec fn u32_from_le(b: Seq<u8>) -> u32
    recommends
        b.len() == 4,
{
    (b[0] + 0x100 * b[1] + 0x1_0000 * b[2] + 0x100_0000 * b[3]) as u32
}

/// The 64-bit pattern that stands for `x` in two's complement.
pub open spec fn twos_complement(x: i64) -> u64 {
    if x >= 0 {
        x as u64
    } else {
        (x + 0x1_0000_0000_0000_0000) as u64
    }
}

/// The signed number for which the pattern `u` stands in two's complement.
pub open spec fn from_twos_complement(u: u64) -> i64 {
    if u < 0x8000_0000_0000_0000 {
        u as i64
    } else {
        (u - 0x1_0000_0000_0000_0000) as i64
    }
}

/// The eight bytes of `x` in two's complement, least significant first.
pub open spec fn i64_le(x: i64) -> Seq<u8> {
    let u = twos_complement(x);
    u32_le((u % 0x1_0000_0000) as u32) + u32_le((u / 0x1_0000_0000) as u32)
}

/// The signed number whose eight bytes in two's complement, least significant first, are
/// `b[0]` to `b[7]`.
pub open spec fn i64_from_le(b: Seq<u8>) -> i64
    recommends
        b.len() == 8,
{
    from_twos_complement(
        (u32_from_le(b.subrange(0, 4)) + 0x1_0000_0000 * u32_from_le(b.subrange(4, 8))) as u64,
    )
}

/// Reading back the bytes of a number gives the number.
pub proof fn lemma_u32_le_value(x: u32)
    ensures
        u32_le(x).len() == 4,
        u32_from_le(u32_le(x)) == x,
{
    reveal(u32_le);
    reveal(u32_from_le);
}

/// Writing out the number that four bytes stand for gives those bytes.
pub proof fn lemma_u32_le_bytes(b: Seq<u8>)
    requires
        b.len() == 4,
    ensures
        u32_le(u32_from_le(b)) == b,
{
    reveal(u32_le);
    reveal(u32_from_le);
    let x = u32_from_le(b);
    let upper = b[1] + 0x100 * b[2] + 0x1_0000 * b[3];
    let top = b[2] + 0x100 * b[3];
    assert(x == b[0] + 0x100 * upper);
    assert(x % 0x100 == b[0] && x / 0x100 == upper);
    assert(upper == b[1] + 0x100 * top);
    assert(upper % 0x100 == b[1] && upper / 0x100 == top);
    assert(x / 0x1_0000 == top) by {
        assert(x / 0x1_0000 == (x / 0x100) / 0x100);
    }
    assert(top % 0x100 == b[2] && top / 0x100 == b[3]);
    assert(x / 0x100_0000 == b[3]) by {
        assert(x / 0x100_0000 == (x / 0x1_0000) / 0x100);
    }
    assert(u32_le(x) =~= b);
}

/// Two's complement loses nothing, either way.
pub proof fn lemma_twos_complement(x: i64, u: u64)
    ensures
        from_twos_complement(twos_complement(x)) == x,
        twos_complement(from_twos_complement(u)) == u,
{
}

/// Reading back the bytes of a signed number gives the number.
pub proof fn lemma_i64_le_value(x: i64)
    ensures
        i64_le(x).len() == 8,
        i64_from_le(i64_le(x)) == x,
{
    let u = twos_complement(x);
    let lo = (u % 0x1_0000_0000) as u32;
    let hi = (u / 0x1_0000_0000) as u32;
    lemma_u32_le_value(lo);
    lemma_u32_le_value(hi);
    assert(i64_le(x).subrange(0, 4) =~= u32_le(lo));
    assert(i64_le(x).subrange(4, 8) =~= u32_le(hi));
}

/// Writing out the signed number that eight bytes stand for gives those bytes.
pub proof fn lemma_i64_le_bytes(b: Seq<u8>)
    requires
        b.len() == 8,
    ensures
        i64_le(i64_from_le(b)) == b,
{
    let lo = u32_from_le(b.subrange(0, 4));
    let hi = u32_from_le(b.subrange(4, 8));
    let u = (lo + 0x1_0000_0000 * hi) as u64;
    lemma_twos_complement(0, u);
    lemma_u32_le_bytes(b.subrange(0, 4));
    lemma_u32_le_bytes(b.subrange(4, 8));
    assert(u % 0x1_0000_0000 == lo && u / 0x1_0000_0000 == hi);
    assert(i64_le(i64_from_le(b)) =~= b.subrange(0, 4) + b.subrange(4, 8));
    assert(b.subrange(0, 4) + b.subrange(4, 8) =~= b);
}

/// Computes the four bytes of `x`, least significant first.
pub fn u32_to_le_bytes(x: u32) -> (b: [u8; 4])
    ensures
        b@ == u32_le(x),
{
    let b = [
        (x % 0x100) as u8,
        (x / 0x100 % 0x100) as u8,
        (x / 0x1_0000 % 0x100) as u8,
        (x / 0x100_0000) as u8,
    ];
    proof {
        reveal(u32_le);
    }
    assert(b@ =~= u32_le(x));
    b
}

/// Computes the number that the four bytes of `bytes` from `at` on stand for.
pub fn u32_from_le_bytes(bytes: &[u8], at: usize) -> (x: u32)
    requires
        at + 4 <= bytes@.len(),
    ensures
        x == u32_from_le(bytes@.subrange(at as int, at + 4)),
{
    let b0: u32 = bytes[at] as u32;
    let b1: u32 = bytes[at + 1] as u32;
    let b2: u32 = bytes[at + 2] as u32;
    let b3: u32 = bytes[at + 3] as u32;
    proof {
        reveal(u32_from_le);
    }
    b0 + 0x100 * b1 + 0x1_0000 * b2 + 0x100_0000 * b3
}

/// Computes the eight bytes of `x` in two's complement, least significant first.
pub fn i64_to_le_bytes(x: i64) -> (b: [u8; 8])
    ensures
        b@ == i64_le(x),
{
    let u: u64 = if x >= 0 {
        x as u64
    } else {
        (x - i64::MIN) as u64 + 0x8000_0000_0000_0000
    };
    let lo = u32_to_le_bytes((u % 0x1_0000_0000) as u32);
    let hi = u32_to_le_bytes((u / 0x1_0000_0000) as u32);
    let b = [lo[0], lo[1], lo[2], lo[3], hi[0], hi[1], hi[2], hi[3]];
    assert(b@ =~= i64_le(x));
    b
}

/// Computes the signed number that the eight bytes of `bytes` from `at` on stand for in two's
/// complement.
pub fn i64_from_le_bytes(bytes: &[u8], at: usize) -> (x: i64)
    requires
        at + 8 <= bytes@.len(),
    ensures
        x == i64_from_le(bytes@.subrange(at as int, at + 8)),
{
    let len = bytes.len();
    let lo: u64 = u32_from_le_bytes(bytes, at) as u64;
    let hi: u64 = u32_from_le_bytes(bytes, at + 4) as u64;
    proof {
        let b = bytes@.subrange(at as int, at + 8);
        assert(b.subrange(0, 4) =~= bytes@.subrange(at as int, at + 4));
        assert(b.subrange(4, 8) =~= bytes@.subrange(at + 4, at + 8));
    }
    let u: u64 = lo + 0x1_0000_0000 * hi;
    if u < 0x8000_0000_0000_0000 {
        u as i64
    } else {
        (u - 0x8000_0000_0000_0000) as i64 + i64::MIN
    }
}

} // verus!
