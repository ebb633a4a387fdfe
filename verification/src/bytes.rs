//! Big-endian integers as byte sequences.

use vstd::prelude::*;

verus! {

/// The four bytes of `v`, most significant first.
pub open spec fn u32_be(v: u32) -> Seq<u8> {
    seq![
        (v / 0x100_0000) as u8,
        (v / 0x1_0000 % 0x100) as u8,
        (v / 0x100 % 0x100) as u8,
        (v % 0x100) as u8,
    ]
}

/// The number whose big-endian bytes are the first four of `b`.
pub open spec fn u32_from_be(b: Seq<u8>) -> u32 {
    (b[0] as int * 0x100_0000 + b[1] as int * 0x1_0000 + b[2] as int * 0x100 + b[3] as int) as u32
}

/// The eight bytes of `v`, most significant first.
pub open spec fn u64_be(v: u64) -> Seq<u8> {
    u32_be((v / 0x1_0000_0000) as u32) + u32_be((v % 0x1_0000_0000) as u32)
}

/// The number whose big-endian bytes are the first eight of `b`.
pub open spec fn u64_from_be(b: Seq<u8>) -> u64 {
    (u32_from_be(b.subrange(0, 4)) as int * 0x1_0000_0000 + u32_from_be(b.subrange(4, 8)) as int) as u64
}

/// The two's complement bit pattern of `t`, read as an unsigned number.
pub open spec fn i64_bits(t: i64) -> u64 {
    if t >= 0 {
        t as u64
    } else {
        (t as int + 0x1_0000_0000_0000_0000) as u64
    }
}

/// The signed number whose two's complement bit pattern is `u`.
pub open spec fn i64_from_bits(u: u64) -> i64 {
    if u < 0x8000_0000_0000_0000 {
        u as i64
    } else {
        (u as int - 0x1_0000_0000_0000_0000) as i64
    }
}

/// The digits of a number written to the base 256 are read off it by division.
proof fn lemma_digits(b0: int, b1: int, b2: int, b3: int)
    requires
        0 <= b0 < 0x100,
        0 <= b1 < 0x100,
        0 <= b2 < 0x100,
        0 <= b3 < 0x100,
    ensures
        ({
            let v = b0 * 0x100_0000 + b1 * 0x1_0000 + b2 * 0x100 + b3;
            &&& 0 <= v <= 0xffff_ffff
            &&& v / 0x100_0000 == b0
            &&& v / 0x1_0000 % 0x100 == b1
            &&& v / 0x100 % 0x100 == b2
            &&& v % 0x100 == b3
        }),
{
    let v = b0 * 0x100_0000 + b1 * 0x1_0000 + b2 * 0x100 + b3;
    let upper = b0 * 0x100 + b1;
    let middle = upper * 0x100 + b2;
    assert(v == middle * 0x100 + b3);
    assert(v / 0x100 == middle && v % 0x100 == b3);
    assert(middle / 0x100 == upper && middle % 0x100 == b2);
    assert(v == upper * 0x1_0000 + (b2 * 0x100 + b3));
    assert(v / 0x1_0000 == upper);
    assert(upper / 0x100 == b0 && upper % 0x100 == b1);
    assert(v == b0 * 0x100_0000 + (b1 * 0x1_0000 + b2 * 0x100 + b3));
    assert(v / 0x100_0000 == b0);
}

/// Reading back the bytes of a `u32` gives the number.
pub proof fn lemma_u32_be_round_trip(v: u32)
    ensures
        u32_be(v).len() == 4,
        u32_from_be(u32_be(v)) == v,
{
    let b0 = v as int / 0x100_0000;
    let b1 = v as int / 0x1_0000 % 0x100;
    let b2 = v as int / 0x100 % 0x100;
    let b3 = v as int % 0x100;
    let upper = v as int / 0x1_0000;
    let middle = v as int / 0x100;
    assert(v as int == middle * 0x100 + b3);
    assert(middle == upper * 0x100 + b2);
    assert(upper == b0 * 0x100 + b1);
    assert(v as int == b0 * 0x100_0000 + b1 * 0x1_0000 + b2 * 0x100 + b3);
    assert(u32_be(v)[0] == b0 as u8);
    assert(u32_be(v)[1] == b1 as u8);
    assert(u32_be(v)[2] == b2 as u8);
    assert(u32_be(v)[3] == b3 as u8);
}

/// Writing the number read from four bytes gives the bytes.
pub proof fn lemma_u32_from_be_round_trip(b: Seq<u8>)
    requires
        b.len() == 4,
    ensures
        u32_be(u32_from_be(b)) == b,
{
    lemma_digits(b[0] as int, b[1] as int, b[2] as int, b[3] as int);
    let v = u32_from_be(b);
    assert(v as int == b[0] as int * 0x100_0000 + b[1] as int * 0x1_0000 + b[2] as int * 0x100
        + b[3] as int);
    assert(u32_be(v)[0] == b[0]);
    assert(u32_be(v)[1] == b[1]);
    assert(u32_be(v)[2] == b[2]);
    assert(u32_be(v)[3] == b[3]);
    assert(u32_be(v) =~= b);
}

/// Reading back the bytes of a `u64` gives the number.
pub proof fn lemma_u64_be_round_trip(v: u64)
    ensures
        u64_be(v).len() == 8,
        u64_from_be(u64_be(v)) == v,
{
    let hi: u32 = (v / 0x1_0000_0000) as u32;
    let lo: u32 = (v % 0x1_0000_0000) as u32;
    lemma_u32_be_round_trip(hi);
    lemma_u32_be_round_trip(lo);
    assert(u64_be(v).subrange(0, 4) =~= u32_be(hi));
    assert(u64_be(v).subrange(4, 8) =~= u32_be(lo));
}

/// Writing the number read from eight bytes gives the bytes.
pub proof fn lemma_u64_from_be_round_trip(b: Seq<u8>)
    requires
        b.len() == 8,
    ensures
        u64_be(u64_from_be(b)) == b,
{
    let hi: u32 = u32_from_be(b.subrange(0, 4));
    let lo: u32 = u32_from_be(b.subrange(4, 8));
    lemma_u32_from_be_round_trip(b.subrange(0, 4));
    lemma_u32_from_be_round_trip(b.subrange(4, 8));
    let v: u64 = u64_from_be(b);
    assert(v / 0x1_0000_0000 == hi);
    assert(v % 0x1_0000_0000 == lo);
    assert(u64_be(v) =~= b.subrange(0, 4) + b.subrange(4, 8));
    assert(b.subrange(0, 4) + b.subrange(4, 8) =~= b);
}

/// The bit pattern of a signed number and the number of a bit pattern are
/// inverse to each other.
pub proof fn lemma_i64_bits_round_trip(t: i64, u: u64)
    ensures
        i64_from_bits(i64_bits(t)) == t,
        i64_bits(i64_from_bits(u)) == u,
{
}

/// Appends the big-endian bytes of `v` to `out`.
pub fn push_u32_be(out: &mut Vec<u8>, v: u32)
    ensures
        final(out)@ == old(out)@ + u32_be(v),
{
    out.push((v / 0x100_0000) as u8);
    out.push((v / 0x1_0000 % 0x100) as u8);
    out.push((v / 0x100 % 0x100) as u8);
    out.push((v % 0x100) as u8);
    assert(out@ =~= old(out)@ + u32_be(v));
}

/// Appends the big-endian bytes of `v` to `out`.
pub fn push_u64_be(out: &mut Vec<u8>, v: u64)
    ensures
        final(out)@ == old(out)@ + u64_be(v),
{
    push_u32_be(out, (v / 0x1_0000_0000) as u32);
    push_u32_be(out, (v % 0x1_0000_0000) as u32);
    assert(out@ =~= old(out)@ + u64_be(v));
}

/// Reads the big-endian `u32` that starts at index `at` of `b`.
pub fn read_u32_be(b: &[u8], at: usize) -> (v: u32)
    requires
        at + 4 <= b.len(),
    ensures
        v == u32_from_be(b@.subrange(at as int, at + 4)),
{
    let b0: u32 = b[at] as u32;
    let b1: u32 = b[at + 1] as u32;
    let b2: u32 = b[at + 2] as u32;
    let b3: u32 = b[at + 3] as u32;
    b0 * 0x100_0000 + b1 * 0x1_0000 + b2 * 0x100 + b3
}

/// Reads the big-endian `u64` that starts at index `at` of `b`.
pub fn read_u64_be(b: &[u8], at: usize) -> (v: u64)
    requires
        at + 8 <= b.len(),
    ensures
        v == u64_from_be(b@.subrange(at as int, at + 8)),
{
    let hi: u64 = read_u32_be(b, at) as u64;
    let lo: u64 = read_u32_be(b, at + 4) as u64;
    proof {
        let s = b@.subrange(at as int, at + 8);
        assert(s.subrange(0, 4) =~= b@.subrange(at as int, at + 4));
        assert(s.subrange(4, 8) =~= b@.subrange(at + 4, at + 8));
    }
    hi * 0x1_0000_0000 + lo
}

/// The two's complement bit pattern of `t`.
pub fn bits_of_i64(t: i64) -> (u: u64)
    ensures
        u == i64_bits(t),
{
    if t >= 0 {
        t as u64
    } else {
        let shifted: i64 = t + i64::MAX + 1;
        shifted as u64 + 0x8000_0000_0000_0000
    }
}

/// The signed number with the two's complement bit pattern `u`.
pub fn i64_of_bits(u: u64) -> (t: i64)
    ensures
        t == i64_from_bits(u),
{
    if u < 0x8000_0000_0000_0000 {
        u as i64
    } else {
        let low: u64 = u - 0x8000_0000_0000_0000;
        low as i64 + i64::MIN
    }
}

} // verus!
