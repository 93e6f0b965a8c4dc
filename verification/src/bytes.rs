//! Fixed-width encodings of integers: big-endian in keys, so that keys sort
//! as the numbers do, and little-endian for counters, as the backends add.

use vstd::prelude::*;

verus! {

/// Number of bytes of an encoded `u32`.
pub const U32_LEN: usize = 4;

/// Number of bytes of an encoded `u64` or `i64`.
pub const U64_LEN: usize = 8;

/// Big-endian image of a `u32`: four bytes, most significant first.
pub open spec fn be32(x: u32) -> Seq<u8> {
    seq![
        (x / 0x100 / 0x100 / 0x100) as u8,
        (x / 0x100 / 0x100 % 0x100) as u8,
        (x / 0x100 % 0x100) as u8,
        (x % 0x100) as u8,
    ]
}

/// The number that four bytes denote when read most significant first.
pub open spec fn be32_value(s: Seq<u8>) -> int {
    ((s[0] * 0x100 + s[1]) * 0x100 + s[2]) * 0x100 + s[3]
}

/// Big-endian image of a `u64`: eight bytes, most significant first.
pub open spec fn be64(x: u64) -> Seq<u8> {
    seq![
        (x / 0x100 / 0x100 / 0x100 / 0x100 / 0x100 / 0x100 / 0x100) as u8,
        (x / 0x100 / 0x100 / 0x100 / 0x100 / 0x100 / 0x100 % 0x100) as u8,
        (x / 0x100 / 0x100 / 0x100 / 0x100 / 0x100 % 0x100) as u8,
        (x / 0x100 / 0x100 / 0x100 / 0x100 % 0x100) as u8,
        (x / 0x100 / 0x100 / 0x100 % 0x100) as u8,
        (x / 0x100 / 0x100 % 0x100) as u8,
        (x / 0x100 % 0x100) as u8,
        (x % 0x100) as u8,
    ]
}

/// Little-endian image of a `u64`: eight bytes, least significant first.
pub open spec fn le64(x: u64) -> Seq<u8> {
    seq![
        (x % 0x100) as u8,
        (x / 0x100 % 0x100) as u8,
        (x / 0x100 / 0x100 % 0x100) as u8,
        (x / 0x100 / 0x100 / 0x100 % 0x100) as u8,
        (x / 0x100 / 0x100 / 0x100 / 0x100 % 0x100) as u8,
        (x / 0x100 / 0x100 / 0x100 / 0x100 / 0x100 % 0x100) as u8,
        (x / 0x100 / 0x100 / 0x100 / 0x100 / 0x100 / 0x100 % 0x100) as u8,
        (x / 0x100 / 0x100 / 0x100 / 0x100 / 0x100 / 0x100 / 0x100) as u8,
    ]
}

/// The number that eight bytes denote when read least significant first.
pub open spec fn le64_value(s: Seq<u8>) -> int {
    s[0] + 0x100 * (s[1] + 0x100 * (s[2] + 0x100 * (s[3] + 0x100 * (s[4] + 0x100 * (s[5] + 0x100
        * (s[6] + 0x100 * s[7]))))))
}

/// Two's complement image of a signed 64-bit integer.
pub open spec fn unsigned64(n: i64) -> u64 {
    if n >= 0 {
        n as u64
    } else {
        (n + 0x1_0000_0000_0000_0000) as u64
    }
}

/// The signed integer whose two's complement image is `u`.
pub open spec fn signed64(u: u64) -> i64 {
    if u < 0x8000_0000_0000_0000 {
        u as i64
    } else {
        (u - 0x1_0000_0000_0000_0000) as i64
    }
}

/// Sum of two signed 64-bit integers, reduced to 64 bits in two's complement.
pub open spec fn wrapping_sum(a: i64, b: i64) -> i64 {
    if a + b > i64::MAX {
        (a + b - 0x1_0000_0000_0000_0000) as i64
    } else if a + b < i64::MIN {
        (a + b + 0x1_0000_0000_0000_0000) as i64
    } else {
        (a + b) as i64
    }
}

/// Little-endian two's complement image of an `i64`, as counters are stored.
pub open spec fn le_i64(n: i64) -> Seq<u8> {
    le64(unsigned64(n))
}

/// Big-endian two's complement image of an `i64`.
pub open spec fn be_i64(n: i64) -> Seq<u8> {
    be64(unsigned64(n))
}

/// The signed integer that eight little-endian bytes denote.
pub open spec fn le_i64_value(s: Seq<u8>) -> i64 {
    signed64(le64_value(s) as u64)
}

/// Reading the big-endian image of a `u32` gives the number back.
pub proof fn lemma_be32_round_trip(x: u32)
    ensures
        be32(x).len() == 4,
        be32_value(be32(x)) == x,
{
}

/// Reading the little-endian image of an `i64` gives the number back.
pub proof fn lemma_le_i64_round_trip(n: i64)
    ensures
        signed64(unsigned64(n)) == n,
        le_i64(n).len() == 8,
        le64_value(le_i64(n)) == unsigned64(n),
        le_i64_value(le_i64(n)) == n,
{
}

/// Eight bytes read least significant first denote a number below 2^64, and
/// encoding that number gives the same eight bytes back.
pub proof fn lemma_le64_of_bytes(s: Seq<u8>)
    requires
        s.len() == 8,
    ensures
        0 <= le64_value(s) <= u64::MAX,
        le64(le64_value(s) as u64) == s,
{
    let v6: int = s[6] + 0x100 * s[7];
    let v5: int = s[5] + 0x100 * v6;
    let v4: int = s[4] + 0x100 * v5;
    let v3: int = s[3] + 0x100 * v4;
    let v2: int = s[2] + 0x100 * v3;
    let v1: int = s[1] + 0x100 * v2;
    let v0: int = s[0] + 0x100 * v1;
    assert(v6 / 0x100 == s[7] && v6 % 0x100 == s[6]);
    assert(v5 / 0x100 == v6 && v5 % 0x100 == s[5]);
    assert(v4 / 0x100 == v5 && v4 % 0x100 == s[4]);
    assert(v3 / 0x100 == v4 && v3 % 0x100 == s[3]);
    assert(v2 / 0x100 == v3 && v2 % 0x100 == s[2]);
    assert(v1 / 0x100 == v2 && v1 % 0x100 == s[1]);
    assert(v0 / 0x100 == v1 && v0 % 0x100 == s[0]);
    assert(v0 == le64_value(s));
    assert(le64(le64_value(s) as u64) =~= s);
}

/// Four bytes read most significant first denote a number below 2^32, and
/// encoding that number gives the same four bytes back.
pub proof fn lemma_be32_of_bytes(s: Seq<u8>)
    requires
        s.len() == 4,
    ensures
        0 <= be32_value(s) <= u32::MAX,
        be32(be32_value(s) as u32) == s,
{
    assert(be32(be32_value(s) as u32) =~= s);
}

/// Appends the big-endian image of `x`.
pub fn push_be32(out: &mut Vec<u8>, x: u32)
    ensures
        final(out)@ == old(out)@ + be32(x),
{
    out.push((x / 0x100 / 0x100 / 0x100) as u8);
    out.push((x / 0x100 / 0x100 % 0x100) as u8);
    out.push((x / 0x100 % 0x100) as u8);
    out.push((x % 0x100) as u8);
    assert(out@ =~= old(out)@ + be32(x));
}

/// Appends the big-endian image of `x`.
pub fn push_be64(out: &mut Vec<u8>, x: u64)
    ensures
        final(out)@ == old(out)@ + be64(x),
{
    out.push((x / 0x100 / 0x100 / 0x100 / 0x100 / 0x100 / 0x100 / 0x100) as u8);
    out.push((x / 0x100 / 0x100 / 0x100 / 0x100 / 0x100 / 0x100 % 0x100) as u8);
    out.push((x / 0x100 / 0x100 / 0x100 / 0x100 / 0x100 % 0x100) as u8);
    out.push((x / 0x100 / 0x100 / 0x100 / 0x100 % 0x100) as u8);
    out.push((x / 0x100 / 0x100 / 0x100 % 0x100) as u8);
    out.push((x / 0x100 / 0x100 % 0x100) as u8);
    out.push((x / 0x100 % 0x100) as u8);
    out.push((x % 0x100) as u8);
    assert(out@ =~= old(out)@ + be64(x));
}

/// Two's complement image of `n`.
pub fn to_unsigned64(n: i64) -> (u: u64)
    ensures
        u == unsigned64(n),
{
    if n >= 0 {
        n as u64
    } else {
        let lifted: i64 = n + 1 + i64::MAX;
        lifted as u64 + 0x8000_0000_0000_0000
    }
}

/// The signed integer whose two's complement image is `u`.
pub fn to_signed64(u: u64) -> (n: i64)
    ensures
        n == signed64(u),
{
    if u < 0x8000_0000_0000_0000 {
        u as i64
    } else {
        let low: u64 = u - 0x8000_0000_0000_0000;
        low as i64 - 1 - i64::MAX
    }
}

/// The little-endian image of `n`, as counters are stored.
pub fn serialize_i64_le(n: i64) -> (out: Vec<u8>)
    ensures
        out@ == le_i64(n),
{
    let x = to_unsigned64(n);
    let mut out: Vec<u8> = Vec::with_capacity(U64_LEN);
    out.push((x % 0x100) as u8);
    out.push((x / 0x100 % 0x100) as u8);
    out.push((x / 0x100 / 0x100 % 0x100) as u8);
    out.push((x / 0x100 / 0x100 / 0x100 % 0x100) as u8);
    out.push((x / 0x100 / 0x100 / 0x100 / 0x100 % 0x100) as u8);
    out.push((x / 0x100 / 0x100 / 0x100 / 0x100 / 0x100 % 0x100) as u8);
    out.push((x / 0x100 / 0x100 / 0x100 / 0x100 / 0x100 / 0x100 % 0x100) as u8);
    out.push((x / 0x100 / 0x100 / 0x100 / 0x100 / 0x100 / 0x100 / 0x100) as u8);
    assert(out@ =~= le_i64(n));
    out
}

/// The big-endian image of `n`.
pub fn serialize_i64_be(n: i64) -> (out: Vec<u8>)
    ensures
        out@ == be_i64(n),
{
    let mut out: Vec<u8> = Vec::with_capacity(U64_LEN);
    push_be64(&mut out, to_unsigned64(n));
    assert(out@ =~= be_i64(n));
    out
}

/// Reads a stored counter: exactly eight little-endian bytes.
pub fn deserialize_i64_le(bytes: &[u8]) -> (r: Option<i64>)
    ensures
        r == if bytes@.len() == 8 {
            Some(le_i64_value(bytes@))
        } else {
            None
        },
{
    if bytes.len() != U64_LEN {
        return None;
    }
    proof {
        lemma_le64_of_bytes(bytes@);
    }
    let b0: u64 = bytes[0] as u64;
    let b1: u64 = bytes[1] as u64;
    let b2: u64 = bytes[2] as u64;
    let b3: u64 = bytes[3] as u64;
    let b4: u64 = bytes[4] as u64;
    let b5: u64 = bytes[5] as u64;
    let b6: u64 = bytes[6] as u64;
    let b7: u64 = bytes[7] as u64;
    let x: u64 = b0 + 0x100 * (b1 + 0x100 * (b2 + 0x100 * (b3 + 0x100 * (b4 + 0x100 * (b5 + 0x100
        * (b6 + 0x100 * b7))))));
    Some(to_signed64(x))
}

/// Reads the four bytes that start at `at` as a big-endian `u32`.
pub fn deserialize_be_u32(bytes: &[u8], at: usize) -> (r: Option<u32>)
    ensures
        r == if at + 4 <= bytes@.len() {
            Some(be32_value(bytes@.subrange(at as int, at + 4)) as u32)
        } else {
            None
        },
{
    if bytes.len() < U32_LEN || at > bytes.len() - U32_LEN {
        return None;
    }
    proof {
        lemma_be32_of_bytes(bytes@.subrange(at as int, at + 4));
    }
    let b0: u32 = bytes[at] as u32;
    let b1: u32 = bytes[at + 1] as u32;
    let b2: u32 = bytes[at + 2] as u32;
    let b3: u32 = bytes[at + 3] as u32;
    Some(((b0 * 0x100 + b1) * 0x100 + b2) * 0x100 + b3)
}

} // verus!
