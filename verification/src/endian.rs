//! Byte-order arithmetic on header bytes.
//!
//! Words of the sparse encoding hold the bytes of the flow record in
//! little-endian order: byte `k` of a word sits in bits `8k .. 8k + 8`.
//! Header fields that are classified (EtherTypes) are read big-endian, as
//! they travel on the wire.

use vstd::prelude::*;
use byteorder::{BigEndian, ByteOrder, LittleEndian};

verus! {

/// The 16-bit value whose big-endian image is `hi, lo`.
pub open spec fn be16(hi: u8, lo: u8) -> u16 {
    (hi as int * 0x100 + lo as int) as u16
}

/// The 16-bit value whose little-endian image is `b0, b1`.
pub open spec fn le16(b0: u8, b1: u8) -> u16 {
    (b0 as int + b1 as int * 0x100) as u16
}

/// The 32-bit value whose little-endian image is `lo` followed by `hi`.
pub open spec fn le32_halves(lo: u16, hi: u16) -> u32 {
    (lo as int + hi as int * 0x1_0000) as u32
}

/// The 64-bit value whose little-endian image is `lo` followed by `hi`.
pub open spec fn le64_halves(lo: u32, hi: u32) -> u64 {
    (lo as int + hi as int * 0x1_0000_0000) as u64
}

/// The 32-bit value whose little-endian image is the four bytes of `s` that
/// start at `at`.
pub open spec fn le32_at(s: Seq<u8>, at: int) -> u32 {
    le32_halves(le16(s[at], s[at + 1]), le16(s[at + 2], s[at + 3]))
}

/// The 64-bit value whose little-endian image is the eight bytes of `s` that
/// start at `at`.
pub open spec fn le64_at(s: Seq<u8>, at: int) -> u64 {
    le64_halves(le32_at(s, at), le32_at(s, at + 4))
}

/// `x` with its two bytes exchanged.
pub open spec fn swap16(x: u16) -> u16 {
    ((x as int % 0x100) * 0x100 + x as int / 0x100) as u16
}

/// `x` with its four bytes in reverse order.
pub open spec fn swap32(x: u32) -> u32 {
    (swap16((x as int % 0x1_0000) as u16) as int * 0x1_0000
        + swap16((x as int / 0x1_0000) as u16) as int) as u32
}

/// `256` to the power `k`, for the byte positions of a 64-bit word.
pub open spec fn pow256(k: nat) -> int {
    if k == 0 {
        0x1
    } else if k == 1 {
        0x100
    } else if k == 2 {
        0x1_0000
    } else if k == 3 {
        0x100_0000
    } else if k == 4 {
        0x1_0000_0000
    } else if k == 5 {
        0x100_0000_0000
    } else if k == 6 {
        0x1_0000_0000_0000
    } else if k == 7 {
        0x100_0000_0000_0000
    } else {
        0x1_0000_0000_0000_0000
    }
}

/// The word `w` with its bytes `at .. at + n` replaced by the little-endian
/// image of `v`; the other bytes stay.
pub open spec fn splice(w: u64, at: nat, n: nat, v: int) -> u64
    recommends
        at + n <= 8,
        0 <= v < pow256(n),
{
    (w as int % pow256(at) + v * pow256(at) + (w as int / pow256(at + n)) * pow256(at + n)) as u64
}

/// The bytes of `w` below byte `k`, as a number.
pub open spec fn low_bytes(w: u64, k: nat) -> int {
    w as int % pow256(k)
}

/// Below the end of a field that was spliced in, a word holds what it held
/// below the field, and the field. A field that ends the word leaves
/// nothing above it.
pub proof fn lemma_splice_low(w: u64, at: nat, n: nat, v: int)
    requires
        n == 1 || n == 2 || n == 4,
        at % n == 0,
        at + n <= 8,
        0 <= v < pow256(n),
    ensures
        low_bytes(splice(w, at, n, v), at + n) == low_bytes(w, at) + v * pow256(at),
        low_bytes(splice(w, at, n, v), at) == low_bytes(w, at),
        at + n == 8 ==> splice(w, at, n, v) as int == low_bytes(w, at) + v * pow256(at),
{
    let x = splice(w, at, n, v);
    let p = pow256(at);
    let q = pow256(at + n);
    let lo = w as int % p;
    let hi = w as int / q;
    assert(v * p + lo < q && v * p >= 0) by {
        assert(q == p * pow256(n));
        assert(v * p <= (pow256(n) - 1) * p) by (nonlinear_arith)
            requires
                0 <= v <= pow256(n) - 1,
                p > 0,
        ;
        assert((pow256(n) - 1) * p == q - p) by (nonlinear_arith)
            requires
                q == p * pow256(n),
        ;
        assert(v * p >= 0) by (nonlinear_arith)
            requires
                v >= 0,
                p > 0,
        ;
    }
    assert(0 <= hi * q <= w as int) by (nonlinear_arith)
        requires
            hi == w as int / q,
            q > 0,
            w as int >= 0,
    ;
    let sum = lo + v * p + hi * q;
    assert(x as int == sum);
    assert(sum % q == lo + v * p && sum / q == hi) by (nonlinear_arith)
        requires
            sum == (lo + v * p) + hi * q,
            0 <= lo + v * p < q,
            q > 0,
    ;
    assert(sum % p == lo) by (nonlinear_arith)
        requires
            sum == lo + (v + hi * pow256(n)) * p,
            0 <= lo < p,
            p > 0,
    ;
    if at + n == 8 {
        assert(hi == 0);
    }
}

/// Two 32-bit fields spliced into the halves of a word make the word of
/// the two, whatever the word held.
pub proof fn lemma_splice_halves(w: u64, lo: u32, hi: u32)
    ensures
        splice(splice(w, 0, 4, lo as int), 4, 4, hi as int) == le64_halves(lo, hi),
{
    let x = splice(w, 0, 4, lo as int);
    lemma_splice_low(w, 0, 4, lo as int);
    lemma_splice_low(x, 4, 4, hi as int);
    assert(low_bytes(w, 0) == 0);
}

/// A word of which all but a field at its start, or all but a field at its
/// end, is cleared holds that field alone.
pub proof fn lemma_splice_cleared(w: u64, v: u32)
    ensures
        splice(splice(w, 0, 4, v as int), 4, 4, 0) == v as u64,
        splice(splice(w, 0, 4, 0), 4, 4, v as int) == le64_halves(0, v),
{
    lemma_splice_halves(w, v, 0);
    lemma_splice_halves(w, 0, v);
}

/// A 16-bit field spliced in behind the low half of a word, with the two
/// bytes behind it cleared, leaves nothing else above the low half.
pub proof fn lemma_splice_half_and_field(w: u64, lo: u32, v: u16)
    ensures
        splice(splice(splice(w, 0, 4, lo as int), 4, 2, v as int), 6, 2, 0) as int == lo as int
            + v as int * 0x1_0000_0000,
{
    let x1 = splice(w, 0, 4, lo as int);
    let x2 = splice(x1, 4, 2, v as int);
    lemma_splice_low(w, 0, 4, lo as int);
    lemma_splice_low(x1, 4, 2, v as int);
    lemma_splice_low(x2, 6, 2, 0);
    assert(low_bytes(w, 0) == 0);
}

/// Exchanges the two bytes of `x`.
pub fn swap_bytes16(x: u16) -> (r: u16)
    ensures
        r == swap16(x),
{
    (x % 0x100) * 0x100 + x / 0x100
}

/// Reverses the four bytes of `x`.
pub fn swap_bytes32(x: u32) -> (r: u32)
    ensures
        r == swap32(x),
{
    let lo: u16 = (x % 0x1_0000) as u16;
    let hi: u16 = (x / 0x1_0000) as u16;
    (swap_bytes16(lo) as u32) * 0x1_0000 + swap_bytes16(hi) as u32
}

/// Joins two bytes into the 16-bit value that holds `b0` in its low byte.
pub fn join_bytes16(b0: u8, b1: u8) -> (r: u16)
    ensures
        r == le16(b0, b1),
{
    b0 as u16 + (b1 as u16) * 0x100
}

/// Joins two 16-bit halves into the 32-bit value that holds `lo` in its low
/// half.
pub fn join_halves32(lo: u16, hi: u16) -> (r: u32)
    ensures
        r == le32_halves(lo, hi),
{
    lo as u32 + (hi as u32) * 0x1_0000
}

/// Joins two 32-bit halves into the 64-bit value that holds `lo` in its low
/// half.
pub fn join_halves64(lo: u32, hi: u32) -> (r: u64)
    ensures
        r == le64_halves(lo, hi),
{
    lo as u64 + (hi as u64) * 0x1_0000_0000
}

/// Replaces byte `at` of `w` by `v`.
pub fn set_field8(w: u64, at: usize, v: u8) -> (r: u64)
    requires
        at < 8,
    ensures
        r == splice(w, at as nat, 1, v as int),
{
    if at == 0 {
        v as u64 + (w / 0x100) * 0x100
    } else if at == 1 {
        w % 0x100 + (v as u64) * 0x100 + (w / 0x1_0000) * 0x1_0000
    } else if at == 2 {
        w % 0x1_0000 + (v as u64) * 0x1_0000 + (w / 0x100_0000) * 0x100_0000
    } else if at == 3 {
        w % 0x100_0000 + (v as u64) * 0x100_0000 + (w / 0x1_0000_0000) * 0x1_0000_0000
    } else if at == 4 {
        w % 0x1_0000_0000 + (v as u64) * 0x1_0000_0000 + (w / 0x100_0000_0000) * 0x100_0000_0000
    } else if at == 5 {
        w % 0x100_0000_0000 + (v as u64) * 0x100_0000_0000 + (w / 0x1_0000_0000_0000) * 0x1_0000_0000_0000
    } else if at == 6 {
        w % 0x1_0000_0000_0000 + (v as u64) * 0x1_0000_0000_0000 + (w / 0x100_0000_0000_0000) * 0x100_0000_0000_0000
    } else {
        w % 0x100_0000_0000_0000 + (v as u64) * 0x100_0000_0000_0000
    }
}

/// Replaces the two bytes of `w` at `at` by the little-endian image of `v`.
pub fn set_field16(w: u64, at: usize, v: u16) -> (r: u64)
    requires
        at == 0 || at == 2 || at == 4 || at == 6,
    ensures
        r == splice(w, at as nat, 2, v as int),
{
    if at == 0 {
        v as u64 + (w / 0x1_0000) * 0x1_0000
    } else if at == 2 {
        w % 0x1_0000 + (v as u64) * 0x1_0000 + (w / 0x1_0000_0000) * 0x1_0000_0000
    } else if at == 4 {
        w % 0x1_0000_0000 + (v as u64) * 0x1_0000_0000 + (w / 0x1_0000_0000_0000) * 0x1_0000_0000_0000
    } else {
        w % 0x1_0000_0000_0000 + (v as u64) * 0x1_0000_0000_0000
    }
}

/// Replaces the four bytes of `w` at `at` by the little-endian image of `v`.
pub fn set_field32(w: u64, at: usize, v: u32) -> (r: u64)
    requires
        at == 0 || at == 4,
    ensures
        r == splice(w, at as nat, 4, v as int),
{
    if at == 0 {
        v as u64 + (w / 0x1_0000_0000) * 0x1_0000_0000
    } else {
        w % 0x1_0000_0000 + (v as u64) * 0x1_0000_0000
    }
}

/// Clears the bytes of `w` from byte `at` on.
pub fn clear_from(w: u64, at: usize) -> (r: u64)
    requires
        at <= 8,
    ensures
        r == splice(w, at as nat, (8 - at) as nat, 0),
{
    if at == 0 {
        0
    } else if at == 1 {
        w % 0x100
    } else if at == 2 {
        w % 0x1_0000
    } else if at == 3 {
        w % 0x100_0000
    } else if at == 4 {
        w % 0x1_0000_0000
    } else if at == 5 {
        w % 0x100_0000_0000
    } else if at == 6 {
        w % 0x1_0000_0000_0000
    } else if at == 7 {
        w % 0x100_0000_0000_0000
    } else {
        w
    }
}

/// Clears the bytes of `w` before byte `at`.
pub fn clear_upto(w: u64, at: usize) -> (r: u64)
    requires
        at <= 8,
    ensures
        r == splice(w, 0, at as nat, 0),
{
    if at == 0 {
        assert(w as int % 1 == 0);
        assert((w as int / pow256(0)) * pow256(0) == w);
        w
    } else if at == 1 {
        (w / 0x100) * 0x100
    } else if at == 2 {
        (w / 0x1_0000) * 0x1_0000
    } else if at == 3 {
        (w / 0x100_0000) * 0x100_0000
    } else if at == 4 {
        (w / 0x1_0000_0000) * 0x1_0000_0000
    } else if at == 5 {
        (w / 0x100_0000_0000) * 0x100_0000_0000
    } else if at == 6 {
        (w / 0x1_0000_0000_0000) * 0x1_0000_0000_0000
    } else if at == 7 {
        (w / 0x100_0000_0000_0000) * 0x100_0000_0000_0000
    } else {
        0
    }
}

/// Calls `byteorder::BigEndian::read_u16`, which panics on fewer than two
/// bytes and otherwise returns the value of the first two bytes of `buf`
/// taken most significant byte first.
#[verifier::external_body]
pub(crate) fn read_u16_be(buf: &[u8]) -> (r: u16)
    requires
        buf@.len() >= 2,
    ensures
        r == be16(buf@[0], buf@[1]),
{
    BigEndian::read_u16(buf)
}

/// Calls `byteorder::LittleEndian::read_u16`, which panics on fewer than two
/// bytes and otherwise returns the value of the first two bytes of `buf`
/// taken least significant byte first.
#[verifier::external_body]
pub(crate) fn read_u16_le(buf: &[u8]) -> (r: u16)
    requires
        buf@.len() >= 2,
    ensures
        r == le16(buf@[0], buf@[1]),
{
    LittleEndian::read_u16(buf)
}

/// Reads the 32-bit word whose little-endian image is the four bytes of
/// `data` at `at`, as two 16-bit halves.
pub fn read_word32(data: &[u8], at: usize) -> (r: u32)
    requires
        at + 4 <= data@.len(),
    ensures
        r == le32_at(data@, at as int),
{
    let len: usize = data.len();
    assert(at + 4 <= len);
    let lo: u16 = read_u16_le(vstd::slice::slice_subrange(data, at, at + 2));
    let hi: u16 = read_u16_le(vstd::slice::slice_subrange(data, at + 2, at + 4));
    join_halves32(lo, hi)
}

/// Reads the 64-bit word whose little-endian image is the eight bytes of
/// `data` at `at`.
pub fn read_word64(data: &[u8], at: usize) -> (r: u64)
    requires
        at + 8 <= data@.len(),
    ensures
        r == le64_at(data@, at as int),
{
    let len: usize = data.len();
    assert(at + 8 <= len);
    let lo: u32 = read_word32(data, at);
    let hi: u32 = read_word32(data, at + 4);
    join_halves64(lo, hi)
}

} // verus!
