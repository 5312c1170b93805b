//! Facts about single bits of 64-bit words, on which every bitboard
//! argument in this crate rests.

use vstd::prelude::*;

verus! {

/// Whether bit `i` of `x` is set. False for `i` outside `0..64`.
pub open spec fn bit64(x: u64, i: u64) -> bool {
    i < 64 && (x >> i) & 1 == 1
}

/// The word in which exactly the bits below `i` are set.
pub open spec fn below64(i: u64) -> u64 {
    (((1u64 << i) - 1) as u64)
}

/// Number of set bits of `x`.
pub open spec fn popcount(x: u64) -> nat
    decreases x,
{
    if x == 0 {
        0
    } else {
        ((x % 2) + popcount(x / 2)) as nat
    }
}

/// Position of the lowest set bit of a non-zero word; 64 for zero.
pub open spec fn lsb_index(x: u64) -> u32 {
    vstd::std_specs::bits::u64_trailing_zeros(x)
}

/// The word `x` with its lowest set bit cleared.
pub open spec fn clear_lsb(x: u64) -> u64 {
    if x == 0 {
        0
    } else {
        x & ((x - 1) as u64)
    }
}

/// The byte order of `x` reversed.
pub open spec fn byte_swap(x: u64) -> u64 {
    ((x & 0xff) << 56) | (((x >> 8) & 0xff) << 48) | (((x >> 16) & 0xff) << 40) | (((x >> 24)
        & 0xff) << 32) | (((x >> 32) & 0xff) << 24) | (((x >> 40) & 0xff) << 16) | (((x >> 48)
        & 0xff) << 8) | ((x >> 56) & 0xff)
}

/// `u64::count_ones` returns the number of ones in the binary representation.
pub assume_specification[ u64::count_ones ](x: u64) -> (r: u32)
    ensures
        r == popcount(x),
;

/// `u64::swap_bytes` reverses the byte order of the integer.
pub assume_specification[ u64::swap_bytes ](x: u64) -> (r: u64)
    ensures
        r == byte_swap(x),
;

pub proof fn lemma_bit_single(i: u64, j: u64)
    by (bit_vector)
    requires
        i < 64,
        j < 64,
    ensures
        bit64(1u64 << i, j) <==> i == j,
        (1u64 << i) != 0,
{
}

pub proof fn lemma_bit_ops(a: u64, b: u64, j: u64)
    by (bit_vector)
    requires
        j < 64,
    ensures
        bit64(a | b, j) == (bit64(a, j) || bit64(b, j)),
        bit64(a & b, j) == (bit64(a, j) && bit64(b, j)),
        bit64(a ^ b, j) == (bit64(a, j) != bit64(b, j)),
        bit64(!a, j) == !bit64(a, j),
        !bit64(0, j),
        a ^ b == 0 <==> a == b,
{
}

pub proof fn lemma_below(i: u64, j: u64)
    by (bit_vector)
    requires
        i < 64,
        j < 64,
    ensures
        bit64(below64(i), j) <==> j < i,
{
}

proof fn lemma_lsb_bv(x: u64, t: u64, j: u64)
    by (bit_vector)
    requires
        t < 64,
        j < 64,
        (x >> t) & 1 == 1,
        t > 0 ==> x << ((64 - t) as u64) == 0,
    ensures
        j < t ==> !bit64(x, j),
        bit64(x & ((x - 1) as u64), j) == (bit64(x, j) && j != t),
        x & ((x - 1) as u64) == x ^ (1u64 << t),
        x & ((x - 1) as u64) < x,
{
}

/// The lowest set bit of a non-zero word: it is set, nothing below it is,
/// and clearing it leaves every other bit as it was.
pub proof fn lemma_lsb(x: u64)
    requires
        x != 0,
    ensures
        lsb_index(x) < 64,
        bit64(x, lsb_index(x) as u64),
        forall|j: u64| j < lsb_index(x) ==> !bit64(x, j),
        forall|j: u64| j < 64 ==> bit64(clear_lsb(x), j) == (bit64(x, j) && j != lsb_index(x)),
        clear_lsb(x) == x ^ (1u64 << (lsb_index(x) as u64)),
        clear_lsb(x) < x,
{
    vstd::std_specs::bits::axiom_u64_trailing_zeros(x);
    let t = lsb_index(x) as u64;
    assert forall|j: u64| j < 64 implies bit64(clear_lsb(x), j) == (bit64(x, j) && j != t) by {
        lemma_lsb_bv(x, t, j);
    }
    assert forall|j: u64| j < t implies !bit64(x, j) by {
        lemma_lsb_bv(x, t, j);
    }
    lemma_lsb_bv(x, t, 0);
}

proof fn lemma_popcount_step_bv(x: u64)
    by (bit_vector)
    requires
        x != 0,
    ensures
        x % 2 == 1 ==> (x & ((x - 1) as u64)) / 2 == x / 2 && (x & ((x - 1) as u64)) % 2 == 0,
        x % 2 != 1 ==> x % 2 == 0 && (x & ((x - 1) as u64)) % 2 == 0 && (x / 2) != 0 && (x & ((x
            - 1) as u64)) / 2 == (x / 2) & (((x / 2) - 1) as u64),
{
}

/// Clearing the lowest set bit takes one from the number of set bits.
pub proof fn lemma_popcount_clear_lsb(x: u64)
    requires
        x != 0,
    ensures
        popcount(x) == 1 + popcount(clear_lsb(x)),
    decreases x,
{
    lemma_popcount_step_bv(x);
    let y = clear_lsb(x);
    if x % 2 == 1 {
        assert(popcount(x) == 1 + popcount(x / 2));
        if y != 0 {
            assert(popcount(y) == (y % 2) + popcount(y / 2));
        } else {
            assert(x / 2 == 0);
        }
    } else {
        lemma_popcount_clear_lsb(x / 2);
        assert(popcount(x) == popcount(x / 2));
        if y != 0 {
            assert(popcount(y) == popcount(y / 2));
        } else {
            assert(clear_lsb(x / 2) == 0);
        }
    }
}

proof fn lemma_popcount_bound_rec(x: u64, n: nat)
    requires
        x < vstd::arithmetic::power2::pow2(n),
    ensures
        popcount(x) <= n,
    decreases n,
{
    vstd::arithmetic::power2::lemma2_to64();
    if n == 0 {
    } else if x != 0 {
        vstd::arithmetic::power2::lemma_pow2_unfold(n);
        lemma_popcount_bound_rec(x / 2, (n - 1) as nat);
    }
}

/// A 64-bit word has at most 64 set bits.
pub proof fn lemma_popcount_bound(x: u64)
    ensures
        popcount(x) <= 64,
{
    vstd::arithmetic::power2::lemma2_to64();
    lemma_popcount_bound_rec(x, 64);
}

/// Union of words, and of bytes, is associative, and the empty word is
/// its unit.
pub proof fn lemma_or(a: u64, b: u64, c: u64, x: u8, y: u8, z: u8)
    by (bit_vector)
    ensures
        (a | b) | c == a | (b | c),
        a | b == b | a,
        a | 0u64 == a,
        0u64 | a == a,
        (x | y) | z == x | (y | z),
        x | 0u8 == x,
        0u8 | x == x,
{
}

/// Two words with the same bits are the same word.
pub proof fn lemma_bit_ext(a: u64, b: u64)
    requires
        forall|j: u64| j < 64 ==> bit64(a, j) == bit64(b, j),
    ensures
        a == b,
{
    lemma_bit_ops(a, b, 0);
    let d = a ^ b;
    if d != 0 {
        lemma_lsb(d);
        lemma_bit_ops(a, b, lsb_index(d) as u64);
    }
}

/// The number of set bits among the lowest `n` bits of `x`.
pub open spec fn bitsum(x: u64, n: nat) -> nat
    decreases n,
{
    if n == 0 {
        0
    } else {
        bitsum(x, (n - 1) as nat) + (if bit64(x, (n - 1) as u64) {
            1nat
        } else {
            0nat
        })
    }
}

proof fn lemma_halved_bits(x: u64, j: u64)
    by (bit_vector)
    requires
        j < 64,
    ensures
        bit64(x, 0) == (x % 2 == 1),
        j >= 1 ==> bit64(x, j) == bit64(x / 2, (j - 1) as u64),
{
}

proof fn lemma_bitsum_halved(x: u64, n: nat)
    requires
        1 <= n <= 64,
    ensures
        bitsum(x, n) == (x % 2) + bitsum(x / 2, (n - 1) as nat),
    decreases n,
{
    lemma_halved_bits(x, (n - 1) as u64);
    if n > 1 {
        lemma_bitsum_halved(x, (n - 1) as nat);
        assert(bitsum(x / 2, (n - 1) as nat) == bitsum(x / 2, (n - 2) as nat) + (if bit64(
            x / 2,
            (n - 2) as u64,
        ) {
            1nat
        } else {
            0nat
        }));
    } else {
        assert(bitsum(x, 0) == 0);
        assert(bitsum(x / 2, 0) == 0);
    }
}

proof fn lemma_popcount_bitsum_rec(x: u64, n: nat)
    requires
        n <= 64,
        x < vstd::arithmetic::power2::pow2(n),
    ensures
        popcount(x) == bitsum(x, n),
    decreases n,
{
    vstd::arithmetic::power2::lemma2_to64();
    if n == 0 {
    } else {
        vstd::arithmetic::power2::lemma_pow2_unfold(n);
        lemma_bitsum_halved(x, n);
        if x != 0 {
            lemma_popcount_bitsum_rec(x / 2, (n - 1) as nat);
        } else {
            lemma_bitsum_zero((n - 1) as nat);
        }
    }
}

proof fn lemma_bitsum_zero(n: nat)
    requires
        n <= 64,
    ensures
        bitsum(0, n) == 0,
    decreases n,
{
    if n > 0 {
        lemma_bit_ops(0, 0, (n - 1) as u64);
        lemma_bitsum_zero((n - 1) as nat);
    }
}

/// The number of set bits of a word is the number of its bits that are
/// set.
pub proof fn lemma_popcount_bitsum(x: u64)
    ensures
        popcount(x) == bitsum(x, 64),
{
    vstd::arithmetic::power2::lemma2_to64();
    lemma_popcount_bitsum_rec(x, 64);
}

} // verus!
