//! Small integer codes: the zig-zag map between signed and unsigned
//! 16-bit numbers, the position of the n-th set bit, and the width of a
//! field that holds one of `n` values.

use vstd::prelude::*;
use crate::chess::bits::{clear_lsb, lsb_index};

verus! {

/// `x` rotated to the left by `n` bits.
pub open spec fn rotl16(x: u16, n: u32) -> u16 {
    if n % 16 == 0 {
        x
    } else {
        (x << (n % 16)) | (x >> ((16 - n % 16) as u32))
    }
}

/// `x` rotated to the right by `n` bits.
pub open spec fn rotr16(x: u16, n: u32) -> u16 {
    if n % 16 == 0 {
        x
    } else {
        (x >> (n % 16)) | (x << ((16 - n % 16) as u32))
    }
}

/// `u16::rotate_left` shifts the bits to the left by `n`, wrapping the
/// truncated bits to the end of the resulting integer.
pub assume_specification[ u16::rotate_left ](x: u16, n: u32) -> (r: u16)
    ensures
        r == rotl16(x, n),
;

/// `u16::rotate_right` shifts the bits to the right by `n`, wrapping the
/// truncated bits to the beginning of the resulting integer.
pub assume_specification[ u16::rotate_right ](x: u16, n: u32) -> (r: u16)
    ensures
        r == rotr16(x, n),
;

/// Shifts and masks on 16-bit words, as arithmetic.
pub proof fn lemma_word_bits(x: u16, hi: u8, lo: u8, y: u16)
    by (bit_vector)
    ensures
        x >> 8 == x / 256,
        x & 0xFF == x % 256,
        x & 0x3FFF == x % 16384,
        x >> 14 == x / 16384,
        ((hi as u16) << 8) | (lo as u16) == hi * 256 + lo,
        y < 16384 ==> y | (x << 14) == (x % 4) * 16384 + y,
{
}

/// The zig-zag code of a signed number: 0, -1, 1, -2, 2, ... become
/// 0, 1, 2, 3, 4, ...
pub open spec fn zigzag(a: int) -> int {
    if a >= 0 {
        2 * a
    } else {
        -2 * a - 1
    }
}

/// The signed number with the given zig-zag code.
pub open spec fn unzigzag(u: int) -> int {
    if u % 2 == 0 {
        u / 2
    } else {
        -(u + 1) / 2
    }
}

proof fn lemma_unsigned_to_signed_bits(r: u16, v: u16, w: u16)
    by (bit_vector)
    requires
        v == (r >> 1) | (r << 15),
        v & 0x8000 != 0 ==> w == v ^ 0x7FFF,
        v & 0x8000 == 0 ==> w == v,
    ensures
        r % 2 == 0 ==> w == r / 2,
        r % 2 == 1 ==> 2 * w + r + 1 == 131072,
{
}

proof fn lemma_signed_to_unsigned_bits(r: u16, v: u16)
    by (bit_vector)
    requires
        r & 0x8000 != 0 ==> v == r ^ 0x7FFF,
        r & 0x8000 == 0 ==> v == r,
    ensures
        r < 0x8000 ==> (v << 1) | (v >> 15) == 2 * r,
        r >= 0x8000 ==> (v << 1) | (v >> 15) == 2 * (65536 - r) - 1,
        (r & 0x8000 != 0) == (r >= 0x8000),
{
}

pub fn unsigned_to_signed(r: u16) -> (a: i16)
    ensures
        a == unzigzag(r as int),
{
    let mut v: u16 = r.rotate_right(1);
    let ghost rotated = v;
    if v & 0x8000 != 0 {
        v = v ^ 0x7FFF;
    }
    proof {
        lemma_unsigned_to_signed_bits(r, rotated, v);
    }
    if v >= 0x8000 {
        ((v as i32) - 65536) as i16
    } else {
        v as i16
    }
}

pub fn signed_to_unsigned(a: i16) -> (r: u16)
    ensures
        r == zigzag(a as int),
{
    let mut r: u16 = if a < 0 {
        ((a as i32) + 65536) as u16
    } else {
        a as u16
    };
    let ghost raw = r;
    if r & 0x8000 != 0 {
        r = r ^ 0x7FFF;
    }
    proof {
        lemma_signed_to_unsigned_bits(raw, r);
    }
    r.rotate_left(1)
}

/// The zig-zag map is a bijection between the signed and the unsigned
/// 16-bit numbers: each of the two functions undoes the other.
pub proof fn lemma_zigzag_bijective(a: i16, u: u16)
    ensures
        0 <= zigzag(a as int) <= 0xFFFF,
        unzigzag(zigzag(a as int)) == a,
        -32768 <= unzigzag(u as int) <= 32767,
        zigzag(unzigzag(u as int)) == u,
{
}

/// The number of binary digits of `x`: 0 for 0.
pub open spec fn bit_length(x: nat) -> nat
    decreases x,
{
    if x == 0 {
        0
    } else {
        1 + bit_length(x / 2)
    }
}

/// The width in bits of a field that can hold each of the numbers
/// `0..n`: none for `n` up to 1.
pub open spec fn used_bits(n: nat) -> nat {
    if n == 0 {
        0
    } else {
        bit_length((n - 1) as nat)
    }
}

proof fn lemma_leading_zeros(x: u64)
    ensures
        64 - vstd::std_specs::bits::u64_leading_zeros(x) == bit_length(x as nat),
    decreases x,
{
    reveal(vstd::std_specs::bits::u64_leading_zeros);
    if x != 0 {
        lemma_leading_zeros(x / 2);
    }
}

pub fn used_bits_safe(n: u64) -> (r: usize)
    ensures
        r == used_bits(n as nat),
        r <= 64,
{
    if n == 0 {
        0
    } else {
        proof {
            lemma_leading_zeros((n - 1) as u64);
            vstd::std_specs::bits::axiom_u64_leading_zeros((n - 1) as u64);
        }
        (64 - (n - 1).leading_zeros()) as usize
    }
}

/// The index of the set bit of `v` that has exactly `n` set bits below it;
/// 64 if `v` has no more than `n` set bits.
pub open spec fn nth_set_bit(v: u64, n: nat) -> u32
    decreases n,
{
    if n == 0 {
        lsb_index(v)
    } else {
        nth_set_bit(clear_lsb(v), (n - 1) as nat)
    }
}

pub fn nth_set_bit_index(v: u64, n: u64) -> (r: u32)
    ensures
        r == nth_set_bit(v, n as nat),
        r <= 64,
{
    let mut value: u64 = v;
    let mut count: u64 = 0;
    while count < n && value != 0
        invariant
            count <= n,
            nth_set_bit(value, (n - count) as nat) == nth_set_bit(v, n as nat),
        decreases n - count,
    {
        value = value & (value - 1);
        count += 1;
    }
    proof {
        vstd::std_specs::bits::axiom_u64_trailing_zeros(value);
        if value == 0 {
            lemma_nth_of_zero((n - count) as nat);
        }
    }
    value.trailing_zeros()
}

proof fn lemma_nth_of_zero(n: nat)
    ensures
        nth_set_bit(0, n) == 64,
    decreases n,
{
    vstd::std_specs::bits::axiom_u64_trailing_zeros(0);
    if n > 0 {
        lemma_nth_of_zero((n - 1) as nat);
    }
}

} // verus!
