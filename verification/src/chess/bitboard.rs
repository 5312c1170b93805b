//! Sets of squares as 64-bit words: bit `i` stands for square `i`.

use vstd::prelude::*;
use vstd::std_specs::ops::{BitAndSpecImpl, BitOrSpecImpl, NotSpecImpl};
use crate::chess::bits::{
    bit64, below64, clear_lsb, lemma_lsb, lsb_index, popcount,
};
use crate::chess::coords::{File, Rank, Square};

verus! {

#[derive(Debug, Clone, Copy, PartialEq, Eq, Structural)]
pub struct Bitboard {
    pub data: u64,
}

/// Position of the highest set bit of a non-zero word.
pub open spec fn msb_index(x: u64) -> int {
    63 - vstd::std_specs::bits::u64_leading_zeros(x)
}

proof fn lemma_mask_bits(x: u64, i: u64)
    by (bit_vector)
    requires
        i < 64,
    ensures
        (x & (1u64 << i) != 0) == bit64(x, i),
        (1u64 << i) - 1 >= 0,
        bit64(x | (1u64 << i), i),
        !bit64(x & !(1u64 << i), i),
{
}

impl Bitboard {
    /// Whether square `i` is in the set.
    pub open spec fn has(self, i: int) -> bool {
        0 <= i < 64 && bit64(self.data, i as u64)
    }

    pub fn new(bits: u64) -> (r: Bitboard)
        ensures
            r.data == bits,
    {
        Bitboard { data: bits }
    }

    /// Returns the number of set bits (popcount).
    #[must_use]
    pub fn count(&self) -> (r: u32)
        ensures
            r == popcount(self.data),
    {
        self.data.count_ones()
    }

    /// Returns the least significant bit.
    pub fn lsb(&self) -> (r: Square)
        requires
            self.data != 0,
        ensures
            r.index == lsb_index(self.data),
            r.on_board(),
    {
        proof {
            lemma_lsb(self.data);
        }
        Square::new(self.data.trailing_zeros())
    }

    /// Returns the most significant bit.
    pub fn msb(&self) -> (r: Square)
        requires
            self.data != 0,
        ensures
            r.index == msb_index(self.data),
            r.on_board(),
    {
        proof {
            vstd::std_specs::bits::axiom_u64_leading_zeros(self.data);
        }
        Square::new(63 - self.data.leading_zeros())
    }

    /// Pops the least significant bit and returns it.
    pub fn pop(&mut self) -> (r: Square)
        requires
            old(self).data != 0,
        ensures
            r.index == lsb_index(old(self).data),
            r.on_board(),
            final(self).data == clear_lsb(old(self).data),
    {
        let lsb = self.lsb();
        self.data = self.data & (self.data - 1);
        lsb
    }

    /// Sets the bit on the given index if `value` holds, and clears it
    /// otherwise.
    pub fn set(&mut self, index: u32, value: bool)
        requires
            index < 64,
        ensures
            final(self).data == (if value {
                old(self).data | (1u64 << index)
            } else {
                old(self).data & !(1u64 << index)
            }),
            final(self).has(index as int) == value,
    {
        proof {
            lemma_mask_bits(self.data, index as u64);
        }
        if value {
            self.data = self.data | (1u64 << index);
        } else {
            self.data = self.data & !(1u64 << index);
        }
    }

    /// Clear all bits.
    pub fn clear(&mut self)
        ensures
            final(self).data == 0,
    {
        self.data = 0;
    }

    /// Checks if the bit on the given index is set.
    pub fn is_set(&self, index: u32) -> (r: bool)
        requires
            index < 64,
        ensures
            r == self.has(index as int),
    {
        proof {
            lemma_mask_bits(self.data, index as u64);
        }
        self.data & (1u64 << index) != 0
    }

    /// Checks if the bit on the given square is set.
    pub fn sq_set(&self, index: Square) -> (r: bool)
        requires
            index.on_board(),
        ensures
            r == self.has(index.index as int),
    {
        self.is_set(index.index())
    }

    /// Create from a u64.
    pub fn from_u64(data: u64) -> (r: Bitboard)
        ensures
            r.data == data,
    {
        Bitboard { data }
    }

    /// Get the u64 representation.
    pub fn bits(&self) -> (r: u64)
        ensures
            r == self.data,
    {
        self.data
    }

    /// The squares with an index below `index`.
    pub fn from_before(index: u32) -> (r: Bitboard)
        requires
            index < 64,
        ensures
            r.data == below64(index as u64),
    {
        proof {
            lemma_mask_bits(0, index as u64);
            crate::chess::bits::lemma_bit_single(index as u64, index as u64);
        }
        Bitboard { data: (1u64 << index) - 1 }
    }

    pub fn from_square(index: Square) -> (r: Bitboard)
        requires
            index.on_board(),
        ensures
            r.data == 1u64 << index.index,
    {
        Bitboard { data: 1u64 << index.index() }
    }

    pub fn from_file(index: u32) -> (r: Bitboard)
        requires
            index < 64,
        ensures
            r.data == 0x0101010101010101u64 << index,
    {
        Bitboard { data: 0x0101010101010101u64 << index }
    }

    pub fn from_rank(index: u32) -> (r: Bitboard)
        requires
            index < 8,
        ensures
            r.data == 0xFFu64 << ((index * 8) as u32),
    {
        Bitboard { data: 0xFFu64 << (index * 8) }
    }

    pub fn rank(&self) -> (r: Rank)
        ensures
            r.index == ((self.data >> 3) as u32),
    {
        Rank::new(#[verifier::truncate] ((self.data >> 3) as u32))
    }

    pub fn file(&self) -> (r: File)
        ensures
            r.index == ((self.data & 7) as u32),
    {
        File::new(#[verifier::truncate] ((self.data & 7) as u32))
    }

    pub fn iter(&self) -> (r: BitboardIterator)
        ensures
            r.remaining == *self,
    {
        BitboardIterator { remaining: *self }
    }
}

/// Walks the squares of a set from the lowest index up.
pub struct BitboardIterator {
    pub remaining: Bitboard,
}

impl BitboardIterator {
    /// The lowest square that is left, which is taken out, or nothing when
    /// none is left.
    pub fn next(&mut self) -> (r: Option<Square>)
        ensures
            old(self).remaining.data == 0 ==> r.is_none() && final(self).remaining.data == 0,
            old(self).remaining.data != 0 ==> r == Some(
                Square { index: lsb_index(old(self).remaining.data) },
            ) && final(self).remaining.data == clear_lsb(old(self).remaining.data),
    {
        if self.remaining.bits() == 0 {
            None
        } else {
            Some(self.remaining.pop())
        }
    }
}

impl core::ops::Not for Bitboard {
    type Output = Bitboard;

    fn not(self) -> (r: Bitboard) {
        Bitboard { data: !self.data }
    }
}

impl NotSpecImpl for Bitboard {
    open spec fn obeys_not_spec() -> bool {
        true
    }

    open spec fn not_req(self) -> bool {
        true
    }

    open spec fn not_spec(self) -> Bitboard {
        Bitboard { data: !self.data }
    }
}

impl core::ops::BitAnd for Bitboard {
    type Output = Bitboard;

    fn bitand(self, rhs: Bitboard) -> (r: Bitboard) {
        Bitboard { data: self.data & rhs.data }
    }
}

impl BitAndSpecImpl for Bitboard {
    open spec fn obeys_bitand_spec() -> bool {
        true
    }

    open spec fn bitand_req(self, rhs: Bitboard) -> bool {
        true
    }

    open spec fn bitand_spec(self, rhs: Bitboard) -> Bitboard {
        Bitboard { data: self.data & rhs.data }
    }
}

impl core::ops::BitOr for Bitboard {
    type Output = Bitboard;

    fn bitor(self, rhs: Bitboard) -> (r: Bitboard) {
        Bitboard { data: self.data | rhs.data }
    }
}

impl BitOrSpecImpl for Bitboard {
    open spec fn obeys_bitor_spec() -> bool {
        true
    }

    open spec fn bitor_req(self, rhs: Bitboard) -> bool {
        true
    }

    open spec fn bitor_spec(self, rhs: Bitboard) -> Bitboard {
        Bitboard { data: self.data | rhs.data }
    }
}

impl core::ops::BitAnd<&Bitboard> for &Bitboard {
    type Output = Bitboard;

    fn bitand(self, rhs: &Bitboard) -> (r: Bitboard) {
        Bitboard { data: self.data & rhs.data }
    }
}

impl BitAndSpecImpl<&Bitboard> for &Bitboard {
    open spec fn obeys_bitand_spec() -> bool {
        true
    }

    open spec fn bitand_req(self, rhs: &Bitboard) -> bool {
        true
    }

    open spec fn bitand_spec(self, rhs: &Bitboard) -> Bitboard {
        Bitboard { data: self.data & rhs.data }
    }
}

impl core::ops::BitOrAssign for Bitboard {
    fn bitor_assign(&mut self, rhs: Bitboard)
        ensures
            final(self).data == old(self).data | rhs.data,
    {
        self.data = self.data | rhs.data;
    }
}

} // verus!
