//! The four castling rights, as a set of flags.

use vstd::prelude::*;
use vstd::std_specs::ops::{BitAndSpecImpl, NotSpecImpl};
use crate::chess::bits::popcount;
use crate::chess::color::Color;

verus! {

#[derive(Debug, Clone, Copy, PartialEq, Eq, Structural)]
pub enum CastleType {
    Short,
    Long,
}

/// A set of castling rights: one bit for each side and wing.
#[derive(Debug, Clone, Copy, PartialEq, Eq, Structural)]
pub struct CastlingRights(pub u8);

pub const NO_CASTLING: u8 = 0x0;

pub const WHITE_KING_SIDE: u8 = 0x1;

pub const WHITE_QUEEN_SIDE: u8 = 0x2;

pub const BLACK_KING_SIDE: u8 = 0x4;

pub const BLACK_QUEEN_SIDE: u8 = 0x8;

pub const WHITE_CASTLING: u8 = 0x3;

pub const BLACK_CASTLING: u8 = 0xC;

pub const ALL_CASTLING: u8 = 0xF;

/// The flag of one side's right to castle on one wing.
pub open spec fn castling_flag(color: Color, castle_type: CastleType) -> u8 {
    match (color, castle_type) {
        (Color::White, CastleType::Short) => WHITE_KING_SIDE,
        (Color::White, CastleType::Long) => WHITE_QUEEN_SIDE,
        (Color::Black, CastleType::Short) => BLACK_KING_SIDE,
        (Color::Black, CastleType::Long) => BLACK_QUEEN_SIDE,
    }
}

/// The two flags of one side.
pub open spec fn castling_flags_of(color: Color) -> u8 {
    match color {
        Color::White => WHITE_CASTLING,
        Color::Black => BLACK_CASTLING,
    }
}

impl CastlingRights {
    /// Whether every right of `other` is in this set.
    pub open spec fn spec_contains(self, other: CastlingRights) -> bool {
        self.0 & other.0 == other.0
    }

    /// Whether the right with the given flag is in this set.
    pub open spec fn has(self, flag: u8) -> bool {
        self.0 & flag == flag
    }

    /// This set with the rights of `other` added.
    pub open spec fn spec_with(self, other: CastlingRights) -> CastlingRights {
        CastlingRights(self.0 | other.0)
    }

    /// This set with the rights of `other` taken out.
    pub open spec fn spec_without(self, other: CastlingRights) -> CastlingRights {
        CastlingRights(self.0 & !other.0)
    }

    /// The set with the given flags.
    pub fn new(flags: u8) -> (r: CastlingRights)
        ensures
            r.0 == flags,
    {
        CastlingRights(flags)
    }

    /// Create an empty set of castling rights.
    pub fn empty() -> (r: CastlingRights)
        ensures
            r.0 == 0,
    {
        CastlingRights(0)
    }

    /// All four castling rights.
    pub fn all() -> (r: CastlingRights)
        ensures
            r.0 == ALL_CASTLING,
    {
        CastlingRights(ALL_CASTLING)
    }

    /// Check if it contains a specific castling right.
    pub fn contains(&self, other: CastlingRights) -> (r: bool)
        ensures
            r == self.spec_contains(other),
    {
        (self.0 & other.0) == other.0
    }

    /// Check how many castling rights are set, max is 4, min is 0.
    pub fn count_ones(&self) -> (r: u32)
        ensures
            r == popcount(self.0 as u64),
    {
        (self.0 as u64).count_ones()
    }

    /// Get all castling rights for a specific color.
    pub fn castling_rights(color: Color) -> (r: CastlingRights)
        ensures
            r.0 == castling_flags_of(color),
    {
        match color {
            Color::White => CastlingRights(WHITE_CASTLING),
            Color::Black => CastlingRights(BLACK_CASTLING),
        }
    }

    /// Adds the rights of `other` to this set.
    pub fn insert(&mut self, other: CastlingRights)
        ensures
            *final(self) == old(self).spec_with(other),
    {
        self.0 = self.0 | other.0;
    }

    /// Takes the rights of `other` out of this set.
    pub fn remove(&mut self, other: CastlingRights)
        ensures
            *final(self) == old(self).spec_without(other),
    {
        self.0 = self.0 & !other.0;
    }
}

impl core::ops::BitAnd for CastlingRights {
    type Output = CastlingRights;

    fn bitand(self, rhs: CastlingRights) -> (r: CastlingRights) {
        CastlingRights(self.0 & rhs.0)
    }
}

impl BitAndSpecImpl for CastlingRights {
    open spec fn obeys_bitand_spec() -> bool {
        true
    }

    open spec fn bitand_req(self, rhs: CastlingRights) -> bool {
        true
    }

    open spec fn bitand_spec(self, rhs: CastlingRights) -> CastlingRights {
        CastlingRights(self.0 & rhs.0)
    }
}

impl core::ops::Not for CastlingRights {
    type Output = CastlingRights;

    fn not(self) -> (r: CastlingRights) {
        CastlingRights(!self.0)
    }
}

impl NotSpecImpl for CastlingRights {
    open spec fn obeys_not_spec() -> bool {
        true
    }

    open spec fn not_req(self) -> bool {
        true
    }

    open spec fn not_spec(self) -> CastlingRights {
        CastlingRights(!self.0)
    }
}

pub struct CastlingTraits;

impl core::ops::BitAndAssign for CastlingRights {
    fn bitand_assign(&mut self, rhs: CastlingRights)
        ensures
            final(self).0 == old(self).0 & rhs.0,
    {
        self.0 = self.0 & rhs.0;
    }
}

impl core::ops::BitOrAssign for CastlingRights {
    fn bitor_assign(&mut self, rhs: CastlingRights)
        ensures
            final(self).0 == old(self).0 | rhs.0,
    {
        self.0 = self.0 | rhs.0;
    }
}

impl CastlingTraits {
    pub fn castling_rights(color: Color, castle_type: CastleType) -> (r: CastlingRights)
        ensures
            r.0 == castling_flag(color, castle_type),
    {
        match (color, castle_type) {
            (Color::White, CastleType::Short) => CastlingRights(WHITE_KING_SIDE),
            (Color::White, CastleType::Long) => CastlingRights(WHITE_QUEEN_SIDE),
            (Color::Black, CastleType::Short) => CastlingRights(BLACK_KING_SIDE),
            (Color::Black, CastleType::Long) => CastlingRights(BLACK_QUEEN_SIDE),
        }
    }
}

} // verus!
