//! The six kinds of piece, and the absence of one.

use vstd::prelude::*;

verus! {

#[derive(Debug, Clone, Copy, PartialEq, Eq, Structural)]
pub enum PieceType {
    Pawn,
    Knight,
    Bishop,
    Rook,
    Queen,
    King,
    NoPiece,
}

impl PieceType {
    /// 0 for Pawn, 1 for Knight, 2 for Bishop, 3 for Rook, 4 for Queen,
    /// 5 for King, 6 for NoPiece.
    pub open spec fn spec_ordinal(self) -> u8 {
        match self {
            PieceType::Pawn => 0,
            PieceType::Knight => 1,
            PieceType::Bishop => 2,
            PieceType::Rook => 3,
            PieceType::Queen => 4,
            PieceType::King => 5,
            PieceType::NoPiece => 6,
        }
    }

    /// The kind with the given ordinal; NoPiece for every ordinal above 5.
    pub open spec fn spec_from_ordinal(value: u8) -> PieceType {
        match value {
            0 => PieceType::Pawn,
            1 => PieceType::Knight,
            2 => PieceType::Bishop,
            3 => PieceType::Rook,
            4 => PieceType::Queen,
            5 => PieceType::King,
            _ => PieceType::NoPiece,
        }
    }

    /// Whether a piece of this kind can stand on the board.
    pub open spec fn is_piece(self) -> bool {
        self != PieceType::NoPiece
    }

    /// Create a piece type from an ordinal, which must be in the range [0, 6].
    pub fn from_ordinal(value: u8) -> (r: PieceType)
        requires
            value <= 6,
        ensures
            r == PieceType::spec_from_ordinal(value),
            r.spec_ordinal() == value,
    {
        match value {
            0 => PieceType::Pawn,
            1 => PieceType::Knight,
            2 => PieceType::Bishop,
            3 => PieceType::Rook,
            4 => PieceType::Queen,
            5 => PieceType::King,
            _ => PieceType::NoPiece,
        }
    }

    /// 0 for Pawn, 1 for Knight, 2 for Bishop, 3 for Rook, 4 for Queen,
    /// 5 for King, 6 for NoPiece.
    pub fn ordinal(&self) -> (r: u8)
        ensures
            r == self.spec_ordinal(),
            r <= 6,
    {
        match self {
            PieceType::Pawn => 0,
            PieceType::Knight => 1,
            PieceType::Bishop => 2,
            PieceType::Rook => 3,
            PieceType::Queen => 4,
            PieceType::King => 5,
            PieceType::NoPiece => 6,
        }
    }
}

/// An ordinal and its piece type determine each other.
pub proof fn lemma_ordinal_roundtrip(pt: PieceType, value: u8)
    ensures
        PieceType::spec_from_ordinal(pt.spec_ordinal()) == pt,
        value <= 6 ==> PieceType::spec_from_ordinal(value).spec_ordinal() == value,
{
}

} // verus!
