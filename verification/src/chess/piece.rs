//! A piece: a kind and a side, packed into one small number.

use vstd::prelude::*;
use crate::chess::color::Color;
use crate::chess::piecetype::PieceType;

verus! {

/// The lowest bit of `id` is the side, the bits above it are the kind.
#[derive(Debug, Copy, Clone, Eq, PartialEq, Structural)]
pub struct Piece {
    pub id: u8,
}

/// The id of the piece of kind `pt` and side `c`.
pub open spec fn piece_id(pt: PieceType, c: Color) -> u8 {
    (2 * pt.spec_ordinal() + c.spec_ordinal()) as u8
}

impl Piece {
    /// The kind of this piece; NoPiece for every id from 12 on.
    pub open spec fn spec_piece_type(self) -> PieceType {
        PieceType::spec_from_ordinal(self.id / 2)
    }

    /// The side of this piece.
    pub open spec fn spec_color(self) -> Color {
        Color::spec_from_ordinal(self.id % 2)
    }

    /// The piece of kind `pt` and side `c`.
    pub open spec fn spec_new(pt: PieceType, c: Color) -> Piece {
        Piece { id: piece_id(pt, c) }
    }

    /// The absence of a piece.
    pub open spec fn spec_none() -> Piece {
        Piece { id: 12 }
    }

    /// Whether this is one of the twelve pieces that can stand on the board.
    pub open spec fn is_piece(self) -> bool {
        self.id < 12
    }

    /// Whether this is one of the twelve pieces, or the absence of one.
    pub open spec fn wf(self) -> bool {
        self.id <= 12
    }

    /// Create a piece from an id, which must be in the range [0, 12].
    pub fn from_id(id: i32) -> (r: Piece)
        requires
            0 <= id < 13,
        ensures
            r.id == id,
            r.wf(),
    {
        Piece { id: id as u8 }
    }

    pub fn none() -> (r: Piece)
        ensures
            r == Piece::spec_none(),
    {
        Piece { id: 12 }
    }

    pub fn new(piece_type: PieceType, color: Color) -> (r: Piece)
        ensures
            r == Piece::spec_new(piece_type, color),
            r.spec_piece_type() == piece_type,
            piece_type.is_piece() ==> r.spec_color() == color && r.is_piece(),
    {
        let t: u8 = piece_type.ordinal();
        let c: u8 = color.ordinal();
        proof {
            lemma_id_bits(t, c);
        }
        Piece { id: (t << 1) | c }
    }

    /// Get the piece type of the piece.
    pub fn piece_type(&self) -> (r: PieceType)
        ensures
            r == self.spec_piece_type(),
    {
        let t: u8 = self.id >> 1;
        proof {
            lemma_id_bits(self.id, 0);
        }
        if t <= 6 {
            PieceType::from_ordinal(t)
        } else {
            PieceType::NoPiece
        }
    }

    /// Get the color of the piece.
    pub fn color(&self) -> (r: Color)
        ensures
            r == self.spec_color(),
    {
        let c: u8 = self.id & 1;
        proof {
            lemma_id_bits(self.id, 0);
        }
        Color::from_ordinal(c)
    }

    /// Get the piece type and color of the piece.
    pub fn parts(&self) -> (r: (PieceType, Color))
        ensures
            r.0 == self.spec_piece_type(),
            r.1 == self.spec_color(),
    {
        (self.piece_type(), self.color())
    }

    pub fn id(&self) -> (r: u8)
        ensures
            r == self.id,
    {
        self.id
    }
}

/// Shifts and masks on an id, as arithmetic.
proof fn lemma_id_bits(t: u8, c: u8)
    by (bit_vector)
    ensures
        t <= 6 && c < 2 ==> (t << 1) | c == 2 * t + c,
        t >> 1 == t / 2,
        t & 1 == t % 2,
{
}

/// A piece on the board is the piece made of its own kind and side.
pub proof fn lemma_piece_parts(p: Piece)
    requires
        p.is_piece(),
    ensures
        Piece::spec_new(p.spec_piece_type(), p.spec_color()) == p,
        p.spec_piece_type().is_piece(),
{
}

/// Making a piece of a kind and a side, and reading both back.
pub proof fn lemma_piece_new(pt: PieceType, c: Color)
    ensures
        Piece::spec_new(pt, c).spec_piece_type() == pt,
        Piece::spec_new(pt, c).wf() <==> (pt.is_piece() || c == Color::White),
        pt.is_piece() ==> Piece::spec_new(pt, c).spec_color() == c && Piece::spec_new(
            pt,
            c,
        ).is_piece(),
        Piece::spec_new(PieceType::NoPiece, Color::White) == Piece::spec_none(),
{
}

} // verus!
