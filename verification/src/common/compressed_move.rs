//! A move in 16 bits. From the most significant bit down: 2 bits for the
//! kind of move, 6 for the origin, 6 for the destination, 2 for the
//! promoted piece (its kind less that of the knight; 0 if the move is no
//! promotion). The null move is all zero.

use vstd::prelude::*;
use crate::chess::chess_move::{Move, MoveType};
use crate::chess::color::Color;
use crate::chess::coords::Square;
use crate::chess::piece::Piece;
use crate::chess::piecetype::PieceType;

verus! {

/// A compressed move representation, using 16 bits.
#[derive(Debug, Copy, Clone, Eq, PartialEq, Structural)]
pub struct CompressedMove {
    pub packed: u16,
}

/// Whether a promotion may name a piece of this kind.
pub open spec fn is_promotion_type(pt: PieceType) -> bool {
    pt == PieceType::Knight || pt == PieceType::Bishop || pt == PieceType::Rook || pt
        == PieceType::Queen
}

/// Whether the move can be packed: it is a move from a square to itself,
/// which is packed as the null move, or both its squares are on the board
/// and, if it is a promotion, it names a knight, bishop, rook or queen.
pub open spec fn packable(m: Move) -> bool {
    m.from == m.to || (m.from.on_board() && m.to.on_board() && (m.move_type == MoveType::Promotion
        ==> is_promotion_type(m.promoted_piece.spec_piece_type())))
}

/// The two bits that stand for the promoted piece.
pub open spec fn promotion_bits(m: Move) -> int {
    if m.move_type == MoveType::Promotion {
        m.promoted_piece.spec_piece_type().spec_ordinal() - 1
    } else {
        0
    }
}

/// The 16 bits of a move.
pub open spec fn pack_move(m: Move) -> u16 {
    if m.from == m.to {
        0
    } else {
        (m.move_type.spec_ordinal() * 16384 + m.from.index * 256 + m.to.index * 4
            + promotion_bits(m)) as u16
    }
}

/// The side whose pawn promotes on square `to`: Black on the first rank,
/// White elsewhere.
pub open spec fn promoting_side(to: u32) -> Color {
    if to / 8 == 0 {
        Color::Black
    } else {
        Color::White
    }
}

/// Whether the fields of a move fit together: the null move, or a move
/// between two different squares of the board that names a promoted piece
/// exactly if it is a promotion, and then one of the side that promotes
/// on its destination.
pub open spec fn canonical(m: Move) -> bool {
    m == Move::spec_null() || (m.from != m.to && m.from.on_board() && m.to.on_board() && (
    if m.move_type == MoveType::Promotion {
        is_promotion_type(m.promoted_piece.spec_piece_type()) && m.promoted_piece
            == Piece::spec_new(m.promoted_piece.spec_piece_type(), promoting_side(m.to.index))
    } else {
        m.promoted_piece == Piece::spec_none()
    }))
}

proof fn lemma_pack_bits(t: u16, f: u16, to: u16, p: u16)
    by (bit_vector)
    requires
        t < 4,
        f < 64,
        to < 64,
        p < 4,
    ensures
        (t << 14) | (f << 8) | (to << 2) == t * 16384 + f * 256 + to * 4,
        ((t << 14) | (f << 8) | (to << 2)) | p == t * 16384 + f * 256 + to * 4 + p,
{
}

proof fn lemma_unpack_bits(x: u16)
    by (bit_vector)
    ensures
        x >> 14 == x / 16384,
        (x >> 8) & 63 == (x / 256) % 64,
        (x >> 2) & 63 == (x / 4) % 64,
        x & 3 == x % 4,
        x >> 8 == x / 256,
        x & 0xFF == x % 256,
{
}

proof fn lemma_fields(t: u16, f: u16, to: u16, p: u16, x: u16)
    by (bit_vector)
    requires
        t < 4,
        f < 64,
        to < 64,
        p < 4,
        x == t * 16384 + f * 256 + to * 4 + p,
    ensures
        x / 16384 == t,
        (x / 256) % 64 == f,
        (x / 4) % 64 == to,
        x % 4 == p,
{
}

impl CompressedMove {
    pub open spec fn spec_move_type(self) -> MoveType {
        MoveType::spec_from_ordinal((self.packed / 16384) as u8)
    }

    pub open spec fn spec_from(self) -> Square {
        Square { index: ((self.packed / 256) % 64) as u32 }
    }

    pub open spec fn spec_to(self) -> Square {
        Square { index: ((self.packed / 4) % 64) as u32 }
    }

    /// The promoted piece: its kind from the lowest two bits, its side from
    /// the rank of the destination. No piece if the move is no promotion.
    pub open spec fn spec_promoted_piece(self) -> Piece {
        if self.spec_move_type() == MoveType::Promotion {
            Piece::spec_new(
                PieceType::spec_from_ordinal((self.packed % 4 + 1) as u8),
                promoting_side(self.spec_to().index),
            )
        } else {
            Piece::spec_none()
        }
    }

    /// The move that the 16 bits stand for.
    pub open spec fn spec_decompress(self) -> Move {
        if self.packed == 0 {
            Move::spec_null()
        } else {
            Move {
                from: self.spec_from(),
                to: self.spec_to(),
                move_type: self.spec_move_type(),
                promoted_piece: self.spec_promoted_piece(),
            }
        }
    }

    pub fn byte_size() -> (r: usize)
        ensures
            r == 2,
    {
        2
    }

    pub fn read_from_big_endian(data: &[u8]) -> (r: CompressedMove)
        requires
            data@.len() >= 2,
        ensures
            r.packed == data@[0] * 256 + data@[1],
    {
        proof {
            crate::common::arithmetic::lemma_word_bits(0, data@[0], data@[1], 0);
        }
        CompressedMove { packed: ((data[0] as u16) << 8) | (data[1] as u16) }
    }

    pub fn new() -> (r: CompressedMove)
        ensures
            r.packed == 0,
    {
        CompressedMove { packed: 0 }
    }

    /// The move must be either valid or a null move.
    pub fn from_move(move_: Move) -> (r: CompressedMove)
        requires
            packable(move_),
        ensures
            r.packed == pack_move(move_),
    {
        let mut packed: u16 = 0;

        // else null move
        if move_.from() != move_.to() {
            let t: u16 = move_.mtype().ordinal() as u16;
            let f: u16 = move_.from().index() as u16;
            let to: u16 = move_.to().index() as u16;
            let p: u16 = if move_.mtype() == MoveType::Promotion {
                (move_.promoted_piece().piece_type().ordinal() - PieceType::Knight.ordinal()) as u16
            } else {
                0
            };
            proof {
                lemma_pack_bits(t, f, to, p);
            }
            packed = (t << 14) | (f << 8) | (to << 2);
            if move_.mtype() == MoveType::Promotion {
                packed = packed | p;
            }
        }
        CompressedMove { packed }
    }

    pub fn write_to_big_endian(&self, data: &mut [u8; 2])
        ensures
            final(data)[0] == self.packed / 256,
            final(data)[1] == self.packed % 256,
    {
        proof {
            lemma_unpack_bits(self.packed);
        }
        data[0] = (self.packed >> 8) as u8;
        data[1] = (self.packed & 0xFF) as u8;
    }

    pub fn move_type(&self) -> (r: MoveType)
        ensures
            r == self.spec_move_type(),
    {
        proof {
            lemma_unpack_bits(self.packed);
        }
        MoveType::from_ordinal((self.packed >> 14) as u8)
    }

    pub fn from(&self) -> (r: Square)
        ensures
            r == self.spec_from(),
    {
        proof {
            lemma_unpack_bits(self.packed);
        }
        Square::new(((self.packed >> 8) & 63) as u32)
    }

    pub fn to(&self) -> (r: Square)
        ensures
            r == self.spec_to(),
    {
        proof {
            lemma_unpack_bits(self.packed);
        }
        Square::new(((self.packed >> 2) & 63) as u32)
    }

    pub fn promoted_piece(&self) -> (r: Piece)
        ensures
            r == self.spec_promoted_piece(),
    {
        if self.move_type() == MoveType::Promotion {
            let color = if self.to().rank().index == 0 {
                Color::Black
            } else {
                Color::White
            };
            proof {
                lemma_unpack_bits(self.packed);
            }
            let piece_type = PieceType::from_ordinal(
                ((self.packed & 3) as u8) + PieceType::Knight.ordinal(),
            );
            Piece::new(piece_type, color)
        } else {
            Piece::none()
        }
    }

    pub fn decompress(&self) -> (r: Move)
        ensures
            r == self.spec_decompress(),
    {
        if self.packed == 0 {
            Move::null()
        } else {
            let move_type = self.move_type();
            let from = self.from();
            let to = self.to();
            let promoted_piece = self.promoted_piece();
            Move::new(from, to, move_type, promoted_piece)
        }
    }

    pub fn compress(move_: &Move) -> (r: CompressedMove)
        requires
            packable(*move_),
        ensures
            r.packed == pack_move(*move_),
    {
        CompressedMove::from_move(*move_)
    }
}

impl Default for CompressedMove {
    fn default() -> (r: CompressedMove)
        ensures
            r.packed == 0,
    {
        CompressedMove::new()
    }
}

/// Packing a move whose fields fit together, and unpacking the 16 bits,
/// gives the move back.
pub proof fn lemma_move_roundtrip(m: Move)
    requires
        canonical(m),
    ensures
        packable(m),
        (CompressedMove { packed: pack_move(m) }).spec_decompress() == m,
{
    if m != Move::spec_null() {
        let packed = pack_move(m);
        let t = m.move_type.spec_ordinal() as u16;
        let p = promotion_bits(m) as u16;
        lemma_fields(t, m.from.index as u16, m.to.index as u16, p, packed);
    }
}

} // verus!
