//! A move: origin, destination, kind, and the piece a pawn becomes.
//!
//! Castling is written as the king taking its own rook: the destination is
//! the rook's square. The destination of an en-passant capture is the empty
//! square behind the captured pawn, which stands on destination XOR 8.

use vstd::prelude::*;
use crate::chess::castling_rights::CastleType;
use crate::chess::color::Color;
use crate::chess::coords::{Square, A1, A8, C1, C8, E1, E8, G1, G8, H1, H8};
use crate::chess::piece::Piece;
use crate::chess::piecetype::PieceType;

verus! {

#[derive(Debug, Copy, Clone, Eq, PartialEq, Structural)]
pub enum MoveType {
    Normal,
    Promotion,
    Castle,
    EnPassant,
}

impl MoveType {
    /// Normal is 0, Promotion 1, Castle 2, EnPassant 3.
    pub open spec fn spec_ordinal(self) -> u8 {
        match self {
            MoveType::Normal => 0,
            MoveType::Promotion => 1,
            MoveType::Castle => 2,
            MoveType::EnPassant => 3,
        }
    }

    /// The kind with the given ordinal; EnPassant for every ordinal above 2.
    pub open spec fn spec_from_ordinal(ordinal: u8) -> MoveType {
        match ordinal {
            0 => MoveType::Normal,
            1 => MoveType::Promotion,
            2 => MoveType::Castle,
            _ => MoveType::EnPassant,
        }
    }

    pub fn from_ordinal(ordinal: u8) -> (r: MoveType)
        requires
            ordinal < 4,
        ensures
            r == MoveType::spec_from_ordinal(ordinal),
            r.spec_ordinal() == ordinal,
    {
        match ordinal {
            0 => MoveType::Normal,
            1 => MoveType::Promotion,
            2 => MoveType::Castle,
            _ => MoveType::EnPassant,
        }
    }

    pub fn ordinal(&self) -> (r: u8)
        ensures
            r == self.spec_ordinal(),
            r < 4,
    {
        match self {
            MoveType::Normal => 0,
            MoveType::Promotion => 1,
            MoveType::Castle => 2,
            MoveType::EnPassant => 3,
        }
    }
}

/// Castling is encoded as king captures rook, e.g. E1G1 is encoded as E1H1.
/// En passant is encoded as a pawn move to the empty target square; the
/// captured pawn stands on `to XOR 8`.
#[derive(Debug, Copy, Clone, Eq, PartialEq, Structural)]
pub struct Move {
    pub from: Square,
    pub to: Square,
    pub move_type: MoveType,
    pub promoted_piece: Piece,
}

/// The letter that a promotion to the given kind adds to a move's text.
pub open spec fn promotion_letter(pt: PieceType) -> char {
    match pt {
        PieceType::Queen => 'q',
        PieceType::Rook => 'r',
        PieceType::Bishop => 'b',
        _ => 'n',
    }
}

impl Move {
    /// The null move: no origin, no destination.
    pub open spec fn spec_null() -> Move {
        Move {
            from: Square::spec_none(),
            to: Square::spec_none(),
            move_type: MoveType::Normal,
            promoted_piece: Piece::spec_none(),
        }
    }

    /// The wing of a castling move, by the file of the rook's square.
    pub open spec fn spec_castle_type(self) -> CastleType {
        if self.to.index % 8 == 7 {
            CastleType::Short
        } else {
            CastleType::Long
        }
    }

    /// The castling move of side `stm` on the given wing.
    pub open spec fn spec_from_castle(ct: CastleType, stm: Color) -> Move {
        let (from, to) = match (ct, stm) {
            (CastleType::Short, Color::White) => (E1, H1),
            (CastleType::Short, Color::Black) => (E8, H8),
            (CastleType::Long, Color::White) => (E1, A1),
            (CastleType::Long, Color::Black) => (E8, A8),
        };
        Move {
            from: Square { index: from as u32 },
            to: Square { index: to as u32 },
            move_type: MoveType::Castle,
            promoted_piece: Piece::spec_none(),
        }
    }

    /// Whether the move can be written in UCI notation: a promotion names
    /// one of knight, bishop, rook and queen, and the rook of a castling
    /// move stands on the a-file or the h-file.
    pub open spec fn has_uci(self) -> bool {
        &&& self.move_type == MoveType::Promotion ==> {
            let pt = self.promoted_piece.spec_piece_type();
            pt == PieceType::Queen || pt == PieceType::Rook || pt == PieceType::Bishop || pt
                == PieceType::Knight
        }
        &&& self.move_type == MoveType::Castle ==> self.to.index % 8 == 7 || self.to.index % 8
            == 0
    }

    /// The square on which the king lands in a castling move.
    pub open spec fn castle_king_target(self) -> Square {
        if self.to.index % 8 == 7 {
            if self.from.index / 8 == 0 {
                Square { index: G1 }
            } else {
                Square { index: G8 }
            }
        } else {
            if self.from.index / 8 == 0 {
                Square { index: C1 }
            } else {
                Square { index: C8 }
            }
        }
    }

    /// The move in UCI notation: origin and destination by name, then the
    /// letter of the promoted piece. A castling move names the square on
    /// which the king lands.
    pub open spec fn spec_uci(self) -> Seq<char> {
        if self.move_type == MoveType::Castle {
            self.from.spec_name() + self.castle_king_target().spec_name()
        } else if self.move_type == MoveType::Promotion {
            (self.from.spec_name() + self.to.spec_name()).push(
                promotion_letter(self.promoted_piece.spec_piece_type()),
            )
        } else {
            self.from.spec_name() + self.to.spec_name()
        }
    }

    pub fn new(from: Square, to: Square, move_type: MoveType, promoted_piece: Piece) -> (r: Move)
        requires
            from.on_board(),
            to.on_board(),
        ensures
            r == (Move { from, to, move_type, promoted_piece }),
    {
        Move { from, to, move_type, promoted_piece }
    }

    pub fn null() -> (r: Move)
        ensures
            r == Move::spec_null(),
    {
        Move {
            from: Square::none(),
            to: Square::none(),
            move_type: MoveType::Normal,
            promoted_piece: Piece::none(),
        }
    }

    /// Get the move type.
    pub fn mtype(&self) -> (r: MoveType)
        ensures
            r == self.move_type,
    {
        self.move_type
    }

    /// Get the promoted piece, `Piece::none()` if not a promotion.
    pub fn promoted_piece(&self) -> (r: Piece)
        ensures
            r == self.promoted_piece,
    {
        self.promoted_piece
    }

    pub fn from(&self) -> (r: Square)
        ensures
            r == self.from,
    {
        self.from
    }

    pub fn to(&self) -> (r: Square)
        ensures
            r == self.to,
    {
        self.to
    }

    pub fn normal(from: Square, to: Square) -> (r: Move)
        ensures
            r == (Move {
                from,
                to,
                move_type: MoveType::Normal,
                promoted_piece: Piece::spec_none(),
            }),
    {
        Move { from, to, move_type: MoveType::Normal, promoted_piece: Piece::none() }
    }

    pub fn en_passant(from: Square, to: Square) -> (r: Move)
        ensures
            r == (Move {
                from,
                to,
                move_type: MoveType::EnPassant,
                promoted_piece: Piece::spec_none(),
            }),
    {
        Move { from, to, move_type: MoveType::EnPassant, promoted_piece: Piece::none() }
    }

    pub fn promotion(from: Square, to: Square, piece: Piece) -> (r: Move)
        ensures
            r == (Move { from, to, move_type: MoveType::Promotion, promoted_piece: piece }),
    {
        Move { from, to, move_type: MoveType::Promotion, promoted_piece: piece }
    }

    pub fn castle(from: Square, to: Square) -> (r: Move)
        ensures
            r == (Move {
                from,
                to,
                move_type: MoveType::Castle,
                promoted_piece: Piece::spec_none(),
            }),
    {
        Move { from, to, move_type: MoveType::Castle, promoted_piece: Piece::none() }
    }

    pub fn from_castle(ct: CastleType, stm: Color) -> (r: Move)
        ensures
            r == Move::spec_from_castle(ct, stm),
    {
        match ct {
            CastleType::Short => {
                if stm == Color::White {
                    Move::castle(Square::new(E1), Square::new(H1))
                } else {
                    Move::castle(Square::new(E8), Square::new(H8))
                }
            },
            CastleType::Long => {
                if stm == Color::White {
                    Move::castle(Square::new(E1), Square::new(A1))
                } else {
                    Move::castle(Square::new(E8), Square::new(A8))
                }
            },
        }
    }

    pub fn castle_type(&self) -> (r: CastleType)
        ensures
            r == self.spec_castle_type(),
    {
        if self.to.file().index == 7 {
            CastleType::Short
        } else {
            CastleType::Long
        }
    }

    /// Format the move as UCI.
    pub fn as_uci(&self) -> (r: String)
        requires
            self.has_uci(),
        ensures
            r@ == self.spec_uci(),
    {
        let mut uci = self.from.to_string();
        if self.move_type == MoveType::Castle {
            // king captures rook
            let first_rank = self.from.rank().index == 0;
            let to = if self.to.file().index == 7 {
                if first_rank {
                    Square::new(G1)
                } else {
                    Square::new(G8)
                }
            } else {
                if first_rank {
                    Square::new(C1)
                } else {
                    Square::new(C8)
                }
            };
            uci.append(to.to_string().as_str());
            return uci;
        }
        uci.append(self.to.to_string().as_str());
        if self.move_type == MoveType::Promotion {
            let letter = match self.promoted_piece.piece_type() {
                PieceType::Queen => 'q',
                PieceType::Rook => 'r',
                PieceType::Bishop => 'b',
                _ => 'n',
            };
            uci.push(letter);
        }
        uci
    }
}

impl Default for Move {
    fn default() -> (r: Move)
        ensures
            r == Move::spec_null(),
    {
        Move::null()
    }
}

} // verus!
