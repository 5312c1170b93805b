//! How a move is numbered in a chain: by the rank of its origin among the
//! pieces of the side to move, and by its slot among the moves of that
//! piece. Encoder and decoder share the destination sets defined here.

use vstd::prelude::*;
use crate::chess::attacks;
use crate::chess::attacks::{pawn_attacks, piece_attack_set};
use crate::chess::bitboard::Bitboard;
use crate::chess::bits::{below64, bit64, lemma_popcount_bound, popcount};
use crate::chess::castling_rights::{castling_flag, castling_flags_of, CastleType};
use crate::chess::chess_move::{Move, MoveType};
use crate::chess::color::Color;
use crate::chess::coords::Square;
use crate::chess::piece::Piece;
use crate::chess::piecetype::PieceType;
use crate::chess::position::Position;
use crate::common::arithmetic::{bit_length, nth_set_bit, used_bits};
use crate::common::compressed_move::is_promotion_type;

verus! {

/// The squares of the pieces of the side to move.
pub open spec fn own(pos: Position) -> u64 {
    pos.spec_pieces_bb(pos.stm)
}

/// The squares of the pieces of the other side.
pub open spec fn theirs(pos: Position) -> u64 {
    pos.spec_pieces_bb(pos.stm.flip())
}

/// The squares of all pieces.
pub open spec fn all(pos: Position) -> u64 {
    own(pos) | theirs(pos)
}

/// The square one rank ahead of `sq`, as side `us` sees it. It may lie
/// beyond the board.
pub open spec fn step_forward(us: Color, sq: int) -> int {
    match us {
        Color::White => sq + 8,
        Color::Black => sq - 8,
    }
}

/// The rank on which the pawns of side `us` start.
pub open spec fn start_rank(us: Color) -> int {
    match us {
        Color::White => 1,
        Color::Black => 6,
    }
}

/// The rank from which the pawns of side `us` promote.
pub open spec fn promotion_rank(us: Color) -> int {
    match us {
        Color::White => 6,
        Color::Black => 1,
    }
}

/// The squares that a pawn of the side to move on `from` can capture on:
/// those it attacks that hold a piece of the other side or are the
/// en-passant square.
pub open spec fn pawn_captures(pos: Position, from: u32) -> u64 {
    pawn_attacks(pos.stm, from) & (theirs(pos) | (if pos.enpassant.index < 64 {
        1u64 << pos.enpassant.index
    } else {
        0u64
    }))
}

/// The destinations of the pawn of the side to move on `from`: its
/// captures, the square ahead if it is empty, and from the start rank the
/// square behind that one if it is empty too.
pub open spec fn pawn_destinations(pos: Position, from: u32) -> u64 {
    let one = step_forward(pos.stm, from as int);
    let two = step_forward(pos.stm, one);
    if 0 <= one < 64 && !bit64(all(pos), one as u64) {
        if from / 8 == start_rank(pos.stm) && 0 <= two < 64 && !bit64(all(pos), two as u64) {
            pawn_captures(pos, from) | (1u64 << (one as u64)) | (1u64 << (two as u64))
        } else {
            pawn_captures(pos, from) | (1u64 << (one as u64))
        }
    } else {
        pawn_captures(pos, from)
    }
}

/// The destinations of a piece of kind `pt` other than a pawn: the squares
/// it attacks that hold no piece of its own side.
pub open spec fn piece_destinations(pos: Position, pt: PieceType, from: u32) -> u64 {
    piece_attack_set(pt, from, all(pos)) & !own(pos)
}

/// The number of set bits of `set` below square `sq`.
pub open spec fn index_in(set: u64, sq: u32) -> nat {
    popcount(set & below64(sq as u64))
}

/// The castling rights that the side to move still has.
pub open spec fn own_castlings(pos: Position) -> nat {
    popcount((pos.castling_rights.0 & castling_flags_of(pos.stm)) as u64)
}

/// Whether the side to move may still castle long.
pub open spec fn has_long(pos: Position) -> bool {
    pos.castling_rights.has(castling_flag(pos.stm, CastleType::Long))
}

/// The number of slots of the piece on `from`. A pawn that promotes has
/// four slots for each destination. A king has one slot more for each
/// castling right of its side.
pub open spec fn slot_count(pos: Position, from: u32) -> nat {
    match pos.pieces[from as int].spec_piece_type() {
        PieceType::Pawn => {
            let n = popcount(pawn_destinations(pos, from));
            if from / 8 == promotion_rank(pos.stm) {
                4 * n
            } else {
                n
            }
        },
        PieceType::King => popcount(piece_destinations(pos, PieceType::King, from))
            + own_castlings(pos),
        PieceType::NoPiece => 0,
        pt => popcount(piece_destinations(pos, pt, from)),
    }
}

/// The slot of a move. A destination has the slot of its rank in the
/// destination set; the promotions to one destination follow each other
/// from knight to queen. The castling moves come after the king's other
/// moves: long before short, where both rights are left.
pub open spec fn slot_of_move(pos: Position, mv: Move) -> int {
    let from = mv.from.index;
    match pos.pieces[from as int].spec_piece_type() {
        PieceType::Pawn => {
            let at = index_in(pawn_destinations(pos, from), mv.to.index);
            if from / 8 == promotion_rank(pos.stm) {
                4 * at + mv.promoted_piece.spec_piece_type().spec_ordinal() - 1
            } else {
                at as int
            }
        },
        PieceType::King => {
            let attacks = piece_destinations(pos, PieceType::King, from);
            if mv.move_type == MoveType::Castle {
                popcount(attacks) - 1 + (if has_long(pos) {
                    1int
                } else {
                    0int
                }) + (if mv.spec_castle_type() == CastleType::Short {
                    1int
                } else {
                    0int
                })
            } else {
                index_in(attacks, mv.to.index) as int
            }
        },
        pt => index_in(piece_destinations(pos, pt, from), mv.to.index) as int,
    }
}

/// Whether a move can be given a slot: both squares are on the board, a
/// piece stands on the origin, a pawn on its promotion rank names the
/// piece it becomes, and a castling move has a slot.
pub open spec fn encodable(pos: Position, mv: Move) -> bool {
    &&& mv.from.on_board()
    &&& mv.to.on_board()
    &&& pos.pieces[mv.from.index as int].is_piece()
    &&& (pos.pieces[mv.from.index as int].spec_piece_type() == PieceType::Pawn && mv.from.index / 8
        == promotion_rank(pos.stm)) ==> is_promotion_type(mv.promoted_piece.spec_piece_type())
    &&& (pos.pieces[mv.from.index as int].spec_piece_type() == PieceType::King && mv.move_type
        == MoveType::Castle) ==> slot_of_move(pos, mv) >= 0
}

/// The move of the piece on `from` that has the given slot, if there is
/// a destination for it.
pub open spec fn move_of_slot(pos: Position, from: u32, slot: nat) -> Option<Move> {
    let origin = Square { index: from };
    match pos.pieces[from as int].spec_piece_type() {
        PieceType::Pawn => {
            let destinations = pawn_destinations(pos, from);
            if from / 8 == promotion_rank(pos.stm) {
                let to = nth_set_bit(destinations, slot / 4);
                if to >= 64 {
                    None
                } else {
                    Some(
                        Move {
                            from: origin,
                            to: Square { index: to },
                            move_type: MoveType::Promotion,
                            promoted_piece: Piece::spec_new(
                                PieceType::spec_from_ordinal((slot % 4 + 1) as u8),
                                pos.stm,
                            ),
                        },
                    )
                }
            } else {
                let to = nth_set_bit(destinations, slot);
                if to >= 64 {
                    None
                } else {
                    Some(
                        Move {
                            from: origin,
                            to: Square { index: to },
                            move_type: if to == pos.enpassant.index {
                                MoveType::EnPassant
                            } else {
                                MoveType::Normal
                            },
                            promoted_piece: Piece::spec_none(),
                        },
                    )
                }
            }
        },
        PieceType::King => {
            let attacks = piece_destinations(pos, PieceType::King, from);
            if slot >= popcount(attacks) {
                Some(
                    Move::spec_from_castle(
                        if slot == popcount(attacks) && has_long(pos) {
                            CastleType::Long
                        } else {
                            CastleType::Short
                        },
                        pos.stm,
                    ),
                )
            } else {
                let to = nth_set_bit(attacks, slot);
                if to >= 64 {
                    None
                } else {
                    Some(
                        Move {
                            from: origin,
                            to: Square { index: to },
                            move_type: MoveType::Normal,
                            promoted_piece: Piece::spec_none(),
                        },
                    )
                }
            }
        },
        PieceType::NoPiece => None,
        pt => {
            let to = nth_set_bit(piece_destinations(pos, pt, from), slot);
            if to >= 64 {
                None
            } else {
                Some(
                    Move {
                        from: origin,
                        to: Square { index: to },
                        move_type: MoveType::Normal,
                        promoted_piece: Piece::spec_none(),
                    },
                )
            }
        },
    }
}

proof fn lemma_bit_length_bound(x: nat, k: nat)
    requires
        x < vstd::arithmetic::power2::pow2(k),
    ensures
        bit_length(x) <= k,
    decreases k,
{
    vstd::arithmetic::power2::lemma2_to64();
    if x != 0 && k > 0 {
        vstd::arithmetic::power2::lemma_pow2_unfold(k);
        lemma_bit_length_bound(x / 2, (k - 1) as nat);
    }
}

/// A field for one of at most 256 values is at most eight bits wide.
pub proof fn lemma_used_bits_bound(n: nat)
    requires
        n <= 256,
    ensures
        used_bits(n) <= 8,
{
    vstd::arithmetic::power2::lemma2_to64();
    if n > 0 {
        lemma_bit_length_bound((n - 1) as nat, 8);
    }
}

/// The destinations of the pawn of the side to move on `from`.
pub fn pawn_destinations_of(pos: &Position, from: Square) -> (r: Bitboard)
    requires
        from.on_board(),
    ensures
        r.data == pawn_destinations(*pos, from.index),
{
    let us = pos.side_to_move();
    let white = us == Color::White;
    let their_pieces: u64 = pos.pieces_bb(us.opposite()).bits();
    let occupied: u64 = pos.pieces_bb(us).bits() | their_pieces;
    let ep_square = pos.ep_square();
    let ep_target: u64 = if ep_square.index() < 64 {
        1u64 << ep_square.index()
    } else {
        0
    };
    let captures: u64 = attacks::pawn(us, from).bits() & (their_pieces | ep_target);
    let from_index: i32 = from.index() as i32;
    let one: i32 = if white {
        from_index + 8
    } else {
        from_index - 8
    };
    let two: i32 = if white {
        one + 8
    } else {
        one - 8
    };
    let start: u32 = if white {
        1
    } else {
        6
    };
    if 0 <= one && one < 64 && !Bitboard::new(occupied).is_set(one as u32) {
        // Add double push if on starting rank
        if from.index() / 8 == start && 0 <= two && two < 64 && !Bitboard::new(occupied).is_set(
            two as u32,
        ) {
            Bitboard::new(captures | (1u64 << (one as u32)) | (1u64 << (two as u32)))
        } else {
            Bitboard::new(captures | (1u64 << (one as u32)))
        }
    } else {
        Bitboard::new(captures)
    }
}

/// The destinations of the piece of kind `pt`, which is no pawn, on
/// `from`.
pub fn piece_destinations_of(pos: &Position, pt: PieceType, from: Square) -> (r: Bitboard)
    requires
        from.on_board(),
        pt != PieceType::Pawn,
        pt != PieceType::NoPiece,
    ensures
        r.data == piece_destinations(*pos, pt, from.index),
{
    let us = pos.side_to_move();
    let our_pieces: u64 = pos.pieces_bb(us).bits();
    let occupied: u64 = our_pieces | pos.pieces_bb(us.opposite()).bits();
    Bitboard::new(attacks::piece_attacks(pt, from, Bitboard::new(occupied)).bits() & !our_pieces)
}

/// The number of castling rights that the side to move still has.
pub fn own_castlings_of(pos: &Position) -> (r: u32)
    ensures
        r == own_castlings(*pos),
        r <= 64,
{
    let mask = crate::chess::castling_rights::CastlingRights::castling_rights(pos.side_to_move());
    proof {
        lemma_popcount_bound((pos.castling_rights.0 & castling_flags_of(pos.stm)) as u64);
    }
    crate::chess::castling_rights::CastlingRights::new(pos.castling_rights().0 & mask.0).count_ones()
}

} // verus!
