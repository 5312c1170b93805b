//! The slot of a move names the move: the decoder finds, from the rank of
//! the moving piece and the slot, the move that the encoder numbered.

use vstd::prelude::*;
use crate::chess::bits::{
    below64, bit64, clear_lsb, lemma_below, lemma_bit_ext, lemma_bit_ops, lemma_lsb,
    lemma_popcount_clear_lsb, lsb_index, popcount,
};
use crate::chess::castling_rights::CastleType;
use crate::chess::chess_move::{Move, MoveType};
use crate::chess::piece::Piece;
use crate::chess::piecetype::PieceType;
use crate::chess::position::Position;
use crate::common::arithmetic::nth_set_bit;
use crate::common::compressed_move::is_promotion_type;
use crate::common::move_slots::{
    encodable, has_long, index_in, move_of_slot, own, own_castlings, pawn_destinations,
    piece_destinations, promotion_rank, slot_count, slot_of_move,
};

verus! {

/// The lowest set bit of a word is the one set bit below which none is
/// set.
pub proof fn lemma_lsb_unique(x: u64, t: u32)
    requires
        t < 64,
        bit64(x, t as u64),
        forall|j: u64| j < t ==> !bit64(x, j),
    ensures
        lsb_index(x) == t,
{
    lemma_bit_ops(x, x, t as u64);
    if x == 0 {
        lemma_bit_ops(0, 0, t as u64);
    } else {
        lemma_lsb(x);
    }
}

/// The rank of a set bit among the set bits of a word names the bit: the
/// bit with that many set bits below it is the bit itself.
pub proof fn lemma_nth_of_index(set: u64, sq: u32)
    requires
        sq < 64,
        bit64(set, sq as u64),
    ensures
        nth_set_bit(set, index_in(set, sq)) == sq,
        index_in(set, sq) < popcount(set),
    decreases set,
{
    lemma_bit_ops(0, 0, sq as u64);
    lemma_lsb(set);
    lemma_popcount_clear_lsb(set);
    let t = lsb_index(set);
    let below = set & below64(sq as u64);
    assert forall|j: u64| j < 64 implies bit64(below, j) == (bit64(set, j) && j < sq) by {
        lemma_bit_ops(set, below64(sq as u64), j);
        lemma_below(sq as u64, j);
    }
    if t == sq {
        assert forall|j: u64| j < 64 implies bit64(below, j) == bit64(0, j) by {
            lemma_bit_ops(0, 0, j);
        }
        lemma_bit_ext(below, 0);
    } else {
        let rest = clear_lsb(set);
        assert(t < sq);
        assert(bit64(below, t as u64));
        lemma_bit_ops(0, 0, t as u64);
        assert(below != 0);
        lemma_lsb_unique(below, t);
        lemma_lsb(below);
        lemma_popcount_clear_lsb(below);
        let rest_below = rest & below64(sq as u64);
        assert forall|j: u64| j < 64 implies bit64(clear_lsb(below), j) == bit64(rest_below, j) by {
            lemma_bit_ops(rest, below64(sq as u64), j);
            lemma_bit_ops(set, below64(sq as u64), j);
            lemma_below(sq as u64, j);
            assert(bit64(clear_lsb(below), j) == (bit64(below, j) && j != t));
            assert(bit64(rest, j) == (bit64(set, j) && j != t));
        }
        lemma_bit_ext(clear_lsb(below), rest_below);
        lemma_nth_of_index(rest, sq);
        assert(index_in(set, sq) == 1 + index_in(rest, sq));
    }
}

/// Whether `mv` is a move that a chain can hold: a piece of the side to
/// move goes to one of its destinations, and the kind of the move and its
/// promoted piece are those that the decoder gives to that destination.
/// A castling move is the one that `Move::from_castle` makes, and the
/// side has the right to it.
pub open spec fn chain_move(pos: Position, mv: Move) -> bool {
    let from = mv.from.index;
    let to = mv.to.index;
    let piece = pos.pieces[from as int];
    let plain = mv.move_type == MoveType::Normal && mv.promoted_piece == Piece::spec_none();
    &&& mv.from.on_board()
    &&& mv.to.on_board()
    &&& piece.is_piece()
    &&& piece.spec_color() == pos.stm
    &&& match piece.spec_piece_type() {
        PieceType::Pawn => bit64(pawn_destinations(pos, from), to as u64) && (if from / 8
            == promotion_rank(pos.stm) {
            mv.move_type == MoveType::Promotion && is_promotion_type(
                mv.promoted_piece.spec_piece_type(),
            ) && mv.promoted_piece == Piece::spec_new(
                mv.promoted_piece.spec_piece_type(),
                pos.stm,
            )
        } else {
            mv.promoted_piece == Piece::spec_none() && mv.move_type == (if to
                == pos.enpassant.index {
                MoveType::EnPassant
            } else {
                MoveType::Normal
            })
        }),
        PieceType::King => if mv.move_type == MoveType::Castle {
            (mv == Move::spec_from_castle(CastleType::Long, pos.stm) && has_long(pos)) || (mv
                == Move::spec_from_castle(CastleType::Short, pos.stm) && has_short(pos))
        } else {
            plain && bit64(piece_destinations(pos, PieceType::King, from), to as u64)
        },
        pt => plain && bit64(piece_destinations(pos, pt, from), to as u64),
    }
}

/// Whether the side to move may still castle short.
pub open spec fn has_short(pos: Position) -> bool {
    pos.castling_rights.has(
        crate::chess::castling_rights::castling_flag(pos.stm, CastleType::Short),
    )
}

proof fn lemma_castling_count(rights: u8, mask: u8, long: u8, short: u8)
    by (bit_vector)
    requires
        (mask == 3 && long == 2 && short == 1) || (mask == 12 && long == 8 && short == 4),
    ensures
        rights & long == long ==> (rights & mask) != 0,
        rights & short == short ==> (rights & mask) != 0,
        rights & long == long && rights & short == short ==> ((rights & mask) as u64) & ((((
        rights & mask) as u64) - 1) as u64) != 0,
{
}

/// The side to move has at least as many castling rights as it has of
/// the two named ones.
proof fn lemma_own_castlings(pos: Position)
    ensures
        has_long(pos) || has_short(pos) ==> own_castlings(pos) >= 1,
        has_long(pos) && has_short(pos) ==> own_castlings(pos) >= 2,
{
    let mask = crate::chess::castling_rights::castling_flags_of(pos.stm);
    let long = crate::chess::castling_rights::castling_flag(pos.stm, CastleType::Long);
    let short = crate::chess::castling_rights::castling_flag(pos.stm, CastleType::Short);
    let word = (pos.castling_rights.0 & mask) as u64;
    lemma_castling_count(pos.castling_rights.0, mask, long, short);
    if has_long(pos) || has_short(pos) {
        lemma_popcount_clear_lsb(word);
        if has_long(pos) && has_short(pos) {
            lemma_popcount_clear_lsb(clear_lsb(word));
        }
    }
}

/// The squares of the side to move are those on which the piece list has
/// a piece of its color.
pub proof fn lemma_own_square(pos: Position, sq: u32)
    requires
        pos.wf(),
        sq < 64,
    ensures
        bit64(own(pos), sq as u64) == (pos.pieces[sq as int].is_piece()
            && pos.pieces[sq as int].spec_color() == pos.stm),
{
    let c = pos.stm.spec_ordinal() as int;
    assert(pos.color_bit(c, sq as int) <==> (pos.pieces[sq as int].is_piece()
        && pos.pieces[sq as int].id % 2 == c));
}

/// The decoder finds the move that the encoder numbered: the rank of the
/// origin among the pieces of the side to move names the origin, and the
/// slot of the move, which is one of the slots of the piece, names the
/// move.
pub proof fn lemma_slot_roundtrip(pos: Position, mv: Move)
    requires
        pos.wf(),
        chain_move(pos, mv),
    ensures
        index_in(own(pos), mv.from.index) < popcount(own(pos)),
        nth_set_bit(own(pos), index_in(own(pos), mv.from.index)) == mv.from.index,
        0 <= slot_of_move(pos, mv) < slot_count(pos, mv.from.index),
        move_of_slot(pos, mv.from.index, slot_of_move(pos, mv) as nat) == Some(mv),
{
    let from = mv.from.index;
    let to = mv.to.index;
    lemma_own_square(pos, from);
    lemma_nth_of_index(own(pos), from);
    match pos.pieces[from as int].spec_piece_type() {
        PieceType::Pawn => {
            lemma_nth_of_index(pawn_destinations(pos, from), to);
        },
        PieceType::King => {
            lemma_own_castlings(pos);
            if mv.move_type != MoveType::Castle {
                lemma_nth_of_index(piece_destinations(pos, PieceType::King, from), to);
            }
        },
        pt => {
            lemma_nth_of_index(piece_destinations(pos, pt, from), to);
        },
    }
}

/// A move that a chain can hold is a move that the writer takes as a
/// continuation.
pub proof fn lemma_chain_move_encodable(pos: Position, mv: Move)
    requires
        pos.wf(),
        chain_move(pos, mv),
    ensures
        encodable(pos, mv),
{
    lemma_slot_roundtrip(pos, mv);
}

} // verus!
