//! A move that moves the pieces as a move of chess does keeps the board
//! consistent.

use vstd::prelude::*;
use crate::chess::board_lemmas::{lemma_place_wf, lemma_remove_wf, lemma_wf_same_board};
use crate::chess::chess_move::{Move, MoveType};
use crate::chess::coords::lemma_square_index_bits;
use crate::chess::piece::{lemma_piece_parts, Piece};
use crate::chess::piecetype::PieceType;
use crate::chess::position::{castle_targets, Position};

verus! {

/// Lifting the moving piece, and taking the piece on the destination,
/// keeps the board consistent and empties both squares, but for the rook
/// of a castling move.
pub proof fn lemma_lift_wf(pos: Position, mv: Move)
    requires
        pos.wf(),
        pos.playable(mv),
    ensures
        pos.spec_lift(mv).wf(),
        pos.spec_lift(mv).stm == pos.stm,
        pos.spec_lift(mv).pieces[mv.from.index as int] == Piece::spec_none(),
        mv.move_type != MoveType::Castle ==> pos.spec_lift(mv).pieces[mv.to.index as int]
            == Piece::spec_none(),
        forall|sq: int|
            0 <= sq < 64 && sq != mv.from.index && sq != mv.to.index ==> #[trigger] pos.spec_lift(
                mv,
            ).pieces[sq] == pos.pieces[sq],
        mv.move_type == MoveType::Castle ==> pos.spec_lift(mv).pieces[mv.to.index as int]
            == pos.pieces[mv.to.index as int],
{
    let us = pos.stm;
    let them = us.flip();
    let from = mv.from.index;
    let to = mv.to.index;
    let piece = pos.pieces[from as int];
    let pt = piece.spec_piece_type();
    lemma_piece_parts(piece);
    lemma_remove_wf(pos, us, pt, from);
    let raised = pos.spec_remove_piecetype(us, pt, from);
    let cleared = if pos.captures(mv) {
        let target = pos.pieces[to as int];
        let cap_pt = target.spec_piece_type();
        lemma_piece_parts(target);
        assert(raised.pieces[to as int] == Piece::spec_new(cap_pt, them));
        lemma_remove_wf(raised, them, cap_pt, to);
        let q = raised.spec_remove_piecetype(them, cap_pt, to);
        if cap_pt == PieceType::Rook {
            lemma_wf_same_board(q, q.spec_update_castling(them, from, to));
            q.spec_update_castling(them, from, to)
        } else {
            q
        }
    } else {
        raised
    };
    if pt == PieceType::King || pt == PieceType::Rook {
        lemma_wf_same_board(cleared, cleared.spec_update_castling(us, from, to));
    }
}

/// Making a move that moves the pieces as a move of chess does keeps the
/// board consistent.
pub proof fn lemma_move_keeps_wf(pos: Position, mv: Move)
    requires
        pos.wf(),
        pos.playable(mv),
    ensures
        pos.spec_after_move(mv).wf(),
{
    let us = pos.stm;
    let them = us.flip();
    let from = mv.from.index;
    let to = mv.to.index;
    let piece = pos.pieces[from as int];
    let lifted = pos.spec_lift(mv);
    lemma_lift_wf(pos, mv);
    lemma_piece_parts(piece);
    lemma_square_index_bits(to);
    let board = lifted.spec_settle(mv, piece);
    match mv.move_type {
        MoveType::Normal => {
            lemma_place_wf(lifted, us, piece, to);
        },
        MoveType::Promotion => {
            lemma_place_wf(lifted, us, mv.promoted_piece, to);
        },
        MoveType::EnPassant => {
            let beside = (to ^ 8) as u32;
            assert(lifted.pieces[beside as int] == pos.pieces[beside as int]);
            lemma_remove_wf(lifted, them, PieceType::Pawn, beside);
            let taken = lifted.spec_remove_piecetype(them, PieceType::Pawn, beside);
            lemma_place_wf(taken, us, piece, to);
        },
        MoveType::Castle => {
            let (rook_to, king_to) = castle_targets(us, mv.spec_castle_type());
            let rook = lifted.pieces[to as int];
            lemma_remove_wf(lifted, us, PieceType::Rook, to);
            let no_rook = lifted.spec_remove_piecetype(us, PieceType::Rook, to);
            assert(no_rook.pieces[rook_to as int] == Piece::spec_none());
            lemma_place_wf(no_rook, us, rook, rook_to);
            let with_rook = no_rook.spec_place_piece(us, rook, rook_to);
            assert(with_rook.pieces[king_to as int] == Piece::spec_none());
            lemma_place_wf(with_rook, us, piece, king_to);
        },
    }
    lemma_wf_same_board(board, pos.spec_after_move(mv));
}

} // verus!
