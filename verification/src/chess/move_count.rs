//! Counting the pseudo-legal moves of a position before they are listed:
//! a move list holds 256 moves, and a board with many pieces can have
//! more.

use vstd::prelude::*;
use arrayvec::ArrayVec;
use crate::chess::attacks::{
    can_castle, castle_move, castling_moves, long_flag, long_rook, moves_of, pawn, pawn_attacks,
    pawn_capture_moves, pawn_capture_to, pawn_moves, pawn_push_moves, piece_attacks, piece_moves,
    pieces_attacking_square, pop_lsb, pseudo_legal_moves, pseudo_legal_moves_of, short_flag,
    short_rook, target_moves,
};
use crate::chess::castling_rights::{
    BLACK_KING_SIDE, BLACK_QUEEN_SIDE, WHITE_KING_SIDE, WHITE_QUEEN_SIDE,
};
use crate::chess::chess_move::Move;
use crate::chess::color::Color;
use crate::chess::coords::{Square, A1, A8, H1, H8};
use crate::chess::piece::Piece;
use crate::chess::piecetype::PieceType;
use crate::chess::position::Position;

verus! {

/// The number of moves that a move list holds.
pub const MOVE_LIST_SIZE: u32 = 256;

/// A count of moves, as far as it matters: every count beyond the size
/// of a move list stands for too many.
pub open spec fn capped(n: int) -> int {
    if n > 256 {
        257
    } else {
        n
    }
}

fn add_capped(count: u32, more: u32) -> (r: u32)
    requires
        count <= 257,
        more <= 4,
    ensures
        r == capped(count + more),
{
    if count + more > MOVE_LIST_SIZE {
        257
    } else {
        count + more
    }
}

/// The number of pushes of the pawn of `side` on `from_sq`.
fn count_pawn_pushes(pos: &Position, side: Color, from_sq: Square) -> (r: u32)
    requires
        from_sq.on_board(),
    ensures
        r == pawn_push_moves(*pos, side, from_sq.index).len(),
        r <= 4,
{
    let white = side == Color::White;
    let start_rank: u32 = if white {
        1
    } else {
        6
    };
    let from: i32 = from_sq.index() as i32;
    let one_step: i32 = if white {
        from + 8
    } else {
        from - 8
    };
    if !(0 <= one_step && one_step < 64) || pos.piece_at(Square::new(one_step as u32))
        != Piece::none() {
        return 0;
    }
    let on_last_rank = if white {
        56 <= one_step
    } else {
        one_step < 8
    };
    if on_last_rank {
        return 4;
    }
    if from_sq.index() / 8 == start_rank {
        let two_step: i32 = if white {
            one_step + 8
        } else {
            one_step - 8
        };
        if 0 <= two_step && two_step < 64 && pos.piece_at(Square::new(two_step as u32))
            == Piece::none() {
            return 2;
        }
    }
    1
}

/// `count` and the number of captures of the pawn of `side` on `from_sq`.
fn count_pawn_captures(pos: &Position, side: Color, from_sq: Square, count: u32) -> (r: u32)
    requires
        from_sq.on_board(),
        count <= 257,
    ensures
        r == capped(
            count + pawn_capture_moves(
                *pos,
                side,
                from_sq.index,
                pawn_attacks(side, from_sq.index),
            ).len(),
        ),
{
    let mut attacks: u64 = pawn(side, from_sq).bits();
    let ep_square = pos.ep_square();
    let ghost whole = pawn_capture_moves(*pos, side, from_sq.index, attacks);
    let mut found: u32 = count;
    while attacks != 0
        invariant
            from_sq.on_board(),
            ep_square == pos.enpassant,
            found <= 257,
            capped(found + pawn_capture_moves(*pos, side, from_sq.index, attacks).len()) == capped(
                count + whole.len(),
            ),
        decreases attacks,
    {
        let ghost rest = attacks;
        let to_sq = pop_lsb(&mut attacks);
        let ghost here = pawn_capture_to(*pos, side, from_sq.index, to_sq.index);
        let ghost others = pawn_capture_moves(*pos, side, from_sq.index, attacks);
        assert(pawn_capture_moves(*pos, side, from_sq.index, rest) == here + others);
        assert((here + others).len() == here.len() + others.len());
        if ep_square.index() != 64 && to_sq.index() == ep_square.index() {
            found = add_capped(found, 1);
        } else {
            let target = pos.piece_at(to_sq);
            if target != Piece::none() && target.color() != side {
                let on_last_rank = if side == Color::White {
                    56 <= to_sq.index()
                } else {
                    to_sq.index() < 8
                };
                if on_last_rank {
                    found = add_capped(found, 4);
                } else {
                    found = add_capped(found, 1);
                }
            }
        }
    }
    found
}

/// `count` and the number of moves of the pawns of `side`.
fn count_pawn_moves(pos: &Position, side: Color, count: u32) -> (r: u32)
    requires
        count <= 257,
    ensures
        r == capped(
            count + pawn_moves(*pos, side, pos.spec_pieces_bb_color(side, PieceType::Pawn)).len(),
        ),
{
    let mut pawns: u64 = pos.pieces_bb_color(side, PieceType::Pawn).bits();
    let ghost whole = pawn_moves(*pos, side, pawns);
    let mut found: u32 = count;
    while pawns != 0
        invariant
            found <= 257,
            capped(found + pawn_moves(*pos, side, pawns).len()) == capped(count + whole.len()),
        decreases pawns,
    {
        let ghost rest = pawns;
        let from_sq = pop_lsb(&mut pawns);
        let ghost pushes = pawn_push_moves(*pos, side, from_sq.index);
        let ghost captures = pawn_capture_moves(
            *pos,
            side,
            from_sq.index,
            pawn_attacks(side, from_sq.index),
        );
        let ghost others = pawn_moves(*pos, side, pawns);
        assert(pawn_moves(*pos, side, rest) == pushes + captures + others);
        assert((pushes + captures + others).len() == pushes.len() + captures.len() + others.len());
        found = add_capped(found, count_pawn_pushes(pos, side, from_sq));
        found = count_pawn_captures(pos, side, from_sq, found);
    }
    found
}

/// `count` and the number of moves of the pieces of kind `pt` of `side`.
fn count_piece_moves(pos: &Position, side: Color, pt: PieceType, count: u32) -> (r: u32)
    requires
        pt != PieceType::Pawn,
        pt != PieceType::NoPiece,
        count <= 257,
    ensures
        r == capped(count + piece_moves(*pos, side, pt, pos.spec_pieces_bb_color(side, pt)).len()),
{
    let occupancy = pos.occupied();
    let mut pieces: u64 = pos.pieces_bb_color(side, pt).bits();
    let ghost whole = piece_moves(*pos, side, pt, pieces);
    let mut found: u32 = count;
    while pieces != 0
        invariant
            pt != PieceType::Pawn,
            pt != PieceType::NoPiece,
            occupancy.data == pos.spec_occupied(),
            found <= 257,
            capped(found + piece_moves(*pos, side, pt, pieces).len()) == capped(
                count + whole.len(),
            ),
        decreases pieces,
    {
        let ghost before = found;
        let ghost rest = pieces;
        let from_sq = pop_lsb(&mut pieces);
        let mut targets: u64 = piece_attacks(pt, from_sq, occupancy).bits();
        let ghost here = target_moves(*pos, side, from_sq.index, targets);
        let ghost others = piece_moves(*pos, side, pt, pieces);
        assert(piece_moves(*pos, side, pt, rest) == here + others);
        assert((here + others).len() == here.len() + others.len());
        while targets != 0
            invariant
                from_sq.on_board(),
                found <= 257,
                capped(found + target_moves(*pos, side, from_sq.index, targets).len()) == capped(
                    before + here.len(),
                ),
            decreases targets,
        {
            let ghost left = targets;
            let to_sq = pop_lsb(&mut targets);
            let target = pos.piece_at(to_sq);
            let ghost tail = target_moves(*pos, side, from_sq.index, targets);
            assert(target_moves(*pos, side, from_sq.index, left).len() == tail.len() + (
            if target == Piece::spec_none() || target.spec_color() != side {
                1int
            } else {
                0int
            }));
            if target == Piece::none() || target.color() != side {
                found = add_capped(found, 1);
            }
        }
    }
    found
}

/// The number of castling moves of `side`, which must have a king.
fn count_castling_moves(pos: &Position, side: Color) -> (r: u32)
    requires
        pos.has_king(side),
    ensures
        r == castling_moves(*pos, side).len(),
        r <= 2,
{
    let king_sq = pos.king_sq(side);

    // Can't castle if in check
    if pieces_attacking_square(king_sq, side, pos).bits() != 0 {
        return 0;
    }
    let white = side == Color::White;
    let ghost short = castle_move(*pos, side, short_flag(side), king_sq.index, short_rook(side));
    let ghost long = castle_move(*pos, side, long_flag(side), king_sq.index, long_rook(side));
    assert(castling_moves(*pos, side) == short + long);
    assert((short + long).len() == short.len() + long.len());
    let mut found: u32 = 0;
    if can_castle(
        pos,
        side,
        if white {
            WHITE_KING_SIDE
        } else {
            BLACK_KING_SIDE
        },
        king_sq,
        Square::new(
            if white {
                H1
            } else {
                H8
            },
        ),
    ) {
        found += 1;
    }
    if can_castle(
        pos,
        side,
        if white {
            WHITE_QUEEN_SIDE
        } else {
            BLACK_QUEEN_SIDE
        },
        king_sq,
        Square::new(
            if white {
                A1
            } else {
                A8
            },
        ),
    ) {
        found += 1;
    }
    found
}

/// Whether the pseudo-legal moves of a position, whose side to move must
/// have a king, fit in a move list.
pub fn fits_move_list(pos: &Position) -> (r: bool)
    requires
        pos.has_king(pos.stm),
    ensures
        r == (pseudo_legal_moves_of(*pos).len() <= 256),
{
    let side = pos.side_to_move();
    let ghost pawns = pawn_moves(*pos, side, pos.spec_pieces_bb_color(side, PieceType::Pawn));
    let ghost knights = piece_moves(
        *pos,
        side,
        PieceType::Knight,
        pos.spec_pieces_bb_color(side, PieceType::Knight),
    );
    let ghost bishops = piece_moves(
        *pos,
        side,
        PieceType::Bishop,
        pos.spec_pieces_bb_color(side, PieceType::Bishop),
    );
    let ghost rooks = piece_moves(
        *pos,
        side,
        PieceType::Rook,
        pos.spec_pieces_bb_color(side, PieceType::Rook),
    );
    let ghost queens = piece_moves(
        *pos,
        side,
        PieceType::Queen,
        pos.spec_pieces_bb_color(side, PieceType::Queen),
    );
    let ghost kings = piece_moves(
        *pos,
        side,
        PieceType::King,
        pos.spec_pieces_bb_color(side, PieceType::King),
    );
    let ghost castlings = castling_moves(*pos, side);
    assert(pseudo_legal_moves_of(*pos) == pawns + knights + bishops + rooks + queens + kings
        + castlings);
    assert(pseudo_legal_moves_of(*pos).len() == pawns.len() + knights.len() + bishops.len()
        + rooks.len() + queens.len() + kings.len() + castlings.len());
    let mut found: u32 = count_pawn_moves(pos, side, 0);
    found = count_piece_moves(pos, side, PieceType::Knight, found);
    found = count_piece_moves(pos, side, PieceType::Bishop, found);
    found = count_piece_moves(pos, side, PieceType::Rook, found);
    found = count_piece_moves(pos, side, PieceType::Queen, found);
    found = count_piece_moves(pos, side, PieceType::King, found);
    found = add_capped(found, count_castling_moves(pos, side));
    found <= MOVE_LIST_SIZE
}

/// The pseudo-legal moves of a position, if its side to move has a king
/// and they fit in a move list.
pub fn try_pseudo_legal_moves(pos: &Position) -> (r: Option<ArrayVec<Move, 256>>)
    ensures
        match r {
            Some(moves) => pos.has_king(pos.stm) && moves_of(moves) == pseudo_legal_moves_of(
                *pos,
            ),
            None => !pos.has_king(pos.stm) || pseudo_legal_moves_of(*pos).len() > 256,
        },
{
    if pos.pieces_bb_color(pos.side_to_move(), PieceType::King).bits() == 0 {
        return None;
    }
    if !fits_move_list(pos) {
        return None;
    }
    Some(pseudo_legal_moves(pos))
}

} // verus!
