//! What every position of a game has: from the starting position on, the
//! moves of chess keep a position one that can be packed without loss.

use vstd::prelude::*;
use crate::chess::attacks::{ahead, long_rook, short_rook};
use crate::chess::bits::{bitsum, lemma_popcount_bitsum, popcount};
use crate::chess::board_lemmas::lemma_occupied;
use crate::chess::castling_rights::{
    BLACK_KING_SIDE, BLACK_QUEEN_SIDE, WHITE_KING_SIDE, WHITE_QUEEN_SIDE,
};
use crate::chess::chess_move::{Move, MoveType};
use crate::chess::color::Color;
use crate::chess::coords::{lemma_square_index_bits, Square, A1, A8, E1, E8, H1, H8};
use crate::chess::move_lemmas::{lemma_lift_wf, lemma_move_keeps_wf};
use crate::chess::piece::{lemma_piece_parts, Piece};
use crate::chess::piecetype::PieceType;
use crate::chess::position::{castle_targets, castling_lost, Position, START_PIECES};
use crate::common::compressed_position::BLACK_KING;
use crate::common::move_slots::start_rank;
use crate::common::compressed_position::{decompress_from, CompressedPosition};
use crate::common::position_roundtrip::{
    codable, ep_has_pawn, lemma_position_roundtrip, same_but_counters,
};

verus! {

pub const WHITE_KING: u8 = 10;

/// The number of pieces on the first `n` squares.
pub open spec fn piece_count(pieces: Seq<Piece>, n: nat) -> nat
    decreases n,
{
    if n == 0 {
        0
    } else {
        piece_count(pieces, (n - 1) as nat) + (if pieces[n - 1].is_piece() {
            1nat
        } else {
            0nat
        })
    }
}

/// The square on which the king of a side starts.
pub open spec fn king_home(side: Color) -> u32 {
    match side {
        Color::White => E1,
        Color::Black => E8,
    }
}

/// Whether `k` is the square of the one king of a side.
pub open spec fn only_king(pos: Position, side: Color, k: int) -> bool {
    &&& 0 <= k < 64
    &&& pos.pieces[k] == Piece::spec_new(PieceType::King, side)
    &&& forall|j: int|
        0 <= j < 64 && #[trigger] pos.pieces[j] == Piece::spec_new(PieceType::King, side) ==> j
            == k
}

/// Whether the en-passant square of a position, if it has one, is that of
/// a game: it is empty, and it lies behind a pawn of the side that has
/// just moved.
pub open spec fn ep_in_play(pos: Position) -> bool {
    let ep = pos.enpassant.index as int;
    pos.enpassant == Square::spec_none() || (pos.pieces[ep] == Piece::spec_none() && (if pos.stm
        == Color::Black {
        16 <= ep < 24
    } else {
        40 <= ep < 48
    }))
}

/// Whether a position is one of a game: it can be packed without loss,
/// each side has one king, a side that may still castle has its king on
/// the king's first square, and the en-passant square is empty and lies
/// behind a pawn of the side that has just moved.
pub open spec fn sound(pos: Position) -> bool {
    &&& codable(pos)
    &&& exists|k: int| only_king(pos, Color::White, k)
    &&& exists|k: int| only_king(pos, Color::Black, k)
    &&& (pos.castling_rights.has(WHITE_KING_SIDE) || pos.castling_rights.has(WHITE_QUEEN_SIDE))
        ==> pos.pieces[E1 as int].id == WHITE_KING
    &&& (pos.castling_rights.has(BLACK_KING_SIDE) || pos.castling_rights.has(BLACK_QUEEN_SIDE))
        ==> pos.pieces[E8 as int].id == BLACK_KING
    &&& ep_in_play(pos)
}

/// Whether `mv` has the shape of a legal move: it moves the pieces as a
/// move of chess does; it takes no king; only pawns promote and capture
/// in passing, and no pawn becomes a king; a pawn makes its double step
/// from its start rank over an empty square; and the king castles from
/// its first square with a rook on the rook's.
pub open spec fn legal_shape(pos: Position, mv: Move) -> bool {
    let from = mv.from.index;
    let to = mv.to.index;
    let pt = pos.pieces[from as int].spec_piece_type();
    &&& pos.playable(mv)
    &&& mv.move_type != MoveType::Castle ==> pos.pieces[to as int].spec_piece_type()
        != PieceType::King
    &&& (mv.move_type == MoveType::Promotion || mv.move_type == MoveType::EnPassant) ==> pt
        == PieceType::Pawn
    &&& mv.move_type == MoveType::Promotion ==> mv.promoted_piece.spec_piece_type()
        != PieceType::King
    &&& mv.move_type == MoveType::Castle ==> pt == PieceType::King && from == king_home(pos.stm)
        && (to == short_rook(pos.stm) || to == long_rook(pos.stm))
    &&& (pt == PieceType::Pawn && (to - from == 16 || from - to == 16)) ==> mv.move_type
        == MoveType::Normal && from / 8 == start_rank(pos.stm) && to == ahead(
        pos.stm,
        from as int,
        2,
    ) && pos.pieces[ahead(pos.stm, from as int, 1)] == Piece::spec_none()
}

proof fn lemma_count_bitsum(pos: Position, n: nat)
    requires
        pos.wf(),
        n <= 64,
    ensures
        bitsum(pos.spec_occupied(), n) == piece_count(pos.pieces@, n),
    decreases n,
{
    if n > 0 {
        lemma_count_bitsum(pos, (n - 1) as nat);
        lemma_occupied(pos, (n - 1) as u32);
    }
}

/// On a consistent board there are as many occupied squares as pieces in
/// the list.
pub proof fn lemma_count_is_popcount(pos: Position)
    requires
        pos.wf(),
    ensures
        popcount(pos.spec_occupied()) == piece_count(pos.pieces@, 64),
{
    lemma_popcount_bitsum(pos.spec_occupied());
    lemma_count_bitsum(pos, 64);
}

/// Putting something on one square changes the number of pieces by what
/// leaves and what comes.
proof fn lemma_count_update(t: Seq<Piece>, i: int, v: Piece, n: nat)
    requires
        0 <= i < t.len(),
        n <= t.len(),
    ensures
        piece_count(t.update(i, v), n) == piece_count(t, n) - (if i < n && t[i].is_piece() {
            1int
        } else {
            0int
        }) + (if i < n && v.is_piece() {
            1int
        } else {
            0int
        }),
    decreases n,
{
    if n > 0 {
        lemma_count_update(t, i, v, (n - 1) as nat);
    }
}

/// The piece list after a move of legal shape.
spec fn table_after(pos: Position, mv: Move) -> Seq<Piece> {
    let from = mv.from.index as int;
    let to = mv.to.index as int;
    let piece = pos.pieces[from];
    let lifted = pos.pieces@.update(from, Piece::spec_none());
    match mv.move_type {
        MoveType::Normal => lifted.update(to, piece),
        MoveType::Promotion => lifted.update(to, mv.promoted_piece),
        MoveType::EnPassant => lifted.update((mv.to.index ^ 8) as int, Piece::spec_none()).update(
            to,
            piece,
        ),
        MoveType::Castle => {
            let (rook_to, king_to) = castle_targets(pos.stm, mv.spec_castle_type());
            lifted.update(to, Piece::spec_none()).update(rook_to as int, pos.pieces[to]).update(
                king_to as int,
                piece,
            )
        },
    }
}

/// A move of legal shape changes the piece list on its own squares only.
proof fn lemma_table_after(pos: Position, mv: Move)
    requires
        pos.wf(),
        legal_shape(pos, mv),
    ensures
        pos.spec_after_move(mv).pieces@ == table_after(pos, mv),
        pos.spec_after_move(mv).wf(),
{
    lemma_move_keeps_wf(pos, mv);
    lemma_lift_wf(pos, mv);
    lemma_square_index_bits(mv.to.index);
    let after = pos.spec_after_move(mv);
    let lifted = pos.spec_lift(mv);
    assert forall|sq: int| 0 <= sq < 64 implies after.pieces@[sq] == table_after(pos, mv)[sq] by {
        if sq != mv.from.index && sq != mv.to.index {
            assert(lifted.pieces[sq] == pos.pieces[sq]);
        }
    }
    assert(after.pieces@ =~= table_after(pos, mv));
}

/// A move of legal shape adds no piece to the board.
proof fn lemma_after_count(pos: Position, mv: Move)
    requires
        pos.wf(),
        legal_shape(pos, mv),
    ensures
        piece_count(table_after(pos, mv), 64) <= piece_count(pos.pieces@, 64),
{
    let from = mv.from.index as int;
    let to = mv.to.index as int;
    let piece = pos.pieces[from];
    let none = Piece::spec_none();
    let t0 = pos.pieces@;
    let t1 = t0.update(from, none);
    lemma_count_update(t0, from, none, 64);
    lemma_square_index_bits(mv.to.index);
    match mv.move_type {
        MoveType::Normal => {
            lemma_count_update(t1, to, piece, 64);
        },
        MoveType::Promotion => {
            lemma_count_update(t1, to, mv.promoted_piece, 64);
        },
        MoveType::EnPassant => {
            let beside = (mv.to.index ^ 8) as int;
            let t2 = t1.update(beside, none);
            lemma_count_update(t1, beside, none, 64);
            lemma_count_update(t2, to, piece, 64);
        },
        MoveType::Castle => {
            let (rook_to, king_to) = castle_targets(pos.stm, mv.spec_castle_type());
            let t2 = t1.update(to, none);
            let t3 = t2.update(rook_to as int, pos.pieces[to]);
            lemma_count_update(t1, to, none, 64);
            lemma_count_update(t2, rook_to as int, pos.pieces[to], 64);
            lemma_count_update(t3, king_to as int, piece, 64);
        },
    }
}

proof fn lemma_rights_left(a: u8, b1: u8, b2: u8, b3: u8)
    by (bit_vector)
    requires
        b1 == 0 || b1 == 3 || b1 == 12,
        b2 == 0 || b2 == 2 || b2 == 8,
        b3 == 0 || b3 == 1 || b3 == 4,
    ensures
        a <= 15 ==> (a & !(b1 | b2 | b3)) <= 15,
        ((a & !(b1 | b2 | b3)) & 1 == 1) == (a & 1 == 1 && b1 != 3 && b3 != 1),
        ((a & !(b1 | b2 | b3)) & 2 == 2) == (a & 2 == 2 && b1 != 3 && b2 != 2),
        ((a & !(b1 | b2 | b3)) & 4 == 4) == (a & 4 == 4 && b1 != 12 && b3 != 4),
        ((a & !(b1 | b2 | b3)) & 8 == 8) == (a & 8 == 8 && b1 != 12 && b2 != 8),
        15u8 & 1 == 1 && 15u8 & 2 == 2 && 15u8 & 4 == 4 && 15u8 & 8 == 8,
{
}

/// Whether a move between `from` and `to` touches the first square of the
/// king of `color`, of its queen's rook, or of its king's rook.
spec fn touches(color: Color, from: u32, to: u32) -> (bool, bool, bool) {
    match color {
        Color::White => (from == E1 || to == E1, from == A1 || to == A1, from == H1 || to == H1),
        Color::Black => (from == E8 || to == E8, from == A8 || to == A8, from == H8 || to == H8),
    }
}

/// The rights that are left when a side has lost those that a move costs
/// it: a right is left if it was there and the move touches neither the
/// king's first square nor that of the right's rook.
proof fn lemma_update_castling(pos: Position, color: Color, from: u32, to: u32)
    ensures
        ({
            let after = pos.spec_update_castling(color, from, to).castling_rights;
            let before = pos.castling_rights;
            let (king, queen_rook, king_rook) = touches(color, from, to);
            let white = color == Color::White;
            &&& before.0 <= 15 ==> after.0 <= 15
            &&& after.has(WHITE_KING_SIDE) == (before.has(WHITE_KING_SIDE) && !(white && (king
                || king_rook)))
            &&& after.has(WHITE_QUEEN_SIDE) == (before.has(WHITE_QUEEN_SIDE) && !(white && (king
                || queen_rook)))
            &&& after.has(BLACK_KING_SIDE) == (before.has(BLACK_KING_SIDE) && !(!white && (king
                || king_rook)))
            &&& after.has(BLACK_QUEEN_SIDE) == (before.has(BLACK_QUEEN_SIDE) && !(!white && (king
                || queen_rook)))
        }),
{
    let (king, queen_rook, king_rook) = touches(color, from, to);
    let white = color == Color::White;
    let b1: u8 = if king {
        if white {
            3
        } else {
            12
        }
    } else {
        0
    };
    let b2: u8 = if queen_rook {
        if white {
            2
        } else {
            8
        }
    } else {
        0
    };
    let b3: u8 = if king_rook {
        if white {
            1
        } else {
            4
        }
    } else {
        0
    };
    assert(castling_lost(color, from, to) == b1 | b2 | b3);
    lemma_rights_left(pos.castling_rights.0, b1, b2, b3);
}

/// The castling rights after a move: those that were there and that the
/// move has not cost the side that moved, nor the side whose rook it took.
proof fn lemma_after_rights(pos: Position, mv: Move)
    requires
        pos.wf(),
        legal_shape(pos, mv),
        pos.castling_rights.0 <= 15,
    ensures
        ({
            let after = pos.spec_after_move(mv).castling_rights;
            let before = pos.castling_rights;
            let from = mv.from.index;
            let to = mv.to.index;
            let pt = pos.pieces[from as int].spec_piece_type();
            let moved = pt == PieceType::King || pt == PieceType::Rook;
            let took = pos.captures(mv) && pos.pieces[to as int].spec_piece_type()
                == PieceType::Rook;
            let white = pos.stm == Color::White;
            let lost = |color: Color| (color == pos.stm && moved) || (color != pos.stm && took);
            let (wk, wq, wr) = touches(Color::White, from, to);
            let (bk, bq, br) = touches(Color::Black, from, to);
            &&& after.0 <= 15
            &&& after.has(WHITE_KING_SIDE) == (before.has(WHITE_KING_SIDE) && !(lost(Color::White)
                && (wk || wr)))
            &&& after.has(WHITE_QUEEN_SIDE) == (before.has(WHITE_QUEEN_SIDE) && !(lost(
                Color::White,
            ) && (wk || wq)))
            &&& after.has(BLACK_KING_SIDE) == (before.has(BLACK_KING_SIDE) && !(lost(Color::Black)
                && (bk || br)))
            &&& after.has(BLACK_QUEEN_SIDE) == (before.has(BLACK_QUEEN_SIDE) && !(lost(
                Color::Black,
            ) && (bk || bq)))
        }),
{
    let us = pos.stm;
    let them = us.flip();
    let from = mv.from.index;
    let to = mv.to.index;
    let piece = pos.pieces[from as int];
    let pt = piece.spec_piece_type();
    let raised = pos.spec_remove_piecetype(us, pt, from);
    let cap_pt = pos.pieces[to as int].spec_piece_type();
    let q = raised.spec_remove_piecetype(them, cap_pt, to);
    lemma_update_castling(q, them, from, to);
    let cleared = if pos.captures(mv) {
        if cap_pt == PieceType::Rook {
            q.spec_update_castling(them, from, to)
        } else {
            q
        }
    } else {
        raised
    };
    lemma_update_castling(cleared, us, from, to);
    assert(pos.spec_lift(mv).castling_rights == (if pt == PieceType::King || pt
        == PieceType::Rook {
        cleared.spec_update_castling(us, from, to).castling_rights
    } else {
        cleared.castling_rights
    }));
}

/// A move of legal shape in a position of a game leads to a position of
/// the game.
pub proof fn lemma_move_keeps_sound(pos: Position, mv: Move)
    requires
        sound(pos),
        legal_shape(pos, mv),
    ensures
        sound(pos.spec_after_move(mv)),
{
    let after = pos.spec_after_move(mv);
    let from = mv.from.index as int;
    let to = mv.to.index as int;
    let piece = pos.pieces[from];
    lemma_table_after(pos, mv);
    lemma_after_count(pos, mv);
    lemma_count_is_popcount(pos);
    lemma_count_is_popcount(after);
    lemma_after_rights(pos, mv);
    lemma_square_index_bits(mv.to.index);
    lemma_piece_parts(piece);
    let t = table_after(pos, mv);
    assert forall|sq: int| 0 <= sq < 64 implies after.pieces[sq] == #[trigger] t[sq] by {}
    // the kings
    let wk = choose|k: int| only_king(pos, Color::White, k);
    let bk = choose|k: int| only_king(pos, Color::Black, k);
    let (rook_to, king_to) = castle_targets(pos.stm, mv.spec_castle_type());
    let lands = if mv.move_type == MoveType::Castle {
        king_to as int
    } else {
        to
    };
    let wk_after = if wk == from {
        lands
    } else {
        wk
    };
    let bk_after = if bk == from {
        lands
    } else {
        bk
    };
    assert(after.pieces[wk_after] == t[wk_after]);
    assert(after.pieces[bk_after] == t[bk_after]);
    assert(only_king(after, Color::White, wk_after)) by {
        assert forall|j: int|
            0 <= j < 64 && #[trigger] after.pieces[j] == Piece::spec_new(
                PieceType::King,
                Color::White,
            ) implies j == wk_after by {
            assert(after.pieces[j] == t[j]);
            if j != from && j != to && j != lands && j != rook_to {
                assert(pos.pieces[j] == Piece::spec_new(PieceType::King, Color::White));
            }
        }
    }
    assert(only_king(after, Color::Black, bk_after)) by {
        assert forall|j: int|
            0 <= j < 64 && #[trigger] after.pieces[j] == Piece::spec_new(
                PieceType::King,
                Color::Black,
            ) implies j == bk_after by {
            assert(after.pieces[j] == t[j]);
            if j != from && j != to && j != lands && j != rook_to {
                assert(pos.pieces[j] == Piece::spec_new(PieceType::King, Color::Black));
            }
        }
    }
    // the rooks and kings of the castling rights
    assert(after.pieces[H1 as int] == t[H1 as int]);
    assert(after.pieces[A1 as int] == t[A1 as int]);
    assert(after.pieces[H8 as int] == t[H8 as int]);
    assert(after.pieces[A8 as int] == t[A8 as int]);
    assert(after.pieces[E1 as int] == t[E1 as int]);
    assert(after.pieces[E8 as int] == t[E8 as int]);
    // the pawn of the en-passant square
    assert(after.pieces[to] == t[to]);
    assert(ep_has_pawn(after));
    let between = ahead(pos.stm, from, 1);
    if 0 <= between < 64 {
        assert(after.pieces[between] == t[between]);
    }
    assert(ep_in_play(after));
}

/// A run of squares that all hold a piece, or all hold none, adds its
/// length, or nothing, to the number of pieces.
proof fn lemma_count_run(t: Seq<Piece>, a: nat, b: nat, full: bool)
    requires
        a <= b <= t.len(),
        forall|i: int| a <= i < b ==> (#[trigger] t[i]).is_piece() == full,
    ensures
        piece_count(t, b) == piece_count(t, a) + (if full {
            b - a
        } else {
            0
        }),
    decreases b,
{
    if a < b {
        lemma_count_run(t, a, (b - 1) as nat, full);
    }
}

/// The starting position is a position of a game.
pub proof fn lemma_start_sound(pos: Position)
    requires
        pos.is_start(),
    ensures
        sound(pos),
{
    let t = pos.pieces@;
    assert forall|i: int| 0 <= i < 64 implies (#[trigger] t[i]).id == START_PIECES[i] by {
        assert(pos.pieces[i].id == START_PIECES[i]);
    }
    lemma_count_run(t, 0, 16, true);
    lemma_count_run(t, 16, 48, false);
    lemma_count_run(t, 48, 64, true);
    lemma_count_is_popcount(pos);
    lemma_rights_left(15, 0, 0, 0);
    assert(only_king(pos, Color::White, E1 as int)) by {
        assert(pos.pieces[E1 as int].id == START_PIECES[E1 as int]);
    }
    assert(only_king(pos, Color::Black, E8 as int)) by {
        assert(pos.pieces[E8 as int].id == START_PIECES[E8 as int]);
    }
    assert(pos.pieces[H1 as int].id == START_PIECES[H1 as int]);
    assert(pos.pieces[A1 as int].id == START_PIECES[A1 as int]);
    assert(pos.pieces[H8 as int].id == START_PIECES[H8 as int]);
    assert(pos.pieces[A8 as int].id == START_PIECES[A8 as int]);
}

/// The position after the moves `moves` were made, one after the other,
/// from the position `pos` on.
pub open spec fn play(pos: Position, moves: Seq<Move>) -> Position
    decreases moves.len(),
{
    if moves.len() == 0 {
        pos
    } else {
        play(pos.spec_after_move(moves[0]), moves.drop_first())
    }
}

/// Whether each of the moves `moves` has legal shape in the position in
/// which it is made, when they are made one after the other from the
/// position `pos` on.
pub open spec fn legal_line(pos: Position, moves: Seq<Move>) -> bool
    decreases moves.len(),
{
    moves.len() == 0 || (legal_shape(pos, moves[0]) && legal_line(
        pos.spec_after_move(moves[0]),
        moves.drop_first(),
    ))
}

/// Moves of legal shape lead from a position of a game to a position of
/// the game.
pub proof fn lemma_line_keeps_sound(pos: Position, moves: Seq<Move>)
    requires
        sound(pos),
        legal_line(pos, moves),
    ensures
        sound(play(pos, moves)),
    decreases moves.len(),
{
    if moves.len() > 0 {
        lemma_move_keeps_sound(pos, moves[0]);
        lemma_line_keeps_sound(pos.spec_after_move(moves[0]), moves.drop_first());
    }
}

/// A position that moves of legal shape reach from the starting position
/// is packed without loss: unpacking what was packed gives back its
/// board, side to move, castling rights and en-passant square.
pub proof fn lemma_reached_position_roundtrip(start: Position, moves: Seq<Move>)
    requires
        start.is_start(),
        legal_line(start, moves),
    ensures
        ({
            let pos = play(start, moves);
            let (occupied, state) = CompressedPosition::spec_compress(pos);
            same_but_counters(decompress_from(occupied, state, 0, Position::spec_empty()), pos)
        }),
{
    lemma_start_sound(start);
    lemma_line_keeps_sound(start, moves);
    lemma_position_roundtrip(play(start, moves));
}

} // verus!
