//! Putting a piece on an empty square, and taking a piece off its square,
//! keep a board consistent.

use vstd::prelude::*;
use crate::chess::bits::{bit64, lemma_bit_ops, lemma_bit_single};
use crate::chess::color::Color;
use crate::chess::piece::Piece;
use crate::chess::piecetype::PieceType;
use crate::chess::position::Position;

verus! {

/// Setting, or toggling, bit `i` of a word changes bit `i` and no other.
pub proof fn lemma_bit_change(x: u64, i: u64, j: u64)
    requires
        i < 64,
        j < 64,
    ensures
        bit64(x | (1u64 << i), j) == (bit64(x, j) || i == j),
        bit64(x ^ (1u64 << i), j) == (bit64(x, j) != (i == j)),
{
    lemma_bit_single(i, j);
    lemma_bit_ops(x, 1u64 << i, j);
}

/// Consistency is a matter of the board alone: of the bitboards and the
/// piece list.
pub proof fn lemma_wf_same_board(p: Position, q: Position)
    requires
        p.wf(),
        q.bb == p.bb,
        q.bb_color == p.bb_color,
        q.pieces == p.pieces,
    ensures
        q.wf(),
{
    assert forall|t: int, s: int| 0 <= t < 6 && 0 <= s < 64 implies (#[trigger] q.type_bit(t, s)
        <==> q.pieces[s].id / 2 == t) by {
        assert(p.type_bit(t, s) <==> p.pieces[s].id / 2 == t);
    }
    assert forall|c: int, s: int| 0 <= c < 2 && 0 <= s < 64 implies (#[trigger] q.color_bit(c, s)
        <==> (q.pieces[s].is_piece() && q.pieces[s].id % 2 == c)) by {
        assert(p.color_bit(c, s) <==> (p.pieces[s].is_piece() && p.pieces[s].id % 2 == c));
    }
    assert forall|s: int| 0 <= s < 64 implies (#[trigger] q.pieces[s]).wf() by {
        assert(p.pieces[s].wf());
    }
}

/// A piece put on an empty square of a consistent board, for its own side,
/// leaves the board consistent.
pub proof fn lemma_place_wf(p: Position, side: Color, pc: Piece, sq: u32)
    requires
        p.wf(),
        sq < 64,
        pc.is_piece(),
        side == pc.spec_color(),
        p.pieces[sq as int] == Piece::spec_none(),
    ensures
        p.spec_place_piece(side, pc, sq).wf(),
{
    let q = p.spec_place_piece(side, pc, sq);
    let pt = pc.spec_piece_type().spec_ordinal() as int;
    let pc_side = side.spec_ordinal() as int;
    assert forall|t: int, s: int| 0 <= t < 6 && 0 <= s < 64 implies (#[trigger] q.type_bit(t, s)
        <==> q.pieces[s].id / 2 == t) by {
        lemma_bit_change(p.bb[t], sq as u64, s as u64);
        assert(p.type_bit(t, s) <==> p.pieces[s].id / 2 == t);
    }
    assert forall|c: int, s: int| 0 <= c < 2 && 0 <= s < 64 implies (#[trigger] q.color_bit(c, s)
        <==> (q.pieces[s].is_piece() && q.pieces[s].id % 2 == c)) by {
        lemma_bit_change(p.bb_color[c], sq as u64, s as u64);
        assert(p.color_bit(c, s) <==> (p.pieces[s].is_piece() && p.pieces[s].id % 2 == c));
    }
    assert forall|s: int| 0 <= s < 64 implies (#[trigger] q.pieces[s]).wf() by {
        assert(p.pieces[s].wf());
    }
}

/// The piece that stands on a square of a consistent board, taken off it,
/// leaves the board consistent.
pub proof fn lemma_remove_wf(p: Position, side: Color, pt: PieceType, sq: u32)
    requires
        p.wf(),
        sq < 64,
        pt.is_piece(),
        p.pieces[sq as int] == Piece::spec_new(pt, side),
    ensures
        p.spec_remove_piecetype(side, pt, sq).wf(),
{
    let q = p.spec_remove_piecetype(side, pt, sq);
    assert forall|t: int, s: int| 0 <= t < 6 && 0 <= s < 64 implies (#[trigger] q.type_bit(t, s)
        <==> q.pieces[s].id / 2 == t) by {
        lemma_bit_change(p.bb[t], sq as u64, s as u64);
        assert(p.type_bit(t, s) <==> p.pieces[s].id / 2 == t);
    }
    assert forall|c: int, s: int| 0 <= c < 2 && 0 <= s < 64 implies (#[trigger] q.color_bit(c, s)
        <==> (q.pieces[s].is_piece() && q.pieces[s].id % 2 == c)) by {
        lemma_bit_change(p.bb_color[c], sq as u64, s as u64);
        assert(p.color_bit(c, s) <==> (p.pieces[s].is_piece() && p.pieces[s].id % 2 == c));
    }
    assert forall|s: int| 0 <= s < 64 implies (#[trigger] q.pieces[s]).wf() by {
        assert(p.pieces[s].wf());
    }
}

/// On a consistent board a square is occupied exactly if a piece is listed
/// on it.
pub proof fn lemma_occupied(p: Position, sq: u32)
    requires
        p.wf(),
        sq < 64,
    ensures
        bit64(p.spec_occupied(), sq as u64) <==> p.pieces[sq as int].is_piece(),
{
    lemma_bit_ops(p.bb_color[0], p.bb_color[1], sq as u64);
    assert(p.color_bit(0, sq as int) <==> (p.pieces[sq as int].is_piece() && p.pieces[sq as int].id
        % 2 == 0));
    assert(p.color_bit(1, sq as int) <==> (p.pieces[sq as int].is_piece() && p.pieces[sq as int].id
        % 2 == 1));
}

} // verus!
