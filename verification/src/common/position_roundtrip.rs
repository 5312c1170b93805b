//! Packing a position and unpacking it again gives back the board, the
//! side to move, the castling rights and the en-passant square.

use vstd::prelude::*;
use crate::chess::bits::{
    bit64, clear_lsb, lemma_bit_ext, lemma_bit_ops, lemma_lsb, lemma_popcount_clear_lsb,
    lsb_index, popcount,
};
use crate::chess::board_lemmas::{lemma_occupied, lemma_place_wf, lemma_wf_same_board};
use crate::chess::castling_rights::{
    BLACK_KING_SIDE, BLACK_QUEEN_SIDE, WHITE_KING_SIDE, WHITE_QUEEN_SIDE,
};
use crate::chess::color::Color;
use crate::chess::coords::{Square, A1, A8, H1, H8};
use crate::chess::piece::Piece;
use crate::chess::position::Position;
use crate::common::arithmetic::nth_set_bit;
use crate::common::compressed_position::{
    code_of, compress_from, decompress_from, nibble, piece_of_code, place_code, with_nibble,
    CompressedPosition, BLACK_KING, BLACK_PAWN, BLACK_ROOK, WHITE_PAWN, WHITE_ROOK,
};

verus! {

/// Whether the en-passant square of a position has its pawn before it: a
/// white pawn on the fourth rank behind a square of the third, or a black
/// pawn on the fifth rank behind a square of the sixth.
pub open spec fn ep_has_pawn(pos: Position) -> bool {
    let ep = pos.enpassant.index as int;
    pos.enpassant == Square::spec_none() || (16 <= ep < 24 && pos.pieces[ep + 8].id == WHITE_PAWN)
        || (40 <= ep < 48 && pos.pieces[ep - 8].id == BLACK_PAWN)
}

/// Whether a position can be packed without loss: its board is
/// consistent and holds at most 32 pieces; every castling right has its
/// rook on the rook's first square; if Black is to move there is a black
/// king; and the en-passant square has its pawn before it.
pub open spec fn codable(pos: Position) -> bool {
    &&& pos.wf()
    &&& popcount(pos.spec_occupied()) <= 32
    &&& pos.castling_rights.0 <= 15
    &&& pos.castling_rights.has(WHITE_KING_SIDE) ==> pos.pieces[H1 as int].id == WHITE_ROOK
    &&& pos.castling_rights.has(WHITE_QUEEN_SIDE) ==> pos.pieces[A1 as int].id == WHITE_ROOK
    &&& pos.castling_rights.has(BLACK_KING_SIDE) ==> pos.pieces[H8 as int].id == BLACK_ROOK
    &&& pos.castling_rights.has(BLACK_QUEEN_SIDE) ==> pos.pieces[A8 as int].id == BLACK_ROOK
    &&& pos.stm == Color::Black ==> exists|k: int| 0 <= k < 64 && pos.pieces[k].id == BLACK_KING
    &&& ep_has_pawn(pos)
}

/// Whether two positions agree on everything but the move counters.
pub open spec fn same_but_counters(a: Position, b: Position) -> bool {
    a.bb == b.bb && a.bb_color == b.bb_color && a.pieces == b.pieces && a.stm == b.stm
        && a.castling_rights == b.castling_rights && a.enpassant == b.enpassant
}

/// Whether square `sq` is in the set `x`.
spec fn on(x: u64, sq: int) -> bool {
    bit64(x, sq as u64)
}

/// The codes from number `k` on are still zero.
spec fn zero_from(s: Seq<u8>, k: int) -> bool {
    &&& s.len() == 16
    &&& forall|i: int| (k + 1) / 2 <= i < 16 ==> s[i] == 0
    &&& k % 2 == 1 ==> s[k / 2] < 16
}

/// Whether square `sq` has been unpacked when the squares `rest` are left.
spec fn done(pos: Position, rest: u64, sq: int) -> bool {
    on(pos.spec_occupied(), sq) && !on(rest, sq)
}

/// What holds of the position `d` that the codes of the squares unpacked
/// so far have made, when the squares `rest` are left and `bk` is a square
/// of a black king if Black is to move.
spec fn partly(pos: Position, rest: u64, d: Position, bk: int) -> bool {
    &&& d.wf()
    &&& forall|sq: int|
        0 <= sq < 64 ==> #[trigger] d.pieces[sq] == (if done(pos, rest, sq) {
            pos.pieces[sq]
        } else {
            Piece::spec_none()
        })
    &&& forall|sq: int| 0 <= sq < 64 && #[trigger] on(rest, sq) ==> on(pos.spec_occupied(), sq)
    &&& d.halfm == 0 && d.fullm == 1
    &&& d.stm == Color::Black ==> pos.stm == Color::Black
    &&& pos.stm == Color::Black && done(pos, rest, bk) ==> d.stm == Color::Black
    &&& d.enpassant != Square::spec_none() ==> d.enpassant == pos.enpassant
    &&& pos.enpassant != Square::spec_none() && done(pos, rest, ep_pawn(pos)) ==> d.enpassant
        == pos.enpassant
    &&& d.castling_rights.0 <= 15
    &&& flag_ok(pos, rest, d, WHITE_KING_SIDE, H1 as int)
    &&& flag_ok(pos, rest, d, WHITE_QUEEN_SIDE, A1 as int)
    &&& flag_ok(pos, rest, d, BLACK_KING_SIDE, H8 as int)
    &&& flag_ok(pos, rest, d, BLACK_QUEEN_SIDE, A8 as int)
}

/// The square of the pawn that can be captured in passing.
spec fn ep_pawn(pos: Position) -> int {
    if pos.enpassant.index < 24 {
        pos.enpassant.index + 8
    } else {
        pos.enpassant.index - 8
    }
}

/// The unpacked position has a castling right only if the packed one has
/// it, and has it once the right's rook has been unpacked.
spec fn flag_ok(pos: Position, rest: u64, d: Position, flag: u8, rook: int) -> bool {
    &&& d.castling_rights.has(flag) ==> pos.castling_rights.has(flag)
    &&& pos.castling_rights.has(flag) && done(pos, rest, rook) ==> d.castling_rights.has(flag)
}

proof fn lemma_flags(a: u8, f: u8, g: u8)
    by (bit_vector)
    requires
        a <= 15,
        f == 1 || f == 2 || f == 4 || f == 8,
        g == 1 || g == 2 || g == 4 || g == 8,
    ensures
        (a | f) <= 15,
        ((a | f) & g == g) == ((a & g == g) || f == g),
        0u8 & g != g,
{
}

proof fn lemma_flags_ext(a: u8, b: u8)
    by (bit_vector)
    requires
        a <= 15,
        b <= 15,
        (a & 1 == 1) == (b & 1 == 1),
        (a & 2 == 2) == (b & 2 == 2),
        (a & 4 == 4) == (b & 4 == 4),
        (a & 8 == 8) == (b & 8 == 8),
    ensures
        a == b,
{
}

/// The code of a square holds one of the 16 values of four bits, and the
/// piece that it puts on the square is the piece that stands there.
proof fn lemma_code_piece(pos: Position, sq: int)
    requires
        codable(pos),
        0 <= sq < 64,
        on(pos.spec_occupied(), sq),
    ensures
        code_of(pos, sq as u32) <= 15,
        pos.pieces[sq].is_piece(),
        piece_of_code(code_of(pos, sq as u32), sq as u32) == pos.pieces[sq],
{
    lemma_occupied(pos, sq as u32);
}

/// Writing code number `k` leaves the codes before it as they are.
proof fn lemma_with_nibble(s: Seq<u8>, k: int, code: u8)
    requires
        0 <= k < 32,
        code <= 15,
        zero_from(s, k),
    ensures
        zero_from(with_nibble(s, k, code), k + 1),
        nibble(with_nibble(s, k, code), k) == code,
        forall|i: int| 0 <= i < k ==> nibble(with_nibble(s, k, code), i) == nibble(s, i),
{
}

/// The packed state holds the code of every occupied square, in the order
/// of the squares.
proof fn lemma_compress_codes(pos: Position, rest: u64, k: nat, s: Seq<u8>)
    requires
        codable(pos),
        k + popcount(rest) <= 32,
        zero_from(s, k as int),
        forall|sq: int| 0 <= sq < 64 && #[trigger] on(rest, sq) ==> on(pos.spec_occupied(), sq),
    ensures
        compress_from(pos, rest, k, s).len() == 16,
        forall|i: int| 0 <= i < k ==> nibble(compress_from(pos, rest, k, s), i) == nibble(s, i),
        forall|j: nat|
            j < popcount(rest) ==> nibble(compress_from(pos, rest, k, s), (k + j) as int)
                == code_of(pos, #[trigger] nth_set_bit(rest, j)),
    decreases rest,
{
    if rest != 0 {
        lemma_lsb(rest);
        lemma_popcount_clear_lsb(rest);
        let sq = lsb_index(rest);
        let code = code_of(pos, sq);
        assert(on(rest, sq as int));
        lemma_code_piece(pos, sq as int);
        lemma_with_nibble(s, k as int, code);
        let s1 = with_nibble(s, k as int, code);
        let next = clear_lsb(rest);
        assert forall|q: int| 0 <= q < 64 && #[trigger] on(next, q) implies on(pos.spec_occupied(), q) by {
            assert(on(rest, q));
        }
        lemma_compress_codes(pos, next, k + 1, s1);
        let f = compress_from(pos, rest, k, s);
        assert(f == compress_from(pos, next, k + 1, s1));
        assert forall|j: nat| j < popcount(rest) implies nibble(f, (k + j) as int) == code_of(
            pos,
            #[trigger] nth_set_bit(rest, j),
        ) by {
            if j == 0 {
                assert(nibble(f, k as int) == nibble(s1, k as int));
            } else {
                assert(nth_set_bit(rest, j) == nth_set_bit(next, (j - 1) as nat));
                assert(nibble(f, (k + 1 + (j - 1)) as int) == code_of(
                    pos,
                    nth_set_bit(next, (j - 1) as nat),
                ));
            }
        }
    }
}

/// Two consistent boards with the same piece list have the same
/// bitboards.
pub proof fn lemma_same_pieces_same_boards(p: Position, q: Position)
    requires
        p.wf(),
        q.wf(),
        p.pieces == q.pieces,
    ensures
        p.bb == q.bb,
        p.bb_color == q.bb_color,
{
    assert forall|t: int| 0 <= t < 6 implies p.bb[t] == q.bb[t] by {
        assert forall|j: u64| j < 64 implies bit64(p.bb[t], j) == bit64(q.bb[t], j) by {
            assert(p.type_bit(t, j as int) <==> p.pieces[j as int].id / 2 == t);
            assert(q.type_bit(t, j as int) <==> q.pieces[j as int].id / 2 == t);
        }
        lemma_bit_ext(p.bb[t], q.bb[t]);
    }
    assert forall|c: int| 0 <= c < 2 implies p.bb_color[c] == q.bb_color[c] by {
        assert forall|j: u64| j < 64 implies bit64(p.bb_color[c], j) == bit64(
            q.bb_color[c],
            j,
        ) by {
            assert(p.color_bit(c, j as int) <==> (p.pieces[j as int].is_piece()
                && p.pieces[j as int].id % 2 == c));
            assert(q.color_bit(c, j as int) <==> (q.pieces[j as int].is_piece()
                && q.pieces[j as int].id % 2 == c));
        }
        lemma_bit_ext(p.bb_color[c], q.bb_color[c]);
    }
    assert(p.bb =~= q.bb);
    assert(p.bb_color =~= q.bb_color);
}

/// One step of unpacking keeps what holds of the unpacked position.
proof fn lemma_unpack_step(pos: Position, rest: u64, d: Position, bk: int)
    requires
        codable(pos),
        rest != 0,
        partly(pos, rest, d, bk),
        0 <= bk < 64,
        pos.stm == Color::Black ==> pos.pieces[bk].id == BLACK_KING,
    ensures
        partly(
            pos,
            clear_lsb(rest),
            place_code(d, lsb_index(rest), code_of(pos, lsb_index(rest))),
            bk,
        ),
{
    lemma_lsb(rest);
    let sq = lsb_index(rest);
    let code = code_of(pos, sq);
    let next = clear_lsb(rest);
    let pc = piece_of_code(code, sq);
    let placed = d.spec_place_piece(pc.spec_color(), pc, sq);
    let e = place_code(d, sq, code);
    assert(on(rest, sq as int));
    lemma_code_piece(pos, sq as int);
    assert(d.pieces[sq as int] == Piece::spec_none());
    lemma_place_wf(d, pc.spec_color(), pc, sq);
    lemma_wf_same_board(placed, e);
    assert forall|q: int| 0 <= q < 64 implies #[trigger] e.pieces[q] == (if done(pos, next, q) {
        pos.pieces[q]
    } else {
        Piece::spec_none()
    }) by {
        assert(on(next, q) == (on(rest, q) && q != sq));
        assert(d.pieces[q] == (if done(pos, rest, q) {
            pos.pieces[q]
        } else {
            Piece::spec_none()
        }));
    }
    assert forall|q: int| 0 <= q < 64 && #[trigger] on(next, q) implies on(pos.spec_occupied(), q) by {
        assert(on(rest, q));
    }
    assert forall|q: int| 0 <= q < 64 implies done(pos, next, q) == (done(pos, rest, q) || q
        == sq) by {
        assert(on(next, q) == (on(rest, q) && q != sq));
    }
    lemma_flags(d.castling_rights.0, WHITE_KING_SIDE, WHITE_KING_SIDE);
    lemma_flags(d.castling_rights.0, WHITE_KING_SIDE, WHITE_QUEEN_SIDE);
    lemma_flags(d.castling_rights.0, WHITE_KING_SIDE, BLACK_KING_SIDE);
    lemma_flags(d.castling_rights.0, WHITE_KING_SIDE, BLACK_QUEEN_SIDE);
    lemma_flags(d.castling_rights.0, WHITE_QUEEN_SIDE, WHITE_KING_SIDE);
    lemma_flags(d.castling_rights.0, WHITE_QUEEN_SIDE, WHITE_QUEEN_SIDE);
    lemma_flags(d.castling_rights.0, WHITE_QUEEN_SIDE, BLACK_KING_SIDE);
    lemma_flags(d.castling_rights.0, WHITE_QUEEN_SIDE, BLACK_QUEEN_SIDE);
    lemma_flags(d.castling_rights.0, BLACK_KING_SIDE, WHITE_KING_SIDE);
    lemma_flags(d.castling_rights.0, BLACK_KING_SIDE, WHITE_QUEEN_SIDE);
    lemma_flags(d.castling_rights.0, BLACK_KING_SIDE, BLACK_KING_SIDE);
    lemma_flags(d.castling_rights.0, BLACK_KING_SIDE, BLACK_QUEEN_SIDE);
    lemma_flags(d.castling_rights.0, BLACK_QUEEN_SIDE, WHITE_KING_SIDE);
    lemma_flags(d.castling_rights.0, BLACK_QUEEN_SIDE, WHITE_QUEEN_SIDE);
    lemma_flags(d.castling_rights.0, BLACK_QUEEN_SIDE, BLACK_KING_SIDE);
    lemma_flags(d.castling_rights.0, BLACK_QUEEN_SIDE, BLACK_QUEEN_SIDE);
    assert(done(pos, next, bk) == (done(pos, rest, bk) || bk == sq));
    assert(done(pos, next, ep_pawn(pos)) == (done(pos, rest, ep_pawn(pos)) || ep_pawn(pos) == sq))
        by {
        if 0 <= ep_pawn(pos) < 64 {
        } else {
            assert(!on(pos.spec_occupied(), ep_pawn(pos)));
        }
    }
    assert(done(pos, next, H1 as int) == (done(pos, rest, H1 as int) || H1 == sq));
    assert(done(pos, next, A1 as int) == (done(pos, rest, A1 as int) || A1 == sq));
    assert(done(pos, next, H8 as int) == (done(pos, rest, H8 as int) || H8 == sq));
    assert(done(pos, next, A8 as int) == (done(pos, rest, A8 as int) || A8 == sq));
}

/// Unpacking the codes of the squares that are left completes the
/// position.
proof fn lemma_unpack_rest(pos: Position, state: Seq<u8>, rest: u64, k: nat, d: Position, bk: int)
    requires
        codable(pos),
        partly(pos, rest, d, bk),
        0 <= bk < 64,
        pos.stm == Color::Black ==> pos.pieces[bk].id == BLACK_KING,
        k + popcount(rest) <= 32,
        forall|j: nat|
            j < popcount(rest) ==> nibble(state, (k + j) as int) == code_of(
                pos,
                #[trigger] nth_set_bit(rest, j),
            ),
    ensures
        same_but_counters(decompress_from(rest, state, k, d), pos),
    decreases rest,
{
    if rest == 0 {
        crate::chess::bits::lemma_bit_ops(0, 0, 0);
        assert forall|sq: int| 0 <= sq < 64 implies d.pieces[sq] == pos.pieces[sq] by {
            crate::chess::bits::lemma_bit_ops(0, 0, sq as u64);
            lemma_occupied(pos, sq as u32);
            assert(pos.pieces[sq].wf());
        }
        assert(d.pieces =~= pos.pieces);
        lemma_same_pieces_same_boards(d, pos);
        crate::chess::bits::lemma_bit_ops(0, 0, bk as u64);
        if pos.stm == Color::Black {
            lemma_occupied(pos, bk as u32);
        }
        if pos.enpassant != Square::spec_none() {
            lemma_occupied(pos, ep_pawn(pos) as u32);
            crate::chess::bits::lemma_bit_ops(0, 0, ep_pawn(pos) as u64);
        }
        crate::chess::bits::lemma_bit_ops(0, 0, H1 as u64);
        crate::chess::bits::lemma_bit_ops(0, 0, A1 as u64);
        crate::chess::bits::lemma_bit_ops(0, 0, H8 as u64);
        crate::chess::bits::lemma_bit_ops(0, 0, A8 as u64);
        lemma_occupied(pos, H1);
        lemma_occupied(pos, A1);
        lemma_occupied(pos, H8);
        lemma_occupied(pos, A8);
        lemma_flags_ext(d.castling_rights.0, pos.castling_rights.0);
    } else {
        lemma_lsb(rest);
        lemma_popcount_clear_lsb(rest);
        let sq = lsb_index(rest);
        let next = clear_lsb(rest);
        assert(nth_set_bit(rest, 0) == sq);
        assert(nibble(state, (k + 0) as int) == code_of(pos, nth_set_bit(rest, 0)));
        let e = place_code(d, sq, nibble(state, k as int));
        lemma_unpack_step(pos, rest, d, bk);
        assert forall|j: nat| j < popcount(next) implies nibble(state, (k + 1 + j) as int)
            == code_of(pos, #[trigger] nth_set_bit(next, j)) by {
            assert(nth_set_bit(next, j) == nth_set_bit(rest, j + 1));
            assert(nibble(state, (k + (j + 1)) as int) == code_of(
                pos,
                nth_set_bit(rest, j + 1),
            ));
        }
        lemma_unpack_rest(pos, state, next, k + 1, e, bk);
    }
}

/// Packing a position and unpacking what was packed gives back the board,
/// the side to move, the castling rights and the en-passant square. The
/// move counters come back as those of the empty position.
pub proof fn lemma_position_roundtrip(pos: Position)
    requires
        codable(pos),
    ensures
        ({
            let (occupied, state) = CompressedPosition::spec_compress(pos);
            let unpacked = decompress_from(occupied, state, 0, Position::spec_empty());
            same_but_counters(unpacked, pos) && unpacked.halfm == 0 && unpacked.fullm == 1
        }),
{
    let occupied = pos.spec_occupied();
    let zeros = Seq::new(16, |i: int| 0u8);
    let state = compress_from(pos, occupied, 0, zeros);
    let empty = Position::spec_empty();
    lemma_compress_codes(pos, occupied, 0, zeros);
    let bk = if pos.stm == Color::Black {
        choose|k: int| 0 <= k < 64 && pos.pieces[k].id == BLACK_KING
    } else {
        0
    };
    crate::chess::position::lemma_empty_wf();
    assert(partly(pos, occupied, empty, bk)) by {
        lemma_flags(0, 1, 1);
        lemma_flags(0, 1, 2);
        lemma_flags(0, 1, 4);
        lemma_flags(0, 1, 8);
    }
    lemma_unpack_rest(pos, state, occupied, 0, empty, bk);
    lemma_counters_kept(state, occupied, 0, empty);
}

/// Unpacking leaves the move counters alone.
pub proof fn lemma_counters_kept(state: Seq<u8>, rest: u64, k: nat, d: Position)
    ensures
        decompress_from(rest, state, k, d).halfm == d.halfm,
        decompress_from(rest, state, k, d).fullm == d.fullm,
    decreases rest,
{
    if rest != 0 && k < 32 {
        lemma_lsb(rest);
        lemma_counters_kept(
            state,
            clear_lsb(rest),
            k + 1,
            place_code(d, lsb_index(rest), nibble(state, k as int)),
        );
    }
}

} // verus!
