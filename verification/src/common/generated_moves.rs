//! The moves that the generator makes are moves of legal shape, and moves
//! that a chain can hold: in a position of a game, the generator, the
//! encoder and the decoder agree on the destinations of every piece.

use vstd::prelude::*;
use crate::chess::attacks::{
    ahead, black_pawn_attacks, castle_move, castling_moves, long_flag, long_rook, normal_move,
    pawn_attacks, pawn_capture_moves, pawn_capture_to, pawn_moves, pawn_push_moves,
    piece_attack_set, piece_moves, pseudo_legal_moves_of, short_flag, short_rook, target_moves,
    white_pawn_attacks,
};
use crate::chess::bits::{
    bit64, clear_lsb, lemma_bit_ops, lemma_bit_single, lemma_lsb, lemma_or, lsb_index,
};
use crate::chess::board_lemmas::lemma_occupied;
use crate::chess::chess_move::{Move, MoveType};
use crate::chess::color::Color;
use crate::chess::coords::lemma_square_index_bits;
use crate::chess::piece::{lemma_piece_new, Piece};
use crate::chess::piecetype::PieceType;
use crate::chess::position::Position;
use crate::common::chain_roundtrip::{chain_bytes, is_game, stem_of_chain};
use crate::common::compressed_training_file_writer::framed;
use crate::common::stream_roundtrip::{clean, lemma_game_in_file};
use crate::reader::decoded::file_samples;
use crate::common::compressed_move::canonical;
use crate::common::entry::TrainingDataEntry;
use crate::common::game_invariant::{legal_shape, lemma_move_keeps_sound, only_king, sound};
use crate::common::move_slots::{all, own, theirs};
use crate::common::slot_roundtrip::{chain_move, lemma_lsb_unique, lemma_own_square};

verus! {

/// What is in one of two sequences put together is in one of them.
proof fn lemma_in_sum(a: Seq<Move>, b: Seq<Move>, mv: Move)
    requires
        (a + b).contains(mv),
    ensures
        a.contains(mv) || b.contains(mv),
{
    let i = choose|i: int| 0 <= i < (a + b).len() && (a + b)[i] == mv;
    if i < a.len() {
        assert(a[i] == mv);
    } else {
        assert(b[i - a.len()] == mv);
    }
}

/// What the moves to a set of targets are.
proof fn lemma_in_targets(pos: Position, side: Color, from: u32, targets: u64, mv: Move)
    requires
        target_moves(pos, side, from, targets).contains(mv),
    ensures
        mv.to.index < 64,
        bit64(targets, mv.to.index as u64),
        mv == normal_move(from, mv.to.index),
        pos.pieces[mv.to.index as int] == Piece::spec_none() || pos.pieces[mv.to.index as int].spec_color()
            != side,
    decreases targets,
{
    if targets != 0 {
        lemma_lsb(targets);
        let to = lsb_index(targets);
        let target = pos.pieces[to as int];
        let here: Seq<Move> = if target == Piece::spec_none() || target.spec_color() != side {
            seq![normal_move(from, to)]
        } else {
            Seq::empty()
        };
        let rest = target_moves(pos, side, from, clear_lsb(targets));
        lemma_in_sum(here, rest, mv);
        if here.contains(mv) {
            assert(here[0] == mv);
        } else {
            lemma_in_targets(pos, side, from, clear_lsb(targets), mv);
        }
    }
}

/// What the moves of the pieces of one kind are.
proof fn lemma_in_pieces(pos: Position, side: Color, pt: PieceType, pieces: u64, mv: Move)
    requires
        piece_moves(pos, side, pt, pieces).contains(mv),
    ensures
        mv.from.index < 64,
        bit64(pieces, mv.from.index as u64),
        target_moves(
            pos,
            side,
            mv.from.index,
            piece_attack_set(pt, mv.from.index, pos.spec_occupied()),
        ).contains(mv),
    decreases pieces,
{
    if pieces != 0 {
        lemma_lsb(pieces);
        let from = lsb_index(pieces);
        let here = target_moves(pos, side, from, piece_attack_set(pt, from, pos.spec_occupied()));
        let rest = piece_moves(pos, side, pt, clear_lsb(pieces));
        lemma_in_sum(here, rest, mv);
        if here.contains(mv) {
            lemma_in_targets(pos, side, from, piece_attack_set(pt, from, pos.spec_occupied()), mv);
        } else {
            lemma_in_pieces(pos, side, pt, clear_lsb(pieces), mv);
        }
    }
}

/// What the captures of one pawn are.
proof fn lemma_in_captures(pos: Position, side: Color, from: u32, attacks: u64, mv: Move)
    requires
        pawn_capture_moves(pos, side, from, attacks).contains(mv),
    ensures
        mv.to.index < 64,
        bit64(attacks, mv.to.index as u64),
        pawn_capture_to(pos, side, from, mv.to.index).contains(mv),
    decreases attacks,
{
    if attacks != 0 {
        lemma_lsb(attacks);
        let to = lsb_index(attacks);
        let here = pawn_capture_to(pos, side, from, to);
        let rest = pawn_capture_moves(pos, side, from, clear_lsb(attacks));
        lemma_in_sum(here, rest, mv);
        if here.contains(mv) {
            let i = choose|i: int| 0 <= i < here.len() && here[i] == mv;
            assert(here[i].to.index == to);
        } else {
            lemma_in_captures(pos, side, from, clear_lsb(attacks), mv);
        }
    }
}

/// What the moves of the pawns are.
proof fn lemma_in_pawns(pos: Position, side: Color, pawns: u64, mv: Move)
    requires
        pawn_moves(pos, side, pawns).contains(mv),
    ensures
        mv.from.index < 64,
        bit64(pawns, mv.from.index as u64),
        pawn_push_moves(pos, side, mv.from.index).contains(mv) || (mv.to.index < 64 && bit64(
            pawn_attacks(side, mv.from.index),
            mv.to.index as u64,
        ) && pawn_capture_to(pos, side, mv.from.index, mv.to.index).contains(mv)),
    decreases pawns,
{
    if pawns != 0 {
        lemma_lsb(pawns);
        let from = lsb_index(pawns);
        let pushes = pawn_push_moves(pos, side, from);
        let captures = pawn_capture_moves(pos, side, from, pawn_attacks(side, from));
        let rest = pawn_moves(pos, side, clear_lsb(pawns));
        lemma_in_sum(pushes + captures, rest, mv);
        if (pushes + captures).contains(mv) {
            lemma_in_sum(pushes, captures, mv);
            if pushes.contains(mv) {
                let i = choose|i: int| 0 <= i < pushes.len() && pushes[i] == mv;
                assert(pushes[i].from.index == from);
            } else {
                lemma_in_captures(pos, side, from, pawn_attacks(side, from), mv);
                let here = pawn_capture_to(pos, side, from, mv.to.index);
                let i = choose|i: int| 0 <= i < here.len() && here[i] == mv;
                assert(here[i].from.index == from);
            }
        } else {
            lemma_in_pawns(pos, side, clear_lsb(pawns), mv);
        }
    }
}

proof fn lemma_pawn_steps(from: u64, to: u64)
    by (bit_vector)
    requires
        from < 64,
        to < 64,
    ensures
        ((white_pawn_attacks(from) >> to) & 1 == 1) ==> (to == from + 7 || to == from + 9) && to
            / 8 == from / 8 + 1,
        ((black_pawn_attacks(from) >> to) & 1 == 1) ==> (to + 7 == from || to + 9 == from) && to
            / 8 + 1 == from / 8,
{
}

/// A square that a pawn attacks lies one rank ahead of the pawn.
proof fn lemma_pawn_attack_rank(side: Color, from: u32, to: u32)
    requires
        from < 64,
        to < 64,
        bit64(pawn_attacks(side, from), to as u64),
    ensures
        to / 8 == ahead(side, from as int, 1) / 8,
        to != from,
        0 <= ahead(side, from as int, 1) < 64,
{
    lemma_pawn_steps(from as u64, to as u64);
}

/// The squares of all pieces, whichever side is named first.
proof fn lemma_all_occupied(pos: Position)
    ensures
        all(pos) == pos.spec_occupied(),
{
    lemma_or(pos.bb_color[0], pos.bb_color[1], 0, 0, 0, 0);
}

/// Where the list has a piece of the side to move, and where one of the
/// other side.
proof fn lemma_sides(pos: Position, sq: u32)
    requires
        pos.wf(),
        sq < 64,
    ensures
        bit64(own(pos), sq as u64) == (pos.pieces[sq as int].is_piece()
            && pos.pieces[sq as int].spec_color() == pos.stm),
        bit64(theirs(pos), sq as u64) == (pos.pieces[sq as int].is_piece()
            && pos.pieces[sq as int].spec_color() != pos.stm),
        bit64(all(pos), sq as u64) == pos.pieces[sq as int].is_piece(),
        pos.pieces[sq as int].wf(),
{
    lemma_own_square(pos, sq);
    lemma_all_occupied(pos);
    lemma_occupied(pos, sq);
    let c = pos.stm.flip().spec_ordinal() as int;
    assert(pos.color_bit(c, sq as int) <==> (pos.pieces[sq as int].is_piece()
        && pos.pieces[sq as int].id % 2 == c));
}

/// Where the bitboards have a piece of one kind and side.
proof fn lemma_kind_square(pos: Position, side: Color, pt: PieceType, sq: u32)
    requires
        pos.wf(),
        sq < 64,
        pt != PieceType::NoPiece,
    ensures
        bit64(pos.spec_pieces_bb_color(side, pt), sq as u64) == (pos.pieces[sq as int]
            == Piece::spec_new(pt, side)),
{
    let c = side.spec_ordinal() as int;
    let t = pt.spec_ordinal() as int;
    lemma_bit_ops(pos.bb_color[c], pos.bb[t], sq as u64);
    assert(pos.color_bit(c, sq as int) <==> (pos.pieces[sq as int].is_piece()
        && pos.pieces[sq as int].id % 2 == c));
    assert(pos.type_bit(t, sq as int) <==> pos.pieces[sq as int].id / 2 == t);
    lemma_piece_new(pt, side);
}

/// Whether the counters of a position have room for one more move.
pub open spec fn has_room(pos: Position) -> bool {
    pos.halfm < 255 && pos.fullm < 65535
}

/// A move of a knight, bishop, rook, queen or king that the generator
/// makes has legal shape and can be held by a chain.
proof fn lemma_piece_move(pos: Position, pt: PieceType, mv: Move)
    requires
        sound(pos),
        has_room(pos),
        pt != PieceType::Pawn && pt != PieceType::NoPiece,
        piece_moves(pos, pos.stm, pt, pos.spec_pieces_bb_color(pos.stm, pt)).contains(mv),
        pos.pieces[mv.to.index as int].spec_piece_type() != PieceType::King,
    ensures
        legal_shape(pos, mv),
        chain_move(pos, mv),
        canonical(mv),
{
    let side = pos.stm;
    lemma_in_pieces(pos, side, pt, pos.spec_pieces_bb_color(side, pt), mv);
    let from = mv.from.index;
    lemma_in_targets(pos, side, from, piece_attack_set(pt, from, pos.spec_occupied()), mv);
    let to = mv.to.index;
    lemma_kind_square(pos, side, pt, from);
    lemma_piece_new(pt, side);
    lemma_sides(pos, to);
    lemma_sides(pos, from);
    lemma_all_occupied(pos);
    lemma_bit_ops(piece_attack_set(pt, from, all(pos)), !own(pos), to as u64);
    lemma_bit_ops(own(pos), own(pos), to as u64);
}

/// A move of a pawn that the generator makes has legal shape and can be
/// held by a chain.
proof fn lemma_pawn_move(pos: Position, mv: Move)
    requires
        sound(pos),
        has_room(pos),
        pawn_moves(pos, pos.stm, pos.spec_pieces_bb_color(pos.stm, PieceType::Pawn)).contains(mv),
        pos.pieces[mv.to.index as int].spec_piece_type() != PieceType::King,
    ensures
        legal_shape(pos, mv),
        chain_move(pos, mv),
        canonical(mv),
{
    let side = pos.stm;
    lemma_in_pawns(pos, side, pos.spec_pieces_bb_color(side, PieceType::Pawn), mv);
    let from = mv.from.index;
    let to = mv.to.index;
    lemma_kind_square(pos, side, PieceType::Pawn, from);
    lemma_piece_new(PieceType::Pawn, side);
    lemma_piece_new(PieceType::Pawn, side.flip());
    lemma_piece_new(PieceType::Queen, side);
    lemma_piece_new(PieceType::Rook, side);
    lemma_piece_new(PieceType::Bishop, side);
    lemma_piece_new(PieceType::Knight, side);
    lemma_sides(pos, from);
    lemma_all_occupied(pos);
    let one = ahead(side, from as int, 1);
    let two = ahead(side, from as int, 2);
    let captures = crate::common::move_slots::pawn_captures(pos, from);
    let ep = pos.enpassant.index;
    if 0 <= one < 64 {
        lemma_sides(pos, one as u32);
        lemma_bit_single(one as u64, to as u64);
        lemma_bit_ops(captures, 1u64 << (one as u64), to as u64);
    }
    if 0 <= two < 64 {
        lemma_sides(pos, two as u32);
        lemma_bit_single(two as u64, to as u64);
        lemma_bit_ops(captures | (1u64 << (one as u64)), 1u64 << (two as u64), to as u64);
    }
    if ep < 64 {
        lemma_sides(pos, ep);
        lemma_square_index_bits(ep);
        lemma_bit_single(ep as u64, to as u64);
    }
    let pushes = pawn_push_moves(pos, side, from);
    if pushes.contains(mv) {
        let i = choose|i: int| 0 <= i < pushes.len() && pushes[i] == mv;
        assert(pushes[i] == mv);
        lemma_sides(pos, to);
    } else {
        lemma_sides(pos, to);
        lemma_pawn_attack_rank(side, from, to);
        let ep_bit = if ep < 64 {
            1u64 << ep
        } else {
            0u64
        };
        lemma_bit_ops(theirs(pos), ep_bit, to as u64);
        lemma_bit_ops(pawn_attacks(side, from), theirs(pos) | ep_bit, to as u64);
        let here = pawn_capture_to(pos, side, from, to);
        let i = choose|i: int| 0 <= i < here.len() && here[i] == mv;
        assert(here[i] == mv);
        if 0 <= one < 64 {
            assert(bit64(captures, to as u64));
        }
    }
}

/// A castling move that the generator makes has legal shape and can be
/// held by a chain.
proof fn lemma_castle_move(pos: Position, mv: Move)
    requires
        sound(pos),
        has_room(pos),
        castling_moves(pos, pos.stm).contains(mv),
    ensures
        legal_shape(pos, mv),
        chain_move(pos, mv),
        canonical(mv),
{
    let side = pos.stm;
    let king_sq = pos.spec_king_sq(side);
    let short = castle_move(pos, side, short_flag(side), king_sq, short_rook(side));
    let long = castle_move(pos, side, long_flag(side), king_sq, long_rook(side));
    lemma_in_sum(short, long, mv);
    let home = crate::common::game_invariant::king_home(side);
    let k = choose|k: int| only_king(pos, side, k);
    let kings = pos.spec_pieces_bb_color(side, PieceType::King);
    lemma_piece_new(PieceType::King, side);
    lemma_piece_new(PieceType::Rook, side);
    assert(pos.pieces[home as int] == Piece::spec_new(PieceType::King, side));
    assert(k == home);
    lemma_kind_square(pos, side, PieceType::King, home);
    assert forall|j: u64| j < home implies !bit64(kings, j) by {
        lemma_kind_square(pos, side, PieceType::King, j as u32);
    }
    lemma_lsb_unique(kings, home);
    if short.contains(mv) {
        assert(short[0] == mv);
    } else {
        assert(long[0] == mv);
    }
}

/// In a position of a game whose counters have room, a move that the
/// generator makes and that takes no king has legal shape, and a chain
/// can hold it.
pub proof fn lemma_generated_move(pos: Position, mv: Move)
    requires
        sound(pos),
        has_room(pos),
        pseudo_legal_moves_of(pos).contains(mv),
        mv.move_type != MoveType::Castle ==> pos.pieces[mv.to.index as int].spec_piece_type()
            != PieceType::King,
    ensures
        legal_shape(pos, mv),
        chain_move(pos, mv),
        canonical(mv),
{
    let side = pos.stm;
    let pawns = pawn_moves(pos, side, pos.spec_pieces_bb_color(side, PieceType::Pawn));
    let knights = piece_moves(
        pos,
        side,
        PieceType::Knight,
        pos.spec_pieces_bb_color(side, PieceType::Knight),
    );
    let bishops = piece_moves(
        pos,
        side,
        PieceType::Bishop,
        pos.spec_pieces_bb_color(side, PieceType::Bishop),
    );
    let rooks = piece_moves(
        pos,
        side,
        PieceType::Rook,
        pos.spec_pieces_bb_color(side, PieceType::Rook),
    );
    let queens = piece_moves(
        pos,
        side,
        PieceType::Queen,
        pos.spec_pieces_bb_color(side, PieceType::Queen),
    );
    let kings = piece_moves(
        pos,
        side,
        PieceType::King,
        pos.spec_pieces_bb_color(side, PieceType::King),
    );
    let castlings = castling_moves(pos, side);
    lemma_in_sum(pawns + knights + bishops + rooks + queens + kings, castlings, mv);
    if castlings.contains(mv) {
        lemma_castle_move(pos, mv);
    } else {
        lemma_in_sum(pawns + knights + bishops + rooks + queens, kings, mv);
        if kings.contains(mv) {
            lemma_piece_move_plain(pos, PieceType::King, mv);
 lemma_piece_move(pos, PieceType::King, mv);
        } else {
            lemma_in_sum(pawns + knights + bishops + rooks, queens, mv);
            if queens.contains(mv) {
                lemma_piece_move_plain(pos, PieceType::Queen, mv);
 lemma_piece_move(pos, PieceType::Queen, mv);
            } else {
                lemma_in_sum(pawns + knights + bishops, rooks, mv);
                if rooks.contains(mv) {
                    lemma_piece_move_plain(pos, PieceType::Rook, mv);
 lemma_piece_move(pos, PieceType::Rook, mv);
                } else {
                    lemma_in_sum(pawns + knights, bishops, mv);
                    if bishops.contains(mv) {
                        lemma_piece_move_plain(pos, PieceType::Bishop, mv);
 lemma_piece_move(pos, PieceType::Bishop, mv);
                    } else {
                        lemma_in_sum(pawns, knights, mv);
                        if knights.contains(mv) {
                            lemma_piece_move_plain(pos, PieceType::Knight, mv);
 lemma_piece_move(pos, PieceType::Knight, mv);
                        } else {
                            lemma_pawn_move_kind(pos, mv);
                            lemma_pawn_move(pos, mv);
                        }
                    }
                }
            }
        }
    }
}

/// The moves of the pieces of one kind are plain moves.
proof fn lemma_piece_move_plain(pos: Position, pt: PieceType, mv: Move)
    requires
        piece_moves(pos, pos.stm, pt, pos.spec_pieces_bb_color(pos.stm, pt)).contains(mv),
    ensures
        mv.move_type == MoveType::Normal,
{
    lemma_in_pieces(pos, pos.stm, pt, pos.spec_pieces_bb_color(pos.stm, pt), mv);
    lemma_in_targets(
        pos,
        pos.stm,
        mv.from.index,
        piece_attack_set(pt, mv.from.index, pos.spec_occupied()),
        mv,
    );
}

/// No move of a pawn is a castling move.
proof fn lemma_pawn_move_kind(pos: Position, mv: Move)
    requires
        pawn_moves(pos, pos.stm, pos.spec_pieces_bb_color(pos.stm, PieceType::Pawn)).contains(mv),
    ensures
        mv.move_type != MoveType::Castle,
{
    let side = pos.stm;
    lemma_in_pawns(pos, side, pos.spec_pieces_bb_color(side, PieceType::Pawn), mv);
    let pushes = pawn_push_moves(pos, side, mv.from.index);
    if pushes.contains(mv) {
        let i = choose|i: int| 0 <= i < pushes.len() && pushes[i] == mv;
        assert(pushes[i] == mv);
    } else {
        let here = pawn_capture_to(pos, side, mv.from.index, mv.to.index);
        let i = choose|i: int| 0 <= i < here.len() && here[i] == mv;
        assert(here[i] == mv);
    }
}

/// Whether the move of a sample is one that the generator makes in the
/// sample's position, takes no king and leaves the counters room, and the
/// sample's score is above the least 16-bit number.
pub open spec fn moved(e: TrainingDataEntry) -> bool {
    &&& has_room(e.pos)
    &&& pseudo_legal_moves_of(e.pos).contains(e.mv)
    &&& e.mv.move_type != MoveType::Castle ==> e.pos.pieces[e.mv.to.index as int].spec_piece_type()
        != PieceType::King
    &&& e.score > -32768
}

/// Whether the samples `conts` were played one after the other from the
/// sample `prev` on: each continues the one before it, with a move that
/// the generator makes.
pub open spec fn played(prev: TrainingDataEntry, conts: Seq<TrainingDataEntry>) -> bool
    decreases conts.len(),
{
    conts.len() == 0 || (prev.spec_is_continuation(conts[0]) && moved(conts[0]) && played(
        conts[0],
        conts.drop_first(),
    ))
}

/// Samples that were played from a position of a game on are a game that
/// a chain can hold.
pub proof fn lemma_played_is_game(prev: TrainingDataEntry, conts: Seq<TrainingDataEntry>)
    requires
        sound(prev.pos),
        moved(prev),
        played(prev, conts),
    ensures
        is_game(prev, conts),
    decreases conts.len(),
{
    if conts.len() > 0 {
        lemma_generated_move(prev.pos, prev.mv);
        lemma_move_keeps_sound(prev.pos, prev.mv);
        lemma_generated_move(conts[0].pos, conts[0].mv);
        lemma_played_is_game(conts[0], conts.drop_first());
    }
}

/// A game that was played with moves of the generator, from a position of
/// a game whose fullmove number is the one that its ply implies, is read
/// back as it was written when it is written as the one chain of a chunk:
/// the stem and each continuation, and nothing else.
pub proof fn lemma_played_game_roundtrip(stem: TrainingDataEntry, conts: Seq<TrainingDataEntry>)
    requires
        sound(stem.pos),
        moved(stem),
        played(stem, conts),
        stem.ply < 16384,
        -1 <= stem.result <= 1,
        stem.pos.fullm == stem.ply / 2 + 1,
        conts.len() <= 65535,
    ensures
        stem_of_chain(stem),
        is_game(stem, conts),
        file_samples(framed(chain_bytes(stem, conts))) == clean(seq![stem] + conts),
{
    lemma_generated_move(stem.pos, stem.mv);
    lemma_played_is_game(stem, conts);
    lemma_game_in_file(stem, conts);
}

} // verus!
