//! The moves and scores of a chain after its stem, as a stream of bits.
//! Each continuation takes three fields: the rank of the moving piece
//! among the pieces of its side, the slot of the move among the moves of
//! that piece, and the difference between its score and the score that
//! was expected, as a zig-zag coded variable-length number.

use vstd::prelude::*;
use crate::chess::bitboard::Bitboard;
use crate::chess::bits::{lemma_popcount_bound, popcount};
use crate::chess::castling_rights::{CastleType, CastlingTraits};
use crate::chess::chess_move::{Move, MoveType};
use crate::chess::piecetype::PieceType;
use crate::chess::position::Position;
use crate::common::arithmetic::{signed_to_unsigned, used_bits, used_bits_safe, zigzag};
use crate::common::entry::TrainingDataEntry;
use crate::common::move_slots::{
    encodable, index_in, lemma_used_bits_bound, own, own_castlings_of, pawn_destinations_of,
    piece_destinations_of, slot_count, slot_of_move,
};
use crate::writer::bitwriter::{add_bits, add_vle16, BitState, BitWriter};

verus! {

pub const SCORE_VLE_BLOCK_SIZE: usize = 4;

/// The difference of two scores in 16-bit arithmetic.
pub open spec fn score_delta(score: i16, expected: i16) -> i16 {
    let d = score - expected;
    if d > 32767 {
        (d - 65536) as i16
    } else if d < -32768 {
        (d + 65536) as i16
    } else {
        d as i16
    }
}

/// The stream after the continuation `(mv, score)` from `pos` has been
/// added, when `last_score` was the score expected.
pub open spec fn add_continuation(s: BitState, pos: Position, mv: Move, score: i16, last_score: i16)
    -> BitState {
    let piece_id = (index_in(own(pos), mv.from.index) % 256) as u8;
    let move_id = (slot_of_move(pos, mv) % 256) as u8;
    let with_piece = add_bits(s, piece_id, used_bits(popcount(own(pos))) as int);
    let with_move = add_bits(with_piece, move_id, used_bits(slot_count(pos, mv.from.index)) as int);
    add_vle16(
        with_move,
        zigzag(score_delta(score, last_score) as int) as u16,
        SCORE_VLE_BLOCK_SIZE as int,
    )
}

#[derive(Debug)]
pub struct PackedMoveScoreList {
    pub num_plies: u16,
    pub writer: BitWriter,
    pub last_score: i16,
}

impl PackedMoveScoreList {
    /// The bit stream is well formed and holds at most 18 bytes for each
    /// continuation.
    pub open spec fn wf(&self) -> bool {
        self.writer.wf() && self.writer@.bytes.len() <= 18 * self.num_plies
    }

    pub fn new() -> (r: PackedMoveScoreList)
        ensures
            r.wf(),
            r.num_plies == 0,
            r.writer@.bytes.len() == 0,
            r.writer@.left == 0,
            r.last_score == 0,
    {
        PackedMoveScoreList { num_plies: 0, writer: BitWriter::new(), last_score: 0 }
    }

    /// Starts the chain of the stem `e`: no continuation yet, and the
    /// score expected next is the stem's score seen from the other side.
    pub fn clear(&mut self, e: &TrainingDataEntry)
        requires
            e.score > -32768,
        ensures
            final(self).wf(),
            final(self).num_plies == 0,
            final(self).writer@.bytes.len() == 0,
            final(self).writer@.left == 0,
            final(self).last_score == -e.score,
    {
        self.num_plies = 0;
        self.writer.clear();
        self.last_score = -e.score;
    }

    pub fn movetext(&self) -> (r: &[u8])
        ensures
            r@ == self.writer@.bytes,
    {
        self.writer.movetext()
    }

    /// Whether the continuation `(mv, score)` from `pos` can be added.
    pub open spec fn can_add(&self, pos: Position, mv: Move, score: i16) -> bool {
        encodable(pos, mv) && score > -32768 && self.num_plies < 65535
    }

    pub fn add_move_score(&mut self, pos: &Position, mv: Move, score: i16)
        requires
            old(self).wf(),
            old(self).can_add(*pos, mv, score),
        ensures
            final(self).wf(),
            final(self).num_plies == old(self).num_plies + 1,
            final(self).last_score == -score,
            final(self).writer@ == add_continuation(
                old(self).writer@,
                *pos,
                mv,
                score,
                old(self).last_score,
            ),
    {
        let side_to_move = pos.side_to_move();
        let our_pieces = pos.pieces_bb(side_to_move);
        let piece_id: u8 = #[verifier::truncate] ((Bitboard::new(
            our_pieces.bits() & Bitboard::from_before(mv.from().index()).bits(),
        ).count() % 256) as u8);
        let (move_id, num_moves) = self.calculate_move_encoding(pos, mv);
        let num_pieces: u32 = our_pieces.count();
        proof {
            lemma_popcount_bound(our_pieces.data);
            lemma_used_bits_bound(num_pieces as nat);
            lemma_used_bits_bound(num_moves as nat);
        }
        self.writer.add_bits_le8(piece_id, used_bits_safe(num_pieces as u64));
        self.writer.add_bits_le8(
            #[verifier::truncate] ((move_id % 256) as u8),
            used_bits_safe(num_moves),
        );
        let score_delta: u16 = signed_to_unsigned(score.wrapping_sub(self.last_score));
        self.writer.add_bits_vle16(score_delta, SCORE_VLE_BLOCK_SIZE);
        self.last_score = -score;
        self.num_plies += 1;
    }

    fn calculate_move_encoding(&self, pos: &Position, mv: Move) -> (r: (u32, u64))
        requires
            encodable(*pos, mv),
        ensures
            r.0 == slot_of_move(*pos, mv),
            r.1 == slot_count(*pos, mv.from.index),
            r.1 <= 256,
    {
        let side_to_move = pos.side_to_move();
        let from = mv.from();
        let pt = pos.piece_at(from).piece_type();
        let below_to: u64 = Bitboard::from_before(mv.to().index()).bits();
        match pt {
            PieceType::Pawn => {
                let second_to_last_rank = crate::chess::coords::Rank::last_pawn_rank(side_to_move);
                let destinations = pawn_destinations_of(pos, from);
                proof {
                    lemma_popcount_bound(destinations.data);
                    lemma_popcount_bound(destinations.data & below_to);
                }
                let at: u32 = Bitboard::new(destinations.bits() & below_to).count();
                let count: u64 = destinations.count() as u64;
                if from.rank().index == second_to_last_rank.index {
                    let promotion_index: u32 = (mv.promoted_piece().piece_type().ordinal()
                        - PieceType::Knight.ordinal()) as u32;
                    (at * 4 + promotion_index, count * 4)
                } else {
                    (at, count)
                }
            },
            PieceType::King => {
                let attacks = piece_destinations_of(pos, PieceType::King, from);
                proof {
                    lemma_popcount_bound(attacks.data);
                    lemma_popcount_bound(attacks.data & below_to);
                }
                let attacks_size: u32 = attacks.count();
                let num_castling_rights: u32 = own_castlings_of(pos);
                let num_moves: u64 = attacks_size as u64 + num_castling_rights as u64;
                if mv.mtype() == MoveType::Castle {
                    let long_castling_rights = CastlingTraits::castling_rights(
                        side_to_move,
                        CastleType::Long,
                    );
                    let mut move_id: u32 = attacks_size;
                    if pos.castling_rights().contains(long_castling_rights) {
                        move_id += 1;
                    }
                    if mv.castle_type() == CastleType::Short {
                        move_id += 1;
                    }
                    (move_id - 1, num_moves)
                } else {
                    (Bitboard::new(attacks.bits() & below_to).count(), num_moves)
                }
            },
            _ => {
                let attacks = piece_destinations_of(pos, pt, from);
                proof {
                    lemma_popcount_bound(attacks.data);
                    lemma_popcount_bound(attacks.data & below_to);
                }
                (Bitboard::new(attacks.bits() & below_to).count(), attacks.count() as u64)
            },
        }
    }
}

} // verus!
