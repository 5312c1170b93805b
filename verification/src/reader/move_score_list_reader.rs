//! Reading the continuations of a chain: the inverse of the chain writer.
//! From the sample before, its move is made, and the next move and score
//! are read from the bit stream. What the stream holds is not trusted: a
//! move that cannot be made, or a counter without room, ends the reading.

use vstd::prelude::*;
use crate::chess::bits::{lemma_popcount_bound, popcount};
use crate::chess::castling_rights::{CastleType, CastlingTraits};
use crate::chess::chess_move::Move;
use crate::chess::coords::{Rank, Square};
use crate::chess::piece::Piece;
use crate::chess::piecetype::PieceType;
use crate::chess::position::Position;
use crate::common::arithmetic::{
    nth_set_bit_index, unsigned_to_signed, unzigzag, used_bits, used_bits_safe,
};
use crate::common::entry::TrainingDataEntry;
use crate::common::move_slots::{
    lemma_used_bits_bound, move_of_slot, own, own_castlings_of, pawn_destinations_of,
    piece_destinations_of, slot_count,
};
use crate::reader::bitreader::{
    after_bits, after_vle16, read_bits, read_vle16, BitReader, ReadState,
};

verus! {

pub const SCORE_VLE_BLOCK_SIZE: usize = 4;

/// The sum of two scores in 16-bit arithmetic.
pub open spec fn score_sum(expected: i16, delta: i16) -> i16 {
    let s = expected + delta;
    if s > 32767 {
        (s - 65536) as i16
    } else if s < -32768 {
        (s + 65536) as i16
    } else {
        s as i16
    }
}

/// The place in the stream behind the field that names the moving piece.
pub open spec fn after_piece(s: ReadState, pos: Position) -> ReadState {
    after_bits(s, used_bits(popcount(own(pos))) as int)
}

/// The square of the moving piece that the stream names from place `s`
/// on: 64 if the side to move has no such piece.
pub open spec fn decoded_origin(bytes: Seq<u8>, s: ReadState, pos: Position) -> u32 {
    crate::common::arithmetic::nth_set_bit(
        own(pos),
        read_bits(bytes, s, used_bits(popcount(own(pos))) as int) as nat,
    )
}

/// The move that the stream holds from place `s` on, for the side to move
/// in `pos`, if it names a piece and a destination.
pub open spec fn decoded_move(bytes: Seq<u8>, s: ReadState, pos: Position) -> Option<Move> {
    let from = decoded_origin(bytes, s, pos);
    if from >= 64 {
        None
    } else {
        move_of_slot(
            pos,
            from,
            read_bits(bytes, after_piece(s, pos), used_bits(slot_count(pos, from)) as int) as nat,
        )
    }
}

/// The place in the stream behind a move.
pub open spec fn after_move_bits(bytes: Seq<u8>, s: ReadState, pos: Position) -> ReadState {
    let from = decoded_origin(bytes, s, pos);
    if from >= 64 {
        after_piece(s, pos)
    } else {
        after_bits(after_piece(s, pos), used_bits(slot_count(pos, from)) as int)
    }
}

/// The score that the stream holds from place `s` on, when `last_score`
/// was expected.
pub open spec fn decoded_score(bytes: Seq<u8>, s: ReadState, last_score: i16) -> i16 {
    score_sum(
        last_score,
        unzigzag(read_vle16(bytes, s, SCORE_VLE_BLOCK_SIZE as int, 0, 0) as int) as i16,
    )
}

/// The sample that follows the sample `e` in its chain, if the stream
/// holds one at place `s`: the move of `e` can be made, the stream names
/// a move in the position that it gives, the score is not the least
/// 16-bit number, and ply and result have room.
pub open spec fn continued(e: TrainingDataEntry, s: ReadState, last_score: i16, bytes: Seq<u8>)
    -> Option<TrainingDataEntry> {
    let pos = e.pos.spec_after_move(e.mv);
    let score = decoded_score(bytes, after_move_bits(bytes, s, pos), last_score);
    if e.pos.applicable(e.mv) && decoded_move(bytes, s, pos).is_some() && score > -32768 && e.ply
        < 65535 && e.result > -32768 {
        Some(
            TrainingDataEntry {
                pos,
                mv: decoded_move(bytes, s, pos).unwrap(),
                score,
                ply: (e.ply + 1) as u16,
                result: (-e.result) as i16,
            },
        )
    } else {
        None
    }
}

/// The place in the stream behind the sample that follows the sample `e`.
pub open spec fn place_after(e: TrainingDataEntry, s: ReadState, bytes: Seq<u8>) -> ReadState {
    let pos = e.pos.spec_after_move(e.mv);
    after_vle16(bytes, after_move_bits(bytes, s, pos), SCORE_VLE_BLOCK_SIZE as int, 0)
}

#[derive(Debug)]
pub struct PackedMoveScoreListReader {
    pub reader: BitReader,
    pub last_score: i16,
    pub num_plies: u16,
    pub num_read_plies: u16,
    pub entry: TrainingDataEntry,
}

impl PackedMoveScoreListReader {
    /// The reader's place in the stream is bounded by the continuations
    /// read, and its sample is sound.
    pub open spec fn wf(&self) -> bool {
        &&& self.reader.wf()
        &&& self.reader.read_offset <= 20 * self.num_read_plies
        &&& self.num_read_plies <= self.num_plies
        &&& self.entry.pos.table_ok()
        &&& self.last_score > -32768
    }

    /// The sample that follows in the chain, if the stream holds one.
    pub open spec fn spec_next(&self, bytes: Seq<u8>) -> Option<TrainingDataEntry> {
        continued(self.entry, self.reader@, self.last_score, bytes)
    }

    /// The place in the stream behind the sample that follows.
    pub open spec fn spec_next_place(&self, bytes: Seq<u8>) -> ReadState {
        place_after(self.entry, self.reader@, bytes)
    }

    pub fn new(entry: TrainingDataEntry, num_plies: u16) -> (r: PackedMoveScoreListReader)
        requires
            entry.pos.table_ok(),
            entry.score > -32768,
        ensures
            r.wf(),
            r.entry == entry,
            r.num_plies == num_plies,
            r.num_read_plies == 0,
            r.last_score == -entry.score,
            r.reader@.offset == 0,
            r.reader@.left == 8,
    {
        PackedMoveScoreListReader {
            reader: BitReader::new(),
            num_plies,
            entry,
            num_read_plies: 0,
            last_score: -entry.score,
        }
    }

    pub fn has_next(&self) -> (r: bool)
        ensures
            r == (self.num_read_plies < self.num_plies),
    {
        self.num_read_plies < self.num_plies
    }

    /// Get the next sample from the movetext. Nothing is returned if the
    /// stream holds no sound sample; the reader is then of no more use.
    pub fn next_entry(&mut self, movetext: &[u8]) -> (r: Option<TrainingDataEntry>)
        requires
            old(self).wf(),
            old(self).num_read_plies < old(self).num_plies,
        ensures
            r == old(self).spec_next(movetext@),
            r matches Some(e) ==> final(self).wf() && final(self).entry == e && final(self).num_read_plies == old(self).num_read_plies + 1 && final(self).num_plies == old(self).num_plies && final(self).last_score == -e.score && final(self).reader@ == old(self).spec_next_place(movetext@),
    {
        if !self.entry.pos.can_apply(self.entry.mv) || self.entry.ply == 65535 || self.entry.result
            == -32768 {
            return None;
        }
        self.entry.pos.do_move(self.entry.mv);
        match self.next_move_score(movetext) {
            Some((mv, score)) => {
                self.entry.mv = mv;
                self.entry.score = score;
                self.entry.ply += 1;
                self.entry.result = -self.entry.result;
                Some(self.entry)
            },
            None => None,
        }
    }

    /// Read a move and score from the movetext.
    pub fn next_move_score(&mut self, movetext: &[u8]) -> (r: Option<(Move, i16)>)
        requires
            old(self).reader.wf(),
            old(self).reader.read_offset <= 20 * old(self).num_read_plies,
            old(self).num_read_plies < old(self).num_plies,
            old(self).entry.pos.table_ok(),
        ensures
            final(self).entry == old(self).entry,
            final(self).num_plies == old(self).num_plies,
            ({
                let pos = old(self).entry.pos;
                let mv = decoded_move(movetext@, old(self).reader@, pos);
                let score = decoded_score(
                    movetext@,
                    after_move_bits(movetext@, old(self).reader@, pos),
                    old(self).last_score,
                );
                if mv.is_some() && score > -32768 {
                    &&& r == Some((mv.unwrap(), score))
                    &&& final(self).reader.wf()
                    &&& final(self).reader@ == after_vle16(
                        movetext@,
                        after_move_bits(movetext@, old(self).reader@, pos),
                        SCORE_VLE_BLOCK_SIZE as int,
                        0,
                    )
                    &&& final(self).reader.read_offset <= 20 * final(self).num_read_plies
                    &&& final(self).num_read_plies == old(self).num_read_plies + 1
                    &&& final(self).last_score == -score
                } else {
                    r.is_none()
                }
            }),
    {
        // Extract the move
        let move_ = match self.decode_move(movetext) {
            Some(m) => m,
            None => {
                return None;
            },
        };

        // Extract the score
        let score = self.decode_score(movetext);
        if score == -32768 {
            return None;
        }
        self.last_score = -score;
        self.num_read_plies += 1;
        Some((move_, score))
    }

    fn decode_score(&mut self, movetext: &[u8]) -> (r: i16)
        requires
            old(self).reader.wf(),
            old(self).reader.read_offset <= usize::MAX - 40,
        ensures
            r == decoded_score(movetext@, old(self).reader@, old(self).last_score),
            final(self).reader.wf(),
            final(self).reader@ == after_vle16(
                movetext@,
                old(self).reader@,
                SCORE_VLE_BLOCK_SIZE as int,
                0,
            ),
            final(self).reader.read_offset <= old(self).reader.read_offset + 16,
            final(self).entry == old(self).entry,
            final(self).last_score == old(self).last_score,
            final(self).num_plies == old(self).num_plies,
            final(self).num_read_plies == old(self).num_read_plies,
    {
        let delta = unsigned_to_signed(self.reader.extract_vle16(movetext, SCORE_VLE_BLOCK_SIZE));
        self.last_score.wrapping_add(delta)
    }

    fn decode_move(&mut self, movetext: &[u8]) -> (r: Option<Move>)
        requires
            old(self).reader.wf(),
            old(self).reader.read_offset <= usize::MAX - 40,
            old(self).entry.pos.table_ok(),
        ensures
            r == decoded_move(movetext@, old(self).reader@, old(self).entry.pos),
            final(self).reader.wf(),
            final(self).reader.read_offset <= old(self).reader.read_offset + 2,
            r.is_some() ==> final(self).reader@ == after_move_bits(
                movetext@,
                old(self).reader@,
                old(self).entry.pos,
            ),
            final(self).entry == old(self).entry,
            final(self).last_score == old(self).last_score,
            final(self).num_plies == old(self).num_plies,
            final(self).num_read_plies == old(self).num_read_plies,
    {
        let pos = self.entry.pos;
        let side_to_move = pos.side_to_move();
        let our_pieces = pos.pieces_bb(side_to_move);
        proof {
            lemma_popcount_bound(our_pieces.data);
            lemma_used_bits_bound(popcount(our_pieces.data));
        }
        let piece_id: u8 = self.reader.extract_bits_le8(
            movetext,
            used_bits_safe(our_pieces.count() as u64),
        );
        let idx: u32 = nth_set_bit_index(our_pieces.bits(), piece_id as u64);
        if idx >= 64 {
            return None;
        }
        let from = Square::new(idx);
        let piece_type = pos.piece_at(from).piece_type();
        match piece_type {
            PieceType::Pawn => {
                let promotion_rank = Rank::last_pawn_rank(side_to_move);
                let destinations = pawn_destinations_of(&pos, from);
                proof {
                    lemma_popcount_bound(destinations.data);
                    lemma_used_bits_bound(4 * popcount(destinations.data));
                    lemma_used_bits_bound(popcount(destinations.data));
                }
                let destinations_count: u32 = destinations.count();
                if from.rank().index == promotion_rank.index {
                    let move_id: u8 = self.reader.extract_bits_le8(
                        movetext,
                        used_bits_safe((destinations_count * 4) as u64),
                    );
                    let pt = PieceType::from_ordinal(
                        PieceType::Knight.ordinal() + (move_id % 4),
                    );
                    let promoted_piece = Piece::new(pt, side_to_move);
                    let to: u32 = nth_set_bit_index(destinations.bits(), (move_id / 4) as u64);
                    if to >= 64 {
                        return None;
                    }
                    Some(Move::promotion(from, Square::new(to), promoted_piece))
                } else {
                    let move_id: u8 = self.reader.extract_bits_le8(
                        movetext,
                        used_bits_safe(destinations_count as u64),
                    );
                    let to: u32 = nth_set_bit_index(destinations.bits(), move_id as u64);
                    if to >= 64 {
                        return None;
                    }
                    if to == pos.ep_square().index() {
                        Some(Move::en_passant(from, Square::new(to)))
                    } else {
                        Some(Move::normal(from, Square::new(to)))
                    }
                }
            },
            PieceType::King => {
                let attacks = piece_destinations_of(&pos, PieceType::King, from);
                proof {
                    lemma_popcount_bound(attacks.data);
                }
                let attacks_size: u32 = attacks.count();
                let num_castlings: u32 = own_castlings_of(&pos);
                let offset: u64 = attacks_size as u64 + num_castlings as u64;
                proof {
                    lemma_used_bits_bound(offset as nat);
                }
                let move_id: u32 = self.reader.extract_bits_le8(
                    movetext,
                    used_bits_safe(offset),
                ) as u32;
                if move_id >= attacks_size {
                    let idx: u32 = move_id - attacks_size;
                    let castle_type = if idx == 0 && pos.castling_rights().contains(
                        CastlingTraits::castling_rights(side_to_move, CastleType::Long),
                    ) {
                        CastleType::Long
                    } else {
                        CastleType::Short
                    };
                    Some(Move::from_castle(castle_type, side_to_move))
                } else {
                    let to: u32 = nth_set_bit_index(attacks.bits(), move_id as u64);
                    if to >= 64 {
                        return None;
                    }
                    Some(Move::normal(from, Square::new(to)))
                }
            },
            PieceType::NoPiece => {
                // The bit stream names a square on which no piece is listed.
                None
            },
            // All other pieces (Queen, Rook, Bishop, Knight)
            _ => {
                let attacks = piece_destinations_of(&pos, piece_type, from);
                proof {
                    lemma_popcount_bound(attacks.data);
                    lemma_used_bits_bound(popcount(attacks.data));
                }
                let move_id: u8 = self.reader.extract_bits_le8(
                    movetext,
                    used_bits_safe(attacks.count() as u64),
                );
                let to: u32 = nth_set_bit_index(attacks.bits(), move_id as u64);
                if to >= 64 {
                    return None;
                }
                Some(Move::normal(from, Square::new(to)))
            },
        }
    }

    pub fn num_read_bytes(&self) -> (r: usize)
        requires
            self.reader.read_offset < usize::MAX,
        ensures
            r == self.reader.read_offset + (if self.reader.read_bits_left != 8 {
                1int
            } else {
                0int
            }),
    {
        self.reader.num_read_bytes()
    }
}

} // verus!
