//! Writing samples to a file of chunks. Samples that continue a game are
//! added to the chain of the last stem; any other sample closes the chain
//! and becomes the stem of a new one. A chunk goes to the file once it has
//! reached the suggested size, and at the end.

use vstd::prelude::*;
use vstd::string::StringExecFns;
use crate::chess::chess_move::Move;
use crate::chess::position::Position;
use crate::common::compressed_move::packable;
use crate::common::compressed_training_file_writer::{framed, CompressedTrainingDataFileWriter};
use crate::common::entry::{pack, PackedTrainingDataEntry, TrainingDataEntry};
use crate::common::move_slots::encodable;
use crate::writer::move_score_list::{add_continuation, PackedMoveScoreList};

verus! {

/// The size from which on a chunk is written out.
pub const SUGGESTED_CHUNK_SIZE: usize = 1048576;

#[derive(Debug)]
pub enum CompressedWriterError {
    Io,
    InvalidFormat(String),
    EndOfFile,
}

impl CompressedWriterError {
    /// The message of the error.
    pub open spec fn spec_message(self) -> Seq<char> {
        match self {
            CompressedWriterError::Io => "IO error"@,
            CompressedWriterError::EndOfFile => "End of file reached"@,
            CompressedWriterError::InvalidFormat(reason) => "Invalid data format: "@ + reason@,
        }
    }

    /// The message of the error.
    pub fn to_string(&self) -> (r: String)
        ensures
            r@ == self.spec_message(),
    {
        match self {
            CompressedWriterError::Io => String::from_str("IO error"),
            CompressedWriterError::EndOfFile => String::from_str("End of file reached"),
            CompressedWriterError::InvalidFormat(reason) => {
                let mut text = String::from_str("Invalid data format: ");
                text.append(reason.as_str());
                text
            },
        }
    }
}

/// The two bytes of a count of continuations, and the bits of the
/// continuations where there are any.
pub open spec fn trailer(num_plies: u16, movetext: Seq<u8>) -> Seq<u8> {
    seq![(num_plies / 256) as u8, (num_plies % 256) as u8] + (if num_plies > 0 {
        movetext
    } else {
        Seq::empty()
    })
}

/// Whether a sample can be written: its score is not the least 16-bit
/// number, and its move can be packed.
pub open spec fn writable(entry: TrainingDataEntry) -> bool {
    entry.score > -32768 && packable(entry.mv)
}

/// Writes samples, compressed, to a file in memory.
#[derive(Debug)]
pub struct CompressedTrainingDataEntryWriter {
    pub output_file: Option<CompressedTrainingDataFileWriter>,
    pub last_entry: TrainingDataEntry,
    pub movelist: PackedMoveScoreList,
    pub packed_entries: Vec<u8>,
    pub is_first: bool,
}

impl CompressedTrainingDataEntryWriter {
    /// The writer has its file, its chain is sound, and the open chunk is
    /// below the suggested size but for its last stem.
    pub open spec fn wf(&self) -> bool {
        &&& self.output_file.is_some()
        &&& self.movelist.wf()
        &&& self.last_entry.pos.table_ok()
        &&& self.packed_entries@.len() < SUGGESTED_CHUNK_SIZE + 32
        &&& self.is_first ==> !self.continues_any()
    }

    /// Whether some sample could continue the last one.
    pub open spec fn continues_any(&self) -> bool {
        self.last_entry.ply < 65535
    }

    /// The bytes of the file so far.
    pub open spec fn output(&self) -> Seq<u8> {
        self.output_file.unwrap().file@
    }

    /// Whether `entry` goes into the open chain.
    pub open spec fn continues(&self, entry: TrainingDataEntry) -> bool {
        self.last_entry.spec_is_continuation(entry) && self.movelist.can_add(
            entry.pos,
            entry.mv,
            entry.score,
        )
    }

    /// The open chunk with the open chain closed.
    pub open spec fn closed_chunk(&self) -> Seq<u8> {
        if self.is_first {
            self.packed_entries@
        } else {
            self.packed_entries@ + trailer(self.movelist.num_plies, self.movelist.writer@.bytes)
        }
    }

    /// Whether two writers hold the same file, chunk, chain and last
    /// sample.
    pub open spec fn same_content(&self, other: &CompressedTrainingDataEntryWriter) -> bool {
        &&& self.output_file.is_some() == other.output_file.is_some()
        &&& self.output_file.is_some() ==> self.output() == other.output()
        &&& self.packed_entries@ == other.packed_entries@
        &&& self.movelist.writer@ == other.movelist.writer@
        &&& self.movelist.num_plies == other.movelist.num_plies
        &&& self.movelist.last_score == other.movelist.last_score
        &&& self.last_entry == other.last_entry
        &&& self.is_first == other.is_first
    }

    /// The sample that nothing continues: the last sample of a writer that
    /// has no open chain.
    pub open spec fn is_sentinel(e: TrainingDataEntry) -> bool {
        e.ply == 0xFFFF && e.result == 0x7FFF && e.score == 0 && e.mv == Move::spec_null()
            && e.pos.is_start()
    }

    /// Create a new writer that appends to `file`.
    pub fn new(file: Vec<u8>) -> (r: Result<CompressedTrainingDataEntryWriter, CompressedWriterError>)
        ensures
            r matches Ok(w) && w.wf() && w.output() == file@ && w.is_first
                && w.packed_entries@.len() == 0 && CompressedTrainingDataEntryWriter::is_sentinel(
                w.last_entry,
            ),
    {
        let output_file = match CompressedTrainingDataFileWriter::new(file) {
            Ok(f) => f,
            Err(_) => {
                return Err(CompressedWriterError::Io);
            },
        };
        Ok(
            CompressedTrainingDataEntryWriter {
                output_file: Some(output_file),
                last_entry: TrainingDataEntry {
                    ply: 0xFFFF,  // never a continuation
                    result: 0x7FFF,
                    pos: Position::new(),
                    mv: Move::null(),
                    score: 0,
                },
                movelist: PackedMoveScoreList::new(),
                packed_entries: Vec::new(),
                is_first: true,
            },
        )
    }

    /// Hands out the file. The writer is of no more use.
    pub fn into_inner(&mut self) -> (r: Result<Vec<u8>, CompressedWriterError>)
        requires
            old(self).output_file.is_some(),
        ensures
            r matches Ok(file) && file@ == old(self).output(),
            final(self).output_file.is_none(),
    {
        match self.output_file.take() {
            Some(f) => match f.into_inner() {
                Ok(file) => Ok(file),
                Err(_) => Err(CompressedWriterError::Io),
            },
            None => Err(CompressedWriterError::EndOfFile),
        }
    }

    /// Write a single entry to the file. A sample that cannot be written
    /// is refused, and nothing changes.
    pub fn write_entry(&mut self, entry: &TrainingDataEntry) -> (r: Result<
        (),
        CompressedWriterError,
    >)
        requires
            old(self).wf(),
            entry.pos.table_ok(),
        ensures
            final(self).wf(),
            !writable(*entry) ==> (r matches Err(e) && e is InvalidFormat),
            !writable(*entry) ==> final(self).same_content(old(self)),
            writable(*entry) ==> r is Ok && final(self).last_entry == *entry && !final(self).is_first
                && final(self).movelist.last_score == -entry.score,
            writable(*entry) && old(self).continues(*entry) ==> final(self).output() == old(self).output() && final(self).packed_entries@ == old(self).packed_entries@ && final(self).movelist.writer@ == add_continuation(
                old(self).movelist.writer@,
                entry.pos,
                entry.mv,
                entry.score,
                old(self).movelist.last_score,
            ) && final(self).movelist.num_plies == old(self).movelist.num_plies + 1,
            writable(*entry) && !old(self).continues(*entry) ==> final(self).movelist.num_plies
                == 0 && final(self).movelist.writer@.bytes.len() == 0 && (if old(self).closed_chunk().len() >= SUGGESTED_CHUNK_SIZE {
                final(self).output() == old(self).output() + framed(old(self).closed_chunk())
                    && final(self).packed_entries@ == pack(*entry)
            } else {
                final(self).output() == old(self).output() && final(self).packed_entries@ == old(self).closed_chunk() + pack(*entry)
            }),
    {
        if entry.score == -32768 || !entry_move_packable(entry) {
            return Err(
                CompressedWriterError::InvalidFormat(
                    String::from_str("The sample cannot be written."),
                ),
            );
        }
        let is_cont = self.last_entry.is_continuation(entry) && self.movelist.num_plies < 65535
            && can_encode(&entry.pos, entry.mv);
        if is_cont {
            self.movelist.add_move_score(&entry.pos, entry.mv, entry.score);
        } else {
            if !self.is_first {
                self.write_movelist();
            }
            if self.packed_entries.len() >= SUGGESTED_CHUNK_SIZE {
                self.append_chunk();
            }
            let packed = PackedTrainingDataEntry::from_entry(entry);
            self.packed_entries.extend_from_slice(packed.data.as_slice());
            self.movelist.clear(entry);
            self.is_first = false;
        }
        self.last_entry = *entry;
        Ok(())
    }

    /// Closes the open chain and writes the open chunk to the file. What
    /// is written after this starts a new chain in a new chunk.
    pub fn flush_and_end(&mut self)
        requires
            old(self).wf(),
        ensures
            final(self).wf(),
            final(self).is_first,
            final(self).packed_entries@.len() == 0,
            CompressedTrainingDataEntryWriter::is_sentinel(final(self).last_entry),
            final(self).output() == (if old(self).packed_entries@.len() > 0 {
                old(self).output() + framed(old(self).closed_chunk())
            } else {
                old(self).output()
            }),
    {
        self.flush_packed();
    }

    /// Every chunk that was written is in the file at once: there is
    /// nothing to do.
    pub fn flush(&mut self)
        ensures
            *final(self) == *old(self),
    {
    }

    /// Flush the buffer to the file.
    fn flush_packed(&mut self)
        requires
            old(self).wf(),
        ensures
            final(self).wf(),
            final(self).is_first,
            final(self).packed_entries@.len() == 0,
            CompressedTrainingDataEntryWriter::is_sentinel(final(self).last_entry),
            final(self).output() == (if old(self).packed_entries@.len() > 0 {
                old(self).output() + framed(old(self).closed_chunk())
            } else {
                old(self).output()
            }),
    {
        if self.packed_entries.len() > 0 {
            if !self.is_first {
                self.write_movelist();
            }
            self.append_chunk();
        }
        self.last_entry = TrainingDataEntry {
            ply: 0xFFFF,
            result: 0x7FFF,
            pos: Position::new(),
            mv: Move::null(),
            score: 0,
        };
        self.movelist = PackedMoveScoreList::new();
        self.is_first = true;
    }

    /// Frames the open chunk, appends it to the file, and opens an empty
    /// chunk.
    fn append_chunk(&mut self)
        requires
            old(self).output_file.is_some(),
            old(self).packed_entries@.len() <= u32::MAX,
        ensures
            final(self).output_file.is_some(),
            final(self).output() == old(self).output() + framed(old(self).packed_entries@),
            final(self).packed_entries@.len() == 0,
            final(self).movelist == old(self).movelist,
            final(self).last_entry == old(self).last_entry,
            final(self).is_first == old(self).is_first,
    {
        let mut file = self.output_file.take().unwrap();
        let _ = file.append(self.packed_entries.as_slice());
        self.output_file = Some(file);
        self.packed_entries.clear();
    }

    /// Closes the open chain: its count of continuations, then its bits.
    fn write_movelist(&mut self)
        requires
            old(self).movelist.wf(),
        ensures
            final(self).packed_entries@ == old(self).packed_entries@ + trailer(
                old(self).movelist.num_plies,
                old(self).movelist.writer@.bytes,
            ),
            final(self).output_file == old(self).output_file,
            final(self).movelist == old(self).movelist,
            final(self).last_entry == old(self).last_entry,
            final(self).is_first == old(self).is_first,
    {
        let num_plies: u16 = self.movelist.num_plies;
        proof {
            crate::common::arithmetic::lemma_word_bits(num_plies, 0, 0, 0);
        }
        self.packed_entries.push((num_plies >> 8) as u8);
        self.packed_entries.push((num_plies & 0xFF) as u8);
        if num_plies > 0 {
            self.packed_entries.extend_from_slice(self.movelist.movetext());
        }
        assert(self.packed_entries@ =~= old(self).packed_entries@ + trailer(
            old(self).movelist.num_plies,
            old(self).movelist.writer@.bytes,
        ));
    }
}

/// Tells whether the move of a sample can be packed.
fn entry_move_packable(entry: &TrainingDataEntry) -> (r: bool)
    ensures
        r == packable(entry.mv),
{
    let mv = entry.mv;
    if mv.from() == mv.to() {
        return true;
    }
    if mv.from().index() >= 64 || mv.to().index() >= 64 {
        return false;
    }
    if mv.mtype() == crate::chess::chess_move::MoveType::Promotion {
        let pt = mv.promoted_piece().piece_type().ordinal();
        1 <= pt && pt <= 4
    } else {
        true
    }
}

/// Tells whether a move can be given a slot among the moves of `pos`.
fn can_encode(pos: &Position, mv: Move) -> (r: bool)
    requires
        pos.table_ok(),
    ensures
        r == encodable(*pos, mv),
{
    if mv.from().index() >= 64 || mv.to().index() >= 64 {
        return false;
    }
    let piece = pos.piece_at(mv.from());
    if piece.id() >= 12 {
        return false;
    }
    let pt = piece.piece_type();
    let white = pos.side_to_move() == crate::chess::color::Color::White;
    if pt == crate::chess::piecetype::PieceType::Pawn {
        let promotion_rank: u32 = if white {
            6
        } else {
            1
        };
        if mv.from().index() / 8 == promotion_rank {
            let promoted = mv.promoted_piece().piece_type().ordinal();
            return 1 <= promoted && promoted <= 4;
        }
        true
    } else if pt == crate::chess::piecetype::PieceType::King && mv.mtype()
        == crate::chess::chess_move::MoveType::Castle {
        let attacks = crate::common::move_slots::piece_destinations_of(pos, pt, mv.from());
        let long = pos.castling_rights().contains(
            crate::chess::castling_rights::CastlingTraits::castling_rights(
                pos.side_to_move(),
                crate::chess::castling_rights::CastleType::Long,
            ),
        );
        let short = mv.castle_type() == crate::chess::castling_rights::CastleType::Short;
        attacks.count() > 0 || long || short
    } else {
        true
    }
}

} // verus!
