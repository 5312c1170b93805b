//! Reading samples from a file of chunks.
//!
//! ```text
//! File   = Chunk*
//! Chunk  = "BINP" Size Chain*       Size: 4 bytes, little endian
//! Chain  = Stem Count MoveText      Stem: 32 bytes; Count: 2 bytes, big endian
//! ```
//!
//! The reader walks a chunk chain by chain: it returns the stem, then the
//! continuations that the movetext holds, and fetches the next chunk when
//! less than a stem and a count is left of this one.

use vstd::prelude::*;
use vstd::string::StringExecFns;
use crate::common::binpack_error::BinpackError;
use crate::common::compressed_training_file_reader::{
    front, CompressedTrainingDataFileReader, Front,
};
use crate::common::entry::{unpack, PackedTrainingDataEntry, TrainingDataEntry};
use crate::reader::decoded::{
    chain_place, chain_samples, chain_size, chunk_samples, count_at, file_samples, first_place,
    lemma_before_assoc, lemma_before_clean, lemma_chain_step, lemma_chunk_step, lemma_file_step,
    lemma_rest_of_one, Decoded, Ending,
};
use crate::reader::move_score_list_reader::{continued, place_after, PackedMoveScoreListReader};

verus! {

/// The bytes of a stem and of the count behind it.
pub const CHAIN_HEAD_SIZE: usize = 34;

#[derive(Debug)]
pub enum CompressedReaderError {
    Io,
    InvalidFormat(String),
    EndOfFile,
    BinpackError(BinpackError),
}

impl CompressedReaderError {
    /// The message of the error.
    pub open spec fn spec_message(self) -> Seq<char> {
        match self {
            CompressedReaderError::Io => "IO error"@,
            CompressedReaderError::EndOfFile => "End of file reached"@,
            CompressedReaderError::InvalidFormat(reason) => "Invalid data format: "@ + reason@,
            CompressedReaderError::BinpackError(e) => "Binpack error: "@ + e.spec_message(),
        }
    }

    /// The message of the error.
    pub fn to_string(&self) -> (r: String)
        ensures
            r@ == self.spec_message(),
    {
        match self {
            CompressedReaderError::Io => String::from_str("IO error"),
            CompressedReaderError::EndOfFile => String::from_str("End of file reached"),
            CompressedReaderError::InvalidFormat(reason) => {
                let mut text = String::from_str("Invalid data format: ");
                text.append(reason.as_str());
                text
            },
            CompressedReaderError::BinpackError(e) => {
                let mut text = String::from_str("Binpack error: ");
                text.append(e.to_string().as_str());
                text
            },
        }
    }
}

/// The ending that a chunk brings which cannot be fetched.
pub open spec fn ending_of(e: BinpackError) -> Ending {
    match e {
        BinpackError::InvalidMagic => Ending::BadMagic,
        BinpackError::InvalidFormat(_) => Ending::TooLarge,
        BinpackError::Io => Ending::Truncated,
    }
}

/// Reads compressed samples from a file in memory.
#[derive(Debug)]
pub struct CompressedTrainingDataEntryReader {
    pub chunk: Vec<u8>,
    pub movelist_reader: Option<PackedMoveScoreListReader>,
    pub input_file: Option<CompressedTrainingDataFileReader>,
    pub offset: usize,
    pub is_end: bool,
    /// What went wrong when the next chunk was fetched: the next call of
    /// `next` reports it.
    pub failure: Option<BinpackError>,
}

impl CompressedTrainingDataEntryReader {
    /// The reader has its file. Unless it is at its end, it stands in a
    /// chain with continuations left, or before a whole stem and count,
    /// or before a failure that it has yet to report.
    pub open spec fn wf(&self) -> bool {
        &&& self.input_file.is_some()
        &&& self.input_file.unwrap().wf()
        &&& self.offset <= self.chunk@.len()
        &&& self.chunk@.len() <= u32::MAX
        &&& !self.is_end && self.failure.is_none() ==> match self.movelist_reader {
            Some(list) => list.wf() && list.num_read_plies < list.num_plies,
            None => self.offset + CHAIN_HEAD_SIZE <= self.chunk@.len(),
        }
    }

    /// The bytes of the chunk from the reader's place on.
    pub open spec fn ahead(&self) -> Seq<u8> {
        self.chunk@.subrange(self.offset as int, self.chunk@.len() as int)
    }

    /// What is left of the open chunk: the samples of the open chain, if
    /// there is one, and of the chains behind it.
    pub open spec fn chunk_pending(&self) -> Decoded {
        match self.movelist_reader {
            Some(list) => {
                let left = (list.num_plies - list.num_read_plies) as nat;
                chain_samples(list.entry, list.reader@, list.last_score, self.ahead(), left).before(
                    chunk_samples(
                        self.chunk@,
                        self.offset - 34 + chain_size(
                            chain_place(
                                list.entry,
                                list.reader@,
                                list.last_score,
                                self.ahead(),
                                left,
                            ),
                        ),
                    ),
                )
            },
            None => chunk_samples(self.chunk@, self.offset as int),
        }
    }

    /// What the reader has yet to hand out: the samples that the calls of
    /// `next` return, one after the other, and the way in which the
    /// reading ends behind them.
    pub open spec fn pending(&self) -> Decoded {
        if self.is_end {
            Decoded::only(Ending::Clean)
        } else if self.failure.is_some() {
            Decoded::only(ending_of(self.failure.unwrap()))
        } else {
            self.chunk_pending().before(file_samples(self.input_file.unwrap().rest()))
        }
    }

    /// Create a new reader of the samples in `file`. A file without one
    /// whole chunk at its front has come to its end before it began.
    pub fn new(file: Vec<u8>) -> (r: Result<
        CompressedTrainingDataEntryReader,
        CompressedReaderError,
    >)
        ensures
            match front(file@) {
                Front::ShortHeader | Front::ShortPayload => (r matches Err(e) && e is EndOfFile),
                Front::BadMagic => (r matches Err(CompressedReaderError::BinpackError(e)) && e
                    is InvalidMagic),
                Front::TooLarge => (r matches Err(CompressedReaderError::BinpackError(e)) && e
                    is InvalidFormat),
                Front::Chunk(n) => (r matches Ok(reader) && reader.wf() && reader.pending()
                    == file_samples(file@) && reader.input_file.unwrap().file@ == file@),
            },
    {
        let mut input_file = match CompressedTrainingDataFileReader::new(file) {
            Ok(f) => f,
            Err(e) => {
                return Err(CompressedReaderError::BinpackError(e));
            },
        };
        assert(input_file.rest() =~= file@);
        let mut chunk: Vec<u8> = Vec::new();
        match input_file.read_next_chunk_into(&mut chunk) {
            Ok(()) => {},
            Err(BinpackError::InvalidFormat(reason)) => {
                return Err(
                    CompressedReaderError::BinpackError(BinpackError::InvalidFormat(reason)),
                );
            },
            Err(BinpackError::InvalidMagic) => {
                if input_file.pos == 0 {
                    return Err(CompressedReaderError::EndOfFile);
                }
                return Err(CompressedReaderError::BinpackError(BinpackError::InvalidMagic));
            },
            Err(BinpackError::Io) => {
                return Err(CompressedReaderError::EndOfFile);
            },
        }
        assert(input_file.rest() =~= file@.subrange(8 + chunk@.len() as int, file@.len() as int));
        proof {
            lemma_file_step(file@);
        }
        let mut reader = CompressedTrainingDataEntryReader {
            chunk,
            movelist_reader: None,
            input_file: Some(input_file),
            offset: 0,
            is_end: false,
            failure: None,
        };
        reader.fetch_next_chunk_if_needed();
        Ok(reader)
    }

    /// Hands out the file. The reader is of no more use.
    pub fn into_inner(&mut self) -> (r: Result<Vec<u8>, CompressedReaderError>)
        requires
            old(self).input_file.is_some(),
        ensures
            r matches Ok(file) && file@ == old(self).input_file.unwrap().file@,
            final(self).input_file.is_none(),
    {
        match self.input_file.take() {
            Some(f) => match f.into_inner() {
                Ok(file) => Ok(file),
                Err(e) => Err(CompressedReaderError::BinpackError(e)),
            },
            None => Err(CompressedReaderError::EndOfFile),
        }
    }

    /// Get how much of the file has been read so far.
    pub fn read_bytes(&self) -> (r: u64)
        requires
            self.input_file.is_some(),
        ensures
            r == self.input_file.unwrap().read_bytes,
    {
        match &self.input_file {
            Some(f) => f.read_bytes(),
            None => 0,
        }
    }

    /// Check if there are more samples to read, or a failure to report.
    pub fn has_next(&self) -> (r: bool)
        ensures
            r == !self.is_end,
            self.wf() ==> r == (self.pending() != Decoded::only(Ending::Clean)),
    {
        proof {
            if self.wf() && !self.is_end {
                self.lemma_pending_open();
            }
        }
        !self.is_end
    }

    /// A reader that is not at its end has a sample to hand out, or a
    /// failure to report.
    pub proof fn lemma_pending_open(&self)
        requires
            self.wf(),
            !self.is_end,
        ensures
            self.pending().samples.len() > 0 || !(self.pending().ending is Clean),
    {
        let rest = file_samples(self.input_file.unwrap().rest());
        if self.failure.is_none() {
            match self.movelist_reader {
                Some(list) => {
                    let left = (list.num_plies - list.num_read_plies) as nat;
                    lemma_chain_step(list.entry, list.reader@, list.last_score, self.ahead(), left);
                    match continued(list.entry, list.reader@, list.last_score, self.ahead()) {
                        Some(next) => {
                            let place = place_after(list.entry, list.reader@, self.ahead());
                            let more = chain_samples(
                                next,
                                place,
                                (-next.score) as i16,
                                self.ahead(),
                                (left - 1) as nat,
                            );
                            let behind = chunk_samples(
                                self.chunk@,
                                self.offset - 34 + chain_size(
                                    chain_place(
                                        list.entry,
                                        list.reader@,
                                        list.last_score,
                                        self.ahead(),
                                        left,
                                    ),
                                ),
                            );
                            lemma_before_assoc(Decoded::one(next), more, behind);
                            lemma_before_assoc(Decoded::one(next), more.before(behind), rest);
                            lemma_rest_of_one(next, more.before(behind).before(rest));
                        },
                        None => {},
                    }
                },
                None => {
                    let chunk = self.chunk@;
                    lemma_chunk_step(chunk, self.offset as int);
                    let offset = self.offset as int;
                    let stem = unpack(chunk.subrange(offset, offset + 32));
                    let movetext = chunk.subrange(offset + 34, chunk.len() as int);
                    let count = count_at(chunk, offset) as nat;
                    let last = (-stem.score) as i16;
                    if !(count > 0 && stem.score == -32768) {
                        let chain = chain_samples(stem, first_place(), last, movetext, count);
                        let behind = chunk_samples(
                            chunk,
                            offset + chain_size(
                                chain_place(stem, first_place(), last, movetext, count),
                            ),
                        );
                        lemma_before_assoc(Decoded::one(stem), chain, behind);
                        lemma_before_assoc(Decoded::one(stem), chain.before(behind), rest);
                        lemma_rest_of_one(stem, chain.before(behind).before(rest));
                    }
                },
            }
        }
    }

    /// Check if the next entry is a continuation of the last returned
    /// entry from `next`.
    pub fn is_next_entry_continuation(&self) -> (r: bool)
        ensures
            r == (self.movelist_reader matches Some(list) && list.num_read_plies
                < list.num_plies),
    {
        match &self.movelist_reader {
            Some(reader) => reader.has_next(),
            None => false,
        }
    }

    /// Get the next sample: the first of those that the reader has yet to
    /// hand out. When none is left before a failure, the failure is
    /// returned and the reading is at its end: a chunk that cannot be
    /// fetched, or a chain that holds no sound sample.
    pub fn next(&mut self) -> (r: Result<TrainingDataEntry, CompressedReaderError>)
        requires
            old(self).wf(),
            !old(self).is_end,
        ensures
            final(self).wf(),
            final(self).input_file.unwrap().file@ == old(self).input_file.unwrap().file@,
            old(self).pending().samples.len() > 0 ==> r == Ok::<
                TrainingDataEntry,
                CompressedReaderError,
            >(old(self).pending().samples[0]) && final(self).pending() == old(self).pending().rest(),
            old(self).pending().samples.len() == 0 ==> final(self).is_end && match old(
                self,
            ).pending().ending {
                Ending::Clean => false,
                Ending::BrokenChain => (r matches Err(e) && e is InvalidFormat),
                Ending::BadMagic => (r matches Err(CompressedReaderError::BinpackError(e)) && e
                    is InvalidMagic),
                Ending::TooLarge => (r matches Err(CompressedReaderError::BinpackError(e)) && e
                    is InvalidFormat),
                Ending::Truncated => (r matches Err(CompressedReaderError::BinpackError(e)) && e
                    is Io),
            },
    {
        match self.failure.take() {
            Some(e) => {
                self.is_end = true;
                return Err(CompressedReaderError::BinpackError(e));
            },
            None => {},
        }
        let found = match self.movelist_reader.take() {
            Some(reader) => self.next_in_chain(reader),
            None => self.next_stem(),
        };
        match found {
            Some(entry) => Ok(entry),
            None => {
                self.is_end = true;
                Err(
                    CompressedReaderError::InvalidFormat(
                        String::from_str("The chain holds no sound sample."),
                    ),
                )
            },
        }
    }

    /// Reads the next sample of the chain that `reader` is in.
    fn next_in_chain(&mut self, reader: PackedMoveScoreListReader) -> (r: Option<TrainingDataEntry>)
        requires
            old(self).input_file.is_some(),
            old(self).input_file.unwrap().wf(),
            old(self).offset <= old(self).chunk@.len(),
            old(self).chunk@.len() <= u32::MAX,
            old(self).movelist_reader.is_none(),
            old(self).failure.is_none(),
            !old(self).is_end,
            reader.wf(),
            reader.num_read_plies < reader.num_plies,
        ensures
            ({
                let p = (CompressedTrainingDataEntryReader {
                    movelist_reader: Some(reader),
                    ..*old(self)
                }).pending();
                match r {
                    Some(e) => p.samples.len() > 0 && p.samples[0] == e && final(self).wf()
                        && final(self).pending() == p.rest(),
                    None => p == Decoded::only(Ending::BrokenChain) && !final(self).is_end,
                }
            }),
            final(self).input_file.is_some(),
            final(self).input_file.unwrap().wf(),
            final(self).input_file.unwrap().file@ == old(self).input_file.unwrap().file@,
            final(self).offset <= final(self).chunk@.len(),
            final(self).chunk@.len() <= u32::MAX,
    {
        let mut reader = reader;
        let total: usize = self.chunk.len();
        let ahead = vstd::slice::slice_subrange(self.chunk.as_slice(), self.offset, total);
        let ghost before = reader;
        let ghost left = (reader.num_plies - reader.num_read_plies) as nat;
        let ghost file = file_samples(self.input_file.unwrap().rest());
        let ghost tail = chain_samples(
            before.entry,
            before.reader@,
            before.last_score,
            ahead@,
            left,
        );
        let ghost end = chain_place(before.entry, before.reader@, before.last_score, ahead@, left);
        let ghost behind = chunk_samples(self.chunk@, self.offset - 34 + chain_size(end));
        proof {
            lemma_chain_step(before.entry, before.reader@, before.last_score, ahead@, left);
        }
        let entry = match reader.next_entry(ahead) {
            Some(e) => e,
            None => {
                return None;
            },
        };
        let ghost more = chain_samples(
            entry,
            reader.reader@,
            reader.last_score,
            ahead@,
            (left - 1) as nat,
        );
        if !reader.has_next() {
            let read: usize = reader.num_read_bytes();
            if read > total - self.offset {
                return None;
            }
            proof {
                lemma_chain_step(entry, reader.reader@, reader.last_score, ahead@, 0);
                lemma_before_clean(behind);
                lemma_before_assoc(Decoded::one(entry), more, behind);
                lemma_before_assoc(Decoded::one(entry), behind, file);
                lemma_rest_of_one(entry, behind.before(file));
            }
            self.offset += read;
            self.fetch_next_chunk_if_needed();
        } else {
            proof {
                lemma_before_assoc(Decoded::one(entry), more, behind);
                lemma_before_assoc(Decoded::one(entry), more.before(behind), file);
                lemma_rest_of_one(entry, more.before(behind).before(file));
            }
            self.movelist_reader = Some(reader);
        }
        Some(entry)
    }

    /// Reads the stem at the reader's place, and the count behind it.
    fn next_stem(&mut self) -> (r: Option<TrainingDataEntry>)
        requires
            old(self).input_file.is_some(),
            old(self).input_file.unwrap().wf(),
            old(self).offset + CHAIN_HEAD_SIZE <= old(self).chunk@.len(),
            old(self).chunk@.len() <= u32::MAX,
            old(self).movelist_reader.is_none(),
            old(self).failure.is_none(),
            !old(self).is_end,
        ensures
            ({
                let p = old(self).pending();
                match r {
                    Some(e) => p.samples.len() > 0 && p.samples[0] == e && final(self).wf()
                        && final(self).pending() == p.rest(),
                    None => p == Decoded::only(Ending::BrokenChain) && !final(self).is_end,
                }
            }),
            final(self).input_file.is_some(),
            final(self).input_file.unwrap().wf(),
            final(self).input_file.unwrap().file@ == old(self).input_file.unwrap().file@,
            final(self).offset <= final(self).chunk@.len(),
            final(self).chunk@.len() <= u32::MAX,
    {
        let ghost chunk = self.chunk@;
        let ghost offset = self.offset as int;
        let ghost file = file_samples(self.input_file.unwrap().rest());
        let ghost movetext = chunk.subrange(offset + 34, chunk.len() as int);
        proof {
            lemma_chunk_step(chunk, offset);
        }
        // We don't have a movelist reader, so we first need to extract
        // the stem
        let entry = self.read_entry();
        let num_plies = self.read_plies();
        let ghost last = (-entry.score) as i16;
        let ghost chain = chain_samples(entry, first_place(), last, movetext, num_plies as nat);
        let ghost behind = chunk_samples(
            chunk,
            offset + chain_size(
                chain_place(entry, first_place(), last, movetext, num_plies as nat),
            ),
        );
        assert(chunk.subrange(offset, chunk.len() as int).subrange(0, 32) =~= chunk.subrange(
            offset,
            offset + 32,
        ));
        if num_plies > 0 {
            if entry.score == -32768 {
                return None;
            }
            proof {
                lemma_before_assoc(Decoded::one(entry), chain, behind);
                lemma_before_assoc(Decoded::one(entry), chain.before(behind), file);
                lemma_rest_of_one(entry, chain.before(behind).before(file));
            }
            self.movelist_reader = Some(PackedMoveScoreListReader::new(entry, num_plies));
        } else {
            proof {
                lemma_chain_step(entry, first_place(), last, movetext, 0);
                lemma_before_clean(behind);
                lemma_before_assoc(Decoded::one(entry), chain, behind);
                lemma_before_assoc(Decoded::one(entry), behind, file);
                lemma_rest_of_one(entry, behind.before(file));
            }
            self.fetch_next_chunk_if_needed();
        }
        Some(entry)
    }

    fn read_entry(&mut self) -> (r: TrainingDataEntry)
        requires
            old(self).offset + CHAIN_HEAD_SIZE <= old(self).chunk@.len(),
            old(self).chunk@.len() <= u32::MAX,
        ensures
            r == unpack(old(self).ahead().subrange(0, 32)),
            r.pos.wf(),
            final(self).offset == old(self).offset + 32,
            final(self).chunk == old(self).chunk,
            final(self).movelist_reader == old(self).movelist_reader,
            final(self).input_file == old(self).input_file,
            final(self).is_end == old(self).is_end,
            final(self).failure == old(self).failure,
    {
        let size = PackedTrainingDataEntry::byte_size();
        let packed = PackedTrainingDataEntry::from_slice(
            vstd::slice::slice_subrange(self.chunk.as_slice(), self.offset, self.offset + size),
        );
        assert(packed.data@ =~= self.ahead().subrange(0, 32));
        self.offset += size;
        packed.unpack_entry()
    }

    fn read_plies(&mut self) -> (r: u16)
        requires
            old(self).offset + 2 <= old(self).chunk@.len(),
            old(self).chunk@.len() <= u32::MAX,
        ensures
            r == count_at(old(self).chunk@, old(self).offset - 32),
            final(self).offset == old(self).offset + 2,
            final(self).chunk == old(self).chunk,
            final(self).movelist_reader == old(self).movelist_reader,
            final(self).input_file == old(self).input_file,
            final(self).is_end == old(self).is_end,
            final(self).failure == old(self).failure,
    {
        proof {
            crate::common::arithmetic::lemma_word_bits(
                0,
                self.chunk@[self.offset as int],
                self.chunk@[self.offset + 1],
                0,
            );
        }
        let ply: u16 = ((self.chunk[self.offset] as u16) << 8) | (self.chunk[self.offset + 1]
            as u16);
        self.offset += 2;
        ply
    }

    /// Fetches chunks until one holds a stem and a count at the reader's
    /// place. With no chunk left the reader is at its end. A chunk that
    /// cannot be read leaves a failure for `next` to report.
    fn fetch_next_chunk_if_needed(&mut self)
        requires
            old(self).input_file.is_some(),
            old(self).input_file.unwrap().wf(),
            old(self).offset <= old(self).chunk@.len(),
            old(self).chunk@.len() <= u32::MAX,
            old(self).movelist_reader.is_none(),
            old(self).failure.is_none(),
            !old(self).is_end,
        ensures
            final(self).wf(),
            final(self).movelist_reader.is_none(),
            final(self).input_file.unwrap().file@ == old(self).input_file.unwrap().file@,
            final(self).pending() == old(self).pending(),
    {
        let mut file = self.input_file.take().unwrap();
        let mut searching = true;
        let ghost target = old(self).pending();
        while searching && self.chunk.len() - self.offset < CHAIN_HEAD_SIZE
            invariant
                old(self).input_file.is_some(),
                file.wf(),
                file.file@ == old(self).input_file.unwrap().file@,
                self.offset <= self.chunk@.len(),
                self.chunk@.len() <= u32::MAX,
                self.movelist_reader.is_none(),
                searching ==> self.failure.is_none() && !self.is_end && target == chunk_samples(
                    self.chunk@,
                    self.offset as int,
                ).before(file_samples(file.rest())),
                !searching ==> (self.is_end && target == Decoded::only(Ending::Clean)) || (
                !self.is_end && self.failure.is_some() && target == Decoded::only(
                    ending_of(self.failure.unwrap()),
                )),
            decreases file.file@.len() - file.pos + (if searching {
                    1int
                } else {
                    0int
                }),
        {
            let ghost rest = file.rest();
            proof {
                lemma_chunk_step(self.chunk@, self.offset as int);
                lemma_file_step(rest);
                lemma_before_clean(file_samples(rest));
            }
            if !file.has_next_chunk() {
                self.is_end = true;
                searching = false;
            } else {
                match file.read_next_chunk_into(&mut self.chunk) {
                    Ok(()) => {
                        self.offset = 0;
                        assert(file.rest() =~= rest.subrange(
                            8 + self.chunk@.len() as int,
                            rest.len() as int,
                        ));
                    },
                    Err(e) => {
                        self.chunk.clear();
                        self.offset = 0;
                        self.failure = Some(e);
                        searching = false;
                    },
                }
            }
        }
        self.input_file = Some(file);
    }
}

} // verus!
