//! What a stream of bytes holds: the samples that a reader hands out, one
//! after the other, and the way in which the reading ends.
//!
//! A chain holds its stem and the continuations that its count
//! announces. A chunk holds its chains, one behind the other, as long as
//! a stem and a count are left of it. A file holds its chunks.

use vstd::prelude::*;
use crate::common::compressed_training_file_reader::{front, Front};
use crate::common::entry::{unpack, TrainingDataEntry};
use crate::reader::bitreader::ReadState;
use crate::reader::move_score_list_reader::{continued, place_after};

verus! {

/// The way in which the reading of a stream ends.
pub enum Ending {
    /// Every byte has been read.
    Clean,
    /// A chain holds no sound sample where one should follow.
    BrokenChain,
    /// Where a chunk should start, `BINP` does not stand.
    BadMagic,
    /// A chunk announces more than the largest payload.
    TooLarge,
    /// A chunk announces more than the file holds.
    Truncated,
}

/// The samples that come out of a stream, and the way in which the
/// reading ends behind them.
pub struct Decoded {
    pub samples: Seq<TrainingDataEntry>,
    pub ending: Ending,
}

impl Decoded {
    /// No sample, and the given ending.
    pub open spec fn only(ending: Ending) -> Decoded {
        Decoded { samples: Seq::empty(), ending }
    }

    /// One sample, and a clean ending.
    pub open spec fn one(e: TrainingDataEntry) -> Decoded {
        Decoded { samples: seq![e], ending: Ending::Clean }
    }

    /// This part of a stream, and `next` behind it: what follows a clean
    /// ending is read, what follows another is not.
    pub open spec fn before(self, next: Decoded) -> Decoded {
        if self.ending is Clean {
            Decoded { samples: self.samples + next.samples, ending: next.ending }
        } else {
            self
        }
    }

    /// What is left when the first sample has been handed out.
    pub open spec fn rest(self) -> Decoded {
        Decoded { samples: self.samples.drop_first(), ending: self.ending }
    }
}

/// A part of a stream before two others is the part and the two.
pub proof fn lemma_before_assoc(a: Decoded, b: Decoded, c: Decoded)
    ensures
        a.before(b).before(c) == a.before(b.before(c)),
{
    assert(a.before(b).before(c).samples =~= a.before(b.before(c)).samples);
}

/// When the first sample of a stream has been handed out, what follows
/// it is left.
pub proof fn lemma_rest_of_one(e: TrainingDataEntry, d: Decoded)
    ensures
        Decoded::one(e).before(d).samples.len() > 0,
        Decoded::one(e).before(d).samples[0] == e,
        Decoded::one(e).before(d).rest() == d,
{
    assert(Decoded::one(e).before(d).rest().samples =~= d.samples);
}

/// Nothing, cleanly ended, before a part of a stream is that part.
pub proof fn lemma_before_clean(d: Decoded)
    ensures
        Decoded::only(Ending::Clean).before(d) == d,
{
    assert(Decoded::only(Ending::Clean).before(d).samples =~= d.samples);
}

/// The count of continuations behind the stem at `offset`.
pub open spec fn count_at(chunk: Seq<u8>, offset: int) -> u16 {
    (chunk[offset + 32] * 256 + chunk[offset + 33]) as u16
}

/// The number of bytes of a stream that have been read up to a place.
pub open spec fn bytes_read(place: ReadState) -> int {
    place.offset + (if place.left != 8 {
        1int
    } else {
        0int
    })
}

/// The place before the first bit of a stream.
pub open spec fn first_place() -> ReadState {
    ReadState { offset: 0, left: 8 }
}

/// The next `n` continuations that the movetext `bytes` holds from place
/// `s` on, behind the sample `e`. The last of them must end inside the
/// movetext.
#[verifier::opaque]
pub open spec fn chain_samples(
    e: TrainingDataEntry,
    s: ReadState,
    last_score: i16,
    bytes: Seq<u8>,
    n: nat,
) -> Decoded
    decreases n,
{
    if n == 0 {
        Decoded::only(Ending::Clean)
    } else {
        match continued(e, s, last_score, bytes) {
            Some(next) => if n == 1 && bytes_read(place_after(e, s, bytes)) > bytes.len() {
                Decoded::only(Ending::BrokenChain)
            } else {
                Decoded::one(next).before(
                    chain_samples(
                        next,
                        place_after(e, s, bytes),
                        (-next.score) as i16,
                        bytes,
                        (n - 1) as nat,
                    ),
                )
            },
            None => Decoded::only(Ending::BrokenChain),
        }
    }
}

/// The place in the movetext behind the next `n` continuations.
#[verifier::opaque]
pub open spec fn chain_place(
    e: TrainingDataEntry,
    s: ReadState,
    last_score: i16,
    bytes: Seq<u8>,
    n: nat,
) -> ReadState
    decreases n,
{
    if n == 0 {
        s
    } else {
        match continued(e, s, last_score, bytes) {
            Some(next) => chain_place(
                next,
                place_after(e, s, bytes),
                (-next.score) as i16,
                bytes,
                (n - 1) as nat,
            ),
            None => s,
        }
    }
}

/// The number of bytes that a chain takes of its chunk, when its movetext
/// has been read up to `end`: the stem, the count, and the movetext.
pub open spec fn chain_size(end: ReadState) -> nat {
    if bytes_read(end) >= 0 {
        (34 + bytes_read(end)) as nat
    } else {
        34
    }
}

/// The samples of the chains that the chunk holds from `offset` on. What
/// is left of a chunk behind its last chain, less than a stem and a
/// count, is passed over. A stem whose score is the least 16-bit number
/// cannot have continuations.
#[verifier::opaque]
pub open spec fn chunk_samples(chunk: Seq<u8>, offset: int) -> Decoded
    decreases
            (if offset < chunk.len() {
                chunk.len() - offset
            } else {
                0
            }),
{
    if offset < 0 || offset + 34 > chunk.len() {
        Decoded::only(Ending::Clean)
    } else {
        let stem = unpack(chunk.subrange(offset, offset + 32));
        let count = count_at(chunk, offset);
        let movetext = chunk.subrange(offset + 34, chunk.len() as int);
        let last = (-stem.score) as i16;
        let size = chain_size(chain_place(stem, first_place(), last, movetext, count as nat));
        if count > 0 && stem.score == -32768 {
            Decoded::only(Ending::BrokenChain)
        } else {
            Decoded::one(stem).before(
                chain_samples(stem, first_place(), last, movetext, count as nat),
            ).before(
                chunk_samples(chunk, offset + size),
            )
        }
    }
}

/// The samples of the chunks of a file, of which `rest` is left.
#[verifier::opaque]
pub open spec fn file_samples(rest: Seq<u8>) -> Decoded
    decreases rest.len(),
{
    if rest.len() == 0 {
        Decoded::only(Ending::Clean)
    } else {
        match front(rest) {
            Front::Chunk(n) => chunk_samples(rest.subrange(8, 8 + n as int), 0).before(
                file_samples(rest.subrange(8 + n as int, rest.len() as int)),
            ),
            Front::ShortHeader | Front::BadMagic => Decoded::only(Ending::BadMagic),
            Front::TooLarge => Decoded::only(Ending::TooLarge),
            Front::ShortPayload => Decoded::only(Ending::Truncated),
        }
    }
}

/// What a chain holds, by its first continuation.
pub proof fn lemma_chain_step(
    e: TrainingDataEntry,
    s: ReadState,
    last_score: i16,
    bytes: Seq<u8>,
    n: nat,
)
    ensures
        n == 0 ==> chain_samples(e, s, last_score, bytes, n) == Decoded::only(Ending::Clean)
            && chain_place(e, s, last_score, bytes, n) == s,
        n > 0 ==> match continued(e, s, last_score, bytes) {
            Some(next) => {
                let place = place_after(e, s, bytes);
                let last = (-next.score) as i16;
                &&& chain_samples(e, s, last_score, bytes, n) == (if n == 1 && bytes_read(place)
                    > bytes.len() {
                    Decoded::only(Ending::BrokenChain)
                } else {
                    Decoded::one(next).before(
                        chain_samples(next, place, last, bytes, (n - 1) as nat),
                    )
                })
                &&& chain_place(e, s, last_score, bytes, n) == chain_place(
                    next,
                    place,
                    last,
                    bytes,
                    (n - 1) as nat,
                )
            },
            None => chain_samples(e, s, last_score, bytes, n) == Decoded::only(
                Ending::BrokenChain,
            ) && chain_place(e, s, last_score, bytes, n) == s,
        },
{
    reveal(chain_samples);
    reveal(chain_place);
}

/// What a chunk holds, by its first chain.
pub proof fn lemma_chunk_step(chunk: Seq<u8>, offset: int)
    ensures
        offset < 0 || offset + 34 > chunk.len() ==> chunk_samples(chunk, offset) == Decoded::only(
            Ending::Clean,
        ),
        0 <= offset && offset + 34 <= chunk.len() ==> ({
            let stem = unpack(chunk.subrange(offset, offset + 32));
            let count = count_at(chunk, offset);
            let movetext = chunk.subrange(offset + 34, chunk.len() as int);
            let last = (-stem.score) as i16;
            let size = chain_size(chain_place(stem, first_place(), last, movetext, count as nat));
            chunk_samples(chunk, offset) == (if count > 0 && stem.score == -32768 {
                Decoded::only(Ending::BrokenChain)
            } else {
                Decoded::one(stem).before(
                    chain_samples(stem, first_place(), last, movetext, count as nat),
                ).before(chunk_samples(chunk, offset + size))
            })
        }),
{
    reveal(chunk_samples);
}

/// What a file holds, by its first chunk.
pub proof fn lemma_file_step(rest: Seq<u8>)
    ensures
        file_samples(rest) == (if rest.len() == 0 {
            Decoded::only(Ending::Clean)
        } else {
            match front(rest) {
                Front::Chunk(n) => chunk_samples(rest.subrange(8, 8 + n as int), 0).before(
                    file_samples(rest.subrange(8 + n as int, rest.len() as int)),
                ),
                Front::ShortHeader | Front::BadMagic => Decoded::only(Ending::BadMagic),
                Front::TooLarge => Decoded::only(Ending::TooLarge),
                Front::ShortPayload => Decoded::only(Ending::Truncated),
            }
        }),
{
    reveal(file_samples);
}

} // verus!
