//! What was written is what is read: a game in its chain, the chains in
//! their chunk, the chunks in their file.

use vstd::prelude::*;
use crate::common::bit_roundtrip::{holds, written};
use crate::common::chain_roundtrip::{
    chain_bits, chain_bytes, is_game, lemma_chain_bits, lemma_chain_roundtrip, no_bits, read_chain,
    stem_of_chain,
};
use crate::common::compressed_training_file_reader::{front, Front, MAX_CHUNK_SIZE};
use crate::common::compressed_training_file_writer::{
    framed, header, le_u32_bytes, lemma_le_u32_roundtrip, magic,
};
use crate::common::entry::{lemma_entry_roundtrip, lemma_pack_len, pack, unpack, TrainingDataEntry};
use crate::reader::bitreader::ReadState;
use crate::reader::decoded::{
    bytes_read, chain_place, chain_samples, chain_size, chunk_samples, count_at, file_samples,
    first_place, lemma_before_assoc, lemma_before_clean, lemma_chain_step, lemma_chunk_step,
    lemma_file_step, Decoded, Ending,
};
use crate::reader::move_score_list_reader::{continued, place_after};

verus! {

/// The samples `samples`, and a clean ending.
pub open spec fn clean(samples: Seq<TrainingDataEntry>) -> Decoded {
    Decoded { samples, ending: Ending::Clean }
}

/// Continuations that a chain holds whole, and that end inside the
/// movetext, are the samples of the chain.
proof fn lemma_samples_of_chain(
    e: TrainingDataEntry,
    s: ReadState,
    last_score: i16,
    bytes: Seq<u8>,
    conts: Seq<TrainingDataEntry>,
)
    requires
        read_chain(e, s, last_score, bytes, conts.len()) == conts,
        conts.len() > 0 ==> bytes_read(chain_place(e, s, last_score, bytes, conts.len()))
            <= bytes.len(),
    ensures
        chain_samples(e, s, last_score, bytes, conts.len()) == clean(conts),
    decreases conts.len(),
{
    let n = conts.len();
    lemma_chain_step(e, s, last_score, bytes, n);
    if n == 0 {
        assert(conts =~= Seq::empty());
    } else {
        let next = continued(e, s, last_score, bytes).unwrap();
        let place = place_after(e, s, bytes);
        let last = (-next.score) as i16;
        let tail = read_chain(next, place, last, bytes, (n - 1) as nat);
        assert(conts == seq![next] + tail);
        assert(conts.drop_first() =~= tail);
        lemma_chain_step(next, place, last, bytes, (n - 1) as nat);
        lemma_samples_of_chain(next, place, last, bytes, tail);
        assert(Decoded::one(next).before(clean(tail)).samples =~= conts);
    }
}

/// The samples of a chunk from a place on are those of what the chunk
/// holds from that place on.
pub proof fn lemma_chunk_suffix(chunk: Seq<u8>, offset: int)
    requires
        0 <= offset <= chunk.len(),
    ensures
        chunk_samples(chunk, offset) == chunk_samples(
            chunk.subrange(offset, chunk.len() as int),
            0,
        ),
    decreases chunk.len() - offset,
{
    let len = chunk.len() as int;
    let suffix = chunk.subrange(offset, len);
    lemma_chunk_step(chunk, offset);
    lemma_chunk_step(suffix, 0);
    if offset + 34 <= len {
        assert(suffix.subrange(0, 32) =~= chunk.subrange(offset, offset + 32));
        assert(suffix.subrange(34, suffix.len() as int) =~= chunk.subrange(offset + 34, len));
        let stem = unpack(chunk.subrange(offset, offset + 32));
        let count = count_at(chunk, offset);
        let movetext = chunk.subrange(offset + 34, len);
        let last = (-stem.score) as i16;
        let size = chain_size(chain_place(stem, first_place(), last, movetext, count as nat));
        if offset + size <= len {
            lemma_chunk_suffix(chunk, offset + size);
            lemma_chunk_suffix(suffix, size as int);
            assert(suffix.subrange(size as int, suffix.len() as int) =~= chunk.subrange(
                offset + size,
                len,
            ));
        } else {
            lemma_chunk_step(chunk, offset + size);
            lemma_chunk_step(suffix, size as int);
        }
    }
}

/// A game that was written as a chain is read back from its chunk as it
/// was written, and behind it the chains that follow it in the chunk.
pub proof fn lemma_chain_in_chunk(
    stem: TrainingDataEntry,
    conts: Seq<TrainingDataEntry>,
    rest: Seq<u8>,
)
    requires
        stem_of_chain(stem),
        is_game(stem, conts),
        conts.len() <= 65535,
    ensures
        chunk_samples(chain_bytes(stem, conts) + rest, 0) == clean(seq![stem] + conts).before(
            chunk_samples(rest, 0),
        ),
{
    let chain = chain_bytes(stem, conts);
    let chunk = chain + rest;
    let last = (-stem.score) as i16;
    let bits = chain_bits(no_bits(), conts, last);
    let n = conts.len();
    lemma_pack_len(stem);
    lemma_entry_roundtrip(stem);
    assert(chunk.subrange(0, 32) =~= pack(stem));
    let movetext = chunk.subrange(34, chunk.len() as int);
    assert(movetext =~= bits.bytes + rest);
    assert(unpack(pack(stem)).pos == stem.pos);
    assert(unpack(chunk.subrange(0, 32)) == stem);
    lemma_chain_bits(no_bits(), stem, conts, last);
    assert(holds(movetext, bits)) by {
        assert forall|p: int| 0 <= p < written(bits) implies #[trigger] crate::common::bit_roundtrip::stream_bit(
            movetext,
            p,
        ) == crate::common::bit_roundtrip::stream_bit(bits.bytes, p) by {
            assert(movetext[p / 8] == bits.bytes[p / 8]);
        }
    }
    lemma_chain_roundtrip(stem, conts, no_bits(), last, movetext, first_place());
    let end = chain_place(stem, first_place(), last, movetext, n);
    assert(bytes_read(end) == bits.bytes.len());
    lemma_samples_of_chain(stem, first_place(), last, movetext, conts);
    lemma_chunk_step(chunk, 0);
    assert(count_at(chunk, 0) == n);
    assert(chain_size(end) == chain.len());
    lemma_chunk_suffix(chunk, chain.len() as int);
    assert(chunk.subrange(chain.len() as int, chunk.len() as int) =~= rest);
    let behind = chunk_samples(rest, 0);
    assert(Decoded::one(stem).before(clean(conts)).samples =~= seq![stem] + conts);
}

/// A chunk with its header before it is the first chunk of the file.
pub proof fn lemma_front_framed(payload: Seq<u8>, rest: Seq<u8>)
    requires
        payload.len() <= MAX_CHUNK_SIZE,
    ensures
        front(framed(payload) + rest) == Front::Chunk(payload.len()),
        (framed(payload) + rest).subrange(8, 8 + payload.len() as int) == payload,
        (framed(payload) + rest).subrange(
            8 + payload.len() as int,
            (framed(payload) + rest).len() as int,
        ) == rest,
{
    let file = framed(payload) + rest;
    let n = payload.len() as u32;
    lemma_le_u32_roundtrip(n);
    assert(file.subrange(0, 4) =~= magic());
    assert(file.subrange(4, 8) =~= le_u32_bytes(n));
    assert(file.subrange(8, 8 + payload.len() as int) =~= payload);
    assert(file.subrange(8 + payload.len() as int, file.len() as int) =~= rest);
}

/// A file that starts with a chunk holds the samples of the chunk, and
/// behind them those of the rest of the file.
pub proof fn lemma_chunk_in_file(payload: Seq<u8>, rest: Seq<u8>)
    requires
        payload.len() <= MAX_CHUNK_SIZE,
    ensures
        file_samples(framed(payload) + rest) == chunk_samples(payload, 0).before(
            file_samples(rest),
        ),
{
    lemma_front_framed(payload, rest);
    lemma_file_step(framed(payload) + rest);
}

/// The file that holds the chunks with the payloads `chunks`, one behind
/// the other.
pub open spec fn file_of(chunks: Seq<Seq<u8>>) -> Seq<u8>
    decreases chunks.len(),
{
    if chunks.len() == 0 {
        Seq::empty()
    } else {
        framed(chunks[0]) + file_of(chunks.drop_first())
    }
}

/// The samples of the chunks with the payloads `chunks`, each chunk read
/// on its own, one behind the other.
pub open spec fn samples_of(chunks: Seq<Seq<u8>>) -> Decoded
    decreases chunks.len(),
{
    if chunks.len() == 0 {
        Decoded::only(Ending::Clean)
    } else {
        chunk_samples(chunks[0], 0).before(samples_of(chunks.drop_first()))
    }
}

/// A file of chunks that were written one behind the other holds the
/// samples of its chunks, one chunk behind the other.
pub proof fn lemma_chunk_independence(chunks: Seq<Seq<u8>>)
    requires
        forall|i: int| 0 <= i < chunks.len() ==> (#[trigger] chunks[i]).len() <= MAX_CHUNK_SIZE,
    ensures
        file_samples(file_of(chunks)) == samples_of(chunks),
    decreases chunks.len(),
{
    if chunks.len() == 0 {
        lemma_file_step(file_of(chunks));
    } else {
        let rest = chunks.drop_first();
        assert forall|i: int| 0 <= i < rest.len() implies (#[trigger] rest[i]).len()
            <= MAX_CHUNK_SIZE by {
            assert(rest[i] == chunks[i + 1]);
        }
        lemma_chunk_independence(rest);
        lemma_chunk_in_file(chunks[0], file_of(rest));
    }
}

/// Two files of chunks, one behind the other, hold the samples of the
/// first and behind them those of the second.
pub proof fn lemma_files_join(first: Seq<Seq<u8>>, second: Seq<u8>)
    requires
        forall|i: int| 0 <= i < first.len() ==> (#[trigger] first[i]).len() <= MAX_CHUNK_SIZE,
    ensures
        file_samples(file_of(first) + second) == samples_of(first).before(file_samples(second)),
    decreases first.len(),
{
    if first.len() == 0 {
        assert(file_of(first) + second =~= second);
        lemma_before_clean(file_samples(second));
    } else {
        let rest = first.drop_first();
        assert forall|i: int| 0 <= i < rest.len() implies (#[trigger] rest[i]).len()
            <= MAX_CHUNK_SIZE by {
            assert(rest[i] == first[i + 1]);
        }
        lemma_files_join(rest, second);
        assert(file_of(first) + second =~= framed(first[0]) + (file_of(rest) + second));
        lemma_chunk_in_file(first[0], file_of(rest) + second);
        lemma_before_assoc(chunk_samples(first[0], 0), samples_of(rest), file_samples(second));
    }
}

/// A game that was written as the one chain of the one chunk of a file is
/// read back from the file as it was written.
pub proof fn lemma_game_in_file(stem: TrainingDataEntry, conts: Seq<TrainingDataEntry>)
    requires
        stem_of_chain(stem),
        is_game(stem, conts),
        conts.len() <= 65535,
    ensures
        file_samples(framed(chain_bytes(stem, conts))) == clean(seq![stem] + conts),
{
    let chain = chain_bytes(stem, conts);
    lemma_pack_len(stem);
    lemma_chain_bits(no_bits(), stem, conts, (-stem.score) as i16);
    lemma_chain_in_chunk(stem, conts, Seq::empty());
    assert(chain + Seq::<u8>::empty() =~= chain);
    lemma_chunk_step(Seq::<u8>::empty(), 0);
    lemma_chunk_in_file(chain, Seq::empty());
    assert(framed(chain) + Seq::<u8>::empty() =~= framed(chain));
    lemma_file_step(Seq::<u8>::empty());
    assert(clean(seq![stem] + conts).before(Decoded::only(Ending::Clean)).samples =~= seq![stem]
        + conts);
}

} // verus!
