//! What the chain writer has written, the chain reader reads: the moves
//! and scores of the continuations of a game come back as they went in.

use vstd::prelude::*;
use crate::chess::bits::{lemma_popcount_bound, popcount};
use crate::chess::chess_move::Move;
use crate::chess::position::Position;
use crate::common::arithmetic::{bit_length, lemma_zigzag_bijective, used_bits, zigzag};
use crate::common::bit_roundtrip::{
    consumed, holds, lemma_add_bits, lemma_add_vle16, lemma_fits_below, lemma_holds_before,
    lemma_holds_before_vle16, lemma_read_written, lemma_read_written_vle16, lemma_vle16_size,
    place_ok,
    stream_bit, tight, written,
};
use crate::common::entry::{
    lemma_entry_roundtrip, lemma_pack_len, pack, packable_entry, unpack, TrainingDataEntry,
};
use crate::common::move_slots::{index_in, lemma_used_bits_bound, own, slot_count, slot_of_move};
use crate::common::slot_roundtrip::{chain_move, lemma_slot_roundtrip};
use crate::reader::bitreader::{after_bits, after_vle16, ReadState};
use crate::reader::decoded::{bytes_read, chain_place, first_place};
use crate::reader::move_score_list_reader::{
    after_move_bits, after_piece, continued, decoded_move, decoded_origin, decoded_score,
    place_after, score_sum,
};
use crate::writer::bitwriter::{add_bits, add_vle16, BitState};
use crate::writer::move_score_list::{add_continuation, score_delta};

verus! {

/// A number is below two to the power of its number of digits.
proof fn lemma_bit_length_covers(x: nat)
    ensures
        x < vstd::arithmetic::power2::pow2(bit_length(x)),
    decreases x,
{
    vstd::arithmetic::power2::lemma2_to64();
    if x != 0 {
        lemma_bit_length_covers(x / 2);
        vstd::arithmetic::power2::lemma_pow2_unfold(bit_length(x));
    }
}

/// Each of the numbers `0..n` is below two to the power of the width of a
/// field for `n` values.
proof fn lemma_used_bits_covers(x: nat, n: nat)
    requires
        x < n,
    ensures
        x < vstd::arithmetic::power2::pow2(used_bits(n)),
    decreases n,
{
    lemma_bit_length_covers((n - 1) as nat);
}

/// The number of slots of a piece is at most 256.
proof fn lemma_slot_count_bound(pos: Position, from: u32)
    ensures
        slot_count(pos, from) <= 256,
{
    lemma_popcount_bound(crate::common::move_slots::pawn_destinations(pos, from));
    lemma_popcount_bound(
        crate::common::move_slots::piece_destinations(
            pos,
            pos.pieces[from as int].spec_piece_type(),
            from,
        ),
    );
    lemma_popcount_bound(
        (pos.castling_rights.0 & crate::chess::castling_rights::castling_flags_of(pos.stm))
            as u64,
    );
}

/// The expected score and the difference that was written for a score give
/// the score.
pub proof fn lemma_score_roundtrip(score: i16, last_score: i16)
    ensures
        0 <= zigzag(score_delta(score, last_score) as int) <= 0xFFFF,
        score_sum(
            last_score,
            crate::common::arithmetic::unzigzag(zigzag(score_delta(score, last_score) as int))
                as i16,
        ) == score,
{
    lemma_zigzag_bijective(score_delta(score, last_score), 0);
}

/// A continuation keeps a stream tight, leaves what was there, and adds
/// at most 96 bits.
pub proof fn lemma_add_continuation(
    s: BitState,
    pos: Position,
    mv: Move,
    score: i16,
    last_score: i16,
)
    requires
        tight(s),
        pos.wf(),
        chain_move(pos, mv),
    ensures
        tight(add_continuation(s, pos, mv, score, last_score)),
        written(add_continuation(s, pos, mv, score, last_score)) >= written(s),
        written(add_continuation(s, pos, mv, score, last_score)) <= written(s) + 96,
        holds(add_continuation(s, pos, mv, score, last_score).bytes, s),
{
    let from = mv.from.index;
    lemma_slot_roundtrip(pos, mv);
    lemma_popcount_bound(own(pos));
    lemma_slot_count_bound(pos, from);
    lemma_used_bits_bound(popcount(own(pos)));
    lemma_used_bits_bound(slot_count(pos, from));
    let piece_id = (index_in(own(pos), from) % 256) as u8;
    let piece_bits = used_bits(popcount(own(pos))) as int;
    let move_id = (slot_of_move(pos, mv) % 256) as u8;
    let move_bits = used_bits(slot_count(pos, from)) as int;
    let delta = zigzag(score_delta(score, last_score) as int) as u16;
    lemma_used_bits_covers(index_in(own(pos), from), popcount(own(pos)));
    lemma_used_bits_covers(slot_of_move(pos, mv) as nat, slot_count(pos, from));
    lemma_fits_below(piece_id, piece_bits);
    lemma_fits_below(move_id, move_bits);
    let s1 = add_bits(s, piece_id, piece_bits);
    lemma_add_bits(s, piece_id, piece_bits);
    let s2 = add_bits(s1, move_id, move_bits);
    lemma_add_bits(s1, move_id, move_bits);
    let s3 = add_vle16(s2, delta, 4);
    lemma_add_vle16(s2, delta, 4);
    vstd::arithmetic::power2::lemma2_to64();
    lemma_vle16_size(s2, delta, 4, 16);
    assert forall|p: int| 0 <= p < written(s) implies #[trigger] stream_bit(s3.bytes, p)
        == stream_bit(s.bytes, p) by {
        assert(stream_bit(s3.bytes, p) == stream_bit(s2.bytes, p));
        assert(stream_bit(s2.bytes, p) == stream_bit(s1.bytes, p));
        assert(stream_bit(s1.bytes, p) == stream_bit(s.bytes, p));
    }
}

/// A stream that holds what a writer has written, and more behind it,
/// holds what the writer has written.
pub proof fn lemma_holds_less(bytes: Seq<u8>, more: BitState, less: BitState)
    requires
        holds(bytes, more),
        holds(more.bytes, less),
        written(less) <= written(more),
    ensures
        holds(bytes, less),
{
    assert forall|p: int| 0 <= p < written(less) implies #[trigger] stream_bit(bytes, p)
        == stream_bit(less.bytes, p) by {
        assert(stream_bit(bytes, p) == stream_bit(more.bytes, p));
        assert(stream_bit(more.bytes, p) == stream_bit(less.bytes, p));
    }
}

/// Reading a continuation at the place where it was written gives back
/// its move and its score, whatever was written behind it.
pub proof fn lemma_continuation_roundtrip(
    s: BitState,
    pos: Position,
    mv: Move,
    score: i16,
    last_score: i16,
    bytes: Seq<u8>,
    r: ReadState,
)
    requires
        tight(s),
        place_ok(r),
        consumed(r) == written(s),
        pos.wf(),
        chain_move(pos, mv),
        holds(bytes, add_continuation(s, pos, mv, score, last_score)),
    ensures
        decoded_move(bytes, r, pos) == Some(mv),
        decoded_score(bytes, after_move_bits(bytes, r, pos), last_score) == score,
        tight(add_continuation(s, pos, mv, score, last_score)),
        written(add_continuation(s, pos, mv, score, last_score)) >= written(s),
        holds(bytes, s),
        place_ok(after_vle16(bytes, after_move_bits(bytes, r, pos), 4, 0)),
        consumed(after_vle16(bytes, after_move_bits(bytes, r, pos), 4, 0)) == written(
            add_continuation(s, pos, mv, score, last_score),
        ),
{
    let from = mv.from.index;
    lemma_slot_roundtrip(pos, mv);
    lemma_popcount_bound(own(pos));
    lemma_slot_count_bound(pos, from);
    lemma_used_bits_bound(popcount(own(pos)));
    lemma_used_bits_bound(slot_count(pos, from));
    lemma_score_roundtrip(score, last_score);
    let piece_id = (index_in(own(pos), from) % 256) as u8;
    let piece_bits = used_bits(popcount(own(pos))) as int;
    let move_id = (slot_of_move(pos, mv) % 256) as u8;
    let move_bits = used_bits(slot_count(pos, from)) as int;
    let delta = zigzag(score_delta(score, last_score) as int) as u16;
    lemma_used_bits_covers(index_in(own(pos), from), popcount(own(pos)));
    lemma_used_bits_covers(slot_of_move(pos, mv) as nat, slot_count(pos, from));
    lemma_fits_below(piece_id, piece_bits);
    lemma_fits_below(move_id, move_bits);
    let s1 = add_bits(s, piece_id, piece_bits);
    lemma_add_bits(s, piece_id, piece_bits);
    let s2 = add_bits(s1, move_id, move_bits);
    lemma_add_bits(s1, move_id, move_bits);
    let s3 = add_vle16(s2, delta, 4);
    lemma_add_vle16(s2, delta, 4);
    assert(s3 == add_continuation(s, pos, mv, score, last_score));
    lemma_holds_before_vle16(bytes, s2, delta, 4);
    lemma_holds_before(bytes, s1, move_id, move_bits);
    lemma_holds_before(bytes, s, piece_id, piece_bits);
    lemma_read_written(s, piece_id, piece_bits, bytes, r);
    assert(decoded_origin(bytes, r, pos) == from);
    let r1 = after_bits(r, piece_bits);
    assert(r1 == after_piece(r, pos));
    lemma_read_written(s1, move_id, move_bits, bytes, r1);
    let r2 = after_bits(r1, move_bits);
    assert(r2 == after_move_bits(bytes, r, pos));
    lemma_read_written_vle16(s2, delta, 4, bytes, r2);
}

/// The stream after the continuations of a game have been added, when
/// `last_score` is the score expected of the first of them.
pub open spec fn chain_bits(s: BitState, conts: Seq<TrainingDataEntry>, last_score: i16) -> BitState
    decreases conts.len(),
{
    if conts.len() == 0 {
        s
    } else {
        chain_bits(
            add_continuation(s, conts[0].pos, conts[0].mv, conts[0].score, last_score),
            conts.drop_first(),
            (-conts[0].score) as i16,
        )
    }
}

/// Whether the samples `conts` are a game that goes on from the sample
/// `prev`: each continues the one before it, in a consistent position,
/// with a move that a chain can hold and a score above the least 16-bit
/// number.
pub open spec fn is_game(prev: TrainingDataEntry, conts: Seq<TrainingDataEntry>) -> bool
    decreases conts.len(),
{
    conts.len() == 0 || (prev.spec_is_continuation(conts[0]) && conts[0].pos.wf() && chain_move(
        conts[0].pos,
        conts[0].mv,
    ) && conts[0].score > -32768 && is_game(conts[0], conts.drop_first()))
}

/// The next `n` samples that the stream holds from place `s` on, behind
/// the sample `e`: as many as it holds of them.
pub open spec fn read_chain(
    e: TrainingDataEntry,
    s: ReadState,
    last_score: i16,
    bytes: Seq<u8>,
    n: nat,
) -> Seq<TrainingDataEntry>
    decreases n,
{
    if n == 0 {
        Seq::empty()
    } else {
        match continued(e, s, last_score, bytes) {
            Some(next) => seq![next] + read_chain(
                next,
                place_after(e, s, bytes),
                (-next.score) as i16,
                bytes,
                (n - 1) as nat,
            ),
            None => Seq::empty(),
        }
    }
}

/// The bits of a game keep a stream tight, and leave what was there. Each
/// continuation adds at most 96 bits.
pub proof fn lemma_chain_bits(
    s: BitState,
    prev: TrainingDataEntry,
    conts: Seq<TrainingDataEntry>,
    last_score: i16,
)
    requires
        tight(s),
        is_game(prev, conts),
    ensures
        tight(chain_bits(s, conts, last_score)),
        written(chain_bits(s, conts, last_score)) >= written(s),
        written(chain_bits(s, conts, last_score)) <= written(s) + 96 * conts.len(),
        holds(chain_bits(s, conts, last_score).bytes, s),
    decreases conts.len(),
{
    if conts.len() > 0 {
        let e = conts[0];
        let next = add_continuation(s, e.pos, e.mv, e.score, last_score);
        lemma_add_continuation(s, e.pos, e.mv, e.score, last_score);
        lemma_chain_bits(next, e, conts.drop_first(), (-e.score) as i16);
        lemma_holds_less(chain_bits(s, conts, last_score).bytes, next, s);
    }
}

/// Reading a game at the place where it was written gives the game back,
/// whatever was written behind it.
pub proof fn lemma_chain_roundtrip(
    prev: TrainingDataEntry,
    conts: Seq<TrainingDataEntry>,
    s: BitState,
    last_score: i16,
    bytes: Seq<u8>,
    r: ReadState,
)
    requires
        is_game(prev, conts),
        tight(s),
        place_ok(r),
        consumed(r) == written(s),
        holds(bytes, chain_bits(s, conts, last_score)),
    ensures
        read_chain(prev, r, last_score, bytes, conts.len()) == conts,
        place_ok(chain_place(prev, r, last_score, bytes, conts.len())),
        consumed(chain_place(prev, r, last_score, bytes, conts.len())) == written(
            chain_bits(s, conts, last_score),
        ),
    decreases conts.len(),
{
    reveal(chain_place);
    if conts.len() == 0 {
        assert(conts =~= Seq::empty());
    } else {
        let e = conts[0];
        let rest = conts.drop_first();
        let next = add_continuation(s, e.pos, e.mv, e.score, last_score);
        lemma_add_continuation(s, e.pos, e.mv, e.score, last_score);
        lemma_chain_bits(next, e, rest, (-e.score) as i16);
        lemma_holds_less(bytes, chain_bits(s, conts, last_score), next);
        lemma_continuation_roundtrip(s, e.pos, e.mv, e.score, last_score, bytes, r);
        lemma_step(prev, e, r, last_score, bytes);
        lemma_chain_roundtrip(e, rest, next, (-e.score) as i16, bytes, place_after(prev, r, bytes));
        assert(conts =~= seq![e] + rest);
    }
}

/// The sample that continues a game is the sample that the reader finds,
/// if its move and its score are those that the reader decodes.
proof fn lemma_step(
    prev: TrainingDataEntry,
    e: TrainingDataEntry,
    r: ReadState,
    last_score: i16,
    bytes: Seq<u8>,
)
    requires
        prev.spec_is_continuation(e),
        e.score > -32768,
        decoded_move(bytes, r, e.pos) == Some(e.mv),
        decoded_score(bytes, after_move_bits(bytes, r, e.pos), last_score) == e.score,
    ensures
        continued(prev, r, last_score, bytes) == Some(e),
{
}

/// The stream to which nothing has been written.
pub open spec fn no_bits() -> BitState {
    BitState { bytes: Seq::empty(), left: 0 }
}

/// The bits of the continuations of the game that starts with `stem`.
pub open spec fn movetext_of(stem: TrainingDataEntry, conts: Seq<TrainingDataEntry>) -> Seq<u8> {
    chain_bits(no_bits(), conts, (-stem.score) as i16).bytes
}

/// The bytes of a chain: the stem, the count of its continuations, and
/// their bits.
pub open spec fn chain_bytes(stem: TrainingDataEntry, conts: Seq<TrainingDataEntry>) -> Seq<u8> {
    pack(stem) + seq![(conts.len() / 256) as u8, (conts.len() % 256) as u8] + movetext_of(
        stem,
        conts,
    )
}

/// Whether a sample can be the stem of a chain that is read back as it
/// was written: it can be packed without loss, its fullmove number is
/// the one that its ply implies, and its score is above the least 16-bit
/// number.
pub open spec fn stem_of_chain(stem: TrainingDataEntry) -> bool {
    packable_entry(stem) && stem.pos.fullm == stem.ply / 2 + 1 && stem.score > -32768
}

/// Writing a game as a chain, and reading the chain, gives the game back:
/// the stem is unpacked as it was, the count is the number of the
/// continuations, and the continuations come back from the movetext, at
/// whose end the reading ends.
pub proof fn lemma_game_roundtrip(stem: TrainingDataEntry, conts: Seq<TrainingDataEntry>)
    requires
        stem_of_chain(stem),
        is_game(stem, conts),
        conts.len() <= 65535,
    ensures
        ({
            let chain = chain_bytes(stem, conts);
            let movetext = chain.subrange(34, chain.len() as int);
            let end = chain_place(stem, first_place(), (-stem.score) as i16, movetext, conts.len());
            &&& chain.len() >= 34
            &&& unpack(chain.subrange(0, 32)) == stem
            &&& chain[32] * 256 + chain[33] == conts.len()
            &&& read_chain(stem, first_place(), (-stem.score) as i16, movetext, conts.len())
                == conts
            &&& bytes_read(end) == movetext.len()
        }),
{
    let chain = chain_bytes(stem, conts);
    let bits = chain_bits(no_bits(), conts, (-stem.score) as i16);
    lemma_pack_len(stem);
    lemma_entry_roundtrip(stem);
    assert(chain.subrange(0, 32) =~= pack(stem));
    assert(chain.subrange(34, chain.len() as int) =~= bits.bytes);
    let unpacked = unpack(pack(stem));
    assert(unpacked.pos == stem.pos);
    lemma_chain_bits(no_bits(), stem, conts, (-stem.score) as i16);
    lemma_chain_roundtrip(stem, conts, no_bits(), (-stem.score) as i16, bits.bytes, first_place());
}

} // verus!
