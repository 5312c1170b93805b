//! A training sample, and its packed form of 32 bytes: the position in
//! 24 bytes, the move in 2, then three big-endian 16-bit words: the score
//! in zig-zag code, the result (in the top two bits, zig-zag coded) with
//! the ply (in the low 14 bits), and the halfmove clock.

use vstd::prelude::*;
use vstd::string::StringExecFns;
use crate::chess::text::{decimal, push_decimal, push_signed_decimal, signed_decimal};
use vstd::std_specs::cmp::PartialEqSpecImpl;
use crate::chess::chess_move::Move;
use crate::chess::position::Position;
use crate::common::arithmetic::{signed_to_unsigned, unsigned_to_signed, unzigzag, zigzag};
use crate::common::compressed_move::{pack_move, packable, CompressedMove};
use crate::common::compressed_position::{
    be_byte, be_u64, compress_from, decompress_from, lemma_be_bytes, CompressedPosition,
};
use crate::common::compressed_move::{canonical, lemma_move_roundtrip};
use crate::common::arithmetic::{lemma_word_bits, lemma_zigzag_bijective};
use crate::common::position_roundtrip::{codable, lemma_position_roundtrip, same_but_counters};

verus! {

/// A single training data entry.
#[derive(Debug, Clone, Copy, Eq)]
pub struct TrainingDataEntry {
    /// The position of the board.
    pub pos: Position,
    /// The move which will be played on this position.
    pub mv: Move,
    /// The score of the position, relative to the side to move.
    pub score: i16,
    /// The game ply of the position.
    pub ply: u16,
    /// The game result: 1, 0, -1 for win, draw, loss of the side to move.
    pub result: i16,
}

impl TrainingDataEntry {
    /// Whether `other` continues the game of this sample: it has the
    /// opposite result and the next ply, this sample's move can be made,
    /// and making it gives the position of `other`.
    pub open spec fn spec_is_continuation(self, other: TrainingDataEntry) -> bool {
        self.result == -other.result && self.ply + 1 == other.ply && self.pos.applicable(self.mv)
            && self.pos.spec_after_move(self.mv) == other.pos
    }

    pub fn is_continuation(&self, other: &TrainingDataEntry) -> (r: bool)
        requires
            self.pos.table_ok(),
        ensures
            r == self.spec_is_continuation(*other),
    {
        self.result as i32 == -(other.result as i32) && self.ply as u32 + 1 == other.ply as u32
            && self.pos.can_apply(self.mv) && self.pos.after_move(self.mv) == other.pos
    }
}

impl TrainingDataEntry {
    /// The sample as text: the position, the move, the score, the ply and
    /// the result, with a space between each two.
    pub open spec fn spec_text(self) -> Seq<char> {
        self.pos.spec_fen() + seq![' '] + self.mv.spec_uci() + seq![' '] + signed_decimal(
            self.score as int,
        ) + seq![' '] + decimal(self.ply as nat) + seq![' '] + signed_decimal(self.result as int)
    }

    /// The sample as text. Its position must have a consistent piece
    /// list, and its move squares on the board.
    pub fn to_string(&self) -> (r: String)
        requires
            self.pos.table_ok(),
            self.mv.has_uci(),
        ensures
            r@ == self.spec_text(),
    {
        let mut text = match self.pos.fen() {
            Ok(fen) => fen,
            Err(_) => String::new(),
        };
        text.push(' ');
        text.append(self.mv.as_uci().as_str());
        text.push(' ');
        push_signed_decimal(&mut text, self.score as i32);
        text.push(' ');
        push_decimal(&mut text, self.ply as u32);
        text.push(' ');
        push_signed_decimal(&mut text, self.result as i32);
        assert(text@ =~= self.spec_text());
        text
    }
}

impl PartialEq for TrainingDataEntry {
    fn eq(&self, other: &TrainingDataEntry) -> (r: bool) {
        self.pos == other.pos && self.mv == other.mv && self.score == other.score && self.ply
            == other.ply && self.result == other.result
    }
}

impl PartialEqSpecImpl for TrainingDataEntry {
    open spec fn obeys_eq_spec() -> bool {
        true
    }

    open spec fn eq_spec(&self, other: &TrainingDataEntry) -> bool {
        *self == *other
    }
}

/// A packed training data entry.
#[derive(Debug, Clone, Copy)]
pub struct PackedTrainingDataEntry {
    pub data: [u8; 32],
}

/// The 16-bit word that two bytes hold with the most significant first.
pub open spec fn be_u16(hi: u8, lo: u8) -> u16 {
    (hi * 256 + lo) as u16
}

/// The sample that 32 bytes stand for.
pub open spec fn unpack(data: Seq<u8>) -> TrainingDataEntry {
    let board = decompress_from(
        be_u64(data.subrange(0, 8)),
        data.subrange(8, 24),
        0,
        Position::spec_empty(),
    );
    let ply_result = be_u16(data[28], data[29]);
    let ply = (ply_result % 16384) as u16;
    TrainingDataEntry {
        pos: Position {
            fullm: (ply / 2 + 1) as u16,
            halfm: (be_u16(data[30], data[31]) % 256) as u8,
            ..board
        },
        mv: (CompressedMove { packed: be_u16(data[24], data[25]) }).spec_decompress(),
        score: unzigzag(be_u16(data[26], data[27]) as int) as i16,
        ply,
        result: unzigzag(ply_result as int / 16384) as i16,
    }
}

/// The word that holds the result, in its top two bits, with the ply, in
/// its low 14 bits.
pub open spec fn ply_result_word(ply: u16, result: i16) -> u16 {
    ((zigzag(result as int) % 4) * 16384 + ply % 16384) as u16
}

/// The last eight bytes of a packed sample: move, score, result with ply,
/// and halfmove clock.
pub open spec fn pack_tail(entry: TrainingDataEntry) -> Seq<u8> {
    let mv = pack_move(entry.mv);
    let score = zigzag(entry.score as int);
    let pr = ply_result_word(entry.ply, entry.result);
    seq![
        (mv / 256) as u8,
        (mv % 256) as u8,
        (score / 256) as u8,
        (score % 256) as u8,
        (pr / 256) as u8,
        (pr % 256) as u8,
        0u8,
        entry.pos.halfm,
    ]
}

/// The 32 bytes of a sample.
pub open spec fn pack(entry: TrainingDataEntry) -> Seq<u8> {
    Seq::new(8, |i: int| be_byte(entry.pos.spec_occupied(), i)) + compress_from(
        entry.pos,
        entry.pos.spec_occupied(),
        0,
        Seq::new(16, |i: int| 0u8),
    ) + pack_tail(entry)
}

impl PackedTrainingDataEntry {
    pub fn from_slice(slice: &[u8]) -> (r: PackedTrainingDataEntry)
        requires
            slice@.len() == 32,
        ensures
            r.data@ == slice@,
    {
        let mut data: [u8; 32] = [0u8;32];
        let mut i: usize = 0;
        while i < 32
            invariant
                i <= 32,
                slice@.len() == 32,
                forall|j: int| 0 <= j < i ==> data[j] == slice@[j],
            decreases 32 - i,
        {
            data[i] = slice[i];
            i += 1;
        }
        assert(data@ =~= slice@);
        PackedTrainingDataEntry { data }
    }

    pub fn byte_size() -> (r: usize)
        ensures
            r == 32,
    {
        32
    }

    pub fn unpack_entry(&self) -> (r: TrainingDataEntry)
        ensures
            r == unpack(self.data@),
            r.pos.wf(),
    {
        // Read and decompress position
        let compressed_pos = CompressedPosition::read_from_big_endian(self.data.as_slice());
        let mut pos = compressed_pos.decompress();
        let ghost board = pos;

        // Read and decompress move
        let compressed_move = CompressedMove { packed: self.read_u16_be(24) };
        let mv = compressed_move.decompress();

        // Read score
        let score = unsigned_to_signed(self.read_u16_be(26));

        // Read ply and result (packed together)
        let pr: u16 = self.read_u16_be(28);
        proof {
            lemma_word_bits(pr, 0, 0, 0);
        }
        let ply: u16 = pr & 0x3FFF;
        let result = unsigned_to_signed(pr >> 14);

        // Set position's ply
        pos.set_ply(ply);

        // Read and set rule50 counter
        pos.set_rule50_counter(self.read_u16_be(30));
        proof {
            crate::chess::board_lemmas::lemma_wf_same_board(board, pos);
        }
        TrainingDataEntry { pos, mv, score, ply, result }
    }

    pub fn from_entry(entry: &TrainingDataEntry) -> (r: PackedTrainingDataEntry)
        requires
            entry.pos.table_ok(),
            packable(entry.mv),
        ensures
            r.data@ == pack(*entry),
    {
        let mut data: [u8; 32] = [0u8;32];

        // Compress position
        let compressed_pos = CompressedPosition::compress(&entry.pos);
        let mut position_bytes: [u8; 24] = [0u8;24];
        compressed_pos.write_to_big_endian(&mut position_bytes);
        let mut i: usize = 0;
        while i < 24
            invariant
                i <= 24,
                forall|j: int| 0 <= j < i ==> data[j] == position_bytes[j],
            decreases 24 - i,
        {
            data[i] = position_bytes[i];
            i += 1;
        }

        // Compress move
        let compressed_move = CompressedMove::compress(&entry.mv);
        let score: u16 = signed_to_unsigned(entry.score);
        let result: u16 = signed_to_unsigned(entry.result);
        let low: u16 = entry.ply & 0x3FFF;
        proof {
            lemma_word_bits(compressed_move.packed, 0, 0, 0);
            lemma_word_bits(score, 0, 0, 0);
            lemma_word_bits(entry.ply, 0, 0, 0);
            lemma_word_bits(result, 0, 0, low);
        }

        // Pack ply and result
        let pr: u16 = low | (result << 14);
        proof {
            lemma_word_bits(pr, 0, 0, 0);
        }
        data[24] = (compressed_move.packed >> 8) as u8;
        data[25] = (compressed_move.packed & 0xFF) as u8;
        data[26] = (score >> 8) as u8;
        data[27] = (score & 0xFF) as u8;
        data[28] = (pr >> 8) as u8;
        data[29] = (pr & 0xFF) as u8;

        // Pack rule50 counter
        data[30] = 0;
        data[31] = entry.pos.halfm;
        assert(data@ =~= pack(*entry)) by {
            let head = Seq::new(8, |i: int| be_byte(entry.pos.spec_occupied(), i));
            let state = compress_from(
                entry.pos,
                entry.pos.spec_occupied(),
                0,
                Seq::new(16, |i: int| 0u8),
            );
            assert(state == position_bytes@.subrange(8, 24));
            assert(state.len() == 16);
            assert forall|j: int| 0 <= j < 32 implies data@[j] == pack(*entry)[j] by {
                if j < 8 {
                    assert(data@[j] == position_bytes[j]);
                } else if j < 24 {
                    assert(data@[j] == position_bytes@.subrange(8, 24)[j - 8]);
                } else {
                    assert(pack(*entry)[j] == pack_tail(*entry)[j - 24]);
                }
            }
        }
        PackedTrainingDataEntry { data }
    }

    fn read_u16_be(&self, offset: usize) -> (r: u16)
        requires
            offset < 31,
        ensures
            r == be_u16(self.data[offset as int], self.data[offset as int + 1]),
    {
        proof {
            lemma_word_bits(0, self.data[offset as int], self.data[offset as int + 1], 0);
        }
        ((self.data[offset] as u16) << 8) | (self.data[offset + 1] as u16)
    }
}

impl Default for PackedTrainingDataEntry {
    fn default() -> (r: PackedTrainingDataEntry)
        ensures
            forall|i: int| 0 <= i < 32 ==> r.data[i] == 0,
    {
        PackedTrainingDataEntry { data: [0u8;32] }
    }
}

/// Whether a sample can be packed without loss: its position can, the
/// fields of its move fit together, its ply fits in 14 bits, and its
/// result is a loss, a draw or a win.
pub open spec fn packable_entry(entry: TrainingDataEntry) -> bool {
    codable(entry.pos) && canonical(entry.mv) && entry.ply < 16384 && -1 <= entry.result <= 1
}

/// Packing a sample and unpacking the 32 bytes gives back its move, score,
/// ply and result, and its position but for the fullmove number, which
/// comes back as the one that the ply implies.
pub proof fn lemma_entry_roundtrip(entry: TrainingDataEntry)
    requires
        packable_entry(entry),
    ensures
        unpack(pack(entry)).mv == entry.mv,
        unpack(pack(entry)).score == entry.score,
        unpack(pack(entry)).ply == entry.ply,
        unpack(pack(entry)).result == entry.result,
        same_but_counters(unpack(pack(entry)).pos, entry.pos),
        unpack(pack(entry)).pos.halfm == entry.pos.halfm,
        unpack(pack(entry)).pos.fullm == entry.ply / 2 + 1,
{
    let data = pack(entry);
    let occupied = entry.pos.spec_occupied();
    let head = Seq::new(8, |i: int| be_byte(occupied, i));
    let state = compress_from(entry.pos, occupied, 0, Seq::new(16, |i: int| 0u8));
    let tail = pack_tail(entry);
    lemma_position_roundtrip(entry.pos);
    lemma_state_len(entry.pos, occupied, 0, Seq::new(16, |i: int| 0u8));
    assert(data.subrange(0, 8) =~= head);
    assert(data.subrange(8, 24) =~= state);
    assert forall|j: int| 0 <= j < 8 implies data[24 + j] == tail[j] by {}
    lemma_be_bytes(occupied);
    assert(be_u64(head) == occupied) by {
        assert(head[0] == be_byte(occupied, 0));
        assert(head[1] == be_byte(occupied, 1));
        assert(head[2] == be_byte(occupied, 2));
        assert(head[3] == be_byte(occupied, 3));
        assert(head[4] == be_byte(occupied, 4));
        assert(head[5] == be_byte(occupied, 5));
        assert(head[6] == be_byte(occupied, 6));
        assert(head[7] == be_byte(occupied, 7));
    }
    lemma_move_roundtrip(entry.mv);
    lemma_zigzag_bijective(entry.score, 0);
    lemma_zigzag_bijective(entry.result, 0);
    assert(be_u16(data[24], data[25]) == pack_move(entry.mv));
}

/// A packed sample has 32 bytes.
pub proof fn lemma_pack_len(entry: TrainingDataEntry)
    ensures
        pack(entry).len() == 32,
{
    lemma_state_len(entry.pos, entry.pos.spec_occupied(), 0, Seq::new(16, |i: int| 0u8));
}

/// A packed state has 16 bytes.
proof fn lemma_state_len(pos: Position, rest: u64, k: nat, s: Seq<u8>)
    requires
        s.len() == 16,
    ensures
        compress_from(pos, rest, k, s).len() == 16,
    decreases rest,
{
    if rest != 0 && k < 32 {
        crate::chess::bits::lemma_lsb(rest);
        lemma_state_len(
            pos,
            crate::chess::bits::clear_lsb(rest),
            k + 1,
            crate::common::compressed_position::with_nibble(
                s,
                k as int,
                crate::common::compressed_position::code_of(
                    pos,
                    crate::chess::bits::lsb_index(rest),
                ),
            ),
        );
    }
}

} // verus!
