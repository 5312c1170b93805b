//! A position in 24 bytes: the occupied squares as a big-endian 64-bit
//! word, then one 4-bit code for each occupied square, from the lowest
//! square up, two codes to a byte, the low half first.
//!
//! Codes 0 to 11 are piece ids. Code 12 is a pawn that can be captured in
//! passing: white on the fourth rank, black otherwise. Codes 13 and 14 are
//! a white and a black rook that may still castle. Code 15 is the black
//! king when Black is to move. The move counters are not stored.

use vstd::prelude::*;
use vstd::std_specs::cmp::PartialEqSpecImpl;
use crate::chess::bitboard::Bitboard;
use crate::chess::bits::{bit64, clear_lsb, lemma_lsb, lsb_index};
use crate::chess::board_lemmas::{lemma_place_wf, lemma_wf_same_board};
use crate::chess::castling_rights::{
    CastlingRights, BLACK_KING_SIDE, BLACK_QUEEN_SIDE, WHITE_KING_SIDE, WHITE_QUEEN_SIDE,
};
use crate::chess::color::Color;
use crate::chess::coords::{Square, A1, A8, H1, H8};
use crate::chess::piece::Piece;
use crate::chess::piecetype::PieceType;
use crate::chess::position::Position;

verus! {

#[derive(Debug, Clone, Copy, Eq)]
pub struct CompressedPosition {
    pub occupied: Bitboard,
    pub packed_state: [u8; 16],
}

pub const WHITE_PAWN: u8 = 0;

pub const BLACK_PAWN: u8 = 1;

pub const WHITE_ROOK: u8 = 6;

pub const BLACK_ROOK: u8 = 7;

pub const BLACK_KING: u8 = 11;

/// The 64-bit word that eight bytes hold with the most significant byte
/// first.
pub open spec fn be_u64(b: Seq<u8>) -> u64 {
    ((b[0] as u64) << 56) | ((b[1] as u64) << 48) | ((b[2] as u64) << 40) | ((b[3] as u64) << 32)
        | ((b[4] as u64) << 24) | ((b[5] as u64) << 16) | ((b[6] as u64) << 8) | (b[7] as u64)
}

/// Byte number `i` of a 64-bit word, counted from the most significant.
pub open spec fn be_byte(x: u64, i: int) -> u8 {
    ((x >> ((56 - 8 * i) as u64)) & 0xFF) as u8
}

/// Code number `k` of a packed state: the low half of a byte comes first.
pub open spec fn nibble(state: Seq<u8>, k: int) -> u8 {
    if k % 2 == 0 {
        state[k / 2] % 16
    } else {
        state[k / 2] / 16
    }
}

/// The packed state with code number `k` set to `code`, when the codes
/// from `k` on are still zero.
pub open spec fn with_nibble(state: Seq<u8>, k: int, code: u8) -> Seq<u8> {
    if k % 2 == 0 {
        state.update(k / 2, code)
    } else {
        state.update(k / 2, (state[k / 2] + 16 * code) as u8)
    }
}

/// The piece that a code puts on square `sq`.
pub open spec fn piece_of_code(code: u8, sq: u32) -> Piece {
    if code < 12 {
        Piece { id: code }
    } else if code == 12 {
        if sq / 8 == 3 {
            Piece { id: WHITE_PAWN }
        } else {
            Piece { id: BLACK_PAWN }
        }
    } else if code == 13 {
        Piece { id: WHITE_ROOK }
    } else if code == 14 {
        Piece { id: BLACK_ROOK }
    } else {
        Piece { id: BLACK_KING }
    }
}

/// The position after the code of square `sq` has been read: its piece
/// stands on `sq`, and codes 12 to 15 have set the en-passant square, a
/// castling right or the side to move.
pub open spec fn place_code(pos: Position, sq: u32, code: u8) -> Position {
    let pc = piece_of_code(code, sq);
    let placed = pos.spec_place_piece(pc.spec_color(), pc, sq);
    if code == 12 {
        Position {
            enpassant: if sq / 8 == 3 {
                Square { index: (sq - 8) as u32 }
            } else {
                Square { index: (sq + 8) as u32 }
            },
            ..placed
        }
    } else if code == 13 {
        Position {
            castling_rights: CastlingRights(
                placed.castling_rights.0 | (if sq == A1 {
                    WHITE_QUEEN_SIDE
                } else {
                    WHITE_KING_SIDE
                }),
            ),
            ..placed
        }
    } else if code == 14 {
        Position {
            castling_rights: CastlingRights(
                placed.castling_rights.0 | (if sq == A8 {
                    BLACK_QUEEN_SIDE
                } else {
                    BLACK_KING_SIDE
                }),
            ),
            ..placed
        }
    } else if code >= 15 {
        Position { stm: Color::Black, ..placed }
    } else {
        placed
    }
}

/// The position that the codes from number `k` on make of `pos`, one code
/// for each square of `occ` from the lowest up, at most 32 codes in all.
pub open spec fn decompress_from(occ: u64, state: Seq<u8>, k: nat, pos: Position) -> Position
    decreases occ,
{
    if occ == 0 || k >= 32 {
        pos
    } else {
        proof {
            lemma_lsb(occ);
        }
        decompress_from(
            clear_lsb(occ),
            state,
            k + 1,
            place_code(pos, lsb_index(occ), nibble(state, k as int)),
        )
    }
}

/// The code of the piece on square `sq`.
pub open spec fn code_of(pos: Position, sq: u32) -> u8 {
    let piece = pos.pieces[sq as int];
    let ep = pos.enpassant;
    let rights = pos.castling_rights;
    if piece.spec_piece_type() == PieceType::Pawn && ep != Square::spec_none() && ((
    piece.spec_color() == Color::White && sq / 8 == 3 && ep.index == sq - 8) || (
    piece.spec_color() == Color::Black && sq / 8 == 4 && ep.index == sq + 8)) {
        12
    } else if piece.id == WHITE_ROOK && ((sq == A1 && rights.has(WHITE_QUEEN_SIDE)) || (sq == H1
        && rights.has(WHITE_KING_SIDE))) {
        13
    } else if piece.id == BLACK_ROOK && ((sq == A8 && rights.has(BLACK_QUEEN_SIDE)) || (sq == H8
        && rights.has(BLACK_KING_SIDE))) {
        14
    } else if piece.id == BLACK_KING && pos.stm == Color::Black {
        15
    } else {
        piece.id
    }
}

/// The packed state after the codes of the squares of `occ`, from the
/// lowest up, have been written from number `k` on, at most 32 in all.
pub open spec fn compress_from(pos: Position, occ: u64, k: nat, state: Seq<u8>) -> Seq<u8>
    decreases occ,
{
    if occ == 0 || k >= 32 {
        state
    } else {
        proof {
            lemma_lsb(occ);
        }
        compress_from(
            pos,
            clear_lsb(occ),
            k + 1,
            with_nibble(state, k as int, code_of(pos, lsb_index(occ))),
        )
    }
}

proof fn lemma_nibble_bits(byte: u8, code: u8)
    by (bit_vector)
    ensures
        byte & 0xF == byte % 16,
        byte >> 4 == byte / 16,
        code <= 15 && byte <= 15 ==> byte | (code << 4) == byte + 16 * code,
{
}

pub proof fn lemma_be_bytes(x: u64)
    by (bit_vector)
    ensures
        (((((x >> 56) & 0xFF) as u8) as u64) << 56) | (((((x >> 48) & 0xFF) as u8) as u64) << 48)
            | (((((x >> 40) & 0xFF) as u8) as u64) << 40) | (((((x >> 32) & 0xFF) as u8) as u64)
            << 32) | (((((x >> 24) & 0xFF) as u8) as u64) << 24) | (((((x >> 16) & 0xFF) as u8)
            as u64) << 16) | (((((x >> 8) & 0xFF) as u8) as u64) << 8) | ((((x & 0xFF) as u8)
            as u64)) == x,
        (x >> 56) & 0xFF == x >> 56,
        (x >> 0) & 0xFF == x & 0xFF,
        (x >> 56) <= 0xFF,
        (x >> 48) & 0xFF <= 0xFF,
        (x >> 40) & 0xFF <= 0xFF,
        (x >> 32) & 0xFF <= 0xFF,
        (x >> 24) & 0xFF <= 0xFF,
        (x >> 16) & 0xFF <= 0xFF,
        (x >> 8) & 0xFF <= 0xFF,
        x & 0xFF <= 0xFF,
{
}

impl CompressedPosition {
    /// The position that the 24 bytes stand for, with the move counters of
    /// the empty position.
    pub open spec fn spec_decompress(self) -> Position {
        decompress_from(self.occupied.data, self.packed_state@, 0, Position::spec_empty())
    }

    /// The packed form of a position.
    pub open spec fn spec_compress(pos: Position) -> (u64, Seq<u8>) {
        (
            pos.spec_occupied(),
            compress_from(pos, pos.spec_occupied(), 0, Seq::new(16, |i: int| 0u8)),
        )
    }

    pub fn byte_size() -> (r: usize)
        ensures
            r == 24,
    {
        24
    }

    pub fn read_from_big_endian(data: &[u8]) -> (r: CompressedPosition)
        requires
            data@.len() >= 24,
        ensures
            r.occupied.data == be_u64(data@.subrange(0, 8)),
            r.packed_state@ == data@.subrange(8, 24),
    {
        let occupied = Bitboard::new(
            ((data[0] as u64) << 56) | ((data[1] as u64) << 48) | ((data[2] as u64) << 40) | ((
            data[3] as u64) << 32) | ((data[4] as u64) << 24) | ((data[5] as u64) << 16) | ((
            data[6] as u64) << 8) | (data[7] as u64),
        );
        let mut packed_state: [u8; 16] = [0u8;16];
        let mut i: usize = 0;
        while i < 16
            invariant
                i <= 16,
                data@.len() >= 24,
                forall|j: int| 0 <= j < i ==> packed_state[j] == data@[8 + j],
            decreases 16 - i,
        {
            packed_state[i] = data[8 + i];
            i += 1;
        }
        assert(packed_state@ =~= data@.subrange(8, 24));
        CompressedPosition { occupied, packed_state }
    }

    pub fn write_to_big_endian(&self, data: &mut [u8; 24])
        ensures
            forall|i: int| 0 <= i < 8 ==> final(data)[i] == be_byte(self.occupied.data, i),
            final(data)@.subrange(8, 24) == self.packed_state@,
            be_u64(final(data)@.subrange(0, 8)) == self.occupied.data,
    {
        let occupied: u64 = self.occupied.bits();
        proof {
            lemma_be_bytes(occupied);
        }
        data[0] = (occupied >> 56) as u8;
        data[1] = ((occupied >> 48) & 0xFF) as u8;
        data[2] = ((occupied >> 40) & 0xFF) as u8;
        data[3] = ((occupied >> 32) & 0xFF) as u8;
        data[4] = ((occupied >> 24) & 0xFF) as u8;
        data[5] = ((occupied >> 16) & 0xFF) as u8;
        data[6] = ((occupied >> 8) & 0xFF) as u8;
        data[7] = (occupied & 0xFF) as u8;
        let mut i: usize = 0;
        while i < 16
            invariant
                i <= 16,
                data[0] == ((occupied >> 56) & 0xFF) as u8,
                data[1] == ((occupied >> 48) & 0xFF) as u8,
                data[2] == ((occupied >> 40) & 0xFF) as u8,
                data[3] == ((occupied >> 32) & 0xFF) as u8,
                data[4] == ((occupied >> 24) & 0xFF) as u8,
                data[5] == ((occupied >> 16) & 0xFF) as u8,
                data[6] == ((occupied >> 8) & 0xFF) as u8,
                data[7] == (occupied & 0xFF) as u8,
                forall|j: int| 0 <= j < i ==> data[8 + j] == self.packed_state[j],
            decreases 16 - i,
        {
            data[8 + i] = self.packed_state[i];
            i += 1;
        }
        assert(data@.subrange(8, 24) =~= self.packed_state@);
    }

    pub fn decompress(&self) -> (r: Position)
        ensures
            r == self.spec_decompress(),
            r.wf(),
    {
        let mut pos = Position::empty();
        let mut occ: u64 = self.occupied.bits();
        let mut k: usize = 0;
        proof {
            assert forall|s: int| 0 <= s < 64 implies #[trigger] pos.pieces[s]
                == Piece::spec_none() by {}
        }
        while occ != 0 && k < 32
            invariant
                k <= 32,
                pos.wf(),
                forall|s: int|
                    0 <= s < 64 && bit64(occ, s as u64) ==> #[trigger] pos.pieces[s]
                        == Piece::spec_none(),
                decompress_from(occ, self.packed_state@, k as nat, pos) == self.spec_decompress(),
            decreases occ,
        {
            proof {
                lemma_lsb(occ);
            }
            let sq = Square::new(occ.trailing_zeros());
            occ = occ & (occ - 1);
            let byte: u8 = self.packed_state[k / 2];
            proof {
                lemma_nibble_bits(byte, 0);
            }
            let code: u8 = if k % 2 == 0 {
                byte & 0xF
            } else {
                byte >> 4
            };
            decompress_piece(&mut pos, sq, code);
            k += 1;
        }
        pos
    }

    pub fn compress(pos: &Position) -> (r: CompressedPosition)
        requires
            pos.table_ok(),
        ensures
            (r.occupied.data, r.packed_state@) == CompressedPosition::spec_compress(*pos),
    {
        let mut compressed = CompressedPosition { occupied: pos.occupied(), packed_state: [0u8;16] };
        assert(compressed.packed_state@ =~= Seq::new(16, |i: int| 0u8));
        let mut occ: u64 = compressed.occupied.bits();
        let mut k: usize = 0;
        while occ != 0 && k < 32
            invariant
                k <= 32,
                pos.table_ok(),
                compressed.occupied.data == pos.spec_occupied(),
                forall|j: int| (k + 1) / 2 <= j < 16 ==> compressed.packed_state[j] == 0,
                k % 2 == 1 ==> compressed.packed_state[k as int / 2] <= 15,
                compress_from(*pos, occ, k as nat, compressed.packed_state@) == compress_from(
                    *pos,
                    pos.spec_occupied(),
                    0,
                    Seq::new(16, |i: int| 0u8),
                ),
            decreases occ,
        {
            proof {
                lemma_lsb(occ);
            }
            let sq = Square::new(occ.trailing_zeros());
            occ = occ & (occ - 1);
            let code: u8 = pack_piece(pos, sq);
            let ghost before = compressed.packed_state@;
            if k % 2 == 0 {
                compressed.packed_state[k / 2] = code;
            } else {
                let low: u8 = compressed.packed_state[k / 2];
                proof {
                    lemma_nibble_bits(low, code);
                }
                compressed.packed_state[k / 2] = low | (code << 4);
            }
            assert(compressed.packed_state@ =~= with_nibble(before, k as int, code));
            k += 1;
        }
        compressed
    }
}

/// Puts the piece of one code on the board.
fn decompress_piece(pos: &mut Position, sq: Square, code: u8)
    requires
        sq.on_board(),
        code <= 15,
        old(pos).wf(),
        old(pos).pieces[sq.index as int] == Piece::spec_none(),
    ensures
        *final(pos) == place_code(*old(pos), sq.index, code),
        final(pos).wf(),
        forall|s: int|
            0 <= s < 64 && s != sq.index ==> #[trigger] final(pos).pieces[s] == old(pos).pieces[s],
{
    let ghost start = *pos;
    if code < 12 {
        pos.place(Piece::from_id(code as i32), sq);
    } else if code == 12 {
        if sq.rank().index == 3 {
            pos.place(Piece::from_id(WHITE_PAWN as i32), sq);
            pos.set_ep_square_unchecked(Square { index: sq.index() - 8 });
        } else {
            pos.place(Piece::from_id(BLACK_PAWN as i32), sq);
            pos.set_ep_square_unchecked(Square { index: sq.index() + 8 });
        }
    } else if code == 13 {
        pos.place(Piece::from_id(WHITE_ROOK as i32), sq);
        if sq.index() == A1 {
            pos.add_castling_rights(CastlingRights::new(WHITE_QUEEN_SIDE));
        } else {
            pos.add_castling_rights(CastlingRights::new(WHITE_KING_SIDE));
        }
    } else if code == 14 {
        pos.place(Piece::from_id(BLACK_ROOK as i32), sq);
        if sq.index() == A8 {
            pos.add_castling_rights(CastlingRights::new(BLACK_QUEEN_SIDE));
        } else {
            pos.add_castling_rights(CastlingRights::new(BLACK_KING_SIDE));
        }
    } else {
        pos.place(Piece::from_id(BLACK_KING as i32), sq);
        pos.set_side_to_move(Color::Black);
    }
    proof {
        let pc = piece_of_code(code, sq.index);
        lemma_place_wf(start, pc.spec_color(), pc, sq.index);
        lemma_wf_same_board(start.spec_place_piece(pc.spec_color(), pc, sq.index), *pos);
    }
}

/// The code of the piece on one square.
fn pack_piece(pos: &Position, sq: Square) -> (code: u8)
    requires
        sq.on_board(),
        pos.table_ok(),
    ensures
        code == code_of(*pos, sq.index),
        code <= 15,
{
    let piece = pos.piece_at(sq);
    let piece_id: u8 = piece.id();
    assert(pos.pieces[sq.index as int].wf());

    // Special case: pawn with en passant
    if piece.piece_type() == PieceType::Pawn {
        let ep_sq = pos.ep_square();
        if ep_sq.index() != 64 && ((piece.color() == Color::White && sq.rank().index == 3
            && ep_sq.index() == sq.index() - 8) || (piece.color() == Color::Black
            && sq.rank().index == 4 && ep_sq.index() == sq.index() + 8)) {
            return 12;
        }
    }
    // Special case: rooks with castling rights

    let rights = pos.castling_rights();
    if piece_id == WHITE_ROOK && ((sq.index() == A1 && rights.contains(
        CastlingRights::new(WHITE_QUEEN_SIDE),
    )) || (sq.index() == H1 && rights.contains(CastlingRights::new(WHITE_KING_SIDE)))) {
        return 13;
    }
    if piece_id == BLACK_ROOK && ((sq.index() == A8 && rights.contains(
        CastlingRights::new(BLACK_QUEEN_SIDE),
    )) || (sq.index() == H8 && rights.contains(CastlingRights::new(BLACK_KING_SIDE)))) {
        return 14;
    }
    // Special case: black king when black to move

    if piece_id == BLACK_KING && pos.side_to_move() == Color::Black {
        return 15;
    }
    piece_id
}

impl PartialEq for CompressedPosition {
    fn eq(&self, other: &CompressedPosition) -> (r: bool) {
        let mut i: usize = 0;
        while i < 16
            invariant
                i <= 16,
                forall|j: int| 0 <= j < i ==> self.packed_state[j] == other.packed_state[j],
            decreases 16 - i,
        {
            if self.packed_state[i] != other.packed_state[i] {
                return false;
            }
            i += 1;
        }
        assert(self.packed_state =~= other.packed_state);
        self.occupied == other.occupied
    }
}

impl PartialEqSpecImpl for CompressedPosition {
    open spec fn obeys_eq_spec() -> bool {
        true
    }

    open spec fn eq_spec(&self, other: &CompressedPosition) -> bool {
        *self == *other
    }
}

} // verus!
