//! Attack sets of the pieces, and the generation of pseudo-legal moves.

use vstd::prelude::*;
use arrayvec::ArrayVec;
use crate::chess::bitboard::Bitboard;
use crate::chess::bits::{clear_lsb, lemma_lsb, lsb_index};
use crate::chess::castling_rights::{
    CastlingRights, BLACK_KING_SIDE, BLACK_QUEEN_SIDE, WHITE_KING_SIDE, WHITE_QUEEN_SIDE,
};
use crate::chess::chess_move::{Move, MoveType};
use crate::chess::color::Color;
use crate::chess::coords::{Square, A1, A8, B1, C1, D1, F1, G1, H1, H8};
use crate::chess::piece::Piece;
use crate::chess::position::Position;
use crate::chess::hyperbola::{
    antidiagonal_mask_of, bishop_attack_set, diagonal_mask_of, horizontal_attack_set, line_attack,
    lemma_rank_index, rank_attack_from_table, rook_attack_set, vertical_mask_of,
};
use crate::chess::piecetype::PieceType;

verus! {

pub const NOT_FILE_A: u64 = 0xFEFEFEFEFEFEFEFE;

pub const NOT_FILE_AB: u64 = 0xFCFCFCFCFCFCFCFC;

pub const NOT_FILE_H: u64 = 0x7F7F7F7F7F7F7F7F;

pub const NOT_FILE_GH: u64 = 0x3F3F3F3F3F3F3F3F;

/// The squares that a white pawn on square `sq` attacks: one rank up, one
/// file to either side.
pub open spec fn white_pawn_attacks(sq: u64) -> u64 {
    let b = 1u64 << sq;
    ((b << 9) & NOT_FILE_A) | ((b << 7) & NOT_FILE_H)
}

/// The squares that a black pawn on square `sq` attacks: one rank down, one
/// file to either side.
pub open spec fn black_pawn_attacks(sq: u64) -> u64 {
    let b = 1u64 << sq;
    ((b >> 9) & NOT_FILE_H) | ((b >> 7) & NOT_FILE_A)
}

/// The squares that a pawn of `color` on square `sq` attacks.
pub open spec fn pawn_attacks(color: Color, sq: u32) -> u64 {
    match color {
        Color::White => white_pawn_attacks(sq as u64),
        Color::Black => black_pawn_attacks(sq as u64),
    }
}

/// The squares a knight's move away from square `sq`.
pub open spec fn knight_attacks(sq: u64) -> u64 {
    let b = 1u64 << sq;
    ((b << 17) & NOT_FILE_A) | ((b << 10) & NOT_FILE_AB) | ((b >> 6) & NOT_FILE_AB) | ((b >> 15)
        & NOT_FILE_A) | ((b << 15) & NOT_FILE_H) | ((b << 6) & NOT_FILE_GH) | ((b >> 10)
        & NOT_FILE_GH) | ((b >> 17) & NOT_FILE_H)
}

/// The squares next to square `sq`.
pub open spec fn king_attacks(sq: u64) -> u64 {
    let b = 1u64 << sq;
    (b << 8) | (b >> 8) | (((b << 1) | (b << 9) | (b >> 7)) & NOT_FILE_A) | (((b >> 1) | (b >> 9)
        | (b << 7)) & NOT_FILE_H)
}

/// The squares that a queen on `sq` attacks when `pieces` are on the board.
pub open spec fn queen_attack_set(pieces: u64, sq: u32) -> u64 {
    bishop_attack_set(pieces, sq) | rook_attack_set(pieces, sq)
}

/// The squares that a piece of kind `pt` on `sq` attacks when `pieces` are
/// on the board. Pawns are not covered: their attacks depend on the side.
pub open spec fn piece_attack_set(pt: PieceType, sq: u32, pieces: u64) -> u64 {
    match pt {
        PieceType::Knight => knight_attacks(sq as u64),
        PieceType::Bishop => bishop_attack_set(pieces, sq),
        PieceType::Rook => rook_attack_set(pieces, sq),
        PieceType::Queen => queen_attack_set(pieces, sq),
        PieceType::King => king_attacks(sq as u64),
        _ => 0,
    }
}

pub const WHITE_PAWN_ATTACKS: [u64; 64] = [
    0x0000000000000200, 0x0000000000000500, 0x0000000000000A00, 0x0000000000001400,
    0x0000000000002800, 0x0000000000005000, 0x000000000000A000, 0x0000000000004000,
    0x0000000000020000, 0x0000000000050000, 0x00000000000A0000, 0x0000000000140000,
    0x0000000000280000, 0x0000000000500000, 0x0000000000A00000, 0x0000000000400000,
    0x0000000002000000, 0x0000000005000000, 0x000000000A000000, 0x0000000014000000,
    0x0000000028000000, 0x0000000050000000, 0x00000000A0000000, 0x0000000040000000,
    0x0000000200000000, 0x0000000500000000, 0x0000000A00000000, 0x0000001400000000,
    0x0000002800000000, 0x0000005000000000, 0x000000A000000000, 0x0000004000000000,
    0x0000020000000000, 0x0000050000000000, 0x00000A0000000000, 0x0000140000000000,
    0x0000280000000000, 0x0000500000000000, 0x0000A00000000000, 0x0000400000000000,
    0x0002000000000000, 0x0005000000000000, 0x000A000000000000, 0x0014000000000000,
    0x0028000000000000, 0x0050000000000000, 0x00A0000000000000, 0x0040000000000000,
    0x0200000000000000, 0x0500000000000000, 0x0A00000000000000, 0x1400000000000000,
    0x2800000000000000, 0x5000000000000000, 0xA000000000000000, 0x4000000000000000,
    0x0000000000000000, 0x0000000000000000, 0x0000000000000000, 0x0000000000000000,
    0x0000000000000000, 0x0000000000000000, 0x0000000000000000, 0x0000000000000000,
];

pub const BLACK_PAWN_ATTACKS: [u64; 64] = [
    0x0000000000000000, 0x0000000000000000, 0x0000000000000000, 0x0000000000000000,
    0x0000000000000000, 0x0000000000000000, 0x0000000000000000, 0x0000000000000000,
    0x0000000000000002, 0x0000000000000005, 0x000000000000000A, 0x0000000000000014,
    0x0000000000000028, 0x0000000000000050, 0x00000000000000A0, 0x0000000000000040,
    0x0000000000000200, 0x0000000000000500, 0x0000000000000A00, 0x0000000000001400,
    0x0000000000002800, 0x0000000000005000, 0x000000000000A000, 0x0000000000004000,
    0x0000000000020000, 0x0000000000050000, 0x00000000000A0000, 0x0000000000140000,
    0x0000000000280000, 0x0000000000500000, 0x0000000000A00000, 0x0000000000400000,
    0x0000000002000000, 0x0000000005000000, 0x000000000A000000, 0x0000000014000000,
    0x0000000028000000, 0x0000000050000000, 0x00000000A0000000, 0x0000000040000000,
    0x0000000200000000, 0x0000000500000000, 0x0000000A00000000, 0x0000001400000000,
    0x0000002800000000, 0x0000005000000000, 0x000000A000000000, 0x0000004000000000,
    0x0000020000000000, 0x0000050000000000, 0x00000A0000000000, 0x0000140000000000,
    0x0000280000000000, 0x0000500000000000, 0x0000A00000000000, 0x0000400000000000,
    0x0002000000000000, 0x0005000000000000, 0x000A000000000000, 0x0014000000000000,
    0x0028000000000000, 0x0050000000000000, 0x00A0000000000000, 0x0040000000000000,
];

pub const KNIGHT_ATTACKS: [u64; 64] = [
    0x0000000000020400, 0x0000000000050800, 0x00000000000A1100, 0x0000000000142200,
    0x0000000000284400, 0x0000000000508800, 0x0000000000A01000, 0x0000000000402000,
    0x0000000002040004, 0x0000000005080008, 0x000000000A110011, 0x0000000014220022,
    0x0000000028440044, 0x0000000050880088, 0x00000000A0100010, 0x0000000040200020,
    0x0000000204000402, 0x0000000508000805, 0x0000000A1100110A, 0x0000001422002214,
    0x0000002844004428, 0x0000005088008850, 0x000000A0100010A0, 0x0000004020002040,
    0x0000020400040200, 0x0000050800080500, 0x00000A1100110A00, 0x0000142200221400,
    0x0000284400442800, 0x0000508800885000, 0x0000A0100010A000, 0x0000402000204000,
    0x0002040004020000, 0x0005080008050000, 0x000A1100110A0000, 0x0014220022140000,
    0x0028440044280000, 0x0050880088500000, 0x00A0100010A00000, 0x0040200020400000,
    0x0204000402000000, 0x0508000805000000, 0x0A1100110A000000, 0x1422002214000000,
    0x2844004428000000, 0x5088008850000000, 0xA0100010A0000000, 0x4020002040000000,
    0x0400040200000000, 0x0800080500000000, 0x1100110A00000000, 0x2200221400000000,
    0x4400442800000000, 0x8800885000000000, 0x100010A000000000, 0x2000204000000000,
    0x0004020000000000, 0x0008050000000000, 0x00110A0000000000, 0x0022140000000000,
    0x0044280000000000, 0x0088500000000000, 0x0010A00000000000, 0x0020400000000000,
];

pub const KING_ATTACKS: [u64; 64] = [
    0x0000000000000302, 0x0000000000000705, 0x0000000000000E0A, 0x0000000000001C14,
    0x0000000000003828, 0x0000000000007050, 0x000000000000E0A0, 0x000000000000C040,
    0x0000000000030203, 0x0000000000070507, 0x00000000000E0A0E, 0x00000000001C141C,
    0x0000000000382838, 0x0000000000705070, 0x0000000000E0A0E0, 0x0000000000C040C0,
    0x0000000003020300, 0x0000000007050700, 0x000000000E0A0E00, 0x000000001C141C00,
    0x0000000038283800, 0x0000000070507000, 0x00000000E0A0E000, 0x00000000C040C000,
    0x0000000302030000, 0x0000000705070000, 0x0000000E0A0E0000, 0x0000001C141C0000,
    0x0000003828380000, 0x0000007050700000, 0x000000E0A0E00000, 0x000000C040C00000,
    0x0000030203000000, 0x0000070507000000, 0x00000E0A0E000000, 0x00001C141C000000,
    0x0000382838000000, 0x0000705070000000, 0x0000E0A0E0000000, 0x0000C040C0000000,
    0x0003020300000000, 0x0007050700000000, 0x000E0A0E00000000, 0x001C141C00000000,
    0x0038283800000000, 0x0070507000000000, 0x00E0A0E000000000, 0x00C040C000000000,
    0x0302030000000000, 0x0705070000000000, 0x0E0A0E0000000000, 0x1C141C0000000000,
    0x3828380000000000, 0x7050700000000000, 0xE0A0E00000000000, 0xC040C00000000000,
    0x0203000000000000, 0x0507000000000000, 0x0A0E000000000000, 0x141C000000000000,
    0x2838000000000000, 0x5070000000000000, 0xA0E0000000000000, 0x40C0000000000000,
];

proof fn lemma_white_pawn_table()
    by (bit_vector)
    ensures
        white_pawn_attacks(0) == WHITE_PAWN_ATTACKS[0],
        white_pawn_attacks(1) == WHITE_PAWN_ATTACKS[1],
        white_pawn_attacks(2) == WHITE_PAWN_ATTACKS[2],
        white_pawn_attacks(3) == WHITE_PAWN_ATTACKS[3],
        white_pawn_attacks(4) == WHITE_PAWN_ATTACKS[4],
        white_pawn_attacks(5) == WHITE_PAWN_ATTACKS[5],
        white_pawn_attacks(6) == WHITE_PAWN_ATTACKS[6],
        white_pawn_attacks(7) == WHITE_PAWN_ATTACKS[7],
        white_pawn_attacks(8) == WHITE_PAWN_ATTACKS[8],
        white_pawn_attacks(9) == WHITE_PAWN_ATTACKS[9],
        white_pawn_attacks(10) == WHITE_PAWN_ATTACKS[10],
        white_pawn_attacks(11) == WHITE_PAWN_ATTACKS[11],
        white_pawn_attacks(12) == WHITE_PAWN_ATTACKS[12],
        white_pawn_attacks(13) == WHITE_PAWN_ATTACKS[13],
        white_pawn_attacks(14) == WHITE_PAWN_ATTACKS[14],
        white_pawn_attacks(15) == WHITE_PAWN_ATTACKS[15],
        white_pawn_attacks(16) == WHITE_PAWN_ATTACKS[16],
        white_pawn_attacks(17) == WHITE_PAWN_ATTACKS[17],
        white_pawn_attacks(18) == WHITE_PAWN_ATTACKS[18],
        white_pawn_attacks(19) == WHITE_PAWN_ATTACKS[19],
        white_pawn_attacks(20) == WHITE_PAWN_ATTACKS[20],
        white_pawn_attacks(21) == WHITE_PAWN_ATTACKS[21],
        white_pawn_attacks(22) == WHITE_PAWN_ATTACKS[22],
        white_pawn_attacks(23) == WHITE_PAWN_ATTACKS[23],
        white_pawn_attacks(24) == WHITE_PAWN_ATTACKS[24],
        white_pawn_attacks(25) == WHITE_PAWN_ATTACKS[25],
        white_pawn_attacks(26) == WHITE_PAWN_ATTACKS[26],
        white_pawn_attacks(27) == WHITE_PAWN_ATTACKS[27],
        white_pawn_attacks(28) == WHITE_PAWN_ATTACKS[28],
        white_pawn_attacks(29) == WHITE_PAWN_ATTACKS[29],
        white_pawn_attacks(30) == WHITE_PAWN_ATTACKS[30],
        white_pawn_attacks(31) == WHITE_PAWN_ATTACKS[31],
        white_pawn_attacks(32) == WHITE_PAWN_ATTACKS[32],
        white_pawn_attacks(33) == WHITE_PAWN_ATTACKS[33],
        white_pawn_attacks(34) == WHITE_PAWN_ATTACKS[34],
        white_pawn_attacks(35) == WHITE_PAWN_ATTACKS[35],
        white_pawn_attacks(36) == WHITE_PAWN_ATTACKS[36],
        white_pawn_attacks(37) == WHITE_PAWN_ATTACKS[37],
        white_pawn_attacks(38) == WHITE_PAWN_ATTACKS[38],
        white_pawn_attacks(39) == WHITE_PAWN_ATTACKS[39],
        white_pawn_attacks(40) == WHITE_PAWN_ATTACKS[40],
        white_pawn_attacks(41) == WHITE_PAWN_ATTACKS[41],
        white_pawn_attacks(42) == WHITE_PAWN_ATTACKS[42],
        white_pawn_attacks(43) == WHITE_PAWN_ATTACKS[43],
        white_pawn_attacks(44) == WHITE_PAWN_ATTACKS[44],
        white_pawn_attacks(45) == WHITE_PAWN_ATTACKS[45],
        white_pawn_attacks(46) == WHITE_PAWN_ATTACKS[46],
        white_pawn_attacks(47) == WHITE_PAWN_ATTACKS[47],
        white_pawn_attacks(48) == WHITE_PAWN_ATTACKS[48],
        white_pawn_attacks(49) == WHITE_PAWN_ATTACKS[49],
        white_pawn_attacks(50) == WHITE_PAWN_ATTACKS[50],
        white_pawn_attacks(51) == WHITE_PAWN_ATTACKS[51],
        white_pawn_attacks(52) == WHITE_PAWN_ATTACKS[52],
        white_pawn_attacks(53) == WHITE_PAWN_ATTACKS[53],
        white_pawn_attacks(54) == WHITE_PAWN_ATTACKS[54],
        white_pawn_attacks(55) == WHITE_PAWN_ATTACKS[55],
        white_pawn_attacks(56) == WHITE_PAWN_ATTACKS[56],
        white_pawn_attacks(57) == WHITE_PAWN_ATTACKS[57],
        white_pawn_attacks(58) == WHITE_PAWN_ATTACKS[58],
        white_pawn_attacks(59) == WHITE_PAWN_ATTACKS[59],
        white_pawn_attacks(60) == WHITE_PAWN_ATTACKS[60],
        white_pawn_attacks(61) == WHITE_PAWN_ATTACKS[61],
        white_pawn_attacks(62) == WHITE_PAWN_ATTACKS[62],
        white_pawn_attacks(63) == WHITE_PAWN_ATTACKS[63],
{
}

proof fn lemma_black_pawn_table()
    by (bit_vector)
    ensures
        black_pawn_attacks(0) == BLACK_PAWN_ATTACKS[0],
        black_pawn_attacks(1) == BLACK_PAWN_ATTACKS[1],
        black_pawn_attacks(2) == BLACK_PAWN_ATTACKS[2],
        black_pawn_attacks(3) == BLACK_PAWN_ATTACKS[3],
        black_pawn_attacks(4) == BLACK_PAWN_ATTACKS[4],
        black_pawn_attacks(5) == BLACK_PAWN_ATTACKS[5],
        black_pawn_attacks(6) == BLACK_PAWN_ATTACKS[6],
        black_pawn_attacks(7) == BLACK_PAWN_ATTACKS[7],
        black_pawn_attacks(8) == BLACK_PAWN_ATTACKS[8],
        black_pawn_attacks(9) == BLACK_PAWN_ATTACKS[9],
        black_pawn_attacks(10) == BLACK_PAWN_ATTACKS[10],
        black_pawn_attacks(11) == BLACK_PAWN_ATTACKS[11],
        black_pawn_attacks(12) == BLACK_PAWN_ATTACKS[12],
        black_pawn_attacks(13) == BLACK_PAWN_ATTACKS[13],
        black_pawn_attacks(14) == BLACK_PAWN_ATTACKS[14],
        black_pawn_attacks(15) == BLACK_PAWN_ATTACKS[15],
        black_pawn_attacks(16) == BLACK_PAWN_ATTACKS[16],
        black_pawn_attacks(17) == BLACK_PAWN_ATTACKS[17],
        black_pawn_attacks(18) == BLACK_PAWN_ATTACKS[18],
        black_pawn_attacks(19) == BLACK_PAWN_ATTACKS[19],
        black_pawn_attacks(20) == BLACK_PAWN_ATTACKS[20],
        black_pawn_attacks(21) == BLACK_PAWN_ATTACKS[21],
        black_pawn_attacks(22) == BLACK_PAWN_ATTACKS[22],
        black_pawn_attacks(23) == BLACK_PAWN_ATTACKS[23],
        black_pawn_attacks(24) == BLACK_PAWN_ATTACKS[24],
        black_pawn_attacks(25) == BLACK_PAWN_ATTACKS[25],
        black_pawn_attacks(26) == BLACK_PAWN_ATTACKS[26],
        black_pawn_attacks(27) == BLACK_PAWN_ATTACKS[27],
        black_pawn_attacks(28) == BLACK_PAWN_ATTACKS[28],
        black_pawn_attacks(29) == BLACK_PAWN_ATTACKS[29],
        black_pawn_attacks(30) == BLACK_PAWN_ATTACKS[30],
        black_pawn_attacks(31) == BLACK_PAWN_ATTACKS[31],
        black_pawn_attacks(32) == BLACK_PAWN_ATTACKS[32],
        black_pawn_attacks(33) == BLACK_PAWN_ATTACKS[33],
        black_pawn_attacks(34) == BLACK_PAWN_ATTACKS[34],
        black_pawn_attacks(35) == BLACK_PAWN_ATTACKS[35],
        black_pawn_attacks(36) == BLACK_PAWN_ATTACKS[36],
        black_pawn_attacks(37) == BLACK_PAWN_ATTACKS[37],
        black_pawn_attacks(38) == BLACK_PAWN_ATTACKS[38],
        black_pawn_attacks(39) == BLACK_PAWN_ATTACKS[39],
        black_pawn_attacks(40) == BLACK_PAWN_ATTACKS[40],
        black_pawn_attacks(41) == BLACK_PAWN_ATTACKS[41],
        black_pawn_attacks(42) == BLACK_PAWN_ATTACKS[42],
        black_pawn_attacks(43) == BLACK_PAWN_ATTACKS[43],
        black_pawn_attacks(44) == BLACK_PAWN_ATTACKS[44],
        black_pawn_attacks(45) == BLACK_PAWN_ATTACKS[45],
        black_pawn_attacks(46) == BLACK_PAWN_ATTACKS[46],
        black_pawn_attacks(47) == BLACK_PAWN_ATTACKS[47],
        black_pawn_attacks(48) == BLACK_PAWN_ATTACKS[48],
        black_pawn_attacks(49) == BLACK_PAWN_ATTACKS[49],
        black_pawn_attacks(50) == BLACK_PAWN_ATTACKS[50],
        black_pawn_attacks(51) == BLACK_PAWN_ATTACKS[51],
        black_pawn_attacks(52) == BLACK_PAWN_ATTACKS[52],
        black_pawn_attacks(53) == BLACK_PAWN_ATTACKS[53],
        black_pawn_attacks(54) == BLACK_PAWN_ATTACKS[54],
        black_pawn_attacks(55) == BLACK_PAWN_ATTACKS[55],
        black_pawn_attacks(56) == BLACK_PAWN_ATTACKS[56],
        black_pawn_attacks(57) == BLACK_PAWN_ATTACKS[57],
        black_pawn_attacks(58) == BLACK_PAWN_ATTACKS[58],
        black_pawn_attacks(59) == BLACK_PAWN_ATTACKS[59],
        black_pawn_attacks(60) == BLACK_PAWN_ATTACKS[60],
        black_pawn_attacks(61) == BLACK_PAWN_ATTACKS[61],
        black_pawn_attacks(62) == BLACK_PAWN_ATTACKS[62],
        black_pawn_attacks(63) == BLACK_PAWN_ATTACKS[63],
{
}

proof fn lemma_knight_table()
    by (bit_vector)
    ensures
        knight_attacks(0) == KNIGHT_ATTACKS[0],
        knight_attacks(1) == KNIGHT_ATTACKS[1],
        knight_attacks(2) == KNIGHT_ATTACKS[2],
        knight_attacks(3) == KNIGHT_ATTACKS[3],
        knight_attacks(4) == KNIGHT_ATTACKS[4],
        knight_attacks(5) == KNIGHT_ATTACKS[5],
        knight_attacks(6) == KNIGHT_ATTACKS[6],
        knight_attacks(7) == KNIGHT_ATTACKS[7],
        knight_attacks(8) == KNIGHT_ATTACKS[8],
        knight_attacks(9) == KNIGHT_ATTACKS[9],
        knight_attacks(10) == KNIGHT_ATTACKS[10],
        knight_attacks(11) == KNIGHT_ATTACKS[11],
        knight_attacks(12) == KNIGHT_ATTACKS[12],
        knight_attacks(13) == KNIGHT_ATTACKS[13],
        knight_attacks(14) == KNIGHT_ATTACKS[14],
        knight_attacks(15) == KNIGHT_ATTACKS[15],
        knight_attacks(16) == KNIGHT_ATTACKS[16],
        knight_attacks(17) == KNIGHT_ATTACKS[17],
        knight_attacks(18) == KNIGHT_ATTACKS[18],
        knight_attacks(19) == KNIGHT_ATTACKS[19],
        knight_attacks(20) == KNIGHT_ATTACKS[20],
        knight_attacks(21) == KNIGHT_ATTACKS[21],
        knight_attacks(22) == KNIGHT_ATTACKS[22],
        knight_attacks(23) == KNIGHT_ATTACKS[23],
        knight_attacks(24) == KNIGHT_ATTACKS[24],
        knight_attacks(25) == KNIGHT_ATTACKS[25],
        knight_attacks(26) == KNIGHT_ATTACKS[26],
        knight_attacks(27) == KNIGHT_ATTACKS[27],
        knight_attacks(28) == KNIGHT_ATTACKS[28],
        knight_attacks(29) == KNIGHT_ATTACKS[29],
        knight_attacks(30) == KNIGHT_ATTACKS[30],
        knight_attacks(31) == KNIGHT_ATTACKS[31],
        knight_attacks(32) == KNIGHT_ATTACKS[32],
        knight_attacks(33) == KNIGHT_ATTACKS[33],
        knight_attacks(34) == KNIGHT_ATTACKS[34],
        knight_attacks(35) == KNIGHT_ATTACKS[35],
        knight_attacks(36) == KNIGHT_ATTACKS[36],
        knight_attacks(37) == KNIGHT_ATTACKS[37],
        knight_attacks(38) == KNIGHT_ATTACKS[38],
        knight_attacks(39) == KNIGHT_ATTACKS[39],
        knight_attacks(40) == KNIGHT_ATTACKS[40],
        knight_attacks(41) == KNIGHT_ATTACKS[41],
        knight_attacks(42) == KNIGHT_ATTACKS[42],
        knight_attacks(43) == KNIGHT_ATTACKS[43],
        knight_attacks(44) == KNIGHT_ATTACKS[44],
        knight_attacks(45) == KNIGHT_ATTACKS[45],
        knight_attacks(46) == KNIGHT_ATTACKS[46],
        knight_attacks(47) == KNIGHT_ATTACKS[47],
        knight_attacks(48) == KNIGHT_ATTACKS[48],
        knight_attacks(49) == KNIGHT_ATTACKS[49],
        knight_attacks(50) == KNIGHT_ATTACKS[50],
        knight_attacks(51) == KNIGHT_ATTACKS[51],
        knight_attacks(52) == KNIGHT_ATTACKS[52],
        knight_attacks(53) == KNIGHT_ATTACKS[53],
        knight_attacks(54) == KNIGHT_ATTACKS[54],
        knight_attacks(55) == KNIGHT_ATTACKS[55],
        knight_attacks(56) == KNIGHT_ATTACKS[56],
        knight_attacks(57) == KNIGHT_ATTACKS[57],
        knight_attacks(58) == KNIGHT_ATTACKS[58],
        knight_attacks(59) == KNIGHT_ATTACKS[59],
        knight_attacks(60) == KNIGHT_ATTACKS[60],
        knight_attacks(61) == KNIGHT_ATTACKS[61],
        knight_attacks(62) == KNIGHT_ATTACKS[62],
        knight_attacks(63) == KNIGHT_ATTACKS[63],
{
}

proof fn lemma_king_table()
    by (bit_vector)
    ensures
        king_attacks(0) == KING_ATTACKS[0],
        king_attacks(1) == KING_ATTACKS[1],
        king_attacks(2) == KING_ATTACKS[2],
        king_attacks(3) == KING_ATTACKS[3],
        king_attacks(4) == KING_ATTACKS[4],
        king_attacks(5) == KING_ATTACKS[5],
        king_attacks(6) == KING_ATTACKS[6],
        king_attacks(7) == KING_ATTACKS[7],
        king_attacks(8) == KING_ATTACKS[8],
        king_attacks(9) == KING_ATTACKS[9],
        king_attacks(10) == KING_ATTACKS[10],
        king_attacks(11) == KING_ATTACKS[11],
        king_attacks(12) == KING_ATTACKS[12],
        king_attacks(13) == KING_ATTACKS[13],
        king_attacks(14) == KING_ATTACKS[14],
        king_attacks(15) == KING_ATTACKS[15],
        king_attacks(16) == KING_ATTACKS[16],
        king_attacks(17) == KING_ATTACKS[17],
        king_attacks(18) == KING_ATTACKS[18],
        king_attacks(19) == KING_ATTACKS[19],
        king_attacks(20) == KING_ATTACKS[20],
        king_attacks(21) == KING_ATTACKS[21],
        king_attacks(22) == KING_ATTACKS[22],
        king_attacks(23) == KING_ATTACKS[23],
        king_attacks(24) == KING_ATTACKS[24],
        king_attacks(25) == KING_ATTACKS[25],
        king_attacks(26) == KING_ATTACKS[26],
        king_attacks(27) == KING_ATTACKS[27],
        king_attacks(28) == KING_ATTACKS[28],
        king_attacks(29) == KING_ATTACKS[29],
        king_attacks(30) == KING_ATTACKS[30],
        king_attacks(31) == KING_ATTACKS[31],
        king_attacks(32) == KING_ATTACKS[32],
        king_attacks(33) == KING_ATTACKS[33],
        king_attacks(34) == KING_ATTACKS[34],
        king_attacks(35) == KING_ATTACKS[35],
        king_attacks(36) == KING_ATTACKS[36],
        king_attacks(37) == KING_ATTACKS[37],
        king_attacks(38) == KING_ATTACKS[38],
        king_attacks(39) == KING_ATTACKS[39],
        king_attacks(40) == KING_ATTACKS[40],
        king_attacks(41) == KING_ATTACKS[41],
        king_attacks(42) == KING_ATTACKS[42],
        king_attacks(43) == KING_ATTACKS[43],
        king_attacks(44) == KING_ATTACKS[44],
        king_attacks(45) == KING_ATTACKS[45],
        king_attacks(46) == KING_ATTACKS[46],
        king_attacks(47) == KING_ATTACKS[47],
        king_attacks(48) == KING_ATTACKS[48],
        king_attacks(49) == KING_ATTACKS[49],
        king_attacks(50) == KING_ATTACKS[50],
        king_attacks(51) == KING_ATTACKS[51],
        king_attacks(52) == KING_ATTACKS[52],
        king_attacks(53) == KING_ATTACKS[53],
        king_attacks(54) == KING_ATTACKS[54],
        king_attacks(55) == KING_ATTACKS[55],
        king_attacks(56) == KING_ATTACKS[56],
        king_attacks(57) == KING_ATTACKS[57],
        king_attacks(58) == KING_ATTACKS[58],
        king_attacks(59) == KING_ATTACKS[59],
        king_attacks(60) == KING_ATTACKS[60],
        king_attacks(61) == KING_ATTACKS[61],
        king_attacks(62) == KING_ATTACKS[62],
        king_attacks(63) == KING_ATTACKS[63],
{
}

/// A list of at most 256 moves: `arrayvec::ArrayVec`.
#[verifier::external_type_specification]
#[verifier::external_body]
#[verifier::reject_recursive_types(T)]
pub struct ExArrayVec<T, const CAP: usize>(ArrayVec<T, CAP>);

/// The moves that a list holds, in their order.
pub uninterp spec fn moves_of(list: ArrayVec<Move, 256>) -> Seq<Move>;

/// `ArrayVec::new` creates a new empty list.
#[verifier::external_body]
fn new_move_list() -> (list: ArrayVec<Move, 256>)
    ensures
        moves_of(list) == Seq::<Move>::empty(),
{
    ArrayVec::new()
}

/// `ArrayVec::push` puts the move at the end of the list. It panics if
/// the list is already full, so the list must hold fewer than 256 moves.
#[verifier::external_body]
fn push_move(list: &mut ArrayVec<Move, 256>, mv: Move)
    requires
        moves_of(*old(list)).len() < 256,
    ensures
        moves_of(*final(list)) == moves_of(*old(list)).push(mv),
{
    list.push(mv)
}

/// The four promotions of a pawn from `from` to `to`: to queen, rook,
/// bishop and knight, in that order.
pub open spec fn promotion_moves(from: u32, to: u32, side: Color) -> Seq<Move> {
    let mv = |pt: PieceType|
        Move {
            from: Square { index: from },
            to: Square { index: to },
            move_type: MoveType::Promotion,
            promoted_piece: Piece::spec_new(pt, side),
        };
    seq![
        mv(PieceType::Queen),
        mv(PieceType::Rook),
        mv(PieceType::Bishop),
        mv(PieceType::Knight),
    ]
}

/// The move without capture or promotion from `from` to `to`.
pub open spec fn normal_move(from: u32, to: u32) -> Move {
    Move {
        from: Square { index: from },
        to: Square { index: to },
        move_type: MoveType::Normal,
        promoted_piece: Piece::spec_none(),
    }
}

/// Whether square `sq` is on the rank on which the pawns of `side` promote.
pub open spec fn on_promotion_rank(side: Color, sq: int) -> bool {
    match side {
        Color::White => 56 <= sq < 64,
        Color::Black => 0 <= sq < 8,
    }
}

/// The square `steps` ranks ahead of `sq`, as `side` sees it.
pub open spec fn ahead(side: Color, sq: int, steps: int) -> int {
    match side {
        Color::White => sq + 8 * steps,
        Color::Black => sq - 8 * steps,
    }
}

/// The pushes of the pawn of `side` on `from`: one step if the square
/// ahead is empty, as four promotions if it is on the last rank; and
/// two steps from the pawn's start rank if that square is empty too.
pub open spec fn pawn_push_moves(pos: Position, side: Color, from: u32) -> Seq<Move> {
    let one = ahead(side, from as int, 1);
    let two = ahead(side, from as int, 2);
    let start_rank: int = match side {
        Color::White => 1,
        Color::Black => 6,
    };
    if !(0 <= one < 64) || pos.pieces[one] != Piece::spec_none() {
        Seq::empty()
    } else if on_promotion_rank(side, one) {
        promotion_moves(from, one as u32, side)
    } else if from / 8 == start_rank && 0 <= two < 64 && pos.pieces[two] == Piece::spec_none() {
        seq![normal_move(from, one as u32), normal_move(from, two as u32)]
    } else {
        seq![normal_move(from, one as u32)]
    }
}

/// The moves of the pawn of `side` on `from` to one attacked square: the
/// capture in passing on the en-passant square, else the capture of a
/// piece of the other side, as four promotions on the last rank.
pub open spec fn pawn_capture_to(pos: Position, side: Color, from: u32, to: u32) -> Seq<Move> {
    let target = pos.pieces[to as int];
    if pos.enpassant != Square::spec_none() && to == pos.enpassant.index {
        seq![
            Move {
                from: Square { index: from },
                to: Square { index: to },
                move_type: MoveType::EnPassant,
                promoted_piece: Piece::spec_none(),
            },
        ]
    } else if target != Piece::spec_none() && target.spec_color() != side {
        if on_promotion_rank(side, to as int) {
            promotion_moves(from, to, side)
        } else {
            seq![normal_move(from, to)]
        }
    } else {
        Seq::empty()
    }
}

/// The captures of the pawn of `side` on `from` to the squares of
/// `attacks`, from the lowest square up.
pub open spec fn pawn_capture_moves(pos: Position, side: Color, from: u32, attacks: u64) -> Seq<
    Move,
>
    decreases attacks,
{
    if attacks == 0 {
        Seq::empty()
    } else {
        proof {
            lemma_lsb(attacks);
        }
        pawn_capture_to(pos, side, from, lsb_index(attacks)) + pawn_capture_moves(
            pos,
            side,
            from,
            clear_lsb(attacks),
        )
    }
}

/// The moves of the pawns of `side` on the squares of `pawns`, from the
/// lowest square up: for each pawn its pushes, then its captures.
pub open spec fn pawn_moves(pos: Position, side: Color, pawns: u64) -> Seq<Move>
    decreases pawns,
{
    if pawns == 0 {
        Seq::empty()
    } else {
        proof {
            lemma_lsb(pawns);
        }
        pawn_push_moves(pos, side, lsb_index(pawns)) + pawn_capture_moves(
            pos,
            side,
            lsb_index(pawns),
            pawn_attacks(side, lsb_index(pawns)),
        ) + pawn_moves(pos, side, clear_lsb(pawns))
    }
}

/// The moves from `from` to the squares of `targets` that hold no piece
/// of `side`, from the lowest square up.
pub open spec fn target_moves(pos: Position, side: Color, from: u32, targets: u64) -> Seq<Move>
    decreases targets,
{
    if targets == 0 {
        Seq::empty()
    } else {
        proof {
            lemma_lsb(targets);
        }
        let to = lsb_index(targets);
        let target = pos.pieces[to as int];
        (if target == Piece::spec_none() || target.spec_color() != side {
            seq![normal_move(from, to)]
        } else {
            Seq::empty()
        }) + target_moves(pos, side, from, clear_lsb(targets))
    }
}

/// The moves of the pieces of kind `pt` and of `side` on the squares of
/// `pieces`, from the lowest square up.
pub open spec fn piece_moves(pos: Position, side: Color, pt: PieceType, pieces: u64) -> Seq<Move>
    decreases pieces,
{
    if pieces == 0 {
        Seq::empty()
    } else {
        proof {
            lemma_lsb(pieces);
        }
        target_moves(
            pos,
            side,
            lsb_index(pieces),
            piece_attack_set(pt, lsb_index(pieces), pos.spec_occupied()),
        ) + piece_moves(pos, side, pt, clear_lsb(pieces))
    }
}

/// Whether the rook of a castling move stands on the a-file: the move
/// is then castling long.
pub open spec fn is_long(rook_sq: u32) -> bool {
    rook_sq % 8 == 0
}

/// The nearer of the two squares that the king passes when it castles
/// with the rook on `rook_sq`: on the d-file or the f-file.
pub open spec fn castle_near(rook_sq: u32) -> u32 {
    ((rook_sq / 8) * 8 + (if is_long(rook_sq) {
        3int
    } else {
        5int
    })) as u32
}

/// The farther of the two squares that the king passes: on the c-file or
/// the g-file.
pub open spec fn castle_far(rook_sq: u32) -> u32 {
    ((rook_sq / 8) * 8 + (if is_long(rook_sq) {
        2int
    } else {
        6int
    })) as u32
}

/// The castling move of `side` with the rook on `rook_sq`, if the side
/// has the right `flag`, the squares between king and rook are empty and
/// the two squares that the king passes are not attacked.
pub open spec fn castle_move(pos: Position, side: Color, flag: u8, king_sq: u32, rook_sq: u32)
    -> Seq<Move> {
    let near = castle_near(rook_sq);
    let far = castle_far(rook_sq);
    if pos.castling_rights.has(flag) && (is_long(rook_sq) ==> pos.pieces[(rook_sq + 1) as int]
        == Piece::spec_none()) && pos.pieces[near as int] == Piece::spec_none() && pos.pieces[far as int]
        == Piece::spec_none() && !pos.spec_is_attacked(near, side.flip()) && !pos.spec_is_attacked(
        far,
        side.flip(),
    ) {
        seq![
            Move {
                from: Square { index: king_sq },
                to: Square { index: rook_sq },
                move_type: MoveType::Castle,
                promoted_piece: Piece::spec_none(),
            },
        ]
    } else {
        Seq::empty()
    }
}

/// The flag of the right of `side` to castle short.
pub open spec fn short_flag(side: Color) -> u8 {
    match side {
        Color::White => WHITE_KING_SIDE,
        Color::Black => BLACK_KING_SIDE,
    }
}

/// The flag of the right of `side` to castle long.
pub open spec fn long_flag(side: Color) -> u8 {
    match side {
        Color::White => WHITE_QUEEN_SIDE,
        Color::Black => BLACK_QUEEN_SIDE,
    }
}

/// The square of the rook with which `side` castles short.
pub open spec fn short_rook(side: Color) -> u32 {
    match side {
        Color::White => H1,
        Color::Black => H8,
    }
}

/// The square of the rook with which `side` castles long.
pub open spec fn long_rook(side: Color) -> u32 {
    match side {
        Color::White => A1,
        Color::Black => A8,
    }
}

/// The castling moves of `side`: none if its king is attacked, else the
/// short one, then the long one.
pub open spec fn castling_moves(pos: Position, side: Color) -> Seq<Move> {
    let king_sq = pos.spec_king_sq(side);
    if pos.spec_is_attacked(king_sq, side.flip()) {
        Seq::empty()
    } else {
        castle_move(pos, side, short_flag(side), king_sq, short_rook(side)) + castle_move(
            pos,
            side,
            long_flag(side),
            king_sq,
            long_rook(side),
        )
    }
}

/// The pseudo-legal moves of the side to move, in the order that chains
/// rely on: pawns, knights, bishops, rooks, queens, king, castling.
pub open spec fn pseudo_legal_moves_of(pos: Position) -> Seq<Move> {
    let side = pos.stm;
    pawn_moves(pos, side, pos.spec_pieces_bb_color(side, PieceType::Pawn)) + piece_moves(
        pos,
        side,
        PieceType::Knight,
        pos.spec_pieces_bb_color(side, PieceType::Knight),
    ) + piece_moves(pos, side, PieceType::Bishop, pos.spec_pieces_bb_color(side, PieceType::Bishop))
        + piece_moves(pos, side, PieceType::Rook, pos.spec_pieces_bb_color(side, PieceType::Rook))
        + piece_moves(pos, side, PieceType::Queen, pos.spec_pieces_bb_color(side, PieceType::Queen))
        + piece_moves(pos, side, PieceType::King, pos.spec_pieces_bb_color(side, PieceType::King))
        + castling_moves(pos, side)
}

pub fn pop_lsb(bb: &mut u64) -> (r: Square)
    requires
        *old(bb) != 0,
    ensures
        r.index == lsb_index(*old(bb)),
        r.on_board(),
        *final(bb) == clear_lsb(*old(bb)),
        *final(bb) < *old(bb),
{
    proof {
        lemma_lsb(*bb);
    }
    let idx: u32 = bb.trailing_zeros();
    *bb = *bb & (*bb - 1);
    Square::new(idx)
}

/// Return every pseudo-legal move for the current position. The side to
/// move must have a king, and no more than 256 moves.
pub fn pseudo_legal_moves(pos: &Position) -> (moves: ArrayVec<Move, 256>)
    requires
        pos.has_king(pos.stm),
        pseudo_legal_moves_of(*pos).len() <= 256,
    ensures
        moves_of(moves) == pseudo_legal_moves_of(*pos),
{
    let mut moves = new_move_list();
    let side = pos.side_to_move();
    let ghost all = pseudo_legal_moves_of(*pos);
    let ghost pawns = pawn_moves(*pos, side, pos.spec_pieces_bb_color(side, PieceType::Pawn));
    let ghost knights = piece_moves(
        *pos,
        side,
        PieceType::Knight,
        pos.spec_pieces_bb_color(side, PieceType::Knight),
    );
    let ghost bishops = piece_moves(
        *pos,
        side,
        PieceType::Bishop,
        pos.spec_pieces_bb_color(side, PieceType::Bishop),
    );
    let ghost rooks = piece_moves(
        *pos,
        side,
        PieceType::Rook,
        pos.spec_pieces_bb_color(side, PieceType::Rook),
    );
    let ghost queens = piece_moves(
        *pos,
        side,
        PieceType::Queen,
        pos.spec_pieces_bb_color(side, PieceType::Queen),
    );
    let ghost kings = piece_moves(
        *pos,
        side,
        PieceType::King,
        pos.spec_pieces_bb_color(side, PieceType::King),
    );
    let ghost castlings = castling_moves(*pos, side);
    assert(all == pawns + knights + bishops + rooks + queens + kings + castlings);
    assert(all.len() == pawns.len() + knights.len() + bishops.len() + rooks.len() + queens.len()
        + kings.len() + castlings.len());
    generate_pawn_moves(pos, side, &mut moves);
    assert(moves_of(moves) =~= pawns);
    generate_piece_moves(pos, side, PieceType::Knight, &mut moves);
    generate_piece_moves(pos, side, PieceType::Bishop, &mut moves);
    generate_piece_moves(pos, side, PieceType::Rook, &mut moves);
    generate_piece_moves(pos, side, PieceType::Queen, &mut moves);
    generate_piece_moves(pos, side, PieceType::King, &mut moves);
    generate_castling_moves(pos, side, &mut moves);
    moves
}

fn generate_pawn_moves(pos: &Position, side: Color, moves: &mut ArrayVec<Move, 256>)
    requires
        moves_of(*old(moves)).len() + pawn_moves(
            *pos,
            side,
            pos.spec_pieces_bb_color(side, PieceType::Pawn),
        ).len() <= 256,
    ensures
        moves_of(*final(moves)) == moves_of(*old(moves)) + pawn_moves(
            *pos,
            side,
            pos.spec_pieces_bb_color(side, PieceType::Pawn),
        ),
{
    let mut pawns: u64 = pos.pieces_bb_color(side, PieceType::Pawn).bits();
    let ghost start = moves_of(*moves);
    let ghost whole = pawn_moves(*pos, side, pawns);
    while pawns != 0
        invariant
            moves_of(*moves) + pawn_moves(*pos, side, pawns) == start + whole,
            start.len() + whole.len() <= 256,
        decreases pawns,
    {
        let ghost before = moves_of(*moves);
        let ghost rest = pawns;
        let from_sq = pop_lsb(&mut pawns);
        let ghost pushes = pawn_push_moves(*pos, side, from_sq.index);
        let ghost captures = pawn_capture_moves(
            *pos,
            side,
            from_sq.index,
            pawn_attacks(side, from_sq.index),
        );
        let ghost others = pawn_moves(*pos, side, pawns);
        assert(pawn_moves(*pos, side, rest) == pushes + captures + others);
        assert((before + (pushes + captures + others)).len() == (start + whole).len());
        generate_pawn_pushes(pos, side, from_sq, moves);
        generate_pawn_captures(pos, side, from_sq, moves);
        assert(moves_of(*moves) + others =~= before + (pushes + captures + others));
    }
    assert(moves_of(*moves) =~= start + whole);
}

fn generate_pawn_pushes(pos: &Position, side: Color, from_sq: Square, moves: &mut ArrayVec<Move, 256>)
    requires
        from_sq.on_board(),
        moves_of(*old(moves)).len() + pawn_push_moves(*pos, side, from_sq.index).len() <= 256,
    ensures
        moves_of(*final(moves)) == moves_of(*old(moves)) + pawn_push_moves(
            *pos,
            side,
            from_sq.index,
        ),
{
    let white = side == Color::White;
    let start_rank: u32 = if white {
        1
    } else {
        6
    };
    let from: i32 = from_sq.index() as i32;
    let one_step: i32 = if white {
        from + 8
    } else {
        from - 8
    };
    if !(0 <= one_step && one_step < 64) || pos.piece_at(Square::new(one_step as u32))
        != Piece::none() {
        assert(moves_of(*moves) =~= moves_of(*old(moves)) + Seq::<Move>::empty());
        return ;
    }
    let to_sq = Square::new(one_step as u32);
    let on_last_rank = if white {
        56 <= one_step
    } else {
        one_step < 8
    };
    if on_last_rank {
        add_promotions(from_sq, to_sq, side, moves);
    } else {
        push_move(moves, Move::normal(from_sq, to_sq));

        // Double push
        if from_sq.index() / 8 == start_rank {
            let two_step: i32 = if white {
                one_step + 8
            } else {
                one_step - 8
            };
            if 0 <= two_step && two_step < 64 && pos.piece_at(Square::new(two_step as u32))
                == Piece::none() {
                push_move(moves, Move::normal(from_sq, Square::new(two_step as u32)));
            }
        }
        assert(moves_of(*moves) =~= moves_of(*old(moves)) + pawn_push_moves(
            *pos,
            side,
            from_sq.index,
        ));
    }
}

fn generate_pawn_captures(
    pos: &Position,
    side: Color,
    from_sq: Square,
    moves: &mut ArrayVec<Move, 256>,
)
    requires
        from_sq.on_board(),
        moves_of(*old(moves)).len() + pawn_capture_moves(
            *pos,
            side,
            from_sq.index,
            pawn_attacks(side, from_sq.index),
        ).len() <= 256,
    ensures
        moves_of(*final(moves)) == moves_of(*old(moves)) + pawn_capture_moves(
            *pos,
            side,
            from_sq.index,
            pawn_attacks(side, from_sq.index),
        ),
{
    let mut attacks: u64 = pawn(side, from_sq).bits();
    let ep_square = pos.ep_square();
    let ghost start = moves_of(*moves);
    let ghost whole = pawn_capture_moves(*pos, side, from_sq.index, attacks);
    while attacks != 0
        invariant
            from_sq.on_board(),
            ep_square == pos.enpassant,
            moves_of(*moves) + pawn_capture_moves(*pos, side, from_sq.index, attacks) == start
                + whole,
            start.len() + whole.len() <= 256,
        decreases attacks,
    {
        let ghost before = moves_of(*moves);
        let ghost rest = attacks;
        let to_sq = pop_lsb(&mut attacks);
        let ghost here = pawn_capture_to(*pos, side, from_sq.index, to_sq.index);
        let ghost others = pawn_capture_moves(*pos, side, from_sq.index, attacks);
        assert(pawn_capture_moves(*pos, side, from_sq.index, rest) == here + others);
        assert((before + (here + others)).len() == (start + whole).len());
        if ep_square.index() != 64 && to_sq.index() == ep_square.index() {
            push_move(moves, Move::en_passant(from_sq, to_sq));
        } else {
            let target = pos.piece_at(to_sq);
            if target != Piece::none() && target.color() != side {
                let on_last_rank = if side == Color::White {
                    56 <= to_sq.index()
                } else {
                    to_sq.index() < 8
                };
                if on_last_rank {
                    add_promotions(from_sq, to_sq, side, moves);
                } else {
                    push_move(moves, Move::normal(from_sq, to_sq));
                }
            }
        }
        assert(moves_of(*moves) =~= before + here);
        assert(moves_of(*moves) + others =~= before + (here + others));
    }
    assert(moves_of(*moves) =~= start + whole);
}

fn generate_piece_moves(
    pos: &Position,
    side: Color,
    pt: PieceType,
    moves: &mut ArrayVec<Move, 256>,
)
    requires
        pt != PieceType::Pawn,
        pt != PieceType::NoPiece,
        moves_of(*old(moves)).len() + piece_moves(
            *pos,
            side,
            pt,
            pos.spec_pieces_bb_color(side, pt),
        ).len() <= 256,
    ensures
        moves_of(*final(moves)) == moves_of(*old(moves)) + piece_moves(
            *pos,
            side,
            pt,
            pos.spec_pieces_bb_color(side, pt),
        ),
{
    let occupancy = pos.occupied();
    let mut pieces: u64 = pos.pieces_bb_color(side, pt).bits();
    let ghost start = moves_of(*moves);
    let ghost whole = piece_moves(*pos, side, pt, pieces);
    while pieces != 0
        invariant
            pt != PieceType::Pawn,
            pt != PieceType::NoPiece,
            occupancy.data == pos.spec_occupied(),
            moves_of(*moves) + piece_moves(*pos, side, pt, pieces) == start + whole,
            start.len() + whole.len() <= 256,
        decreases pieces,
    {
        let ghost before = moves_of(*moves);
        let ghost rest = pieces;
        let from_sq = pop_lsb(&mut pieces);
        let mut targets: u64 = piece_attacks(pt, from_sq, occupancy).bits();
        let ghost here = target_moves(*pos, side, from_sq.index, targets);
        let ghost others = piece_moves(*pos, side, pt, pieces);
        assert(piece_moves(*pos, side, pt, rest) == here + others);
        assert((before + (here + others)).len() == (start + whole).len());
        while targets != 0
            invariant
                from_sq.on_board(),
                moves_of(*moves) + target_moves(*pos, side, from_sq.index, targets) == before
                    + here,
                before.len() + here.len() <= 256,
            decreases targets,
        {
            let ghost so_far = moves_of(*moves);
            let ghost left = targets;
            let to_sq = pop_lsb(&mut targets);
            let target = pos.piece_at(to_sq);
            let ghost tail = target_moves(*pos, side, from_sq.index, targets);
            assert((so_far + target_moves(*pos, side, from_sq.index, left)).len() == (before
                + here).len());
            if target == Piece::none() || target.color() != side {
                push_move(moves, Move::normal(from_sq, to_sq));
                assert(moves_of(*moves) + tail =~= so_far + (seq![
                    normal_move(from_sq.index, to_sq.index),
                ] + tail));
            } else {
                assert(moves_of(*moves) + tail =~= so_far + (Seq::<Move>::empty() + tail));
            }
        }
        assert(moves_of(*moves) =~= before + here);
        assert(moves_of(*moves) + others =~= before + (here + others));
    }
    assert(moves_of(*moves) =~= start + whole);
}

fn generate_castling_moves(pos: &Position, side: Color, moves: &mut ArrayVec<Move, 256>)
    requires
        pos.has_king(side),
        moves_of(*old(moves)).len() + castling_moves(*pos, side).len() <= 256,
    ensures
        moves_of(*final(moves)) == moves_of(*old(moves)) + castling_moves(*pos, side),
{
    let king_sq = pos.king_sq(side);

    // Can't castle if in check
    if pieces_attacking_square(king_sq, side, pos).bits() != 0 {
        assert(moves_of(*moves) =~= moves_of(*old(moves)) + Seq::<Move>::empty());
        return ;
    }
    let white = side == Color::White;
    let ghost short = castle_move(
        *pos,
        side,
        short_flag(side),
        king_sq.index,
        short_rook(side),
    );
    let ghost long = castle_move(*pos, side, long_flag(side), king_sq.index, long_rook(side));
    assert(castling_moves(*pos, side) == short + long);
    assert((short + long).len() == short.len() + long.len());
    try_castle(
        pos,
        side,
        moves,
        if white {
            WHITE_KING_SIDE
        } else {
            BLACK_KING_SIDE
        },
        king_sq,
        Square::new(
            if white {
                H1
            } else {
                H8
            },
        ),
    );
    try_castle(
        pos,
        side,
        moves,
        if white {
            WHITE_QUEEN_SIDE
        } else {
            BLACK_QUEEN_SIDE
        },
        king_sq,
        Square::new(
            if white {
                A1
            } else {
                A8
            },
        ),
    );
    assert(moves_of(*moves) =~= moves_of(*old(moves)) + (short + long));
}

/// Whether `side` may castle with the rook on `rook_sq`: it has the right,
/// the squares between king and rook are empty, and the two squares that
/// the king passes are not attacked.
pub fn can_castle(pos: &Position, side: Color, castle_right: u8, king_sq: Square, rook_sq: Square) -> (r:
    bool)
    requires
        rook_sq.index == H1 || rook_sq.index == A1 || rook_sq.index == H8 || rook_sq.index == A8,
    ensures
        r == (castle_move(*pos, side, castle_right, king_sq.index, rook_sq.index).len() > 0),
        castle_move(*pos, side, castle_right, king_sq.index, rook_sq.index).len() <= 1,
{
    let rights = pos.castling_rights();
    if !rights.contains(CastlingRights::new(castle_right)) {
        return false;
    }
    // Determine squares based on rook position

    let long = rook_sq.index() == A1 || rook_sq.index() == A8;
    let first: u32 = if rook_sq.index() == H1 || rook_sq.index() == A1 {
        0
    } else {
        56
    };
    let near = Square::new(
        first + (if long {
            D1
        } else {
            F1
        }),
    );
    let far = Square::new(
        first + (if long {
            C1
        } else {
            G1
        }),
    );
    let free = !(long && pos.piece_at(Square::new(first + B1)) != Piece::none()) && pos.piece_at(
        near,
    ) == Piece::none() && pos.piece_at(far) == Piece::none();
    free && pieces_attacking_square(near, side, pos).bits() == 0 && pieces_attacking_square(
        far,
        side,
        pos,
    ).bits() == 0
}

fn try_castle(
    pos: &Position,
    side: Color,
    moves: &mut ArrayVec<Move, 256>,
    castle_right: u8,
    king_sq: Square,
    rook_sq: Square,
)
    requires
        rook_sq.index == H1 || rook_sq.index == A1 || rook_sq.index == H8 || rook_sq.index == A8,
        moves_of(*old(moves)).len() + castle_move(
            *pos,
            side,
            castle_right,
            king_sq.index,
            rook_sq.index,
        ).len() <= 256,
    ensures
        moves_of(*final(moves)) == moves_of(*old(moves)) + castle_move(
            *pos,
            side,
            castle_right,
            king_sq.index,
            rook_sq.index,
        ),
{
    if can_castle(pos, side, castle_right, king_sq, rook_sq) {
        push_move(moves, Move::castle(king_sq, rook_sq));
        assert(moves_of(*moves) =~= moves_of(*old(moves)) + castle_move(
            *pos,
            side,
            castle_right,
            king_sq.index,
            rook_sq.index,
        ));
    } else {
        assert(moves_of(*moves) =~= moves_of(*old(moves)) + Seq::<Move>::empty());
    }
}

fn add_promotions(from_sq: Square, to_sq: Square, side: Color, moves: &mut ArrayVec<Move, 256>)
    requires
        moves_of(*old(moves)).len() + 4 <= 256,
    ensures
        moves_of(*final(moves)) == moves_of(*old(moves)) + promotion_moves(
            from_sq.index,
            to_sq.index,
            side,
        ),
{
    push_move(moves, Move::promotion(from_sq, to_sq, Piece::new(PieceType::Queen, side)));
    push_move(moves, Move::promotion(from_sq, to_sq, Piece::new(PieceType::Rook, side)));
    push_move(moves, Move::promotion(from_sq, to_sq, Piece::new(PieceType::Bishop, side)));
    push_move(moves, Move::promotion(from_sq, to_sq, Piece::new(PieceType::Knight, side)));
    assert(moves_of(*moves) =~= moves_of(*old(moves)) + promotion_moves(
        from_sq.index,
        to_sq.index,
        side,
    ));
}

/// The pieces of the other side that attack square `sq` of side `c`.
pub fn pieces_attacking_square(sq: Square, c: Color, pos: &Position) -> (r: Bitboard)
    requires
        sq.on_board(),
    ensures
        r.data == pos.spec_attackers(sq.index, c.flip()),
{
    let them = c.opposite();
    let occupied = pos.occupied();
    let queens: u64 = pos.pieces_bb_color(them, PieceType::Queen).bits();
    Bitboard::from_u64(
        (pawn(c, sq).bits() & pos.pieces_bb_color(them, PieceType::Pawn).bits()) | (knight(
            sq,
        ).bits() & pos.pieces_bb_color(them, PieceType::Knight).bits()) | (king(sq).bits()
            & pos.pieces_bb_color(them, PieceType::King).bits()) | (bishop(sq, occupied).bits() & (
        pos.pieces_bb_color(them, PieceType::Bishop).bits() | queens)) | (rook(
            sq,
            occupied,
        ).bits() & (pos.pieces_bb_color(them, PieceType::Rook).bits() | queens)),
    )
}

/// Get pseudo pawn attacks for a given color and square.
pub fn pawn(color: Color, sq: Square) -> (r: Bitboard)
    requires
        sq.on_board(),
    ensures
        r.data == pawn_attacks(color, sq.index),
{
    let i: usize = sq.index() as usize;
    proof {
        lemma_white_pawn_table();
        lemma_black_pawn_table();
    }
    match color {
        Color::White => Bitboard::new(WHITE_PAWN_ATTACKS[i]),
        Color::Black => Bitboard::new(BLACK_PAWN_ATTACKS[i]),
    }
}

/// Get pseudo knight attacks for a given square.
pub fn knight(sq: Square) -> (r: Bitboard)
    requires
        sq.on_board(),
    ensures
        r.data == knight_attacks(sq.index as u64),
{
    let i: usize = sq.index() as usize;
    proof {
        lemma_knight_table();
    }
    Bitboard::new(KNIGHT_ATTACKS[i])
}

/// Get pseudo bishop attacks for a given square and occupied squares.
pub fn bishop(sq: Square, occupied: Bitboard) -> (r: Bitboard)
    requires
        sq.on_board(),
    ensures
        r.data == bishop_attack_set(occupied.data, sq.index),
{
    let x: u32 = sq.index();
    let pieces: u64 = occupied.bits();
    Bitboard::from_u64(
        line_attack_of(pieces, x, diagonal_mask_of(x)) | line_attack_of(
            pieces,
            x,
            antidiagonal_mask_of(x),
        ),
    )
}

/// Get pseudo rook attacks for a given square and occupied squares.
pub fn rook(sq: Square, occupied: Bitboard) -> (r: Bitboard)
    requires
        sq.on_board(),
    ensures
        r.data == rook_attack_set(occupied.data, sq.index),
{
    let x: u32 = sq.index();
    let pieces: u64 = occupied.bits();
    Bitboard::from_u64(
        line_attack_of(pieces, x, vertical_mask_of(x)) | horizontal_attack_of(pieces, x),
    )
}

/// Get pseudo queen attacks for a given square and occupied squares.
pub fn queen(sq: Square, occupied: Bitboard) -> (r: Bitboard)
    requires
        sq.on_board(),
    ensures
        r.data == queen_attack_set(occupied.data, sq.index),
{
    Bitboard::from_u64(bishop(sq, occupied).bits() | rook(sq, occupied).bits())
}

/// Get pseudo king attacks for a given square.
pub fn king(sq: Square) -> (r: Bitboard)
    requires
        sq.on_board(),
    ensures
        r.data == king_attacks(sq.index as u64),
{
    let i: usize = sq.index() as usize;
    proof {
        lemma_king_table();
    }
    Bitboard::new(KING_ATTACKS[i])
}

/// Get pseudo attacks for a given piece type, square, and occupied squares.
pub fn piece_attacks(pt: PieceType, sq: Square, occupied: Bitboard) -> (r: Bitboard)
    requires
        sq.on_board(),
        pt != PieceType::Pawn,
        pt != PieceType::NoPiece,
    ensures
        r.data == piece_attack_set(pt, sq.index, occupied.data),
{
    match pt {
        PieceType::Knight => knight(sq),
        PieceType::Bishop => bishop(sq, occupied),
        PieceType::Rook => rook(sq, occupied),
        PieceType::Queen => queen(sq, occupied),
        _ => king(sq),
    }
}

/// The attack of a slider on `x` along the line `mask`.
fn line_attack_of(pieces: u64, x: u32, mask: u64) -> (r: u64)
    requires
        x < 64,
    ensures
        r == line_attack(pieces, x, mask),
{
    let o: u64 = pieces & mask;
    let b: u64 = 1u64 << x;
    (o.wrapping_sub(b) ^ (o.swap_bytes().wrapping_sub(b.swap_bytes())).swap_bytes()) & mask
}

/// The attack of a slider on `x` along its rank.
fn horizontal_attack_of(pieces: u64, x: u32) -> (r: u64)
    requires
        x < 64,
    ensures
        r == horizontal_attack_set(pieces, x),
{
    let file: u32 = x & 7;
    let shift: u32 = x & 56;
    proof {
        crate::chess::hyperbola::lemma_rank_shift(x);
        lemma_rank_index(pieces, shift);
    }
    let o: u64 = (pieces >> shift) & 126;
    (rank_attack_from_table(o, file) as u64) << shift
}

} // verus!
