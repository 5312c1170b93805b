//! Attacks of sliding pieces, one line at a time.
//!
//! Along a file or a diagonal the attacked squares come from a subtraction
//! on the occupancy of the line and on its byte-swapped image. Along a rank
//! they come from a walk over the eight squares of that rank.

use vstd::prelude::*;
use crate::chess::bitboard::Bitboard;
use crate::chess::bits::{bit64, byte_swap, lemma_or};
use crate::chess::coords::Square;

verus! {

/// The squares reached from file `f`, rank `r` by at most `n` steps of
/// `df` files and `dr` ranks each, as far as they stay on the board.
pub open spec fn ray_mask(f: int, r: int, df: int, dr: int, n: nat) -> u64
    decreases n,
{
    if n == 0 || !(0 <= f + df < 8 && 0 <= r + dr < 8) {
        0
    } else {
        (1u64 << (((r + dr) * 8 + f + df) as u64)) | ray_mask(
            f + df,
            r + dr,
            df,
            dr,
            (n - 1) as nat,
        )
    }
}

/// The squares of the line through square `x` in direction `(df, dr)`,
/// both ways, without `x` itself.
pub open spec fn line_mask(x: u32, df: int, dr: int) -> u64 {
    ray_mask((x % 8) as int, (x / 8) as int, df, dr, 7) | ray_mask(
        (x % 8) as int,
        (x / 8) as int,
        -df,
        -dr,
        7,
    )
}

/// The squares reachable from `x` along the +9 and -9 direction.
pub open spec fn diagonal_mask(x: u32) -> u64 {
    line_mask(x, 1, 1)
}

/// The squares reachable from `x` along the +7 and -7 direction.
pub open spec fn antidiagonal_mask(x: u32) -> u64 {
    line_mask(x, -1, 1)
}

/// The squares reachable from `x` along the +8 and -8 direction.
pub open spec fn vertical_mask(x: u32) -> u64 {
    line_mask(x, 0, 1)
}

/// The squares of the line `mask` through `x` that a slider on `x` attacks
/// when `pieces` are on the board.
pub open spec fn line_attack(pieces: u64, x: u32, mask: u64) -> u64 {
    let o = pieces & mask;
    let b = 1u64 << x;
    (o.wrapping_sub(b) ^ byte_swap(byte_swap(o).wrapping_sub(byte_swap(b)))) & mask
}

/// The files seen from file `f` looking `df` files at a time over the rank
/// occupancy `o`: every file up to and including the first occupied one, at
/// most `n` of them.
pub open spec fn rank_ray(o: u64, f: int, df: int, n: nat) -> u8
    decreases n,
{
    if n == 0 || !(0 <= f + df < 8) {
        0
    } else if bit64(o, (f + df) as u64) {
        1u8 << ((f + df) as u8)
    } else {
        (1u8 << ((f + df) as u8)) | rank_ray(o, f + df, df, (n - 1) as nat)
    }
}

/// The files that a slider on file `f` attacks along its rank, whose
/// occupancy is `o`.
pub open spec fn rank_attack_set(o: u64, f: int) -> u8 {
    rank_ray(o, f, -1, 7) | rank_ray(o, f, 1, 7)
}

/// The squares of its rank that a slider on `x` attacks when `pieces` are
/// on the board. Only the six inner files of the occupancy matter.
pub open spec fn horizontal_attack_set(pieces: u64, x: u32) -> u64 {
    let shift = x & 56;
    (rank_attack_set((pieces >> shift) & 126, (x & 7) as int) as u64) << shift
}

/// The squares that a bishop on `x` attacks when `pieces` are on the board.
pub open spec fn bishop_attack_set(pieces: u64, x: u32) -> u64 {
    line_attack(pieces, x, diagonal_mask(x)) | line_attack(pieces, x, antidiagonal_mask(x))
}

/// The squares that a rook on `x` attacks when `pieces` are on the board.
pub open spec fn rook_attack_set(pieces: u64, x: u32) -> u64 {
    line_attack(pieces, x, vertical_mask(x)) | horizontal_attack_set(pieces, x)
}

/// The three line masks of one square.
#[derive(Clone, Copy)]
pub struct Mask {
    pub diagonal: u64,
    pub antidiagonal: u64,
    pub vertical: u64,
}

/// The three line masks of square `x`.
pub open spec fn mask_of(x: u32) -> Mask {
    Mask {
        diagonal: diagonal_mask(x),
        antidiagonal: antidiagonal_mask(x),
        vertical: vertical_mask(x),
    }
}

/// The six inner files of a rank as an even number.
pub proof fn lemma_rank_index(pieces: u64, shift: u32)
    by (bit_vector)
    requires
        shift < 64,
    ensures
        ((pieces >> shift) & 126) <= 126,
        ((pieces >> shift) & 126) % 2 == 0,
{
}

/// The file of a square as an index, and its rank as a shift.
pub proof fn lemma_rank_shift(x: u32)
    by (bit_vector)
    requires
        x < 64,
    ensures
        x & 7 == x % 8,
        x & 56 < 64,
{
}

proof fn lemma_test_bit(o: u64, i: u64)
    by (bit_vector)
    requires
        i < 64,
    ensures
        (o & (1u64 << i) == (1u64 << i)) == bit64(o, i),
{
}

/// One ray of a line mask.
pub fn ray_mask_of(f: u32, r: u32, df: i32, dr: i32) -> (m: u64)
    requires
        f < 8,
        r < 8,
        -1 <= df <= 1,
        -1 <= dr <= 1,
    ensures
        m == ray_mask(f as int, r as int, df as int, dr as int, 7),
{
    let mut m: u64 = 0;
    let mut cf: i32 = f as i32;
    let mut cr: i32 = r as i32;
    let mut n: u32 = 7;
    proof {
        lemma_or(ray_mask(f as int, r as int, df as int, dr as int, 7), 0, 0, 0, 0, 0);
    }
    while n > 0 && 0 <= cf + df && cf + df < 8 && 0 <= cr + dr && cr + dr < 8
        invariant
            0 <= cf < 8,
            0 <= cr < 8,
            -1 <= df <= 1,
            -1 <= dr <= 1,
            n <= 7,
            m | ray_mask(cf as int, cr as int, df as int, dr as int, n as nat) == ray_mask(
                f as int,
                r as int,
                df as int,
                dr as int,
                7,
            ),
        decreases n,
    {
        cf = cf + df;
        cr = cr + dr;
        n = n - 1;
        let b: u64 = 1u64 << ((cr * 8 + cf) as u32);
        proof {
            lemma_or(m, b, ray_mask(cf as int, cr as int, df as int, dr as int, n as nat), 0, 0, 0);
        }
        m = m | b;
    }
    proof {
        lemma_or(m, 0, 0, 0, 0, 0);
    }
    m
}

/// The mask of the line through `x` in direction `(df, dr)`.
pub fn line_mask_of(x: u32, df: i32, dr: i32) -> (m: u64)
    requires
        x < 64,
        -1 <= df <= 1,
        -1 <= dr <= 1,
    ensures
        m == line_mask(x, df as int, dr as int),
{
    let f: u32 = x % 8;
    let r: u32 = x / 8;
    ray_mask_of(f, r, df, dr) | ray_mask_of(f, r, -df, -dr)
}

/// One side of a rank attack.
pub fn rank_ray_of(o: u64, f: u32, df: i32) -> (y: u8)
    requires
        f < 8,
        df == 1 || df == -1,
    ensures
        y == rank_ray(o, f as int, df as int, 7),
{
    let mut y: u8 = 0;
    let mut cf: i32 = f as i32;
    let mut n: u32 = 7;
    proof {
        lemma_or(0, 0, 0, rank_ray(o, f as int, df as int, 7), 0, 0);
    }
    while n > 0 && 0 <= cf + df && cf + df < 8
        invariant
            0 <= cf < 8,
            df == 1 || df == -1,
            n <= 7,
            y | rank_ray(o, cf as int, df as int, n as nat) == rank_ray(
                o,
                f as int,
                df as int,
                7,
            ),
        decreases n,
    {
        cf = cf + df;
        n = n - 1;
        let b: u8 = 1u8 << (cf as u32);
        let probe: u64 = 1u64 << (cf as u32);
        proof {
            lemma_test_bit(o, cf as u64);
            lemma_or(0, 0, 0, y, b, rank_ray(o, cf as int, df as int, n as nat));
        }
        y = y | b;
        if o & probe == probe {
            return y;
        }
    }
    proof {
        lemma_or(0, 0, 0, y, 0, 0);
    }
    y
}

/// The files attacked along a rank from file `f` over the occupancy `o`.
pub fn rank_attack_of(o: u64, f: u32) -> (y: u8)
    requires
        f < 8,
    ensures
        y == rank_attack_set(o, f as int),
{
    rank_ray_of(o, f, -1) | rank_ray_of(o, f, 1)
}

/// The diagonal mask of every square.
pub const DIAGONAL_MASKS: [u64; 64] = [
    0x8040201008040200, 0x0080402010080400, 0x0000804020100800, 0x0000008040201000,
    0x0000000080402000, 0x0000000000804000, 0x0000000000008000, 0x0000000000000000,
    0x4020100804020000, 0x8040201008040001, 0x0080402010080002, 0x0000804020100004,
    0x0000008040200008, 0x0000000080400010, 0x0000000000800020, 0x0000000000000040,
    0x2010080402000000, 0x4020100804000100, 0x8040201008000201, 0x0080402010000402,
    0x0000804020000804, 0x0000008040001008, 0x0000000080002010, 0x0000000000004020,
    0x1008040200000000, 0x2010080400010000, 0x4020100800020100, 0x8040201000040201,
    0x0080402000080402, 0x0000804000100804, 0x0000008000201008, 0x0000000000402010,
    0x0804020000000000, 0x1008040001000000, 0x2010080002010000, 0x4020100004020100,
    0x8040200008040201, 0x0080400010080402, 0x0000800020100804, 0x0000000040201008,
    0x0402000000000000, 0x0804000100000000, 0x1008000201000000, 0x2010000402010000,
    0x4020000804020100, 0x8040001008040201, 0x0080002010080402, 0x0000004020100804,
    0x0200000000000000, 0x0400010000000000, 0x0800020100000000, 0x1000040201000000,
    0x2000080402010000, 0x4000100804020100, 0x8000201008040201, 0x0000402010080402,
    0x0000000000000000, 0x0001000000000000, 0x0002010000000000, 0x0004020100000000,
    0x0008040201000000, 0x0010080402010000, 0x0020100804020100, 0x0040201008040201,
];

/// The antidiagonal mask of every square.
pub const ANTIDIAGONAL_MASKS: [u64; 64] = [
    0x0000000000000000, 0x0000000000000100, 0x0000000000010200, 0x0000000001020400,
    0x0000000102040800, 0x0000010204081000, 0x0001020408102000, 0x0102040810204000,
    0x0000000000000002, 0x0000000000010004, 0x0000000001020008, 0x0000000102040010,
    0x0000010204080020, 0x0001020408100040, 0x0102040810200080, 0x0204081020400000,
    0x0000000000000204, 0x0000000001000408, 0x0000000102000810, 0x0000010204001020,
    0x0001020408002040, 0x0102040810004080, 0x0204081020008000, 0x0408102040000000,
    0x0000000000020408, 0x0000000100040810, 0x0000010200081020, 0x0001020400102040,
    0x0102040800204080, 0x0204081000408000, 0x0408102000800000, 0x0810204000000000,
    0x0000000002040810, 0x0000010004081020, 0x0001020008102040, 0x0102040010204080,
    0x0204080020408000, 0x0408100040800000, 0x0810200080000000, 0x1020400000000000,
    0x0000000204081020, 0x0001000408102040, 0x0102000810204080, 0x0204001020408000,
    0x0408002040800000, 0x0810004080000000, 0x1020008000000000, 0x2040000000000000,
    0x0000020408102040, 0x0100040810204080, 0x0200081020408000, 0x0400102040800000,
    0x0800204080000000, 0x1000408000000000, 0x2000800000000000, 0x4000000000000000,
    0x0002040810204080, 0x0004081020408000, 0x0008102040800000, 0x0010204080000000,
    0x0020408000000000, 0x0040800000000000, 0x0080000000000000, 0x0000000000000000,
];

/// The vertical mask of every square.
pub const VERTICAL_MASKS: [u64; 64] = [
    0x0101010101010100, 0x0202020202020200, 0x0404040404040400, 0x0808080808080800,
    0x1010101010101000, 0x2020202020202000, 0x4040404040404000, 0x8080808080808000,
    0x0101010101010001, 0x0202020202020002, 0x0404040404040004, 0x0808080808080008,
    0x1010101010100010, 0x2020202020200020, 0x4040404040400040, 0x8080808080800080,
    0x0101010101000101, 0x0202020202000202, 0x0404040404000404, 0x0808080808000808,
    0x1010101010001010, 0x2020202020002020, 0x4040404040004040, 0x8080808080008080,
    0x0101010100010101, 0x0202020200020202, 0x0404040400040404, 0x0808080800080808,
    0x1010101000101010, 0x2020202000202020, 0x4040404000404040, 0x8080808000808080,
    0x0101010001010101, 0x0202020002020202, 0x0404040004040404, 0x0808080008080808,
    0x1010100010101010, 0x2020200020202020, 0x4040400040404040, 0x8080800080808080,
    0x0101000101010101, 0x0202000202020202, 0x0404000404040404, 0x0808000808080808,
    0x1010001010101010, 0x2020002020202020, 0x4040004040404040, 0x8080008080808080,
    0x0100010101010101, 0x0200020202020202, 0x0400040404040404, 0x0800080808080808,
    0x1000101010101010, 0x2000202020202020, 0x4000404040404040, 0x8000808080808080,
    0x0001010101010101, 0x0002020202020202, 0x0004040404040404, 0x0008080808080808,
    0x0010101010101010, 0x0020202020202020, 0x0040404040404040, 0x0080808080808080,
];

/// The rank attack of every file under every occupancy of the six inner
/// files: entry `8 * (o / 2) + f` is for the occupancy `o` and the file `f`.
pub const RANK_ATTACKS: [u8; 512] = [
    0xFE, 0xFD, 0xFB, 0xF7, 0xEF, 0xDF, 0xBF, 0x7F, 0x02, 0xFD, 0xFA, 0xF6, 0xEE, 0xDE, 0xBE, 0x7E,
    0x06, 0x05, 0xFB, 0xF4, 0xEC, 0xDC, 0xBC, 0x7C, 0x02, 0x05, 0xFA, 0xF4, 0xEC, 0xDC, 0xBC, 0x7C,
    0x0E, 0x0D, 0x0B, 0xF7, 0xE8, 0xD8, 0xB8, 0x78, 0x02, 0x0D, 0x0A, 0xF6, 0xE8, 0xD8, 0xB8, 0x78,
    0x06, 0x05, 0x0B, 0xF4, 0xE8, 0xD8, 0xB8, 0x78, 0x02, 0x05, 0x0A, 0xF4, 0xE8, 0xD8, 0xB8, 0x78,
    0x1E, 0x1D, 0x1B, 0x17, 0xEF, 0xD0, 0xB0, 0x70, 0x02, 0x1D, 0x1A, 0x16, 0xEE, 0xD0, 0xB0, 0x70,
    0x06, 0x05, 0x1B, 0x14, 0xEC, 0xD0, 0xB0, 0x70, 0x02, 0x05, 0x1A, 0x14, 0xEC, 0xD0, 0xB0, 0x70,
    0x0E, 0x0D, 0x0B, 0x17, 0xE8, 0xD0, 0xB0, 0x70, 0x02, 0x0D, 0x0A, 0x16, 0xE8, 0xD0, 0xB0, 0x70,
    0x06, 0x05, 0x0B, 0x14, 0xE8, 0xD0, 0xB0, 0x70, 0x02, 0x05, 0x0A, 0x14, 0xE8, 0xD0, 0xB0, 0x70,
    0x3E, 0x3D, 0x3B, 0x37, 0x2F, 0xDF, 0xA0, 0x60, 0x02, 0x3D, 0x3A, 0x36, 0x2E, 0xDE, 0xA0, 0x60,
    0x06, 0x05, 0x3B, 0x34, 0x2C, 0xDC, 0xA0, 0x60, 0x02, 0x05, 0x3A, 0x34, 0x2C, 0xDC, 0xA0, 0x60,
    0x0E, 0x0D, 0x0B, 0x37, 0x28, 0xD8, 0xA0, 0x60, 0x02, 0x0D, 0x0A, 0x36, 0x28, 0xD8, 0xA0, 0x60,
    0x06, 0x05, 0x0B, 0x34, 0x28, 0xD8, 0xA0, 0x60, 0x02, 0x05, 0x0A, 0x34, 0x28, 0xD8, 0xA0, 0x60,
    0x1E, 0x1D, 0x1B, 0x17, 0x2F, 0xD0, 0xA0, 0x60, 0x02, 0x1D, 0x1A, 0x16, 0x2E, 0xD0, 0xA0, 0x60,
    0x06, 0x05, 0x1B, 0x14, 0x2C, 0xD0, 0xA0, 0x60, 0x02, 0x05, 0x1A, 0x14, 0x2C, 0xD0, 0xA0, 0x60,
    0x0E, 0x0D, 0x0B, 0x17, 0x28, 0xD0, 0xA0, 0x60, 0x02, 0x0D, 0x0A, 0x16, 0x28, 0xD0, 0xA0, 0x60,
    0x06, 0x05, 0x0B, 0x14, 0x28, 0xD0, 0xA0, 0x60, 0x02, 0x05, 0x0A, 0x14, 0x28, 0xD0, 0xA0, 0x60,
    0x7E, 0x7D, 0x7B, 0x77, 0x6F, 0x5F, 0xBF, 0x40, 0x02, 0x7D, 0x7A, 0x76, 0x6E, 0x5E, 0xBE, 0x40,
    0x06, 0x05, 0x7B, 0x74, 0x6C, 0x5C, 0xBC, 0x40, 0x02, 0x05, 0x7A, 0x74, 0x6C, 0x5C, 0xBC, 0x40,
    0x0E, 0x0D, 0x0B, 0x77, 0x68, 0x58, 0xB8, 0x40, 0x02, 0x0D, 0x0A, 0x76, 0x68, 0x58, 0xB8, 0x40,
    0x06, 0x05, 0x0B, 0x74, 0x68, 0x58, 0xB8, 0x40, 0x02, 0x05, 0x0A, 0x74, 0x68, 0x58, 0xB8, 0x40,
    0x1E, 0x1D, 0x1B, 0x17, 0x6F, 0x50, 0xB0, 0x40, 0x02, 0x1D, 0x1A, 0x16, 0x6E, 0x50, 0xB0, 0x40,
    0x06, 0x05, 0x1B, 0x14, 0x6C, 0x50, 0xB0, 0x40, 0x02, 0x05, 0x1A, 0x14, 0x6C, 0x50, 0xB0, 0x40,
    0x0E, 0x0D, 0x0B, 0x17, 0x68, 0x50, 0xB0, 0x40, 0x02, 0x0D, 0x0A, 0x16, 0x68, 0x50, 0xB0, 0x40,
    0x06, 0x05, 0x0B, 0x14, 0x68, 0x50, 0xB0, 0x40, 0x02, 0x05, 0x0A, 0x14, 0x68, 0x50, 0xB0, 0x40,
    0x3E, 0x3D, 0x3B, 0x37, 0x2F, 0x5F, 0xA0, 0x40, 0x02, 0x3D, 0x3A, 0x36, 0x2E, 0x5E, 0xA0, 0x40,
    0x06, 0x05, 0x3B, 0x34, 0x2C, 0x5C, 0xA0, 0x40, 0x02, 0x05, 0x3A, 0x34, 0x2C, 0x5C, 0xA0, 0x40,
    0x0E, 0x0D, 0x0B, 0x37, 0x28, 0x58, 0xA0, 0x40, 0x02, 0x0D, 0x0A, 0x36, 0x28, 0x58, 0xA0, 0x40,
    0x06, 0x05, 0x0B, 0x34, 0x28, 0x58, 0xA0, 0x40, 0x02, 0x05, 0x0A, 0x34, 0x28, 0x58, 0xA0, 0x40,
    0x1E, 0x1D, 0x1B, 0x17, 0x2F, 0x50, 0xA0, 0x40, 0x02, 0x1D, 0x1A, 0x16, 0x2E, 0x50, 0xA0, 0x40,
    0x06, 0x05, 0x1B, 0x14, 0x2C, 0x50, 0xA0, 0x40, 0x02, 0x05, 0x1A, 0x14, 0x2C, 0x50, 0xA0, 0x40,
    0x0E, 0x0D, 0x0B, 0x17, 0x28, 0x50, 0xA0, 0x40, 0x02, 0x0D, 0x0A, 0x16, 0x28, 0x50, 0xA0, 0x40,
    0x06, 0x05, 0x0B, 0x14, 0x28, 0x50, 0xA0, 0x40, 0x02, 0x05, 0x0A, 0x14, 0x28, 0x50, 0xA0, 0x40,
];

proof fn lemma_diagonal_table()
    by (bit_vector)
    ensures
        diagonal_mask(0) == DIAGONAL_MASKS[0],
        diagonal_mask(1) == DIAGONAL_MASKS[1],
        diagonal_mask(2) == DIAGONAL_MASKS[2],
        diagonal_mask(3) == DIAGONAL_MASKS[3],
        diagonal_mask(4) == DIAGONAL_MASKS[4],
        diagonal_mask(5) == DIAGONAL_MASKS[5],
        diagonal_mask(6) == DIAGONAL_MASKS[6],
        diagonal_mask(7) == DIAGONAL_MASKS[7],
        diagonal_mask(8) == DIAGONAL_MASKS[8],
        diagonal_mask(9) == DIAGONAL_MASKS[9],
        diagonal_mask(10) == DIAGONAL_MASKS[10],
        diagonal_mask(11) == DIAGONAL_MASKS[11],
        diagonal_mask(12) == DIAGONAL_MASKS[12],
        diagonal_mask(13) == DIAGONAL_MASKS[13],
        diagonal_mask(14) == DIAGONAL_MASKS[14],
        diagonal_mask(15) == DIAGONAL_MASKS[15],
        diagonal_mask(16) == DIAGONAL_MASKS[16],
        diagonal_mask(17) == DIAGONAL_MASKS[17],
        diagonal_mask(18) == DIAGONAL_MASKS[18],
        diagonal_mask(19) == DIAGONAL_MASKS[19],
        diagonal_mask(20) == DIAGONAL_MASKS[20],
        diagonal_mask(21) == DIAGONAL_MASKS[21],
        diagonal_mask(22) == DIAGONAL_MASKS[22],
        diagonal_mask(23) == DIAGONAL_MASKS[23],
        diagonal_mask(24) == DIAGONAL_MASKS[24],
        diagonal_mask(25) == DIAGONAL_MASKS[25],
        diagonal_mask(26) == DIAGONAL_MASKS[26],
        diagonal_mask(27) == DIAGONAL_MASKS[27],
        diagonal_mask(28) == DIAGONAL_MASKS[28],
        diagonal_mask(29) == DIAGONAL_MASKS[29],
        diagonal_mask(30) == DIAGONAL_MASKS[30],
        diagonal_mask(31) == DIAGONAL_MASKS[31],
        diagonal_mask(32) == DIAGONAL_MASKS[32],
        diagonal_mask(33) == DIAGONAL_MASKS[33],
        diagonal_mask(34) == DIAGONAL_MASKS[34],
        diagonal_mask(35) == DIAGONAL_MASKS[35],
        diagonal_mask(36) == DIAGONAL_MASKS[36],
        diagonal_mask(37) == DIAGONAL_MASKS[37],
        diagonal_mask(38) == DIAGONAL_MASKS[38],
        diagonal_mask(39) == DIAGONAL_MASKS[39],
        diagonal_mask(40) == DIAGONAL_MASKS[40],
        diagonal_mask(41) == DIAGONAL_MASKS[41],
        diagonal_mask(42) == DIAGONAL_MASKS[42],
        diagonal_mask(43) == DIAGONAL_MASKS[43],
        diagonal_mask(44) == DIAGONAL_MASKS[44],
        diagonal_mask(45) == DIAGONAL_MASKS[45],
        diagonal_mask(46) == DIAGONAL_MASKS[46],
        diagonal_mask(47) == DIAGONAL_MASKS[47],
        diagonal_mask(48) == DIAGONAL_MASKS[48],
        diagonal_mask(49) == DIAGONAL_MASKS[49],
        diagonal_mask(50) == DIAGONAL_MASKS[50],
        diagonal_mask(51) == DIAGONAL_MASKS[51],
        diagonal_mask(52) == DIAGONAL_MASKS[52],
        diagonal_mask(53) == DIAGONAL_MASKS[53],
        diagonal_mask(54) == DIAGONAL_MASKS[54],
        diagonal_mask(55) == DIAGONAL_MASKS[55],
        diagonal_mask(56) == DIAGONAL_MASKS[56],
        diagonal_mask(57) == DIAGONAL_MASKS[57],
        diagonal_mask(58) == DIAGONAL_MASKS[58],
        diagonal_mask(59) == DIAGONAL_MASKS[59],
        diagonal_mask(60) == DIAGONAL_MASKS[60],
        diagonal_mask(61) == DIAGONAL_MASKS[61],
        diagonal_mask(62) == DIAGONAL_MASKS[62],
        diagonal_mask(63) == DIAGONAL_MASKS[63],
{
}

proof fn lemma_antidiagonal_table()
    by (bit_vector)
    ensures
        antidiagonal_mask(0) == ANTIDIAGONAL_MASKS[0],
        antidiagonal_mask(1) == ANTIDIAGONAL_MASKS[1],
        antidiagonal_mask(2) == ANTIDIAGONAL_MASKS[2],
        antidiagonal_mask(3) == ANTIDIAGONAL_MASKS[3],
        antidiagonal_mask(4) == ANTIDIAGONAL_MASKS[4],
        antidiagonal_mask(5) == ANTIDIAGONAL_MASKS[5],
        antidiagonal_mask(6) == ANTIDIAGONAL_MASKS[6],
        antidiagonal_mask(7) == ANTIDIAGONAL_MASKS[7],
        antidiagonal_mask(8) == ANTIDIAGONAL_MASKS[8],
        antidiagonal_mask(9) == ANTIDIAGONAL_MASKS[9],
        antidiagonal_mask(10) == ANTIDIAGONAL_MASKS[10],
        antidiagonal_mask(11) == ANTIDIAGONAL_MASKS[11],
        antidiagonal_mask(12) == ANTIDIAGONAL_MASKS[12],
        antidiagonal_mask(13) == ANTIDIAGONAL_MASKS[13],
        antidiagonal_mask(14) == ANTIDIAGONAL_MASKS[14],
        antidiagonal_mask(15) == ANTIDIAGONAL_MASKS[15],
        antidiagonal_mask(16) == ANTIDIAGONAL_MASKS[16],
        antidiagonal_mask(17) == ANTIDIAGONAL_MASKS[17],
        antidiagonal_mask(18) == ANTIDIAGONAL_MASKS[18],
        antidiagonal_mask(19) == ANTIDIAGONAL_MASKS[19],
        antidiagonal_mask(20) == ANTIDIAGONAL_MASKS[20],
        antidiagonal_mask(21) == ANTIDIAGONAL_MASKS[21],
        antidiagonal_mask(22) == ANTIDIAGONAL_MASKS[22],
        antidiagonal_mask(23) == ANTIDIAGONAL_MASKS[23],
        antidiagonal_mask(24) == ANTIDIAGONAL_MASKS[24],
        antidiagonal_mask(25) == ANTIDIAGONAL_MASKS[25],
        antidiagonal_mask(26) == ANTIDIAGONAL_MASKS[26],
        antidiagonal_mask(27) == ANTIDIAGONAL_MASKS[27],
        antidiagonal_mask(28) == ANTIDIAGONAL_MASKS[28],
        antidiagonal_mask(29) == ANTIDIAGONAL_MASKS[29],
        antidiagonal_mask(30) == ANTIDIAGONAL_MASKS[30],
        antidiagonal_mask(31) == ANTIDIAGONAL_MASKS[31],
        antidiagonal_mask(32) == ANTIDIAGONAL_MASKS[32],
        antidiagonal_mask(33) == ANTIDIAGONAL_MASKS[33],
        antidiagonal_mask(34) == ANTIDIAGONAL_MASKS[34],
        antidiagonal_mask(35) == ANTIDIAGONAL_MASKS[35],
        antidiagonal_mask(36) == ANTIDIAGONAL_MASKS[36],
        antidiagonal_mask(37) == ANTIDIAGONAL_MASKS[37],
        antidiagonal_mask(38) == ANTIDIAGONAL_MASKS[38],
        antidiagonal_mask(39) == ANTIDIAGONAL_MASKS[39],
        antidiagonal_mask(40) == ANTIDIAGONAL_MASKS[40],
        antidiagonal_mask(41) == ANTIDIAGONAL_MASKS[41],
        antidiagonal_mask(42) == ANTIDIAGONAL_MASKS[42],
        antidiagonal_mask(43) == ANTIDIAGONAL_MASKS[43],
        antidiagonal_mask(44) == ANTIDIAGONAL_MASKS[44],
        antidiagonal_mask(45) == ANTIDIAGONAL_MASKS[45],
        antidiagonal_mask(46) == ANTIDIAGONAL_MASKS[46],
        antidiagonal_mask(47) == ANTIDIAGONAL_MASKS[47],
        antidiagonal_mask(48) == ANTIDIAGONAL_MASKS[48],
        antidiagonal_mask(49) == ANTIDIAGONAL_MASKS[49],
        antidiagonal_mask(50) == ANTIDIAGONAL_MASKS[50],
        antidiagonal_mask(51) == ANTIDIAGONAL_MASKS[51],
        antidiagonal_mask(52) == ANTIDIAGONAL_MASKS[52],
        antidiagonal_mask(53) == ANTIDIAGONAL_MASKS[53],
        antidiagonal_mask(54) == ANTIDIAGONAL_MASKS[54],
        antidiagonal_mask(55) == ANTIDIAGONAL_MASKS[55],
        antidiagonal_mask(56) == ANTIDIAGONAL_MASKS[56],
        antidiagonal_mask(57) == ANTIDIAGONAL_MASKS[57],
        antidiagonal_mask(58) == ANTIDIAGONAL_MASKS[58],
        antidiagonal_mask(59) == ANTIDIAGONAL_MASKS[59],
        antidiagonal_mask(60) == ANTIDIAGONAL_MASKS[60],
        antidiagonal_mask(61) == ANTIDIAGONAL_MASKS[61],
        antidiagonal_mask(62) == ANTIDIAGONAL_MASKS[62],
        antidiagonal_mask(63) == ANTIDIAGONAL_MASKS[63],
{
}

proof fn lemma_vertical_table()
    by (bit_vector)
    ensures
        vertical_mask(0) == VERTICAL_MASKS[0],
        vertical_mask(1) == VERTICAL_MASKS[1],
        vertical_mask(2) == VERTICAL_MASKS[2],
        vertical_mask(3) == VERTICAL_MASKS[3],
        vertical_mask(4) == VERTICAL_MASKS[4],
        vertical_mask(5) == VERTICAL_MASKS[5],
        vertical_mask(6) == VERTICAL_MASKS[6],
        vertical_mask(7) == VERTICAL_MASKS[7],
        vertical_mask(8) == VERTICAL_MASKS[8],
        vertical_mask(9) == VERTICAL_MASKS[9],
        vertical_mask(10) == VERTICAL_MASKS[10],
        vertical_mask(11) == VERTICAL_MASKS[11],
        vertical_mask(12) == VERTICAL_MASKS[12],
        vertical_mask(13) == VERTICAL_MASKS[13],
        vertical_mask(14) == VERTICAL_MASKS[14],
        vertical_mask(15) == VERTICAL_MASKS[15],
        vertical_mask(16) == VERTICAL_MASKS[16],
        vertical_mask(17) == VERTICAL_MASKS[17],
        vertical_mask(18) == VERTICAL_MASKS[18],
        vertical_mask(19) == VERTICAL_MASKS[19],
        vertical_mask(20) == VERTICAL_MASKS[20],
        vertical_mask(21) == VERTICAL_MASKS[21],
        vertical_mask(22) == VERTICAL_MASKS[22],
        vertical_mask(23) == VERTICAL_MASKS[23],
        vertical_mask(24) == VERTICAL_MASKS[24],
        vertical_mask(25) == VERTICAL_MASKS[25],
        vertical_mask(26) == VERTICAL_MASKS[26],
        vertical_mask(27) == VERTICAL_MASKS[27],
        vertical_mask(28) == VERTICAL_MASKS[28],
        vertical_mask(29) == VERTICAL_MASKS[29],
        vertical_mask(30) == VERTICAL_MASKS[30],
        vertical_mask(31) == VERTICAL_MASKS[31],
        vertical_mask(32) == VERTICAL_MASKS[32],
        vertical_mask(33) == VERTICAL_MASKS[33],
        vertical_mask(34) == VERTICAL_MASKS[34],
        vertical_mask(35) == VERTICAL_MASKS[35],
        vertical_mask(36) == VERTICAL_MASKS[36],
        vertical_mask(37) == VERTICAL_MASKS[37],
        vertical_mask(38) == VERTICAL_MASKS[38],
        vertical_mask(39) == VERTICAL_MASKS[39],
        vertical_mask(40) == VERTICAL_MASKS[40],
        vertical_mask(41) == VERTICAL_MASKS[41],
        vertical_mask(42) == VERTICAL_MASKS[42],
        vertical_mask(43) == VERTICAL_MASKS[43],
        vertical_mask(44) == VERTICAL_MASKS[44],
        vertical_mask(45) == VERTICAL_MASKS[45],
        vertical_mask(46) == VERTICAL_MASKS[46],
        vertical_mask(47) == VERTICAL_MASKS[47],
        vertical_mask(48) == VERTICAL_MASKS[48],
        vertical_mask(49) == VERTICAL_MASKS[49],
        vertical_mask(50) == VERTICAL_MASKS[50],
        vertical_mask(51) == VERTICAL_MASKS[51],
        vertical_mask(52) == VERTICAL_MASKS[52],
        vertical_mask(53) == VERTICAL_MASKS[53],
        vertical_mask(54) == VERTICAL_MASKS[54],
        vertical_mask(55) == VERTICAL_MASKS[55],
        vertical_mask(56) == VERTICAL_MASKS[56],
        vertical_mask(57) == VERTICAL_MASKS[57],
        vertical_mask(58) == VERTICAL_MASKS[58],
        vertical_mask(59) == VERTICAL_MASKS[59],
        vertical_mask(60) == VERTICAL_MASKS[60],
        vertical_mask(61) == VERTICAL_MASKS[61],
        vertical_mask(62) == VERTICAL_MASKS[62],
        vertical_mask(63) == VERTICAL_MASKS[63],
{
}

proof fn lemma_rank_table()
    by (bit_vector)
    ensures
        rank_attack_set(0, 0) == RANK_ATTACKS[0],
        rank_attack_set(0, 1) == RANK_ATTACKS[1],
        rank_attack_set(0, 2) == RANK_ATTACKS[2],
        rank_attack_set(0, 3) == RANK_ATTACKS[3],
        rank_attack_set(0, 4) == RANK_ATTACKS[4],
        rank_attack_set(0, 5) == RANK_ATTACKS[5],
        rank_attack_set(0, 6) == RANK_ATTACKS[6],
        rank_attack_set(0, 7) == RANK_ATTACKS[7],
        rank_attack_set(2, 0) == RANK_ATTACKS[8],
        rank_attack_set(2, 1) == RANK_ATTACKS[9],
        rank_attack_set(2, 2) == RANK_ATTACKS[10],
        rank_attack_set(2, 3) == RANK_ATTACKS[11],
        rank_attack_set(2, 4) == RANK_ATTACKS[12],
        rank_attack_set(2, 5) == RANK_ATTACKS[13],
        rank_attack_set(2, 6) == RANK_ATTACKS[14],
        rank_attack_set(2, 7) == RANK_ATTACKS[15],
        rank_attack_set(4, 0) == RANK_ATTACKS[16],
        rank_attack_set(4, 1) == RANK_ATTACKS[17],
        rank_attack_set(4, 2) == RANK_ATTACKS[18],
        rank_attack_set(4, 3) == RANK_ATTACKS[19],
        rank_attack_set(4, 4) == RANK_ATTACKS[20],
        rank_attack_set(4, 5) == RANK_ATTACKS[21],
        rank_attack_set(4, 6) == RANK_ATTACKS[22],
        rank_attack_set(4, 7) == RANK_ATTACKS[23],
        rank_attack_set(6, 0) == RANK_ATTACKS[24],
        rank_attack_set(6, 1) == RANK_ATTACKS[25],
        rank_attack_set(6, 2) == RANK_ATTACKS[26],
        rank_attack_set(6, 3) == RANK_ATTACKS[27],
        rank_attack_set(6, 4) == RANK_ATTACKS[28],
        rank_attack_set(6, 5) == RANK_ATTACKS[29],
        rank_attack_set(6, 6) == RANK_ATTACKS[30],
        rank_attack_set(6, 7) == RANK_ATTACKS[31],
        rank_attack_set(8, 0) == RANK_ATTACKS[32],
        rank_attack_set(8, 1) == RANK_ATTACKS[33],
        rank_attack_set(8, 2) == RANK_ATTACKS[34],
        rank_attack_set(8, 3) == RANK_ATTACKS[35],
        rank_attack_set(8, 4) == RANK_ATTACKS[36],
        rank_attack_set(8, 5) == RANK_ATTACKS[37],
        rank_attack_set(8, 6) == RANK_ATTACKS[38],
        rank_attack_set(8, 7) == RANK_ATTACKS[39],
        rank_attack_set(10, 0) == RANK_ATTACKS[40],
        rank_attack_set(10, 1) == RANK_ATTACKS[41],
        rank_attack_set(10, 2) == RANK_ATTACKS[42],
        rank_attack_set(10, 3) == RANK_ATTACKS[43],
        rank_attack_set(10, 4) == RANK_ATTACKS[44],
        rank_attack_set(10, 5) == RANK_ATTACKS[45],
        rank_attack_set(10, 6) == RANK_ATTACKS[46],
        rank_attack_set(10, 7) == RANK_ATTACKS[47],
        rank_attack_set(12, 0) == RANK_ATTACKS[48],
        rank_attack_set(12, 1) == RANK_ATTACKS[49],
        rank_attack_set(12, 2) == RANK_ATTACKS[50],
        rank_attack_set(12, 3) == RANK_ATTACKS[51],
        rank_attack_set(12, 4) == RANK_ATTACKS[52],
        rank_attack_set(12, 5) == RANK_ATTACKS[53],
        rank_attack_set(12, 6) == RANK_ATTACKS[54],
        rank_attack_set(12, 7) == RANK_ATTACKS[55],
        rank_attack_set(14, 0) == RANK_ATTACKS[56],
        rank_attack_set(14, 1) == RANK_ATTACKS[57],
        rank_attack_set(14, 2) == RANK_ATTACKS[58],
        rank_attack_set(14, 3) == RANK_ATTACKS[59],
        rank_attack_set(14, 4) == RANK_ATTACKS[60],
        rank_attack_set(14, 5) == RANK_ATTACKS[61],
        rank_attack_set(14, 6) == RANK_ATTACKS[62],
        rank_attack_set(14, 7) == RANK_ATTACKS[63],
        rank_attack_set(16, 0) == RANK_ATTACKS[64],
        rank_attack_set(16, 1) == RANK_ATTACKS[65],
        rank_attack_set(16, 2) == RANK_ATTACKS[66],
        rank_attack_set(16, 3) == RANK_ATTACKS[67],
        rank_attack_set(16, 4) == RANK_ATTACKS[68],
        rank_attack_set(16, 5) == RANK_ATTACKS[69],
        rank_attack_set(16, 6) == RANK_ATTACKS[70],
        rank_attack_set(16, 7) == RANK_ATTACKS[71],
        rank_attack_set(18, 0) == RANK_ATTACKS[72],
        rank_attack_set(18, 1) == RANK_ATTACKS[73],
        rank_attack_set(18, 2) == RANK_ATTACKS[74],
        rank_attack_set(18, 3) == RANK_ATTACKS[75],
        rank_attack_set(18, 4) == RANK_ATTACKS[76],
        rank_attack_set(18, 5) == RANK_ATTACKS[77],
        rank_attack_set(18, 6) == RANK_ATTACKS[78],
        rank_attack_set(18, 7) == RANK_ATTACKS[79],
        rank_attack_set(20, 0) == RANK_ATTACKS[80],
        rank_attack_set(20, 1) == RANK_ATTACKS[81],
        rank_attack_set(20, 2) == RANK_ATTACKS[82],
        rank_attack_set(20, 3) == RANK_ATTACKS[83],
        rank_attack_set(20, 4) == RANK_ATTACKS[84],
        rank_attack_set(20, 5) == RANK_ATTACKS[85],
        rank_attack_set(20, 6) == RANK_ATTACKS[86],
        rank_attack_set(20, 7) == RANK_ATTACKS[87],
        rank_attack_set(22, 0) == RANK_ATTACKS[88],
        rank_attack_set(22, 1) == RANK_ATTACKS[89],
        rank_attack_set(22, 2) == RANK_ATTACKS[90],
        rank_attack_set(22, 3) == RANK_ATTACKS[91],
        rank_attack_set(22, 4) == RANK_ATTACKS[92],
        rank_attack_set(22, 5) == RANK_ATTACKS[93],
        rank_attack_set(22, 6) == RANK_ATTACKS[94],
        rank_attack_set(22, 7) == RANK_ATTACKS[95],
        rank_attack_set(24, 0) == RANK_ATTACKS[96],
        rank_attack_set(24, 1) == RANK_ATTACKS[97],
        rank_attack_set(24, 2) == RANK_ATTACKS[98],
        rank_attack_set(24, 3) == RANK_ATTACKS[99],
        rank_attack_set(24, 4) == RANK_ATTACKS[100],
        rank_attack_set(24, 5) == RANK_ATTACKS[101],
        rank_attack_set(24, 6) == RANK_ATTACKS[102],
        rank_attack_set(24, 7) == RANK_ATTACKS[103],
        rank_attack_set(26, 0) == RANK_ATTACKS[104],
        rank_attack_set(26, 1) == RANK_ATTACKS[105],
        rank_attack_set(26, 2) == RANK_ATTACKS[106],
        rank_attack_set(26, 3) == RANK_ATTACKS[107],
        rank_attack_set(26, 4) == RANK_ATTACKS[108],
        rank_attack_set(26, 5) == RANK_ATTACKS[109],
        rank_attack_set(26, 6) == RANK_ATTACKS[110],
        rank_attack_set(26, 7) == RANK_ATTACKS[111],
        rank_attack_set(28, 0) == RANK_ATTACKS[112],
        rank_attack_set(28, 1) == RANK_ATTACKS[113],
        rank_attack_set(28, 2) == RANK_ATTACKS[114],
        rank_attack_set(28, 3) == RANK_ATTACKS[115],
        rank_attack_set(28, 4) == RANK_ATTACKS[116],
        rank_attack_set(28, 5) == RANK_ATTACKS[117],
        rank_attack_set(28, 6) == RANK_ATTACKS[118],
        rank_attack_set(28, 7) == RANK_ATTACKS[119],
        rank_attack_set(30, 0) == RANK_ATTACKS[120],
        rank_attack_set(30, 1) == RANK_ATTACKS[121],
        rank_attack_set(30, 2) == RANK_ATTACKS[122],
        rank_attack_set(30, 3) == RANK_ATTACKS[123],
        rank_attack_set(30, 4) == RANK_ATTACKS[124],
        rank_attack_set(30, 5) == RANK_ATTACKS[125],
        rank_attack_set(30, 6) == RANK_ATTACKS[126],
        rank_attack_set(30, 7) == RANK_ATTACKS[127],
        rank_attack_set(32, 0) == RANK_ATTACKS[128],
        rank_attack_set(32, 1) == RANK_ATTACKS[129],
        rank_attack_set(32, 2) == RANK_ATTACKS[130],
        rank_attack_set(32, 3) == RANK_ATTACKS[131],
        rank_attack_set(32, 4) == RANK_ATTACKS[132],
        rank_attack_set(32, 5) == RANK_ATTACKS[133],
        rank_attack_set(32, 6) == RANK_ATTACKS[134],
        rank_attack_set(32, 7) == RANK_ATTACKS[135],
        rank_attack_set(34, 0) == RANK_ATTACKS[136],
        rank_attack_set(34, 1) == RANK_ATTACKS[137],
        rank_attack_set(34, 2) == RANK_ATTACKS[138],
        rank_attack_set(34, 3) == RANK_ATTACKS[139],
        rank_attack_set(34, 4) == RANK_ATTACKS[140],
        rank_attack_set(34, 5) == RANK_ATTACKS[141],
        rank_attack_set(34, 6) == RANK_ATTACKS[142],
        rank_attack_set(34, 7) == RANK_ATTACKS[143],
        rank_attack_set(36, 0) == RANK_ATTACKS[144],
        rank_attack_set(36, 1) == RANK_ATTACKS[145],
        rank_attack_set(36, 2) == RANK_ATTACKS[146],
        rank_attack_set(36, 3) == RANK_ATTACKS[147],
        rank_attack_set(36, 4) == RANK_ATTACKS[148],
        rank_attack_set(36, 5) == RANK_ATTACKS[149],
        rank_attack_set(36, 6) == RANK_ATTACKS[150],
        rank_attack_set(36, 7) == RANK_ATTACKS[151],
        rank_attack_set(38, 0) == RANK_ATTACKS[152],
        rank_attack_set(38, 1) == RANK_ATTACKS[153],
        rank_attack_set(38, 2) == RANK_ATTACKS[154],
        rank_attack_set(38, 3) == RANK_ATTACKS[155],
        rank_attack_set(38, 4) == RANK_ATTACKS[156],
        rank_attack_set(38, 5) == RANK_ATTACKS[157],
        rank_attack_set(38, 6) == RANK_ATTACKS[158],
        rank_attack_set(38, 7) == RANK_ATTACKS[159],
        rank_attack_set(40, 0) == RANK_ATTACKS[160],
        rank_attack_set(40, 1) == RANK_ATTACKS[161],
        rank_attack_set(40, 2) == RANK_ATTACKS[162],
        rank_attack_set(40, 3) == RANK_ATTACKS[163],
        rank_attack_set(40, 4) == RANK_ATTACKS[164],
        rank_attack_set(40, 5) == RANK_ATTACKS[165],
        rank_attack_set(40, 6) == RANK_ATTACKS[166],
        rank_attack_set(40, 7) == RANK_ATTACKS[167],
        rank_attack_set(42, 0) == RANK_ATTACKS[168],
        rank_attack_set(42, 1) == RANK_ATTACKS[169],
        rank_attack_set(42, 2) == RANK_ATTACKS[170],
        rank_attack_set(42, 3) == RANK_ATTACKS[171],
        rank_attack_set(42, 4) == RANK_ATTACKS[172],
        rank_attack_set(42, 5) == RANK_ATTACKS[173],
        rank_attack_set(42, 6) == RANK_ATTACKS[174],
        rank_attack_set(42, 7) == RANK_ATTACKS[175],
        rank_attack_set(44, 0) == RANK_ATTACKS[176],
        rank_attack_set(44, 1) == RANK_ATTACKS[177],
        rank_attack_set(44, 2) == RANK_ATTACKS[178],
        rank_attack_set(44, 3) == RANK_ATTACKS[179],
        rank_attack_set(44, 4) == RANK_ATTACKS[180],
        rank_attack_set(44, 5) == RANK_ATTACKS[181],
        rank_attack_set(44, 6) == RANK_ATTACKS[182],
        rank_attack_set(44, 7) == RANK_ATTACKS[183],
        rank_attack_set(46, 0) == RANK_ATTACKS[184],
        rank_attack_set(46, 1) == RANK_ATTACKS[185],
        rank_attack_set(46, 2) == RANK_ATTACKS[186],
        rank_attack_set(46, 3) == RANK_ATTACKS[187],
        rank_attack_set(46, 4) == RANK_ATTACKS[188],
        rank_attack_set(46, 5) == RANK_ATTACKS[189],
        rank_attack_set(46, 6) == RANK_ATTACKS[190],
        rank_attack_set(46, 7) == RANK_ATTACKS[191],
        rank_attack_set(48, 0) == RANK_ATTACKS[192],
        rank_attack_set(48, 1) == RANK_ATTACKS[193],
        rank_attack_set(48, 2) == RANK_ATTACKS[194],
        rank_attack_set(48, 3) == RANK_ATTACKS[195],
        rank_attack_set(48, 4) == RANK_ATTACKS[196],
        rank_attack_set(48, 5) == RANK_ATTACKS[197],
        rank_attack_set(48, 6) == RANK_ATTACKS[198],
        rank_attack_set(48, 7) == RANK_ATTACKS[199],
        rank_attack_set(50, 0) == RANK_ATTACKS[200],
        rank_attack_set(50, 1) == RANK_ATTACKS[201],
        rank_attack_set(50, 2) == RANK_ATTACKS[202],
        rank_attack_set(50, 3) == RANK_ATTACKS[203],
        rank_attack_set(50, 4) == RANK_ATTACKS[204],
        rank_attack_set(50, 5) == RANK_ATTACKS[205],
        rank_attack_set(50, 6) == RANK_ATTACKS[206],
        rank_attack_set(50, 7) == RANK_ATTACKS[207],
        rank_attack_set(52, 0) == RANK_ATTACKS[208],
        rank_attack_set(52, 1) == RANK_ATTACKS[209],
        rank_attack_set(52, 2) == RANK_ATTACKS[210],
        rank_attack_set(52, 3) == RANK_ATTACKS[211],
        rank_attack_set(52, 4) == RANK_ATTACKS[212],
        rank_attack_set(52, 5) == RANK_ATTACKS[213],
        rank_attack_set(52, 6) == RANK_ATTACKS[214],
        rank_attack_set(52, 7) == RANK_ATTACKS[215],
        rank_attack_set(54, 0) == RANK_ATTACKS[216],
        rank_attack_set(54, 1) == RANK_ATTACKS[217],
        rank_attack_set(54, 2) == RANK_ATTACKS[218],
        rank_attack_set(54, 3) == RANK_ATTACKS[219],
        rank_attack_set(54, 4) == RANK_ATTACKS[220],
        rank_attack_set(54, 5) == RANK_ATTACKS[221],
        rank_attack_set(54, 6) == RANK_ATTACKS[222],
        rank_attack_set(54, 7) == RANK_ATTACKS[223],
        rank_attack_set(56, 0) == RANK_ATTACKS[224],
        rank_attack_set(56, 1) == RANK_ATTACKS[225],
        rank_attack_set(56, 2) == RANK_ATTACKS[226],
        rank_attack_set(56, 3) == RANK_ATTACKS[227],
        rank_attack_set(56, 4) == RANK_ATTACKS[228],
        rank_attack_set(56, 5) == RANK_ATTACKS[229],
        rank_attack_set(56, 6) == RANK_ATTACKS[230],
        rank_attack_set(56, 7) == RANK_ATTACKS[231],
        rank_attack_set(58, 0) == RANK_ATTACKS[232],
        rank_attack_set(58, 1) == RANK_ATTACKS[233],
        rank_attack_set(58, 2) == RANK_ATTACKS[234],
        rank_attack_set(58, 3) == RANK_ATTACKS[235],
        rank_attack_set(58, 4) == RANK_ATTACKS[236],
        rank_attack_set(58, 5) == RANK_ATTACKS[237],
        rank_attack_set(58, 6) == RANK_ATTACKS[238],
        rank_attack_set(58, 7) == RANK_ATTACKS[239],
        rank_attack_set(60, 0) == RANK_ATTACKS[240],
        rank_attack_set(60, 1) == RANK_ATTACKS[241],
        rank_attack_set(60, 2) == RANK_ATTACKS[242],
        rank_attack_set(60, 3) == RANK_ATTACKS[243],
        rank_attack_set(60, 4) == RANK_ATTACKS[244],
        rank_attack_set(60, 5) == RANK_ATTACKS[245],
        rank_attack_set(60, 6) == RANK_ATTACKS[246],
        rank_attack_set(60, 7) == RANK_ATTACKS[247],
        rank_attack_set(62, 0) == RANK_ATTACKS[248],
        rank_attack_set(62, 1) == RANK_ATTACKS[249],
        rank_attack_set(62, 2) == RANK_ATTACKS[250],
        rank_attack_set(62, 3) == RANK_ATTACKS[251],
        rank_attack_set(62, 4) == RANK_ATTACKS[252],
        rank_attack_set(62, 5) == RANK_ATTACKS[253],
        rank_attack_set(62, 6) == RANK_ATTACKS[254],
        rank_attack_set(62, 7) == RANK_ATTACKS[255],
        rank_attack_set(64, 0) == RANK_ATTACKS[256],
        rank_attack_set(64, 1) == RANK_ATTACKS[257],
        rank_attack_set(64, 2) == RANK_ATTACKS[258],
        rank_attack_set(64, 3) == RANK_ATTACKS[259],
        rank_attack_set(64, 4) == RANK_ATTACKS[260],
        rank_attack_set(64, 5) == RANK_ATTACKS[261],
        rank_attack_set(64, 6) == RANK_ATTACKS[262],
        rank_attack_set(64, 7) == RANK_ATTACKS[263],
        rank_attack_set(66, 0) == RANK_ATTACKS[264],
        rank_attack_set(66, 1) == RANK_ATTACKS[265],
        rank_attack_set(66, 2) == RANK_ATTACKS[266],
        rank_attack_set(66, 3) == RANK_ATTACKS[267],
        rank_attack_set(66, 4) == RANK_ATTACKS[268],
        rank_attack_set(66, 5) == RANK_ATTACKS[269],
        rank_attack_set(66, 6) == RANK_ATTACKS[270],
        rank_attack_set(66, 7) == RANK_ATTACKS[271],
        rank_attack_set(68, 0) == RANK_ATTACKS[272],
        rank_attack_set(68, 1) == RANK_ATTACKS[273],
        rank_attack_set(68, 2) == RANK_ATTACKS[274],
        rank_attack_set(68, 3) == RANK_ATTACKS[275],
        rank_attack_set(68, 4) == RANK_ATTACKS[276],
        rank_attack_set(68, 5) == RANK_ATTACKS[277],
        rank_attack_set(68, 6) == RANK_ATTACKS[278],
        rank_attack_set(68, 7) == RANK_ATTACKS[279],
        rank_attack_set(70, 0) == RANK_ATTACKS[280],
        rank_attack_set(70, 1) == RANK_ATTACKS[281],
        rank_attack_set(70, 2) == RANK_ATTACKS[282],
        rank_attack_set(70, 3) == RANK_ATTACKS[283],
        rank_attack_set(70, 4) == RANK_ATTACKS[284],
        rank_attack_set(70, 5) == RANK_ATTACKS[285],
        rank_attack_set(70, 6) == RANK_ATTACKS[286],
        rank_attack_set(70, 7) == RANK_ATTACKS[287],
        rank_attack_set(72, 0) == RANK_ATTACKS[288],
        rank_attack_set(72, 1) == RANK_ATTACKS[289],
        rank_attack_set(72, 2) == RANK_ATTACKS[290],
        rank_attack_set(72, 3) == RANK_ATTACKS[291],
        rank_attack_set(72, 4) == RANK_ATTACKS[292],
        rank_attack_set(72, 5) == RANK_ATTACKS[293],
        rank_attack_set(72, 6) == RANK_ATTACKS[294],
        rank_attack_set(72, 7) == RANK_ATTACKS[295],
        rank_attack_set(74, 0) == RANK_ATTACKS[296],
        rank_attack_set(74, 1) == RANK_ATTACKS[297],
        rank_attack_set(74, 2) == RANK_ATTACKS[298],
        rank_attack_set(74, 3) == RANK_ATTACKS[299],
        rank_attack_set(74, 4) == RANK_ATTACKS[300],
        rank_attack_set(74, 5) == RANK_ATTACKS[301],
        rank_attack_set(74, 6) == RANK_ATTACKS[302],
        rank_attack_set(74, 7) == RANK_ATTACKS[303],
        rank_attack_set(76, 0) == RANK_ATTACKS[304],
        rank_attack_set(76, 1) == RANK_ATTACKS[305],
        rank_attack_set(76, 2) == RANK_ATTACKS[306],
        rank_attack_set(76, 3) == RANK_ATTACKS[307],
        rank_attack_set(76, 4) == RANK_ATTACKS[308],
        rank_attack_set(76, 5) == RANK_ATTACKS[309],
        rank_attack_set(76, 6) == RANK_ATTACKS[310],
        rank_attack_set(76, 7) == RANK_ATTACKS[311],
        rank_attack_set(78, 0) == RANK_ATTACKS[312],
        rank_attack_set(78, 1) == RANK_ATTACKS[313],
        rank_attack_set(78, 2) == RANK_ATTACKS[314],
        rank_attack_set(78, 3) == RANK_ATTACKS[315],
        rank_attack_set(78, 4) == RANK_ATTACKS[316],
        rank_attack_set(78, 5) == RANK_ATTACKS[317],
        rank_attack_set(78, 6) == RANK_ATTACKS[318],
        rank_attack_set(78, 7) == RANK_ATTACKS[319],
        rank_attack_set(80, 0) == RANK_ATTACKS[320],
        rank_attack_set(80, 1) == RANK_ATTACKS[321],
        rank_attack_set(80, 2) == RANK_ATTACKS[322],
        rank_attack_set(80, 3) == RANK_ATTACKS[323],
        rank_attack_set(80, 4) == RANK_ATTACKS[324],
        rank_attack_set(80, 5) == RANK_ATTACKS[325],
        rank_attack_set(80, 6) == RANK_ATTACKS[326],
        rank_attack_set(80, 7) == RANK_ATTACKS[327],
        rank_attack_set(82, 0) == RANK_ATTACKS[328],
        rank_attack_set(82, 1) == RANK_ATTACKS[329],
        rank_attack_set(82, 2) == RANK_ATTACKS[330],
        rank_attack_set(82, 3) == RANK_ATTACKS[331],
        rank_attack_set(82, 4) == RANK_ATTACKS[332],
        rank_attack_set(82, 5) == RANK_ATTACKS[333],
        rank_attack_set(82, 6) == RANK_ATTACKS[334],
        rank_attack_set(82, 7) == RANK_ATTACKS[335],
        rank_attack_set(84, 0) == RANK_ATTACKS[336],
        rank_attack_set(84, 1) == RANK_ATTACKS[337],
        rank_attack_set(84, 2) == RANK_ATTACKS[338],
        rank_attack_set(84, 3) == RANK_ATTACKS[339],
        rank_attack_set(84, 4) == RANK_ATTACKS[340],
        rank_attack_set(84, 5) == RANK_ATTACKS[341],
        rank_attack_set(84, 6) == RANK_ATTACKS[342],
        rank_attack_set(84, 7) == RANK_ATTACKS[343],
        rank_attack_set(86, 0) == RANK_ATTACKS[344],
        rank_attack_set(86, 1) == RANK_ATTACKS[345],
        rank_attack_set(86, 2) == RANK_ATTACKS[346],
        rank_attack_set(86, 3) == RANK_ATTACKS[347],
        rank_attack_set(86, 4) == RANK_ATTACKS[348],
        rank_attack_set(86, 5) == RANK_ATTACKS[349],
        rank_attack_set(86, 6) == RANK_ATTACKS[350],
        rank_attack_set(86, 7) == RANK_ATTACKS[351],
        rank_attack_set(88, 0) == RANK_ATTACKS[352],
        rank_attack_set(88, 1) == RANK_ATTACKS[353],
        rank_attack_set(88, 2) == RANK_ATTACKS[354],
        rank_attack_set(88, 3) == RANK_ATTACKS[355],
        rank_attack_set(88, 4) == RANK_ATTACKS[356],
        rank_attack_set(88, 5) == RANK_ATTACKS[357],
        rank_attack_set(88, 6) == RANK_ATTACKS[358],
        rank_attack_set(88, 7) == RANK_ATTACKS[359],
        rank_attack_set(90, 0) == RANK_ATTACKS[360],
        rank_attack_set(90, 1) == RANK_ATTACKS[361],
        rank_attack_set(90, 2) == RANK_ATTACKS[362],
        rank_attack_set(90, 3) == RANK_ATTACKS[363],
        rank_attack_set(90, 4) == RANK_ATTACKS[364],
        rank_attack_set(90, 5) == RANK_ATTACKS[365],
        rank_attack_set(90, 6) == RANK_ATTACKS[366],
        rank_attack_set(90, 7) == RANK_ATTACKS[367],
        rank_attack_set(92, 0) == RANK_ATTACKS[368],
        rank_attack_set(92, 1) == RANK_ATTACKS[369],
        rank_attack_set(92, 2) == RANK_ATTACKS[370],
        rank_attack_set(92, 3) == RANK_ATTACKS[371],
        rank_attack_set(92, 4) == RANK_ATTACKS[372],
        rank_attack_set(92, 5) == RANK_ATTACKS[373],
        rank_attack_set(92, 6) == RANK_ATTACKS[374],
        rank_attack_set(92, 7) == RANK_ATTACKS[375],
        rank_attack_set(94, 0) == RANK_ATTACKS[376],
        rank_attack_set(94, 1) == RANK_ATTACKS[377],
        rank_attack_set(94, 2) == RANK_ATTACKS[378],
        rank_attack_set(94, 3) == RANK_ATTACKS[379],
        rank_attack_set(94, 4) == RANK_ATTACKS[380],
        rank_attack_set(94, 5) == RANK_ATTACKS[381],
        rank_attack_set(94, 6) == RANK_ATTACKS[382],
        rank_attack_set(94, 7) == RANK_ATTACKS[383],
        rank_attack_set(96, 0) == RANK_ATTACKS[384],
        rank_attack_set(96, 1) == RANK_ATTACKS[385],
        rank_attack_set(96, 2) == RANK_ATTACKS[386],
        rank_attack_set(96, 3) == RANK_ATTACKS[387],
        rank_attack_set(96, 4) == RANK_ATTACKS[388],
        rank_attack_set(96, 5) == RANK_ATTACKS[389],
        rank_attack_set(96, 6) == RANK_ATTACKS[390],
        rank_attack_set(96, 7) == RANK_ATTACKS[391],
        rank_attack_set(98, 0) == RANK_ATTACKS[392],
        rank_attack_set(98, 1) == RANK_ATTACKS[393],
        rank_attack_set(98, 2) == RANK_ATTACKS[394],
        rank_attack_set(98, 3) == RANK_ATTACKS[395],
        rank_attack_set(98, 4) == RANK_ATTACKS[396],
        rank_attack_set(98, 5) == RANK_ATTACKS[397],
        rank_attack_set(98, 6) == RANK_ATTACKS[398],
        rank_attack_set(98, 7) == RANK_ATTACKS[399],
        rank_attack_set(100, 0) == RANK_ATTACKS[400],
        rank_attack_set(100, 1) == RANK_ATTACKS[401],
        rank_attack_set(100, 2) == RANK_ATTACKS[402],
        rank_attack_set(100, 3) == RANK_ATTACKS[403],
        rank_attack_set(100, 4) == RANK_ATTACKS[404],
        rank_attack_set(100, 5) == RANK_ATTACKS[405],
        rank_attack_set(100, 6) == RANK_ATTACKS[406],
        rank_attack_set(100, 7) == RANK_ATTACKS[407],
        rank_attack_set(102, 0) == RANK_ATTACKS[408],
        rank_attack_set(102, 1) == RANK_ATTACKS[409],
        rank_attack_set(102, 2) == RANK_ATTACKS[410],
        rank_attack_set(102, 3) == RANK_ATTACKS[411],
        rank_attack_set(102, 4) == RANK_ATTACKS[412],
        rank_attack_set(102, 5) == RANK_ATTACKS[413],
        rank_attack_set(102, 6) == RANK_ATTACKS[414],
        rank_attack_set(102, 7) == RANK_ATTACKS[415],
        rank_attack_set(104, 0) == RANK_ATTACKS[416],
        rank_attack_set(104, 1) == RANK_ATTACKS[417],
        rank_attack_set(104, 2) == RANK_ATTACKS[418],
        rank_attack_set(104, 3) == RANK_ATTACKS[419],
        rank_attack_set(104, 4) == RANK_ATTACKS[420],
        rank_attack_set(104, 5) == RANK_ATTACKS[421],
        rank_attack_set(104, 6) == RANK_ATTACKS[422],
        rank_attack_set(104, 7) == RANK_ATTACKS[423],
        rank_attack_set(106, 0) == RANK_ATTACKS[424],
        rank_attack_set(106, 1) == RANK_ATTACKS[425],
        rank_attack_set(106, 2) == RANK_ATTACKS[426],
        rank_attack_set(106, 3) == RANK_ATTACKS[427],
        rank_attack_set(106, 4) == RANK_ATTACKS[428],
        rank_attack_set(106, 5) == RANK_ATTACKS[429],
        rank_attack_set(106, 6) == RANK_ATTACKS[430],
        rank_attack_set(106, 7) == RANK_ATTACKS[431],
        rank_attack_set(108, 0) == RANK_ATTACKS[432],
        rank_attack_set(108, 1) == RANK_ATTACKS[433],
        rank_attack_set(108, 2) == RANK_ATTACKS[434],
        rank_attack_set(108, 3) == RANK_ATTACKS[435],
        rank_attack_set(108, 4) == RANK_ATTACKS[436],
        rank_attack_set(108, 5) == RANK_ATTACKS[437],
        rank_attack_set(108, 6) == RANK_ATTACKS[438],
        rank_attack_set(108, 7) == RANK_ATTACKS[439],
        rank_attack_set(110, 0) == RANK_ATTACKS[440],
        rank_attack_set(110, 1) == RANK_ATTACKS[441],
        rank_attack_set(110, 2) == RANK_ATTACKS[442],
        rank_attack_set(110, 3) == RANK_ATTACKS[443],
        rank_attack_set(110, 4) == RANK_ATTACKS[444],
        rank_attack_set(110, 5) == RANK_ATTACKS[445],
        rank_attack_set(110, 6) == RANK_ATTACKS[446],
        rank_attack_set(110, 7) == RANK_ATTACKS[447],
        rank_attack_set(112, 0) == RANK_ATTACKS[448],
        rank_attack_set(112, 1) == RANK_ATTACKS[449],
        rank_attack_set(112, 2) == RANK_ATTACKS[450],
        rank_attack_set(112, 3) == RANK_ATTACKS[451],
        rank_attack_set(112, 4) == RANK_ATTACKS[452],
        rank_attack_set(112, 5) == RANK_ATTACKS[453],
        rank_attack_set(112, 6) == RANK_ATTACKS[454],
        rank_attack_set(112, 7) == RANK_ATTACKS[455],
        rank_attack_set(114, 0) == RANK_ATTACKS[456],
        rank_attack_set(114, 1) == RANK_ATTACKS[457],
        rank_attack_set(114, 2) == RANK_ATTACKS[458],
        rank_attack_set(114, 3) == RANK_ATTACKS[459],
        rank_attack_set(114, 4) == RANK_ATTACKS[460],
        rank_attack_set(114, 5) == RANK_ATTACKS[461],
        rank_attack_set(114, 6) == RANK_ATTACKS[462],
        rank_attack_set(114, 7) == RANK_ATTACKS[463],
        rank_attack_set(116, 0) == RANK_ATTACKS[464],
        rank_attack_set(116, 1) == RANK_ATTACKS[465],
        rank_attack_set(116, 2) == RANK_ATTACKS[466],
        rank_attack_set(116, 3) == RANK_ATTACKS[467],
        rank_attack_set(116, 4) == RANK_ATTACKS[468],
        rank_attack_set(116, 5) == RANK_ATTACKS[469],
        rank_attack_set(116, 6) == RANK_ATTACKS[470],
        rank_attack_set(116, 7) == RANK_ATTACKS[471],
        rank_attack_set(118, 0) == RANK_ATTACKS[472],
        rank_attack_set(118, 1) == RANK_ATTACKS[473],
        rank_attack_set(118, 2) == RANK_ATTACKS[474],
        rank_attack_set(118, 3) == RANK_ATTACKS[475],
        rank_attack_set(118, 4) == RANK_ATTACKS[476],
        rank_attack_set(118, 5) == RANK_ATTACKS[477],
        rank_attack_set(118, 6) == RANK_ATTACKS[478],
        rank_attack_set(118, 7) == RANK_ATTACKS[479],
        rank_attack_set(120, 0) == RANK_ATTACKS[480],
        rank_attack_set(120, 1) == RANK_ATTACKS[481],
        rank_attack_set(120, 2) == RANK_ATTACKS[482],
        rank_attack_set(120, 3) == RANK_ATTACKS[483],
        rank_attack_set(120, 4) == RANK_ATTACKS[484],
        rank_attack_set(120, 5) == RANK_ATTACKS[485],
        rank_attack_set(120, 6) == RANK_ATTACKS[486],
        rank_attack_set(120, 7) == RANK_ATTACKS[487],
        rank_attack_set(122, 0) == RANK_ATTACKS[488],
        rank_attack_set(122, 1) == RANK_ATTACKS[489],
        rank_attack_set(122, 2) == RANK_ATTACKS[490],
        rank_attack_set(122, 3) == RANK_ATTACKS[491],
        rank_attack_set(122, 4) == RANK_ATTACKS[492],
        rank_attack_set(122, 5) == RANK_ATTACKS[493],
        rank_attack_set(122, 6) == RANK_ATTACKS[494],
        rank_attack_set(122, 7) == RANK_ATTACKS[495],
        rank_attack_set(124, 0) == RANK_ATTACKS[496],
        rank_attack_set(124, 1) == RANK_ATTACKS[497],
        rank_attack_set(124, 2) == RANK_ATTACKS[498],
        rank_attack_set(124, 3) == RANK_ATTACKS[499],
        rank_attack_set(124, 4) == RANK_ATTACKS[500],
        rank_attack_set(124, 5) == RANK_ATTACKS[501],
        rank_attack_set(124, 6) == RANK_ATTACKS[502],
        rank_attack_set(124, 7) == RANK_ATTACKS[503],
        rank_attack_set(126, 0) == RANK_ATTACKS[504],
        rank_attack_set(126, 1) == RANK_ATTACKS[505],
        rank_attack_set(126, 2) == RANK_ATTACKS[506],
        rank_attack_set(126, 3) == RANK_ATTACKS[507],
        rank_attack_set(126, 4) == RANK_ATTACKS[508],
        rank_attack_set(126, 5) == RANK_ATTACKS[509],
        rank_attack_set(126, 6) == RANK_ATTACKS[510],
        rank_attack_set(126, 7) == RANK_ATTACKS[511],
{
}

/// The diagonal mask of a square, from the table.
pub fn diagonal_mask_of(x: u32) -> (m: u64)
    requires
        x < 64,
    ensures
        m == diagonal_mask(x),
{
    proof {
        lemma_diagonal_table();
    }
    DIAGONAL_MASKS[x as usize]
}

/// The antidiagonal mask of a square, from the table.
pub fn antidiagonal_mask_of(x: u32) -> (m: u64)
    requires
        x < 64,
    ensures
        m == antidiagonal_mask(x),
{
    proof {
        lemma_antidiagonal_table();
    }
    ANTIDIAGONAL_MASKS[x as usize]
}

/// The vertical mask of a square, from the table.
pub fn vertical_mask_of(x: u32) -> (m: u64)
    requires
        x < 64,
    ensures
        m == vertical_mask(x),
{
    proof {
        lemma_vertical_table();
    }
    VERTICAL_MASKS[x as usize]
}

/// The rank attack from file `f` over the occupancy `o` of the six inner
/// files, from the table.
#[verifier::rlimit(100)]
pub fn rank_attack_from_table(o: u64, f: u32) -> (y: u8)
    requires
        o <= 126,
        o % 2 == 0,
        f < 8,
    ensures
        y == rank_attack_set(o, f as int),
{
    proof {
        lemma_rank_table();
    }
    let idx: usize = (o * 4 + f as u64) as usize;
    assert(o == 2 * (idx / 8) && f == idx % 8);
    RANK_ATTACKS[idx]
}

/// Tables of line masks and rank attacks, filled once and then only read.
pub struct HyperbolaQsc {
    pub mask: [Mask; 64],
    pub rank_attack: [u8; 512],
}

impl HyperbolaQsc {
    /// The tables hold the line masks of every square, and the rank attack
    /// of every file under every occupancy of the six inner files.
    pub open spec fn wf(&self) -> bool {
        &&& forall|x: int| 0 <= x < 64 ==> #[trigger] self.mask[x] == mask_of(x as u32)
        &&& forall|i: int|
            0 <= i < 512 ==> #[trigger] self.rank_attack[i] == rank_attack_set(
                (2 * (i / 8)) as u64,
                i % 8,
            )
    }

    pub fn new() -> (r: HyperbolaQsc)
        ensures
            r.wf(),
    {
        let mask = HyperbolaQsc::init_mask();
        let rank_attack = HyperbolaQsc::init_rank();
        HyperbolaQsc { mask, rank_attack }
    }

    fn init_mask() -> (mask: [Mask; 64])
        ensures
            forall|x: int| 0 <= x < 64 ==> #[trigger] mask[x] == mask_of(x as u32),
    {
        let mut mask: [Mask; 64] = [Mask { diagonal: 0, antidiagonal: 0, vertical: 0 };64];
        let mut x: u32 = 0;
        while x < 64
            invariant
                x <= 64,
                forall|y: int| 0 <= y < x ==> #[trigger] mask[y] == mask_of(y as u32),
            decreases 64 - x,
        {
            mask[x as usize] = Mask {
                diagonal: line_mask_of(x, 1, 1),
                antidiagonal: line_mask_of(x, -1, 1),
                vertical: line_mask_of(x, 0, 1),
            };
            x += 1;
        }
        mask
    }

    fn init_rank() -> (rank_attack: [u8; 512])
        ensures
            forall|i: int|
                0 <= i < 512 ==> #[trigger] rank_attack[i] == rank_attack_set(
                    (2 * (i / 8)) as u64,
                    i % 8,
                ),
    {
        let mut rank_attack: [u8; 512] = [0u8;512];
        let mut x: usize = 0;
        while x < 64
            invariant
                x <= 64,
                forall|i: int|
                    0 <= i < 8 * x ==> #[trigger] rank_attack[i] == rank_attack_set(
                        (2 * (i / 8)) as u64,
                        i % 8,
                    ),
            decreases 64 - x,
        {
            let mut f: usize = 0;
            while f < 8
                invariant
                    x < 64,
                    f <= 8,
                    forall|i: int|
                        0 <= i < 8 * x + f ==> #[trigger] rank_attack[i] == rank_attack_set(
                            (2 * (i / 8)) as u64,
                            i % 8,
                        ),
                decreases 8 - f,
            {
                let o: u64 = 2 * (x as u64);
                rank_attack[x * 8 + f] = rank_attack_of(o, f as u32);
                f += 1;
            }
            x += 1;
        }
        rank_attack
    }

    fn bit_bswap(b: u64) -> (r: u64)
        ensures
            r == byte_swap(b),
    {
        b.swap_bytes()
    }

    fn attack(pieces: u64, x: u32, mask: u64) -> (r: u64)
        requires
            x < 64,
        ensures
            r == line_attack(pieces, x, mask),
    {
        let o: u64 = pieces & mask;
        let b: u64 = 1u64 << x;
        (o.wrapping_sub(b) ^ HyperbolaQsc::bit_bswap(
            HyperbolaQsc::bit_bswap(o).wrapping_sub(HyperbolaQsc::bit_bswap(b)),
        )) & mask
    }

    pub fn horizontal_attack(&self, pieces: u64, x: u32) -> (r: u64)
        requires
            self.wf(),
            x < 64,
        ensures
            r == horizontal_attack_set(pieces, x),
    {
        let file_mask: u32 = x & 7;
        let rank_mask: u32 = x & 56;
        proof {
            lemma_rank_shift(x);
            lemma_rank_index(pieces, rank_mask);
        }
        let o: u64 = (pieces >> rank_mask) & 126;
        let idx: u64 = o * 4 + file_mask as u64;
        (self.rank_attack[idx as usize] as u64) << rank_mask
    }

    pub fn vertical_attack(&self, pieces: u64, sq: u32) -> (r: u64)
        requires
            self.wf(),
            sq < 64,
        ensures
            r == line_attack(pieces, sq, vertical_mask(sq)),
    {
        HyperbolaQsc::attack(pieces, sq, self.mask[sq as usize].vertical)
    }

    pub fn diagonal_attack(&self, pieces: u64, sq: u32) -> (r: u64)
        requires
            self.wf(),
            sq < 64,
        ensures
            r == line_attack(pieces, sq, diagonal_mask(sq)),
    {
        HyperbolaQsc::attack(pieces, sq, self.mask[sq as usize].diagonal)
    }

    pub fn antidiagonal_attack(&self, pieces: u64, sq: u32) -> (r: u64)
        requires
            self.wf(),
            sq < 64,
        ensures
            r == line_attack(pieces, sq, antidiagonal_mask(sq)),
    {
        HyperbolaQsc::attack(pieces, sq, self.mask[sq as usize].antidiagonal)
    }

    pub fn bishop_attack(&self, sq: Square, occupied: Bitboard) -> (r: Bitboard)
        requires
            self.wf(),
            sq.on_board(),
        ensures
            r.data == bishop_attack_set(occupied.data, sq.index),
    {
        let sq_idx: u32 = sq.index();
        Bitboard::from_u64(
            self.diagonal_attack(occupied.bits(), sq_idx) | self.antidiagonal_attack(
                occupied.bits(),
                sq_idx,
            ),
        )
    }

    pub fn rook_attack(&self, sq: Square, occupied: Bitboard) -> (r: Bitboard)
        requires
            self.wf(),
            sq.on_board(),
        ensures
            r.data == rook_attack_set(occupied.data, sq.index),
    {
        let sq_idx: u32 = sq.index();
        Bitboard::from_u64(
            self.vertical_attack(occupied.bits(), sq_idx) | self.horizontal_attack(
                occupied.bits(),
                sq_idx,
            ),
        )
    }
}

} // verus!
