//! Squares, files and ranks. Square `i` has file `i & 7` and rank `i >> 3`.

use vstd::prelude::*;
use vstd::std_specs::ops::AddSpecImpl;
use vstd::std_specs::ops::NegSpecImpl;
use vstd::std_specs::ops::SubSpecImpl;
use crate::chess::color::Color;
use crate::chess::text::{decimal, push_decimal};

verus! {

/// A signed distance between two square indices.
#[derive(Debug, Copy, Clone, PartialEq, Eq, Structural)]
pub struct FlatSquareOffset {
    pub value: i8,
}

impl FlatSquareOffset {
    /// The offset of `files` files and `ranks` ranks, which must fit in a
    /// signed byte.
    pub fn new(files: i32, ranks: i32) -> (r: FlatSquareOffset)
        requires
            -128 <= files + ranks * 8 <= 127,
        ensures
            r.value == files + ranks * 8,
    {
        let offset: i64 = files as i64 + (ranks as i64) * 8;
        FlatSquareOffset { value: offset as i8 }
    }

    pub fn default() -> (r: FlatSquareOffset)
        ensures
            r.value == 0,
    {
        FlatSquareOffset { value: 0 }
    }

    pub fn neg(&self) -> (r: FlatSquareOffset)
        requires
            self.value > -128,
        ensures
            r.value == -self.value,
    {
        FlatSquareOffset { value: -self.value }
    }

    /// One rank towards the far side of the board, as `color` sees it.
    pub open spec fn spec_forward(color: Color) -> FlatSquareOffset {
        match color {
            Color::White => FlatSquareOffset { value: 8 },
            Color::Black => FlatSquareOffset { value: (-8) as i8 },
        }
    }

    pub fn forward(color: Color) -> (r: FlatSquareOffset)
        ensures
            r == FlatSquareOffset::spec_forward(color),
    {
        if color == Color::White {
            FlatSquareOffset::new(0, 1)
        } else {
            FlatSquareOffset::new(0, -1)
        }
    }
}

/// A square of the board by its index in `0..64`, or no square (index 64).
#[derive(Debug, Copy, Clone, PartialEq, Eq, Structural)]
pub struct Square {
    pub index: u32,
}

/// A file (column) of the board: 0 is the a-file, 7 the h-file.
#[derive(Debug, Copy, Clone, PartialEq, Eq, Structural)]
pub struct File {
    pub index: u32,
}

/// A rank (row) of the board: 0 is the first rank, 7 the eighth.
#[derive(Debug, Copy, Clone, PartialEq, Eq, Structural)]
pub struct Rank {
    pub index: u32,
}

pub const A1: u32 = 0;

pub const B1: u32 = 1;

pub const C1: u32 = 2;

pub const D1: u32 = 3;

pub const E1: u32 = 4;

pub const F1: u32 = 5;

pub const G1: u32 = 6;

pub const H1: u32 = 7;

pub const A8: u32 = 56;

pub const B8: u32 = 57;

pub const C8: u32 = 58;

pub const D8: u32 = 59;

pub const E8: u32 = 60;

pub const F8: u32 = 61;

pub const G8: u32 = 62;

pub const H8: u32 = 63;

/// The index that stands for no square.
pub const NO_SQUARE: u32 = 64;

/// Masks and shifts on a square index, as arithmetic.
pub proof fn lemma_square_index_bits(i: u32)
    by (bit_vector)
    ensures
        i & 7 == i % 8,
        i >> 3 == i / 8,
        i ^ 8 == (if (i / 8) % 2 == 0 {
            i + 8
        } else {
            i - 8
        }),
        i < 64 ==> i ^ 8 < 64,
{
}

impl Square {
    /// Whether this is one of the 64 squares.
    pub open spec fn on_board(self) -> bool {
        self.index < 64
    }

    /// No square.
    pub open spec fn spec_none() -> Square {
        Square { index: 64 }
    }

    pub open spec fn spec_file(self) -> File {
        File { index: self.index % 8 }
    }

    pub open spec fn spec_rank(self) -> Rank {
        Rank { index: self.index / 8 }
    }

    /// The square on rank `r` and file `f`, or no square if either is
    /// outside `0..8`.
    pub open spec fn spec_from_rank_file(r: int, f: int) -> Square {
        if 0 <= r < 8 && 0 <= f < 8 {
            Square { index: (r * 8 + f) as u32 }
        } else {
            Square::spec_none()
        }
    }

    /// The square named by two characters, a file letter `a..h` and a rank
    /// digit `1..8`, if `s` is such a name.
    pub open spec fn spec_from_string(s: Seq<char>) -> Option<Square> {
        if s.len() != 2 {
            None
        } else {
            let f = s[0] as int - 97;
            let r = s[1] as int - 49;
            if 0 <= r < 8 && 0 <= f < 8 {
                Some(Square { index: (r * 8 + f) as u32 })
            } else {
                None
            }
        }
    }

    /// The square `files` files and `ranks` ranks away by index, if that
    /// index is on the board.
    pub open spec fn spec_offset(self, files: int, ranks: int) -> Option<Square> {
        let target = self.index + files + ranks * 8;
        if 0 <= target < 64 {
            Some(Square { index: target as u32 })
        } else {
            None
        }
    }

    /// The name of the square: file letter, then rank number.
    pub open spec fn spec_name(self) -> Seq<char> {
        self.spec_file().spec_name() + self.spec_rank().spec_name()
    }

    #[must_use]
    pub fn new(index: u32) -> (r: Square)
        requires
            index < 64,
        ensures
            r.index == index,
    {
        Square { index }
    }

    /// No square.
    #[must_use]
    pub fn none() -> (r: Square)
        ensures
            r == Square::spec_none(),
    {
        Square { index: NO_SQUARE }
    }

    #[must_use]
    pub fn from_i32(index: i32) -> (r: Square)
        requires
            0 <= index < 64,
        ensures
            r.index == index,
    {
        Square { index: index as u32 }
    }

    pub fn from_string(s: &str) -> (r: Option<Square>)
        ensures
            r == Square::spec_from_string(s@),
    {
        if s.unicode_len() != 2 {
            return None;
        }
        let file: i64 = s.get_char(0) as i64 - 97;
        let rank: i64 = s.get_char(1) as i64 - 49;
        if Square::is_valid(rank, file) {
            Some(Square::from_rank_file(rank, file))
        } else {
            None
        }
    }

    #[must_use]
    pub fn index(self) -> (r: u32)
        ensures
            r == self.index,
    {
        self.index
    }

    #[must_use]
    pub fn file(self) -> (r: File)
        ensures
            r == self.spec_file(),
    {
        proof {
            lemma_square_index_bits(self.index);
        }
        File::new(self.index & 7)
    }

    #[must_use]
    pub fn rank(self) -> (r: Rank)
        ensures
            r == self.spec_rank(),
    {
        proof {
            lemma_square_index_bits(self.index);
        }
        Rank::new(self.index >> 3)
    }

    #[must_use]
    pub fn offset(self, files: i32, ranks: i32) -> (r: Option<Square>)
        ensures
            r == self.spec_offset(files as int, ranks as int),
    {
        let target: i64 = self.index as i64 + files as i64 + (ranks as i64) * 8;
        if 0 <= target && target < 64 {
            Some(Square { index: target as u32 })
        } else {
            None
        }
    }

    /// Check if the rank and file are within bounds.
    #[must_use]
    pub fn is_valid(r: i64, f: i64) -> (ok: bool)
        ensures
            ok == (0 <= r < 8 && 0 <= f < 8),
    {
        r >= 0 && r < 8 && f >= 0 && f < 8
    }

    #[must_use]
    pub fn from_rank_file(r: i64, f: i64) -> (sq: Square)
        ensures
            sq == Square::spec_from_rank_file(r as int, f as int),
    {
        if Square::is_valid(r, f) {
            Square { index: (r * 8 + f) as u32 }
        } else {
            Square::none()
        }
    }

    /// The name of the square: file letter, then rank number.
    pub fn to_string(&self) -> (r: String)
        ensures
            r@ == self.spec_name(),
    {
        let mut out = self.file().to_string();
        let rank = self.rank();
        push_decimal(&mut out, rank.index + 1);
        out
    }
}

impl core::ops::Add<FlatSquareOffset> for Square {
    type Output = Square;

    fn add(self, rhs: FlatSquareOffset) -> (r: Square) {
        Square { index: (self.index as i32 + rhs.value as i32) as u32 }
    }
}

impl AddSpecImpl<FlatSquareOffset> for Square {
    open spec fn obeys_add_spec() -> bool {
        true
    }

    open spec fn add_req(self, rhs: FlatSquareOffset) -> bool {
        self.index <= 0x7fff_ffff - 127 && self.index + rhs.value >= 0
    }

    open spec fn add_spec(self, rhs: FlatSquareOffset) -> Square {
        Square { index: (self.index + rhs.value) as u32 }
    }
}

impl core::ops::Add<Square> for Square {
    type Output = Square;

    fn add(self, rhs: Square) -> (r: Square) {
        Square { index: self.index + rhs.index }
    }
}

impl AddSpecImpl<Square> for Square {
    open spec fn obeys_add_spec() -> bool {
        true
    }

    open spec fn add_req(self, rhs: Square) -> bool {
        self.index + rhs.index <= 0x7fff_ffff
    }

    open spec fn add_spec(self, rhs: Square) -> Square {
        Square { index: (self.index + rhs.index) as u32 }
    }
}

impl core::ops::Sub<Square> for Square {
    type Output = Square;

    fn sub(self, rhs: Square) -> (r: Square) {
        Square { index: self.index - rhs.index }
    }
}

impl SubSpecImpl<Square> for Square {
    open spec fn obeys_sub_spec() -> bool {
        true
    }

    /// The difference must be a square of the board.
    open spec fn sub_req(self, rhs: Square) -> bool {
        0 <= self.index - rhs.index < 64
    }

    open spec fn sub_spec(self, rhs: Square) -> Square {
        Square { index: (self.index - rhs.index) as u32 }
    }
}

impl core::ops::Neg for FlatSquareOffset {
    type Output = FlatSquareOffset;

    fn neg(self) -> (r: FlatSquareOffset) {
        FlatSquareOffset { value: -self.value }
    }
}

impl NegSpecImpl for FlatSquareOffset {
    open spec fn obeys_neg_spec() -> bool {
        true
    }

    open spec fn neg_req(self) -> bool {
        self.value > -128
    }

    open spec fn neg_spec(self) -> FlatSquareOffset {
        FlatSquareOffset { value: (-self.value) as i8 }
    }
}

impl File {
    /// The letter of the file, `a` for file 0.
    pub open spec fn spec_name(self) -> Seq<char> {
        seq![((97 + self.index) as u8) as char]
    }

    pub fn new(index: u32) -> (r: File)
        ensures
            r.index == index,
    {
        File { index }
    }

    pub fn from_u32(index: u32) -> (r: File)
        ensures
            r.index == index,
    {
        File { index }
    }

    /// The letter of the file.
    pub fn to_string(&self) -> (r: String)
        requires
            self.index < 8,
        ensures
            r@ == self.spec_name(),
    {
        let mut out = String::new();
        out.push((97u8 + self.index as u8) as char);
        assert(out@ =~= self.spec_name());
        out
    }
}

impl Rank {
    /// The number of the rank, `1` for rank 0.
    pub open spec fn spec_name(self) -> Seq<char> {
        decimal((self.index + 1) as nat)
    }

    /// The rank from which a pawn of `color` promotes with its next move.
    pub open spec fn spec_last_pawn_rank(color: Color) -> Rank {
        match color {
            Color::White => Rank { index: 6 },
            Color::Black => Rank { index: 1 },
        }
    }

    pub fn new(index: u32) -> (r: Rank)
        ensures
            r.index == index,
    {
        Rank { index }
    }

    pub fn from_u32(index: u32) -> (r: Rank)
        ensures
            r.index == index,
    {
        Rank { index }
    }

    pub fn last_pawn_rank(color: Color) -> (r: Rank)
        ensures
            r == Rank::spec_last_pawn_rank(color),
    {
        if color == Color::White {
            Rank { index: 6 }
        } else {
            Rank { index: 1 }
        }
    }

    /// The number of the rank.
    pub fn to_string(&self) -> (r: String)
        requires
            self.index < u32::MAX,
        ensures
            r@ == self.spec_name(),
    {
        let mut out = String::new();
        push_decimal(&mut out, self.index + 1);
        assert(out@ =~= self.spec_name());
        out
    }
}

} // verus!
