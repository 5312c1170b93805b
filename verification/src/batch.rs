//! What a batch of samples is made of: the feature set by its name, the
//! bucket of a position by its number of pieces, and the indices of the
//! features that are active in a position, seen from one side.
//!
//! A HalfKP feature stands for a piece that is no king, on its square,
//! together with the square of the king of the side that looks at the
//! board. Black sees the board with the ranks mirrored.

use vstd::prelude::*;
use vstd::string::StringExecFns;
use crate::chess::attacks::pop_lsb;
use crate::chess::bits::{clear_lsb, lemma_lsb, lsb_index};
use crate::chess::color::Color;
use crate::chess::coords::Square;
use crate::chess::piece::Piece;
use crate::chess::piecetype::PieceType;
use crate::chess::position::Position;
use crate::reader::compressed_reader::CompressedReaderError;

verus! {

/// What can go wrong when samples are loaded from files.
#[derive(Debug)]
pub enum LoaderError {
    Io,
    Reader(CompressedReaderError),
    NoFiles,
    UnsupportedFeatureSet(String),
}

impl LoaderError {
    /// The message of the error.
    pub open spec fn spec_message(self) -> Seq<char> {
        match self {
            LoaderError::Io => "I/O error"@,
            LoaderError::Reader(e) => "Binpack reader error: "@ + e.spec_message(),
            LoaderError::NoFiles => "no binpack files provided"@,
            LoaderError::UnsupportedFeatureSet(name) => "unsupported feature set '"@ + name@
                + "'"@,
        }
    }

    /// The message of the error.
    pub fn to_string(&self) -> (r: String)
        ensures
            r@ == self.spec_message(),
    {
        match self {
            LoaderError::Io => String::from_str("I/O error"),
            LoaderError::Reader(e) => {
                let mut text = String::from_str("Binpack reader error: ");
                text.append(e.to_string().as_str());
                text
            },
            LoaderError::NoFiles => String::from_str("no binpack files provided"),
            LoaderError::UnsupportedFeatureSet(name) => {
                let mut text = String::from_str("unsupported feature set '");
                text.append(name.as_str());
                text.append("'");
                text
            },
        }
    }
}

/// The number of features that a sample can have for one side.
pub const MAX_ACTIVE_FEATURES: usize = 32;

#[derive(Clone, Copy, Debug)]
pub enum FeatureSet {
    HalfKP,
}

impl FeatureSet {
    /// The feature set of the given name. `HalfKP` is the only one.
    pub fn try_from_name(name: &str) -> (r: Result<FeatureSet, LoaderError>)
        ensures
            name@ == "HalfKP"@ ==> r is Ok,
            name@ != "HalfKP"@ ==> (r matches Err(LoaderError::UnsupportedFeatureSet(other))
                && other@ == name@),
    {
        let given = String::from_str(name);
        let known = String::from_str("HalfKP");
        if given == known {
            Ok(FeatureSet::HalfKP)
        } else {
            Err(LoaderError::UnsupportedFeatureSet(given))
        }
    }

    pub fn max_active_features(&self) -> (r: usize)
        ensures
            r == MAX_ACTIVE_FEATURES,
    {
        match self {
            FeatureSet::HalfKP => MAX_ACTIVE_FEATURES,
        }
    }
}

/// The bucket of a position with `piece_count` pieces: four numbers of
/// pieces share a bucket, and the empty board is in the first.
pub open spec fn spec_piece_bucket(piece_count: int) -> int {
    if piece_count <= 0 {
        0
    } else {
        (piece_count - 1) / 4
    }
}

pub fn piece_bucket(pos: &Position) -> (r: i32)
    ensures
        r == spec_piece_bucket(crate::chess::bits::popcount(pos.spec_occupied()) as int),
        0 <= r <= 15,
{
    proof {
        crate::chess::bits::lemma_popcount_bound(pos.spec_occupied());
    }
    let piece_count: u32 = pos.occupied().count();
    if piece_count == 0 {
        0
    } else {
        ((piece_count - 1) / 4) as i32
    }
}

/// A square as the side `color` sees it: Black sees the ranks mirrored.
pub open spec fn spec_orient_square(color: Color, sq: u32) -> u32 {
    if color == Color::White {
        sq
    } else {
        sq ^ 56
    }
}

proof fn lemma_mirror(sq: u32)
    by (bit_vector)
    requires
        sq < 64,
    ensures
        sq ^ 56 < 64,
        (sq ^ 56) ^ 56 == sq,
{
}

pub fn orient_square(color: Color, square: Square) -> (r: usize)
    requires
        square.on_board(),
    ensures
        r == spec_orient_square(color, square.index),
        r < 64,
{
    proof {
        lemma_mirror(square.index);
    }
    match color {
        Color::White => square.index() as usize,
        Color::Black => (square.index() ^ 56) as usize,
    }
}

/// Seeing a square twice from one side gives the square.
pub proof fn lemma_orient_involution(color: Color, sq: u32)
    requires
        sq < 64,
    ensures
        spec_orient_square(color, sq) < 64,
        spec_orient_square(color, spec_orient_square(color, sq)) == sq,
{
    lemma_mirror(sq);
}

/// The number by which a kind of piece is counted among the features:
/// kings are not counted.
pub open spec fn feature_kind(pt: PieceType) -> Option<int> {
    match pt {
        PieceType::Pawn => Some(0int),
        PieceType::Knight => Some(1int),
        PieceType::Bishop => Some(2int),
        PieceType::Rook => Some(3int),
        PieceType::Queen => Some(4int),
        _ => None,
    }
}

/// The index of the feature that stands for `piece` on square `sq`, seen
/// from the side `color` whose king's oriented square is `king_bucket`.
pub open spec fn feature_index(king_bucket: int, color: Color, piece: Piece, sq: u32) -> int {
    king_bucket * 640 + (if piece.spec_color() != color {
        320int
    } else {
        0int
    }) + feature_kind(piece.spec_piece_type()).unwrap() * 64 + spec_orient_square(color, sq)
}

/// The indices of the features of the pieces on the squares `pieces`,
/// from the lowest square up.
pub open spec fn features_of(pos: Position, color: Color, king_bucket: int, pieces: u64) -> Seq<
    i32,
>
    decreases pieces,
{
    if pieces == 0 {
        Seq::empty()
    } else {
        proof {
            lemma_lsb(pieces);
        }
        let sq = lsb_index(pieces);
        let piece = pos.pieces[sq as int];
        let rest = features_of(pos, color, king_bucket, clear_lsb(pieces));
        if sq < 64 && feature_kind(piece.spec_piece_type()).is_some() {
            seq![feature_index(king_bucket, color, piece, sq) as i32] + rest
        } else {
            rest
        }
    }
}

/// The indices of the features that are active in a position, seen from
/// the side `color`: those of the first 32 pieces that are no kings, from
/// the lowest square up, and -1 where there are fewer.
pub open spec fn spec_halfkp_indices(pos: Position, color: Color) -> Seq<i32> {
    let all = features_of(
        pos,
        color,
        spec_orient_square(color, pos.spec_king_sq(color)) as int,
        pos.spec_occupied() & !pos.spec_pieces_bb_type(PieceType::King),
    );
    Seq::new(
        32,
        |i: int|
            if i < all.len() {
                all[i]
            } else {
                -1i32
            },
    )
}

/// The indices of the features that are active in a position, seen from
/// the side `color`, which must have a king.
pub fn halfkp_indices(pos: &Position, color: Color) -> (r: Vec<i32>)
    requires
        pos.has_king(color),
    ensures
        r@ == spec_halfkp_indices(*pos, color),
{
    let king_sq = pos.king_sq(color);
    let king_bucket: usize = orient_square(color, king_sq);
    let mut pieces: u64 = pos.occupied().bits() & !pos.pieces_bb_type(PieceType::King).bits();
    let ghost all = features_of(*pos, color, king_bucket as int, pieces);
    let mut indices: Vec<i32> = Vec::new();
    while pieces != 0 && indices.len() < MAX_ACTIVE_FEATURES
        invariant
            king_bucket < 64,
            indices@.len() <= 32,
            all == indices@ + features_of(*pos, color, king_bucket as int, pieces),
        decreases pieces,
    {
        let ghost before = pieces;
        let square = pop_lsb(&mut pieces);
        let piece = pos.piece_at(square);
        let kind: usize = match piece.piece_type() {
            PieceType::Pawn => 0,
            PieceType::Knight => 1,
            PieceType::Bishop => 2,
            PieceType::Rook => 3,
            PieceType::Queen => 4,
            _ => {
                continue ;
            },
        };
        let enemy: usize = if piece.color() != color {
            320
        } else {
            0
        };
        let feature: usize = king_bucket * 640 + enemy + kind * 64 + orient_square(
            color,
            square,
        );
        indices.push(feature as i32);
        assert(indices@ + features_of(*pos, color, king_bucket as int, pieces) =~= all);
    }
    assert(pieces == 0 ==> all =~= indices@);
    let ghost wanted = spec_halfkp_indices(*pos, color);
    assert(wanted.len() == 32);
    assert forall|i: int| 0 <= i < 32 implies wanted[i] == (if i < all.len() {
        all[i]
    } else {
        -1i32
    }) by {}
    while indices.len() < MAX_ACTIVE_FEATURES
        invariant
            indices@.len() <= 32,
            all.len() <= indices@.len() || indices@.len() == 32,
            wanted.len() == 32,
            forall|i: int|
                0 <= i < 32 ==> wanted[i] == (if i < all.len() {
                    all[i]
                } else {
                    -1i32
                }),
            forall|i: int| 0 <= i < indices@.len() ==> indices@[i] == wanted[i],
        decreases 32 - indices@.len(),
    {
        indices.push(-1);
    }
    assert(indices@ =~= wanted);
    indices
}

/// The walk over the files from which samples are loaded: which file is
/// opened next. A cyclic walk starts again behind the last file.
#[derive(Clone, Copy, Debug)]
pub struct FileWalk {
    pub total: usize,
    pub next: usize,
    pub cyclic: bool,
}

impl FileWalk {
    /// The walk stands at a file, or behind the last one.
    pub open spec fn wf(&self) -> bool {
        self.total > 0 && self.next <= self.total
    }

    /// A walk over `total` files, of which there must be one at least,
    /// that starts at the first.
    pub fn new(total: usize, cyclic: bool) -> (r: Result<FileWalk, LoaderError>)
        ensures
            total == 0 ==> r matches Err(LoaderError::NoFiles),
            total > 0 ==> r == Ok::<FileWalk, LoaderError>(FileWalk { total, next: 0, cyclic }),
    {
        if total == 0 {
            return Err(LoaderError::NoFiles);
        }
        Ok(FileWalk { total, next: 0, cyclic })
    }

    /// The file to open when `attempts` files have been opened in vain:
    /// none when every file has been tried, or when the walk is behind
    /// the last file and does not start again.
    pub open spec fn spec_next_file(self, attempts: usize) -> Option<usize> {
        if attempts >= self.total {
            None
        } else if self.next < self.total {
            Some(self.next)
        } else if self.cyclic {
            Some(0usize)
        } else {
            None
        }
    }

    /// The index of the file to open next, when `attempts` files have
    /// been opened in vain since the last sample. The walk moves on
    /// behind the file that it names.
    pub fn next_file(&mut self, attempts: usize) -> (r: Option<usize>)
        requires
            old(self).wf(),
        ensures
            final(self).wf(),
            r == old(self).spec_next_file(attempts),
            final(self).total == old(self).total,
            final(self).cyclic == old(self).cyclic,
            match r {
                Some(index) => index < final(self).total && final(self).next == index + 1,
                None => final(self).next == old(self).next,
            },
    {
        if attempts >= self.total {
            return None;
        }
        if self.next >= self.total {
            if self.cyclic {
                self.next = 0;
            } else {
                return None;
            }
        }
        let index = self.next;
        self.next += 1;
        Some(index)
    }
}

} // verus!
