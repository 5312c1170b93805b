//! What a filter of samples needs to know of a sample: whether filtering
//! is asked for at all, whether the sample's move captures, whether its
//! side to move is in check, and the material balance of its position.

use vstd::prelude::*;
use crate::chess::chess_move::MoveType;
use crate::chess::color::Color;
use crate::chess::coords::Square;
use crate::chess::piece::Piece;
use crate::chess::piecetype::PieceType;
use crate::chess::position::Position;
use crate::common::entry::TrainingDataEntry;

verus! {

/// What a filter of samples is asked to do.
#[derive(Debug, Clone)]
pub struct SkipConfig {
    pub filtered: bool,
    pub random_fen_skipping: i32,
    pub wld_filtered: bool,
    pub early_fen_skipping: i32,
    pub simple_eval_skipping: i32,
    pub param_index: i32,
}

impl Default for SkipConfig {
    fn default() -> (r: SkipConfig)
        ensures
            !r.spec_is_active(),
            r.param_index == 0,
    {
        SkipConfig {
            filtered: false,
            random_fen_skipping: 0,
            wld_filtered: false,
            early_fen_skipping: -1,
            simple_eval_skipping: -1,
            param_index: 0,
        }
    }
}

impl SkipConfig {
    /// Whether any kind of filtering is asked for.
    pub open spec fn spec_is_active(&self) -> bool {
        self.filtered || self.random_fen_skipping > 0 || self.wld_filtered
            || self.early_fen_skipping >= 0 || self.simple_eval_skipping > 0
    }

    pub fn is_active(&self) -> (r: bool)
        ensures
            r == self.spec_is_active(),
    {
        self.filtered || self.random_fen_skipping > 0 || self.wld_filtered
            || self.early_fen_skipping >= 0 || self.simple_eval_skipping > 0
    }
}

/// The value of a piece in centipawns, positive for White.
pub open spec fn piece_value(pc: Piece) -> int {
    let value: int = match pc.spec_piece_type() {
        PieceType::Pawn => 100,
        PieceType::Knight => 320,
        PieceType::Bishop => 330,
        PieceType::Rook => 500,
        PieceType::Queen => 900,
        _ => 0,
    };
    if pc == Piece::spec_none() {
        0
    } else if pc.spec_color() == Color::White {
        value
    } else {
        -value
    }
}

/// The material balance of the first `n` squares.
pub open spec fn material(pieces: Seq<Piece>, n: nat) -> int
    decreases n,
{
    if n == 0 {
        0
    } else {
        material(pieces, (n - 1) as nat) + piece_value(pieces[n - 1])
    }
}

proof fn lemma_material_bound(pieces: Seq<Piece>, n: nat)
    ensures
        -900 * n <= material(pieces, n) <= 900 * n,
    decreases n,
{
    if n > 0 {
        lemma_material_bound(pieces, (n - 1) as nat);
    }
}

/// Whether the move of the sample captures: it is a capture in passing,
/// or its destination holds a piece of the other side than its origin.
pub fn is_capturing_move(entry: &TrainingDataEntry) -> (r: bool)
    requires
        entry.mv.from.on_board(),
        entry.mv.to.on_board(),
    ensures
        r == (entry.mv.move_type == MoveType::EnPassant || (entry.pos.pieces[entry.mv.to.index as int]
            != Piece::spec_none() && entry.pos.pieces[entry.mv.to.index as int].spec_color()
            != entry.pos.pieces[entry.mv.from.index as int].spec_color())),
{
    let mv = entry.mv;
    if mv.mtype() == MoveType::EnPassant {
        return true;
    }
    let from_piece = entry.pos.piece_at(mv.from());
    let to_piece = entry.pos.piece_at(mv.to());
    to_piece != Piece::none() && to_piece.color() != from_piece.color()
}

/// Whether the side to move of the sample is in check.
pub fn is_in_check(entry: &TrainingDataEntry) -> (r: bool)
    requires
        entry.pos.has_king(entry.pos.stm),
    ensures
        r == entry.pos.spec_is_checked(entry.pos.stm),
{
    let side = entry.pos.side_to_move();
    entry.pos.is_checked(side)
}

/// The material balance of a position in centipawns, positive for White.
pub fn simple_eval(pos: &Position) -> (score: i32)
    ensures
        score == material(pos.pieces@, 64),
{
    let mut score: i32 = 0;
    let mut idx: u32 = 0;
    while idx < 64
        invariant
            idx <= 64,
            score == material(pos.pieces@, idx as nat),
        decreases 64 - idx,
    {
        proof {
            lemma_material_bound(pos.pieces@, idx as nat);
        }
        let square = Square::new(idx);
        let piece = pos.piece_at(square);
        idx += 1;
        if piece == Piece::none() {
            continue ;
        }
        let value: i32 = match piece.piece_type() {
            PieceType::Pawn => 100,
            PieceType::Knight => 320,
            PieceType::Bishop => 330,
            PieceType::Rook => 500,
            PieceType::Queen => 900,
            _ => 0,
        };
        if piece.color() == Color::White {
            score += value;
        } else {
            score -= value;
        }
    }
    score
}

} // verus!
