//! The state of a game: the board, the side to move, castling rights, the
//! en-passant square and the move counters.

use vstd::prelude::*;
use vstd::array::{spec_array_fill_for_copy_type, spec_array_update};
use vstd::std_specs::cmp::PartialEqSpecImpl;
use crate::chess::attacks;
use crate::chess::attacks::{king_attacks, knight_attacks, pawn_attacks};
use crate::chess::bitboard::Bitboard;
use crate::chess::board_lemmas::{lemma_place_wf, lemma_wf_same_board};
use crate::chess::bits::{bit64, clear_lsb, lemma_lsb, lsb_index};
use crate::chess::castling_rights::{
    CastlingTraits,
    CastleType, CastlingRights, ALL_CASTLING, BLACK_CASTLING, BLACK_KING_SIDE, BLACK_QUEEN_SIDE,
    WHITE_CASTLING, WHITE_KING_SIDE, WHITE_QUEEN_SIDE,
};
use crate::chess::chess_move::{Move, MoveType};
use crate::chess::color::Color;
use crate::chess::coords::{
    lemma_square_index_bits, Square, A1, A8, C1, C8, D1, D8, E1, E8, F1, F8, G1, G8, H1, H8,
};
use crate::chess::hyperbola::{bishop_attack_set, rook_attack_set};
use crate::chess::piece::{lemma_piece_parts, Piece};
use crate::chess::piecetype::PieceType;

verus! {

#[derive(Debug, Clone, Copy, Eq)]
pub struct Position {
    /// Bitboards for each piece type (PNBRQK).
    pub bb: [u64; 6],
    /// Bitboards for each color (White, Black).
    pub bb_color: [u64; 2],
    /// Piece list.
    pub pieces: [Piece; 64],
    /// Side to move.
    pub stm: Color,
    /// Castling rights.
    pub castling_rights: CastlingRights,
    /// Halfmove clock for the 50-move rule.
    pub halfm: u8,
    /// Fullmove number.
    pub fullm: u16,
    /// En passant target square.
    pub enpassant: Square,
}

#[derive(Debug, Clone, Copy, PartialEq, Eq, Structural)]
pub enum PositionError {
    InvalidFEN,
}

/// The piece ids of the starting position, square by square.
pub const START_PIECES: [u8; 64] = [
    6, 2, 4, 8, 10, 4, 2, 6,
    0, 0, 0, 0, 0, 0, 0, 0,
    12, 12, 12, 12, 12, 12, 12, 12,
    12, 12, 12, 12, 12, 12, 12, 12,
    12, 12, 12, 12, 12, 12, 12, 12,
    12, 12, 12, 12, 12, 12, 12, 12,
    1, 1, 1, 1, 1, 1, 1, 1,
    7, 3, 5, 9, 11, 5, 3, 7,
];

/// The rights that a side loses when a piece leaves or reaches one of the
/// squares `from` and `to`: both on the king's square, one on each rook's.
pub open spec fn castling_lost(color: Color, from: u32, to: u32) -> u8 {
    let (king, queen_rook, king_rook, both, queen_side, king_side) = match color {
        Color::White => (E1, A1, H1, WHITE_CASTLING, WHITE_QUEEN_SIDE, WHITE_KING_SIDE),
        Color::Black => (E8, A8, H8, BLACK_CASTLING, BLACK_QUEEN_SIDE, BLACK_KING_SIDE),
    };
    (if from == king || to == king {
        both
    } else {
        0u8
    }) | (if from == queen_rook || to == queen_rook {
        queen_side
    } else {
        0u8
    }) | (if from == king_rook || to == king_rook {
        king_side
    } else {
        0u8
    })
}

/// Where rook and king land when `side` castles on the given wing.
pub open spec fn castle_targets(side: Color, wing: CastleType) -> (u32, u32) {
    match (wing, side) {
        (CastleType::Short, Color::White) => (F1, G1),
        (CastleType::Short, Color::Black) => (F8, G8),
        (CastleType::Long, Color::White) => (D1, C1),
        (CastleType::Long, Color::Black) => (D8, C8),
    }
}

impl Position {
    /// Every entry of the piece list is a piece or the absence of one.
    pub open spec fn table_ok(self) -> bool {
        forall|sq: int| 0 <= sq < 64 ==> (#[trigger] self.pieces[sq]).wf()
    }

    /// Whether square `sq` is in the bitboard of piece type number `t`.
    pub open spec fn type_bit(self, t: int, sq: int) -> bool {
        bit64(self.bb[t], sq as u64)
    }

    /// Whether square `sq` is in the bitboard of side number `c`.
    pub open spec fn color_bit(self, c: int, sq: int) -> bool {
        bit64(self.bb_color[c], sq as u64)
    }

    /// The board is consistent: on every square the piece list agrees with
    /// the bitboards. So the piece-type bitboards are disjoint, and the two
    /// color bitboards split their union between them.
    pub open spec fn wf(self) -> bool {
        &&& self.table_ok()
        &&& forall|t: int, sq: int|
            0 <= t < 6 && 0 <= sq < 64 ==> (#[trigger] self.type_bit(t, sq) <==> self.pieces[sq].id
                / 2 == t)
        &&& forall|c: int, sq: int|
            0 <= c < 2 && 0 <= sq < 64 ==> (#[trigger] self.color_bit(c, sq) <==> (
            self.pieces[sq].is_piece() && self.pieces[sq].id % 2 == c))
    }

    /// The squares on which a piece of either side stands.
    pub open spec fn spec_occupied(self) -> u64 {
        self.bb_color[0] | self.bb_color[1]
    }

    /// The squares on which a piece of side `c` stands.
    pub open spec fn spec_pieces_bb(self, c: Color) -> u64 {
        self.bb_color[c.spec_ordinal() as int]
    }

    /// The squares on which a piece of kind `pt` stands.
    pub open spec fn spec_pieces_bb_type(self, pt: PieceType) -> u64 {
        self.bb[pt.spec_ordinal() as int]
    }

    /// The squares on which a piece of side `c` and kind `pt` stands.
    pub open spec fn spec_pieces_bb_color(self, c: Color, pt: PieceType) -> u64 {
        self.bb_color[c.spec_ordinal() as int] & self.bb[pt.spec_ordinal() as int]
    }

    /// Whether side `c` has a king on the board.
    pub open spec fn has_king(self, c: Color) -> bool {
        self.spec_pieces_bb_color(c, PieceType::King) != 0
    }

    /// The square of the king of side `c`: the lowest one, should there be
    /// several.
    pub open spec fn spec_king_sq(self, c: Color) -> u32 {
        lsb_index(self.spec_pieces_bb_color(c, PieceType::King))
    }

    /// The pieces of side `c` that attack square `sq`.
    pub open spec fn spec_attackers(self, sq: u32, c: Color) -> u64 {
        let occ = self.spec_occupied();
        (pawn_attacks(c.flip(), sq) & self.spec_pieces_bb_color(c, PieceType::Pawn)) | (
        knight_attacks(sq as u64) & self.spec_pieces_bb_color(c, PieceType::Knight)) | (
        king_attacks(sq as u64) & self.spec_pieces_bb_color(c, PieceType::King)) | (
        bishop_attack_set(occ, sq) & (self.spec_pieces_bb_color(c, PieceType::Bishop)
            | self.spec_pieces_bb_color(c, PieceType::Queen))) | (rook_attack_set(occ, sq) & (
        self.spec_pieces_bb_color(c, PieceType::Rook) | self.spec_pieces_bb_color(
            c,
            PieceType::Queen,
        )))
    }

    /// Whether a piece of side `c` attacks square `sq`.
    pub open spec fn spec_is_attacked(self, sq: u32, c: Color) -> bool {
        self.spec_attackers(sq, c) != 0
    }

    /// Whether the king of side `c` is attacked.
    pub open spec fn spec_is_checked(self, c: Color) -> bool {
        self.spec_is_attacked(self.spec_king_sq(c), c.flip())
    }

    /// The position with `pc` put on `sq` for `side`.
    pub open spec fn spec_place_piece(self, side: Color, pc: Piece, sq: u32) -> Position {
        let mask = 1u64 << sq;
        let c = side.spec_ordinal() as int;
        let t = pc.spec_piece_type().spec_ordinal() as int;
        Position {
            bb_color: spec_array_update(self.bb_color, c, self.bb_color[c] | mask),
            bb: spec_array_update(self.bb, t, self.bb[t] | mask),
            pieces: spec_array_update(self.pieces, sq as int, pc),
            ..self
        }
    }

    /// The position with the piece of kind `pt` and side `side` taken off
    /// `sq`.
    pub open spec fn spec_remove_piecetype(self, side: Color, pt: PieceType, sq: u32) -> Position {
        let mask = 1u64 << sq;
        let c = side.spec_ordinal() as int;
        let t = pt.spec_ordinal() as int;
        Position {
            bb_color: spec_array_update(self.bb_color, c, self.bb_color[c] ^ mask),
            bb: spec_array_update(self.bb, t, self.bb[t] ^ mask),
            pieces: spec_array_update(self.pieces, sq as int, Piece::spec_none()),
            ..self
        }
    }

    /// The position after `color` has lost the rights that a move between
    /// `from` and `to` costs it.
    pub open spec fn spec_update_castling(self, color: Color, from: u32, to: u32) -> Position {
        Position {
            castling_rights: CastlingRights(
                self.castling_rights.0 & !castling_lost(color, from, to),
            ),
            ..self
        }
    }

    /// Whether `mv` can be made: both squares are on the board, a piece
    /// stands on the origin, a promotion names a piece, a castling move has
    /// a piece on the rook's square, and the counters have room.
    pub open spec fn applicable(self, mv: Move) -> bool {
        &&& mv.from.on_board()
        &&& mv.to.on_board()
        &&& self.pieces[mv.from.index as int].is_piece()
        &&& mv.move_type == MoveType::Promotion ==> mv.promoted_piece.is_piece()
        &&& mv.move_type == MoveType::Castle ==> mv.to != mv.from
            && self.pieces[mv.to.index as int].is_piece()
        &&& (self.pieces[mv.from.index as int].spec_piece_type() != PieceType::Pawn
            && !self.captures(mv)) ==> self.halfm < 255
        &&& self.stm == Color::Black ==> self.fullm < 65535
    }

    /// Whether nothing stands on `sq` once the pieces on the two squares of
    /// `mv` have been lifted.
    pub open spec fn free_for(self, mv: Move, sq: u32) -> bool {
        sq == mv.from.index || sq == mv.to.index || self.pieces[sq as int] == Piece::spec_none()
    }

    /// Whether `mv` moves the pieces as a move of chess does: a piece of
    /// the side to move goes to another square that holds none of its own
    /// side; a promotion names a piece of that side; a capture in passing
    /// goes to an empty square beside a pawn of the other side; and a
    /// castling move names a rook of that side, with room for king and
    /// rook where they land.
    pub open spec fn playable(self, mv: Move) -> bool {
        let piece = self.pieces[mv.from.index as int];
        let target = self.pieces[mv.to.index as int];
        let takes = target == Piece::spec_none() || (target.is_piece() && target.spec_color()
            != self.stm);
        &&& self.applicable(mv)
        &&& mv.from != mv.to
        &&& piece.spec_color() == self.stm
        &&& match mv.move_type {
            MoveType::Normal => takes,
            MoveType::Promotion => takes && mv.promoted_piece.spec_color() == self.stm,
            MoveType::EnPassant => target == Piece::spec_none() && self.pieces[(mv.to.index
                ^ 8) as int] == Piece::spec_new(PieceType::Pawn, self.stm.flip()),
            MoveType::Castle => target == Piece::spec_new(PieceType::Rook, self.stm)
                && self.free_for(mv, castle_targets(self.stm, mv.spec_castle_type()).0)
                && self.free_for(mv, castle_targets(self.stm, mv.spec_castle_type()).1),
        }
    }

    /// Whether `mv` takes a piece on its destination.
    pub open spec fn captures(self, mv: Move) -> bool {
        mv.move_type != MoveType::Castle && mv.to != mv.from
            && self.pieces[mv.to.index as int] != Piece::spec_none()
    }

    /// The board after the moving piece has left, the piece on the
    /// destination has been taken, and the castling rights have followed.
    pub open spec fn spec_lift(self, mv: Move) -> Position {
        let us = self.stm;
        let them = us.flip();
        let pt = self.pieces[mv.from.index as int].spec_piece_type();
        let raised = self.spec_remove_piecetype(us, pt, mv.from.index);
        let cleared = if self.captures(mv) {
            let cap_pt = self.pieces[mv.to.index as int].spec_piece_type();
            let q = raised.spec_remove_piecetype(them, cap_pt, mv.to.index);
            if cap_pt == PieceType::Rook {
                q.spec_update_castling(them, mv.from.index, mv.to.index)
            } else {
                q
            }
        } else {
            raised
        };
        if pt == PieceType::King || pt == PieceType::Rook {
            cleared.spec_update_castling(us, mv.from.index, mv.to.index)
        } else {
            cleared
        }
    }

    /// The board after the lifted piece has come down again, by the kind of
    /// the move.
    pub open spec fn spec_settle(self, mv: Move, piece: Piece) -> Position {
        let us = self.stm;
        let them = us.flip();
        match mv.move_type {
            MoveType::Normal => self.spec_place_piece(us, piece, mv.to.index),
            MoveType::Promotion => self.spec_place_piece(us, mv.promoted_piece, mv.to.index),
            MoveType::EnPassant => self.spec_remove_piecetype(
                them,
                PieceType::Pawn,
                mv.to.index ^ 8,
            ).spec_place_piece(us, piece, mv.to.index),
            MoveType::Castle => {
                let (rook_to, king_to) = castle_targets(us, mv.spec_castle_type());
                let rook = self.pieces[mv.to.index as int];
                self.spec_remove_piecetype(us, PieceType::Rook, mv.to.index).spec_place_piece(
                    us,
                    rook,
                    rook_to,
                ).spec_place_piece(us, piece, king_to)
            },
        }
    }

    /// The board on which the pawn of the other side on `enemy_sq` has
    /// taken, in passing, the pawn of the side to move that stands on `to`,
    /// and has landed on `ep`.
    pub open spec fn spec_ep_capture(self, enemy_sq: u32, ep: u32, to: u32) -> Position {
        let us = self.stm;
        let them = us.flip();
        let enemy_pawn = self.pieces[enemy_sq as int];
        self.spec_remove_piecetype(them, PieceType::Pawn, enemy_sq).spec_place_piece(
            them,
            enemy_pawn,
            ep,
        ).spec_remove_piecetype(us, PieceType::Pawn, to)
    }

    /// Whether the capture in passing by the pawn on `enemy_sq` is legal:
    /// it does not leave the capturing side's king attacked.
    pub open spec fn spec_ep_capture_legal(self, enemy_sq: u32, ep: u32, to: u32) -> bool {
        let after = self.spec_ep_capture(enemy_sq, ep, to);
        self.pieces[enemy_sq as int].is_piece() && after.has_king(self.stm.flip())
            && !after.spec_is_checked(self.stm.flip())
    }

    /// Whether one of the pawns on the squares `candidates` can legally
    /// capture in passing on `ep` the pawn on `to`.
    pub open spec fn spec_ep_possible(self, candidates: u64, ep: u32, to: u32) -> bool
        decreases candidates,
    {
        if candidates == 0 {
            false
        } else if self.spec_ep_capture_legal(lsb_index(candidates), ep, to) {
            true
        } else {
            proof {
                lemma_lsb(candidates);
            }
            self.spec_ep_possible(clear_lsb(candidates), ep, to)
        }
    }

    /// The en-passant square after `mv` has been made on the board: set
    /// after a pawn's double step, and only if a pawn of the other side can
    /// legally capture there.
    pub open spec fn spec_ep_after(self, mv: Move, pt: PieceType) -> Square {
        let ep = mv.to.index ^ 8;
        let candidates = pawn_attacks(self.stm, ep) & self.spec_pieces_bb_color(
            self.stm.flip(),
            PieceType::Pawn,
        );
        if pt == PieceType::Pawn && (mv.to.index - mv.from.index == 16 || mv.from.index
            - mv.to.index == 16) && self.spec_ep_possible(candidates, ep, mv.to.index) {
            Square { index: ep }
        } else {
            Square::spec_none()
        }
    }

    /// The position after `mv`.
    pub open spec fn spec_after_move(self, mv: Move) -> Position {
        let piece = self.pieces[mv.from.index as int];
        let pt = piece.spec_piece_type();
        let board = self.spec_lift(mv).spec_settle(mv, piece);
        Position {
            halfm: if pt == PieceType::Pawn || self.captures(mv) {
                0u8
            } else {
                (self.halfm + 1) as u8
            },
            fullm: if self.stm == Color::Black {
                (self.fullm + 1) as u16
            } else {
                self.fullm
            },
            enpassant: board.spec_ep_after(mv, pt),
            stm: self.stm.flip(),
            ..board
        }
    }

    /// The position from which a game starts.
    pub open spec fn is_start(self) -> bool {
        &&& self.wf()
        &&& forall|sq: int| 0 <= sq < 64 ==> (#[trigger] self.pieces[sq]).id == START_PIECES[sq]
        &&& self.stm == Color::White
        &&& self.castling_rights.0 == ALL_CASTLING
        &&& self.halfm == 0
        &&& self.fullm == 1
        &&& self.enpassant == Square::spec_none()
    }

    pub fn new() -> (r: Position)
        ensures
            r.is_start(),
    {
        let mut pos = Position::empty();
        let mut sq: u32 = 0;
        while sq < 64
            invariant
                sq <= 64,
                pos.wf(),
                forall|j: int| 0 <= j < sq ==> (#[trigger] pos.pieces[j]).id == START_PIECES[j],
                forall|j: int| sq <= j < 64 ==> #[trigger] pos.pieces[j] == Piece::spec_none(),
                pos.stm == Color::White,
                pos.halfm == 0,
                pos.fullm == 1,
                pos.enpassant == Square::spec_none(),
            decreases 64 - sq,
        {
            let id: u8 = START_PIECES[sq as usize];
            if id < 12 {
                pos.place(Piece::from_id(id as i32), Square::new(sq));
            }
            sq += 1;
        }
        let ghost placed = pos;
        pos.castling_rights = CastlingRights::all();
        proof {
            lemma_wf_same_board(placed, pos);
        }
        pos
    }

    /// The empty board, White to move, nobody may castle.
    pub open spec fn spec_empty() -> Position {
        Position {
            bb: spec_array_fill_for_copy_type::<u64, 6>(0u64),
            bb_color: spec_array_fill_for_copy_type::<u64, 2>(0u64),
            pieces: spec_array_fill_for_copy_type::<Piece, 64>(Piece::spec_none()),
            stm: Color::White,
            castling_rights: CastlingRights(0),
            halfm: 0,
            fullm: 1,
            enpassant: Square::spec_none(),
        }
    }

    pub fn empty() -> (r: Position)
        ensures
            r == Position::spec_empty(),
            r.wf(),
    {
        let r = Position {
            bb: [0u64;6],
            bb_color: [0u64;2],
            pieces: [Piece::none();64],
            stm: Color::White,
            castling_rights: CastlingRights::empty(),
            halfm: 0,
            fullm: 1,
            enpassant: Square::none(),
        };
        proof {
            lemma_empty_wf();
        }
        r
    }

    /// Returns the current side to move's color.
    pub fn side_to_move(&self) -> (r: Color)
        ensures
            r == self.stm,
    {
        self.stm
    }

    /// Returns a bitboard with all occupied squares.
    pub fn occupied(&self) -> (r: Bitboard)
        ensures
            r.data == self.spec_occupied(),
    {
        Bitboard::new(self.bb_color[0] | self.bb_color[1])
    }

    /// Returns the bitboard of all pieces of a given color.
    pub fn pieces_bb(&self, color: Color) -> (r: Bitboard)
        ensures
            r.data == self.spec_pieces_bb(color),
    {
        Bitboard::new(self.bb_color[color.idx()])
    }

    /// Returns the bitboard of all pieces of a given piece type.
    pub fn pieces_bb_type(&self, pt: PieceType) -> (r: Bitboard)
        requires
            pt != PieceType::NoPiece,
        ensures
            r.data == self.spec_pieces_bb_type(pt),
    {
        Bitboard::new(self.bb[pt.ordinal() as usize])
    }

    /// Returns the bitboard of all pieces of a given color and piece type.
    pub fn pieces_bb_color(&self, color: Color, pt: PieceType) -> (r: Bitboard)
        requires
            pt != PieceType::NoPiece,
        ensures
            r.data == self.spec_pieces_bb_color(color, pt),
    {
        Bitboard::new(self.bb_color[color.idx()] & self.bb[pt.ordinal() as usize])
    }

    /// Returns the piece at a given square, `Piece::none()` if the square is
    /// empty.
    pub fn piece_at(&self, square: Square) -> (r: Piece)
        requires
            square.on_board(),
        ensures
            r == self.pieces[square.index as int],
    {
        self.pieces[square.index() as usize]
    }

    /// Returns the castling rights.
    pub fn castling_rights(&self) -> (r: CastlingRights)
        ensures
            r == self.castling_rights,
    {
        self.castling_rights
    }

    /// Returns the en passant square, or no square if there is none.
    pub fn ep_square(&self) -> (r: Square)
        ensures
            r == self.enpassant,
    {
        self.enpassant
    }

    /// Tells whether every entry of the piece list is a piece or the
    /// absence of one.
    pub fn check_table(&self) -> (r: bool)
        ensures
            r == self.table_ok(),
    {
        let mut sq: usize = 0;
        while sq < 64
            invariant
                sq <= 64,
                forall|j: int| 0 <= j < sq ==> (#[trigger] self.pieces[j]).wf(),
            decreases 64 - sq,
        {
            if self.pieces[sq].id > 12 {
                return false;
            }
            sq += 1;
        }
        true
    }

    /// Tells whether `mv` can be made on this position.
    pub fn can_apply(&self, mv: Move) -> (r: bool)
        ensures
            r == self.applicable(mv),
    {
        let from = mv.from();
        let to = mv.to();
        if from.index() >= 64 || to.index() >= 64 {
            return false;
        }
        let piece = self.piece_at(from);
        if piece.id() >= 12 {
            return false;
        }
        if mv.mtype() == MoveType::Promotion && mv.promoted_piece().id() >= 12 {
            return false;
        }
        if mv.mtype() == MoveType::Castle && (to == from || self.piece_at(to).id() >= 12) {
            return false;
        }
        let captures = mv.mtype() != MoveType::Castle && to != from && self.piece_at(to)
            != Piece::none();
        if piece.piece_type() != PieceType::Pawn && !captures && self.halfm == 255 {
            return false;
        }
        if self.stm == Color::Black && self.fullm == 65535 {
            return false;
        }
        true
    }

    /// Make a move on the board.
    pub fn do_move(&mut self, mv: Move)
        requires
            old(self).table_ok(),
            old(self).applicable(mv),
        ensures
            *final(self) == old(self).spec_after_move(mv),
            final(self).table_ok(),
            old(self).wf() && old(self).playable(mv) ==> final(self).wf(),
    {
        proof {
            if self.wf() && self.playable(mv) {
                crate::chess::move_lemmas::lemma_move_keeps_wf(*self, mv);
            }
        }
        let from = mv.from();
        let to = mv.to();
        let piece = self.piece_at(from);
        let pt = piece.piece_type();
        let us = self.stm;
        let them = us.opposite();
        let ghost before = *self;

        // clear piece from start
        self.remove_piecetype(us, pt, from);

        // capture piece
        let mut capture = false;
        if mv.mtype() != MoveType::Castle {
            let captured = self.piece_at(to);
            if captured != Piece::none() {
                let cap_pt = captured.piece_type();
                self.remove_piecetype(them, cap_pt, to);
                if cap_pt == PieceType::Rook {
                    self.update_castling_rights_color(them, from, to);
                }
                capture = true;
            }
        }
        if pt == PieceType::King || pt == PieceType::Rook {
            self.update_castling_rights_color(us, from, to);
        }
        assert(*self == before.spec_lift(mv));
        assert(capture == before.captures(mv));

        proof {
            lemma_square_index_bits(to.index);
        }
        match mv.mtype() {
            MoveType::Promotion => {
                self.place_piece(us, mv.promoted_piece(), to);
            },
            MoveType::EnPassant => {
                let captured_sq = Square::new(to.index() ^ 8);
                self.remove_piecetype(them, PieceType::Pawn, captured_sq);
                self.place_piece(us, piece, to);
            },
            MoveType::Normal => {
                self.place_piece(us, piece, to);
            },
            MoveType::Castle => {
                let short = mv.castle_type() == CastleType::Short;
                let white = us == Color::White;
                let rook_to = Square::new(
                    if short {
                        if white {
                            F1
                        } else {
                            F8
                        }
                    } else {
                        if white {
                            D1
                        } else {
                            D8
                        }
                    },
                );
                let king_to = Square::new(
                    if short {
                        if white {
                            G1
                        } else {
                            G8
                        }
                    } else {
                        if white {
                            C1
                        } else {
                            C8
                        }
                    },
                );
                let rook = self.piece_at(to);
                self.remove_piecetype(us, PieceType::Rook, to);
                self.place_piece(us, rook, rook_to);
                self.place_piece(us, piece, king_to);
            },
        }
        assert(*self == before.spec_lift(mv).spec_settle(mv, piece));
        let enpassant = self.ep_square_after(mv, pt);

        // Update halfmove clock
        if pt == PieceType::Pawn || capture {
            self.halfm = 0;
        } else {
            self.halfm = self.halfm + 1;
        }

        // Update fullmove number
        if us == Color::Black {
            self.fullm = self.fullm + 1;
        }
        self.enpassant = enpassant;

        // Switch side to move
        self.stm = them;
    }

    /// The en-passant square that `mv`, just made on this board by a piece
    /// of kind `pt`, leaves behind. The side that moved is still to move.
    fn ep_square_after(&self, mv: Move, pt: PieceType) -> (r: Square)
        requires
            mv.from.on_board(),
            mv.to.on_board(),
        ensures
            r == self.spec_ep_after(mv, pt),
    {
        let from = mv.from();
        let to = mv.to();
        let us = self.stm;
        let them = us.opposite();
        let double_step = (to.index() >= from.index() && to.index() - from.index() == 16) || (
        from.index() >= to.index() && from.index() - to.index() == 16);
        if !(pt == PieceType::Pawn && double_step) {
            return Square::none();
        }
        proof {
            lemma_square_index_bits(to.index);
        }
        let ep = Square::new(to.index() ^ 8);

        // the enemy pawns that can pseudo capture the pawn
        let ep_mask = attacks::pawn(us, ep);
        let enemy_mask = self.pieces_bb_color(them, PieceType::Pawn);
        let mut candidates: u64 = ep_mask.bits() & enemy_mask.bits();
        let ghost all = candidates;

        // check if an enemy pawn can legally capture the pawn;
        // if so set the ep square
        while candidates != 0
            invariant
                us == self.stm,
                them == us.flip(),
                to == mv.to,
                to.on_board(),
                ep.on_board(),
                ep.index == to.index ^ 8,
                pt == PieceType::Pawn,
                mv.to.index - mv.from.index == 16 || mv.from.index - mv.to.index == 16,
                all == pawn_attacks(us, ep.index) & self.spec_pieces_bb_color(
                    them,
                    PieceType::Pawn,
                ),
                self.spec_ep_possible(all, ep.index, to.index) == self.spec_ep_possible(
                    candidates,
                    ep.index,
                    to.index,
                ),
            decreases candidates,
        {
            proof {
                lemma_lsb(candidates);
            }
            let ghost unchecked = candidates;
            let enemy_sq = Square::new(candidates.trailing_zeros());
            candidates = candidates & (candidates - 1);
            let enemy_pawn = self.piece_at(enemy_sq);
            if enemy_pawn.id() < 12 {
                // play the capture on a copy of the board
                let mut after: Position = *self;
                after.remove_piecetype(them, PieceType::Pawn, enemy_sq);
                after.place_piece(them, enemy_pawn, ep);
                after.remove_piecetype(us, PieceType::Pawn, to);

                // check if the side which captured is in check
                if after.pieces_bb_color(them, PieceType::King).bits() != 0 && !after.is_checked(
                    them,
                ) {
                    assert(self.spec_ep_capture_legal(enemy_sq.index, ep.index, to.index));
                    assert(self.spec_ep_possible(unchecked, ep.index, to.index));
                    return ep;
                }
            }
        }
        Square::none()
    }

    pub fn set_castling_rights(&mut self, rights: CastlingRights)
        ensures
            *final(self) == (Position { castling_rights: rights, ..*old(self) }),
    {
        self.castling_rights = rights;
    }

    /// No validation is done, use with caution.
    pub fn set_ep_square_unchecked(&mut self, sq: Square)
        ensures
            *final(self) == (Position { enpassant: sq, ..*old(self) }),
    {
        self.enpassant = sq;
    }

    pub fn add_castling_rights(&mut self, rights: CastlingRights)
        ensures
            *final(self) == (Position {
                castling_rights: old(self).castling_rights.spec_with(rights),
                ..*old(self)
            }),
    {
        self.castling_rights.insert(rights);
    }

    pub fn set_side_to_move(&mut self, side: Color)
        ensures
            *final(self) == (Position { stm: side, ..*old(self) }),
    {
        self.stm = side;
    }

    pub fn set_ply(&mut self, ply: u16)
        ensures
            *final(self) == (Position { fullm: (ply / 2 + 1) as u16, ..*old(self) }),
    {
        self.fullm = (ply / 2) + 1;
    }

    pub fn ply(&self) -> (r: u16)
        requires
            1 <= self.fullm <= 32768,
        ensures
            r == (self.fullm - 1) * 2 + self.stm.spec_ordinal(),
    {
        ((self.fullm - 1) * 2) + (self.stm.ordinal() as u16)
    }

    pub fn set_rule50_counter(&mut self, counter: u16)
        ensures
            *final(self) == (Position { halfm: (counter % 256) as u8, ..*old(self) }),
    {
        self.halfm = (counter % 256) as u8;
    }

    pub fn rule50_counter(&self) -> (r: u16)
        ensures
            r == self.halfm,
    {
        self.halfm as u16
    }

    /// Places a piece on the board.
    pub fn place(&mut self, pc: Piece, sq: Square)
        requires
            pc.is_piece(),
            sq.on_board(),
        ensures
            *final(self) == old(self).spec_place_piece(pc.spec_color(), pc, sq.index),
            old(self).table_ok() ==> final(self).table_ok(),
            old(self).wf() && old(self).pieces[sq.index as int] == Piece::spec_none()
                ==> final(self).wf(),
    {
        proof {
            if self.wf() && self.pieces[sq.index as int] == Piece::spec_none() {
                lemma_place_wf(*self, pc.spec_color(), pc, sq.index);
            }
        }
        self.place_piece(pc.color(), pc, sq);
    }

    /// Places a piece on the board.
    fn place_piece(&mut self, side: Color, pc: Piece, sq: Square)
        requires
            pc.is_piece(),
            sq.on_board(),
        ensures
            *final(self) == old(self).spec_place_piece(side, pc, sq.index),
            old(self).table_ok() ==> final(self).table_ok(),
    {
        let mask: u64 = 1u64 << (sq.index());
        self.bb_color[side.idx()] = self.bb_color[side.idx()] | mask;
        let t: usize = pc.piece_type().ordinal() as usize;
        self.bb[t] = self.bb[t] | mask;
        self.pieces[sq.index() as usize] = pc;
    }

    /// Removes a piece from the board.
    pub fn remove_piece(&mut self, side: Color, pc: Piece, sq: Square)
        requires
            pc.is_piece(),
            sq.on_board(),
        ensures
            *final(self) == old(self).spec_remove_piecetype(side, pc.spec_piece_type(), sq.index),
            old(self).table_ok() ==> final(self).table_ok(),
    {
        proof {
            lemma_piece_parts(pc);
        }
        self.remove_piecetype(side, pc.piece_type(), sq);
    }

    fn remove_piecetype(&mut self, side: Color, pt: PieceType, sq: Square)
        requires
            pt != PieceType::NoPiece,
            sq.on_board(),
        ensures
            *final(self) == old(self).spec_remove_piecetype(side, pt, sq.index),
            old(self).table_ok() ==> final(self).table_ok(),
    {
        let mask: u64 = 1u64 << (sq.index());
        self.bb_color[side.idx()] = self.bb_color[side.idx()] ^ mask;
        let t: usize = pt.ordinal() as usize;
        self.bb[t] = self.bb[t] ^ mask;
        self.pieces[sq.index() as usize] = Piece::none();
    }

    /// Check if a square is attacked by the given color.
    pub fn is_attacked(&self, sq: Square, c: Color) -> (r: bool)
        requires
            sq.on_board(),
        ensures
            r == self.spec_is_attacked(sq.index, c),
    {
        let occupied = self.occupied();
        let pawns: u64 = self.pieces_bb_color(c, PieceType::Pawn).bits();
        let knights: u64 = self.pieces_bb_color(c, PieceType::Knight).bits();
        let kings: u64 = self.pieces_bb_color(c, PieceType::King).bits();
        let bishops: u64 = self.pieces_bb_color(c, PieceType::Bishop).bits();
        let rooks: u64 = self.pieces_bb_color(c, PieceType::Rook).bits();
        let queens: u64 = self.pieces_bb_color(c, PieceType::Queen).bits();

        // fast stuff first
        let attackers: u64 = (attacks::pawn(c.opposite(), sq).bits() & pawns) | (attacks::knight(sq).bits()
            & knights) | (attacks::king(sq).bits() & kings) | (attacks::bishop(
            sq,
            occupied,
        ).bits() & (bishops | queens)) | (attacks::rook(sq, occupied).bits() & (rooks | queens));
        attackers != 0
    }

    /// Returns the square of the king of the given color.
    pub fn king_sq(&self, c: Color) -> (r: Square)
        requires
            self.has_king(c),
        ensures
            r.index == self.spec_king_sq(c),
            r.on_board(),
    {
        self.pieces_bb_color(c, PieceType::King).lsb()
    }

    /// Returns true if the given color is in check.
    pub fn is_checked(&self, c: Color) -> (r: bool)
        requires
            self.has_king(c),
        ensures
            r == self.spec_is_checked(c),
    {
        self.is_attacked(self.king_sq(c), c.opposite())
    }

    fn update_castling_rights_color(&mut self, color: Color, from: Square, to: Square)
        ensures
            *final(self) == old(self).spec_update_castling(color, from.index, to.index),
    {
        let white = color == Color::White;
        let king: u32 = if white {
            E1
        } else {
            E8
        };
        let queen_rook: u32 = if white {
            A1
        } else {
            A8
        };
        let king_rook: u32 = if white {
            H1
        } else {
            H8
        };
        let both: u8 = if from.index() == king || to.index() == king {
            CastlingRights::castling_rights(color).0
        } else {
            0
        };
        let queen_side: u8 = if from.index() == queen_rook || to.index() == queen_rook {
            CastlingTraits::castling_rights(color, CastleType::Long).0
        } else {
            0
        };
        let king_side: u8 = if from.index() == king_rook || to.index() == king_rook {
            CastlingTraits::castling_rights(color, CastleType::Short).0
        } else {
            0
        };
        self.castling_rights.remove(CastlingRights::new(both | queen_side | king_side));
    }

    pub fn after_move(&self, mv: Move) -> (r: Position)
        requires
            self.table_ok(),
            self.applicable(mv),
        ensures
            r == self.spec_after_move(mv),
            r.table_ok(),
            self.wf() && self.playable(mv) ==> r.wf(),
    {
        let mut pos = *self;
        pos.do_move(mv);
        pos
    }
}

impl Default for Position {
    fn default() -> (r: Position)
        ensures
            r.is_start(),
    {
        Position::new()
    }
}

impl PartialEq for Position {
    fn eq(&self, other: &Position) -> (r: bool) {
        let mut t: usize = 0;
        while t < 6
            invariant
                t <= 6,
                forall|j: int| 0 <= j < t ==> self.bb[j] == other.bb[j],
            decreases 6 - t,
        {
            if self.bb[t] != other.bb[t] {
                return false;
            }
            t += 1;
        }
        if self.bb_color[0] != other.bb_color[0] || self.bb_color[1] != other.bb_color[1] {
            return false;
        }
        let mut sq: usize = 0;
        while sq < 64
            invariant
                sq <= 64,
                forall|j: int| 0 <= j < sq ==> self.pieces[j] == other.pieces[j],
            decreases 64 - sq,
        {
            if self.pieces[sq] != other.pieces[sq] {
                return false;
            }
            sq += 1;
        }
        assert(self.bb =~= other.bb);
        assert(self.bb_color =~= other.bb_color);
        assert(self.pieces =~= other.pieces);
        self.stm == other.stm && self.castling_rights == other.castling_rights && self.halfm
            == other.halfm && self.fullm == other.fullm && self.enpassant == other.enpassant
    }
}

impl PartialEqSpecImpl for Position {
    open spec fn obeys_eq_spec() -> bool {
        true
    }

    open spec fn eq_spec(&self, other: &Position) -> bool {
        *self == *other
    }
}

pub proof fn lemma_empty_wf()
    ensures
        Position::spec_empty().wf(),
{
    let p = Position::spec_empty();
    assert forall|t: int, sq: int| 0 <= t < 6 && 0 <= sq < 64 implies (#[trigger] p.type_bit(t, sq)
        <==> p.pieces[sq].id / 2 == t) by {
        crate::chess::bits::lemma_bit_ops(0, 0, sq as u64);
    }
    assert forall|c: int, sq: int| 0 <= c < 2 && 0 <= sq < 64 implies (#[trigger] p.color_bit(
        c,
        sq,
    ) <==> (p.pieces[sq].is_piece() && p.pieces[sq].id % 2 == c)) by {
        crate::chess::bits::lemma_bit_ops(0, 0, sq as u64);
    }
}

} // verus!
