//! Board representation, attack generation and make-move.

pub mod attacks;
pub mod bitboard;
pub mod bits;
pub mod board_lemmas;
pub mod castling_rights;
pub mod chess_move;
pub mod color;
pub mod coords;
pub mod fen;
pub mod hyperbola;
pub mod move_count;
pub mod move_lemmas;
pub mod piece;
pub mod piecetype;
pub mod position;
pub mod text;
