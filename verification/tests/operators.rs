use sfbinpack::chess::bitboard::Bitboard;
use sfbinpack::chess::castling_rights::CastlingRights;
use sfbinpack::chess::chess_move::Move;
use sfbinpack::chess::color::Color;
use sfbinpack::chess::coords::{FlatSquareOffset, Square};
use sfbinpack::chess::piece::Piece;
use sfbinpack::chess::piecetype::PieceType;
use sfbinpack::chess::position::Position;
use sfbinpack::TrainingDataEntry;

#[test]
fn squares_add_and_subtract_by_their_indices() {
    assert_eq!((Square::new(12) + Square::new(16)).index(), 28);
    assert_eq!((Square::new(28) - Square::new(16)).index(), 12);
    assert_eq!((Square::new(63) - Square::new(63)).index(), 0);
}

#[test]
fn an_offset_is_negated() {
    let up = FlatSquareOffset::new(1, 1);
    assert_eq!((Square::new(20) + up).index(), 29);
    assert_eq!((Square::new(29) + (-up)).index(), 20);
    assert_eq!((Square::new(29) + up.neg()).index(), 20);
}

#[test]
fn bitboards_meet_by_reference_and_join_in_place() {
    let a = Bitboard::new(0b1100);
    let b = Bitboard::new(0b1010);
    assert_eq!((&a & &b).bits(), 0b1000);
    let mut c = a;
    c |= b;
    assert_eq!(c.bits(), 0b1110);
}

#[test]
fn castling_rights_change_in_place() {
    let mut rights = CastlingRights::all();
    rights &= CastlingRights::new(0b0101);
    assert_eq!(rights.0, 0b0101);
    rights |= CastlingRights::new(0b0010);
    assert_eq!(rights.0, 0b0111);
}

#[test]
fn a_piece_is_removed_from_the_board() {
    let mut pos = Position::new();
    pos.remove_piece(
        Color::White,
        Piece::new(PieceType::Queen, Color::White),
        Square::new(3),
    );
    assert_eq!(pos.fen().unwrap(), "rnbqkbnr/pppppppp/8/8/8/8/PPPPPPPP/RNB1KBNR w KQkq - 0 1");
    assert_eq!(pos.occupied().count(), 31);
}

#[test]
fn a_sample_is_written_as_text() {
    let entry = TrainingDataEntry {
        pos: Position::new(),
        mv: Move::normal(Square::new(12), Square::new(28)),
        score: -127,
        ply: 39,
        result: -1,
    };
    assert_eq!(
        entry.to_string(),
        "rnbqkbnr/pppppppp/8/8/8/8/PPPPPPPP/RNBQKBNR w KQkq - 0 1 e2e4 -127 39 -1"
    );
    let other = TrainingDataEntry { score: 32767, ply: 0, result: 0, ..entry };
    assert_eq!(
        other.to_string(),
        "rnbqkbnr/pppppppp/8/8/8/8/PPPPPPPP/RNBQKBNR w KQkq - 0 1 e2e4 32767 0 0"
    );
    let least = TrainingDataEntry { score: -32768, ply: 65535, result: 1, ..entry };
    assert_eq!(
        least.to_string(),
        "rnbqkbnr/pppppppp/8/8/8/8/PPPPPPPP/RNBQKBNR w KQkq - 0 1 e2e4 -32768 65535 1"
    );
}
