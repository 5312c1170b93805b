use sfbinpack::chess::attacks::{
    bishop, can_castle, king, knight, pawn, piece_attacks, pseudo_legal_moves, queen, rook,
};
use sfbinpack::chess::bitboard::Bitboard;
use sfbinpack::chess::castling_rights::{CastleType, CastlingRights, CastlingTraits};
use sfbinpack::chess::chess_move::{Move, MoveType};
use sfbinpack::chess::color::Color;
use sfbinpack::chess::coords::{File, FlatSquareOffset, Rank, Square};
use sfbinpack::chess::hyperbola::HyperbolaQsc;
use sfbinpack::chess::piece::Piece;
use sfbinpack::chess::piecetype::PieceType;
use sfbinpack::chess::position::{Position, PositionError};
use sfbinpack::common::compressed_position::CompressedPosition;
use sfbinpack::skip::{is_capturing_move, is_in_check, simple_eval, SkipConfig};
use sfbinpack::TrainingDataEntry;

fn fen(text: &str) -> Position {
    Position::from_fen(text).unwrap()
}

fn after(text: &str, mv: Move) -> String {
    let mut pos = fen(text);
    assert!(pos.can_apply(mv));
    pos.do_move(mv);
    pos.fen().unwrap()
}

fn sq(index: u32) -> Square {
    Square::new(index)
}

#[test]
fn a_double_step_marks_the_square_only_if_a_pawn_can_capture_there() {
    let start = "rnbqkbnr/pppppppp/8/8/8/8/PPPPPPPP/RNBQKBNR w KQkq - 0 1";
    assert_eq!(
        after(start, Move::normal(sq(12), sq(28))),
        "rnbqkbnr/pppppppp/8/8/4P3/8/PPPP1PPP/RNBQKBNR b KQkq - 0 1"
    );
    assert_eq!(
        after(
            "rnbqkbnr/ppp1pppp/8/8/3p4/8/PPPPPPPP/RNBQKBNR w KQkq - 0 2",
            Move::normal(sq(12), sq(28))
        ),
        "rnbqkbnr/ppp1pppp/8/8/3pP3/8/PPPP1PPP/RNBQKBNR b KQkq e3 0 2"
    );
    // The pawn on d4 is pinned to its king by the rook on h4: it cannot
    // capture in passing.
    assert_eq!(
        after("8/8/8/8/k2p3R/8/4P3/4K3 w - - 0 1", Move::normal(sq(12), sq(28))),
        "8/8/8/8/k2pP2R/8/8/4K3 b - - 0 1"
    );
    // Without the rook it can.
    assert_eq!(
        after("8/8/8/8/k2p4/8/4P3/4K3 w - - 0 1", Move::normal(sq(12), sq(28))),
        "8/8/8/8/k2pP3/8/8/4K3 b - e3 0 1"
    );
    // Black's double step, with a white pawn beside it.
    assert_eq!(
        after("4k3/3p4/8/4P3/8/8/8/4K3 b - - 0 1", Move::normal(sq(51), sq(35))),
        "4k3/8/8/3pP3/8/8/8/4K3 w - d6 0 2"
    );
}

#[test]
fn a_capture_in_passing_takes_the_pawn_beside() {
    assert_eq!(
        after(
            "rnbqkbnr/ppp1pppp/8/8/3pP3/8/PPPP1PPP/RNBQKBNR b KQkq e3 0 2",
            Move::en_passant(sq(27), sq(20))
        ),
        "rnbqkbnr/ppp1pppp/8/8/8/4p3/PPPP1PPP/RNBQKBNR w KQkq - 0 3"
    );
}

#[test]
fn castling_is_the_king_taking_its_rook() {
    let both = "r3k2r/8/8/8/8/8/8/R3K2R w KQkq - 0 1";
    assert_eq!(
        after(both, Move::castle(sq(4), sq(7))),
        "r3k2r/8/8/8/8/8/8/R4RK1 b kq - 1 1"
    );
    assert_eq!(
        after(both, Move::castle(sq(4), sq(0))),
        "r3k2r/8/8/8/8/8/8/2KR3R b kq - 1 1"
    );
    let black = "r3k2r/8/8/8/8/8/8/R3K2R b KQkq - 0 1";
    assert_eq!(
        after(black, Move::from_castle(CastleType::Short, Color::Black)),
        "r4rk1/8/8/8/8/8/8/R3K2R w KQ - 1 2"
    );
    assert_eq!(
        after(black, Move::from_castle(CastleType::Long, Color::Black)),
        "2kr3r/8/8/8/8/8/8/R3K2R w KQ - 1 2"
    );
    assert_eq!(Move::castle(sq(4), sq(7)).castle_type(), CastleType::Short);
    assert_eq!(Move::castle(sq(60), sq(56)).castle_type(), CastleType::Long);
}

#[test]
fn castling_rights_go_with_king_and_rooks() {
    let both = "r3k2r/8/8/8/8/8/8/R3K2R w KQkq - 0 1";
    // The king moves: both rights of its side go.
    assert_eq!(
        after(both, Move::normal(sq(4), sq(12))),
        "r3k2r/8/8/8/8/8/4K3/R6R b kq - 1 1"
    );
    // A rook moves: the right of its wing goes.
    assert_eq!(
        after(both, Move::normal(sq(7), sq(15))),
        "r3k2r/8/8/8/8/8/7R/R3K3 b Qkq - 1 1"
    );
    assert_eq!(
        after(both, Move::normal(sq(0), sq(8))),
        "r3k2r/8/8/8/8/8/R7/4K2R b Kkq - 1 1"
    );
    // A rook is taken on its first square: its right goes, and so does the
    // right of the rook that took it.
    assert_eq!(
        after(both, Move::normal(sq(7), sq(63))),
        "r3k2R/8/8/8/8/8/8/R3K3 b Qq - 0 1"
    );
}

#[test]
fn a_pawn_becomes_the_piece_that_the_move_names() {
    assert_eq!(
        after(
            "8/P7/8/8/8/8/8/k6K w - - 0 1",
            Move::promotion(sq(48), sq(56), Piece::new(PieceType::Queen, Color::White))
        ),
        "Q7/8/8/8/8/8/8/k6K b - - 0 1"
    );
    assert_eq!(
        after(
            "K6k/8/8/8/8/8/p7/1R6 b - - 3 9",
            Move::promotion(sq(8), sq(1), Piece::new(PieceType::Knight, Color::Black))
        ),
        "K6k/8/8/8/8/8/8/1n6 w - - 0 10"
    );
}

#[test]
fn the_halfmove_clock_starts_again_on_pawn_moves_and_captures() {
    assert_eq!(
        after("4k3/8/8/8/8/8/4r3/4K3 w - - 5 10", Move::normal(sq(4), sq(12))),
        "4k3/8/8/8/8/8/4K3/8 b - - 0 10"
    );
    assert_eq!(
        after("4k3/8/8/8/8/8/4r3/4K3 w - - 5 10", Move::normal(sq(4), sq(3))),
        "4k3/8/8/8/8/8/4r3/3K4 b - - 6 10"
    );
    assert_eq!(
        after("4k3/8/8/8/8/4P3/8/4K3 w - - 5 10", Move::normal(sq(20), sq(28))),
        "4k3/8/8/8/4P3/8/8/4K3 b - - 0 10"
    );
    // The fullmove number goes up after Black's move.
    assert_eq!(
        after("4k3/8/8/8/8/4P3/8/4K3 b - - 5 10", Move::normal(sq(60), sq(59))),
        "3k4/8/8/8/8/4P3/8/4K3 w - - 6 11"
    );
}

#[test]
fn a_move_without_a_piece_cannot_be_made() {
    let pos = Position::new();
    assert!(!pos.can_apply(Move::normal(sq(30), sq(38))));
    assert!(!pos.can_apply(Move::null()));
    assert!(!pos.can_apply(Move::castle(sq(4), sq(4))));
    assert!(!pos.can_apply(Move::castle(sq(4), sq(36))));
    assert!(!pos.can_apply(Move::promotion(sq(8), sq(16), Piece::none())));
    assert!(pos.can_apply(Move::normal(sq(8), sq(16))));
    let mut late = fen("4k3/8/8/8/8/8/8/4K3 w - - 255 10");
    assert!(!late.can_apply(Move::normal(sq(4), sq(5))));
    late.set_rule50_counter(254);
    assert!(late.can_apply(Move::normal(sq(4), sq(5))));
    let last = fen("4k3/8/8/8/8/8/8/4K3 b - - 0 65535");
    assert!(!last.can_apply(Move::normal(sq(60), sq(61))));
}

#[test]
fn fen_fields_are_read_and_written() {
    for text in [
        "rnbqkbnr/pppppppp/8/8/8/8/PPPPPPPP/RNBQKBNR w KQkq - 0 1",
        "r3k2r/p1ppqpb1/bn2pnp1/3PN3/1p2P3/2N2Q1p/PPPBBPPP/R3K2R w KQkq - 0 1",
        "8/2p5/3p4/KP5r/1R3p1k/8/4P1P1/8 w - - 0 1",
        "rnbqkbnr/ppp1pppp/8/8/3pP3/8/PPPP1PPP/RNBQKBNR b Kq e3 12 345",
        "8/8/8/8/8/8/8/8 w - - 255 65535",
    ] {
        assert_eq!(fen(text).fen().unwrap(), text);
    }
    let pos = fen("  4k3/8/8/8/8/8/8/4K2R\tw   K  h3 +07   012 and more ");
    assert_eq!(pos.fen().unwrap(), "4k3/8/8/8/8/8/8/4K2R w K h3 7 12");
    assert_eq!(pos.side_to_move(), Color::White);
    assert_eq!(pos.ep_square(), sq(23));
    assert_eq!(pos.rule50_counter(), 7);
    assert!(pos.castling_rights().contains(CastlingRights::new(1)));
    assert_eq!(pos.piece_at(sq(7)), Piece::new(PieceType::Rook, Color::White));
    assert_eq!(pos.piece_at(sq(60)), Piece::new(PieceType::King, Color::Black));
    assert_eq!(pos.piece_at(sq(30)), Piece::none());
    // Digits only skip files: the rank still has its eight squares.
    assert_eq!(fen("08/8/8/8/8/8/8/0k01K04 b - - 0 1").fen().unwrap(), "8/8/8/8/8/8/8/k1K5 b - - 0 1");
}

#[test]
fn fen_that_is_no_fen_is_refused() {
    for text in [
        "",
        "8/8/8/8/8/8/8/8 w - -",
        "8/8/8/8/8/8/8/8 w - - 0",
        "8/8/8/8/8/8/8/8/8 w - - 0 1",
        "8/8/8/8/8/8/8/7x w - - 0 1",
        "8/8/8/8/8/8/8/8p w - - 0 1",
        "8/8/8/8/8/8/8/ppppppppp w - - 0 1",
        "8/8/8/8/8/8/8/8 w - e9 0 1",
        "8/8/8/8/8/8/8/8 w - e 0 1",
        "8/8/8/8/8/8/8/8 w - - 256 1",
        "8/8/8/8/8/8/8/8 w - - 0 65536",
        "8/8/8/8/8/8/8/8 w - - -1 1",
        "8/8/8/8/8/8/8/8 w - - + 1",
        "8/8/8/8/8/8/8/8 w - - 0 one",
    ] {
        assert_eq!(Position::from_fen(text), Err(PositionError::InvalidFEN), "{}", text);
    }
}

#[test]
fn a_damaged_piece_list_has_no_fen() {
    let mut pos = Position::new();
    assert!(pos.check_table());
    pos.pieces[20] = Piece { id: 13 };
    assert!(!pos.check_table());
    assert_eq!(pos.fen(), Err(PositionError::InvalidFEN));
}

#[test]
fn ply_and_counters() {
    let mut pos = Position::new();
    assert_eq!(pos.ply(), 0);
    pos.set_ply(39);
    assert_eq!(pos.ply(), 38);
    pos.set_side_to_move(Color::Black);
    assert_eq!(pos.ply(), 39);
    pos.set_rule50_counter(300);
    assert_eq!(pos.rule50_counter(), 44);
    pos.set_castling_rights(CastlingRights::empty());
    pos.add_castling_rights(CastlingTraits::castling_rights(Color::Black, CastleType::Long));
    assert_eq!(pos.castling_rights(), CastlingRights::new(8));
    pos.set_ep_square_unchecked(sq(44));
    assert_eq!(pos.ep_square(), sq(44));
    assert_eq!(Position::default(), Position::new());
    let empty = Position::empty();
    assert_eq!(empty.fen().unwrap(), "8/8/8/8/8/8/8/8 w - - 0 1");
    assert_eq!(empty.occupied().bits(), 0);
}

#[test]
fn bitboards_of_the_starting_position() {
    let pos = Position::new();
    assert_eq!(pos.occupied().bits(), 0xFFFF_0000_0000_FFFF);
    assert_eq!(pos.pieces_bb(Color::White).bits(), 0xFFFF);
    assert_eq!(pos.pieces_bb(Color::Black).bits(), 0xFFFF_0000_0000_0000);
    assert_eq!(pos.pieces_bb_type(PieceType::Pawn).bits(), 0x00FF_0000_0000_FF00);
    assert_eq!(pos.pieces_bb_type(PieceType::Knight).bits(), 0x4200_0000_0000_0042);
    assert_eq!(pos.pieces_bb_type(PieceType::Bishop).bits(), 0x2400_0000_0000_0024);
    assert_eq!(pos.pieces_bb_type(PieceType::Rook).bits(), 0x8100_0000_0000_0081);
    assert_eq!(pos.pieces_bb_type(PieceType::Queen).bits(), 0x0800_0000_0000_0008);
    assert_eq!(pos.pieces_bb_type(PieceType::King).bits(), 0x1000_0000_0000_0010);
    assert_eq!(pos.pieces_bb_color(Color::Black, PieceType::Queen).bits(), 1 << 59);
    assert_eq!(pos.king_sq(Color::White), sq(4));
    assert_eq!(pos.king_sq(Color::Black), sq(60));
    assert!(!pos.is_checked(Color::White));
    assert!(pos.is_attacked(sq(16), Color::White));
    assert!(!pos.is_attacked(sq(24), Color::White));
    assert!(pos.is_attacked(sq(42), Color::Black));
}

#[test]
fn checks_are_seen() {
    assert!(fen("4k3/8/8/8/8/8/4r3/4K3 w - - 0 1").is_checked(Color::White));
    assert!(!fen("4k3/8/8/8/8/8/4r3/4K3 w - - 0 1").is_checked(Color::Black));
    assert!(fen("4k3/8/8/8/8/5n2/8/4K3 w - - 0 1").is_checked(Color::White));
    assert!(fen("4k3/8/8/8/1b6/8/8/4K3 w - - 0 1").is_checked(Color::White));
    assert!(!fen("4k3/8/8/8/1b6/2P5/8/4K3 w - - 0 1").is_checked(Color::White));
    assert!(fen("4k3/8/8/8/8/8/3p4/4K3 w - - 0 1").is_checked(Color::White));
    assert!(fen("4k3/3P4/8/8/8/8/8/4K3 b - - 0 1").is_checked(Color::Black));
    assert!(!fen("4k3/4P3/8/8/8/8/8/4K3 b - - 0 1").is_checked(Color::Black));
    assert!(fen("q3k3/8/8/8/8/8/8/7K w - - 0 1").is_checked(Color::White));
}

#[test]
fn attacks_of_the_pieces() {
    assert_eq!(knight(sq(0)).bits(), (1 << 10) | (1 << 17));
    assert_eq!(knight(sq(27)).bits(), 0x0000_1422_0022_1400);
    assert_eq!(king(sq(0)).bits(), (1 << 1) | (1 << 8) | (1 << 9));
    assert_eq!(king(sq(63)).bits(), (1 << 62) | (1 << 55) | (1 << 54));
    assert_eq!(pawn(Color::White, sq(8)).bits(), 1 << 17);
    assert_eq!(pawn(Color::White, sq(12)).bits(), (1 << 19) | (1 << 21));
    assert_eq!(pawn(Color::Black, sq(12)).bits(), (1 << 3) | (1 << 5));
    assert_eq!(pawn(Color::Black, sq(55)).bits(), 1 << 46);
    // Pawns on their last rank attack nothing.
    for file in 0..8 {
        assert_eq!(pawn(Color::White, sq(56 + file)).bits(), 0);
        assert_eq!(pawn(Color::Black, sq(file)).bits(), 0);
    }
    // A rook on a1 with pieces on a4 and c1: it sees up to both.
    let occupied = Bitboard::new((1 << 24) | (1 << 2));
    assert_eq!(rook(sq(0), occupied).bits(), (1 << 8) | (1 << 16) | (1 << 24) | (1 << 1) | (1 << 2));
    // A bishop on c1 with a piece on e3.
    let occupied = Bitboard::new(1 << 20);
    assert_eq!(bishop(sq(2), occupied).bits(), (1 << 11) | (1 << 20) | (1 << 9) | (1 << 16));
    assert_eq!(
        queen(sq(27), Bitboard::new(0)).bits(),
        9241705379636978241 | 578721386714368008
    );
    assert_eq!(piece_attacks(PieceType::Knight, sq(27), occupied), knight(sq(27)));
    assert_eq!(piece_attacks(PieceType::King, sq(27), occupied), king(sq(27)));
    assert_eq!(piece_attacks(PieceType::Rook, sq(27), occupied), rook(sq(27), occupied));
    assert_eq!(piece_attacks(PieceType::Bishop, sq(27), occupied), bishop(sq(27), occupied));
    assert_eq!(piece_attacks(PieceType::Queen, sq(27), occupied), queen(sq(27), occupied));
}

#[test]
fn the_tables_agree_with_the_functions() {
    let tables = HyperbolaQsc::new();
    let mut occupied: u64 = 0x0123_4567_89AB_CDEF;
    for round in 0..200u64 {
        occupied = occupied.rotate_left(7) ^ round.wrapping_mul(0x9E37_79B9_7F4A_7C15);
        for index in 0..64 {
            let board = Bitboard::new(occupied);
            assert_eq!(tables.bishop_attack(sq(index), board), bishop(sq(index), board));
            assert_eq!(tables.rook_attack(sq(index), board), rook(sq(index), board));
            assert_eq!(
                tables.rook_attack(sq(index), board).bits(),
                tables.vertical_attack(occupied, index) | tables.horizontal_attack(occupied, index)
            );
            assert_eq!(
                tables.bishop_attack(sq(index), board).bits(),
                tables.diagonal_attack(occupied, index) | tables.antidiagonal_attack(occupied, index)
            );
            // A slider sees a square exactly if nothing stands between.
            let mut expected = 0u64;
            for (df, dr) in [(1i32, 0i32), (-1, 0), (0, 1), (0, -1)] {
                let (mut f, mut r) = ((index % 8) as i32 + df, (index / 8) as i32 + dr);
                while (0..8).contains(&f) && (0..8).contains(&r) {
                    expected |= 1 << (r * 8 + f);
                    if occupied & (1 << (r * 8 + f)) != 0 {
                        break;
                    }
                    f += df;
                    r += dr;
                }
            }
            assert_eq!(rook(sq(index), board).bits(), expected);
            let mut expected = 0u64;
            for (df, dr) in [(1i32, 1i32), (-1, 1), (1, -1), (-1, -1)] {
                let (mut f, mut r) = ((index % 8) as i32 + df, (index / 8) as i32 + dr);
                while (0..8).contains(&f) && (0..8).contains(&r) {
                    expected |= 1 << (r * 8 + f);
                    if occupied & (1 << (r * 8 + f)) != 0 {
                        break;
                    }
                    f += df;
                    r += dr;
                }
            }
            assert_eq!(bishop(sq(index), board).bits(), expected);
        }
    }
}

#[test]
fn moves_come_in_their_order() {
    let pos = fen("4k3/P7/8/8/8/8/8/R3K2R w KQ - 0 1");
    let moves: Vec<String> = pseudo_legal_moves(&pos).iter().map(|m| m.as_uci()).collect();
    assert_eq!(
        moves,
        [
            "a7a8q", "a7a8r", "a7a8b", "a7a8n", // the pawn
            "a1b1", "a1c1", "a1d1", "a1a2", "a1a3", "a1a4", "a1a5", "a1a6", // the rook on a1
            "h1f1", "h1g1", "h1h2", "h1h3", "h1h4", "h1h5", "h1h6", "h1h7", "h1h8", // on h1
            "e1d1", "e1f1", "e1d2", "e1e2", "e1f2", // the king
            "e1g1", "e1c1", // castling, short before long
        ]
    );
    let castle: Vec<Move> = pseudo_legal_moves(&pos)
        .iter()
        .filter(|m| m.mtype() == MoveType::Castle)
        .cloned()
        .collect();
    assert_eq!(castle, [Move::castle(sq(4), sq(7)), Move::castle(sq(4), sq(0))]);
    // Pushes come before captures, the double step after the single one.
    let pos = fen("4k3/8/8/8/8/3p1p2/4P3/4K3 w - - 0 1");
    let moves: Vec<String> = pseudo_legal_moves(&pos).iter().map(|m| m.as_uci()).collect();
    assert_eq!(&moves[..4], ["e2e3", "e2e4", "e2d3", "e2f3"]);
}

#[test]
fn no_castling_out_of_through_or_into_check() {
    let count = |text: &str| {
        pseudo_legal_moves(&fen(text))
            .iter()
            .filter(|m| m.mtype() == MoveType::Castle)
            .count()
    };
    assert_eq!(count("4k3/8/8/8/8/8/8/R3K2R w KQ - 0 1"), 2);
    assert_eq!(count("4k3/8/8/8/8/8/8/R3K2R w K - 0 1"), 1);
    assert_eq!(count("4k3/8/8/8/8/8/8/R3K2R w - - 0 1"), 0);
    assert_eq!(count("4k3/8/8/8/8/8/8/RN2K1NR w KQ - 0 1"), 0);
    assert_eq!(count("4r3/8/8/8/8/8/8/R3K2R w KQ - 0 1"), 0);
    assert_eq!(count("5r2/8/8/8/8/8/8/R3K2R w KQ - 0 1"), 1);
    assert_eq!(count("3r2r1/8/8/8/8/8/8/R3K2R w KQ - 0 1"), 0);
    // The rook may pass an attacked square; the king may not.
    assert_eq!(count("1r6/8/8/8/8/8/8/R3K2R w Q - 0 1"), 1);
}

#[test]
fn squares_files_and_ranks() {
    assert_eq!(Square::from_string("a1"), Some(sq(0)));
    assert_eq!(Square::from_string("h8"), Some(sq(63)));
    assert_eq!(Square::from_string("e3"), Some(sq(20)));
    assert_eq!(Square::from_string("i1"), None);
    assert_eq!(Square::from_string("a9"), None);
    assert_eq!(Square::from_string("a"), None);
    assert_eq!(Square::from_string("a10"), None);
    assert_eq!(Square::from_string(""), None);
    assert_eq!(sq(20).to_string(), "e3");
    assert_eq!(sq(20).file(), File::new(4));
    assert_eq!(sq(20).rank(), Rank::from_u32(2));
    assert_eq!(File::from_u32(7).to_string(), "h");
    assert_eq!(Rank::new(7).to_string(), "8");
    assert_eq!(sq(20).index(), 20);
    assert_eq!(Square::from_i32(63), sq(63));
    assert_eq!(Square::none().index(), 64);
    assert_eq!(sq(20).offset(1, 1), Some(sq(29)));
    assert_eq!(sq(20).offset(-5, 0), Some(sq(15)));
    assert_eq!(sq(20).offset(0, -3), None);
    assert_eq!(sq(60).offset(0, 1), None);
    assert!(Square::is_valid(7, 0));
    assert!(!Square::is_valid(8, 0));
    assert!(!Square::is_valid(0, -1));
    assert_eq!(Square::from_rank_file(2, 4), sq(20));
    assert_eq!(Square::from_rank_file(8, 4), Square::none());
    assert_eq!(sq(20) + FlatSquareOffset::new(1, 1), sq(29));
    assert_eq!(sq(20) + FlatSquareOffset::forward(Color::Black), sq(12));
    assert_eq!(FlatSquareOffset::new(1, 1).neg(), FlatSquareOffset::new(-1, -1));
    assert_eq!(FlatSquareOffset::default(), FlatSquareOffset::new(0, 0));
    assert_eq!(Rank::last_pawn_rank(Color::White), Rank::new(6));
    assert_eq!(Rank::last_pawn_rank(Color::Black), Rank::new(1));
}

#[test]
fn sets_of_squares() {
    let mut board = Bitboard::new(0b1011_0110);
    assert_eq!(board.count(), 5);
    assert_eq!(board.lsb(), sq(1));
    assert_eq!(board.msb(), sq(7));
    assert_eq!(board.pop(), sq(1));
    assert_eq!(board.bits(), 0b1011_0100);
    assert!(board.is_set(2));
    assert!(!board.is_set(3));
    assert!(board.sq_set(sq(7)));
    board.set(3, true);
    board.set(2, false);
    assert_eq!(board, Bitboard::from_u64(0b1011_1000));
    assert_eq!(board.iter().next(), Some(sq(3)));
    let mut squares = Vec::new();
    let mut iter = board.iter();
    while let Some(s) = iter.next() {
        squares.push(s.index());
    }
    assert_eq!(squares, [3, 4, 5, 7]);
    board.clear();
    assert_eq!(board.bits(), 0);
    assert_eq!(Bitboard::from_before(0).bits(), 0);
    assert_eq!(Bitboard::from_before(5).bits(), 0b1_1111);
    assert_eq!(Bitboard::from_before(63).bits(), u64::MAX >> 1);
    assert_eq!(Bitboard::from_square(sq(63)).bits(), 1 << 63);
    assert_eq!(Bitboard::from_file(1).bits(), 0x0202_0202_0202_0202);
    assert_eq!(Bitboard::from_rank(7).bits(), 0xFF00_0000_0000_0000);
    assert_eq!(Bitboard::new(0b101_1010).rank(), Rank::new(0b1011));
    assert_eq!(Bitboard::new(0b101_1010).file(), File::new(0b010));
    let a = Bitboard::new(0b1100);
    let b = Bitboard::new(0b1010);
    assert_eq!((a & b).bits(), 0b1000);
    assert_eq!((a | b).bits(), 0b1110);
    assert_eq!((!a).bits(), !0b1100u64);
}

#[test]
fn pieces_colors_and_rights() {
    assert_eq!(Piece::new(PieceType::Pawn, Color::White).id(), 0);
    assert_eq!(Piece::new(PieceType::King, Color::Black).id(), 11);
    assert_eq!(Piece::none().id(), 12);
    assert_eq!(Piece::none().piece_type(), PieceType::NoPiece);
    assert_eq!(Piece::from_id(7).parts(), (PieceType::Rook, Color::Black));
    assert_eq!(Piece::from_id(8).piece_type(), PieceType::Queen);
    assert_eq!(Piece::from_id(8).color(), Color::White);
    for ordinal in 0..=6 {
        assert_eq!(PieceType::from_ordinal(ordinal).ordinal(), ordinal);
    }
    assert_eq!(Color::from_ordinal(0), Color::White);
    assert_eq!(Color::Black.ordinal(), 1);
    assert_eq!(!Color::White, Color::Black);
    assert_eq!(Color::Black.opposite(), Color::White);
    for ordinal in 0..4 {
        assert_eq!(MoveType::from_ordinal(ordinal).ordinal(), ordinal);
    }
    assert_eq!(MoveType::from_ordinal(3), MoveType::EnPassant);
    let all = CastlingRights::all();
    assert_eq!(all.count_ones(), 4);
    assert_eq!(CastlingRights::empty().count_ones(), 0);
    assert_eq!(CastlingRights::castling_rights(Color::White), CastlingRights::new(3));
    assert_eq!(CastlingRights::castling_rights(Color::Black), CastlingRights::new(12));
    assert_eq!(
        CastlingTraits::castling_rights(Color::White, CastleType::Short),
        CastlingRights::new(1)
    );
    assert_eq!(
        CastlingTraits::castling_rights(Color::Black, CastleType::Long),
        CastlingRights::new(8)
    );
    assert!(all.contains(CastlingRights::new(5)));
    assert!(!CastlingRights::new(5).contains(CastlingRights::new(3)));
    assert_eq!(all & CastlingRights::new(6), CastlingRights::new(6));
    assert_eq!((!CastlingRights::new(6)) & all, CastlingRights::new(9));
    let mut rights = CastlingRights::new(6);
    rights.insert(CastlingRights::new(1));
    rights.remove(CastlingRights::new(4));
    assert_eq!(rights, CastlingRights::new(3));
}

#[test]
fn moves_in_uci_notation() {
    assert_eq!(Move::normal(sq(12), sq(28)).as_uci(), "e2e4");
    assert_eq!(Move::en_passant(sq(27), sq(20)).as_uci(), "d4e3");
    assert_eq!(
        Move::promotion(sq(48), sq(57), Piece::new(PieceType::Rook, Color::White)).as_uci(),
        "a7b8r"
    );
    assert_eq!(Move::castle(sq(4), sq(7)).as_uci(), "e1g1");
    assert_eq!(Move::castle(sq(4), sq(0)).as_uci(), "e1c1");
    assert_eq!(Move::castle(sq(60), sq(63)).as_uci(), "e8g8");
    assert_eq!(Move::castle(sq(60), sq(56)).as_uci(), "e8c8");
    assert_eq!(Move::default(), Move::null());
    let mv = Move::new(sq(1), sq(18), MoveType::Normal, Piece::none());
    assert_eq!((mv.from(), mv.to(), mv.mtype(), mv.promoted_piece()), (sq(1), sq(18), MoveType::Normal, Piece::none()));
}

#[test]
fn packing_keeps_rights_side_and_en_passant_square() {
    for text in [
        "rnbqkbnr/ppp1pppp/8/8/3pP3/8/PPPP1PPP/RNBQKBNR b KQkq e3 0 1",
        "4k3/8/8/3pP3/8/8/8/4K3 w - d6 0 1",
        "r3k2r/8/8/8/8/8/8/R3K2R b Kq - 0 1",
        "r3k2r/8/8/8/8/8/8/R3K2R w Qk - 0 1",
        "4k3/8/8/8/8/8/8/4K3 b - - 0 1",
    ] {
        let pos = fen(text);
        assert_eq!(CompressedPosition::compress(&pos).decompress(), pos, "{}", text);
    }
    // The codes: a pawn that can be captured in passing is 12, rooks
    // that may castle are 13 and 14, the black king to move is 15.
    let packed = CompressedPosition::compress(&fen("r3k3/8/8/8/4Pp2/8/8/4K2R b Kq e3 0 1"));
    assert_eq!(packed.occupied.bits(), (1 << 4) | (1 << 7) | (1 << 28) | (1 << 29) | (1 << 56) | (1 << 60));
    assert_eq!(packed.packed_state[..3], [0xDA, 0x1C, 0xFE]);
    assert_eq!(CompressedPosition::byte_size(), 24);
}

#[test]
fn continuations() {
    let first = TrainingDataEntry {
        pos: Position::new(),
        mv: Move::normal(sq(12), sq(28)),
        score: 30,
        ply: 0,
        result: 1,
    };
    let mut second = TrainingDataEntry {
        pos: first.pos.after_move(first.mv),
        mv: Move::normal(sq(52), sq(36)),
        score: -25,
        ply: 1,
        result: -1,
    };
    assert!(first.is_continuation(&second));
    assert!(!second.is_continuation(&first));
    second.ply = 2;
    assert!(!first.is_continuation(&second));
    second.ply = 1;
    second.result = 1;
    assert!(!first.is_continuation(&second));
    second.result = -1;
    second.pos.set_rule50_counter(3);
    assert!(!first.is_continuation(&second));
}

#[test]
fn what_a_filter_asks() {
    let mut config = SkipConfig::default();
    assert!(!config.is_active());
    config.early_fen_skipping = 0;
    assert!(config.is_active());
    config.early_fen_skipping = -1;
    config.simple_eval_skipping = 1;
    assert!(config.is_active());
    assert_eq!(simple_eval(&Position::new()), 0);
    assert_eq!(simple_eval(&fen("4k3/8/8/8/8/8/PP6/RNBQK3 w - - 0 1")), 2250);
    assert_eq!(simple_eval(&fen("rnbqk3/pp6/8/8/8/8/8/4K3 w - - 0 1")), -2250);
    let entry = |text: &str, mv: Move| TrainingDataEntry {
        pos: fen(text),
        mv,
        score: 0,
        ply: 0,
        result: 0,
    };
    assert!(is_capturing_move(&entry("4k3/8/8/8/8/8/4r3/4K3 w - - 0 1", Move::normal(sq(4), sq(12)))));
    assert!(!is_capturing_move(&entry("4k3/8/8/8/8/8/4r3/4K3 w - - 0 1", Move::normal(sq(4), sq(3)))));
    assert!(is_capturing_move(&entry(
        "4k3/8/8/8/3pP3/8/8/4K3 b - e3 0 1",
        Move::en_passant(sq(27), sq(20))
    )));
    assert!(is_in_check(&entry("4k3/8/8/8/8/8/4r3/4K3 w - - 0 1", Move::null())));
    assert!(!is_in_check(&entry("4k3/8/8/8/8/8/4r3/4K3 b - - 0 1", Move::null())));
}

#[test]
fn the_moves_of_the_starting_position_fit_in_a_move_list() {
    let pos = Position::new();
    assert!(sfbinpack::chess::move_count::fits_move_list(&pos));
    let moves = sfbinpack::chess::move_count::try_pseudo_legal_moves(&pos).unwrap();
    assert_eq!(moves.len(), 20);
    assert_eq!(moves.as_slice(), pseudo_legal_moves(&pos).as_slice());
}

#[test]
fn a_board_full_of_queens_has_its_moves_counted() {
    let pos = fen("rnbqkbnr/PPPPPPPP/QQQQQQQQ/Q6Q/Q6Q/Q6Q/Q6Q/KQQQQQQQ w - - 0 1");
    assert!(sfbinpack::chess::move_count::fits_move_list(&pos));
    let moves = sfbinpack::chess::move_count::try_pseudo_legal_moves(&pos).unwrap();
    // 56 promotions by capture, 188 moves of the queens, one of the king.
    assert_eq!(moves.len(), 245);
}

#[test]
fn a_side_without_a_king_has_no_move_list() {
    let pos = fen("4k3/8/8/8/8/8/PPPPPPPP/RNBQ1BNR w - - 0 1");
    assert!(sfbinpack::chess::move_count::try_pseudo_legal_moves(&pos).is_none());
}

#[test]
fn castling_is_tested_before_it_is_listed() {
    let pos = fen("r3k2r/8/8/8/8/8/8/R3K2R w KQkq - 0 1");
    assert!(can_castle(&pos, Color::White, 1, sq(4), sq(7)));
    assert!(can_castle(&pos, Color::White, 2, sq(4), sq(0)));
    assert!(can_castle(&pos, Color::Black, 4, sq(60), sq(63)));
    assert!(can_castle(&pos, Color::Black, 8, sq(60), sq(56)));
    let blocked = fen("r3k2r/8/8/8/8/8/8/RN2K1NR w KQkq - 0 1");
    assert!(!can_castle(&blocked, Color::White, 1, sq(4), sq(7)));
    assert!(!can_castle(&blocked, Color::White, 2, sq(4), sq(0)));
    let attacked = fen("r3k2r/8/8/8/8/5r2/8/R3K2R w KQkq - 0 1");
    assert!(!can_castle(&attacked, Color::White, 1, sq(4), sq(7)));
    assert!(can_castle(&attacked, Color::White, 2, sq(4), sq(0)));
    let no_right = fen("r3k2r/8/8/8/8/8/8/R3K2R w Qkq - 0 1");
    assert!(!can_castle(&no_right, Color::White, 1, sq(4), sq(7)));
}
