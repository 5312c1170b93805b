use sfbinpack::chess::attacks::{bishop, pseudo_legal_moves, rook};
use sfbinpack::chess::bitboard::Bitboard;
use sfbinpack::chess::chess_move::MoveType;
use sfbinpack::chess::coords::Square;
use sfbinpack::chess::piecetype::PieceType;
use sfbinpack::chess::position::Position;

const STARTPOS: &str = "rnbqkbnr/pppppppp/8/8/8/8/PPPPPPPP/RNBQKBNR w KQkq - 0 1";

fn perft(pos: &Position, depth: u32) -> u64 {
    if depth == 0 {
        return 1;
    }

    let mut nodes = 0;

    let moves = pseudo_legal_moves(&pos);

    for mv in moves {
        let new_pos = pos.after_move(mv);
        if !new_pos.is_checked(pos.side_to_move()) {
            nodes += perft(&new_pos, depth - 1);
        }
    }

    nodes
}

fn split_perft(fen: &str, depth: u32) -> u64 {
    let pos = Position::from_fen(fen).unwrap();
    let moves = pseudo_legal_moves(&pos);
    let mut total_nodes = 0;

    for mv in moves {
        let new_pos = pos.after_move(mv);
        if !new_pos.is_checked(pos.side_to_move()) {
            let nodes = perft(&new_pos, depth - 1);
            total_nodes += nodes;
            println!("{}: {}", mv.as_uci(), nodes);
        }
    }

    println!("Total nodes: {}", total_nodes);
    total_nodes
}

#[test]
fn test_bishop_mask() {
    assert_eq!(
        bishop(Square::new(27), Bitboard::new(0)).bits(),
        9241705379636978241
    );
    assert_eq!(
        rook(Square::new(27), Bitboard::new(0)).bits(),
        578721386714368008
    );
}

#[test]
fn test_pseudo_moves_startpos() {
    let pos = &Position::from_fen(STARTPOS).unwrap();
    let moves = pseudo_legal_moves(&pos);
    assert_eq!(moves.len(), 20);
}

#[test]
fn test_knight_pseudo_moves() {
    let pos = &Position::from_fen("k7/8/8/3N4/8/8/8/6K1 w - - 0 1").unwrap();
    let moves = pseudo_legal_moves(&pos);
    let knight_moves = moves
        .iter()
        .filter(|m| pos.piece_at(m.from()).piece_type() == PieceType::Knight)
        .count();
    assert_eq!(knight_moves, 8);
}

#[test]
fn test_en_passant_included() {
    let pos = &Position::from_fen("k7/8/8/3pP3/8/8/8/6K1 w - d6 0 1").unwrap();
    let moves = pseudo_legal_moves(&pos);
    assert!(moves.iter().any(|m| m.mtype() == MoveType::EnPassant));
}

#[test]
fn test_perft_startpos_depth_1() {
    assert_eq!(split_perft(STARTPOS, 1), 20);
}

#[test]
fn test_perft_startpos_depth_2() {
    assert_eq!(split_perft(STARTPOS, 2), 400);
}

#[test]
fn test_perft_startpos_depth_3() {
    assert_eq!(split_perft(STARTPOS, 3), 8902);
}

#[test]
fn test_perft_startpos_depth_4() {
    assert_eq!(split_perft(STARTPOS, 4), 197281);
}

#[test]
fn test_perft_startpos_depth_5() {
    assert_eq!(split_perft(STARTPOS, 5), 4865609);
}

#[test]
fn test_perft_custom_position_1() {
    assert_eq!(
        split_perft(
            "rnbqkbnr/ppp1pppp/3p4/8/8/2P5/PP1PPPPP/RNBQKBNR w KQkq - 0 2",
            1
        ),
        21
    );
}

#[test]
fn test_perft_custom_position_2() {
    assert_eq!(
        split_perft(
            "rnbqkbnr/pppppppp/8/8/8/2P5/PP1PPPPP/RNBQKBNR b KQkq - 0 1",
            2
        ),
        420
    );
}

#[test]
fn test_perft_castle_position() {
    assert_eq!(
        split_perft(
            "r3k2r/p1ppqpb1/bn2pnp1/3PN3/1p2P3/2N2Q1p/PPPBBPPP/R3K2R w KQkq - 0 1",
            1
        ),
        48
    );
}

#[test]
fn test_perft_complex_position_1() {
    assert_eq!(
        split_perft(
            "r3k2r/p1ppqpb1/bnN1pnp1/3P4/1p2P3/2N2Q1p/PPPBBPPP/R3K2R b KQkq - 1 1",
            1
        ),
        41
    );
}

#[test]
fn test_perft_complex_position_2() {
    assert_eq!(
        split_perft(
            "r3k2r/p1ppqpb1/bn2pnp1/3PN3/1p2P3/P1N2Q2/1PPBBPpP/R3K2R w KQkq - 0 2",
            1
        ),
        48
    );
}

#[test]
fn test_perft_complex_position_32() {
    assert_eq!(
        split_perft(
            "r3k2r/p1pNqpb1/bn2pnp1/3P4/1p2P3/2N2Q1p/PPPBBPPP/R3K2R b KQkq - 0 1",
            1
        ),
        45
    );
}

#[test]
fn test_perft_complex_position_3() {
    assert_eq!(
        split_perft(
            "r3k2r/p1ppqpb1/bn2pnp1/3PN3/1p2P3/2N2Q1p/PPPBBPPP/R3K2R w KQkq - 0 1",
            2
        ),
        2039
    );
}

#[test]
fn test_perft_complex_position_4() {
    assert_eq!(
        split_perft(
            "r3k2r/p1ppqpb1/bn2pnp1/3PN3/1p2P3/P1N2Q1p/1PPBBPPP/R3K2R b KQkq - 0 1",
            2
        ),
        2186
    );
}

#[test]
fn test_perft_complex_position_25() {
    assert_eq!(
        split_perft(
            "r3k2r/p1ppqpb1/bn2pnp1/3PN3/1p2P3/5Q2/PPPBBPpP/RN2K2R w KQkq - 0 2",
            1
        ),
        47
    );
}

#[test]
fn test_perft_complex_position_5() {
    assert_eq!(
        split_perft(
            "r3k2r/p1ppqpb1/bn2pnp1/3PN3/1p2P3/2N2Q1p/PPPBBPPP/R3K2R w KQkq - 0 1",
            3
        ),
        97862
    );
}

#[test]
fn test_perft_complex_position_6() {
    assert_eq!(
        split_perft(
            "r3k2r/p1p1qpb1/bn1ppnp1/1B1PN3/1p2P3/P1N2Q1p/1PPB1PPP/R3K2R b KQkq - 1 2",
            1
        ),
        7
    );
}

#[test]
fn test_perft_complex_position_7() {
    assert_eq!(
        split_perft(
            "r3k2r/p1p1qpb1/bn1ppnp1/3PN3/1p2P3/P1N2Q1p/1PPBBPPP/R3K2R w KQkq - 0 2",
            2
        ),
        2135
    );
}

#[test]
fn test_perft_complex_position_8() {
    assert_eq!(
        split_perft(
            "r3k2r/p1ppqpb1/bn2p1p1/3PN3/1p2n3/P1N2Q1p/1PPBBPPP/R3K2R w KQkq - 0 2",
            2
        ),
        2717
    );
}

#[test]
fn test_perft_complex_position_9() {
    assert_eq!(
        split_perft(
            "r3k2r/p1ppqpb1/bn2pnp1/3PN3/1p2P3/P1N2Q1p/1PPBBPPP/R3K2R b KQkq - 0 1",
            3
        ),
        94405
    );
}

#[test]
fn test_perft_complex_position_10() {
    assert_eq!(
        split_perft(
            "r3k2r/p1ppqpb1/bn2pnp1/3PN3/1p2P3/2N2Q1p/PPPBBPPP/R3K2R w KQkq - 0 1",
            4
        ),
        4085603
    );
}

#[test]
fn test_perft_complex_position_11() {
    assert_eq!(
        split_perft(
            "r3k2r/p1ppqpb1/bn2pnp1/3PN3/1p2P3/2N2Q1p/PPPBBPPP/R3K2R w KQkq - 0 1",
            5
        ),
        193690690
    );
}

#[test]
fn test_perft_endgame_position() {
    assert_eq!(
        split_perft("8/2p5/3p4/KP5r/1R3p1k/8/4P1P1/8 w - - 0 1", 7),
        178633661
    );
}

#[test]
fn test_perft_tactical_position_2() {
    assert_eq!(
        split_perft(
            "rnbq1k1r/pp1Pbppp/2p5/8/2B5/8/PPP1NnPP/RNBQK2R w KQ - 1 8",
            5
        ),
        89941194
    );
}

#[test]
fn test_perft_tactical_position_3() {
    assert_eq!(
        split_perft(
            "r4rk1/1pp1qppp/p1np1n2/2b1p1B1/2B1P1b1/P1NP1N2/1PP1QPPP/R4RK1 w - - 0 1",
            5
        ),
        164075551
    );
}

