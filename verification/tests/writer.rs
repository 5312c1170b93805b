use sfbinpack::chess::chess_move::{Move, MoveType};
use sfbinpack::chess::coords::Square;
use sfbinpack::chess::piece::Piece;
use sfbinpack::chess::position::Position;
use sfbinpack::{CompressedTrainingDataEntryWriter, TrainingDataEntry};

/// The file of three samples of one game, in which the pawn that has just
/// made a double step cannot be captured in passing.
const EP1_BINPACK: [u8; 46] = [
    0x42, 0x49, 0x4E, 0x50, 0x26, 0x00, 0x00, 0x00, 0x82, 0x82, 0x90, 0xD2, 0x08, 0xC0, 0x46, 0x52,
    0x48, 0x3A, 0x40, 0x00, 0x51, 0x10, 0x12, 0x71, 0x9B, 0x05, 0x00, 0x00, 0x00, 0x00, 0x00, 0x00,
    0x0A, 0x68, 0x01, 0x91, 0x00, 0x44, 0x00, 0x00, 0x00, 0x02, 0x1D, 0x18, 0xF5, 0x08,
];

#[test]
fn test_compressed_writer() {
    let entries = vec![
        TrainingDataEntry {
            pos: Position::from_fen("1q5b/1r5k/4p2p/1b2P1pN/3p4/6PP/1nP3B1/1Q2B1K1 w - - 0 35")
                .unwrap(),
            mv: Move::new(
                Square::new(10),
                Square::new(26),
                MoveType::Normal,
                Piece::none(),
            ),
            score: -201,
            ply: 68,
            result: 0,
        },
        TrainingDataEntry {
            pos: Position::from_fen("1q5b/1r5k/4p2p/1b2P1pN/2Pp4/6PP/1n4B1/1Q2B1K1 b - - 0 35")
                .unwrap(),
            mv: Move::new(
                Square::new(27),
                Square::new(19),
                MoveType::Normal,
                Piece::none(),
            ),
            score: 254,
            ply: 69,
            result: 0,
        },
        TrainingDataEntry {
            pos: Position::from_fen("1q5b/1r5k/4p2p/1b2P1pN/2P5/3p2PP/1n4B1/1Q2B1K1 w - - 0 36")
                .unwrap(),
            mv: Move::new(
                Square::new(14),
                Square::new(49),
                MoveType::Normal,
                Piece::none(),
            ),
            score: -220,
            ply: 70,
            result: 0,
        },
    ];

    let file1_bytes = {
        let mut writer = CompressedTrainingDataEntryWriter::new(Vec::new()).unwrap();

        for entry in entries.iter() {
            writer.write_entry(entry).unwrap();
        }
        writer.flush_and_end();
        writer.into_inner().unwrap()
    };

    assert_eq!(file1_bytes, EP1_BINPACK);
}

#[test]
fn test_compressed_writer_in_memory_file() {
    let entries = vec![
        TrainingDataEntry {
            pos: Position::from_fen("1q5b/1r5k/4p2p/1b2P1pN/3p4/6PP/1nP3B1/1Q2B1K1 w - - 0 35")
                .unwrap(),
            mv: Move::new(
                Square::new(10),
                Square::new(26),
                MoveType::Normal,
                Piece::none(),
            ),
            score: -201,
            ply: 68,
            result: 0,
        },
        TrainingDataEntry {
            pos: Position::from_fen("1q5b/1r5k/4p2p/1b2P1pN/2Pp4/6PP/1n4B1/1Q2B1K1 b - - 0 35")
                .unwrap(),
            mv: Move::new(
                Square::new(27),
                Square::new(19),
                MoveType::Normal,
                Piece::none(),
            ),
            score: 254,
            ply: 69,
            result: 0,
        },
        TrainingDataEntry {
            pos: Position::from_fen("1q5b/1r5k/4p2p/1b2P1pN/2P5/3p2PP/1n4B1/1Q2B1K1 w - - 0 36")
                .unwrap(),
            mv: Move::new(
                Square::new(14),
                Square::new(49),
                MoveType::Normal,
                Piece::none(),
            ),
            score: -220,
            ply: 70,
            result: 0,
        },
    ];

    let cursor: Vec<u8> = Vec::new();
    let mut writer = CompressedTrainingDataEntryWriter::new(cursor).unwrap();

    for entry in entries.iter() {
        writer.write_entry(entry).unwrap();
    }

    writer.flush_and_end();

    let read_bytes = writer.into_inner().unwrap();

    assert_eq!(read_bytes, EP1_BINPACK);
}

#[test]
fn test_compressed_writer_big_score_diff() {
    let entries = vec![
        TrainingDataEntry {
            pos: Position::from_fen("1q5b/1r5k/4p2p/1b2P1pN/3p4/6PP/1nP3B1/1Q2B1K1 w - - 0 35")
                .unwrap(),
            mv: Move::new(
                Square::new(10),
                Square::new(26),
                MoveType::Normal,
                Piece::none(),
            ),
            score: -31999,
            ply: 68,
            result: 0,
        },
        TrainingDataEntry {
            pos: Position::from_fen("1q5b/1r5k/4p2p/1b2P1pN/2Pp4/6PP/1n4B1/1Q2B1K1 b - - 0 35")
                .unwrap(),
            mv: Move::new(
                Square::new(27),
                Square::new(19),
                MoveType::Normal,
                Piece::none(),
            ),
            score: -1500,
            ply: 69,
            result: 0,
        },
    ];

    let cursor: Vec<u8> = Vec::new();
    let mut writer = CompressedTrainingDataEntryWriter::new(cursor).unwrap();

    for entry in entries.iter() {
        writer.write_entry(entry).unwrap();
    }

    writer.flush_and_end();

    let read_bytes = writer.into_inner().unwrap();

    let expected_bytes = [
        66, 73, 78, 80, 37, 0, 0, 0, 130, 130, 144, 210, 8, 192, 70, 82, 72, 58, 64, 0, 81, 16, 18,
        113, 155, 5, 0, 0, 0, 0, 0, 0, 10, 104, 249, 253, 0, 68, 0, 0, 0, 1, 29, 83, 79,
    ];
    assert_eq!(read_bytes, expected_bytes);
}
