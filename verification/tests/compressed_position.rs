use sfbinpack::chess::bitboard::Bitboard;
use sfbinpack::chess::position::Position;
use sfbinpack::common::compressed_position::CompressedPosition;

#[test]
fn test_read_big_endian() {
    let data = [
        98, 121, 192, 21, 24, 76, 241, 100, 100, 106, 0, 4, 8, 48, 2, 17, 17, 145, 19, 117, 247, 0,
        0, 0,
    ];

    let compressed_pos = CompressedPosition::read_from_big_endian(&data);

    assert_eq!(
        CompressedPosition {
            occupied: Bitboard::new(7095913884733469028),
            packed_state: [100, 106, 0, 4, 8, 48, 2, 17, 17, 145, 19, 117, 247, 0, 0, 0]
        },
        compressed_pos
    );
}

#[test]
fn test_compressed_position() {
    let data = [
        98, 121, 192, 21, 24, 76, 241, 100, 100, 106, 0, 4, 8, 48, 2, 17, 17, 145, 19, 117, 247, 0,
        0, 0,
    ];

    let compressed_pos = CompressedPosition::read_from_big_endian(&data);
    let pos = compressed_pos.decompress();

    assert_eq!(
        pos.fen().unwrap(),
        "1r3rk1/p2qnpb1/6pp/P1p1p3/3nN3/2QP2P1/R3PPBP/2B2RK1 b - - 0 1"
    );
}

#[test]
fn test_write_big_endian() {
    let data = [
        98, 121, 192, 21, 24, 76, 241, 100, 100, 106, 0, 4, 8, 48, 2, 17, 17, 145, 19, 117, 247, 0,
        0, 0,
    ];

    let compressed_pos = CompressedPosition::read_from_big_endian(&data);
    let mut new_data = [0; 24];
    compressed_pos.write_to_big_endian(&mut new_data);

    assert_eq!(data, new_data);
}

#[test]
fn test_compress_decompress() {
    let pos = Position::from_fen("1r3rk1/p2qnpb1/6pp/P1p1p3/3nN3/2QP2P1/R3PPBP/2B2RK1 b - - 0 1")
        .unwrap();

    let compressed_pos = CompressedPosition::compress(&pos);
    let decompressed_pos = compressed_pos.decompress();

    assert_eq!(pos, decompressed_pos);
}

#[test]
fn test_compress_decompress_2() {
    let pos =
        Position::from_fen("rnbqkbnr/pppppppp/8/8/8/8/PPPPPPPP/RNBQKBNR w KQkq - 0 1").unwrap();

    let compressed_pos = CompressedPosition::compress(&pos);
    let decompressed_pos = compressed_pos.decompress();

    assert_eq!(pos, decompressed_pos);
}

#[test]
fn test_compress_decompress_3() {
    let pos =
        Position::from_fen("2r3k1/4bpp1/2Q1p2P/p3P3/1p6/4B1P1/P1r2PK1/3R1R2 b - - 0 30").unwrap();

    let compressed_pos = CompressedPosition::compress(&pos);
    let decompressed_pos = compressed_pos.decompress();

    let position_without_fmt =
        Position::from_fen("2r3k1/4bpp1/2Q1p2P/p3P3/1p6/4B1P1/P1r2PK1/3R1R2 b - - 0 1").unwrap();

    assert_eq!(position_without_fmt, decompressed_pos);
}
