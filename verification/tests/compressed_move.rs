use sfbinpack::chess::chess_move::{Move, MoveType};
use sfbinpack::chess::color::Color;
use sfbinpack::chess::coords::Square;
use sfbinpack::chess::piece::Piece;
use sfbinpack::chess::piecetype::PieceType;
use sfbinpack::common::compressed_move::CompressedMove;

#[test]
fn test_compressed_move() {
    let data = [61, 232, 0, 253, 0, 39, 0, 2];
    let compressed = CompressedMove::read_from_big_endian(&data);

    let expected = Move::new(
        Square::new(61),
        Square::new(58),
        MoveType::Normal,
        Piece::none(),
    );

    assert_eq!(expected, compressed.decompress());
}

#[test]
fn test_from_move_decompress() {
    let expected = Move::new(
        Square::new(48),
        Square::new(56),
        MoveType::Promotion,
        Piece::new(PieceType::Queen, Color::White),
    );

    let compressed = CompressedMove::from_move(expected);

    assert_eq!(expected, compressed.decompress());
}

#[test]
fn test_member_functions() {
    let expected = Move::new(
        Square::new(48),
        Square::new(56),
        MoveType::Promotion,
        Piece::new(PieceType::Queen, Color::White),
    );

    let compressed = CompressedMove::from_move(expected);

    assert_eq!(MoveType::Promotion, compressed.move_type());
    assert_eq!(Square::new(48), compressed.from());
    assert_eq!(Square::new(56), compressed.to());
    assert_eq!(
        Piece::new(PieceType::Queen, Color::White),
        compressed.promoted_piece()
    );
}

#[test]
fn move_codec_round_trips_every_kind_of_move() {
    let kinds = [MoveType::Normal, MoveType::Castle, MoveType::EnPassant];
    for from in 0..64u32 {
        for to in 0..64u32 {
            if from == to {
                continue;
            }
            for kind in kinds {
                let m = Move::new(Square::new(from), Square::new(to), kind, Piece::none());
                assert_eq!(CompressedMove::from_move(m).decompress(), m);
            }
            let side = if to / 8 == 0 { Color::Black } else { Color::White };
            for pt in [PieceType::Knight, PieceType::Bishop, PieceType::Rook, PieceType::Queen] {
                let m = Move::new(
                    Square::new(from),
                    Square::new(to),
                    MoveType::Promotion,
                    Piece::new(pt, side),
                );
                assert_eq!(CompressedMove::from_move(m).decompress(), m);
            }
        }
    }
}

#[test]
fn null_move_packs_to_zero() {
    let packed = CompressedMove::from_move(Move::null());
    let mut bytes = [0xFFu8; 2];
    packed.write_to_big_endian(&mut bytes);
    assert_eq!(bytes, [0, 0]);
    assert_eq!(packed.decompress(), Move::null());
    assert_eq!(CompressedMove::new().decompress(), Move::null());
}

#[test]
fn move_layout_is_type_from_to_promotion() {
    // Promotion (1), from 52, to 60, rook (2): 01 110100 111100 10
    let m = Move::new(
        Square::new(52),
        Square::new(60),
        MoveType::Promotion,
        Piece::new(PieceType::Rook, Color::White),
    );
    let mut bytes = [0u8; 2];
    CompressedMove::compress(&m).write_to_big_endian(&mut bytes);
    assert_eq!(bytes, [0b0111_0100, 0b1111_0010]);
    assert_eq!(CompressedMove::byte_size(), 2);
}

#[test]
fn promotion_on_first_rank_is_black() {
    let m = Move::new(
        Square::new(9),
        Square::new(1),
        MoveType::Promotion,
        Piece::new(PieceType::Knight, Color::Black),
    );
    assert_eq!(CompressedMove::from_move(m).decompress(), m);
    assert_eq!(CompressedMove::from_move(m).promoted_piece().color(), Color::Black);
}
