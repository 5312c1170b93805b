use sfbinpack::batch::{
    halfkp_indices, orient_square, piece_bucket, FeatureSet, FileWalk, LoaderError,
    MAX_ACTIVE_FEATURES,
};
use sfbinpack::chess::color::Color;
use sfbinpack::chess::coords::Square;
use sfbinpack::chess::position::Position;

#[test]
fn the_feature_set_is_found_by_its_name() {
    assert!(matches!(FeatureSet::try_from_name("HalfKP"), Ok(FeatureSet::HalfKP)));
    assert_eq!(FeatureSet::HalfKP.max_active_features(), 32);
    assert_eq!(MAX_ACTIVE_FEATURES, 32);
}

#[test]
fn an_unknown_feature_set_is_refused_with_its_name() {
    match FeatureSet::try_from_name("HalfKA") {
        Err(LoaderError::UnsupportedFeatureSet(name)) => {
            assert_eq!(name, "HalfKA");
            assert_eq!(
                LoaderError::UnsupportedFeatureSet(name).to_string(),
                "unsupported feature set 'HalfKA'"
            );
        }
        _ => panic!("the name should be refused"),
    }
    assert!(FeatureSet::try_from_name("").is_err());
    assert!(FeatureSet::try_from_name("halfkp").is_err());
}

#[test]
fn loader_errors_have_their_messages() {
    assert_eq!(LoaderError::Io.to_string(), "I/O error");
    assert_eq!(LoaderError::NoFiles.to_string(), "no binpack files provided");
    assert_eq!(
        LoaderError::Reader(sfbinpack::CompressedReaderError::EndOfFile).to_string(),
        "Binpack reader error: End of file reached"
    );
}

#[test]
fn four_numbers_of_pieces_share_a_bucket() {
    assert_eq!(piece_bucket(&Position::new()), 7);
    assert_eq!(piece_bucket(&Position::empty()), 0);
    let kings = Position::from_fen("4k3/8/8/8/8/8/8/4K3 w - - 0 1").unwrap();
    assert_eq!(piece_bucket(&kings), 0);
    let five = Position::from_fen("4k3/8/8/8/8/8/PPP5/4K3 w - - 0 1").unwrap();
    assert_eq!(piece_bucket(&five), 1);
}

#[test]
fn black_sees_the_ranks_mirrored() {
    assert_eq!(orient_square(Color::White, Square::new(0)), 0);
    assert_eq!(orient_square(Color::White, Square::new(63)), 63);
    assert_eq!(orient_square(Color::Black, Square::new(0)), 56);
    assert_eq!(orient_square(Color::Black, Square::new(60)), 4);
    assert_eq!(orient_square(Color::Black, Square::new(12)), 52);
}

#[test]
fn the_features_of_the_starting_position() {
    let pos = Position::new();
    let white = halfkp_indices(&pos, Color::White);
    assert_eq!(white.len(), 32);
    // The king on e1 gives 4 * 640; own pieces add the kind times 64 and
    // the square.
    assert_eq!(&white[0..7], &[2752, 2625, 2690, 2819, 2693, 2630, 2759]);
    assert_eq!(&white[7..15], &[2568, 2569, 2570, 2571, 2572, 2573, 2574, 2575]);
    // The black pawns on the seventh rank, then the black pieces.
    assert_eq!(white[15], 2560 + 320 + 48);
    assert_eq!(white[23], 2560 + 320 + 3 * 64 + 56);
    assert_eq!(white[29], 2560 + 320 + 3 * 64 + 63);
    assert_eq!(&white[30..32], &[-1, -1]);

    let black = halfkp_indices(&pos, Color::Black);
    assert_eq!(black.len(), 32);
    // Black's king on e8 is seen on e1, and White's rook on a1 on a8.
    assert_eq!(black[0], 2560 + 320 + 3 * 64 + 56);
    assert_eq!(black[15], 2560 + 8);
    assert_eq!(&black[30..32], &[-1, -1]);
}

#[test]
fn a_position_of_kings_has_no_features() {
    let kings = Position::from_fen("4k3/8/8/8/8/8/8/4K3 w - - 0 1").unwrap();
    assert_eq!(halfkp_indices(&kings, Color::White), vec![-1; 32]);
    assert_eq!(halfkp_indices(&kings, Color::Black), vec![-1; 32]);
}

#[test]
fn a_walk_needs_a_file() {
    assert!(matches!(FileWalk::new(0, false), Err(LoaderError::NoFiles)));
    assert!(matches!(FileWalk::new(0, true), Err(LoaderError::NoFiles)));
}

#[test]
fn a_walk_ends_behind_the_last_file() {
    let mut walk = FileWalk::new(3, false).unwrap();
    assert_eq!(walk.next_file(0), Some(0));
    assert_eq!(walk.next_file(0), Some(1));
    assert_eq!(walk.next_file(1), Some(2));
    assert_eq!(walk.next_file(0), None);
    assert_eq!(walk.next, 3);
}

#[test]
fn a_cyclic_walk_starts_again_until_every_file_was_tried() {
    let mut walk = FileWalk::new(2, true).unwrap();
    assert_eq!(walk.next_file(0), Some(0));
    assert_eq!(walk.next_file(0), Some(1));
    assert_eq!(walk.next_file(0), Some(0));
    assert_eq!(walk.next_file(1), Some(1));
    assert_eq!(walk.next_file(2), None);
    assert_eq!(walk.next, 2);
    assert_eq!(walk.next_file(0), Some(0));
}
