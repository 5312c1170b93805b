use sfbinpack::chess::position::Position;

const STARTPOS: &str = "rnbqkbnr/pppppppp/8/8/8/8/PPPPPPPP/RNBQKBNR w KQkq - 0 1";

#[test]
fn test_startpos() {
    let pos = Position::from_fen(STARTPOS).unwrap();
    assert_eq!(pos.fen().unwrap(), STARTPOS);
}

#[test]
fn test_new() {
    let pos = Position::new();
    assert_eq!(pos.fen().unwrap(), STARTPOS);
}

#[test]
fn test_new_eq_fen() {
    let pos = Position::new();
    assert_eq!(pos, Position::from_fen(STARTPOS).unwrap());
}
