//! Positions as text: Forsyth-Edwards Notation.
//!
//! A FEN record has six fields separated by white space: the board from the
//! eighth rank down, the side to move, the castling rights, the en-passant
//! square, the halfmove clock and the fullmove number.

use vstd::prelude::*;
use crate::chess::board_lemmas::lemma_wf_same_board;
use crate::chess::castling_rights::{
    CastlingRights, BLACK_KING_SIDE, BLACK_QUEEN_SIDE, WHITE_KING_SIDE, WHITE_QUEEN_SIDE,
};
use crate::chess::color::Color;
use crate::chess::coords::Square;
use crate::chess::piece::Piece;
use crate::chess::position::{Position, PositionError};
use crate::chess::text::{decimal, push_decimal};

verus! {

/// The letter of a piece: upper case for White, lower case for Black.
pub open spec fn piece_char(pc: Piece) -> char {
    match pc.id {
        0 => 'P',
        1 => 'p',
        2 => 'N',
        3 => 'n',
        4 => 'B',
        5 => 'b',
        6 => 'R',
        7 => 'r',
        8 => 'Q',
        9 => 'q',
        10 => 'K',
        _ => 'k',
    }
}

/// The piece that a letter stands for, if it stands for one.
pub open spec fn piece_of_char(c: char) -> Option<Piece> {
    match c {
        'P' => Some(Piece { id: 0 }),
        'p' => Some(Piece { id: 1 }),
        'N' => Some(Piece { id: 2 }),
        'n' => Some(Piece { id: 3 }),
        'B' => Some(Piece { id: 4 }),
        'b' => Some(Piece { id: 5 }),
        'R' => Some(Piece { id: 6 }),
        'r' => Some(Piece { id: 7 }),
        'Q' => Some(Piece { id: 8 }),
        'q' => Some(Piece { id: 9 }),
        'K' => Some(Piece { id: 10 }),
        'k' => Some(Piece { id: 11 }),
        _ => None,
    }
}

/// The text of a count of empty squares: nothing for zero.
pub open spec fn empties_text(empties: int) -> Seq<char> {
    if empties > 0 {
        decimal(empties as nat)
    } else {
        Seq::empty()
    }
}

/// The text of one rank from file `file` on, when `empties` empty squares
/// have been passed since the last piece.
pub open spec fn fen_rank_text(pieces: Seq<Piece>, rank: int, file: int, empties: int) -> Seq<char>
    decreases 8 - file,
{
    if file >= 8 {
        empties_text(empties)
    } else {
        let pc = pieces[rank * 8 + file];
        if pc == Piece::spec_none() {
            fen_rank_text(pieces, rank, file + 1, empties + 1)
        } else {
            empties_text(empties).push(piece_char(pc)) + fen_rank_text(pieces, rank, file + 1, 0)
        }
    }
}

/// The text of the ranks from `rank` down to the first, with a slash
/// between each two.
pub open spec fn fen_board_text(pieces: Seq<Piece>, rank: int) -> Seq<char>
    decreases rank,
{
    if rank <= 0 {
        fen_rank_text(pieces, 0, 0, 0)
    } else {
        fen_rank_text(pieces, rank, 0, 0).push('/') + fen_board_text(pieces, rank - 1)
    }
}

/// The text of a set of castling rights: a dash for the empty set, else
/// the letters K, Q, k, q of the rights it holds, in that order.
pub open spec fn castling_text(rights: CastlingRights) -> Seq<char> {
    if rights.0 == 0 {
        seq!['-']
    } else {
        (if rights.has(WHITE_KING_SIDE) {
            seq!['K']
        } else {
            Seq::empty()
        }) + (if rights.has(WHITE_QUEEN_SIDE) {
            seq!['Q']
        } else {
            Seq::empty()
        }) + (if rights.has(BLACK_KING_SIDE) {
            seq!['k']
        } else {
            Seq::empty()
        }) + (if rights.has(BLACK_QUEEN_SIDE) {
            seq!['q']
        } else {
            Seq::empty()
        })
    }
}

/// The text of an en-passant square: a dash for none.
pub open spec fn ep_text(sq: Square) -> Seq<char> {
    if sq == Square::spec_none() {
        seq!['-']
    } else {
        sq.spec_name()
    }
}

/// The letter of the side to move.
pub open spec fn side_char(c: Color) -> char {
    match c {
        Color::White => 'w',
        Color::Black => 'b',
    }
}

/// Whether a character separates the fields of a record: the characters
/// with the Unicode property White_Space.
pub open spec fn is_space(c: char) -> bool {
    let u = c as u32;
    u == 0x20 || (0x09 <= u <= 0x0D) || u == 0x85 || u == 0xA0 || u == 0x1680 || (0x2000 <= u
        <= 0x200A) || u == 0x2028 || u == 0x2029 || u == 0x202F || u == 0x205F || u == 0x3000
}

/// The first index from `i` on that holds no white space, or the length.
pub open spec fn skip_spaces(s: Seq<char>, i: int) -> int
    decreases s.len() - i,
{
    if 0 <= i < s.len() && is_space(s[i]) {
        skip_spaces(s, i + 1)
    } else {
        i
    }
}

/// The first index from `i` on that holds white space, or the length.
pub open spec fn field_end(s: Seq<char>, i: int) -> int
    decreases s.len() - i,
{
    if 0 <= i < s.len() && !is_space(s[i]) {
        field_end(s, i + 1)
    } else {
        i
    }
}

/// The index at which field number `k` of a record starts, or the length
/// if the record has no such field.
pub open spec fn field_start(s: Seq<char>, k: nat) -> int
    decreases k,
{
    if k == 0 {
        skip_spaces(s, 0)
    } else {
        skip_spaces(s, field_end(s, field_start(s, (k - 1) as nat)))
    }
}

/// Field number `k` of a record.
pub open spec fn field(s: Seq<char>, k: nat) -> Seq<char> {
    s.subrange(field_start(s, k), field_end(s, field_start(s, k)))
}

/// Whether the record has a field number `k`.
pub open spec fn has_field(s: Seq<char>, k: nat) -> bool {
    0 <= field_start(s, k) < s.len()
}

/// Whether a character is a decimal digit.
pub open spec fn is_digit(c: char) -> bool {
    48 <= c as u32 <= 57
}

/// The board that the characters of a board field from index `i` on make
/// of `pos`, when the next square is on rank `rank` and file `file`. A
/// slash goes down one rank, a digit skips that many files, and a letter
/// puts its piece on the next square. There is no board if a slash would
/// leave the first rank, if a letter names no piece, or if a piece would
/// land beyond the h-file.
pub open spec fn parse_board(s: Seq<char>, i: int, pos: Position, rank: int, file: int) -> Option<
    Position,
>
    decreases s.len() - i,
{
    if i < 0 || i >= s.len() {
        Some(pos)
    } else if s[i] == '/' {
        if rank <= 0 {
            None
        } else {
            parse_board(s, i + 1, pos, rank - 1, 0)
        }
    } else if is_digit(s[i]) {
        parse_board(s, i + 1, pos, rank, file + (s[i] as u32 - 48))
    } else {
        match piece_of_char(s[i]) {
            None => None,
            Some(pc) => if file >= 8 {
                None
            } else {
                parse_board(
                    s,
                    i + 1,
                    pos.spec_place_piece(pc.spec_color(), pc, (rank * 8 + file) as u32),
                    rank,
                    file + 1,
                )
            },
        }
    }
}

/// The right that a letter of a castling field grants; none for any other
/// character.
pub open spec fn castling_of_char(c: char) -> u8 {
    match c {
        'K' => WHITE_KING_SIDE,
        'Q' => WHITE_QUEEN_SIDE,
        'k' => BLACK_KING_SIDE,
        'q' => BLACK_QUEEN_SIDE,
        _ => 0u8,
    }
}

/// The rights that the letters of a castling field grant.
pub open spec fn parse_castling(s: Seq<char>) -> u8
    decreases s.len(),
{
    if s.len() == 0 {
        0u8
    } else {
        parse_castling(s.drop_last()) | castling_of_char(s.last())
    }
}

/// The number that a run of digits denotes.
pub open spec fn digits_value(s: Seq<char>) -> nat
    decreases s.len(),
{
    if s.len() == 0 {
        0
    } else {
        (digits_value(s.drop_last()) * 10 + (s.last() as u32 - 48)) as nat
    }
}

/// The digits of a number field: the field itself, or what follows its
/// one leading plus sign.
pub open spec fn unsigned_part(s: Seq<char>) -> Seq<char> {
    if s.len() > 0 && s[0] == '+' {
        s.subrange(1, s.len() as int)
    } else {
        s
    }
}

/// The number that a field denotes, if it is a non-empty run of digits,
/// after at most one plus sign, whose value is no more than `max`.
pub open spec fn parse_number(s: Seq<char>, max: nat) -> Option<nat> {
    let d = unsigned_part(s);
    if d.len() > 0 && (forall|i: int| 0 <= i < d.len() ==> is_digit(#[trigger] d[i]))
        && digits_value(d) <= max {
        Some(digits_value(d))
    } else {
        None
    }
}

/// The en-passant square that a field names: none for a dash, and no
/// result for a field that is neither a dash nor the name of a square.
pub open spec fn parse_ep(s: Seq<char>) -> Option<Square> {
    if s =~= seq!['-'] {
        Some(Square::spec_none())
    } else {
        Square::spec_from_string(s)
    }
}

/// The position that a FEN record describes. The record needs six fields;
/// what follows them is ignored.
pub open spec fn spec_from_fen(s: Seq<char>) -> Option<Position> {
    if !has_field(s, 5) {
        None
    } else {
        match (
            parse_board(field(s, 0), 0, Position::spec_empty(), 7, 0),
            parse_ep(field(s, 3)),
            parse_number(field(s, 4), 255),
            parse_number(field(s, 5), 65535),
        ) {
            (Some(board), Some(ep), Some(halfm), Some(fullm)) => Some(
                Position {
                    stm: if field(s, 1) =~= seq!['w'] {
                        Color::White
                    } else {
                        Color::Black
                    },
                    castling_rights: CastlingRights(parse_castling(field(s, 2))),
                    enpassant: ep,
                    halfm: halfm as u8,
                    fullm: fullm as u16,
                    ..board
                },
            ),
            _ => None,
        }
    }
}

impl Position {
    /// The five fields of a FEN record that follow the board, each with a
    /// blank before it.
    pub open spec fn spec_fen_state(self) -> Seq<char> {
        seq![' ', side_char(self.stm), ' '] + castling_text(self.castling_rights) + seq![' ']
            + ep_text(self.enpassant) + seq![' '] + decimal(self.halfm as nat) + seq![' ']
            + decimal(self.fullm as nat)
    }

    /// The FEN record of the position.
    pub open spec fn spec_fen(self) -> Seq<char> {
        fen_board_text(self.pieces@, 7) + self.spec_fen_state()
    }

    /// Returns the FEN representation of the position. Fails if the piece
    /// list holds something that is neither a piece nor the absence of one.
    pub fn fen(&self) -> (r: Result<String, PositionError>)
        ensures
            match r {
                Ok(text) => self.table_ok() && text@ == self.spec_fen(),
                Err(_) => !self.table_ok(),
            },
    {
        let mut fen = String::new();

        // pieces
        let mut rank: u32 = 8;
        while rank > 0
            invariant
                rank <= 8,
                forall|sq: int| rank * 8 <= sq < 64 ==> (#[trigger] self.pieces[sq]).wf(),
                rank > 0 ==> fen@ + fen_board_text(self.pieces@, rank - 1) == fen_board_text(
                    self.pieces@,
                    7,
                ),
                rank == 0 ==> fen@ == fen_board_text(self.pieces@, 7),
            decreases rank,
        {
            rank -= 1;
            let ghost before = fen@;
            if !self.push_rank(&mut fen, rank) {
                return Err(PositionError::InvalidFEN);
            }
            if rank > 0 {
                fen.push('/');
                assert(fen@ + fen_board_text(self.pieces@, rank - 1) =~= before + fen_board_text(
                    self.pieces@,
                    rank as int,
                ));
            }
        }
        assert(self.table_ok());
        self.push_state(&mut fen);
        Ok(fen)
    }

    /// Appends the text of one rank. Tells whether every entry of the rank
    /// is a piece or the absence of one; if not, what it appended is
    /// worthless.
    fn push_rank(&self, fen: &mut String, rank: u32) -> (ok: bool)
        requires
            rank < 8,
        ensures
            ok == (forall|sq: int|
                rank * 8 <= sq < rank * 8 + 8 ==> (#[trigger] self.pieces[sq]).wf()),
            ok ==> final(fen)@ == old(fen)@ + fen_rank_text(self.pieces@, rank as int, 0, 0),
    {
        let ghost start = fen@;
        let ghost whole = fen_rank_text(self.pieces@, rank as int, 0, 0);
        let mut empty_squares: u32 = 0;
        let mut file: u32 = 0;
        while file < 8
            invariant
                rank < 8,
                file <= 8,
                empty_squares <= file,
                whole == fen_rank_text(self.pieces@, rank as int, 0, 0),
                forall|sq: int|
                    rank * 8 <= sq < rank * 8 + file ==> (#[trigger] self.pieces[sq]).wf(),
                fen@ + fen_rank_text(self.pieces@, rank as int, file as int, empty_squares as int)
                    == start + whole,
            decreases 8 - file,
        {
            let square = Square::new(rank * 8 + file);
            let piece = self.piece_at(square);
            let ghost before = fen@;
            let ghost run = empty_squares as int;
            if piece == Piece::none() {
                empty_squares += 1;
            } else {
                if empty_squares > 0 {
                    push_decimal(fen, empty_squares);
                    empty_squares = 0;
                }
                let letter = match piece.id() {
                    0 => 'P',
                    1 => 'p',
                    2 => 'N',
                    3 => 'n',
                    4 => 'B',
                    5 => 'b',
                    6 => 'R',
                    7 => 'r',
                    8 => 'Q',
                    9 => 'q',
                    10 => 'K',
                    11 => 'k',
                    _ => {
                        assert(!self.pieces[square.index as int].wf());
                        return false;
                    },
                };
                fen.push(letter);
                assert(fen@ =~= before + empties_text(run).push(piece_char(piece)));
                assert(fen@ + fen_rank_text(self.pieces@, rank as int, file as int + 1, 0)
                    =~= before + fen_rank_text(self.pieces@, rank as int, file as int, run));
            }
            file += 1;
        }
        if empty_squares > 0 {
            push_decimal(fen, empty_squares);
        }
        true
    }

    /// Appends the five fields that follow the board.
    fn push_state(&self, fen: &mut String)
        ensures
            final(fen)@ == old(fen)@ + self.spec_fen_state(),
    {
        let mut state = String::new();

        // color
        state.push(' ');
        state.push(
            if self.stm == Color::White {
                'w'
            } else {
                'b'
            },
        );

        // castling
        state.push(' ');
        assert(state@ =~= seq![' ', side_char(self.stm), ' ']);
        self.push_castling(&mut state);

        // ep square
        state.push(' ');
        if self.enpassant.index() == 64 {
            state.push('-');
        } else {
            state.append(self.enpassant.to_string().as_str());
        }
        assert(state@ =~= seq![' ', side_char(self.stm), ' '] + castling_text(
            self.castling_rights,
        ) + seq![' '] + ep_text(self.enpassant));

        // halfmove clock
        state.push(' ');
        push_decimal(&mut state, self.halfm as u32);

        // fullmove number
        state.push(' ');
        push_decimal(&mut state, self.fullm as u32);
        assert(state@ =~= self.spec_fen_state());
        fen.append(state.as_str());
    }

    /// Appends the castling field.
    fn push_castling(&self, fen: &mut String)
        ensures
            final(fen)@ == old(fen)@ + castling_text(self.castling_rights),
    {
        let castling = self.castling_rights();
        if castling.0 == 0 {
            fen.push('-');
            assert(fen@ =~= old(fen)@ + castling_text(self.castling_rights));
        } else {
            let ghost k: Seq<char> = if castling.has(WHITE_KING_SIDE) {
                seq!['K']
            } else {
                Seq::empty()
            };
            if castling.contains(CastlingRights::new(WHITE_KING_SIDE)) {
                fen.push('K');
            }
            assert(fen@ =~= old(fen)@ + k);
            let ghost q: Seq<char> = if castling.has(WHITE_QUEEN_SIDE) {
                seq!['Q']
            } else {
                Seq::empty()
            };
            if castling.contains(CastlingRights::new(WHITE_QUEEN_SIDE)) {
                fen.push('Q');
            }
            assert(fen@ =~= old(fen)@ + (k + q));
            let ghost bk: Seq<char> = if castling.has(BLACK_KING_SIDE) {
                seq!['k']
            } else {
                Seq::empty()
            };
            if castling.contains(CastlingRights::new(BLACK_KING_SIDE)) {
                fen.push('k');
            }
            assert(fen@ =~= old(fen)@ + (k + q + bk));
            let ghost bq: Seq<char> = if castling.has(BLACK_QUEEN_SIDE) {
                seq!['q']
            } else {
                Seq::empty()
            };
            if castling.contains(CastlingRights::new(BLACK_QUEEN_SIDE)) {
                fen.push('q');
            }
            assert(fen@ =~= old(fen)@ + (k + q + bk + bq));
        }
    }

    /// Create a position from a FEN string.
    pub fn from_fen(fen: &str) -> (r: Result<Position, PositionError>)
        ensures
            match r {
                Ok(pos) => spec_from_fen(fen@) == Some(pos) && pos.wf(),
                Err(_) => spec_from_fen(fen@).is_none(),
            },
    {
        let mut pos = Position::empty();
        match pos.parse_fen(fen) {
            Ok(()) => Ok(pos),
            Err(e) => Err(e),
        }
    }

    /// Parse a FEN string and set the position.
    fn parse_fen(&mut self, fen: &str) -> (r: Result<(), PositionError>)
        requires
            *old(self) == Position::spec_empty(),
        ensures
            match r {
                Ok(()) => spec_from_fen(fen@) == Some(*final(self)) && final(self).wf(),
                Err(_) => spec_from_fen(fen@).is_none(),
            },
    {
        let s = fen;
        let n = fen.unicode_len();
        let (a0, b0) = next_field(s, n, 0);
        let (a1, b1) = next_field(s, n, b0);
        let (a2, b2) = next_field(s, n, b1);
        let (a3, b3) = next_field(s, n, b2);
        let (a4, b4) = next_field(s, n, b3);
        let (a5, b5) = next_field(s, n, b4);
        assert(a0 == field_start(s@, 0));
        assert(a1 == field_start(s@, 1));
        assert(a2 == field_start(s@, 2));
        assert(a3 == field_start(s@, 3));
        assert(a4 == field_start(s@, 4));
        assert(a5 == field_start(s@, 5));
        if a5 >= n {
            return Err(PositionError::InvalidFEN);
        }
        if !self.parse_board_field(s, a0, b0) {
            return Err(PositionError::InvalidFEN);
        }
        let ghost board = *self;
        let white = b1 - a1 == 1 && s.get_char(a1) == 'w';
        assert(field(s@, 1).len() == b1 - a1);
        assert(b1 > a1 ==> field(s@, 1)[0] == s@[a1 as int]);
        assert(white == (field(s@, 1) =~= seq!['w']));
        self.stm = if white {
            Color::White
        } else {
            Color::Black
        };
        self.castling_rights = CastlingRights::new(castling_field(s, a2, b2));
        assert(field(s@, 3).len() == b3 - a3);
        assert(b3 > a3 ==> field(s@, 3)[0] == s@[a3 as int]);
        let ep = if b3 - a3 == 1 && s.get_char(a3) == '-' {
            Square::none()
        } else {
            match square_field(s, a3, b3) {
                Some(sq) => sq,
                None => {
                    return Err(PositionError::InvalidFEN);
                },
            }
        };
        assert(parse_ep(field(s@, 3)) == Some(ep));
        self.enpassant = ep;
        match number_field(s, a4, b4, 255) {
            Some(n) => {
                self.halfm = n as u8;
            },
            None => {
                return Err(PositionError::InvalidFEN);
            },
        }
        match number_field(s, a5, b5, 65535) {
            Some(n) => {
                self.fullm = n as u16;
            },
            None => {
                return Err(PositionError::InvalidFEN);
            },
        }
        proof {
            lemma_wf_same_board(board, *self);
        }
        Ok(())
    }

    /// Puts the pieces of a board field on this board, which must be
    /// empty. Tells whether the field describes a board.
    fn parse_board_field(&mut self, s: &str, start: usize, end: usize) -> (ok: bool)
        requires
            start <= end <= s@.len(),
            *old(self) == Position::spec_empty(),
        ensures
            ok ==> parse_board(s@.subrange(start as int, end as int), 0, *old(self), 7, 0) == Some(
                *final(self),
            ) && final(self).wf(),
            !ok ==> parse_board(
                s@.subrange(start as int, end as int),
                0,
                *old(self),
                7,
                0,
            ).is_none(),
    {
        let ghost text = s@.subrange(start as int, end as int);
        let ghost empty = *self;
        proof {
            crate::chess::position::lemma_empty_wf();
        }
        let mut rank: u32 = 7;
        let mut file: u32 = 0;
        let ghost mut true_file: int = 0;
        let mut i: usize = start;
        while i < end
            invariant
                start <= i <= end <= s@.len(),
                text == s@.subrange(start as int, end as int),
                empty == *old(self),
                self.wf(),
                forall|sq: int|
                    0 <= sq < 64 && (sq / 8 < rank || (sq / 8 == rank && sq % 8 >= file))
                        ==> #[trigger] self.pieces[sq] == Piece::spec_none(),
                rank <= 7,
                file <= 8,
                file == (if true_file < 8 {
                    true_file
                } else {
                    8
                }),
                true_file >= 0,
                parse_board(text, i - start, *self, rank as int, true_file) == parse_board(
                    text,
                    0,
                    empty,
                    7,
                    0,
                ),
            decreases end - i,
        {
            let c = s.get_char(i);
            assert(text[i - start] == c);
            if c == '/' {
                if rank == 0 {
                    return false;
                }
                rank -= 1;
                file = 0;
                proof {
                    true_file = 0;
                }
            } else if 48 <= c as u32 && c as u32 <= 57 {
                let d: u32 = c as u32 - 48;
                file = if file + d < 8 {
                    file + d
                } else {
                    8
                };
                proof {
                    true_file = true_file + d;
                }
            } else {
                let id: u8 = match c {
                    'P' => 0,
                    'p' => 1,
                    'N' => 2,
                    'n' => 3,
                    'B' => 4,
                    'b' => 5,
                    'R' => 6,
                    'r' => 7,
                    'Q' => 8,
                    'q' => 9,
                    'K' => 10,
                    'k' => 11,
                    _ => 12,
                };
                if id == 12 || file >= 8 {
                    return false;
                }
                self.place(Piece::from_id(id as i32), Square::new(rank * 8 + file));
                file += 1;
                proof {
                    true_file = true_file + 1;
                }
            }
            i += 1;
        }
        true
    }
}

/// Tells whether a character is white space.
fn char_is_space(c: char) -> (r: bool)
    ensures
        r == is_space(c),
{
    let u: u32 = c as u32;
    u == 0x20 || (0x09 <= u && u <= 0x0D) || u == 0x85 || u == 0xA0 || u == 0x1680 || (0x2000 <= u
        && u <= 0x200A) || u == 0x2028 || u == 0x2029 || u == 0x202F || u == 0x205F || u
        == 0x3000
}

/// The bounds of the first field from index `from` on.
fn next_field(s: &str, n: usize, from: usize) -> (r: (usize, usize))
    requires
        n == s@.len(),
        from <= n,
    ensures
        r.0 == skip_spaces(s@, from as int),
        r.1 == field_end(s@, r.0 as int),
        from <= r.0 <= r.1 <= n,
{
    let mut a: usize = from;
    while a < n && char_is_space(s.get_char(a))
        invariant
            n == s@.len(),
            from <= a <= n,
            skip_spaces(s@, a as int) == skip_spaces(s@, from as int),
        decreases n - a,
    {
        a += 1;
    }
    let mut b: usize = a;
    while b < n && !char_is_space(s.get_char(b))
        invariant
            n == s@.len(),
            a <= b <= n,
            field_end(s@, b as int) == field_end(s@, a as int),
        decreases n - b,
    {
        b += 1;
    }
    (a, b)
}

/// The castling rights that a field grants.
fn castling_field(s: &str, start: usize, end: usize) -> (r: u8)
    requires
        start <= end <= s@.len(),
    ensures
        r == parse_castling(s@.subrange(start as int, end as int)),
{
    let mut rights: u8 = 0;
    let mut i: usize = start;
    while i < end
        invariant
            start <= i <= end <= s@.len(),
            rights == parse_castling(s@.subrange(start as int, i as int)),
        decreases end - i,
    {
        let flag: u8 = match s.get_char(i) {
            'K' => WHITE_KING_SIDE,
            'Q' => WHITE_QUEEN_SIDE,
            'k' => BLACK_KING_SIDE,
            'q' => BLACK_QUEEN_SIDE,
            _ => 0,
        };
        assert(s@.subrange(start as int, i as int + 1).drop_last() =~= s@.subrange(
            start as int,
            i as int,
        ));
        rights = rights | flag;
        i += 1;
    }
    rights
}

/// The square that a field names.
fn square_field(s: &str, start: usize, end: usize) -> (r: Option<Square>)
    requires
        start <= end <= s@.len(),
    ensures
        r == Square::spec_from_string(s@.subrange(start as int, end as int)),
{
    if end - start != 2 {
        return None;
    }
    let file: i64 = s.get_char(start) as i64 - 97;
    let rank: i64 = s.get_char(start + 1) as i64 - 49;
    assert(s@.subrange(start as int, end as int)[0] == s@[start as int]);
    assert(s@.subrange(start as int, end as int)[1] == s@[start as int + 1]);
    if Square::is_valid(rank, file) {
        Some(Square::from_rank_file(rank, file))
    } else {
        None
    }
}

/// The number that a field denotes, if it denotes one up to `max`.
fn number_field(s: &str, start: usize, end: usize, max: u32) -> (r: Option<u32>)
    requires
        start <= end <= s@.len(),
        max <= 65535,
    ensures
        match r {
            Some(n) => parse_number(s@.subrange(start as int, end as int), max as nat) == Some(
                n as nat,
            ),
            None => parse_number(s@.subrange(start as int, end as int), max as nat).is_none(),
        },
{
    let ghost text = s@.subrange(start as int, end as int);
    let first: usize = if start < end && s.get_char(start) == '+' {
        start + 1
    } else {
        start
    };
    let ghost digits = s@.subrange(first as int, end as int);
    assert(digits =~= unsigned_part(text));
    if first == end {
        return None;
    }
    let mut value: u32 = 0;
    let mut i: usize = first;
    while i < end
        invariant
            first <= i <= end <= s@.len(),
            max <= 65535,
            digits == s@.subrange(first as int, end as int),
            digits == unsigned_part(s@.subrange(start as int, end as int)),
            forall|k: int| 0 <= k < i - first ==> is_digit(#[trigger] digits[k]),
            value <= max + 1,
            value == (if digits_value(s@.subrange(first as int, i as int)) <= max {
                digits_value(s@.subrange(first as int, i as int))
            } else {
                (max + 1) as nat
            }),
        decreases end - i,
    {
        let u: u32 = s.get_char(i) as u32;
        assert(digits[i - first] == s@[i as int]);
        if !(48 <= u && u <= 57) {
            assert(!is_digit(digits[i - first]));
            return None;
        }
        let d: u32 = u - 48;
        assert(s@.subrange(first as int, i as int + 1).drop_last() =~= s@.subrange(
            first as int,
            i as int,
        ));
        let next: u32 = value * 10 + d;
        value = if next <= max {
            next
        } else {
            max + 1
        };
        i += 1;
    }
    assert(s@.subrange(first as int, end as int) == digits);
    if value <= max {
        Some(value)
    } else {
        None
    }
}

} // verus!
