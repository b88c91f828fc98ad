//! Squares, moves and their notation.

use crate::position::{piece_at, Piece, Position};
use crate::text::push_char;
use vstd::prelude::*;

verus! {

/// A square of the board.
#[derive(Debug, Hash, Clone, Copy, PartialEq, Eq, Structural)]
pub struct Square {
    /// Zero indexed
    pub row: u8,
    /// Zero indexed
    pub col: u8,
}

/// A move from one square to another.
#[derive(Debug, Hash, Clone, Copy, PartialEq, Eq, Structural)]
pub struct Move {
    pub start: Square,
    pub end: Square,
}

impl Square {
    /// A square lies on the board: both indices are below eight.
    pub open spec fn well_formed(self) -> bool {
        self.row < 8 && self.col < 8
    }

    /// The two characters that name the square. On the board they are a
    /// letter from `a` for the row and a digit from `1` for the column. In
    /// general the first is the character 97 above the row, and the second
    /// the column's successor with the bits of `0` put on it.
    pub open spec fn name(self) -> Seq<char> {
        seq![((self.row + 97) as u8) as char, (((self.col + 1) as u8) ^ 0x30u8) as char]
    }

    /// The piece that the record `record` puts on the square, the last
    /// rank of the board being the first of the record.
    pub open spec fn occupant(self, record: Seq<char>) -> Option<Piece> {
        piece_at(record, (7 - self.row) as nat, self.col as nat)
    }

    /// The piece that stands on the square in `pos`, if there is one.
    pub fn at(self, pos: &Position) -> (r: Option<Piece>)
        requires
            self.row < 8,
        ensures
            r == self.occupant(pos@.record),
    {
        pos.at(7 - self.row as usize, self.col as usize)
    }

    /// Converts itself to coordinates e.g.
    /// (0, 0) => a1
    /// (5, 7) => f8
    pub fn to_chess_square(self) -> (r: [char; 2])
        requires
            self.row + 97 <= u8::MAX,
            self.col + 1 <= u8::MAX,
        ensures
            r@ == self.name(),
    {
        let r = [(self.row + 97) as char, ((self.col + 1) ^ 0x30) as char];
        assert(r@ =~= self.name());
        r
    }

    /// The square that the two characters `data` name. Of each character
    /// only the low byte counts: it must be that of a letter from `a` to `h`
    /// and that of a digit from `1` to `8`.
    pub fn from_chess_square(data: &[char; 2]) -> (r: Self)
        requires
            97 <= low_byte(data[0]) <= 104,
            49 <= low_byte(data[1]) <= 56,
        ensures
            r.well_formed(),
            r.row == low_byte(data[0]) - 97,
            r.col == low_byte(data[1]) - 49,
            data[0] as u32 <= 0xff && data[1] as u32 <= 0xff ==> r.name() == data@,
    {
        let r = Square::named(data[0], data[1]);
        assert(seq![data[0], data[1]] =~= data@);
        r
    }

    /// The square that `letter` and `digit` name.
    fn named(letter: char, digit: char) -> (r: Self)
        requires
            97 <= low_byte(letter) <= 104,
            49 <= low_byte(digit) <= 56,
        ensures
            r.well_formed(),
            r.row == low_byte(letter) - 97,
            r.col == low_byte(digit) - 49,
            letter as u32 <= 0xff && digit as u32 <= 0xff ==> r.name() == seq![letter, digit],
    {
        let row: u8 = (letter as u32 % 256) as u8;
        let col: u8 = (digit as u32 % 256) as u8;
        assert((col ^ 0x30) == col - 48) by (bit_vector)
            requires
                49 <= col <= 56,
        ;
        let r = Square::new(row - 97, (col ^ 0x30) - 1);
        proof {
            lemma_names_on_the_board(r);
            if letter as u32 <= 0xff && digit as u32 <= 0xff {
                assert((letter as u8) as char == letter && (digit as u8) as char == digit);
                assert(r.name() =~= seq![letter, digit]);
            }
        }
        r
    }

    /// The square in row `row` and column `col`.
    pub fn new(row: u8, col: u8) -> (r: Self)
        requires
            row < 8,
            col < 8,
        ensures
            r == (Square { row, col }),
            r.well_formed(),
    {
        Square { row, col }
    }
}

/// The low byte of the character `c`.
pub open spec fn low_byte(c: char) -> int {
    (c as u32 % 256) as int
}

/// A square of the board is named by a letter from `a` to `h` for its row
/// and a digit from `1` to `8` for its column.
pub proof fn lemma_names_on_the_board(s: Square)
    requires
        s.well_formed(),
    ensures
        s.name() == seq![((s.row + 97) as u8) as char, ((s.col + 49) as u8) as char],
{
    let digit: u8 = (s.col + 1) as u8;
    assert(digit ^ 0x30u8 == digit + 48) by (bit_vector)
        requires
            1 <= digit <= 8,
    ;
}

/// No two squares of the board have the same name: reading a square's name
/// gives the square back.
pub proof fn law_square_names_are_unique(a: Square, b: Square)
    requires
        a.well_formed(),
        b.well_formed(),
        a.name() == b.name(),
    ensures
        a == b,
{
    lemma_names_on_the_board(a);
    lemma_names_on_the_board(b);
    let x = seq![((a.row + 97) as u8) as char, ((a.col + 49) as u8) as char];
    let y = seq![((b.row + 97) as u8) as char, ((b.col + 49) as u8) as char];
    assert(x[0] == y[0]);
    assert(x[1] == y[1]);
}

/// The characters of the text that was built, if one was.
pub open spec fn text_option_view(r: Option<String>) -> Option<Seq<char>> {
    match r {
        Some(s) => Some(s@),
        None => None,
    }
}

impl Move {
    /// The notation of the move on the position with the record `record`:
    /// the letter of the piece in the start square, read without turning the
    /// board, an `x` if the end square is occupied, and the name of the end
    /// square. `None` where no piece is found in the start square.
    pub open spec fn notation(self, record: Seq<char>) -> Option<Seq<char>> {
        match piece_at(record, self.start.row as nat, self.start.col as nat) {
            None => None,
            Some(piece) => Some(
                (match piece.piece_type.letter() {
                    Some(letter) => seq![letter],
                    None => Seq::empty(),
                }) + (if self.end.occupant(record) is Some {
                    seq!['x']
                } else {
                    Seq::empty()
                }) + self.end.name(),
            ),
        }
    }

    /// Writes the move in notation, without telling apart two pieces of a
    /// kind that could both make it.
    pub fn get_notation(self, pos: &Position) -> (r: Option<String>)
        requires
            piece_at(pos@.record, self.start.row as nat, self.start.col as nat) is Some ==> self.end.row
                < 8 && self.end.col + 1 <= u8::MAX,
        ensures
            text_option_view(r) == self.notation(pos@.record),
    {
        let piece = match pos.at(self.start.row as usize, self.start.col as usize) {
            Some(piece) => piece,
            None => {
                return None;
            },
        };
        let mut out = String::new();
        match piece.piece_type.to_char() {
            Some(letter) => {
                push_char(&mut out, letter);
            },
            None => {},
        }
        if self.end.at(pos).is_some() {
            push_char(&mut out, 'x');
        }
        let name = self.end.to_chess_square();
        push_char(&mut out, name[0]);
        push_char(&mut out, name[1]);
        assert(out@ =~= self.notation(pos@.record)->0);
        Some(out)
    }

    /// The move from `start` to `end`.
    pub fn new(start: Square, end: Square) -> (r: Self)
        ensures
            r == (Move { start, end }),
    {
        Move { start, end }
    }
}

} // verus!
