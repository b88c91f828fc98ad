//! What the board and the list of moves show, cell by cell and line by line.

use crate::position::moves::Move;
use crate::position::{piece_at, Color, Position, PositionView};
use crate::decimal::{digits_of, write_natural};
use crate::text::{push_char, texts};
use vstd::prelude::*;
use vstd::string::{StrSliceExecFns, StringExecFns};

verus! {

/// The colour behind a square.
#[derive(Debug, Clone, Copy, PartialEq, Eq, Structural)]
pub enum Shade {
    Blue,
    LightBlue,
    Green,
    LightGreen,
}

/// The colour in which a square's piece is drawn.
#[derive(Debug, Clone, Copy, PartialEq, Eq, Structural)]
pub enum Ink {
    White,
    Black,
    Green,
}

/// One square of the board as it is shown.
#[derive(Debug, Clone, Copy, PartialEq, Eq, Structural)]
pub struct Cell {
    /// The piece's figurine, or a space.
    pub glyph: char,
    pub background: Shade,
    pub foreground: Ink,
}

/// The cell in row `i` and column `j`, rows and columns counted as the
/// record has them. Squares alternate between blue and green, the
/// highlighted one in the light shade; an empty square is a space in green.
pub open spec fn cell_of(p: PositionView, i: nat, j: nat) -> Cell {
    let piece = piece_at(p.record, i, j);
    let lit = p.highlighted matches Some((a, b)) && a == i && b == j;
    Cell {
        glyph: match piece {
            Some(x) => x.piece_type.figurine(),
            None => ' ',
        },
        background: if (i + j) % 2 == 0 {
            if lit {
                Shade::LightBlue
            } else {
                Shade::Blue
            }
        } else {
            if lit {
                Shade::LightGreen
            } else {
                Shade::Green
            }
        },
        foreground: match piece {
            Some(x) => match x.color {
                Color::White => Ink::White,
                Color::Black => Ink::Black,
            },
            None => Ink::Green,
        },
    }
}

/// `n` spaces.
pub open spec fn spaces(n: int) -> Seq<char> {
    Seq::new(
        if n > 0 {
            n as nat
        } else {
            0
        },
        |i: int| ' ',
    )
}

/// `s` with spaces in front of it up to the width `width`.
pub open spec fn pad_left(s: Seq<char>, width: nat) -> Seq<char> {
    spaces(width - s.len()) + s
}

/// `s` with spaces behind it up to the width `width`.
pub open spec fn pad_right(s: Seq<char>, width: nat) -> Seq<char> {
    s + spaces(width - s.len())
}

/// The `k`-th line of the list of moves, lines counted from zero: its
/// number, four wide, a colon, the first move flush right and the second
/// flush left, seven wide each. `None` where a move has no notation.
pub open spec fn move_line(record: Seq<char>, k: nat, first: Move, second: Option<Move>) -> Option<
    Seq<char>,
> {
    let reply = match second {
        Some(m) => m.notation(record),
        None => Some(Seq::empty()),
    };
    match (first.notation(record), reply) {
        (Some(a), Some(b)) => Some(
            pad_left(digits_of(k + 1), 4) + seq![':', ' '] + pad_left(a, 7) + seq![' ', ' ']
                + pad_right(b, 7),
        ),
        _ => None,
    }
}

/// The lines of the list of moves from the `k`-th on, two moves to a line.
/// `None` where a move has no notation.
pub open spec fn move_lines_from(record: Seq<char>, moves: Seq<Move>, k: int) -> Option<
    Seq<Seq<char>>,
>
    decreases moves.len() + 1 - 2 * k,
{
    if k < 0 || 2 * k >= moves.len() {
        Some(Seq::empty())
    } else {
        let second = if 2 * k + 1 < moves.len() {
            Some(moves[2 * k + 1])
        } else {
            None
        };
        match (
            move_line(record, k as nat, moves[2 * k], second),
            move_lines_from(record, moves, k + 1),
        ) {
            (Some(line), Some(rest)) => Some(seq![line] + rest),
            _ => None,
        }
    }
}

/// Puts `n` spaces at the end of `out`.
fn push_spaces(out: &mut String, n: usize)
    ensures
        final(out)@ == old(out)@ + spaces(n as int),
{
    let mut i: usize = 0;
    assert(out@ + spaces(0) =~= out@);
    while i < n
        invariant
            i <= n,
            out@ == old(out)@ + spaces(i as int),
        decreases n - i,
    {
        assert((old(out)@ + spaces(i as int)).push(' ') =~= old(out)@ + spaces(i + 1));
        push_char(out, ' ');
        i += 1;
    }
}

/// Puts `s` at the end of `out`, flush right in `width` columns.
fn push_flush_right(out: &mut String, s: &str, width: usize)
    ensures
        final(out)@ == old(out)@ + pad_left(s@, width as nat),
{
    let len = s.unicode_len();
    if len < width {
        push_spaces(out, width - len);
    } else {
        assert(out@ + spaces(width - len) =~= out@);
    }
    out.append(s);
    assert(old(out)@ + spaces(width - len) + s@ =~= old(out)@ + pad_left(s@, width as nat));
}

/// Puts `s` at the end of `out`, flush left in `width` columns.
fn push_flush_left(out: &mut String, s: &str, width: usize)
    ensures
        final(out)@ == old(out)@ + pad_right(s@, width as nat),
{
    let len = s.unicode_len();
    out.append(s);
    if len < width {
        push_spaces(out, width - len);
    } else {
        assert(out@ + spaces(width - len) =~= out@);
    }
    assert(old(out)@ + s@ + spaces(width - len) =~= old(out)@ + pad_right(s@, width as nat));
}

impl Cell {
    /// The two characters that show the cell: its glyph and a space.
    pub fn text(&self) -> (r: String)
        ensures
            r@ == seq![self.glyph, ' '],
    {
        let mut out = String::new();
        push_char(&mut out, self.glyph);
        push_char(&mut out, ' ');
        assert(out@ =~= seq![self.glyph, ' ']);
        out
    }
}

impl Position {
    /// The cell in row `i` and column `j`.
    pub fn cell(&self, i: usize, j: usize) -> (r: Cell)
        ensures
            r == cell_of(self@, i as nat, j as nat),
    {
        let piece = self.at(i, j);
        let lit = match self.highlighted() {
            Some((a, b)) => a as usize == i && b as usize == j,
            None => false,
        };
        let even = (i % 2 + j % 2) % 2 == 0;
        assert(even == ((i + j) % 2 == 0));
        Cell {
            glyph: match piece {
                Some(x) => x.piece_type.to_unicode(),
                None => ' ',
            },
            background: if even {
                if lit {
                    Shade::LightBlue
                } else {
                    Shade::Blue
                }
            } else {
                if lit {
                    Shade::LightGreen
                } else {
                    Shade::Green
                }
            },
            foreground: match piece {
                Some(x) => match x.color {
                    Color::White => Ink::White,
                    Color::Black => Ink::Black,
                },
                None => Ink::Green,
            },
        }
    }

    /// The eight rows of eight cells that show the board.
    pub fn board(&self) -> (r: Vec<Vec<Cell>>)
        ensures
            r@.len() == 8,
            forall|i: int| 0 <= i < 8 ==> (#[trigger] r@[i])@.len() == 8,
            forall|i: int, j: int|
                0 <= i < 8 && 0 <= j < 8 ==> (#[trigger] r@[i]@[j]) == cell_of(
                    self@,
                    i as nat,
                    j as nat,
                ),
    {
        let mut rows: Vec<Vec<Cell>> = Vec::new();
        let mut i: usize = 0;
        while i < 8
            invariant
                i <= 8,
                rows@.len() == i,
                forall|a: int| 0 <= a < i ==> (#[trigger] rows@[a])@.len() == 8,
                forall|a: int, b: int|
                    0 <= a < i && 0 <= b < 8 ==> (#[trigger] rows@[a]@[b]) == cell_of(
                        self@,
                        a as nat,
                        b as nat,
                    ),
            decreases 8 - i,
        {
            let mut row: Vec<Cell> = Vec::new();
            let mut j: usize = 0;
            while j < 8
                invariant
                    i < 8,
                    j <= 8,
                    row@.len() == j,
                    forall|b: int|
                        0 <= b < j ==> (#[trigger] row@[b]) == cell_of(self@, i as nat, b as nat),
                decreases 8 - j,
            {
                row.push(self.cell(i, j));
                j += 1;
            }
            rows.push(row);
            i += 1;
        }
        rows
    }

    /// The lines that list the moves, two moves to a line. `None` where a
    /// move has no notation because its start square is empty.
    pub fn move_lines(&self) -> (r: Option<Vec<String>>)
        ensures
            match r {
                Some(v) => move_lines_from(self@.record, self@.moves, 0) == Some(texts(v@)),
                None => move_lines_from(self@.record, self@.moves, 0) is None,
            },
    {
        proof {
            use_type_invariant(self);
        }
        let moves = self.moves();
        let n = moves.len();
        let ghost record = self@.record;
        let mut out: Vec<String> = Vec::new();
        let mut k: usize = 0;
        let mut i: usize = 0;
        assert(texts(out@) =~= Seq::<Seq<char>>::empty());
        while i < n
            invariant
                i <= n,
                i == 2 * k || (i == n && 2 * k >= n),
                n == moves@.len(),
                moves@ == self@.moves,
                record == self@.record,
                forall|j: int|
                    0 <= j < moves@.len() ==> (#[trigger] moves@[j]).start.well_formed()
                        && moves@[j].end.well_formed(),
                move_lines_from(record, moves@, 0) == match move_lines_from(record, moves@, k as int) {
                    Some(rest) => Some(texts(out@) + rest),
                    None => None,
                },
            decreases n - i,
        {
            let first = match moves[i].get_notation(self) {
                Some(text) => text,
                None => {
                    return None;
                },
            };
            let second = if i + 1 < n {
                match moves[i + 1].get_notation(self) {
                    Some(text) => text,
                    None => {
                        return None;
                    },
                }
            } else {
                String::new()
            };
            let number = write_natural((k + 1) as u64);
            let mut line = String::new();
            push_flush_right(&mut line, number.as_str(), 4);
            push_char(&mut line, ':');
            push_char(&mut line, ' ');
            push_flush_right(&mut line, first.as_str(), 7);
            push_char(&mut line, ' ');
            push_char(&mut line, ' ');
            push_flush_left(&mut line, second.as_str(), 7);
            proof {
                let expected = pad_left(digits_of((k + 1) as nat), 4) + seq![':', ' '] + pad_left(
                    first@,
                    7,
                ) + seq![' ', ' '] + pad_right(second@, 7);
                assert(line@ =~= expected);
                let rest = move_lines_from(record, moves@, k + 1);
                if rest is Some {
                    assert(texts(out@.push(line)) =~= texts(out@).push(line@));
                    assert(texts(out@).push(line@) + rest->0 =~= texts(out@) + (seq![line@]
                        + rest->0));
                }
            }
            out.push(line);
            k += 1;
            i = if i + 1 < n {
                i + 2
            } else {
                n
            };
        }
        assert(texts(out@) + Seq::<Seq<char>>::empty() =~= texts(out@));
        Some(out)
    }
}

} // verus!
