//! What a key or a click does to the position.

use crate::position::moves::{Move, Square};
use crate::position::{Position, PositionView};
use vstd::prelude::*;

verus! {

/// A key, as far as the position and the application tell keys apart.
#[derive(Debug, Clone, Copy, PartialEq, Eq, Structural)]
pub enum Key {
    /// A key that stands for a character.
    Char(char),
    /// The escape key.
    Esc,
    /// Any other key.
    Other,
}

/// A rectangle of the screen, in cells.
#[derive(Debug, Clone, Copy, PartialEq, Eq, Structural)]
pub struct Area {
    pub x: u16,
    pub y: u16,
    pub width: u16,
    pub height: u16,
}

impl Key {
    /// Tells whether the key ends the application: escape and `q` do.
    pub open spec fn quits(self) -> bool {
        self == Key::Esc || self == Key::Char('q')
    }

    /// Tells whether the key ends the application.
    pub fn is_quit(self) -> (r: bool)
        ensures
            r == self.quits(),
    {
        match self {
            Key::Esc => true,
            Key::Char(c) => c == 'q',
            Key::Other => false,
        }
    }
}

/// The square that a click selects: the click's row is taken relative to
/// the area's `x` and must lie within its width, the click's column relative
/// to its `y` and within its height; a square is two columns wide. `None`
/// where the click lies outside.
pub open spec fn clicked(area: Area, row: u16, column: u16) -> Option<(u16, u16)> {
    let r = row - area.x;
    let c = column - area.y;
    if r < 0 || c < 0 || r >= area.width || c >= area.height {
        None
    } else {
        Some((r as u16, (c / 2) as u16))
    }
}

/// The move that the space bar plays.
pub open spec fn space_move() -> Move {
    Move { start: Square { row: 0, col: 1 }, end: Square { row: 2, col: 2 } }
}

impl Position {
    /// Handles clicking on the chessboard: the square under the click is
    /// highlighted, and no square where the click lies outside `rect`.
    pub fn handle_mouse(&mut self, rect: &Area, row: u16, column: u16)
        ensures
            final(self)@ == (PositionView { highlighted: clicked(*rect, row, column), ..old(self)@ }),
    {
        proof {
            use_type_invariant(&*self);
        }
        // NOTE: This assumes that the chessboard is located top left
        self.highlighted = if row < rect.x || column < rect.y {
            None
        } else if row - rect.x >= rect.width || column - rect.y >= rect.height {
            None
        } else {
            Some((row - rect.x, (column - rect.y) / 2))
        };
    }

    /// Handles keyboard events: the space bar plays a move, no other key
    /// does anything.
    pub fn handle_keyboard(&mut self, code: Key)
        ensures
            final(self)@ == if code == Key::Char(' ') {
                PositionView { moves: old(self)@.moves.push(space_move()), ..old(self)@ }
            } else {
                old(self)@
            },
    {
        proof {
            use_type_invariant(&*self);
        }
        match code {
            Key::Char(c) => {
                if c == ' ' {
                    let mut moves = Vec::new();
                    std::mem::swap(&mut moves, &mut self.moves);
                    moves.push(Move::new(Square::new(0, 1), Square::new(2, 2)));
                    self.moves = moves;
                }
            },
            _ => {},
        }
    }
}

} // verus!
