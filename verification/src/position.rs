//! A chess position: the Forsyth-Edwards record it was set up from, and
//! what has been read out of that record.

use crate::decimal::{digit_value, is_digit, natural_up_to, parse_natural};
use crate::text::{chars_of, same_text, split_whitespace, tokens};
use vstd::prelude::*;
use vstd::string::StringExecFns;

pub mod board;
pub mod input;
pub mod moves;

use moves::{Move, Square};

verus! {

/// The record of the position from which a game starts.
pub open spec fn start_record() -> Seq<char> {
    "rnbqkbnr/pppppppp/8/8/8/8/PPPPPPPP/RNBQKBNR w KQkq - 0 1"@
}

/// The side that a piece belongs to, or that is to move.
#[derive(Debug, Clone, Copy, PartialEq, Eq, Structural)]
pub enum Color {
    White,
    Black,
}

/// The six kinds of pieces.
#[derive(Debug, Clone, Copy, PartialEq, Eq, Structural)]
pub enum PieceType {
    King,
    Queen,
    Rook,
    Bishop,
    Knight,
    Pawn,
}

/// Defines a chesspiece with its type and color
#[derive(Debug, Clone, Copy, PartialEq, Eq, Structural)]
pub struct Piece {
    pub piece_type: PieceType,
    pub color: Color,
}

/// Which castling moves are still allowed.
#[derive(Debug, Clone, Copy, PartialEq, Eq, Structural)]
pub struct CastingRights {
    pub kingside_white: bool,
    pub queenside_white: bool,
    pub kingside_black: bool,
    pub queenside_black: bool,
}

/// Describes the size of the chess board when it gets rendered
#[derive(Debug, Copy, Clone, Eq, PartialEq, Structural)]
pub enum ScreenLayout {
    /// Unicode chess pieces
    Small,
    /// Ascii Art chess pieces
    Large,
}

/// Stores a chess position
#[derive(Debug)]
pub struct Position {
    /// The record that the position was set up from.
    starting_position: String,
    turn: Color,
    castling_rights: CastingRights,
    halfmove_count: u8,
    movecount: u64,
    moves: Vec<Move>,
    highlighted: Option<(u16, u16)>,
    en_passant: Option<Square>,
}

/// What a `Position` holds, as mathematical values.
pub struct PositionView {
    pub record: Seq<char>,
    pub turn: Color,
    pub castling_rights: CastingRights,
    pub halfmove_count: u8,
    pub movecount: u64,
    pub moves: Seq<Move>,
    pub highlighted: Option<(u16, u16)>,
    pub en_passant: Option<Square>,
}

impl View for Position {
    type V = PositionView;

    closed spec fn view(&self) -> PositionView {
        PositionView {
            record: self.starting_position@,
            turn: self.turn,
            castling_rights: self.castling_rights,
            halfmove_count: self.halfmove_count,
            movecount: self.movecount,
            moves: self.moves@,
            highlighted: self.highlighted,
            en_passant: self.en_passant,
        }
    }
}

/// The kind of piece that the letter `c` names, in either case.
pub open spec fn piece_type_of(c: char) -> Option<PieceType> {
    if c == 'K' || c == 'k' {
        Some(PieceType::King)
    } else if c == 'Q' || c == 'q' {
        Some(PieceType::Queen)
    } else if c == 'B' || c == 'b' {
        Some(PieceType::Bishop)
    } else if c == 'N' || c == 'n' {
        Some(PieceType::Knight)
    } else if c == 'R' || c == 'r' {
        Some(PieceType::Rook)
    } else if c == 'P' || c == 'p' {
        Some(PieceType::Pawn)
    } else {
        None
    }
}

/// The piece that the letter `c` names in a record: white in upper case,
/// black in lower case.
pub open spec fn piece_of(c: char) -> Option<Piece> {
    match piece_type_of(c) {
        Some(piece_type) => Some(
            Piece {
                piece_type,
                color: if 'A' <= c <= 'Z' {
                    Color::White
                } else {
                    Color::Black
                },
            },
        ),
        None => None,
    }
}

/// The castling rights that the four characters `raw` stand for. Each
/// character grants its right unless it is `-`; the rights are taken in the
/// order: white kingside, black kingside, white queenside, black queenside.
pub open spec fn castling_of(raw: Seq<char>) -> CastingRights {
    CastingRights {
        kingside_white: raw[0] != '-',
        kingside_black: raw[1] != '-',
        queenside_white: raw[2] != '-',
        queenside_black: raw[3] != '-',
    }
}

/// The four characters that write the castling rights `c`: `K`, `Q`, `k`
/// and `q` for white kingside, white queenside, black kingside and black
/// queenside, each replaced by `-` where the right is gone.
pub open spec fn castling_text(c: CastingRights) -> Seq<char> {
    seq![
        if c.kingside_white {
            'K'
        } else {
            '-'
        },
        if c.queenside_white {
            'Q'
        } else {
            '-'
        },
        if c.kingside_black {
            'k'
        } else {
            '-'
        },
        if c.queenside_black {
            'q'
        } else {
            '-'
        },
    ]
}

/// The position that the record `record` describes: its fields are split at
/// whitespace; the second tells who is to move, the third the castling
/// rights, the fifth and sixth the two move counters. `None` where there are
/// fewer than six fields, the third has not four characters, or a counter is
/// no number in its range.
pub open spec fn position_of_record(record: Seq<char>) -> Option<PositionView> {
    let f = tokens(record);
    if f.len() < 6 || f[2].len() != 4 {
        None
    } else {
        match (natural_up_to(f[4], u8::MAX as int), natural_up_to(f[5], u64::MAX as int)) {
            (Some(halfmoves), Some(moves)) => Some(
                PositionView {
                    record,
                    turn: if f[1] == "w"@ {
                        Color::White
                    } else {
                        Color::Black
                    },
                    castling_rights: castling_of(f[2]),
                    halfmove_count: halfmoves as u8,
                    movecount: moves as u64,
                    moves: Seq::empty(),
                    highlighted: None,
                    en_passant: None,
                },
            ),
            _ => None,
        }
    }
}

/// Where the rank that holds position `i` ends: the first index at or after
/// `i` that holds a slash, or the length of `s`.
pub open spec fn rank_end(s: Seq<char>, i: int) -> int
    decreases s.len() - i,
{
    if 0 <= i < s.len() && s[i] != '/' {
        rank_end(s, i + 1)
    } else {
        i
    }
}

/// `rank_end` stays inside `s`.
pub proof fn lemma_rank_end(s: Seq<char>, i: int)
    requires
        0 <= i <= s.len(),
    ensures
        i <= rank_end(s, i) <= s.len(),
    decreases s.len() - i,
{
    if i < s.len() && s[i] != '/' {
        lemma_rank_end(s, i + 1);
    }
}

/// The `row`-th of the pieces into which slashes cut `s` from `i` on.
pub open spec fn rank_from(s: Seq<char>, i: int, row: nat) -> Option<Seq<char>>
    decreases s.len() - i,
{
    if i < 0 || i > s.len() {
        None
    } else {
        proof {
            lemma_rank_end(s, i);
        }
        let e = rank_end(s, i);
        if row == 0 {
            Some(s.subrange(i, e))
        } else if e >= s.len() {
            None
        } else {
            rank_from(s, e + 1, (row - 1) as nat)
        }
    }
}

/// The piece `col` squares further on in `rank` from character `i`: a digit
/// stands for that many empty squares, any other character for one square.
pub open spec fn piece_on(rank: Seq<char>, i: int, col: int) -> Option<Piece>
    decreases rank.len() - i,
{
    if i < 0 || i >= rank.len() || col < 0 {
        None
    } else if col == 0 {
        piece_of(rank[i])
    } else if is_digit(rank[i]) {
        piece_on(rank, i + 1, col - digit_value(rank[i]))
    } else {
        piece_on(rank, i + 1, col - 1)
    }
}

/// The piece that the record `record` puts in column `col` of its `row`-th
/// rank, counted from the front of the record.
pub open spec fn piece_at(record: Seq<char>, row: nat, col: nat) -> Option<Piece> {
    if col > isize::MAX {
        None
    } else {
        match rank_from(record, 0, row) {
            Some(rank) => piece_on(rank, 0, col as int),
            None => None,
        }
    }
}

impl Color {
    /// The red, green and blue of the colour in which the side's pieces are
    /// drawn: white at full strength, black at none.
    pub fn rgb(self) -> (r: (u8, u8, u8))
        ensures
            r == match self {
                Color::White => (255u8, 255u8, 255u8),
                Color::Black => (0u8, 0u8, 0u8),
            },
    {
        match self {
            Color::White => (255, 255, 255),
            Color::Black => (0, 0, 0),
        }
    }
}

impl PieceType {
    /// The letter that names the piece in a move; a pawn has none.
    pub open spec fn letter(self) -> Option<char> {
        match self {
            PieceType::King => Some('K'),
            PieceType::Queen => Some('Q'),
            PieceType::Rook => Some('R'),
            PieceType::Bishop => Some('B'),
            PieceType::Knight => Some('N'),
            PieceType::Pawn => None,
        }
    }

    /// The figurine that shows the piece.
    pub open spec fn figurine(self) -> char {
        match self {
            PieceType::King => '\u{265a}',
            PieceType::Queen => '\u{265b}',
            PieceType::Rook => '\u{265c}',
            PieceType::Bishop => '\u{265d}',
            PieceType::Knight => '\u{265e}',
            PieceType::Pawn => '\u{265f}',
        }
    }

    /// The letter that names the piece in a move; a pawn has none.
    pub fn to_char(self) -> (r: Option<char>)
        ensures
            r == self.letter(),
    {
        match self {
            PieceType::King => Some('K'),
            PieceType::Queen => Some('Q'),
            PieceType::Rook => Some('R'),
            PieceType::Bishop => Some('B'),
            PieceType::Knight => Some('N'),
            PieceType::Pawn => None,
        }
    }

    /// Generates the unicode character resembeling the current piece
    pub fn to_unicode(self) -> (r: char)
        ensures
            r == self.figurine(),
    {
        match self {
            PieceType::King => '\u{265a}',
            PieceType::Queen => '\u{265b}',
            PieceType::Rook => '\u{265c}',
            PieceType::Bishop => '\u{265d}',
            PieceType::Knight => '\u{265e}',
            PieceType::Pawn => '\u{265f}',
        }
    }

    /// The kind of piece that the letter `c` names, in either case.
    pub fn from(c: char) -> (r: Option<Self>)
        ensures
            r == piece_type_of(c),
    {
        if c == 'K' || c == 'k' {
            Some(PieceType::King)
        } else if c == 'Q' || c == 'q' {
            Some(PieceType::Queen)
        } else if c == 'B' || c == 'b' {
            Some(PieceType::Bishop)
        } else if c == 'N' || c == 'n' {
            Some(PieceType::Knight)
        } else if c == 'R' || c == 'r' {
            Some(PieceType::Rook)
        } else if c == 'P' || c == 'p' {
            Some(PieceType::Pawn)
        } else {
            None
        }
    }
}

impl Piece {
    /// Takes a piece from a fen and converts it into a piece
    pub fn from(a: char) -> (r: Option<Self>)
        ensures
            r == piece_of(a),
    {
        match PieceType::from(a) {
            Some(piece_type) => Some(
                Piece {
                    piece_type,
                    color: if 'A' <= a && a <= 'Z' {
                        Color::White
                    } else {
                        Color::Black
                    },
                },
            ),
            None => None,
        }
    }
}

impl CastingRights {
    /// Writes the rights as four characters.
    pub fn to_string(&self) -> (r: String)
        ensures
            r@ == castling_text(*self),
    {
        let mut out = String::new();
        proof {
            reveal_strlit("K");
            reveal_strlit("Q");
            reveal_strlit("k");
            reveal_strlit("q");
            reveal_strlit("-");
        }
        out.append(if self.kingside_white {
            "K"
        } else {
            "-"
        });
        out.append(if self.queenside_white {
            "Q"
        } else {
            "-"
        });
        out.append(if self.kingside_black {
            "k"
        } else {
            "-"
        });
        out.append(if self.queenside_black {
            "q"
        } else {
            "-"
        });
        assert(out@ =~= castling_text(*self));
        out
    }

    /// Reads the rights off the four characters of `raw`.
    pub fn from(raw: &str) -> (r: Self)
        requires
            raw@.len() == 4,
        ensures
            r == castling_of(raw@),
    {
        let raw = chars_of(raw);
        CastingRights {
            kingside_white: raw[0] != '-',
            kingside_black: raw[1] != '-',
            queenside_white: raw[2] != '-',
            queenside_black: raw[3] != '-',
        }
    }
}

/// The mathematical value of a position that was read, if one was.
pub open spec fn position_option_view(r: Option<Position>) -> Option<PositionView> {
    match r {
        Some(p) => Some(p@),
        None => None,
    }
}

impl Position {
    /// Every move that was made starts and ends on the board.
    #[verifier::type_invariant]
    spec fn moves_on_board(self) -> bool {
        forall|i: int|
            0 <= i < self.moves@.len() ==> (#[trigger] self.moves@[i]).start.well_formed()
                && self.moves@[i].end.well_formed()
    }

    /// Parses a fen and create a `Position` from it
    pub fn try_from(fen: &str) -> (r: Option<Self>)
        ensures
            position_option_view(r) == position_of_record(fen@),
    {
        let split = split_whitespace(fen);
        if split.len() < 6 {
            return None;
        }
        let castling = chars_of(split[2].as_str());
        if castling.len() != 4 {
            return None;
        }
        let halfmove_count = match parse_natural(split[4].as_str(), 255) {
            Some(v) => v as u8,
            None => {
                return None;
            },
        };
        let movecount = match parse_natural(split[5].as_str(), u64::MAX) {
            Some(v) => v,
            None => {
                return None;
            },
        };
        Some(
            Position {
                starting_position: String::from_str(fen),
                turn: if same_text(split[1].as_str(), "w") {
                    Color::White
                } else {
                    Color::Black
                },
                castling_rights: CastingRights::from(split[2].as_str()),
                en_passant: None,
                halfmove_count,
                movecount,
                moves: Vec::new(),
                highlighted: None,
            },
        )
    }

    /// The side that is to move.
    pub fn turn(&self) -> (r: Color)
        ensures
            r == self@.turn,
    {
        self.turn
    }

    /// The record that the position was set up from.
    pub fn record(&self) -> (r: &str)
        ensures
            r@ == self@.record,
    {
        self.starting_position.as_str()
    }

    /// The castling rights.
    pub fn castling_rights(&self) -> (r: CastingRights)
        ensures
            r == self@.castling_rights,
    {
        self.castling_rights
    }

    /// The number of half moves since the last capture or pawn move.
    pub fn halfmove_count(&self) -> (r: u8)
        ensures
            r == self@.halfmove_count,
    {
        self.halfmove_count
    }

    /// The number of the move that is to be played.
    pub fn movecount(&self) -> (r: u64)
        ensures
            r == self@.movecount,
    {
        self.movecount
    }

    /// The moves made so far.
    pub fn moves(&self) -> (r: &Vec<Move>)
        ensures
            r@ == self@.moves,
    {
        &self.moves
    }

    /// The square that is highlighted, if one is.
    pub fn highlighted(&self) -> (r: Option<(u16, u16)>)
        ensures
            r == self@.highlighted,
    {
        self.highlighted
    }

    /// The piece in column `col` of the `row`-th rank of the record, if
    /// there is one.
    #[verifier::loop_isolation(false)]
    pub fn at(&self, row: usize, col: usize) -> (r: Option<Piece>)
        ensures
            r == piece_at(self@.record, row as nat, col as nat),
    {
        if col > isize::MAX as usize {
            return None;
        }
        let chars = chars_of(self.starting_position.as_str());
        let n = chars.len();
        let ghost s = chars@;
        // Find where the rank starts.
        let mut start: usize = 0;
        let mut left: usize = row;
        while left > 0
            invariant
                start <= n,
                n == chars.len(),
                s == chars@,
                rank_from(s, start as int, left as nat) == rank_from(s, 0, row as nat),
            decreases left,
        {
            let mut e: usize = start;
            while e < n && chars[e] != '/'
                invariant
                    start <= e <= n,
                    n == chars.len(),
                    s == chars@,
                    rank_end(s, e as int) == rank_end(s, start as int),
                decreases n - e,
            {
                e += 1;
            }
            if e >= n {
                return None;
            }
            start = e + 1;
            left -= 1;
        }
        let mut end: usize = start;
        while end < n && chars[end] != '/'
            invariant
                start <= end <= n,
                n == chars.len(),
                s == chars@,
                rank_end(s, end as int) == rank_end(s, start as int),
            decreases n - end,
        {
            end += 1;
        }
        let ghost rank = s.subrange(start as int, end as int);
        assert(rank_from(s, 0, row as nat) == Some(rank));
        // Walk along the rank.
        let mut i: usize = start;
        let mut to_go: usize = col;
        while i < end
            invariant
                start <= i <= end <= n,
                n == chars.len(),
                s == chars@,
                rank == s.subrange(start as int, end as int),
                piece_on(rank, i - start, to_go as int) == piece_on(rank, 0, col as int),
            decreases end - i,
        {
            let c = chars[i];
            assert(rank[i - start] == c);
            if to_go == 0 {
                return Piece::from(c);
            }
            if '0' <= c && c <= '9' {
                let d: usize = (c as u32 - 48) as usize;
                assert(d == digit_value(c));
                if d > to_go {
                    assert(piece_on(rank, i - start + 1, to_go - d) is None);
                    return None;
                }
                to_go -= d;
            } else {
                to_go -= 1;
            }
            i += 1;
        }
        None
    }
}

impl Default for Position {
    /// The position from which a game starts.
    fn default() -> (r: Self)
        ensures
            r@ == (PositionView {
                record: start_record(),
                turn: Color::White,
                castling_rights: CastingRights {
                    kingside_white: true,
                    queenside_white: true,
                    kingside_black: true,
                    queenside_black: true,
                },
                halfmove_count: 0,
                movecount: 1,
                moves: Seq::empty(),
                highlighted: None,
                en_passant: None,
            }),
    {
        Position {
            starting_position: String::from_str(
                "rnbqkbnr/pppppppp/8/8/8/8/PPPPPPPP/RNBQKBNR w KQkq - 0 1",
            ),
            turn: Color::White,
            castling_rights: CastingRights {
                kingside_white: true,
                queenside_white: true,
                kingside_black: true,
                queenside_black: true,
            },
            en_passant: None,
            halfmove_count: 0,
            movecount: 1,
            moves: Vec::new(),
            highlighted: None,
        }
    }
}

} // verus!
