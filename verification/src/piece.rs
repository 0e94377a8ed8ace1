//! Pieces: their kinds, names, values and movement patterns.

use crate::color::Color;
use crate::position::Position;
use crate::text::spells;
use vstd::prelude::*;
use vstd::string::StringExecFns;

verus! {

/// The six kinds of chess piece.
#[derive(Clone, Copy, Debug, PartialEq, Eq, PartialOrd, Ord, Hash, Structural)]
pub enum PieceKind {
    Pawn,
    Knight,
    Bishop,
    Rook,
    Queen,
    King,
}

/// A piece: a kind and the color of its owner.
#[derive(Clone, Copy, Debug, PartialEq, Eq, PartialOrd, Ord, Hash, Structural)]
pub struct Piece {
    pub kind: PieceKind,
    pub color: Color,
}

/// Positional bonus of a pawn, in centipawns, read from rank 8 down to rank
/// 1 as White sees the board.
pub const PAWN_TABLE: [i32; 64] = [
    0, 0, 0, 0, 0, 0, 0, 0,
    50, 50, 50, 50, 50, 50, 50, 50,
    10, 10, 20, 30, 30, 20, 10, 10,
    5, 5, 10, 25, 25, 10, 5, 5,
    0, 0, 0, 20, 20, 0, 0, 0,
    5, -5, -10, 0, 0, -10, -5, 5,
    5, 10, 10, -20, -20, 10, 10, 5,
    0, 0, 0, 0, 0, 0, 0, 0,
];

/// Positional bonus of a knight, laid out as `PAWN_TABLE`.
pub const KNIGHT_TABLE: [i32; 64] = [
    -50, -40, -30, -30, -30, -30, -40, -50,
    -40, -20, 0, 0, 0, 0, -20, -40,
    -30, 0, 10, 15, 15, 10, 0, -30,
    -30, 5, 15, 20, 20, 15, 5, -30,
    -30, 0, 15, 20, 20, 15, 0, -30,
    -30, 5, 10, 15, 15, 10, 5, -30,
    -40, -20, 0, 5, 5, 0, -20, -40,
    -50, -40, -30, -30, -30, -30, -40, -50,
];

/// Positional bonus of a bishop, laid out as `PAWN_TABLE`.
pub const BISHOP_TABLE: [i32; 64] = [
    -20, -10, -10, -10, -10, -10, -10, -20,
    -10, 0, 0, 0, 0, 0, 0, -10,
    -10, 0, 5, 10, 10, 5, 0, -10,
    -10, 5, 5, 10, 10, 5, 5, -10,
    -10, 0, 10, 10, 10, 10, 0, -10,
    -10, 10, 10, 10, 10, 10, 10, -10,
    -10, 5, 0, 0, 0, 0, 5, -10,
    -20, -10, -10, -10, -10, -10, -10, -20,
];

/// Positional bonus of a rook, laid out as `PAWN_TABLE`.
pub const ROOK_TABLE: [i32; 64] = [
    0, 0, 0, 0, 0, 0, 0, 0,
    5, 10, 10, 10, 10, 10, 10, 5,
    -5, 0, 0, 0, 0, 0, 0, -5,
    -5, 0, 0, 0, 0, 0, 0, -5,
    -5, 0, 0, 0, 0, 0, 0, -5,
    -5, 0, 0, 0, 0, 0, 0, -5,
    -5, 0, 0, 0, 0, 0, 0, -5,
    0, 0, 0, 5, 5, 0, 0, 0,
];

/// Positional bonus of a queen, laid out as `PAWN_TABLE`.
pub const QUEEN_TABLE: [i32; 64] = [
    -20, -10, -10, -5, -5, -10, -10, -20,
    -10, 0, 0, 0, 0, 0, 0, -10,
    -10, 0, 5, 5, 5, 5, 0, -10,
    -5, 0, 5, 5, 5, 5, 0, -5,
    0, 0, 5, 5, 5, 5, 0, -5,
    -10, 5, 5, 5, 5, 5, 0, -10,
    -10, 0, 5, 0, 0, 0, 0, -10,
    -20, -10, -10, -5, -5, -10, -10, -20,
];

/// Positional bonus of a king, laid out as `PAWN_TABLE`.
pub const KING_TABLE: [i32; 64] = [
    -30, -40, -40, -50, -50, -40, -40, -30,
    -30, -40, -40, -50, -50, -40, -40, -30,
    -30, -40, -40, -50, -50, -40, -40, -30,
    -30, -40, -40, -50, -50, -40, -40, -30,
    -20, -30, -30, -40, -40, -30, -30, -20,
    -10, -20, -20, -20, -20, -20, -20, -10,
    20, 20, 0, 0, 0, 0, 20, 20,
    20, 30, 10, 0, 0, 10, 30, 20,
];

/// The absolute value of `x`.
pub open spec fn magnitude(x: int) -> int {
    if x < 0 {
        -x
    } else {
        x
    }
}

/// The sign of `x`: -1, 0 or 1.
pub open spec fn sign(x: int) -> int {
    if x < 0 {
        -1
    } else if x > 0 {
        1
    } else {
        0
    }
}

/// The message for a text that names no piece.
pub open spec fn piece_error_text(s: Seq<char>) -> Seq<char> {
    "invalid piece `"@ + s + "`"@
}

impl PieceKind {
    /// The English name of the kind, in lower case.
    pub open spec fn name_text(self) -> Seq<char> {
        match self {
            PieceKind::Pawn => "pawn"@,
            PieceKind::Knight => "knight"@,
            PieceKind::Bishop => "bishop"@,
            PieceKind::Rook => "rook"@,
            PieceKind::Queen => "queen"@,
            PieceKind::King => "king"@,
        }
    }

    /// The kind that `s` names, if it is the lower-case name of one.
    pub open spec fn named(s: Seq<char>) -> Option<PieceKind> {
        if s == "pawn"@ {
            Some(PieceKind::Pawn)
        } else if s == "knight"@ {
            Some(PieceKind::Knight)
        } else if s == "bishop"@ {
            Some(PieceKind::Bishop)
        } else if s == "rook"@ {
            Some(PieceKind::Rook)
        } else if s == "queen"@ {
            Some(PieceKind::Queen)
        } else if s == "king"@ {
            Some(PieceKind::King)
        } else {
            None
        }
    }

    /// The customary value of the kind in pawns; the king counts for nothing.
    pub open spec fn points(self) -> int {
        match self {
            PieceKind::Pawn => 1,
            PieceKind::Knight => 3,
            PieceKind::Bishop => 3,
            PieceKind::Rook => 5,
            PieceKind::Queen => 9,
            PieceKind::King => 0,
        }
    }

    /// The value of the kind in centipawns; the king counts for nothing.
    pub open spec fn centipawns(self) -> int {
        match self {
            PieceKind::Pawn => 100,
            PieceKind::Knight => 320,
            PieceKind::Bishop => 330,
            PieceKind::Rook => 500,
            PieceKind::Queen => 900,
            PieceKind::King => 0,
        }
    }

    /// The piece-square table of the kind.
    pub open spec fn table(self) -> Seq<i32> {
        match self {
            PieceKind::Pawn => PAWN_TABLE@,
            PieceKind::Knight => KNIGHT_TABLE@,
            PieceKind::Bishop => BISHOP_TABLE@,
            PieceKind::Rook => ROOK_TABLE@,
            PieceKind::Queen => QUEEN_TABLE@,
            PieceKind::King => KING_TABLE@,
        }
    }

    /// Whether a pawn may be promoted to this kind.
    pub open spec fn promotable(self) -> bool {
        self != PieceKind::Pawn && self != PieceKind::King
    }

    /// Whether a piece of this kind moves along lines until it is blocked.
    pub open spec fn slides(self) -> bool {
        self == PieceKind::Bishop || self == PieceKind::Rook || self == PieceKind::Queen
    }

    /// Whether a displacement of `dr` rows and `dc` columns fits the way a
    /// piece of this kind moves, occupancy aside. Pawns are not covered: how
    /// they move depends on their color and on what they meet.
    pub open spec fn pattern(self, dr: int, dc: int) -> bool {
        let ar = magnitude(dr);
        let ac = magnitude(dc);
        match self {
            PieceKind::Pawn => false,
            PieceKind::Knight => (ar == 1 && ac == 2) || (ar == 2 && ac == 1),
            PieceKind::Bishop => ar == ac && ar != 0,
            PieceKind::Rook => (ar == 0) != (ac == 0),
            PieceKind::Queen => (ar == ac && ar != 0) || ((ar == 0) != (ac == 0)),
            PieceKind::King => ar <= 1 && ac <= 1 && (ar != 0 || ac != 0),
        }
    }

    /// Tells whether a displacement fits the way a piece of this kind moves.
    pub fn fits_pattern(&self, dr: i32, dc: i32) -> (r: bool)
        ensures
            r == self.pattern(dr as int, dc as int),
    {
        let ar: i64 = if dr < 0 {
            -(dr as i64)
        } else {
            dr as i64
        };
        let ac: i64 = if dc < 0 {
            -(dc as i64)
        } else {
            dc as i64
        };
        match self {
            PieceKind::Pawn => false,
            PieceKind::Knight => (ar == 1 && ac == 2) || (ar == 2 && ac == 1),
            PieceKind::Bishop => ar == ac && ar != 0,
            PieceKind::Rook => (ar == 0) != (ac == 0),
            PieceKind::Queen => (ar == ac && ar != 0) || ((ar == 0) != (ac == 0)),
            PieceKind::King => ar <= 1 && ac <= 1 && (ar != 0 || ac != 0),
        }
    }

    /// Tells whether a piece of this kind moves along lines.
    pub fn is_slider(&self) -> (r: bool)
        ensures
            r == self.slides(),
    {
        match self {
            PieceKind::Bishop | PieceKind::Rook | PieceKind::Queen => true,
            _ => false,
        }
    }

    /// The English name of the kind, in lower case.
    pub fn get_name(&self) -> (s: String)
        ensures
            s@ == self.name_text(),
    {
        match self {
            PieceKind::Pawn => String::from_str("pawn"),
            PieceKind::Knight => String::from_str("knight"),
            PieceKind::Bishop => String::from_str("bishop"),
            PieceKind::Rook => String::from_str("rook"),
            PieceKind::Queen => String::from_str("queen"),
            PieceKind::King => String::from_str("king"),
        }
    }

    /// Reads a kind from the characters `v[lo..hi]`, which must spell its
    /// lower-case name.
    pub fn from_chars(v: &Vec<char>, lo: usize, hi: usize) -> (r: Option<PieceKind>)
        requires
            lo <= hi <= v.len(),
        ensures
            r == PieceKind::named(v@.subrange(lo as int, hi as int)),
    {
        if spells(v, lo, hi, "pawn") {
            Some(PieceKind::Pawn)
        } else if spells(v, lo, hi, "knight") {
            Some(PieceKind::Knight)
        } else if spells(v, lo, hi, "bishop") {
            Some(PieceKind::Bishop)
        } else if spells(v, lo, hi, "rook") {
            Some(PieceKind::Rook)
        } else if spells(v, lo, hi, "queen") {
            Some(PieceKind::Queen)
        } else if spells(v, lo, hi, "king") {
            Some(PieceKind::King)
        } else {
            None
        }
    }

    /// The customary value of the kind in pawns.
    pub fn get_points(&self) -> (r: i32)
        ensures
            r == self.points(),
    {
        match self {
            PieceKind::Pawn => 1,
            PieceKind::Knight => 3,
            PieceKind::Bishop => 3,
            PieceKind::Rook => 5,
            PieceKind::Queen => 9,
            PieceKind::King => 0,
        }
    }
}

impl Piece {
    /// The index into a piece-square table of the square `(row, col)` for a
    /// piece of this color: the tables are laid out as White sees the board
    /// and mirrored for Black.
    pub open spec fn table_index(self, row: int, col: int) -> int {
        match self.color {
            Color::White => (7 - row) * 8 + col,
            Color::Black => row * 8 + col,
        }
    }

    /// The worth in centipawns of this piece standing on `(row, col)`: its
    /// material plus the bonus of the square.
    pub open spec fn placed_value(self, row: int, col: int) -> int {
        self.kind.centipawns() + self.kind.table()[self.table_index(row, col)]
    }

    /// A piece of the given kind and color.
    pub fn new(kind: PieceKind, color: Color) -> (p: Piece)
        ensures
            p == (Piece { kind, color }),
    {
        Piece { kind, color }
    }

    /// The English name of the piece's kind, in lower case.
    pub fn get_name(&self) -> (s: String)
        ensures
            s@ == self.kind.name_text(),
    {
        self.kind.get_name()
    }

    /// The color of the piece.
    pub fn get_color(&self) -> (c: Color)
        ensures
            c == self.color,
    {
        self.color
    }

    /// The kind of the piece.
    pub fn get_kind(&self) -> (k: PieceKind)
        ensures
            k == self.kind,
    {
        self.kind
    }

    /// The same kind of piece in another color.
    pub fn with_color(&self, color: Color) -> (p: Piece)
        ensures
            p == (Piece { kind: self.kind, color }),
    {
        Piece { kind: self.kind, color }
    }

    /// Tells whether the piece is a king.
    pub fn is_king(&self) -> (r: bool)
        ensures
            r == (self.kind == PieceKind::King),
    {
        self.kind == PieceKind::King
    }

    /// Tells whether the piece is a queen.
    pub fn is_queen(&self) -> (r: bool)
        ensures
            r == (self.kind == PieceKind::Queen),
    {
        self.kind == PieceKind::Queen
    }

    /// Tells whether the piece is a rook.
    pub fn is_rook(&self) -> (r: bool)
        ensures
            r == (self.kind == PieceKind::Rook),
    {
        self.kind == PieceKind::Rook
    }

    /// Tells whether the piece is a bishop.
    pub fn is_bishop(&self) -> (r: bool)
        ensures
            r == (self.kind == PieceKind::Bishop),
    {
        self.kind == PieceKind::Bishop
    }

    /// Tells whether the piece is a knight.
    pub fn is_knight(&self) -> (r: bool)
        ensures
            r == (self.kind == PieceKind::Knight),
    {
        self.kind == PieceKind::Knight
    }

    /// Tells whether the piece is a pawn.
    pub fn is_pawn(&self) -> (r: bool)
        ensures
            r == (self.kind == PieceKind::Pawn),
    {
        self.kind == PieceKind::Pawn
    }

    /// The customary value of the piece in pawns: 1, 3, 3, 5, 9, and 0 for
    /// the king.
    pub fn get_material_value(&self) -> (r: i32)
        ensures
            r == self.kind.points(),
    {
        self.kind.get_points()
    }

    /// The worth in centipawns of this piece standing on the square `at`.
    pub fn get_weighted_value(&self, at: Position) -> (r: i32)
        ensures
            r == self.placed_value(at.row(), at.col()),
            -50 <= r <= 950,
    {
        let row = at.get_row();
        let col = at.get_col();
        let index: usize = match self.color {
            Color::White => ((7 - row) * 8 + col) as usize,
            Color::Black => (row * 8 + col) as usize,
        };
        match self.kind {
            PieceKind::Pawn => 100 + PAWN_TABLE[index],
            PieceKind::Knight => 320 + KNIGHT_TABLE[index],
            PieceKind::Bishop => 330 + BISHOP_TABLE[index],
            PieceKind::Rook => 500 + ROOK_TABLE[index],
            PieceKind::Queen => 900 + QUEEN_TABLE[index],
            PieceKind::King => KING_TABLE[index],
        }
    }

    /// Reads a piece from the name of its kind. The piece is White.
    pub fn from_name(name: &str) -> (r: Result<Piece, String>)
        ensures
            match PieceKind::named(name@) {
                Some(kind) => r == Ok::<Piece, String>(Piece { kind, color: Color::White }),
                None => r matches Err(e) && e@ == piece_error_text(name@),
            },
    {
        let v = crate::text::chars_of(name);
        assert(v@.subrange(0, v.len() as int) == name@);
        match PieceKind::from_chars(&v, 0, v.len()) {
            Some(kind) => Ok(Piece { kind, color: Color::White }),
            None => Err(String::from_str("invalid piece `").concat(name).concat("`")),
        }
    }
}

} // verus!
