//! The two sides of a chess game.

use vstd::prelude::*;

verus! {

/// The color of a piece, and of the player who owns it.
#[derive(Clone, Copy, Debug, PartialEq, Eq, PartialOrd, Ord, Hash, Structural)]
pub enum Color {
    White,
    Black,
}

/// The color White.
pub const WHITE: Color = Color::White;

/// The color Black.
pub const BLACK: Color = Color::Black;

impl Color {
    /// The opposite color.
    pub open spec fn other(self) -> Color {
        match self {
            Color::White => Color::Black,
            Color::Black => Color::White,
        }
    }

    /// The capitalised English name of the color.
    pub open spec fn name_text(self) -> Seq<char> {
        match self {
            Color::White => "White"@,
            Color::Black => "Black"@,
        }
    }

    /// The direction in which pawns of this color advance: up the rows for
    /// White, down for Black.
    pub open spec fn forward(self) -> int {
        match self {
            Color::White => 1,
            Color::Black => -1,
        }
    }

    /// The row on which the pieces of this color start.
    pub open spec fn home_row(self) -> int {
        match self {
            Color::White => 0,
            Color::Black => 7,
        }
    }

    /// The row on which the pawns of this color start.
    pub open spec fn pawn_row(self) -> int {
        match self {
            Color::White => 1,
            Color::Black => 6,
        }
    }

    /// The row on which the pawns of this color are promoted.
    pub open spec fn promotion_row(self) -> int {
        match self {
            Color::White => 7,
            Color::Black => 0,
        }
    }

    /// The direction in which pawns of this color advance.
    pub fn get_forward(&self) -> (r: i32)
        ensures
            r == self.forward(),
    {
        match self {
            Color::White => 1,
            Color::Black => -1,
        }
    }

    /// The row on which the pieces of this color start.
    pub fn get_home_row(&self) -> (r: i32)
        ensures
            r == self.home_row(),
    {
        match self {
            Color::White => 0,
            Color::Black => 7,
        }
    }

    /// The row on which the pawns of this color start.
    pub fn get_pawn_row(&self) -> (r: i32)
        ensures
            r == self.pawn_row(),
    {
        match self {
            Color::White => 1,
            Color::Black => 6,
        }
    }

    /// The row on which the pawns of this color are promoted.
    pub fn get_promotion_row(&self) -> (r: i32)
        ensures
            r == self.promotion_row(),
    {
        match self {
            Color::White => 7,
            Color::Black => 0,
        }
    }

    /// Returns the opposite color.
    pub fn invert(&self) -> (r: Color)
        ensures
            r == self.other(),
    {
        match self {
            Color::White => Color::Black,
            Color::Black => Color::White,
        }
    }

    /// Returns the name of the color, `"White"` or `"Black"`.
    pub fn to_string(&self) -> (s: String)
        ensures
            s@ == self.name_text(),
    {
        match self {
            Color::White => String::from_str("White"),
            Color::Black => String::from_str("Black"),
        }
    }
}

/// A color can be inverted with the `!` operator.
impl core::ops::Not for Color {
    type Output = Color;

    fn not(self) -> (r: Color) {
        match self {
            Color::White => Color::Black,
            Color::Black => Color::White,
        }
    }
}

impl vstd::std_specs::ops::NotSpecImpl for Color {
    open spec fn obeys_not_spec() -> bool {
        true
    }

    open spec fn not_req(self) -> bool {
        true
    }

    open spec fn not_spec(self) -> Color {
        self.other()
    }
}

} // verus!
