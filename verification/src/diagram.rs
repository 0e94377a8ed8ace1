//! The board as a picture in text.

use crate::board::{Board, BoardView};
use crate::fen::{piece_char, piece_letter};
use crate::piece::Piece;
use crate::text::string_from;
use vstd::prelude::*;

verus! {

/// The character that pictures a square: the letter of the piece that
/// stands on it, upper case for White and lower case for Black, or a dot.
pub open spec fn square_char(square: Option<Piece>) -> char {
    match square {
        Some(p) => piece_char(p),
        None => '.',
    }
}

impl BoardView {
    /// The picture of the squares of `row` from column `col` on, closed by a
    /// line break.
    pub open spec fn row_picture(self, row: int, col: int) -> Seq<char>
        decreases 8 - col,
    {
        if col >= 8 {
            seq!['\n']
        } else {
            seq![square_char(self.at(row, col))] + self.row_picture(row, col + 1)
        }
    }

    /// The picture of the rows from `row` down to row 0, one line each.
    pub open spec fn picture(self, row: int) -> Seq<char>
        decreases row + 1,
    {
        if row < 0 {
            Seq::empty()
        } else {
            self.row_picture(row, 0) + self.picture(row - 1)
        }
    }
}

impl Board {
    /// Appends the picture of the squares of `row` from column `col` on to
    /// `out`.
    fn push_row_picture(&self, row: i32, col: i32, out: &mut Vec<char>)
        requires
            0 <= col <= 8,
        ensures
            final(out)@ == old(out)@ + self@.row_picture(row as int, col as int),
        decreases 8 - col,
    {
        if col >= 8 {
            out.push('\n');
            assert(out@ =~= old(out)@ + seq!['\n']);
        } else {
            let c = match self.get_square(row, col) {
                Some(p) => piece_letter(p),
                None => '.',
            };
            out.push(c);
            self.push_row_picture(row, col + 1, out);
            assert(out@ =~= old(out)@ + (seq![c] + self@.row_picture(row as int, col + 1)));
        }
    }

    /// Appends the picture of the rows from `row` down to row 0 to `out`.
    fn push_picture(&self, row: i32, out: &mut Vec<char>)
        requires
            -1 <= row < 8,
        ensures
            final(out)@ == old(out)@ + self@.picture(row as int),
        decreases row + 1,
    {
        if row < 0 {
            assert(out@ =~= old(out)@ + Seq::<char>::empty());
        } else {
            self.push_row_picture(row, 0, out);
            self.push_picture(row - 1, out);
            assert(out@ =~= old(out)@ + (self@.row_picture(row as int, 0) + self@.picture(
                row - 1,
            )));
        }
    }

    /// The board as a picture of eight lines, the eighth rank first: a
    /// letter for each piece, upper case for White and lower case for Black,
    /// and a dot for each empty square.
    pub fn to_string(&self) -> (s: String)
        ensures
            s@ == self@.picture(7),
    {
        let mut out: Vec<char> = Vec::new();
        self.push_picture(7, &mut out);
        assert(out@ =~= self@.picture(7));
        string_from(&out)
    }
}

} // verus!
