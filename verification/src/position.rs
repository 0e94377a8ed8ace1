//! Squares of the board and their algebraic names.

use crate::text::{chars_of, trim, trim_bounds};
use vstd::prelude::*;
use vstd::string::StringExecFns;

verus! {

/// A square of the 8x8 board.
///
/// Rows count the ranks from 0 (rank 1, White's home rank) to 7 (rank 8);
/// columns count the files from 0 (file a) to 7 (file h). A value of this
/// type always lies on the board.
#[derive(Clone, Copy, Debug, PartialEq, Eq, PartialOrd, Ord, Hash, Structural)]
pub struct Position {
    row: i32,
    col: i32,
}

/// Whether `(row, col)` names a square of the board.
pub open spec fn on_grid(row: int, col: int) -> bool {
    0 <= row < 8 && 0 <= col < 8
}

/// The file that the letter `c` names, in either case.
pub open spec fn file_of(c: char) -> Option<int> {
    let n = c as u32;
    if 97 <= n <= 104 {
        Some(n - 97)
    } else if 65 <= n <= 72 {
        Some(n - 65)
    } else {
        None
    }
}

/// The rank that the digit `c` names, counted from 0.
pub open spec fn rank_of(c: char) -> Option<int> {
    let n = c as u32;
    if 49 <= n <= 56 {
        Some(n - 49)
    } else {
        None
    }
}

/// The lower-case letter of the file `col`.
pub open spec fn file_char(col: int) -> char {
    (97 + col) as char
}

/// The digit of the rank `row`.
pub open spec fn rank_char(row: int) -> char {
    (49 + row) as char
}

/// The square that `s` names: after trimming, a file letter `a` to `h` (in
/// either case) followed by a rank digit `1` to `8`, and nothing else.
pub open spec fn parse_square(s: Seq<char>) -> Option<Position> {
    let t = trim(s);
    if t.len() == 2 && file_of(t[0]) is Some && rank_of(t[1]) is Some {
        Some(Position::at(rank_of(t[1])->0, file_of(t[0])->0))
    } else {
        None
    }
}

/// The message for a text that names no square.
pub open spec fn square_error_text(s: Seq<char>) -> Seq<char> {
    "invalid square `"@ + s + "`"@
}

impl Position {
    /// Every square that a program holds lies on the board.
    #[verifier::type_invariant]
    closed spec fn inv(self) -> bool {
        0 <= self.row < 8 && 0 <= self.col < 8
    }

    /// The row of the square.
    pub closed spec fn row(self) -> int {
        self.row as int
    }

    /// The column of the square.
    pub closed spec fn col(self) -> int {
        self.col as int
    }

    /// The square in the given row and column.
    pub closed spec fn at(row: int, col: int) -> Position {
        Position { row: row as i32, col: col as i32 }
    }

    /// Whether the square lies on the board. Every value that executable code
    /// holds does; a value that only ghost code speaks of may not.
    pub open spec fn on_board(self) -> bool {
        on_grid(self.row(), self.col())
    }

    /// The number of the square when the board is read row by row.
    pub open spec fn index(self) -> int {
        self.row() * 8 + self.col()
    }

    /// The algebraic name of the square, such as `e4`.
    pub open spec fn name_text(self) -> Seq<char> {
        seq![file_char(self.col()), rank_char(self.row())]
    }

    /// `Position::at` yields the square with the given coordinates.
    pub proof fn lemma_at(row: int, col: int)
        requires
            on_grid(row, col),
        ensures
            Position::at(row, col).row() == row,
            Position::at(row, col).col() == col,
            Position::at(row, col).on_board(),
    {
    }

    /// A square is determined by its row and column.
    pub proof fn lemma_unique(p: Position, q: Position)
        requires
            p.row() == q.row(),
            p.col() == q.col(),
        ensures
            p == q,
    {
    }

    /// Every square on the board is `Position::at` of its coordinates.
    pub proof fn lemma_at_self(p: Position)
        requires
            p.on_board(),
        ensures
            Position::at(p.row(), p.col()) == p,
    {
    }

    /// The square in the given row and column, if there is one.
    pub fn new(row: i32, col: i32) -> (r: Option<Position>)
        ensures
            r == if on_grid(row as int, col as int) {
                Some(Position::at(row as int, col as int))
            } else {
                None
            },
            r matches Some(p) ==> p.row() == row && p.col() == col && p.on_board(),
    {
        if 0 <= row && row < 8 && 0 <= col && col < 8 {
            Some(Position { row, col })
        } else {
            None
        }
    }

    /// The row of the square, from 0 to 7.
    pub fn get_row(&self) -> (r: i32)
        ensures
            r == self.row(),
            self.on_board(),
    {
        proof {
            use_type_invariant(self);
        }
        self.row
    }

    /// The column of the square, from 0 to 7.
    pub fn get_col(&self) -> (r: i32)
        ensures
            r == self.col(),
            self.on_board(),
    {
        proof {
            use_type_invariant(self);
        }
        self.col
    }

    /// The number of the square when the board is read row by row, from 0 to
    /// 63.
    pub fn to_index(&self) -> (r: usize)
        ensures
            r == self.index(),
            0 <= r < 64,
            self.on_board(),
    {
        proof {
            use_type_invariant(self);
        }
        (self.row * 8 + self.col) as usize
    }

    /// The square with the given number, if there is one.
    pub fn from_index(index: usize) -> (r: Option<Position>)
        ensures
            r == if index < 64 {
                Some(Position::at(index as int / 8, index as int % 8))
            } else {
                None
            },
            r matches Some(p) ==> p.index() == index && p.on_board(),
    {
        if index < 64 {
            Some(Position { row: (index / 8) as i32, col: (index % 8) as i32 })
        } else {
            None
        }
    }

    /// The square reached by going `drow` rows up and `dcol` columns to the
    /// right, or `None` when that leaves the board.
    pub fn offset(&self, drow: i32, dcol: i32) -> (r: Option<Position>)
        ensures
            self.on_board(),
            r == if on_grid(self.row() + drow, self.col() + dcol) {
                Some(Position::at(self.row() + drow, self.col() + dcol))
            } else {
                None
            },
            r matches Some(p) ==> p.row() == self.row() + drow && p.col() == self.col() + dcol
                && p.on_board(),
    {
        proof {
            use_type_invariant(self);
        }
        if -8 < drow && drow < 8 && -8 < dcol && dcol < 8 {
            Position::new(self.row + drow, self.col + dcol)
        } else {
            None
        }
    }

    /// Reads a square from its algebraic name.
    ///
    /// White space around the name is ignored and the file letter may be in
    /// either case. Any other text is rejected with a message that quotes it.
    pub fn pgn(s: &str) -> (r: Result<Position, String>)
        ensures
            match parse_square(s@) {
                Some(p) => r == Ok::<Position, String>(p),
                None => r matches Err(e) && e@ == square_error_text(s@),
            },
            r matches Ok(p) ==> p.on_board(),
    {
        let v = chars_of(s);
        assert(v@.subrange(0, v.len() as int) == s@);
        match Position::from_chars(&v, 0, v.len()) {
            Some(p) => Ok(p),
            None => Err(String::from_str("invalid square `").concat(s).concat("`")),
        }
    }

    /// Reads a square from the characters `v[lo..hi]`, as `pgn` does.
    pub fn from_chars(v: &Vec<char>, lo: usize, hi: usize) -> (r: Option<Position>)
        requires
            lo <= hi <= v.len(),
        ensures
            r == parse_square(v@.subrange(lo as int, hi as int)),
            r matches Some(p) ==> p.on_board(),
    {
        let mut w: Vec<char> = Vec::new();
        let mut i: usize = lo;
        while i < hi
            invariant
                lo <= i <= hi <= v.len(),
                w@ == v@.subrange(lo as int, i as int),
            decreases hi - i,
        {
            w.push(v[i]);
            i = i + 1;
        }
        let (a, b) = trim_bounds(&w);
        if b - a != 2 {
            return None;
        }
        let f: u32 = w[a] as u32;
        let k: u32 = w[a + 1] as u32;
        assert(trim(w@)[0] == w@[a as int]);
        assert(trim(w@)[1] == w@[a + 1]);
        let col: i32 = if 97 <= f && f <= 104 {
            (f - 97) as i32
        } else if 65 <= f && f <= 72 {
            (f - 65) as i32
        } else {
            return None;
        };
        if 49 <= k && k <= 56 {
            Position::new((k - 49) as i32, col)
        } else {
            None
        }
    }

    /// The algebraic name of the square, such as `e4`.
    pub fn to_string(&self) -> (s: String)
        ensures
            s@ == self.name_text(),
    {
        proof {
            use_type_invariant(self);
        }
        let v: Vec<char> = vec![(97u8 + self.col as u8) as char, (49u8 + self.row as u8) as char];
        let s = crate::text::string_of(&v, 0, 2);
        assert(s@ =~= self.name_text());
        s
    }

    /// The file letter of the square, in lower case.
    pub fn file_letter(&self) -> (c: char)
        ensures
            c == file_char(self.col()),
    {
        proof {
            use_type_invariant(self);
        }
        (97u8 + self.col as u8) as char
    }

    /// The rank digit of the square.
    pub fn rank_digit(&self) -> (c: char)
        ensures
            c == rank_char(self.row()),
    {
        proof {
            use_type_invariant(self);
        }
        (49u8 + self.row as u8) as char
    }
}

} // verus!
