//! The board: sixty-four squares, the side to move, castling rights, the
//! en-passant target and the move counters.

use crate::color::Color;
use crate::piece::{Piece, PieceKind};
use crate::position::{on_grid, Position};
use vstd::prelude::*;

verus! {

/// Which castling moves each side may still make, as far as the history of
/// the game goes.
#[derive(Clone, Copy, Debug, PartialEq, Eq, PartialOrd, Ord, Hash, Structural)]
pub struct CastlingRights {
    pub white_kingside: bool,
    pub white_queenside: bool,
    pub black_kingside: bool,
    pub black_queenside: bool,
}

/// The mathematical content of a board.
pub struct BoardView {
    /// The sixty-four squares, row by row from row 0.
    pub squares: Seq<Option<Piece>>,
    /// The side to move.
    pub turn: Color,
    pub castling: CastlingRights,
    /// The square that a pawn passed over on the move just made, if it
    /// advanced two squares.
    pub en_passant: Option<Position>,
    /// The number of moves since the last capture or pawn move.
    pub halfmove_clock: nat,
    /// The number of the move, which grows after each move of Black.
    pub fullmove_number: nat,
}

/// A chess position. A board is never changed: playing a move yields a new
/// board.
#[derive(Clone, Copy, Debug, PartialEq, Eq, PartialOrd, Ord, Hash)]
pub struct Board {
    squares: [Option<Piece>; 64],
    turn: Color,
    castling: CastlingRights,
    en_passant: Option<Position>,
    halfmove_clock: u32,
    fullmove_number: u32,
}

/// A board in the making: squares and settings can be changed at will before
/// `build` fixes them.
#[derive(Clone, Copy, Debug)]
pub struct BoardBuilder {
    board: Board,
}

/// `n + 1`, unless that no longer fits the counters of a board.
pub open spec fn bump(n: nat) -> nat {
    if n < 0xFFFF_FFFF {
        n + 1
    } else {
        n
    }
}

/// The kind of piece that starts in column `col` of a home row.
pub open spec fn home_kind(col: int) -> PieceKind {
    if col == 0 || col == 7 {
        PieceKind::Rook
    } else if col == 1 || col == 6 {
        PieceKind::Knight
    } else if col == 2 || col == 5 {
        PieceKind::Bishop
    } else if col == 3 {
        PieceKind::Queen
    } else {
        PieceKind::King
    }
}

/// What stands on square `(row, col)` when a game starts.
pub open spec fn initial_square(row: int, col: int) -> Option<Piece> {
    if row == 0 {
        Some(Piece { kind: home_kind(col), color: Color::White })
    } else if row == 1 {
        Some(Piece { kind: PieceKind::Pawn, color: Color::White })
    } else if row == 6 {
        Some(Piece { kind: PieceKind::Pawn, color: Color::Black })
    } else if row == 7 {
        Some(Piece { kind: home_kind(col), color: Color::Black })
    } else {
        None
    }
}

impl CastlingRights {
    /// Every right.
    pub open spec fn all() -> CastlingRights {
        CastlingRights {
            white_kingside: true,
            white_queenside: true,
            black_kingside: true,
            black_queenside: true,
        }
    }

    /// No right.
    pub open spec fn none() -> CastlingRights {
        CastlingRights {
            white_kingside: false,
            white_queenside: false,
            black_kingside: false,
            black_queenside: false,
        }
    }

    /// Whether `color` still has the right to castle on the given wing.
    pub open spec fn allows(self, color: Color, kingside: bool) -> bool {
        match color {
            Color::White => if kingside {
                self.white_kingside
            } else {
                self.white_queenside
            },
            Color::Black => if kingside {
                self.black_kingside
            } else {
                self.black_queenside
            },
        }
    }

    /// These rights without the right of `color` on the given wing.
    pub open spec fn without(self, color: Color, kingside: bool) -> CastlingRights {
        match color {
            Color::White => if kingside {
                CastlingRights { white_kingside: false, ..self }
            } else {
                CastlingRights { white_queenside: false, ..self }
            },
            Color::Black => if kingside {
                CastlingRights { black_kingside: false, ..self }
            } else {
                CastlingRights { black_queenside: false, ..self }
            },
        }
    }

    /// Tells whether `color` still has the right to castle on the given wing.
    pub fn get(&self, color: Color, kingside: bool) -> (r: bool)
        ensures
            r == self.allows(color, kingside),
    {
        match color {
            Color::White => if kingside {
                self.white_kingside
            } else {
                self.white_queenside
            },
            Color::Black => if kingside {
                self.black_kingside
            } else {
                self.black_queenside
            },
        }
    }

    /// These rights without the right of `color` on the given wing.
    pub fn revoke(&self, color: Color, kingside: bool) -> (r: CastlingRights)
        ensures
            r == self.without(color, kingside),
    {
        let mut r = *self;
        match color {
            Color::White => if kingside {
                r.white_kingside = false;
            } else {
                r.white_queenside = false;
            },
            Color::Black => if kingside {
                r.black_kingside = false;
            } else {
                r.black_queenside = false;
            },
        }
        r
    }
}

impl BoardView {
    /// Whether the view has its sixty-four squares and counters that a board
    /// can hold. The view of every board has.
    pub open spec fn wf(self) -> bool {
        &&& self.squares.len() == 64
        &&& self.halfmove_clock <= 0xFFFF_FFFF
        &&& self.fullmove_number <= 0xFFFF_FFFF
    }

    /// Whether a board can hold the view: it is well formed and its
    /// en-passant target, if it has one, lies on the board. The view of every
    /// board that a program holds is such.
    pub open spec fn holdable(self) -> bool {
        self.wf() && (self.en_passant matches Some(p) ==> p.on_board())
    }

    /// What stands on square `(row, col)`; nothing stands off the board.
    pub open spec fn at(self, row: int, col: int) -> Option<Piece> {
        if on_grid(row, col) {
            self.squares[row * 8 + col]
        } else {
            None
        }
    }

    /// This view with `piece` on square `(row, col)`.
    pub open spec fn put(self, row: int, col: int, piece: Option<Piece>) -> BoardView {
        BoardView { squares: self.squares.update(row * 8 + col, piece), ..self }
    }

    /// The empty board: White to move, no castling rights, move one.
    pub open spec fn empty() -> BoardView {
        BoardView {
            squares: Seq::new(64, |i: int| None::<Piece>),
            turn: Color::White,
            castling: CastlingRights::none(),
            en_passant: None,
            halfmove_clock: 0,
            fullmove_number: 1,
        }
    }

    /// The position from which a game starts.
    pub open spec fn initial() -> BoardView {
        BoardView {
            squares: Seq::new(64, |i: int| initial_square(i / 8, i % 8)),
            turn: Color::White,
            castling: CastlingRights::all(),
            en_passant: None,
            halfmove_clock: 0,
            fullmove_number: 1,
        }
    }
}

impl View for Board {
    type V = BoardView;

    closed spec fn view(&self) -> BoardView {
        BoardView {
            squares: self.squares@,
            turn: self.turn,
            castling: self.castling,
            en_passant: self.en_passant,
            halfmove_clock: self.halfmove_clock as nat,
            fullmove_number: self.fullmove_number as nat,
        }
    }
}

impl View for BoardBuilder {
    type V = BoardView;

    closed spec fn view(&self) -> BoardView {
        self.board@
    }
}

impl Board {
    /// The board whose content is `v`, where there is one.
    pub closed spec fn of_view(v: BoardView) -> Board {
        choose|b: Board| b@ == v
    }

    /// The view of a board is well formed.
    pub proof fn lemma_view_wf(self)
        ensures
            self@.wf(),
    {
    }

    /// A board is determined by its view.
    pub proof fn lemma_view_injective(a: Board, b: Board)
        requires
            a@ == b@,
        ensures
            a == b,
    {
        assert(a.squares =~= b.squares);
    }

    /// `of_view` inverts the view.
    pub proof fn lemma_of_view(self)
        ensures
            Board::of_view(self@) == self,
    {
        Board::lemma_view_injective(Board::of_view(self@), self);
    }

    /// An array that holds the first `n` entries of `s`.
    closed spec fn squares_of(s: Seq<Option<Piece>>, n: nat) -> [Option<Piece>; 64]
        decreases n,
    {
        if n == 0 {
            vstd::array::spec_array_fill_for_copy_type(None)
        } else {
            vstd::array::spec_array_update(Board::squares_of(s, (n - 1) as nat), n - 1, s[n - 1])
        }
    }

    /// `squares_of` holds the first `n` entries of `s`.
    proof fn lemma_squares_of(s: Seq<Option<Piece>>, n: nat)
        requires
            n <= 64,
            s.len() == 64,
        ensures
            forall|i: int| 0 <= i < n ==> (#[trigger] Board::squares_of(s, n)@[i]) == s[i],
        decreases n,
    {
        if n > 0 {
            Board::lemma_squares_of(s, (n - 1) as nat);
            let before = Board::squares_of(s, (n - 1) as nat);
            let after = vstd::array::spec_array_update(before, n - 1, s[n - 1]);
            assert(before@.len() == 64);
            assert(after@ == before@.update(n - 1, s[n - 1]));
            assert(Board::squares_of(s, n) == after);
            assert forall|i: int| 0 <= i < n implies (#[trigger] after@[i]) == s[i] by {
                if i < n - 1 {
                    assert(before@[i] == s[i]);
                }
            }
        }
    }

    /// There is a board for every well-formed view: `of_view` yields it.
    pub proof fn lemma_of_view_exists(v: BoardView)
        requires
            v.wf(),
        ensures
            Board::of_view(v)@ == v,
    {
        let b = Board {
            squares: Board::squares_of(v.squares, 64),
            turn: v.turn,
            castling: v.castling,
            en_passant: v.en_passant,
            halfmove_clock: v.halfmove_clock as u32,
            fullmove_number: v.fullmove_number as u32,
        };
        Board::lemma_squares_of(v.squares, 64);
        assert(b@.squares =~= v.squares);
        assert(b@ == v);
    }

    /// What stands on the square `pos`.
    pub fn get_piece(&self, pos: Position) -> (r: Option<Piece>)
        ensures
            r == self@.at(pos.row(), pos.col()),
            pos.on_board(),
            self@.wf(),
    {
        let i = pos.to_index();
        self.squares[i]
    }

    /// What stands on the square `(row, col)`; nothing stands off the board.
    pub fn get_square(&self, row: i32, col: i32) -> (r: Option<Piece>)
        ensures
            r == self@.at(row as int, col as int),
            self@.wf(),
    {
        if 0 <= row && row < 8 && 0 <= col && col < 8 {
            self.squares[(row * 8 + col) as usize]
        } else {
            None
        }
    }

    /// The color of the side to move.
    pub fn get_turn_color(&self) -> (c: Color)
        ensures
            c == self@.turn,
    {
        self.turn
    }

    /// The castling rights of both sides.
    pub fn get_castling_rights(&self) -> (r: CastlingRights)
        ensures
            r == self@.castling,
    {
        self.castling
    }

    /// The en-passant target: the square that a pawn has just passed over.
    pub fn get_en_passant(&self) -> (r: Option<Position>)
        ensures
            r == self@.en_passant,
            r matches Some(p) ==> p.on_board(),
            self@.holdable(),
    {
        match self.en_passant {
            Some(p) => {
                let _ = p.get_row();
            },
            None => {},
        }
        self.en_passant
    }

    /// The number of moves since the last capture or pawn move.
    pub fn get_halfmove_clock(&self) -> (r: u32)
        ensures
            r == self@.halfmove_clock,
    {
        self.halfmove_clock
    }

    /// The number of the move, which grows after each move of Black.
    pub fn get_fullmove_number(&self) -> (r: u32)
        ensures
            r == self@.fullmove_number,
    {
        self.fullmove_number
    }

    /// The empty board: White to move, no castling rights, move one.
    pub fn empty() -> (b: Board)
        ensures
            b@ == BoardView::empty(),
    {
        let b = Board {
            squares: [None; 64],
            turn: Color::White,
            castling: CastlingRights {
                white_kingside: false,
                white_queenside: false,
                black_kingside: false,
                black_queenside: false,
            },
            en_passant: None,
            halfmove_clock: 0,
            fullmove_number: 1,
        };
        assert(b@.squares =~= BoardView::empty().squares);
        b
    }
}

/// What stands on square `(row, col)` when a game starts.
fn initial_piece(row: usize, col: usize) -> (r: Option<Piece>)
    ensures
        r == initial_square(row as int, col as int),
{
    let kind = if col == 0 || col == 7 {
        PieceKind::Rook
    } else if col == 1 || col == 6 {
        PieceKind::Knight
    } else if col == 2 || col == 5 {
        PieceKind::Bishop
    } else if col == 3 {
        PieceKind::Queen
    } else {
        PieceKind::King
    };
    if row == 0 {
        Some(Piece { kind, color: Color::White })
    } else if row == 1 {
        Some(Piece { kind: PieceKind::Pawn, color: Color::White })
    } else if row == 6 {
        Some(Piece { kind: PieceKind::Pawn, color: Color::Black })
    } else if row == 7 {
        Some(Piece { kind, color: Color::Black })
    } else {
        None
    }
}

impl Board {
    /// The position from which a game starts.
    pub fn initial() -> (b: Board)
        ensures
            b@ == BoardView::initial(),
    {
        let mut squares: [Option<Piece>; 64] = [None; 64];
        let mut i: usize = 0;
        while i < 64
            invariant
                0 <= i <= 64,
                forall|j: int| 0 <= j < i ==> #[trigger] squares@[j] == initial_square(j / 8, j % 8),
            decreases 64 - i,
        {
            squares[i] = initial_piece(i / 8, i % 8);
            i = i + 1;
        }
        let b = Board {
            squares,
            turn: Color::White,
            castling: CastlingRights {
                white_kingside: true,
                white_queenside: true,
                black_kingside: true,
                black_queenside: true,
            },
            en_passant: None,
            halfmove_clock: 0,
            fullmove_number: 1,
        };
        assert(b@.squares =~= BoardView::initial().squares);
        b
    }
}

impl Default for Board {
    /// The position from which a game starts.
    fn default() -> (b: Board)
        ensures
            b@ == BoardView::initial(),
    {
        Board::initial()
    }
}

impl BoardBuilder {
    /// A builder that starts from the empty board.
    pub fn new() -> (b: BoardBuilder)
        ensures
            b@ == BoardView::empty(),
    {
        BoardBuilder { board: Board::empty() }
    }

    /// A builder that starts from `board`.
    pub fn from_board(board: &Board) -> (b: BoardBuilder)
        ensures
            b@ == board@,
    {
        BoardBuilder { board: *board }
    }

    /// Puts `piece` on the square `pos`, in place of what stood there.
    pub fn piece(self, piece: Piece, pos: Position) -> (b: BoardBuilder)
        ensures
            pos.on_board(),
            b@ == self@.put(pos.row(), pos.col(), Some(piece)),
    {
        let mut board = self.board;
        let i = pos.to_index();
        board.squares[i] = Some(piece);
        BoardBuilder { board }
    }

    /// Puts `piece`, or nothing, on the square `(row, col)`.
    pub(crate) fn set_square(self, row: i32, col: i32, piece: Option<Piece>) -> (b: BoardBuilder)
        requires
            on_grid(row as int, col as int),
        ensures
            b@ == self@.put(row as int, col as int, piece),
            b@.wf(),
    {
        let mut board = self.board;
        board.squares[(row * 8 + col) as usize] = piece;
        BoardBuilder { board }
    }

    /// Empties the square `pos`.
    pub fn clear(self, pos: Position) -> (b: BoardBuilder)
        ensures
            pos.on_board(),
            b@ == self@.put(pos.row(), pos.col(), None),
    {
        let mut board = self.board;
        let i = pos.to_index();
        board.squares[i] = None;
        BoardBuilder { board }
    }

    /// Sets the side to move.
    pub fn turn(self, color: Color) -> (b: BoardBuilder)
        ensures
            b@ == (BoardView { turn: color, ..self@ }),
    {
        let mut board = self.board;
        board.turn = color;
        BoardBuilder { board }
    }

    /// Sets the castling rights of both sides.
    pub fn castling(self, rights: CastlingRights) -> (b: BoardBuilder)
        ensures
            b@ == (BoardView { castling: rights, ..self@ }),
    {
        let mut board = self.board;
        board.castling = rights;
        BoardBuilder { board }
    }

    /// Gives both sides every castling right.
    pub fn enable_castling(self) -> (b: BoardBuilder)
        ensures
            b@ == (BoardView { castling: CastlingRights::all(), ..self@ }),
    {
        self.castling(
            CastlingRights {
                white_kingside: true,
                white_queenside: true,
                black_kingside: true,
                black_queenside: true,
            },
        )
    }

    /// Takes every castling right from both sides.
    pub fn disable_castling(self) -> (b: BoardBuilder)
        ensures
            b@ == (BoardView { castling: CastlingRights::none(), ..self@ }),
    {
        self.castling(
            CastlingRights {
                white_kingside: false,
                white_queenside: false,
                black_kingside: false,
                black_queenside: false,
            },
        )
    }

    /// Sets the en-passant target.
    pub fn en_passant(self, target: Option<Position>) -> (b: BoardBuilder)
        ensures
            b@ == (BoardView { en_passant: target, ..self@ }),
    {
        let mut board = self.board;
        board.en_passant = target;
        BoardBuilder { board }
    }

    /// Sets the number of moves since the last capture or pawn move.
    pub fn halfmove_clock(self, n: u32) -> (b: BoardBuilder)
        ensures
            b@ == (BoardView { halfmove_clock: n as nat, ..self@ }),
    {
        let mut board = self.board;
        board.halfmove_clock = n;
        BoardBuilder { board }
    }

    /// Sets the number of the move.
    pub fn fullmove_number(self, n: u32) -> (b: BoardBuilder)
        ensures
            b@ == (BoardView { fullmove_number: n as nat, ..self@ }),
    {
        let mut board = self.board;
        board.fullmove_number = n;
        BoardBuilder { board }
    }

    /// What stands on the square `(row, col)` of the board in the making.
    pub fn get_square(&self, row: i32, col: i32) -> (r: Option<Piece>)
        ensures
            r == self@.at(row as int, col as int),
            self@.wf(),
    {
        self.board.get_square(row, col)
    }

    /// The board as it now stands.
    pub fn build(self) -> (b: Board)
        ensures
            b@ == self@,
    {
        self.board
    }
}

} // verus!
