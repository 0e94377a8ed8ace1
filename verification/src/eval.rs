//! The six ways in which a board scores itself, and the board as a position
//! that can be searched.

use crate::board::{Board, BoardView};
use crate::color::Color;
use crate::laws::{lemma_legal_moves_bounded, lemma_legal_moves_exact};
use crate::moves::Move;
use crate::piece::{magnitude, Piece, PieceKind};
use crate::position::Position;
use crate::rules::larger;
use crate::cache::{cache_entries, no_entries};
use crate::levels::{
    best_full_width, last_ply, lemma_board_never_answered, lemma_minimax_is_full_width,
    lemma_pruning_keeps_best_score, ply,
};
use crate::search::{
    alpha_beta, pick_move, weights_of, weights_or_default, Evaluate, Searchable, WINDOW_HIGH,
    WINDOW_LOW, WORST_FOR_MIN,
};
use crate::search_laws::{full_score, full_width, leaves_fit, scores_fit, soft};
use dashmap::DashMap;
use vstd::prelude::*;

verus! {

/// `amount` for a piece of `color`, and its opposite for a piece of the other
/// color.
pub open spec fn signed(color: Color, p: Piece, amount: int) -> int {
    if p.color == color {
        amount
    } else {
        -amount
    }
}

/// The number of king's moves between two squares.
pub open spec fn distance(ar: int, ac: int, br: int, bc: int) -> int {
    larger(magnitude(ar - br), magnitude(ac - bc))
}

/// The score for a nearest distance of `d` king's moves: the closer, the
/// higher, and nothing where there is no such distance.
pub open spec fn closeness(d: int) -> int {
    if 1 <= d <= 7 {
        420int / d
    } else {
        0
    }
}

impl BoardView {
    /// The worth in centipawns, each on its square, of the pieces of `color`
    /// on the first `n` squares, less that of the pieces of the other color.
    pub open spec fn placed_sum(self, color: Color, n: int) -> int
        decreases n,
    {
        if n <= 0 {
            0
        } else {
            self.placed_sum(color, n - 1) + match self.squares[n - 1] {
                Some(p) => signed(color, p, p.placed_value((n - 1) / 8, (n - 1) % 8)),
                None => 0,
            }
        }
    }

    /// The value in pawns of the pieces of `color` on the first `n` squares,
    /// less that of the pieces of the other color.
    pub open spec fn points_sum(self, color: Color, n: int) -> int
        decreases n,
    {
        if n <= 0 {
            0
        } else {
            self.points_sum(color, n - 1) + match self.squares[n - 1] {
                Some(p) => signed(color, p, p.kind.points()),
                None => 0,
            }
        }
    }

    /// The value in pawns of all the pieces on the first `n` squares.
    pub open spec fn points_total(self, n: int) -> int
        decreases n,
    {
        if n <= 0 {
            0
        } else {
            self.points_total(n - 1) + match self.squares[n - 1] {
                Some(p) => p.kind.points(),
                None => 0,
            }
        }
    }

    /// How many of the first `n` squares `color` attacks.
    pub open spec fn controlled(self, color: Color, n: int) -> int
        decreases n,
    {
        if n <= 0 {
            0
        } else {
            self.controlled(color, n - 1) + if self.attacked((n - 1) / 8, (n - 1) % 8, color) {
                1int
            } else {
                0int
            }
        }
    }

    /// The distance from `(row, col)` to the nearest piece of `color` on the
    /// first `n` squares, or 8 where there is none.
    pub open spec fn nearest(self, color: Color, row: int, col: int, n: int) -> int
        decreases n,
    {
        if n <= 0 {
            8
        } else {
            let before = self.nearest(color, row, col, n - 1);
            let d = distance((n - 1) / 8, (n - 1) % 8, row, col);
            if self.holds((n - 1) / 8, (n - 1) % 8, color) && d < before {
                d
            } else {
                before
            }
        }
    }

    /// The least distance between a piece of `color` and a king of the other
    /// color that stands on one of the first `n` squares, or 8 where there is
    /// none.
    pub open spec fn pressure(self, color: Color, n: int) -> int
        decreases n,
    {
        if n <= 0 {
            8
        } else {
            let before = self.pressure(color, n - 1);
            let d = self.nearest(color, (n - 1) / 8, (n - 1) % 8, 64);
            if self.squares[n - 1] == Some(Piece { kind: PieceKind::King, color: color.other() })
                && d < before {
                d
            } else {
                before
            }
        }
    }
}

impl Board {
    /// The distance from `(row, col)` to the nearest piece of `color`, or 8
    /// where there is none.
    fn nearest_piece(&self, color: Color, row: i32, col: i32) -> (d: i32)
        requires
            0 <= row < 8,
            0 <= col < 8,
        ensures
            d == self@.nearest(color, row as int, col as int, 64),
            0 <= d <= 8,
    {
        let mut best: i32 = 8;
        let mut i: i32 = 0;
        while i < 64
            invariant
                0 <= i <= 64,
                0 <= row < 8,
                0 <= col < 8,
                0 <= best <= 8,
                best == self@.nearest(color, row as int, col as int, i as int),
            decreases 64 - i,
        {
            let r = i / 8;
            let c = i % 8;
            let dr = if r >= row {
                r - row
            } else {
                row - r
            };
            let dc = if c >= col {
                c - col
            } else {
                col - c
            };
            let d = if dr >= dc {
                dr
            } else {
                dc
            };
            if self.holds_color(r, c, color) && d < best {
                best = d;
            }
            i = i + 1;
        }
        best
    }

    /// The least distance between a piece of `color` and a king of the other
    /// color, or 8 where there is none.
    fn king_pressure(&self, color: Color) -> (d: i32)
        ensures
            d == self@.pressure(color, 64),
            0 <= d <= 8,
    {
        let king = Some(Piece { kind: PieceKind::King, color: color.invert() });
        let mut best: i32 = 8;
        let mut i: i32 = 0;
        while i < 64
            invariant
                0 <= i <= 64,
                0 <= best <= 8,
                king == Some(Piece { kind: PieceKind::King, color: color.other() }),
                best == self@.pressure(color, i as int),
            decreases 64 - i,
        {
            if self.get_square(i / 8, i % 8) == king {
                let d = self.nearest_piece(color, i / 8, i % 8);
                if d < best {
                    best = d;
                }
            }
            i = i + 1;
        }
        best
    }
}

impl Searchable for Board {
    open spec fn mover(&self) -> Color {
        self@.turn
    }

    open spec fn moves(&self) -> Seq<Move> {
        self@.legal_moves(self@.turn)
    }

    open spec fn moves_of(&self, color: Color) -> Seq<Move> {
        self@.legal_moves(color)
    }

    open spec fn child(&self, m: Move) -> Board {
        Board::of_view(self@.apply(m, self@.turn))
    }

    open spec fn key(&self) -> Seq<char> {
        self@.fen_text()
    }

    open spec fn material_score(&self, color: Color) -> int {
        self@.placed_sum(color, 64)
    }

    open spec fn mobility_score(&self, color: Color) -> int {
        self@.legal_moves(color).len() as int
    }

    open spec fn naive_score(&self, color: Color) -> int {
        self@.points_sum(color, 64)
    }

    open spec fn control_score(&self, color: Color) -> int {
        self@.controlled(color, 64)
    }

    open spec fn closest_score(&self, color: Color) -> int {
        closeness(self@.pressure(color, 64))
    }

    open spec fn trade_score(&self, color: Color) -> int {
        -self@.points_total(64)
    }

    /// The worth in centipawns of the pieces of `color`, each on its square
    /// by the piece-square tables, less that of the pieces of the other
    /// color.
    fn value_for(&self, color: Color) -> (r: i64) {
        let mut total: i64 = 0;
        let mut i: i32 = 0;
        while i < 64
            invariant
                0 <= i <= 64,
                -950 * i <= total <= 950 * i,
                total == self@.placed_sum(color, i as int),
            decreases 64 - i,
        {
            let at = Position::from_index(i as usize).unwrap();
            match self.get_piece(at) {
                Some(p) => {
                    let worth = p.get_weighted_value(at) as i64;
                    if p.color == color {
                        total = total + worth;
                    } else {
                        total = total - worth;
                    }
                },
                None => {},
            }
            i = i + 1;
        }
        total
    }

    /// The number of legal moves open to `color`.
    fn mobility_value_for(&self, color: Color) -> (r: i64) {
        proof {
            lemma_legal_moves_bounded(self@, color);
        }
        Board::get_legal_moves_for(self, color).len() as i64
    }

    /// The value in pawns of the pieces of `color`, less that of the pieces
    /// of the other color: 1 for a pawn, 3 for a knight or a bishop, 5 for a
    /// rook, 9 for a queen.
    fn naive_value_for(&self, color: Color) -> (r: i64) {
        let mut total: i64 = 0;
        let mut i: i32 = 0;
        while i < 64
            invariant
                0 <= i <= 64,
                -9 * i <= total <= 9 * i,
                total == self@.points_sum(color, i as int),
            decreases 64 - i,
        {
            match self.get_square(i / 8, i % 8) {
                Some(p) => {
                    let worth = p.get_material_value() as i64;
                    if p.color == color {
                        total = total + worth;
                    } else {
                        total = total - worth;
                    }
                },
                None => {},
            }
            i = i + 1;
        }
        total
    }

    /// The number of squares that `color` attacks.
    fn control_value_for(&self, color: Color) -> (r: i64) {
        let mut total: i64 = 0;
        let mut i: i32 = 0;
        while i < 64
            invariant
                0 <= i <= 64,
                0 <= total <= i,
                total == self@.controlled(color, i as int),
            decreases 64 - i,
        {
            if self.is_attacked(i / 8, i % 8, color) {
                total = total + 1;
            }
            i = i + 1;
        }
        total
    }

    /// The pressure of `color` on the other side's king: 420 divided by the
    /// number of king's moves between that king and the nearest piece of
    /// `color`, and nothing where either is missing.
    fn closest_value_for(&self, color: Color) -> (r: i64) {
        let d = self.king_pressure(color);
        if 1 <= d && d <= 7 {
            (420 / d) as i64
        } else {
            0
        }
    }

    /// The opposite of the value in pawns of all the pieces on the board: the
    /// less material is left, the higher.
    fn trade_value_for(&self, color: Color) -> (r: i64) {
        let mut total: i64 = 0;
        let mut i: i32 = 0;
        while i < 64
            invariant
                0 <= i <= 64,
                0 <= total <= 9 * i,
                total == self@.points_total(i as int),
            decreases 64 - i,
        {
            match self.get_square(i / 8, i % 8) {
                Some(p) => {
                    total = total + p.get_material_value() as i64;
                },
                None => {},
            }
            i = i + 1;
        }
        -total
    }

    fn get_current_player_color(&self) -> (c: Color) {
        self.get_turn_color()
    }

    fn get_legal_moves(&self) -> (r: Vec<Move>) {
        Board::get_legal_moves(self)
    }

    fn get_legal_moves_for(&self, color: Color) -> (r: Vec<Move>) {
        Board::get_legal_moves_for(self, color)
    }

    /// The board after the side to move made `m`, with the turn passed on.
    fn apply_eval_move(&self, m: Move) -> (r: Board) {
        proof {
            lemma_legal_moves_exact(self@, self@.turn, m);
        }
        let r = self.apply_move(m, self.get_turn_color());
        proof {
            r.lemma_of_view();
        }
        r
    }

    /// The position in Forsyth-Edwards Notation.
    fn cache_repr(&self) -> (r: String) {
        self.fen()
    }
}

impl Evaluate for Board {
    /// The best move for the side to move, found by looking `depth` moves
    /// beyond each of its legal moves.
    ///
    /// Pruning does not change the outcome: where the full-width scores of
    /// the legal moves lie inside the starting window, the score returned is
    /// the full-width score of the move returned, and no legal move has a
    /// higher one. This holds as long as the counters of the board can tell
    /// the levels of the search apart.
    fn get_best_next_move(&self, depth: i32, engine: Option<[i32; 6]>) -> (r: (Move, u64, i64))
        ensures
            ply(self@) + 1 + depth <= last_ply() && scores_fit(
                *self,
                depth as nat,
                weights_of(engine),
            ) ==> best_full_width(*self, depth as nat, weights_of(engine), r.0, r.2 as int),
    {
        let _ = self.get_en_passant();
        let r = pick_move(self, depth, engine);
        proof {
            let w = weights_of(engine);
            if ply(self@) + 1 + depth <= last_ply() && scores_fit(*self, depth as nat, w) {
                assert forall|j: int| 0 <= j < self.moves().len() implies #[trigger] full_score(
                    *self,
                    depth as nat,
                    w,
                    j,
                ) <= r.2 by {
                    lemma_pruning_keeps_best_score(*self, depth as nat, w, j);
                }
                lemma_pruning_keeps_best_score(*self, depth as nat, w, 0);
            }
        }
        r
    }

    /// The move that `get_best_next_move` returns. Despite its name this
    /// function does not look for the lowest score: both functions go by the
    /// highest.
    fn get_worst_next_move(&self, depth: i32, engine: Option<[i32; 6]>) -> (r: (Move, u64, i64))
        ensures
            ply(self@) + 1 + depth <= last_ply() && scores_fit(
                *self,
                depth as nat,
                weights_of(engine),
            ) ==> best_full_width(*self, depth as nat, weights_of(engine), r.0, r.2 as int),
    {
        Evaluate::get_best_next_move(self, depth, engine)
    }

    /// The score of the board for `getting_move_for`, by a search to the
    /// given depth inside the window from `alpha` to `beta`.
    ///
    /// Pruning does not change the score: started with an empty cache, the
    /// search returns the score of the unpruned full-width search if that
    /// lies inside the window, and a bound on it from the same side of the
    /// window if not. This holds as long as the counters of the board can
    /// tell the levels of the search apart.
    fn minimax(
        &self,
        depth: i32,
        alpha: i64,
        beta: i64,
        is_maximizing: bool,
        getting_move_for: Color,
        board_count: &mut u64,
        engine: Option<[i32; 6]>,
        cache: &mut DashMap<String, i64>,
    ) -> (r: i64)
        ensures
            cache_entries(*old(cache)) == no_entries() && ply(self@) + depth <= last_ply()
                && alpha < beta ==> soft(
                r as int,
                full_width(
                    *self,
                    depth as nat,
                    is_maximizing,
                    getting_move_for,
                    weights_of(engine),
                ),
                alpha as int,
                beta as int,
            ),
            cache_entries(*old(cache)) == no_entries() && ply(self@) + depth <= last_ply()
                && alpha == WINDOW_LOW && beta == WINDOW_HIGH && leaves_fit(
                *self,
                depth as nat,
                getting_move_for,
                weights_of(engine),
                WORST_FOR_MIN as int,
            ) ==> r == full_width(
                *self,
                depth as nat,
                is_maximizing,
                getting_move_for,
                weights_of(engine),
            ),
    {
        let _ = self.get_en_passant();
        let weights = weights_or_default(engine);
        proof {
            let w = weights@;
            let d = depth as nat;
            if cache_entries(*cache) == no_entries() && ply(self@) + depth <= last_ply() {
                lemma_board_never_answered(
                    *self,
                    d,
                    alpha as int,
                    beta as int,
                    is_maximizing,
                    getting_move_for,
                    w,
                );
                if alpha == WINDOW_LOW && beta == WINDOW_HIGH && leaves_fit(
                    *self,
                    d,
                    getting_move_for,
                    w,
                    WORST_FOR_MIN as int,
                ) {
                    lemma_minimax_is_full_width(*self, d, is_maximizing, getting_move_for, w);
                }
            }
        }
        alpha_beta(
            self,
            depth,
            alpha,
            beta,
            is_maximizing,
            getting_move_for,
            board_count,
            &weights,
            cache,
        )
    }
}

} // verus!
