//! Boards are levelled by the number of moves played, so that the cache of a
//! search never answers for a board that is still to be searched and pruning
//! does not change the score.
//!
//! The key of a board tells its level by the move number and the side to
//! move. This holds as long as the move number can grow. A board in its last
//! numbered move keeps its number from then on, and a board that is searched
//! further can then share its key with a board that was scored four moves
//! later: there the cache answers, and the laws of this module do not hold.

use crate::board::{Board, BoardView};
use crate::cache::no_entries;
use crate::color::Color;
use crate::fen::parse_fen;
use crate::fen_laws::lemma_fen_round_trip;
use crate::laws::lemma_legal_moves_exact;
use crate::moves::Move;
use crate::piece::{
    Piece, PieceKind, BISHOP_TABLE, KING_TABLE, KNIGHT_TABLE, PAWN_TABLE, QUEEN_TABLE, ROOK_TABLE,
};
use crate::position::{on_grid, Position};
use crate::search::{
    choice, default_weights, evaluation, root_search, search, Searchable, WINDOW_HIGH,
    WINDOW_LOW, WORST_FOR_MIN,
};
use crate::search_laws::{
    all_at, answered, evaluation_bounded, full_score, full_width, leaves_fit,
    lemma_full_width_bounded, lemma_levelled_never_answered, lemma_pruned_choice_is_full_width,
    lemma_pruned_search_is_full_width, lemma_root_scores_stand_alone, lemma_search_soft,
    lemma_search_sound, levelled, lone_score, lone_total, scores_fit, soft, within,
};
use vstd::prelude::*;

verus! {

/// The number of moves played before the board `v` was reached, as its move
/// number and the side to move tell it, counted from move zero of White.
pub open spec fn ply(v: BoardView) -> int {
    2 * v.fullmove_number + if v.turn == Color::Black {
        1int
    } else {
        0int
    }
}

/// The number of moves played before the board that the key `k` stands for,
/// and zero where `k` stands for no board.
pub open spec fn key_level(k: Seq<char>) -> int {
    match parse_fen(k) {
        Some(v) => ply(v),
        None => 0,
    }
}

/// The boards whose views a board can hold.
pub open spec fn admitted() -> spec_fn(Board) -> bool {
    |b: Board| b@.holdable()
}

/// The level of each key.
pub open spec fn levels() -> spec_fn(Seq<char>) -> int {
    |k: Seq<char>| key_level(k)
}

/// The last level that the counters of a board can tell from the levels
/// before it: Black to move in the last move that can be numbered. From there
/// on the move number stands still, and boards of different levels can share
/// a key.
pub open spec fn last_ply() -> int {
    2 * 0xFFFF_FFFFint + 1
}

/// A move that a side may make leads from a board that can be held to one
/// that can be held.
pub proof fn lemma_apply_holdable(v: BoardView, m: Move, color: Color)
    requires
        v.holdable(),
        v.pseudo_legal(m, color),
    ensures
        v.apply(m, color).holdable(),
{
    match m {
        Move::Piece(from, to) => {
            if on_grid(from.row() + color.forward(), from.col()) {
                Position::lemma_at(from.row() + color.forward(), from.col());
            }
        },
        Move::Promotion(from, to, piece) => {
            if on_grid(from.row() + color.forward(), from.col()) {
                Position::lemma_at(from.row() + color.forward(), from.col());
            }
        },
        _ => {},
    }
}

/// A move of the side to move leads one level deeper, as long as the move
/// number can still grow after a move of Black.
pub proof fn lemma_apply_ply(v: BoardView, m: Move)
    requires
        v.wf(),
        v.pseudo_legal(m, v.turn),
        v.turn == Color::Black ==> v.fullmove_number < 0xFFFF_FFFF,
    ensures
        ply(v.apply(m, v.turn)) == ply(v) + 1,
{
}

/// The key of a board tells its level.
pub proof fn lemma_key_level(v: BoardView)
    requires
        v.holdable(),
    ensures
        key_level(v.fen_text()) == ply(v),
{
    lemma_fen_round_trip(v);
}

/// Boards are levelled by the number of moves played, up to the last level
/// that their counters can tell.
pub proof fn lemma_boards_levelled(limit: int)
    requires
        limit <= last_ply(),
    ensures
        levelled::<Board>(admitted(), levels(), limit),
{
    let ok = admitted();
    let deep = levels();
    assert forall|p: Board, m: Move|
        #![trigger p.child(m)]
        ok(p) && deep(p.key()) < limit && p.moves().contains(m) implies ok(p.child(m)) && deep(
        p.child(m).key(),
    ) == deep(p.key()) + 1 by {
        let v = p@;
        lemma_key_level(v);
        lemma_legal_moves_exact(v, v.turn, m);
        let next = v.apply(m, v.turn);
        lemma_apply_holdable(v, m, v.turn);
        lemma_apply_ply(v, m);
        Board::lemma_of_view_exists(next);
        lemma_key_level(next);
    }
}

/// In a search of a board with an empty cache, the cache answers for no
/// board that is searched further, as long as the counters of the board can
/// tell the levels of the search apart.
pub proof fn lemma_board_never_answered(
    b: Board,
    depth: nat,
    alpha: int,
    beta: int,
    maximizing: bool,
    color: Color,
    w: Seq<i32>,
)
    requires
        b@.holdable(),
        ply(b@) + depth <= last_ply(),
    ensures
        !answered(b, depth, alpha, beta, maximizing, color, w, no_entries()),
{
    let limit = ply(b@) + depth;
    lemma_boards_levelled(limit);
    lemma_key_level(b@);
    assert(all_at(no_entries(), levels(), limit));
    lemma_levelled_never_answered(
        b,
        depth,
        alpha,
        beta,
        maximizing,
        color,
        w,
        no_entries(),
        admitted(),
        levels(),
        limit,
    );
}

/// Pruning does not change the score of a board: a search of a board with
/// the starting window and an empty cache returns the score of the unpruned
/// full-width search to the same depth, where the score of every board that
/// is scored lies inside the window, no further out than the score of a board
/// without moves.
pub proof fn lemma_minimax_is_full_width(
    b: Board,
    depth: nat,
    maximizing: bool,
    color: Color,
    w: Seq<i32>,
)
    requires
        b@.holdable(),
        ply(b@) + depth <= last_ply(),
        leaves_fit(b, depth, color, w, WORST_FOR_MIN as int),
    ensures
        search(
            b,
            depth,
            WINDOW_LOW as int,
            WINDOW_HIGH as int,
            maximizing,
            color,
            w,
            no_entries(),
        ).value == full_width(b, depth, maximizing, color, w),
{
    lemma_board_never_answered(
        b,
        depth,
        WINDOW_LOW as int,
        WINDOW_HIGH as int,
        maximizing,
        color,
        w,
    );
    lemma_pruned_search_is_full_width(b, depth, maximizing, color, w, no_entries());
}

/// The score that a search with an empty cache gives to a board is a
/// fail-soft bound on the full-width score: the full-width score itself
/// inside the window, not below it at or below the window, and not above it
/// at or above the window.
pub proof fn lemma_pruning_is_fail_soft(
    b: Board,
    depth: nat,
    alpha: int,
    beta: int,
    maximizing: bool,
    color: Color,
    w: Seq<i32>,
)
    requires
        b@.holdable(),
        ply(b@) + depth <= last_ply(),
        alpha < beta,
    ensures
        soft(
            search(b, depth, alpha, beta, maximizing, color, w, no_entries()).value,
            full_width(b, depth, maximizing, color, w),
            alpha,
            beta,
        ),
{
    lemma_board_never_answered(b, depth, alpha, beta, maximizing, color, w);
    lemma_search_soft(b, depth, alpha, beta, maximizing, color, w, no_entries());
}

/// Pruning does not change the score of a board: the score that a search
/// with an empty cache gives to a board tells as much of the full-width
/// score as the window allows. It is the full-width score where that lies
/// inside the window.
pub proof fn lemma_pruning_keeps_score(
    b: Board,
    depth: nat,
    alpha: int,
    beta: int,
    maximizing: bool,
    color: Color,
    w: Seq<i32>,
)
    requires
        b@.holdable(),
        ply(b@) + depth <= last_ply(),
        alpha < beta,
    ensures
        within(
            search(b, depth, alpha, beta, maximizing, color, w, no_entries()).value,
            full_width(b, depth, maximizing, color, w),
            alpha,
            beta,
        ),
{
    lemma_board_never_answered(b, depth, alpha, beta, maximizing, color, w);
    lemma_search_sound(b, depth, alpha, beta, maximizing, color, w, no_entries());
}

/// Whether `m` with the score `score` is a best move of `b` by the unpruned
/// full-width search `depth` levels beyond each legal move: `m` is a legal
/// move with that full-width score, and no legal move has a higher one.
pub open spec fn best_full_width(b: Board, depth: nat, w: Seq<i32>, m: Move, score: int) -> bool {
    &&& forall|j: int| 0 <= j < b.moves().len() ==> #[trigger] full_score(b, depth, w, j) <= score
    &&& exists|k: int|
        0 <= k < b.moves().len() && m == b.moves()[k] && score == #[trigger] full_score(
            b,
            depth,
            w,
            k,
        )
}

/// Pruning does not change the score of the best move of a board: where the
/// full-width scores of the legal moves lie inside the starting window, the
/// score that the search returns is the full-width score of the move it
/// returns, and no legal move has a higher full-width score.
pub proof fn lemma_pruning_keeps_best_score(b: Board, depth: nat, w: Seq<i32>, j: int)
    requires
        b@.holdable(),
        ply(b@) + 1 + depth <= last_ply(),
        scores_fit(b, depth, w),
        0 <= j < b.moves().len(),
    ensures
        full_score(b, depth, w, j) <= choice(b, depth, w).2,
        exists|k: int|
            0 <= k < b.moves().len() && choice(b, depth, w).0 == b.moves()[k] && choice(
                b,
                depth,
                w,
            ).2 == #[trigger] full_score(b, depth, w, k),
{
    let limit = ply(b@) + 1 + depth;
    lemma_boards_levelled(limit);
    lemma_key_level(b@);
    lemma_pruned_choice_is_full_width(b, depth, w, j, admitted(), levels(), limit);
}

/// The piece-square score of a board lies within 950 centipawns for each
/// square counted.
pub proof fn lemma_material_bounded(v: BoardView, color: Color, n: int)
    requires
        v.wf(),
        0 <= n <= 64,
    ensures
        -950 * n <= v.placed_sum(color, n) <= 950 * n,
    decreases n,
{
    if n > 0 {
        lemma_material_bounded(v, color, n - 1);
        match v.squares[n - 1] {
            Some(p) => {
                lemma_placed_value_bounded(p, (n - 1) / 8, (n - 1) % 8);
            },
            None => {},
        }
    }
}

/// The worth of a piece on a square of the board lies between -50 and 950
/// centipawns.
pub proof fn lemma_placed_value_bounded(p: Piece, row: int, col: int)
    requires
        on_grid(row, col),
    ensures
        -50 <= p.placed_value(row, col) <= 950,
{
    let i = p.table_index(row, col);
    assert(0 <= i < 64);
    let table = p.kind.table();
    assert(table.len() == 64);
    assert(-50 <= table[i] <= 50) by {
        match p.kind {
            PieceKind::Pawn => {
                assert(forall|k: int| 0 <= k < 64 ==> -50 <= #[trigger] PAWN_TABLE@[k] <= 50);
            },
            PieceKind::Knight => {
                assert(forall|k: int| 0 <= k < 64 ==> -50 <= #[trigger] KNIGHT_TABLE@[k] <= 50);
            },
            PieceKind::Bishop => {
                assert(forall|k: int| 0 <= k < 64 ==> -50 <= #[trigger] BISHOP_TABLE@[k] <= 50);
            },
            PieceKind::Rook => {
                assert(forall|k: int| 0 <= k < 64 ==> -50 <= #[trigger] ROOK_TABLE@[k] <= 50);
            },
            PieceKind::Queen => {
                assert(forall|k: int| 0 <= k < 64 ==> -50 <= #[trigger] QUEEN_TABLE@[k] <= 50);
            },
            PieceKind::King => {
                assert(forall|k: int| 0 <= k < 64 ==> -50 <= #[trigger] KING_TABLE@[k] <= 50);
            },
        }
    }
}

/// With the weights that are used when none are given, pruning never
/// changes the score of the best move of a board: the score that the search
/// returns is the full-width score of the move it returns, and no legal move
/// has a higher full-width score.
pub proof fn lemma_default_search_is_full_width(b: Board, depth: nat, j: int)
    requires
        b@.holdable(),
        ply(b@) + 1 + depth <= last_ply(),
        0 <= j < b.moves().len(),
    ensures
        full_score(b, depth, default_weights(), j) <= choice(b, depth, default_weights()).2,
        exists|k: int|
            0 <= k < b.moves().len() && choice(b, depth, default_weights()).0 == b.moves()[k]
                && choice(b, depth, default_weights()).2 == #[trigger] full_score(
                b,
                depth,
                default_weights(),
                k,
            ),
{
    let w = default_weights();
    let color = b.mover();
    assert(evaluation_bounded::<Board>(color, w, WORST_FOR_MIN as int)) by {
        assert forall|p: Board| -WORST_FOR_MIN <= #[trigger] evaluation(p, color, w)
            <= WORST_FOR_MIN by {
            p.lemma_view_wf();
            lemma_material_bounded(p@, color, 64);
        }
    }
    assert(scores_fit(b, depth, w)) by {
        assert forall|i: int| 0 <= i < b.moves().len() implies WINDOW_LOW < #[trigger] full_score(
            b,
            depth,
            w,
            i,
        ) < WINDOW_HIGH by {
            lemma_full_width_bounded(
                b.child(b.moves()[i]),
                depth,
                false,
                color,
                w,
                WORST_FOR_MIN as int,
            );
        }
    }
    lemma_pruning_keeps_best_score(b, depth, w, j);
}

/// The order in which the legal moves of a board are searched does not
/// matter: the score that the search gives to each move is the score that a
/// search of that move alone, with an empty cache, would give it, and the
/// number of positions scored is the sum of what those searches would score.
pub proof fn lemma_move_scores_stand_alone(b: Board, depth: nat, w: Seq<i32>, j: int)
    requires
        b@.holdable(),
        ply(b@) + 1 + depth <= last_ply(),
        0 <= j < b.moves().len(),
    ensures
        root_search(b, depth, w, b.moves().len()).values[j] == lone_score(b, depth, w, j),
        root_search(b, depth, w, b.moves().len()).leaves == lone_total(
            b,
            depth,
            w,
            b.moves().len(),
        ),
{
    let limit = ply(b@) + 1 + depth;
    lemma_boards_levelled(limit);
    lemma_key_level(b@);
    lemma_root_scores_stand_alone(b, depth, w, b.moves().len(), j, admitted(), levels(), limit);
}

} // verus!
