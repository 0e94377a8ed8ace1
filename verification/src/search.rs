//! Looking ahead: a depth-limited minimax search with alpha-beta pruning
//! over any position that can list its moves and score itself.

use crate::cache::{cache_contains, cache_entries, cache_get, cache_insert, cache_new, no_entries};
use crate::color::Color;
use crate::moves::Move;
use crate::search_laws::{full_width, lemma_search_soft, soft, unanswered_in_window};
use dashmap::DashMap;
use vstd::prelude::*;

verus! {

/// No heuristic reports a score beyond this bound, in either direction.
pub const SCORE_LIMIT: i64 = 10_000_000;

/// The lower end of the window with which the search of a move starts.
pub const WINDOW_LOW: i64 = -1_000_000;

/// The upper end of the window with which the search of a move starts.
pub const WINDOW_HIGH: i64 = 1_000_000;

/// The score of a position in which the side that maximizes has no move.
pub const WORST_FOR_MAX: i64 = -999_999;

/// The score of a position in which the side that minimizes has no move.
pub const WORST_FOR_MIN: i64 = 999_999;

/// The weights that are used when none are given: the piece-square value
/// alone.
pub open spec fn default_weights() -> Seq<i32> {
    seq![1i32, 0i32, 0i32, 0i32, 0i32, 0i32]
}

/// The weights that `engine` stands for.
pub open spec fn weights_of(engine: Option<[i32; 6]>) -> Seq<i32> {
    match engine {
        Some(w) => w@,
        None => default_weights(),
    }
}

/// A position of a two-player game that knows its legal moves, the position
/// each of them leads to, and how to score itself in six ways.
pub trait Searchable: Sized {
    /// The color of the side to move.
    spec fn mover(&self) -> Color;

    /// The legal moves of the side to move, in the order in which they are
    /// searched.
    spec fn moves(&self) -> Seq<Move>;

    /// The legal moves of `color`.
    spec fn moves_of(&self, color: Color) -> Seq<Move>;

    /// The position after the side to move made the move `m`.
    spec fn child(&self, m: Move) -> Self;

    /// The text under which the position is cached.
    spec fn key(&self) -> Seq<char>;

    /// The worth of the pieces of `color` on their squares, less that of the
    /// other side.
    spec fn material_score(&self, color: Color) -> int;

    /// The number of legal moves open to `color`.
    spec fn mobility_score(&self, color: Color) -> int;

    /// The material of `color` in pawns, less that of the other side.
    spec fn naive_score(&self, color: Color) -> int;

    /// The number of squares that `color` attacks.
    spec fn control_score(&self, color: Color) -> int;

    /// How close the nearest piece of `color` stands to the other side's
    /// king.
    spec fn closest_score(&self, color: Color) -> int;

    /// How little material is left on the board.
    spec fn trade_score(&self, color: Color) -> int;

    /// The value of the board by piece-square tables.
    fn value_for(&self, color: Color) -> (r: i64)
        ensures
            r == self.material_score(color),
            -SCORE_LIMIT <= r <= SCORE_LIMIT,
    ;

    /// The value of the board by the mobility of the pieces.
    fn mobility_value_for(&self, color: Color) -> (r: i64)
        ensures
            r == self.mobility_score(color),
            -SCORE_LIMIT <= r <= SCORE_LIMIT,
    ;

    /// The value of the board by the plain count of material.
    fn naive_value_for(&self, color: Color) -> (r: i64)
        ensures
            r == self.naive_score(color),
            -SCORE_LIMIT <= r <= SCORE_LIMIT,
    ;

    /// The value of the board by the number of squares a side controls.
    fn control_value_for(&self, color: Color) -> (r: i64)
        ensures
            r == self.control_score(color),
            -SCORE_LIMIT <= r <= SCORE_LIMIT,
    ;

    /// The value of the board by the distance of the nearest enemy from the
    /// king.
    fn closest_value_for(&self, color: Color) -> (r: i64)
        ensures
            r == self.closest_score(color),
            -SCORE_LIMIT <= r <= SCORE_LIMIT,
    ;

    /// The value of the board by how little material is left on it.
    fn trade_value_for(&self, color: Color) -> (r: i64)
        ensures
            r == self.trade_score(color),
            -SCORE_LIMIT <= r <= SCORE_LIMIT,
    ;

    /// The color of the side to move.
    fn get_current_player_color(&self) -> (c: Color)
        ensures
            c == self.mover(),
    ;

    /// The legal moves of the side to move.
    fn get_legal_moves(&self) -> (r: Vec<Move>)
        ensures
            r@ == self.moves(),
    ;

    /// The legal moves of `color`.
    fn get_legal_moves_for(&self, color: Color) -> (r: Vec<Move>)
        ensures
            r@ == self.moves_of(color),
    ;

    /// The position after the side to move made `m`, one of its legal moves.
    fn apply_eval_move(&self, m: Move) -> (r: Self)
        requires
            self.moves().contains(m),
        ensures
            r == self.child(m),
    ;

    /// A short text that tells the position from every other.
    fn cache_repr(&self) -> (r: String)
        ensures
            r@ == self.key(),
    ;
}

/// What a search came to: the score of the position, the cache as the search
/// left it, and the number of positions that were scored.
pub struct SearchResult {
    pub value: int,
    pub cache: Map<Seq<char>, i64>,
    pub leaves: nat,
}

/// The larger of two scores.
pub open spec fn higher(a: int, b: int) -> int {
    if b > a {
        b
    } else {
        a
    }
}

/// The smaller of two scores.
pub open spec fn lower(a: int, b: int) -> int {
    if b < a {
        b
    } else {
        a
    }
}

/// The share of one heuristic in a score: its value times its weight, and
/// nothing where the weight is zero.
pub open spec fn weighted(value: int, weight: int) -> int {
    if weight != 0 {
        value * weight
    } else {
        0
    }
}

/// The score of the position `t` for `color` under the weights `w`: the
/// weighted sum of the six heuristics.
pub open spec fn evaluation<T: Searchable>(t: T, color: Color, w: Seq<i32>) -> int {
    weighted(t.material_score(color), w[0] as int) + weighted(
        t.mobility_score(color),
        w[1] as int,
    ) + weighted(t.naive_score(color), w[2] as int) + weighted(
        t.control_score(color),
        w[3] as int,
    ) + weighted(t.closest_score(color), w[4] as int) + weighted(
        t.trade_score(color),
        w[5] as int,
    )
}

/// The result `r`, with `done` more positions counted as scored.
pub open spec fn tally(done: int, r: SearchResult) -> SearchResult {
    SearchResult { value: r.value, cache: r.cache, leaves: (done + r.leaves) as nat }
}

/// The count `n`, cut off at the largest count that a search reports.
pub open spec fn saturate(n: int) -> int {
    if n > u64::MAX {
        u64::MAX as int
    } else {
        n
    }
}

/// The result of searching the position `t` to the given depth inside the
/// window from `alpha` to `beta`, for the player `color`, starting with the
/// given cache.
///
/// At depth zero the position is scored for `color`, the score is stored in
/// the cache under the key of the position, and one position counts as
/// scored. Otherwise the moves of `t` are gone through as `scan` says.
pub open spec fn search<T: Searchable>(
    t: T,
    depth: nat,
    alpha: int,
    beta: int,
    maximizing: bool,
    color: Color,
    w: Seq<i32>,
    cache: Map<Seq<char>, i64>,
) -> SearchResult
    decreases depth, 1nat, 0nat,
{
    if depth == 0 {
        let e = evaluation(t, color, w);
        SearchResult { value: e, cache: cache.insert(t.key(), e as i64), leaves: 1 }
    } else {
        scan(
            t,
            depth,
            0,
            alpha,
            beta,
            maximizing,
            color,
            w,
            if maximizing {
                WORST_FOR_MAX as int
            } else {
                WORST_FOR_MIN as int
            },
            cache,
        )
    }
}

/// The result of going through the moves of `t` from the `i`-th on, with
/// `best` the best score met so far.
///
/// Each move is scored by the cache where it holds the key of `t`, and by a
/// search of the position the move leads to, one level less deep and with the
/// roles exchanged, where it does not. The best score is the highest met if
/// `maximizing` and the lowest if not, and it narrows the window from its own
/// side. The scan ends with the moves, or as soon as the window is empty.
pub open spec fn scan<T: Searchable>(
    t: T,
    depth: nat,
    i: nat,
    alpha: int,
    beta: int,
    maximizing: bool,
    color: Color,
    w: Seq<i32>,
    best: int,
    cache: Map<Seq<char>, i64>,
) -> SearchResult
    decreases depth, 0nat, t.moves().len() - i,
{
    if depth == 0 || i >= t.moves().len() {
        SearchResult { value: best, cache, leaves: 0 }
    } else {
        let sub = if cache.contains_key(t.key()) {
            SearchResult { value: cache[t.key()] as int, cache, leaves: 0 }
        } else {
            search(
                t.child(t.moves()[i as int]),
                (depth - 1) as nat,
                alpha,
                beta,
                !maximizing,
                color,
                w,
                cache,
            )
        };
        let best1 = if maximizing {
            higher(best, sub.value)
        } else {
            lower(best, sub.value)
        };
        let alpha1 = if maximizing {
            higher(alpha, best1)
        } else {
            alpha
        };
        let beta1 = if maximizing {
            beta
        } else {
            lower(beta, best1)
        };
        if beta1 <= alpha1 {
            SearchResult { value: best1, cache: sub.cache, leaves: sub.leaves }
        } else {
            let rest = scan(t, depth, i + 1, alpha1, beta1, maximizing, color, w, best1, sub.cache);
            SearchResult { value: rest.value, cache: rest.cache, leaves: sub.leaves + rest.leaves }
        }
    }
}

/// What the searches of the first moves of a position came to: the score of
/// each move, the cache as the last search left it, and the number of
/// positions scored in all.
pub struct RootResult {
    pub values: Seq<int>,
    pub cache: Map<Seq<char>, i64>,
    pub leaves: nat,
}

/// The result of searching the first `n` moves of `t`, one after the other,
/// each to the given depth with the full window and the other side to
/// minimize, for the side to move in `t`. The searches share one cache, which
/// starts empty.
pub open spec fn root_search<T: Searchable>(t: T, depth: nat, w: Seq<i32>, n: nat) -> RootResult
    decreases n,
{
    if n == 0 || n > t.moves().len() {
        RootResult { values: Seq::empty(), cache: no_entries(), leaves: 0 }
    } else {
        let before = root_search(t, depth, w, (n - 1) as nat);
        let s = search(
            t.child(t.moves()[n - 1]),
            depth,
            WINDOW_LOW as int,
            WINDOW_HIGH as int,
            false,
            t.mover(),
            w,
            before.cache,
        );
        RootResult {
            values: before.values.push(s.value),
            cache: s.cache,
            leaves: before.leaves + s.leaves,
        }
    }
}

/// The place of the highest of the first `n` scores; of several that are
/// equally high, the last.
pub open spec fn last_highest(values: Seq<int>, n: nat) -> int
    decreases n,
{
    if n <= 1 {
        0
    } else {
        let j = last_highest(values, (n - 1) as nat);
        if values[n - 1] >= values[j] {
            n - 1
        } else {
            j
        }
    }
}

/// The move that the search picks for the side to move in `t`, with the
/// number of positions scored and the score of the move.
pub open spec fn choice<T: Searchable>(t: T, depth: nat, w: Seq<i32>) -> (Move, int, int) {
    let all = root_search(t, depth, w, t.moves().len());
    let k = last_highest(all.values, all.values.len());
    (t.moves()[k], saturate(all.leaves as int), all.values[k])
}

/// The share of one heuristic in a score.
fn weigh(value: i64, weight: i32) -> (r: i64)
    requires
        -SCORE_LIMIT <= value <= SCORE_LIMIT,
    ensures
        r == weighted(value as int, weight as int),
        -SCORE_LIMIT * 0x8000_0000 <= r <= SCORE_LIMIT * 0x8000_0000,
{
    if weight != 0 {
        assert(-10_000_000 * 0x8000_0000 <= value * weight <= 10_000_000 * 0x8000_0000)
            by (nonlinear_arith)
            requires
                -10_000_000 <= value <= 10_000_000,
                -0x8000_0000 <= weight <= 0x8000_0000,
        ;
        value * (weight as i64)
    } else {
        0
    }
}

/// Scores the position `t` for `color` under the weights `w`. A heuristic
/// whose weight is zero is not computed.
pub fn evaluate<T: Searchable>(t: &T, color: Color, w: &[i32; 6]) -> (r: i64)
    ensures
        r == evaluation(*t, color, w@),
{
    let mut total: i64 = 0;
    if w[0] != 0 {
        total = total + weigh(t.value_for(color), w[0]);
    }
    if w[1] != 0 {
        total = total + weigh(t.mobility_value_for(color), w[1]);
    }
    if w[2] != 0 {
        total = total + weigh(t.naive_value_for(color), w[2]);
    }
    if w[3] != 0 {
        total = total + weigh(t.control_value_for(color), w[3]);
    }
    if w[4] != 0 {
        total = total + weigh(t.closest_value_for(color), w[4]);
    }
    if w[5] != 0 {
        total = total + weigh(t.trade_value_for(color), w[5]);
    }
    total
}

/// Searches the position `t` to the given depth inside the window from
/// `alpha` to `beta` and returns its score for `getting_move_for`.
///
/// `board_count` grows by the number of positions scored, as far as it can
/// count, and `cache` receives the score of each of them.
pub fn alpha_beta<T: Searchable>(
    t: &T,
    depth: i32,
    alpha: i64,
    beta: i64,
    is_maximizing: bool,
    getting_move_for: Color,
    board_count: &mut u64,
    weights: &[i32; 6],
    cache: &mut DashMap<String, i64>,
) -> (r: i64)
    requires
        depth >= 0,
    ensures
        r == search(
            *t,
            depth as nat,
            alpha as int,
            beta as int,
            is_maximizing,
            getting_move_for,
            weights@,
            cache_entries(*old(cache)),
        ).value,
        cache_entries(*final(cache)) == search(
            *t,
            depth as nat,
            alpha as int,
            beta as int,
            is_maximizing,
            getting_move_for,
            weights@,
            cache_entries(*old(cache)),
        ).cache,
        *final(board_count) == saturate(
            *old(board_count) + search(
                *t,
                depth as nat,
                alpha as int,
                beta as int,
                is_maximizing,
                getting_move_for,
                weights@,
                cache_entries(*old(cache)),
            ).leaves,
        ),
        unanswered_in_window(
            *t,
            depth as nat,
            alpha as int,
            beta as int,
            is_maximizing,
            getting_move_for,
            weights@,
            cache_entries(*old(cache)),
        ) ==> soft(
            r as int,
            full_width(*t, depth as nat, is_maximizing, getting_move_for, weights@),
            alpha as int,
            beta as int,
        ),
    decreases depth,
{
    let ghost count0 = *board_count as int;
    let ghost fair = unanswered_in_window(
        *t,
        depth as nat,
        alpha as int,
        beta as int,
        is_maximizing,
        getting_move_for,
        weights@,
        cache_entries(*cache),
    );
    let ghost whole = search(
        *t,
        depth as nat,
        alpha as int,
        beta as int,
        is_maximizing,
        getting_move_for,
        weights@,
        cache_entries(*cache),
    ).value;
    let ghost full = full_width(*t, depth as nat, is_maximizing, getting_move_for, weights@);
    proof {
        if fair {
            lemma_search_soft(
                *t,
                depth as nat,
                alpha as int,
                beta as int,
                is_maximizing,
                getting_move_for,
                weights@,
                cache_entries(*cache),
            );
        }
    }
    if depth == 0 {
        if *board_count < u64::MAX {
            *board_count = *board_count + 1;
        }
        let e = evaluate(t, getting_move_for, weights);
        let key = t.cache_repr();
        cache_insert(cache, key, e);
        return e;
    }
    let moves = t.get_legal_moves();
    let mut best: i64 = if is_maximizing {
        WORST_FOR_MAX
    } else {
        WORST_FOR_MIN
    };
    let mut low = alpha;
    let mut high = beta;
    let mut i: usize = 0;
    let ghost mut done: int = 0;
    while i < moves.len()
        invariant
            depth > 0,
            0 <= i <= moves.len(),
            moves@ == t.moves(),
            0 <= done,
            count0 == *old(board_count),
            fair == unanswered_in_window(
                *t,
                depth as nat,
                alpha as int,
                beta as int,
                is_maximizing,
                getting_move_for,
                weights@,
                cache_entries(*old(cache)),
            ),
            whole == search(
                *t,
                depth as nat,
                alpha as int,
                beta as int,
                is_maximizing,
                getting_move_for,
                weights@,
                cache_entries(*old(cache)),
            ).value,
            full == full_width(*t, depth as nat, is_maximizing, getting_move_for, weights@),
            fair ==> soft(whole, full, alpha as int, beta as int),
            *board_count == saturate(count0 + done),
            search(
                *t,
                depth as nat,
                alpha as int,
                beta as int,
                is_maximizing,
                getting_move_for,
                weights@,
                cache_entries(*old(cache)),
            ) == tally(
                done,
                scan(
                    *t,
                    depth as nat,
                    i as nat,
                    low as int,
                    high as int,
                    is_maximizing,
                    getting_move_for,
                    weights@,
                    best as int,
                    cache_entries(*cache),
                ),
            ),
        decreases moves.len() - i,
    {
        let key = t.cache_repr();
        let ghost before = cache_entries(*cache);
        let ghost sub = if before.contains_key(t.key()) {
            SearchResult { value: before[t.key()] as int, cache: before, leaves: 0 }
        } else {
            search(
                t.child(t.moves()[i as int]),
                (depth - 1) as nat,
                low as int,
                high as int,
                !is_maximizing,
                getting_move_for,
                weights@,
                before,
            )
        };
        let value: i64 = if cache_contains(cache, &key) {
            cache_get(cache, &key)
        } else {
            let m = moves[i];
            assert(t.moves()[i as int] == m);
            let next = t.apply_eval_move(m);
            alpha_beta(
                &next,
                depth - 1,
                low,
                high,
                !is_maximizing,
                getting_move_for,
                board_count,
                weights,
                cache,
            )
        };
        assert(value == sub.value);
        assert(cache_entries(*cache) == sub.cache);
        proof {
            done = done + sub.leaves;
        }
        if is_maximizing {
            if value > best {
                best = value;
            }
            if best > low {
                low = best;
            }
        } else {
            if value < best {
                best = value;
            }
            if best < high {
                high = best;
            }
        }
        if high <= low {
            return best;
        }
        i = i + 1;
    }
    best
}

/// A position that can be searched for its best move.
pub trait Evaluate: Searchable {
    /// The best move for the side to move, found by looking `depth` moves
    /// beyond each of its legal moves.
    ///
    /// Returns the move, the number of positions scored on the way, and the
    /// score of the move. Each legal move is searched in turn with a cache
    /// that starts empty and is shared among them; of several moves with the
    /// highest score the last is returned. The score says little by itself:
    /// it is relative to those of the other moves.
    fn get_best_next_move(&self, depth: i32, engine: Option<[i32; 6]>) -> (r: (Move, u64, i64))
        requires
            depth >= 0,
            self.moves().len() > 0,
        ensures
            is_choice(*self, depth as int, engine, r),
    {
        pick_move(self, depth, engine)
    }

    /// The move that `get_best_next_move` returns. Despite its name this
    /// function does not look for the lowest score: both functions go by the
    /// highest.
    fn get_worst_next_move(&self, depth: i32, engine: Option<[i32; 6]>) -> (r: (Move, u64, i64))
        requires
            depth >= 0,
            self.moves().len() > 0,
        ensures
            is_choice(*self, depth as int, engine, r),
    {
        pick_move(self, depth, engine)
    }

    /// The score of the position for `getting_move_for`, by a search to the
    /// given depth inside the window from `alpha` to `beta`.
    ///
    /// To find the best move, a player takes the highest of the scores of its
    /// moves, each being the lowest of the scores of the replies, and so on:
    /// moves that look good but are easily answered drop out. `board_count`
    /// grows by the number of positions scored and `cache` receives their
    /// scores. Without weights the piece-square value alone is used.
    ///
    /// Pruning does not change the score: where the cache answers for no
    /// position that is searched further, the score is that of the unpruned
    /// full-width search if it lies inside the window, and bounds that score
    /// from the side of the window on which it lies if it does not.
    fn minimax(
        &self,
        depth: i32,
        alpha: i64,
        beta: i64,
        is_maximizing: bool,
        getting_move_for: Color,
        board_count: &mut u64,
        engine: Option<[i32; 6]>,
        cache: &mut DashMap<String, i64>,
    ) -> (r: i64)
        requires
            depth >= 0,
        ensures
            r == search(
                *self,
                depth as nat,
                alpha as int,
                beta as int,
                is_maximizing,
                getting_move_for,
                weights_of(engine),
                cache_entries(*old(cache)),
            ).value,
            cache_entries(*final(cache)) == search(
                *self,
                depth as nat,
                alpha as int,
                beta as int,
                is_maximizing,
                getting_move_for,
                weights_of(engine),
                cache_entries(*old(cache)),
            ).cache,
            *final(board_count) == saturate(
                *old(board_count) + search(
                    *self,
                    depth as nat,
                    alpha as int,
                    beta as int,
                    is_maximizing,
                    getting_move_for,
                    weights_of(engine),
                    cache_entries(*old(cache)),
                ).leaves,
            ),
            unanswered_in_window(
                *self,
                depth as nat,
                alpha as int,
                beta as int,
                is_maximizing,
                getting_move_for,
                weights_of(engine),
                cache_entries(*old(cache)),
            ) ==> soft(
                r as int,
                full_width(
                    *self,
                    depth as nat,
                    is_maximizing,
                    getting_move_for,
                    weights_of(engine),
                ),
                alpha as int,
                beta as int,
            ),
    {
        let weights = weights_or_default(engine);
        alpha_beta(
            self,
            depth,
            alpha,
            beta,
            is_maximizing,
            getting_move_for,
            board_count,
            &weights,
            cache,
        )
    }
}

/// The weights that `engine` stands for.
pub fn weights_or_default(engine: Option<[i32; 6]>) -> (w: [i32; 6])
    ensures
        w@ == weights_of(engine),
{
    match engine {
        Some(w) => w,
        None => {
            let w: [i32; 6] = [1, 0, 0, 0, 0, 0];
            assert(w@ =~= default_weights());
            w
        },
    }
}

/// The scores as mathematical integers.
pub open spec fn scores_of(s: Seq<i64>) -> Seq<int> {
    Seq::new(s.len(), |i: int| s[i] as int)
}

/// The place of the highest of the scores; of several that are equally high,
/// the last.
pub fn last_highest_place(scores: &Vec<i64>) -> (k: usize)
    requires
        scores.len() > 0,
    ensures
        k == last_highest(scores_of(scores@), scores.len() as nat),
        k < scores.len(),
{
    let mut best: usize = 0;
    let mut i: usize = 1;
    while i < scores.len()
        invariant
            1 <= i <= scores.len(),
            best < i,
            best == last_highest(scores_of(scores@), i as nat),
        decreases scores.len() - i,
    {
        if scores[i] >= scores[best] {
            best = i;
        }
        i = i + 1;
    }
    best
}

/// Searches each legal move of `t` and picks the last of those with the
/// highest score.
pub fn pick_move<T: Searchable>(t: &T, depth: i32, engine: Option<[i32; 6]>) -> (r: (
    Move,
    u64,
    i64,
))
    requires
        depth >= 0,
        t.moves().len() > 0,
    ensures
        is_choice(*t, depth as int, engine, r),
{
    let weights = weights_or_default(engine);
    let moves = t.get_legal_moves();
    let color = t.get_current_player_color();
    let mut count: u64 = 0;
    let mut cache = cache_new();
    let mut values: Vec<i64> = Vec::new();
    let mut i: usize = 0;
    assert(scores_of(values@) =~= root_search(*t, depth as nat, weights@, 0).values);
    while i < moves.len()
        invariant
            depth >= 0,
            0 <= i <= moves.len(),
            moves@ == t.moves(),
            color == t.mover(),
            values.len() == i,
            scores_of(values@) == root_search(*t, depth as nat, weights@, i as nat).values,
            cache_entries(cache) == root_search(*t, depth as nat, weights@, i as nat).cache,
            count == saturate(root_search(*t, depth as nat, weights@, i as nat).leaves as int),
        decreases moves.len() - i,
    {
        let m = moves[i];
        assert(t.moves()[i as int] == m);
        let next = t.apply_eval_move(m);
        let ghost before = scores_of(values@);
        let value = alpha_beta(
            &next,
            depth,
            WINDOW_LOW,
            WINDOW_HIGH,
            false,
            color,
            &mut count,
            &weights,
            &mut cache,
        );
        values.push(value);
        assert(scores_of(values@) =~= before.push(value as int));
        i = i + 1;
    }
    let k = last_highest_place(&values);
    (moves[k], count, values[k])
}

/// The score at the place that `last_highest` gives is the highest of the
/// first `n`, and every later one among them is lower.
pub proof fn lemma_last_highest_is_highest(values: Seq<int>, n: nat, i: int)
    requires
        0 <= i < n <= values.len(),
    ensures
        0 <= last_highest(values, n) < n,
        values[i] <= values[last_highest(values, n)],
        i > last_highest(values, n) ==> values[i] < values[last_highest(values, n)],
    decreases n,
{
    if n > 1 {
        if i < n - 1 {
            lemma_last_highest_is_highest(values, (n - 1) as nat, i);
        } else {
            lemma_last_highest_is_highest(values, (n - 1) as nat, 0);
        }
    }
}

/// The searches of the first `n` moves of a position yield `n` scores.
pub proof fn lemma_root_search_len<T: Searchable>(t: T, depth: nat, w: Seq<i32>, n: nat)
    requires
        n <= t.moves().len(),
    ensures
        root_search(t, depth, w, n).values.len() == n,
    decreases n,
{
    if n > 0 {
        lemma_root_search_len(t, depth, w, (n - 1) as nat);
    }
}

/// The move that the search picks is one of the legal moves, and no legal
/// move has a higher score.
pub proof fn lemma_choice_is_best<T: Searchable>(t: T, depth: nat, w: Seq<i32>, i: int)
    requires
        0 <= i < t.moves().len(),
    ensures
        t.moves().contains(choice(t, depth, w).0),
        root_search(t, depth, w, t.moves().len()).values[i] <= choice(t, depth, w).2,
{
    let all = root_search(t, depth, w, t.moves().len());
    lemma_root_search_len(t, depth, w, t.moves().len());
    lemma_last_highest_is_highest(all.values, all.values.len(), i);
    let k = last_highest(all.values, all.values.len());
    assert(t.moves()[k] == choice(t, depth, w).0);
}

/// Whether `r` is what a search of `t` to `depth` with the weights that
/// `engine` stands for returns: the move, the number of positions scored and
/// the score.
pub open spec fn is_choice<T: Searchable>(
    t: T,
    depth: int,
    engine: Option<[i32; 6]>,
    r: (Move, u64, i64),
) -> bool {
    &&& r.0 == choice(t, depth as nat, weights_of(engine)).0
    &&& r.1 == choice(t, depth as nat, weights_of(engine)).1
    &&& r.2 == choice(t, depth as nat, weights_of(engine)).2
}

/// The search is determined by the position, the depth and the weights: any
/// two results that it returns for the same three are the same move, the same
/// count and the same score.
pub proof fn lemma_best_move_is_determined<T: Searchable>(
    t: T,
    depth: int,
    engine: Option<[i32; 6]>,
    first: (Move, u64, i64),
    second: (Move, u64, i64),
)
    requires
        is_choice(t, depth, engine, first),
        is_choice(t, depth, engine, second),
    ensures
        first == second,
{
}

} // verus!
