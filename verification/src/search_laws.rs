//! What holds of the search: where the cache cannot answer for a position
//! that is still to be searched, pruning does not change the score.

use crate::color::Color;
use crate::moves::Move;
use crate::search::{
    choice, evaluation, higher, last_highest, lemma_last_highest_is_highest,
    lemma_root_search_len, lower, root_search, scan, search, SearchResult, Searchable,
    WINDOW_HIGH, WINDOW_LOW, WORST_FOR_MAX, WORST_FOR_MIN,
};
use vstd::prelude::*;

verus! {

/// The score with which the scan of the moves of a position starts.
pub open spec fn worst(maximizing: bool) -> int {
    if maximizing {
        WORST_FOR_MAX as int
    } else {
        WORST_FOR_MIN as int
    }
}

/// The better of two scores for the side that chooses.
pub open spec fn better(maximizing: bool, a: int, b: int) -> int {
    if maximizing {
        higher(a, b)
    } else {
        lower(a, b)
    }
}

/// The score of the position `t` by a search of every line to the given
/// depth, without a window and without a cache: the score of `t` itself at
/// depth zero, and otherwise the highest of the scores of its moves if
/// `maximizing`, the lowest if not, each move scored one level less deep
/// with the roles exchanged.
pub open spec fn full_width<T: Searchable>(
    t: T,
    depth: nat,
    maximizing: bool,
    color: Color,
    w: Seq<i32>,
) -> int
    decreases depth, 1nat, 0nat,
{
    if depth == 0 {
        evaluation(t, color, w)
    } else {
        full_scan(t, depth, 0, maximizing, color, w, worst(maximizing))
    }
}

/// The best of `best` and the full-width scores of the moves of `t` from the
/// `i`-th on.
pub open spec fn full_scan<T: Searchable>(
    t: T,
    depth: nat,
    i: nat,
    maximizing: bool,
    color: Color,
    w: Seq<i32>,
    best: int,
) -> int
    decreases depth, 0nat, t.moves().len() - i,
{
    if depth == 0 || i >= t.moves().len() {
        best
    } else {
        full_scan(
            t,
            depth,
            i + 1,
            maximizing,
            color,
            w,
            better(
                maximizing,
                best,
                full_width(t.child(t.moves()[i as int]), (depth - 1) as nat, !maximizing, color, w),
            ),
        )
    }
}

/// Whether the score `r` of a search inside the window from `a` to `b` tells
/// as much of the true score `m` as the window allows: `r` is `m` where `m`
/// lies inside the window, and `r` lies on the same side of the window as
/// `m` where it does not.
pub open spec fn within(r: int, m: int, a: int, b: int) -> bool {
    &&& m <= a ==> r <= a
    &&& m >= b ==> r >= b
    &&& a < m < b ==> r == m
}

/// Whether the positions that `ok` admits are levelled by `deep` below
/// `limit`: every legal move from an admitted position whose key lies below
/// `limit` leads to an admitted position whose key lies one level deeper.
pub open spec fn levelled<T: Searchable>(
    ok: spec_fn(T) -> bool,
    deep: spec_fn(Seq<char>) -> int,
    limit: int,
) -> bool {
    forall|p: T, m: Move|
        #![trigger p.child(m)]
        ok(p) && deep(p.key()) < limit && p.moves().contains(m) ==> ok(p.child(m)) && deep(
            p.child(m).key(),
        ) == deep(p.key()) + 1
}

/// Whether every key of the cache lies at the level `limit`.
pub open spec fn all_at(cache: Map<Seq<char>, i64>, deep: spec_fn(Seq<char>) -> int, limit: int) -> bool {
    forall|k: Seq<char>| cache.contains_key(k) ==> #[trigger] deep(k) == limit
}

/// The full-width scan does not fall behind the score it starts with, and
/// two scans that start at or below a bound agree on whether they end above
/// it, and on where.
pub proof fn lemma_full_scan_max<T: Searchable>(
    t: T,
    depth: nat,
    i: nat,
    color: Color,
    w: Seq<i32>,
    b1: int,
    b2: int,
    bound: int,
)
    requires
        b1 <= bound,
        b2 <= bound,
    ensures
        full_scan(t, depth, i, true, color, w, b1) >= b1,
        full_scan(t, depth, i, true, color, w, b1) > bound ==> full_scan(
            t,
            depth,
            i,
            true,
            color,
            w,
            b1,
        ) == full_scan(t, depth, i, true, color, w, b2),
        full_scan(t, depth, i, true, color, w, b1) <= bound <==> full_scan(
            t,
            depth,
            i,
            true,
            color,
            w,
            b2,
        ) <= bound,
    decreases t.moves().len() - i,
{
    if !(depth == 0 || i >= t.moves().len()) {
        let v = full_width(t.child(t.moves()[i as int]), (depth - 1) as nat, false, color, w);
        if v <= bound {
            lemma_full_scan_max(t, depth, i + 1, color, w, higher(b1, v), higher(b2, v), bound);
        } else {
            lemma_full_scan_max(t, depth, i + 1, color, w, v, v, v);
        }
    }
}

/// The mirror image of `lemma_full_scan_max` for the side that minimizes.
pub proof fn lemma_full_scan_min<T: Searchable>(
    t: T,
    depth: nat,
    i: nat,
    color: Color,
    w: Seq<i32>,
    b1: int,
    b2: int,
    bound: int,
)
    requires
        b1 >= bound,
        b2 >= bound,
    ensures
        full_scan(t, depth, i, false, color, w, b1) <= b1,
        full_scan(t, depth, i, false, color, w, b1) < bound ==> full_scan(
            t,
            depth,
            i,
            false,
            color,
            w,
            b1,
        ) == full_scan(t, depth, i, false, color, w, b2),
        full_scan(t, depth, i, false, color, w, b1) >= bound <==> full_scan(
            t,
            depth,
            i,
            false,
            color,
            w,
            b2,
        ) >= bound,
    decreases t.moves().len() - i,
{
    if !(depth == 0 || i >= t.moves().len()) {
        let v = full_width(t.child(t.moves()[i as int]), (depth - 1) as nat, true, color, w);
        if v >= bound {
            lemma_full_scan_min(t, depth, i + 1, color, w, lower(b1, v), lower(b2, v), bound);
        } else {
            lemma_full_scan_min(t, depth, i + 1, color, w, v, v, v);
        }
    }
}

/// A scan does not fall behind the score it starts with.
pub proof fn lemma_scan_keeps_best<T: Searchable>(
    t: T,
    depth: nat,
    i: nat,
    alpha: int,
    beta: int,
    maximizing: bool,
    color: Color,
    w: Seq<i32>,
    best: int,
    cache: Map<Seq<char>, i64>,
)
    ensures
        maximizing ==> scan(t, depth, i, alpha, beta, maximizing, color, w, best, cache).value
            >= best,
        !maximizing ==> scan(t, depth, i, alpha, beta, maximizing, color, w, best, cache).value
            <= best,
    decreases t.moves().len() - i,
{
    if !(depth == 0 || i >= t.moves().len()) {
        let sub = if cache.contains_key(t.key()) {
            SearchResult { value: cache[t.key()] as int, cache, leaves: 0 }
        } else {
            search(
                t.child(t.moves()[i as int]),
                (depth - 1) as nat,
                alpha,
                beta,
                !maximizing,
                color,
                w,
                cache,
            )
        };
        let best1 = better(maximizing, best, sub.value);
        let alpha1 = if maximizing {
            higher(alpha, best1)
        } else {
            alpha
        };
        let beta1 = if maximizing {
            beta
        } else {
            lower(beta, best1)
        };
        if beta1 > alpha1 {
            lemma_scan_keeps_best(
                t,
                depth,
                i + 1,
                alpha1,
                beta1,
                maximizing,
                color,
                w,
                best1,
                sub.cache,
            );
        }
    }
}

/// Where the cache holds only keys of the deepest level, a search keeps it
/// so.
pub proof fn lemma_search_keeps_level<T: Searchable>(
    t: T,
    depth: nat,
    alpha: int,
    beta: int,
    maximizing: bool,
    color: Color,
    w: Seq<i32>,
    cache: Map<Seq<char>, i64>,
    ok: spec_fn(T) -> bool,
    deep: spec_fn(Seq<char>) -> int,
    limit: int,
)
    requires
        levelled(ok, deep, limit),
        ok(t),
        deep(t.key()) + depth == limit,
        all_at(cache, deep, limit),
    ensures
        all_at(search(t, depth, alpha, beta, maximizing, color, w, cache).cache, deep, limit),
    decreases depth, 1nat, 0nat,
{
    if depth > 0 {
        lemma_scan_keeps_level(
            t,
            depth,
            0,
            alpha,
            beta,
            maximizing,
            color,
            w,
            worst(maximizing),
            cache,
            ok,
            deep,
            limit,
        );
    }
}

/// Where the cache holds only keys of the deepest level, a scan keeps it so.
pub proof fn lemma_scan_keeps_level<T: Searchable>(
    t: T,
    depth: nat,
    i: nat,
    alpha: int,
    beta: int,
    maximizing: bool,
    color: Color,
    w: Seq<i32>,
    best: int,
    cache: Map<Seq<char>, i64>,
    ok: spec_fn(T) -> bool,
    deep: spec_fn(Seq<char>) -> int,
    limit: int,
)
    requires
        levelled(ok, deep, limit),
        ok(t),
        depth > 0,
        deep(t.key()) + depth == limit,
        all_at(cache, deep, limit),
    ensures
        all_at(
            scan(t, depth, i, alpha, beta, maximizing, color, w, best, cache).cache,
            deep,
            limit,
        ),
    decreases depth, 0nat, t.moves().len() - i,
{
    if i < t.moves().len() {
        let m = t.moves()[i as int];
        assert(t.moves().contains(m));
        let next = t.child(m);
        assert(ok(next) && deep(next.key()) == deep(t.key()) + 1);
        assert(!cache.contains_key(t.key()));
        lemma_search_keeps_level(
            next,
            (depth - 1) as nat,
            alpha,
            beta,
            !maximizing,
            color,
            w,
            cache,
            ok,
            deep,
            limit,
        );
        let sub = search(next, (depth - 1) as nat, alpha, beta, !maximizing, color, w, cache);
        let best1 = better(maximizing, best, sub.value);
        let alpha1 = if maximizing {
            higher(alpha, best1)
        } else {
            alpha
        };
        let beta1 = if maximizing {
            beta
        } else {
            lower(beta, best1)
        };
        if beta1 > alpha1 {
            lemma_scan_keeps_level(
                t,
                depth,
                i + 1,
                alpha1,
                beta1,
                maximizing,
                color,
                w,
                best1,
                sub.cache,
                ok,
                deep,
                limit,
            );
        }
    }
}

/// Whether the cache answers for a position that is searched further in the
/// course of the search of `t`: whether the scan of some position on the way
/// finds the key of that position in the cache.
///
/// A position is scored before it is searched further only where two
/// positions of different depth share a key. Where the cache answers, the
/// score it holds stands for the scores of the moves of the position, and the
/// search no longer follows the game.
pub open spec fn answered<T: Searchable>(
    t: T,
    depth: nat,
    alpha: int,
    beta: int,
    maximizing: bool,
    color: Color,
    w: Seq<i32>,
    cache: Map<Seq<char>, i64>,
) -> bool
    decreases depth, 1nat, 0nat,
{
    depth > 0 && scan_answered(
        t,
        depth,
        0,
        alpha,
        beta,
        maximizing,
        color,
        w,
        worst(maximizing),
        cache,
    )
}

/// Whether the cache answers for a position in the course of the scan of
/// the moves of `t` from the `i`-th on.
pub open spec fn scan_answered<T: Searchable>(
    t: T,
    depth: nat,
    i: nat,
    alpha: int,
    beta: int,
    maximizing: bool,
    color: Color,
    w: Seq<i32>,
    best: int,
    cache: Map<Seq<char>, i64>,
) -> bool
    decreases depth, 0nat, t.moves().len() - i,
{
    if depth == 0 || i >= t.moves().len() {
        false
    } else if cache.contains_key(t.key()) {
        true
    } else {
        let next = t.child(t.moves()[i as int]);
        let below = (depth - 1) as nat;
        let sub = search(next, below, alpha, beta, !maximizing, color, w, cache);
        let best1 = better(maximizing, best, sub.value);
        let alpha1 = if maximizing {
            higher(alpha, best1)
        } else {
            alpha
        };
        let beta1 = if maximizing {
            beta
        } else {
            lower(beta, best1)
        };
        answered(next, below, alpha, beta, !maximizing, color, w, cache) || (beta1 > alpha1
            && scan_answered(t, depth, i + 1, alpha1, beta1, maximizing, color, w, best1, sub.cache))
    }
}

/// Whether the search has a window and the cache answers for no position
/// that is searched further: the searches in which pruning does not change
/// the score.
pub open spec fn unanswered_in_window<T: Searchable>(
    t: T,
    depth: nat,
    alpha: int,
    beta: int,
    maximizing: bool,
    color: Color,
    w: Seq<i32>,
    cache: Map<Seq<char>, i64>,
) -> bool {
    alpha < beta && !answered(t, depth, alpha, beta, maximizing, color, w, cache)
}

/// Where the positions are levelled and the keys of the cache all lie at the
/// level of the positions that the search scores, the cache answers for no
/// position that is searched further.
pub proof fn lemma_levelled_never_answered<T: Searchable>(
    t: T,
    depth: nat,
    alpha: int,
    beta: int,
    maximizing: bool,
    color: Color,
    w: Seq<i32>,
    cache: Map<Seq<char>, i64>,
    ok: spec_fn(T) -> bool,
    deep: spec_fn(Seq<char>) -> int,
    limit: int,
)
    requires
        levelled(ok, deep, limit),
        ok(t),
        deep(t.key()) + depth == limit,
        all_at(cache, deep, limit),
    ensures
        !answered(t, depth, alpha, beta, maximizing, color, w, cache),
    decreases depth, 1nat, 0nat,
{
    if depth > 0 {
        lemma_levelled_scan_never_answered(
            t,
            depth,
            0,
            alpha,
            beta,
            maximizing,
            color,
            w,
            worst(maximizing),
            cache,
            ok,
            deep,
            limit,
        );
    }
}

/// Where the positions are levelled and the keys of the cache all lie at the
/// level of the positions that the search scores, the cache answers for no
/// position in the course of a scan.
pub proof fn lemma_levelled_scan_never_answered<T: Searchable>(
    t: T,
    depth: nat,
    i: nat,
    alpha: int,
    beta: int,
    maximizing: bool,
    color: Color,
    w: Seq<i32>,
    best: int,
    cache: Map<Seq<char>, i64>,
    ok: spec_fn(T) -> bool,
    deep: spec_fn(Seq<char>) -> int,
    limit: int,
)
    requires
        levelled(ok, deep, limit),
        ok(t),
        depth > 0,
        deep(t.key()) + depth == limit,
        all_at(cache, deep, limit),
    ensures
        !scan_answered(t, depth, i, alpha, beta, maximizing, color, w, best, cache),
    decreases depth, 0nat, t.moves().len() - i,
{
    if i < t.moves().len() {
        let m = t.moves()[i as int];
        assert(t.moves().contains(m));
        let next = t.child(m);
        assert(ok(next) && deep(next.key()) == deep(t.key()) + 1);
        assert(!cache.contains_key(t.key()));
        let below = (depth - 1) as nat;
        lemma_levelled_never_answered(
            next,
            below,
            alpha,
            beta,
            !maximizing,
            color,
            w,
            cache,
            ok,
            deep,
            limit,
        );
        lemma_search_keeps_level(
            next,
            below,
            alpha,
            beta,
            !maximizing,
            color,
            w,
            cache,
            ok,
            deep,
            limit,
        );
        let sub = search(next, below, alpha, beta, !maximizing, color, w, cache);
        let best1 = better(maximizing, best, sub.value);
        let alpha1 = if maximizing {
            higher(alpha, best1)
        } else {
            alpha
        };
        let beta1 = if maximizing {
            beta
        } else {
            lower(beta, best1)
        };
        if beta1 > alpha1 {
            lemma_levelled_scan_never_answered(
                t,
                depth,
                i + 1,
                alpha1,
                beta1,
                maximizing,
                color,
                w,
                best1,
                sub.cache,
                ok,
                deep,
                limit,
            );
        }
    }
}

/// What a scan that maximizes tells of the full-width scan: with `a` the
/// higher of `alpha` and `best`, the score `r` of the scan relates to the
/// full-width score `m` as a search inside the window from `a` to `beta`
/// would.
pub open spec fn max_scan_sound(r: int, m: int, alpha: int, beta: int, best: int) -> bool {
    &&& m >= beta ==> r >= beta
    &&& higher(alpha, best) < m < beta ==> r == m
    &&& m <= higher(alpha, best) ==> r <= higher(alpha, best)
}

/// The mirror image of `max_scan_sound` for a scan that minimizes.
pub open spec fn min_scan_sound(r: int, m: int, alpha: int, beta: int, best: int) -> bool {
    &&& m <= alpha ==> r <= alpha
    &&& alpha < m < lower(beta, best) ==> r == m
    &&& m >= lower(beta, best) ==> r >= lower(beta, best)
}

/// Where the cache answers for no position that is searched further, the
/// score of a search tells as much of the full-width score as its window
/// allows: it is the full-width score where that lies inside the window, and
/// lies on the same side of the window where it does not.
pub proof fn lemma_search_sound<T: Searchable>(
    t: T,
    depth: nat,
    alpha: int,
    beta: int,
    maximizing: bool,
    color: Color,
    w: Seq<i32>,
    cache: Map<Seq<char>, i64>,
)
    requires
        !answered(t, depth, alpha, beta, maximizing, color, w, cache),
        alpha < beta,
    ensures
        within(
            search(t, depth, alpha, beta, maximizing, color, w, cache).value,
            full_width(t, depth, maximizing, color, w),
            alpha,
            beta,
        ),
    decreases depth, 1nat, 0nat,
{
    if depth > 0 {
        let start = worst(maximizing);
        lemma_scan_keeps_best(t, depth, 0, alpha, beta, maximizing, color, w, start, cache);
        if maximizing {
            lemma_full_scan_max(t, depth, 0, color, w, start, start, start);
            if start < beta {
                lemma_scan_sound(
                    t,
                    depth,
                    0,
                    alpha,
                    beta,
                    maximizing,
                    color,
                    w,
                    start,
                    cache,
                );
            }
        } else {
            lemma_full_scan_min(t, depth, 0, color, w, start, start, start);
            if start > alpha {
                lemma_scan_sound(
                    t,
                    depth,
                    0,
                    alpha,
                    beta,
                    maximizing,
                    color,
                    w,
                    start,
                    cache,
                );
            }
        }
    }
}

/// Where the cache answers for no position that is searched further, the
/// score of a scan tells as much of the full-width scan as its window and the
/// best score so far allow.
pub proof fn lemma_scan_sound<T: Searchable>(
    t: T,
    depth: nat,
    i: nat,
    alpha: int,
    beta: int,
    maximizing: bool,
    color: Color,
    w: Seq<i32>,
    best: int,
    cache: Map<Seq<char>, i64>,
)
    requires
        depth > 0,
        !scan_answered(t, depth, i, alpha, beta, maximizing, color, w, best, cache),
        alpha < beta,
        maximizing ==> best < beta,
        !maximizing ==> best > alpha,
    ensures
        maximizing ==> max_scan_sound(
            scan(t, depth, i, alpha, beta, maximizing, color, w, best, cache).value,
            full_scan(t, depth, i, maximizing, color, w, best),
            alpha,
            beta,
            best,
        ),
        !maximizing ==> min_scan_sound(
            scan(t, depth, i, alpha, beta, maximizing, color, w, best, cache).value,
            full_scan(t, depth, i, maximizing, color, w, best),
            alpha,
            beta,
            best,
        ),
    decreases depth, 0nat, t.moves().len() - i,
{
    if i < t.moves().len() {
        let m = t.moves()[i as int];
        let next = t.child(m);
        assert(!cache.contains_key(t.key()));
        let below = (depth - 1) as nat;
        lemma_search_sound(next, below, alpha, beta, !maximizing, color, w, cache);
        let sub = search(next, below, alpha, beta, !maximizing, color, w, cache);
        let r = sub.value;
        let v = full_width(next, below, !maximizing, color, w);
        assert(within(r, v, alpha, beta));
        let best1 = better(maximizing, best, r);
        let true1 = better(maximizing, best, v);
        let total = full_scan(t, depth, i, maximizing, color, w, best);
        assert(total == full_scan(t, depth, i + 1, maximizing, color, w, true1));
        if maximizing {
            let alpha1 = higher(alpha, best1);
            let a = higher(alpha, best);
            lemma_full_scan_max(t, depth, i + 1, color, w, true1, true1, true1);
            if beta <= alpha1 {
                assert(best1 >= beta);
                assert(v >= beta);
                assert(total >= beta);
            } else {
                lemma_scan_sound(
                    t,
                    depth,
                    i + 1,
                    alpha1,
                    beta,
                    maximizing,
                    color,
                    w,
                    best1,
                    sub.cache,
                );
                lemma_scan_keeps_best(
                    t,
                    depth,
                    i + 1,
                    alpha1,
                    beta,
                    maximizing,
                    color,
                    w,
                    best1,
                    sub.cache,
                );
                let rest = scan(t, depth, i + 1, alpha1, beta, maximizing, color, w, best1, sub.cache).value;
                let seen = full_scan(t, depth, i + 1, maximizing, color, w, best1);
                assert(max_scan_sound(rest, seen, alpha1, beta, best1));
                assert(higher(alpha1, best1) == alpha1);
                assert(v < beta);
                if alpha < v {
                    assert(r == v);
                    assert(seen == total);
                    assert(alpha1 == higher(a, v));
                } else {
                    assert(r <= alpha);
                    assert(alpha1 == a);
                    lemma_full_scan_max(t, depth, i + 1, color, w, true1, best1, a);
                }
            }
        } else {
            let beta1 = lower(beta, best1);
            let b = lower(beta, best);
            lemma_full_scan_min(t, depth, i + 1, color, w, true1, true1, true1);
            if beta1 <= alpha {
                assert(best1 <= alpha);
                assert(v <= alpha);
                assert(total <= alpha);
            } else {
                lemma_scan_sound(
                    t,
                    depth,
                    i + 1,
                    alpha,
                    beta1,
                    maximizing,
                    color,
                    w,
                    best1,
                    sub.cache,
                );
                lemma_scan_keeps_best(
                    t,
                    depth,
                    i + 1,
                    alpha,
                    beta1,
                    maximizing,
                    color,
                    w,
                    best1,
                    sub.cache,
                );
                let rest = scan(t, depth, i + 1, alpha, beta1, maximizing, color, w, best1, sub.cache).value;
                let seen = full_scan(t, depth, i + 1, maximizing, color, w, best1);
                assert(min_scan_sound(rest, seen, alpha, beta1, best1));
                assert(lower(beta1, best1) == beta1);
                assert(v > alpha);
                if v < beta {
                    assert(r == v);
                    assert(seen == total);
                    assert(beta1 == lower(b, v));
                } else {
                    assert(r >= beta);
                    assert(beta1 == b);
                    lemma_full_scan_min(t, depth, i + 1, color, w, true1, best1, b);
                }
            }
        }
    }
}

/// The full-width score of the `j`-th move of `t` for the side to move in
/// `t`, by a search of every line `depth` levels beyond the move.
pub open spec fn full_score<T: Searchable>(t: T, depth: nat, w: Seq<i32>, j: int) -> int {
    full_width(t.child(t.moves()[j]), depth, false, t.mover(), w)
}

/// The searches of the first moves of a position leave only keys of the
/// deepest level in the cache, and earlier scores stay as later moves are
/// searched.
pub proof fn lemma_root_keeps_level<T: Searchable>(
    t: T,
    depth: nat,
    w: Seq<i32>,
    n: nat,
    ok: spec_fn(T) -> bool,
    deep: spec_fn(Seq<char>) -> int,
    limit: int,
)
    requires
        levelled(ok, deep, limit),
        ok(t),
        deep(t.key()) + 1 + depth == limit,
        n <= t.moves().len(),
    ensures
        all_at(root_search(t, depth, w, n).cache, deep, limit),
        root_search(t, depth, w, n).values.len() == n,
    decreases n,
{
    if n > 0 {
        let before = root_search(t, depth, w, (n - 1) as nat);
        lemma_root_keeps_level(t, depth, w, (n - 1) as nat, ok, deep, limit);
        let m = t.moves()[n - 1];
        assert(t.moves().contains(m));
        assert(ok(t.child(m)) && deep(t.child(m).key()) == deep(t.key()) + 1);
        lemma_search_keeps_level(
            t.child(m),
            depth,
            WINDOW_LOW as int,
            WINDOW_HIGH as int,
            false,
            t.mover(),
            w,
            before.cache,
            ok,
            deep,
            limit,
        );
    }
}

/// Where the cache cannot answer for a position that is still to be
/// searched, the score that the search gives to each legal move tells as much
/// of the full-width score of the move as the starting window allows.
pub proof fn lemma_root_sound<T: Searchable>(
    t: T,
    depth: nat,
    w: Seq<i32>,
    n: nat,
    j: int,
    ok: spec_fn(T) -> bool,
    deep: spec_fn(Seq<char>) -> int,
    limit: int,
)
    requires
        levelled(ok, deep, limit),
        ok(t),
        deep(t.key()) + 1 + depth == limit,
        0 <= j < n <= t.moves().len(),
    ensures
        within(
            root_search(t, depth, w, n).values[j],
            full_score(t, depth, w, j),
            WINDOW_LOW as int,
            WINDOW_HIGH as int,
        ),
    decreases n,
{
    let before = root_search(t, depth, w, (n - 1) as nat);
    lemma_root_keeps_level(t, depth, w, (n - 1) as nat, ok, deep, limit);
    if j < n - 1 {
        lemma_root_sound(t, depth, w, (n - 1) as nat, j, ok, deep, limit);
        assert(root_search(t, depth, w, n).values[j] == before.values[j]);
    } else {
        let m = t.moves()[n - 1];
        assert(t.moves().contains(m));
        assert(ok(t.child(m)) && deep(t.child(m).key()) == deep(t.key()) + 1);
        lemma_levelled_never_answered(
            t.child(m),
            depth,
            WINDOW_LOW as int,
            WINDOW_HIGH as int,
            false,
            t.mover(),
            w,
            before.cache,
            ok,
            deep,
            limit,
        );
        lemma_search_sound(
            t.child(m),
            depth,
            WINDOW_LOW as int,
            WINDOW_HIGH as int,
            false,
            t.mover(),
            w,
            before.cache,
        );
    }
}

/// Whether the full-width score of every legal move of `t` lies inside the
/// window with which the search of a move starts.
pub open spec fn scores_fit<T: Searchable>(t: T, depth: nat, w: Seq<i32>) -> bool {
    forall|j: int|
        0 <= j < t.moves().len() ==> WINDOW_LOW < #[trigger] full_score(t, depth, w, j)
            < WINDOW_HIGH
}

/// Pruning does not change the score of the best move: where the cache
/// cannot answer for a position that is still to be searched and the
/// full-width scores of the legal moves lie inside the starting window, the
/// score that the search returns is the full-width score of the move it
/// returns, and no legal move has a higher full-width score.
pub proof fn lemma_pruned_choice_is_full_width<T: Searchable>(
    t: T,
    depth: nat,
    w: Seq<i32>,
    j: int,
    ok: spec_fn(T) -> bool,
    deep: spec_fn(Seq<char>) -> int,
    limit: int,
)
    requires
        levelled(ok, deep, limit),
        ok(t),
        deep(t.key()) + 1 + depth == limit,
        scores_fit(t, depth, w),
        0 <= j < t.moves().len(),
    ensures
        full_score(t, depth, w, j) <= choice(t, depth, w).2,
        exists|k: int|
            0 <= k < t.moves().len() && choice(t, depth, w).0 == t.moves()[k] && choice(
                t,
                depth,
                w,
            ).2 == #[trigger] full_score(t, depth, w, k),
{
    let n = t.moves().len();
    let all = root_search(t, depth, w, n);
    lemma_root_search_len(t, depth, w, n);
    let k = last_highest(all.values, n);
    lemma_last_highest_is_highest(all.values, n, j);
    lemma_root_sound(t, depth, w, n, j, ok, deep, limit);
    lemma_root_sound(t, depth, w, n, k, ok, deep, limit);
    assert(WINDOW_LOW < full_score(t, depth, w, j) < WINDOW_HIGH);
    assert(WINDOW_LOW < full_score(t, depth, w, k) < WINDOW_HIGH);
    assert(choice(t, depth, w).2 == full_score(t, depth, w, k));
}

/// Whether no position scores beyond `bound` for `color` under the weights
/// `w`, in either direction.
pub open spec fn evaluation_bounded<T: Searchable>(color: Color, w: Seq<i32>, bound: int) -> bool {
    forall|p: T| -bound <= #[trigger] evaluation(p, color, w) <= bound
}

/// Where no position scores beyond a bound that is at least the score of a
/// position without moves, no full-width score lies beyond the bound.
pub proof fn lemma_full_width_bounded<T: Searchable>(
    t: T,
    depth: nat,
    maximizing: bool,
    color: Color,
    w: Seq<i32>,
    bound: int,
)
    requires
        evaluation_bounded::<T>(color, w, bound),
        bound >= WORST_FOR_MIN,
    ensures
        -bound <= full_width(t, depth, maximizing, color, w) <= bound,
    decreases depth, 1nat, 0nat,
{
    if depth > 0 {
        lemma_full_scan_bounded(t, depth, 0, maximizing, color, w, worst(maximizing), bound);
    }
}

/// Where no position scores beyond a bound, the full-width scan stays
/// within the bound if it starts within it.
pub proof fn lemma_full_scan_bounded<T: Searchable>(
    t: T,
    depth: nat,
    i: nat,
    maximizing: bool,
    color: Color,
    w: Seq<i32>,
    best: int,
    bound: int,
)
    requires
        evaluation_bounded::<T>(color, w, bound),
        bound >= WORST_FOR_MIN,
        -bound <= best <= bound,
    ensures
        -bound <= full_scan(t, depth, i, maximizing, color, w, best) <= bound,
    decreases depth, 0nat, t.moves().len() - i,
{
    if !(depth == 0 || i >= t.moves().len()) {
        let next = t.child(t.moves()[i as int]);
        lemma_full_width_bounded(next, (depth - 1) as nat, !maximizing, color, w, bound);
        let v = full_width(next, (depth - 1) as nat, !maximizing, color, w);
        lemma_full_scan_bounded(
            t,
            depth,
            i + 1,
            maximizing,
            color,
            w,
            better(maximizing, best, v),
            bound,
        );
    }
}

/// Where the cache cannot answer for a position that is still to be
/// searched, it has no part in the search: two searches that differ in
/// nothing but the cache they start with come to the same score and score the
/// same number of positions.
pub proof fn lemma_search_ignores_cache<T: Searchable>(
    t: T,
    depth: nat,
    alpha: int,
    beta: int,
    maximizing: bool,
    color: Color,
    w: Seq<i32>,
    first: Map<Seq<char>, i64>,
    second: Map<Seq<char>, i64>,
    ok: spec_fn(T) -> bool,
    deep: spec_fn(Seq<char>) -> int,
    limit: int,
)
    requires
        levelled(ok, deep, limit),
        ok(t),
        deep(t.key()) + depth == limit,
        all_at(first, deep, limit),
        all_at(second, deep, limit),
    ensures
        search(t, depth, alpha, beta, maximizing, color, w, first).value == search(
            t,
            depth,
            alpha,
            beta,
            maximizing,
            color,
            w,
            second,
        ).value,
        search(t, depth, alpha, beta, maximizing, color, w, first).leaves == search(
            t,
            depth,
            alpha,
            beta,
            maximizing,
            color,
            w,
            second,
        ).leaves,
    decreases depth, 1nat, 0nat,
{
    if depth > 0 {
        lemma_scan_ignores_cache(
            t,
            depth,
            0,
            alpha,
            beta,
            maximizing,
            color,
            w,
            worst(maximizing),
            first,
            second,
            ok,
            deep,
            limit,
        );
    }
}

/// Where the cache cannot answer for a position that is still to be
/// searched, it has no part in a scan.
pub proof fn lemma_scan_ignores_cache<T: Searchable>(
    t: T,
    depth: nat,
    i: nat,
    alpha: int,
    beta: int,
    maximizing: bool,
    color: Color,
    w: Seq<i32>,
    best: int,
    first: Map<Seq<char>, i64>,
    second: Map<Seq<char>, i64>,
    ok: spec_fn(T) -> bool,
    deep: spec_fn(Seq<char>) -> int,
    limit: int,
)
    requires
        levelled(ok, deep, limit),
        ok(t),
        depth > 0,
        deep(t.key()) + depth == limit,
        all_at(first, deep, limit),
        all_at(second, deep, limit),
    ensures
        scan(t, depth, i, alpha, beta, maximizing, color, w, best, first).value == scan(
            t,
            depth,
            i,
            alpha,
            beta,
            maximizing,
            color,
            w,
            best,
            second,
        ).value,
        scan(t, depth, i, alpha, beta, maximizing, color, w, best, first).leaves == scan(
            t,
            depth,
            i,
            alpha,
            beta,
            maximizing,
            color,
            w,
            best,
            second,
        ).leaves,
    decreases depth, 0nat, t.moves().len() - i,
{
    if i < t.moves().len() {
        let m = t.moves()[i as int];
        assert(t.moves().contains(m));
        let next = t.child(m);
        assert(ok(next) && deep(next.key()) == deep(t.key()) + 1);
        assert(!first.contains_key(t.key()));
        assert(!second.contains_key(t.key()));
        let below = (depth - 1) as nat;
        lemma_search_ignores_cache(
            next,
            below,
            alpha,
            beta,
            !maximizing,
            color,
            w,
            first,
            second,
            ok,
            deep,
            limit,
        );
        lemma_search_keeps_level(next, below, alpha, beta, !maximizing, color, w, first, ok, deep, limit);
        lemma_search_keeps_level(
            next,
            below,
            alpha,
            beta,
            !maximizing,
            color,
            w,
            second,
            ok,
            deep,
            limit,
        );
        let one = search(next, below, alpha, beta, !maximizing, color, w, first);
        let two = search(next, below, alpha, beta, !maximizing, color, w, second);
        let best1 = better(maximizing, best, one.value);
        let alpha1 = if maximizing {
            higher(alpha, best1)
        } else {
            alpha
        };
        let beta1 = if maximizing {
            beta
        } else {
            lower(beta, best1)
        };
        if beta1 > alpha1 {
            lemma_scan_ignores_cache(
                t,
                depth,
                i + 1,
                alpha1,
                beta1,
                maximizing,
                color,
                w,
                best1,
                one.cache,
                two.cache,
                ok,
                deep,
                limit,
            );
        }
    }
}

/// The score of the `j`-th move of `t` by a search of that move alone, with
/// an empty cache.
pub open spec fn lone_score<T: Searchable>(t: T, depth: nat, w: Seq<i32>, j: int) -> int {
    search(
        t.child(t.moves()[j]),
        depth,
        WINDOW_LOW as int,
        WINDOW_HIGH as int,
        false,
        t.mover(),
        w,
        crate::cache::no_entries(),
    ).value
}

/// The number of positions that a search of the `j`-th move of `t` alone
/// scores.
pub open spec fn lone_leaves<T: Searchable>(t: T, depth: nat, w: Seq<i32>, j: int) -> nat {
    search(
        t.child(t.moves()[j]),
        depth,
        WINDOW_LOW as int,
        WINDOW_HIGH as int,
        false,
        t.mover(),
        w,
        crate::cache::no_entries(),
    ).leaves
}

/// The number of positions that searches of the first `n` moves of `t`, each
/// alone, score in all.
pub open spec fn lone_total<T: Searchable>(t: T, depth: nat, w: Seq<i32>, n: nat) -> nat
    decreases n,
{
    if n == 0 {
        0
    } else {
        lone_total(t, depth, w, (n - 1) as nat) + lone_leaves(t, depth, w, n - 1)
    }
}

/// Where the cache cannot answer for a position that is still to be
/// searched, the order in which the legal moves are searched does not
/// matter: the score of each move is the score that a search of that move
/// alone would give it, and the number of positions scored is the sum of
/// what those searches would score. Searching the moves one after the other
/// and searching them side by side therefore come to the same.
pub proof fn lemma_root_scores_stand_alone<T: Searchable>(
    t: T,
    depth: nat,
    w: Seq<i32>,
    n: nat,
    j: int,
    ok: spec_fn(T) -> bool,
    deep: spec_fn(Seq<char>) -> int,
    limit: int,
)
    requires
        levelled(ok, deep, limit),
        ok(t),
        deep(t.key()) + 1 + depth == limit,
        0 <= j < n <= t.moves().len(),
    ensures
        root_search(t, depth, w, n).values[j] == lone_score(t, depth, w, j),
        root_search(t, depth, w, n).leaves == lone_total(t, depth, w, n),
    decreases n,
{
    let before = root_search(t, depth, w, (n - 1) as nat);
    lemma_root_keeps_level(t, depth, w, (n - 1) as nat, ok, deep, limit);
    if n > 1 {
        let i = if j < n - 1 {
            j
        } else {
            0
        };
        lemma_root_scores_stand_alone(t, depth, w, (n - 1) as nat, i, ok, deep, limit);
    }
    let m = t.moves()[n - 1];
    assert(t.moves().contains(m));
    assert(ok(t.child(m)) && deep(t.child(m).key()) == deep(t.key()) + 1);
    assert(all_at(crate::cache::no_entries(), deep, limit));
    lemma_search_ignores_cache(
        t.child(m),
        depth,
        WINDOW_LOW as int,
        WINDOW_HIGH as int,
        false,
        t.mover(),
        w,
        before.cache,
        crate::cache::no_entries(),
        ok,
        deep,
        limit,
    );
    if j < n - 1 {
        assert(root_search(t, depth, w, n).values[j] == before.values[j]);
    }
    let here = search(
        t.child(m),
        depth,
        WINDOW_LOW as int,
        WINDOW_HIGH as int,
        false,
        t.mover(),
        w,
        before.cache,
    );
    assert(root_search(t, depth, w, n).leaves == before.leaves + here.leaves);
    assert(here.leaves == lone_leaves(t, depth, w, n - 1));
    assert(before.leaves == lone_total(t, depth, w, (n - 1) as nat));
    assert(lone_total(t, depth, w, n) == lone_total(t, depth, w, (n - 1) as nat) + lone_leaves(
        t,
        depth,
        w,
        n - 1,
    ));
}

/// Whether the score `r` of a search inside the window from `a` to `b` is a
/// fail-soft bound on the true score `m`: `r` is `m` where `r` lies inside
/// the window, a score at or below the window is not below `m`, and a score
/// at or above the window is not above `m`.
pub open spec fn soft(r: int, m: int, a: int, b: int) -> bool {
    &&& r <= a ==> m <= r
    &&& r >= b ==> m >= r
    &&& a < r < b ==> r == m
}

/// Where the cache answers for no position that is searched further, the
/// score of a search is a fail-soft bound on the full-width score: it is the
/// full-width score where it lies inside the window, it is not below the
/// full-width score where it lies at or below the window, and it is not
/// above the full-width score where it lies at or above the window.
pub proof fn lemma_search_soft<T: Searchable>(
    t: T,
    depth: nat,
    alpha: int,
    beta: int,
    maximizing: bool,
    color: Color,
    w: Seq<i32>,
    cache: Map<Seq<char>, i64>,
)
    requires
        !answered(t, depth, alpha, beta, maximizing, color, w, cache),
        alpha < beta,
    ensures
        soft(
            search(t, depth, alpha, beta, maximizing, color, w, cache).value,
            full_width(t, depth, maximizing, color, w),
            alpha,
            beta,
        ),
    decreases depth, 1nat, 0nat,
{
    lemma_search_sound(t, depth, alpha, beta, maximizing, color, w, cache);
    if depth > 0 {
        let start = worst(maximizing);
        lemma_scan_soft(t, depth, 0, alpha, beta, maximizing, color, w, start, cache, start);
    }
}

/// Where the cache answers for no position that is searched further, the
/// score of a scan bounds the full-width scan that starts with `x`: from
/// below where the scan ends at or above the window, from above where it
/// ends at or below it.
pub proof fn lemma_scan_soft<T: Searchable>(
    t: T,
    depth: nat,
    i: nat,
    alpha: int,
    beta: int,
    maximizing: bool,
    color: Color,
    w: Seq<i32>,
    best: int,
    cache: Map<Seq<char>, i64>,
    x: int,
)
    requires
        depth > 0,
        !scan_answered(t, depth, i, alpha, beta, maximizing, color, w, best, cache),
        alpha < beta,
    ensures
        maximizing && (x >= best || best < beta) && scan(
            t,
            depth,
            i,
            alpha,
            beta,
            maximizing,
            color,
            w,
            best,
            cache,
        ).value >= beta ==> full_scan(t, depth, i, maximizing, color, w, x) >= scan(
            t,
            depth,
            i,
            alpha,
            beta,
            maximizing,
            color,
            w,
            best,
            cache,
        ).value,
        maximizing && x <= best && scan(
            t,
            depth,
            i,
            alpha,
            beta,
            maximizing,
            color,
            w,
            best,
            cache,
        ).value <= alpha ==> full_scan(t, depth, i, maximizing, color, w, x) <= scan(
            t,
            depth,
            i,
            alpha,
            beta,
            maximizing,
            color,
            w,
            best,
            cache,
        ).value,
        !maximizing && (x <= best || best > alpha) && scan(
            t,
            depth,
            i,
            alpha,
            beta,
            maximizing,
            color,
            w,
            best,
            cache,
        ).value <= alpha ==> full_scan(t, depth, i, maximizing, color, w, x) <= scan(
            t,
            depth,
            i,
            alpha,
            beta,
            maximizing,
            color,
            w,
            best,
            cache,
        ).value,
        !maximizing && x >= best && scan(
            t,
            depth,
            i,
            alpha,
            beta,
            maximizing,
            color,
            w,
            best,
            cache,
        ).value >= beta ==> full_scan(t, depth, i, maximizing, color, w, x) >= scan(
            t,
            depth,
            i,
            alpha,
            beta,
            maximizing,
            color,
            w,
            best,
            cache,
        ).value,
    decreases depth, 0nat, t.moves().len() - i,
{
    if i < t.moves().len() {
        let next = t.child(t.moves()[i as int]);
        assert(!cache.contains_key(t.key()));
        let below = (depth - 1) as nat;
        lemma_search_soft(next, below, alpha, beta, !maximizing, color, w, cache);
        let sub = search(next, below, alpha, beta, !maximizing, color, w, cache);
        let r = sub.value;
        let v = full_width(next, below, !maximizing, color, w);
        assert(soft(r, v, alpha, beta));
        let best1 = better(maximizing, best, r);
        let x1 = better(maximizing, x, v);
        let total = full_scan(t, depth, i, maximizing, color, w, x);
        assert(total == full_scan(t, depth, i + 1, maximizing, color, w, x1));
        let here = scan(t, depth, i, alpha, beta, maximizing, color, w, best, cache).value;
        if maximizing {
            let alpha1 = higher(alpha, best1);
            lemma_full_scan_max(t, depth, i + 1, color, w, x1, x1, x1);
            if beta <= alpha1 {
                assert(here == best1);
            } else {
                lemma_scan_soft(
                    t,
                    depth,
                    i + 1,
                    alpha1,
                    beta,
                    maximizing,
                    color,
                    w,
                    best1,
                    sub.cache,
                    x1,
                );
                lemma_scan_keeps_best(
                    t,
                    depth,
                    i + 1,
                    alpha1,
                    beta,
                    maximizing,
                    color,
                    w,
                    best1,
                    sub.cache,
                );
                assert(here == scan(
                    t,
                    depth,
                    i + 1,
                    alpha1,
                    beta,
                    maximizing,
                    color,
                    w,
                    best1,
                    sub.cache,
                ).value);
            }
        } else {
            let beta1 = lower(beta, best1);
            lemma_full_scan_min(t, depth, i + 1, color, w, x1, x1, x1);
            if beta1 <= alpha {
                assert(here == best1);
            } else {
                lemma_scan_soft(
                    t,
                    depth,
                    i + 1,
                    alpha,
                    beta1,
                    maximizing,
                    color,
                    w,
                    best1,
                    sub.cache,
                    x1,
                );
                lemma_scan_keeps_best(
                    t,
                    depth,
                    i + 1,
                    alpha,
                    beta1,
                    maximizing,
                    color,
                    w,
                    best1,
                    sub.cache,
                );
                assert(here == scan(
                    t,
                    depth,
                    i + 1,
                    alpha,
                    beta1,
                    maximizing,
                    color,
                    w,
                    best1,
                    sub.cache,
                ).value);
            }
        }
    }
}

/// Whether every position that a search of `t` to the given depth scores
/// has a score for `color` under the weights `w` that lies within `bound`, in
/// either direction.
pub open spec fn leaves_fit<T: Searchable>(
    t: T,
    depth: nat,
    color: Color,
    w: Seq<i32>,
    bound: int,
) -> bool
    decreases depth,
{
    if depth == 0 {
        -bound <= evaluation(t, color, w) <= bound
    } else {
        forall|i: int|
            0 <= i < t.moves().len() ==> leaves_fit(
                #[trigger] t.child(t.moves()[i]),
                (depth - 1) as nat,
                color,
                w,
                bound,
            )
    }
}

/// Where the scores of the positions that a search scores lie within a
/// bound that is at least the score of a position without moves, the
/// full-width score lies within the bound.
pub proof fn lemma_full_width_fits<T: Searchable>(
    t: T,
    depth: nat,
    maximizing: bool,
    color: Color,
    w: Seq<i32>,
    bound: int,
)
    requires
        leaves_fit(t, depth, color, w, bound),
        bound >= WORST_FOR_MIN,
    ensures
        -bound <= full_width(t, depth, maximizing, color, w) <= bound,
    decreases depth, 1nat, 0nat,
{
    if depth > 0 {
        lemma_full_scan_fits(t, depth, 0, maximizing, color, w, worst(maximizing), bound);
    }
}

/// Where the scores of the positions that a search scores lie within a
/// bound, the full-width scan stays within the bound if it starts within it.
pub proof fn lemma_full_scan_fits<T: Searchable>(
    t: T,
    depth: nat,
    i: nat,
    maximizing: bool,
    color: Color,
    w: Seq<i32>,
    best: int,
    bound: int,
)
    requires
        depth > 0,
        leaves_fit(t, depth, color, w, bound),
        bound >= WORST_FOR_MIN,
        -bound <= best <= bound,
    ensures
        -bound <= full_scan(t, depth, i, maximizing, color, w, best) <= bound,
    decreases depth, 0nat, t.moves().len() - i,
{
    if i < t.moves().len() {
        let next = t.child(t.moves()[i as int]);
        assert(leaves_fit(next, (depth - 1) as nat, color, w, bound));
        lemma_full_width_fits(next, (depth - 1) as nat, !maximizing, color, w, bound);
        let v = full_width(next, (depth - 1) as nat, !maximizing, color, w);
        lemma_full_scan_fits(
            t,
            depth,
            i + 1,
            maximizing,
            color,
            w,
            better(maximizing, best, v),
            bound,
        );
    }
}

/// Pruning does not change the score: a search with the starting window
/// returns the score of the unpruned full-width search to the same depth,
/// where the cache answers for no position that is searched further and the
/// score of every position that is scored lies inside the window, no further
/// out than the score of a position without moves.
pub proof fn lemma_pruned_search_is_full_width<T: Searchable>(
    t: T,
    depth: nat,
    maximizing: bool,
    color: Color,
    w: Seq<i32>,
    cache: Map<Seq<char>, i64>,
)
    requires
        !answered(
            t,
            depth,
            WINDOW_LOW as int,
            WINDOW_HIGH as int,
            maximizing,
            color,
            w,
            cache,
        ),
        leaves_fit(t, depth, color, w, WORST_FOR_MIN as int),
    ensures
        search(
            t,
            depth,
            WINDOW_LOW as int,
            WINDOW_HIGH as int,
            maximizing,
            color,
            w,
            cache,
        ).value == full_width(t, depth, maximizing, color, w),
{
    lemma_full_width_fits(t, depth, maximizing, color, w, WORST_FOR_MIN as int);
    lemma_search_sound(
        t,
        depth,
        WINDOW_LOW as int,
        WINDOW_HIGH as int,
        maximizing,
        color,
        w,
        cache,
    );
}

} // verus!
