//! What holds of the rules: the list of legal moves holds exactly the legal
//! moves, none of them leaves the mover in check, and each of them can be
//! played.

use crate::board::BoardView;
use crate::color::Color;
use crate::moves::Move;
use crate::piece::{Piece, PieceKind};
use crate::position::Position;
use crate::rules::{promotion_kind, square};
use vstd::prelude::*;

verus! {

/// A value occurs in a concatenation exactly if it occurs in one of the two
/// parts.
pub proof fn lemma_concat_contains<A>(a: Seq<A>, b: Seq<A>, x: A)
    ensures
        (a + b).contains(x) <==> (a.contains(x) || b.contains(x)),
{
    if (a + b).contains(x) {
        let i = choose|i: int| 0 <= i < (a + b).len() && (a + b)[i] == x;
        if i < a.len() {
            assert(a[i] == x);
        } else {
            assert(b[i - a.len()] == x);
        }
    }
    if a.contains(x) {
        let i = choose|i: int| 0 <= i < a.len() && a[i] == x;
        assert((a + b)[i] == x);
    }
    if b.contains(x) {
        let i = choose|i: int| 0 <= i < b.len() && b[i] == x;
        assert((a + b)[a.len() + i] == x);
    }
}

/// `keep` holds the move exactly if it is legal, and no other move.
pub proof fn lemma_keep(v: BoardView, m: Move, color: Color, x: Move)
    ensures
        v.keep(m, color).contains(x) <==> (x == m && v.legal(m, color)),
        v.keep(m, color).len() <= 1,
{
    if v.legal(m, color) {
        assert(v.keep(m, color)[0] == m);
    }
}

/// The promotions listed from one square to another are the legal ones to
/// the first `n` kinds.
pub proof fn lemma_promotions(v: BoardView, color: Color, from: Position, to: Position, n: int, x: Move)
    requires
        0 <= n <= 4,
    ensures
        v.promotions(color, from, to, n).contains(x) <==> (v.legal(x, color) && exists|k: int|
            0 <= k < n && x == #[trigger] promotion_to(from, to, k, color)),
        v.promotions(color, from, to, n).len() <= n,
    decreases n,
{
    if n > 0 {
        let last = promotion_to(from, to, n - 1, color);
        lemma_promotions(v, color, from, to, n - 1, x);
        lemma_keep(v, last, color, x);
        lemma_concat_contains(
            v.promotions(color, from, to, n - 1),
            v.keep(last, color),
            x,
        );
        if v.promotions(color, from, to, n).contains(x) {
            if v.keep(last, color).contains(x) {
                assert(x == promotion_to(from, to, n - 1, color));
            } else {
                let k = choose|k: int| 0 <= k < n - 1 && x == #[trigger] promotion_to(from, to, k, color);
                assert(x == promotion_to(from, to, k, color));
            }
        }
        if v.legal(x, color) && exists|k: int|
            0 <= k < n && x == #[trigger] promotion_to(from, to, k, color) {
            let k = choose|k: int| 0 <= k < n && x == #[trigger] promotion_to(from, to, k, color);
            if k < n - 1 {
                assert(x == promotion_to(from, to, k, color));
            }
        }
    }
}

/// The promotion from `from` to `to` to the `k`-th kind, for `color`.
pub open spec fn promotion_to(from: Position, to: Position, k: int, color: Color) -> Move {
    Move::Promotion(from, to, Piece { kind: promotion_kind(k), color })
}

/// Whether `m` goes from `from` to `to`.
pub open spec fn goes(m: Move, from: Position, to: Position) -> bool {
    match m {
        Move::Piece(f, t) => f == from && t == to,
        Move::Promotion(f, t, _) => f == from && t == to,
        _ => false,
    }
}

/// The moves listed from one square to another are the legal moves between
/// the two.
pub proof fn lemma_moves_between(v: BoardView, color: Color, from: Position, to: Position, x: Move)
    ensures
        v.moves_between(color, from, to).contains(x) <==> (v.legal(x, color) && goes(x, from, to)),
        v.moves_between(color, from, to).len() <= 5,
{
    let plain = Move::Piece(from, to);
    lemma_keep(v, plain, color, x);
    lemma_promotions(v, color, from, to, 4, x);
    lemma_concat_contains(v.keep(plain, color), v.promotions(color, from, to, 4), x);
    if v.legal(x, color) && goes(x, from, to) {
        match x {
            Move::Promotion(f, t, piece) => {
                let k: int = if piece.kind == PieceKind::Queen {
                    0
                } else if piece.kind == PieceKind::Rook {
                    1
                } else if piece.kind == PieceKind::Bishop {
                    2
                } else {
                    3
                };
                assert(x == promotion_to(from, to, k, color));
            },
            _ => {},
        }
    }
    if v.promotions(color, from, to, 4).contains(x) {
        let k = choose|k: int| 0 <= k < 4 && x == #[trigger] promotion_to(from, to, k, color);
        assert(goes(x, from, to));
    }
}

/// The moves listed from one square to the first `n` squares are the legal
/// moves to those squares.
pub proof fn lemma_moves_from(v: BoardView, color: Color, from: int, n: int, x: Move)
    requires
        0 <= n <= 64,
    ensures
        v.moves_from(color, from, n).contains(x) <==> (v.legal(x, color) && exists|t: int|
            0 <= t < n && #[trigger] goes(x, square(from), square(t))),
        v.moves_from(color, from, n).len() <= 5 * n,
    decreases n,
{
    if n > 0 {
        lemma_moves_from(v, color, from, n - 1, x);
        lemma_moves_between(v, color, square(from), square(n - 1), x);
        lemma_concat_contains(
            v.moves_from(color, from, n - 1),
            v.moves_between(color, square(from), square(n - 1)),
            x,
        );
        if v.moves_from(color, from, n).contains(x) {
            if v.moves_between(color, square(from), square(n - 1)).contains(x) {
                assert(goes(x, square(from), square(n - 1)));
            } else {
                let t = choose|t: int| 0 <= t < n - 1 && #[trigger] goes(x, square(from), square(t));
                assert(goes(x, square(from), square(t)));
            }
        }
        if v.legal(x, color) && exists|t: int|
            0 <= t < n && #[trigger] goes(x, square(from), square(t)) {
            let t = choose|t: int| 0 <= t < n && #[trigger] goes(x, square(from), square(t));
            if t < n - 1 {
                assert(goes(x, square(from), square(t)));
            }
        }
    }
}

/// Whether `m` starts from the square `from`.
pub open spec fn starts(m: Move, from: Position) -> bool {
    match m {
        Move::Piece(f, _) => f == from,
        Move::Promotion(f, _, _) => f == from,
        _ => false,
    }
}

/// The target of a legal move from square to square is one of the
/// sixty-four squares.
pub proof fn lemma_target_on_board(v: BoardView, color: Color, x: Move, from: Position)
    requires
        v.legal(x, color),
        starts(x, from),
    ensures
        exists|t: int| 0 <= t < 64 && #[trigger] goes(x, from, square(t)),
        from.on_board(),
{
    let to = match x {
        Move::Piece(_, t) => t,
        Move::Promotion(_, t, _) => t,
        _ => from,
    };
    let t = to.row() * 8 + to.col();
    Position::lemma_at_self(to);
    assert(square(t) == to);
    assert(goes(x, from, square(t)));
}

/// The moves listed from the first `n` squares are the legal moves that
/// start from those squares.
pub proof fn lemma_moves_upto(v: BoardView, color: Color, n: int, x: Move)
    requires
        0 <= n <= 64,
    ensures
        v.moves_upto(color, n).contains(x) <==> (v.legal(x, color) && exists|f: int|
            0 <= f < n && #[trigger] starts(x, square(f))),
        v.moves_upto(color, n).len() <= 320 * n,
    decreases n,
{
    if n > 0 {
        lemma_moves_upto(v, color, n - 1, x);
        lemma_moves_from(v, color, n - 1, 64, x);
        lemma_concat_contains(v.moves_upto(color, n - 1), v.moves_from(color, n - 1, 64), x);
        if v.moves_upto(color, n).contains(x) {
            if v.moves_from(color, n - 1, 64).contains(x) {
                assert(starts(x, square(n - 1)));
            } else {
                let f = choose|f: int| 0 <= f < n - 1 && #[trigger] starts(x, square(f));
                assert(starts(x, square(f)));
            }
        }
        if v.legal(x, color) && exists|f: int| 0 <= f < n && #[trigger] starts(x, square(f)) {
            let f = choose|f: int| 0 <= f < n && #[trigger] starts(x, square(f));
            if f < n - 1 {
                assert(starts(x, square(f)));
            } else {
                lemma_target_on_board(v, color, x, square(n - 1));
            }
        }
    }
}

/// The list of legal moves holds exactly the legal moves.
pub proof fn lemma_legal_moves_exact(v: BoardView, color: Color, m: Move)
    ensures
        v.legal_moves(color).contains(m) <==> v.legal(m, color),
{
    let castles = v.keep(Move::KingSideCastle, color) + v.keep(Move::QueenSideCastle, color);
    lemma_keep(v, Move::KingSideCastle, color, m);
    lemma_keep(v, Move::QueenSideCastle, color, m);
    lemma_concat_contains(
        v.keep(Move::KingSideCastle, color),
        v.keep(Move::QueenSideCastle, color),
        m,
    );
    lemma_moves_upto(v, color, 64, m);
    lemma_concat_contains(castles, v.moves_upto(color, 64), m);
    if v.legal(m, color) {
        match m {
            Move::Piece(from, _) => {
                Position::lemma_at_self(from);
                assert(starts(m, square(from.row() * 8 + from.col())));
            },
            Move::Promotion(from, _, _) => {
                Position::lemma_at_self(from);
                assert(starts(m, square(from.row() * 8 + from.col())));
            },
            _ => {},
        }
    }
}

/// A board has at most 20482 legal moves.
pub proof fn lemma_legal_moves_bounded(v: BoardView, color: Color)
    ensures
        v.legal_moves(color).len() <= 20482,
{
    lemma_keep(v, Move::KingSideCastle, color, Move::Resign);
    lemma_keep(v, Move::QueenSideCastle, color, Move::Resign);
    lemma_moves_upto(v, color, 64, Move::Resign);
}

/// No legal move leaves the king of the side that makes it in check: for
/// every move `m` in the list of legal moves of `color`, `color` is not in
/// check on the board after `m`.
pub proof fn lemma_legal_moves_keep_king_safe(v: BoardView, color: Color, m: Move)
    requires
        v.legal_moves(color).contains(m),
    ensures
        !v.apply(m, color).in_check(color),
{
    lemma_legal_moves_exact(v, color, m);
}

/// Every move in the list of legal moves of the side to move can be played:
/// what comes of it is that the game goes on, is won or is drawn, never that
/// the move is handed back as illegal.
pub proof fn lemma_listed_move_is_played(v: BoardView, m: Move)
    requires
        v.legal_moves(v.turn).contains(m),
    ensures
        !(v.outcome(m) is IllegalMove),
        v.outcome(m) is Continuing || v.outcome(m) is Victory || v.outcome(m) is Stalemate,
{
    lemma_legal_moves_exact(v, v.turn, m);
}

/// A concatenation holds nothing twice if neither part does and the parts
/// share nothing.
pub proof fn lemma_concat_no_duplicates<A>(a: Seq<A>, b: Seq<A>)
    requires
        a.no_duplicates(),
        b.no_duplicates(),
        forall|x: A| !(a.contains(x) && b.contains(x)),
    ensures
        (a + b).no_duplicates(),
{
    let s = a + b;
    assert forall|i: int, j: int| 0 <= i < s.len() && 0 <= j < s.len() && i != j implies s[i]
        != s[j] by {
        if i < a.len() && j >= a.len() {
            assert(a.contains(a[i]));
            assert(b.contains(b[j - a.len()]));
        } else if j < a.len() && i >= a.len() {
            assert(a.contains(a[j]));
            assert(b.contains(b[i - a.len()]));
        }
    }
}

/// Different numbers name different squares.
pub proof fn lemma_square_injective(i: int, j: int)
    requires
        0 <= i < 64,
        0 <= j < 64,
        square(i) == square(j),
    ensures
        i == j,
{
    Position::lemma_at(i / 8, i % 8);
    Position::lemma_at(j / 8, j % 8);
}

/// No promotion is listed twice.
pub proof fn lemma_promotions_once(v: BoardView, color: Color, from: Position, to: Position, n: int)
    requires
        0 <= n <= 4,
    ensures
        v.promotions(color, from, to, n).no_duplicates(),
    decreases n,
{
    if n > 0 {
        let last = promotion_to(from, to, n - 1, color);
        let before = v.promotions(color, from, to, n - 1);
        lemma_promotions_once(v, color, from, to, n - 1);
        assert forall|x: Move| !(before.contains(x) && v.keep(last, color).contains(x)) by {
            lemma_promotions(v, color, from, to, n - 1, x);
            lemma_keep(v, last, color, x);
            if before.contains(x) {
                let k = choose|k: int| 0 <= k < n - 1 && x == #[trigger] promotion_to(from, to, k, color);
                assert(promotion_kind(k) != promotion_kind(n - 1));
            }
        }
        lemma_concat_no_duplicates(before, v.keep(last, color));
    }
}

/// No move between two squares is listed twice.
pub proof fn lemma_moves_between_once(v: BoardView, color: Color, from: Position, to: Position)
    ensures
        v.moves_between(color, from, to).no_duplicates(),
{
    let plain = Move::Piece(from, to);
    lemma_promotions_once(v, color, from, to, 4);
    assert forall|x: Move|
        !(v.keep(plain, color).contains(x) && v.promotions(color, from, to, 4).contains(x)) by {
        lemma_keep(v, plain, color, x);
        lemma_promotions(v, color, from, to, 4, x);
        if v.promotions(color, from, to, 4).contains(x) {
            let k = choose|k: int| 0 <= k < 4 && x == #[trigger] promotion_to(from, to, k, color);
            assert(x != plain);
        }
    }
    lemma_concat_no_duplicates(v.keep(plain, color), v.promotions(color, from, to, 4));
}

/// No move from a square is listed twice.
pub proof fn lemma_moves_from_once(v: BoardView, color: Color, from: int, n: int)
    requires
        0 <= n <= 64,
    ensures
        v.moves_from(color, from, n).no_duplicates(),
    decreases n,
{
    if n > 0 {
        let before = v.moves_from(color, from, n - 1);
        let last = v.moves_between(color, square(from), square(n - 1));
        lemma_moves_from_once(v, color, from, n - 1);
        lemma_moves_between_once(v, color, square(from), square(n - 1));
        assert forall|x: Move| !(before.contains(x) && last.contains(x)) by {
            lemma_moves_from(v, color, from, n - 1, x);
            lemma_moves_between(v, color, square(from), square(n - 1), x);
            if before.contains(x) && last.contains(x) {
                let t = choose|t: int| 0 <= t < n - 1 && #[trigger] goes(x, square(from), square(t));
                lemma_square_injective(t, n - 1);
            }
        }
        lemma_concat_no_duplicates(before, last);
    }
}

/// No move from square to square is listed twice.
pub proof fn lemma_moves_upto_once(v: BoardView, color: Color, n: int)
    requires
        0 <= n <= 64,
    ensures
        v.moves_upto(color, n).no_duplicates(),
    decreases n,
{
    if n > 0 {
        let before = v.moves_upto(color, n - 1);
        let last = v.moves_from(color, n - 1, 64);
        lemma_moves_upto_once(v, color, n - 1);
        lemma_moves_from_once(v, color, n - 1, 64);
        assert forall|x: Move| !(before.contains(x) && last.contains(x)) by {
            lemma_moves_upto(v, color, n - 1, x);
            lemma_moves_from(v, color, n - 1, 64, x);
            if before.contains(x) && last.contains(x) {
                let f = choose|f: int| 0 <= f < n - 1 && #[trigger] starts(x, square(f));
                let t = choose|t: int| 0 <= t < 64 && #[trigger] goes(x, square(n - 1), square(t));
                lemma_square_injective(f, n - 1);
            }
        }
        lemma_concat_no_duplicates(before, last);
    }
}

/// The list of legal moves holds no move twice.
pub proof fn lemma_legal_moves_once(v: BoardView, color: Color)
    ensures
        v.legal_moves(color).no_duplicates(),
{
    let short = v.keep(Move::KingSideCastle, color);
    let long = v.keep(Move::QueenSideCastle, color);
    let steps = v.moves_upto(color, 64);
    lemma_moves_upto_once(v, color, 64);
    assert forall|x: Move| !(short.contains(x) && long.contains(x)) by {
        lemma_keep(v, Move::KingSideCastle, color, x);
        lemma_keep(v, Move::QueenSideCastle, color, x);
    }
    lemma_concat_no_duplicates(short, long);
    assert forall|x: Move| !((short + long).contains(x) && steps.contains(x)) by {
        lemma_keep(v, Move::KingSideCastle, color, x);
        lemma_keep(v, Move::QueenSideCastle, color, x);
        lemma_concat_contains(short, long, x);
        lemma_moves_upto(v, color, 64, x);
        if steps.contains(x) {
            let f = choose|f: int| 0 <= f < 64 && #[trigger] starts(x, square(f));
            assert(starts(x, square(f)));
        }
    }
    lemma_concat_no_duplicates(short + long, steps);
}

/// Whether `m` takes a pawn of `color` two squares ahead from its starting
/// row on the board `v`.
pub open spec fn double_step(v: BoardView, m: Move, color: Color) -> bool {
    m matches Move::Piece(from, to) && v.at(from.row(), from.col()) == Some(
        Piece { kind: PieceKind::Pawn, color },
    ) && from.row() == color.pawn_row() && to.col() == from.col() && to.row() == from.row() + 2
        * color.forward()
}

/// The en-passant target lasts for one move: after a move there is a target
/// exactly if the move took a pawn two squares ahead, and the target is then
/// the square that the pawn passed over.
pub proof fn lemma_en_passant_follows_double_step(v: BoardView, m: Move, color: Color)
    requires
        v.wf(),
        v.pseudo_legal(m, color),
    ensures
        v.apply(m, color).en_passant is Some <==> double_step(v, m, color),
        double_step(v, m, color) ==> (m matches Move::Piece(from, _) && v.apply(
            m,
            color,
        ).en_passant == Some(Position::at(from.row() + color.forward(), from.col()))),
{
}

/// A pawn takes en passant only onto the en-passant target: a legal move of
/// a pawn to an empty square of another column goes to the target, and the
/// pawn that is passed disappears.
pub proof fn lemma_en_passant_needs_target(v: BoardView, from: Position, to: Position, color: Color)
    requires
        v.wf(),
        v.pseudo_legal(Move::Piece(from, to), color),
        v.at(from.row(), from.col()) == Some(Piece { kind: PieceKind::Pawn, color }),
        to.col() != from.col(),
        v.at(to.row(), to.col()) is None,
    ensures
        v.en_passant matches Some(e) && e.row() == to.row() && e.col() == to.col(),
        v.apply(Move::Piece(from, to), color).at(from.row(), to.col()) is None,
        v.apply(Move::Piece(from, to), color).at(to.row(), to.col()) == Some(
            Piece { kind: PieceKind::Pawn, color },
        ),
{
}

/// A right to castle that is lost stays lost: no move gives a side a right
/// that it did not have.
pub proof fn lemma_castling_rights_only_shrink(
    v: BoardView,
    m: Move,
    color: Color,
    side: Color,
    kingside: bool,
)
    ensures
        v.apply(m, color).castling.allows(side, kingside) ==> v.castling.allows(side, kingside),
        (m == Move::KingSideCastle || m == Move::QueenSideCastle) ==> !v.apply(
            m,
            color,
        ).castling.allows(color, kingside),
{
}

/// After a move the other side is to move, and the board stays well formed.
pub proof fn lemma_turn_passes(v: BoardView, m: Move, color: Color)
    requires
        v.wf(),
        v.pseudo_legal(m, color),
    ensures
        v.apply(m, color).turn == color.other(),
        v.apply(m, color).wf(),
{
}

} // verus!
