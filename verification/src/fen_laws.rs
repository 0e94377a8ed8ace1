//! Reading the Forsyth-Edwards text of a board gives the board back.

use crate::board::{Board, BoardView, CastlingRights};
use crate::fen::{
    castling_text, digit_of, en_passant_text, flag_text, parse_fen, piece_char, reads_as,
    piece_of_char, read_castling, read_counters, read_digits, read_en_passant, read_fields,
    read_flag, read_number, read_rank, read_ranks, run_of, run_text, turn_char, turn_of,
};
use crate::piece::{Piece, PieceKind};
use crate::position::{on_grid, Position};
use crate::text::{decimal_text, digit_char};
use vstd::prelude::*;

verus! {

/// Whether `acc` holds what `v` holds on the rows above `row` and on the
/// first `col` squares of `row`, and nothing on the other squares.
pub open spec fn filled(acc: BoardView, v: BoardView, row: int, col: int) -> bool {
    &&& acc.squares.len() == 64
    &&& forall|r: int, c: int|
        on_grid(r, c) ==> #[trigger] acc.at(r, c) == if r > row || (r == row && c < col) {
            v.at(r, c)
        } else {
            None
        }
}

/// Whether the text of a row ends at `pos` in `s`: the text ends there, or
/// the character there is neither a piece letter nor a run digit.
pub open spec fn ends_row(s: Seq<char>, pos: int) -> bool {
    pos >= s.len() || (piece_of_char(s[pos]) is None && run_of(s[pos]) is None)
}

/// Whether `t` stands at `pos` in `s`.
pub open spec fn stands_at(s: Seq<char>, pos: int, t: Seq<char>) -> bool {
    0 <= pos && pos + t.len() <= s.len() && s.subrange(pos, pos + t.len()) == t
}

/// A text that stands at a place holds its characters there.
pub proof fn lemma_stands_at(s: Seq<char>, pos: int, t: Seq<char>, k: int)
    requires
        stands_at(s, pos, t),
        0 <= k < t.len(),
    ensures
        s[pos + k] == t[k],
{
    assert(s.subrange(pos, pos + t.len())[k] == s[pos + k]);
}

/// Where a text stands, its tail stands behind its head.
pub proof fn lemma_tail_stands(s: Seq<char>, pos: int, head: Seq<char>, tail: Seq<char>)
    requires
        stands_at(s, pos, head + tail),
    ensures
        stands_at(s, pos + head.len(), tail),
        stands_at(s, pos, head),
{
    let t = head + tail;
    assert forall|k: int| 0 <= k < tail.len() implies s.subrange(
        pos + head.len(),
        pos + head.len() + tail.len(),
    )[k] == tail[k] by {
        lemma_stands_at(s, pos, t, head.len() + k);
    }
    assert(s.subrange(pos + head.len(), pos + head.len() + tail.len()) =~= tail);
    assert forall|k: int| 0 <= k < head.len() implies s.subrange(pos, pos + head.len())[k]
        == head[k] by {
        lemma_stands_at(s, pos, t, k);
    }
    assert(s.subrange(pos, pos + head.len()) =~= head);
}

/// The middle of three parts stands behind the first, and the third behind
/// the middle.
pub proof fn lemma_parts(a: Seq<char>, t: Seq<char>, b: Seq<char>)
    ensures
        stands_at(a + t + b, a.len() as int, t),
        stands_at(a + t + b, (a.len() + t.len()) as int, b),
        (a + t + b).len() == a.len() + t.len() + b.len(),
{
    let s = a + t + b;
    assert(s.subrange(a.len() as int, (a.len() + t.len()) as int) =~= t);
    assert(s.subrange((a.len() + t.len()) as int, (a.len() + t.len() + b.len()) as int) =~= b);
}

/// The letter of a piece stands for the piece, and is no run digit.
pub proof fn lemma_piece_letter(p: Piece)
    ensures
        piece_of_char(piece_char(p)) == Some(p),
        run_of(piece_char(p)) is None,
{
    match p.kind {
        PieceKind::Pawn => {},
        PieceKind::Knight => {},
        PieceKind::Bishop => {},
        PieceKind::Rook => {},
        PieceKind::Queen => {},
        PieceKind::King => {},
    }
}

/// Reading the text of the rest of a row puts the rest of the row on the
/// board.
pub proof fn lemma_read_rank(
    s: Seq<char>,
    pos: int,
    v: BoardView,
    row: int,
    col: int,
    run: int,
    acc: BoardView,
)
    requires
        v.wf(),
        0 <= row < 8,
        0 <= run <= col <= 8,
        stands_at(s, pos, v.rank_text(row, col, run)),
        ends_row(s, pos + v.rank_text(row, col, run).len()),
        filled(acc, v, row, col - run),
        forall|c: int| col - run <= c < col ==> v.at(row, c) is None,
    ensures
        read_rank(s, pos, row, col - run, acc) matches Some(r) && r.1 == pos + v.rank_text(
            row,
            col,
            run,
        ).len() && filled(r.0, v, row, 8),
    decreases 8 - col,
{
    let text = v.rank_text(row, col, run);
    if col >= 8 {
        if run > 0 {
            lemma_stands_at(s, pos, text, 0);
            assert(s[pos] == digit_char(run));
            assert(read_rank(s, pos + 1, row, 8, acc) == Some((acc, pos + 1)));
        }
    } else {
        match v.at(row, col) {
            None => {
                lemma_read_rank(s, pos, v, row, col + 1, run + 1, acc);
            },
            Some(p) => {
                let rest = v.rank_text(row, col + 1, 0);
                let head = run_text(run) + seq![piece_char(p)];
                assert(text =~= head + rest);
                lemma_tail_stands(s, pos, head, rest);
                lemma_piece_letter(p);
                let placed = acc.put(row, col, Some(p));
                assert(filled(placed, v, row, col + 1)) by {
                    assert forall|r: int, c: int| on_grid(r, c) implies #[trigger] placed.at(r, c)
                        == if r > row || (r == row && c < col + 1) {
                        v.at(r, c)
                    } else {
                        None
                    } by {
                        assert(acc.at(r, c) == if r > row || (r == row && c < col - run) {
                            v.at(r, c)
                        } else {
                            None
                        });
                    }
                }
                lemma_read_rank(s, pos + head.len(), v, row, col + 1, 0, placed);
                if run > 0 {
                    lemma_stands_at(s, pos, head, 0);
                    lemma_stands_at(s, pos, head, 1);
                    assert(s[pos] == digit_char(run));
                    assert(s[pos + 1] == piece_char(p));
                    assert(read_rank(s, pos, row, col - run, acc) == read_rank(
                        s,
                        pos + 1,
                        row,
                        col,
                        acc,
                    ));
                } else {
                    lemma_stands_at(s, pos, head, 0);
                    assert(s[pos] == piece_char(p));
                }
            },
        }
    }
}

/// Reading the text of the rows from `row` down puts those rows on the
/// board.
pub proof fn lemma_read_ranks(s: Seq<char>, pos: int, v: BoardView, row: int, acc: BoardView)
    requires
        v.wf(),
        0 <= row < 8,
        stands_at(s, pos, v.ranks_text(row)),
        ends_row(s, pos + v.ranks_text(row).len()),
        filled(acc, v, row, 0),
    ensures
        read_ranks(s, pos, row, acc) matches Some(r) && r.1 == pos + v.ranks_text(row).len()
            && filled(r.0, v, 0, 8),
    decreases row,
{
    let rank = v.rank_text(row, 0, 0);
    if row == 0 {
        lemma_read_rank(s, pos, v, 0, 0, 0, acc);
    } else {
        let below = v.ranks_text(row - 1);
        let tail = seq!['/'] + below;
        assert(v.ranks_text(row) =~= rank + tail);
        lemma_tail_stands(s, pos, rank, tail);
        lemma_tail_stands(s, pos + rank.len(), seq!['/'], below);
        lemma_stands_at(s, pos + rank.len(), seq!['/'], 0);
        lemma_read_rank(s, pos, v, row, 0, 0, acc);
        let r = read_rank(s, pos, row, 0, acc)->0;
        assert(filled(r.0, v, row - 1, 0));
        lemma_read_ranks(s, pos + rank.len() + 1, v, row - 1, r.0);
    }
}

/// Reading the text of castling rights gives the rights.
pub proof fn lemma_read_castling(s: Seq<char>, pos: int, rights: CastlingRights)
    requires
        stands_at(s, pos, castling_text(rights)),
        pos + castling_text(rights).len() < s.len(),
        s[pos + castling_text(rights).len()] == ' ',
    ensures
        read_castling(s, pos) == Some((rights, pos + castling_text(rights).len())),
{
    let text = castling_text(rights);
    if rights == CastlingRights::none() {
        lemma_stands_at(s, pos, text, 0);
    } else {
        let a = flag_text(rights.white_kingside, 'K');
        let b = flag_text(rights.white_queenside, 'Q');
        let c = flag_text(rights.black_kingside, 'k');
        let d = flag_text(rights.black_queenside, 'q');
        assert(text == a + b + c + d);
        assert(text.len() == a.len() + b.len() + c.len() + d.len());
        assert forall|k: int| 0 <= k < text.len() implies s[pos + k] == text[k] by {
            lemma_stands_at(s, pos, text, k);
        }
        let past_wk = read_flag(s, pos, 'K');
        assert(past_wk == pos + a.len()) by {
            if rights.white_kingside {
                assert(text[0] == 'K');
            } else if text.len() > 0 {
                assert(text[0] == 'Q' || text[0] == 'k' || text[0] == 'q');
            }
        }
        let past_wq = read_flag(s, past_wk, 'Q');
        assert(past_wq == past_wk + b.len()) by {
            if rights.white_queenside {
                assert(text[a.len() as int] == 'Q');
            } else if text.len() > a.len() {
                assert(text[a.len() as int] == 'k' || text[a.len() as int] == 'q');
            }
        }
        let past_bk = read_flag(s, past_wq, 'k');
        assert(past_bk == past_wq + c.len()) by {
            if rights.black_kingside {
                assert(text[(a.len() + b.len()) as int] == 'k');
            } else if text.len() > a.len() + b.len() {
                assert(text[(a.len() + b.len()) as int] == 'q');
            }
        }
        let past_bq = read_flag(s, past_bk, 'q');
        assert(past_bq == past_bk + d.len()) by {
            if rights.black_queenside {
                assert(text[(a.len() + b.len() + c.len()) as int] == 'q');
            }
        }
        assert(text.len() > 0);
        assert(s[pos] != '-') by {
            assert(text[0] == 'K' || text[0] == 'Q' || text[0] == 'k' || text[0] == 'q');
        }
    }
}

/// Reading the text of an en-passant target gives the target.
pub proof fn lemma_read_en_passant(s: Seq<char>, pos: int, target: Option<Position>)
    requires
        stands_at(s, pos, en_passant_text(target)),
        target matches Some(p) ==> p.on_board(),
    ensures
        read_en_passant(s, pos) == Some((target, pos + en_passant_text(target).len())),
{
    let text = en_passant_text(target);
    lemma_stands_at(s, pos, text, 0);
    match target {
        Some(p) => {
            lemma_stands_at(s, pos, text, 1);
            Position::lemma_at_self(p);
        },
        None => {},
    }
}

/// The number that the digits of `n` come to after digits that came to
/// `acc`.
pub open spec fn shifted(acc: nat, n: nat) -> nat
    decreases n,
{
    if n < 10 {
        acc * 10 + n
    } else {
        shifted(acc, n / 10) * 10 + n % 10
    }
}

/// After no digits, the digits of `n` come to `n`.
pub proof fn lemma_shifted_zero(n: nat)
    ensures
        shifted(0, n) == n,
    decreases n,
{
    if n >= 10 {
        lemma_shifted_zero(n / 10);
    }
}

/// Reading the numeral of `n` takes the reader past it, with the number
/// that the digits come to.
pub proof fn lemma_read_digits(s: Seq<char>, pos: int, acc: nat, n: nat)
    requires
        stands_at(s, pos, decimal_text(n)),
    ensures
        read_digits(s, pos, acc) == read_digits(
            s,
            pos + decimal_text(n).len(),
            shifted(acc, n),
        ),
        decimal_text(n).len() >= 1,
    decreases n,
{
    let text = decimal_text(n);
    if n < 10 {
        lemma_stands_at(s, pos, text, 0);
        assert(digit_of(digit_char(n as int)) == Some(n as int));
    } else {
        let head = decimal_text(n / 10);
        let last = seq![digit_char((n % 10) as int)];
        assert(text =~= head + last);
        lemma_tail_stands(s, pos, head, last);
        lemma_read_digits(s, pos, acc, n / 10);
        lemma_stands_at(s, pos + head.len(), last, 0);
        assert(digit_of(digit_char((n % 10) as int)) == Some((n % 10) as int));
    }
}

/// Reading the numeral of a number that a counter can hold gives the number.
pub proof fn lemma_read_number(s: Seq<char>, pos: int, n: nat)
    requires
        stands_at(s, pos, decimal_text(n)),
        n <= 0xFFFF_FFFF,
        pos + decimal_text(n).len() == s.len() || digit_of(s[pos + decimal_text(n).len()]) is None,
    ensures
        read_number(s, pos) == Some((n, pos + decimal_text(n).len())),
{
    lemma_read_digits(s, pos, 0, n);
    lemma_shifted_zero(n);
}

/// Reading the text of the two counters completes the board with them.
pub proof fn lemma_read_counters(s: Seq<char>, pos: int, v: BoardView, sofar: BoardView)
    requires
        stands_at(s, pos, v.counters_text()),
        pos + v.counters_text().len() == s.len(),
        v.halfmove_clock <= 0xFFFF_FFFF,
        v.fullmove_number <= 0xFFFF_FFFF,
    ensures
        read_counters(s, pos, sofar) == Some(
            BoardView {
                halfmove_clock: v.halfmove_clock,
                fullmove_number: v.fullmove_number,
                ..sofar
            },
        ),
{
    let half = decimal_text(v.halfmove_clock);
    let full = decimal_text(v.fullmove_number);
    let gap = seq![' '];
    lemma_tail_stands(s, pos, half, gap + full);
    lemma_tail_stands(s, pos + half.len(), gap, full);
    lemma_stands_at(s, pos + half.len(), gap, 0);
    lemma_read_number(s, pos, v.halfmove_clock);
    lemma_read_number(s, pos + half.len() + 1, v.fullmove_number);
}

/// Reading the text of the fields that follow the placement completes the
/// board with them.
pub proof fn lemma_read_fields(s: Seq<char>, pos: int, v: BoardView, placed: BoardView)
    requires
        stands_at(s, pos, v.fields_text()),
        pos + v.fields_text().len() == s.len(),
        v.halfmove_clock <= 0xFFFF_FFFF,
        v.fullmove_number <= 0xFFFF_FFFF,
        v.en_passant matches Some(p) ==> p.on_board(),
    ensures
        read_fields(s, pos, placed) == Some(
            BoardView {
                squares: placed.squares,
                turn: v.turn,
                castling: v.castling,
                en_passant: v.en_passant,
                halfmove_clock: v.halfmove_clock,
                fullmove_number: v.fullmove_number,
            },
        ),
{
    let turn = seq![' ', turn_char(v.turn), ' '];
    let rights = castling_text(v.castling);
    let gap = seq![' '];
    let target = en_passant_text(v.en_passant);
    let counters = v.counters_text();
    let t3 = gap + counters;
    let t2 = target + t3;
    let t1 = gap + t2;
    let t0 = rights + t1;
    lemma_tail_stands(s, pos, turn, t0);
    lemma_stands_at(s, pos, turn, 0);
    lemma_stands_at(s, pos, turn, 1);
    lemma_stands_at(s, pos, turn, 2);
    assert(turn_of(turn_char(v.turn)) == Some(v.turn));
    lemma_tail_stands(s, pos + 3, rights, t1);
    let rights_at = pos + 3 + rights.len();
    lemma_tail_stands(s, rights_at, gap, t2);
    lemma_stands_at(s, rights_at, gap, 0);
    lemma_read_castling(s, pos + 3, v.castling);
    lemma_tail_stands(s, rights_at + 1, target, t3);
    let target_at = rights_at + 1 + target.len();
    lemma_tail_stands(s, target_at, gap, counters);
    lemma_stands_at(s, target_at, gap, 0);
    lemma_read_en_passant(s, rights_at + 1, v.en_passant);
    let sofar = BoardView {
        turn: v.turn,
        castling: v.castling,
        en_passant: v.en_passant,
        ..placed
    };
    lemma_read_counters(s, target_at + 1, v, sofar);
}

/// Reading the text of a board gives the board back: for every board `v`,
/// the text of `v` in Forsyth-Edwards Notation stands for `v`. The placement
/// of the pieces, the side to move, the castling rights, the en-passant
/// target and both counters are kept.
pub proof fn lemma_fen_round_trip(v: BoardView)
    requires
        v.holdable(),
    ensures
        parse_fen(v.fen_text()) == Some(v),
{
    let s = v.fen_text();
    let ranks = v.ranks_text(7);
    let fields = v.fields_text();
    let empty = Seq::<char>::empty();
    assert(s =~= empty + ranks + fields);
    lemma_parts(empty, ranks, fields);
    lemma_stands_at(s, ranks.len() as int, fields, 0);
    let blank = BoardView::empty();
    assert(filled(blank, v, 7, 0));
    lemma_read_ranks(s, 0, v, 7, blank);
    let found = read_ranks(s, 0, 7, blank)->0;
    let placed = found.0;
    assert(placed.squares =~= v.squares) by {
        assert forall|i: int| 0 <= i < 64 implies placed.squares[i] == v.squares[i] by {
            assert(placed.at(i / 8, i % 8) == v.at(i / 8, i % 8));
        }
    }
    lemma_read_fields(s, ranks.len() as int, v, placed);
}

/// Different boards have different texts: two boards with the same text in
/// Forsyth-Edwards Notation are the same board.
pub proof fn lemma_fen_tells_boards_apart(a: BoardView, b: BoardView)
    requires
        a.holdable(),
        b.holdable(),
        a.fen_text() == b.fen_text(),
    ensures
        a == b,
{
    lemma_fen_round_trip(a);
    lemma_fen_round_trip(b);
}

/// Writing a board out and reading the text back gives the board: whatever
/// `build_from_fen` returns for the text that `fen` wrote for the board `b`
/// is `b`.
pub proof fn lemma_board_reads_back(b: Board, r: Result<Board, String>)
    requires
        b@.holdable(),
        reads_as(b@.fen_text(), r),
    ensures
        r == Ok::<Board, String>(b),
{
    lemma_fen_round_trip(b@);
    Board::lemma_view_injective(r->Ok_0, b);
}

} // verus!
