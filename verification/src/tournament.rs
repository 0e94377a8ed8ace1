//! What a program that lets engines play each other has to decide: how deep
//! to search, which weights to use, and what to say about moves and games.

use crate::board::{Board, BoardView};
use crate::color::Color;
use crate::moves::{GameResult, Move, Outcome};
use crate::piece::Piece;
use crate::position::Position;
use crate::text::{chars_of, decimal_text, push_decimal, push_str, string_from};
use vstd::prelude::*;

verus! {

/// The depth of the first search for a move.
pub const START_DEPTH: i32 = 4;

/// The time in seconds under which a search counts as quick.
pub const MIN_SECONDS: u64 = 10;

/// The number of scored positions under which a search counts as small.
pub const NODE_LIMIT: u64 = 10_000;

/// What to do after a search for a move.
#[derive(Clone, Copy, Debug, PartialEq, Eq, Structural)]
pub enum Step {
    /// Search again, to the given depth.
    Search(i32),
    /// Play the given move.
    Play(Move),
}

/// Whether a search that took `elapsed_secs` seconds and scored `count`
/// positions is followed by a deeper one: it was both quick and small.
pub open spec fn deepens(elapsed_secs: u64, count: u64) -> bool {
    elapsed_secs < MIN_SECONDS && count < NODE_LIMIT
}

/// Decides what follows a search to `depth` that found `best`, scored `count`
/// positions and took `elapsed_secs` seconds: a search one level deeper if
/// the search was both quick and small, and playing `best` otherwise.
pub fn after_search(depth: i32, best: Move, count: u64, elapsed_secs: u64) -> (step: Step)
    ensures
        step == if deepens(elapsed_secs, count) && depth < i32::MAX {
            Step::Search((depth + 1) as i32)
        } else {
            Step::Play(best)
        },
{
    if elapsed_secs < MIN_SECONDS && count < NODE_LIMIT && depth < i32::MAX {
        Step::Search(depth + 1)
    } else {
        Step::Play(best)
    }
}

/// The weights of the engine that plays `turn`.
pub fn engine_for(turn: Color, white: Option<[i32; 6]>, black: Option<[i32; 6]>) -> (r: Option<
    [i32; 6],
>)
    ensures
        r == if turn == Color::White {
            white
        } else {
            black
        },
{
    match turn {
        Color::White => white,
        Color::Black => black,
    }
}

/// Whether `c` is a decimal digit.
pub open spec fn is_digit(c: char) -> bool {
    48 <= c as u32 <= 57
}

/// Whether `s` names an engine: up to six decimal digits, one weight each.
pub open spec fn names_engine(s: Seq<char>) -> bool {
    s.len() <= 6 && forall|i: int| 0 <= i < s.len() ==> is_digit(#[trigger] s[i])
}

/// The weight at place `i` of the engine that `s` names: the digit there, or
/// zero where `s` has no digit left.
pub open spec fn weight_at(s: Seq<char>, i: int) -> int {
    if 0 <= i < s.len() {
        s[i] as u32 - 48
    } else {
        0
    }
}

/// Tells whether `name` names an engine.
pub fn is_engine_name(name: &str) -> (r: bool)
    ensures
        r == names_engine(name@),
{
    let v = chars_of(name);
    if v.len() > 6 {
        return false;
    }
    let mut i: usize = 0;
    while i < v.len()
        invariant
            0 <= i <= v.len() <= 6,
            v@ == name@,
            forall|j: int| 0 <= j < i ==> is_digit(#[trigger] v@[j]),
        decreases v.len() - i,
    {
        let n: u32 = v[i] as u32;
        if !(48 <= n && n <= 57) {
            assert(!is_digit(name@[i as int]));
            return false;
        }
        i = i + 1;
    }
    true
}

/// The weights of the engine that `name` names.
pub fn engine_array(name: &str) -> (w: [i32; 6])
    requires
        names_engine(name@),
    ensures
        forall|i: int| 0 <= i < 6 ==> w@[i] == weight_at(name@, i),
{
    let v = chars_of(name);
    let mut w: [i32; 6] = [0; 6];
    let mut i: usize = 0;
    while i < v.len()
        invariant
            0 <= i <= v.len() <= 6,
            v@ == name@,
            names_engine(name@),
            forall|j: int| 0 <= j < i ==> w@[j] == weight_at(name@, j),
            forall|j: int| i <= j < 6 ==> w@[j] == 0,
        decreases v.len() - i,
    {
        let n: u32 = v[i] as u32;
        assert(is_digit(v@[i as int]));
        w[i] = (n - 48) as i32;
        i = i + 1;
    }
    w
}

/// The numeral of a weight, with a minus sign before a negative one.
pub open spec fn weight_text(w: int) -> Seq<char> {
    if w < 0 {
        seq!['-'] + decimal_text((-w) as nat)
    } else {
        decimal_text(w as nat)
    }
}

/// The numerals of the first `n` weights, one after the other.
pub open spec fn weights_text(w: Seq<i32>, n: int) -> Seq<char>
    decreases n,
{
    if n <= 0 {
        Seq::empty()
    } else {
        weights_text(w, n - 1) + weight_text(w[n - 1] as int)
    }
}

/// The name of the engine with the given weights: their numerals, one after
/// the other.
pub fn engine_str(engine: [i32; 6]) -> (s: String)
    ensures
        s@ == weights_text(engine@, 6),
{
    let mut out: Vec<char> = Vec::new();
    let mut i: usize = 0;
    while i < 6
        invariant
            0 <= i <= 6,
            out@ == weights_text(engine@, i as int),
        decreases 6 - i,
    {
        let ghost sofar = out@;
        let w = engine[i];
        if w < 0 {
            out.push('-');
            push_decimal(&mut out, (-(w as i64)) as u64);
            assert(out@ =~= sofar + (seq!['-'] + decimal_text((-w) as nat)));
        } else {
            push_decimal(&mut out, w as u64);
        }
        i = i + 1;
    }
    string_from(&out)
}

/// What a program says of the move `m` that an engine chose on the board
/// `v`: which piece takes which, which piece moves where, or the special
/// move by its name.
pub open spec fn move_description(v: BoardView, m: Move) -> Seq<char> {
    match m {
        Move::Piece(from, to) => step_description(v, from, to),
        Move::Promotion(from, to, _) => step_description(v, from, to),
        Move::KingSideCastle => "castle kingside"@,
        Move::QueenSideCastle => "castle queenside"@,
        Move::Resign => "resign"@,
    }
}

/// A piece and the square it stands on, as in `queen(d1)`.
pub open spec fn placed_text(p: Piece, at: Position) -> Seq<char> {
    p.kind.name_text() + "("@ + at.name_text() + ")"@
}

/// What a program says of a move from `from` to `to` on the board `v`.
pub open spec fn step_description(v: BoardView, from: Position, to: Position) -> Seq<char> {
    match (v.at(from.row(), from.col()), v.at(to.row(), to.col())) {
        (Some(piece), Some(taken)) => "take "@ + placed_text(taken, to) + " with "@ + placed_text(
            piece,
            from,
        ),
        (Some(piece), None) => "move "@ + placed_text(piece, from) + " to "@ + to.name_text(),
        _ => "move "@ + from.name_text() + " to "@ + to.name_text(),
    }
}

/// Appends the name of a square to `out`.
fn push_square(out: &mut Vec<char>, at: Position)
    ensures
        final(out)@ == old(out)@ + at.name_text(),
{
    out.push(at.file_letter());
    out.push(at.rank_digit());
    assert(out@ =~= old(out)@ + at.name_text());
}

/// Appends a piece and the square it stands on to `out`.
fn push_placed(out: &mut Vec<char>, p: Piece, at: Position)
    ensures
        final(out)@ == old(out)@ + placed_text(p, at),
{
    let name = p.get_name();
    push_str(out, name.as_str());
    push_str(out, "(");
    push_square(out, at);
    push_str(out, ")");
    assert(out@ =~= old(out)@ + placed_text(p, at));
}

/// Says what the move from `from` to `to` does on `board`.
fn describe_step(board: &Board, from: Position, to: Position) -> (out: Vec<char>)
    ensures
        out@ == step_description(board@, from, to),
{
    let mut out: Vec<char> = Vec::new();
    match (board.get_piece(from), board.get_piece(to)) {
        (Some(piece), Some(taken)) => {
            push_str(&mut out, "take ");
            push_placed(&mut out, taken, to);
            push_str(&mut out, " with ");
            push_placed(&mut out, piece, from);
            assert(out@ =~= "take "@ + placed_text(taken, to) + " with "@ + placed_text(
                piece,
                from,
            ));
        },
        (Some(piece), None) => {
            push_str(&mut out, "move ");
            push_placed(&mut out, piece, from);
            push_str(&mut out, " to ");
            push_square(&mut out, to);
            assert(out@ =~= "move "@ + placed_text(piece, from) + " to "@ + to.name_text());
        },
        _ => {
            push_str(&mut out, "move ");
            push_square(&mut out, from);
            push_str(&mut out, " to ");
            push_square(&mut out, to);
            assert(out@ =~= "move "@ + from.name_text() + " to "@ + to.name_text());
        },
    }
    out
}

/// Says what the move `m` does on `board`, as in `take pawn(e5) with
/// knight(f3)` or `move pawn(e2) to e4`.
pub fn describe_move(board: &Board, m: Move) -> (s: String)
    ensures
        s@ == move_description(board@, m),
{
    let out = match m {
        Move::Piece(from, to) => describe_step(board, from, to),
        Move::Promotion(from, to, _) => describe_step(board, from, to),
        Move::KingSideCastle => {
            let mut out: Vec<char> = Vec::new();
            push_str(&mut out, "castle kingside");
            assert(out@ =~= "castle kingside"@);
            out
        },
        Move::QueenSideCastle => {
            let mut out: Vec<char> = Vec::new();
            push_str(&mut out, "castle queenside");
            assert(out@ =~= "castle queenside"@);
            out
        },
        Move::Resign => {
            let mut out: Vec<char> = Vec::new();
            push_str(&mut out, "resign");
            assert(out@ =~= "resign"@);
            out
        },
    };
    string_from(&out)
}

/// The state of a game after a move, in words: who is to play, who has won,
/// or that the game is drawn. An illegal move changes nothing and has no
/// words.
pub open spec fn status_text(outcome: Outcome) -> Option<Seq<char>> {
    match outcome {
        Outcome::Continuing(next) => Some(next.turn.name_text() + " to play"@),
        Outcome::Victory(winner) => Some(
            winner.other().name_text() + " loses. "@ + winner.name_text() + " is victorious."@,
        ),
        Outcome::Stalemate => Some("Draw"@),
        Outcome::IllegalMove(_) => None,
    }
}

/// Says in what state a move left the game.
pub fn status_line(result: &GameResult) -> (r: Option<String>)
    ensures
        match status_text(result@) {
            Some(text) => r matches Some(s) && s@ == text,
            None => r is None,
        },
{
    let mut out: Vec<char> = Vec::new();
    match result {
        GameResult::Continuing(next) => {
            let name = next.get_turn_color().to_string();
            push_str(&mut out, name.as_str());
            push_str(&mut out, " to play");
            assert(out@ =~= next@.turn.name_text() + " to play"@);
        },
        GameResult::Victory(winner) => {
            let loser = winner.invert().to_string();
            let name = winner.to_string();
            push_str(&mut out, loser.as_str());
            push_str(&mut out, " loses. ");
            push_str(&mut out, name.as_str());
            push_str(&mut out, " is victorious.");
            assert(out@ =~= winner.other().name_text() + " loses. "@ + winner.name_text()
                + " is victorious."@);
        },
        GameResult::Stalemate => {
            push_str(&mut out, "Draw");
            assert(out@ =~= "Draw"@);
        },
        GameResult::IllegalMove(_) => {
            return None;
        },
    }
    Some(string_from(&out))
}

/// What a finished game counts for the side whose rating is updated first,
/// in half points: two for a game that was won, one for a draw. A game that
/// goes on, or a move that was illegal, counts for nothing.
pub fn half_points(result: &GameResult) -> (r: Option<u8>)
    ensures
        r == match result@ {
            Outcome::Victory(_) => Some(2u8),
            Outcome::Stalemate => Some(1u8),
            _ => None,
        },
{
    match result {
        GameResult::Victory(_) => Some(2),
        GameResult::Stalemate => Some(1),
        _ => None,
    }
}

} // verus!
