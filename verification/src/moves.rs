//! The moves a player can make and the outcome of making one.

use crate::board::{Board, BoardView};
use crate::color::Color;
use crate::piece::Piece;
use crate::position::Position;
use vstd::prelude::*;

verus! {

/// A move that can be played on a board, by the player whose turn it is.
#[derive(Clone, Copy, Debug, PartialEq, Eq, PartialOrd, Ord, Hash, Structural)]
pub enum Move {
    /// The king goes two squares towards the rook on the a-file, which jumps
    /// over it.
    QueenSideCastle,
    /// The king goes two squares towards the rook on the h-file, which jumps
    /// over it.
    KingSideCastle,
    /// A piece goes from the first square to the second, capturing what
    /// stands there. A pawn that takes en passant is moved this way too, onto
    /// the empty square behind the pawn it captures.
    Piece(Position, Position),
    /// A pawn goes from the first square to the second, on its last row, and
    /// is replaced by the given piece.
    Promotion(Position, Position, Piece),
    /// The player gives the game up.
    Resign,
}

/// What came of playing a move on a board.
#[derive(Clone, Copy, Debug, PartialEq, Eq, PartialOrd, Ord, Hash)]
pub enum GameResult {
    /// The game goes on from the given board.
    Continuing(Board),
    /// The given color has won, by checkmate or because the other resigned.
    Victory(Color),
    /// The game is drawn: the player to move has no legal move and is not in
    /// check, or neither side has the material to mate. A side lacks it when,
    /// besides the king, it has nothing, one or two knights, or one or two
    /// bishops.
    Stalemate,
    /// The move was not legal; the board is as it was.
    IllegalMove(Move),
}

/// A `GameResult` with the board replaced by its view.
pub enum Outcome {
    /// The game goes on from the given board.
    Continuing(BoardView),
    /// The given color has won.
    Victory(Color),
    /// The game is drawn.
    Stalemate,
    /// The move was not legal.
    IllegalMove(Move),
}

impl View for GameResult {
    type V = Outcome;

    open spec fn view(&self) -> Outcome {
        match *self {
            GameResult::Continuing(b) => Outcome::Continuing(b@),
            GameResult::Victory(c) => Outcome::Victory(c),
            GameResult::Stalemate => Outcome::Stalemate,
            GameResult::IllegalMove(m) => Outcome::IllegalMove(m),
        }
    }
}

} // verus!
