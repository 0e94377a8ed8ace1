//! A chess rules engine with a depth-limited alpha-beta search.
//!
//! A `Board` is an immutable position. It lists its legal moves, plays a
//! move into a `GameResult`, writes and reads Forsyth-Edwards Notation, scores
//! itself in six ways and, through `Evaluate`, searches for its best move.
//! What each function returns is stated over the view of the board, a
//! `BoardView`, by the rules in the module `rules`.
//!
//! Scores are whole numbers: centipawns for the piece-square value, counts
//! for the other heuristics, and whole weights.
//!
//! What holds of the library as a whole is proved in four modules: `laws`
//! (the list of legal moves is exact, and its moves keep the king safe and
//! can be played), `fen_laws` (the text of a board reads back as the board),
//! `notation` (the text of a move reads back as the move), and `search_laws`
//! with `levels` (pruning does not change the score of a search, and the order
//! in which moves are searched does not matter, where the cache answers for
//! no position that is searched further).

pub mod board;
pub mod cache;
pub mod color;
pub mod diagram;
pub mod eval;
pub mod fen;
pub mod fen_laws;
pub mod laws;
pub mod levels;
pub mod movegen;
pub mod moves;
pub mod notation;
pub mod piece;
pub mod position;
pub mod rules;
pub mod search;
pub mod search_laws;
pub mod text;
pub mod tournament;

pub use board::{Board, BoardBuilder, BoardView, CastlingRights};
pub use color::{Color, BLACK, WHITE};
pub use moves::{GameResult, Move, Outcome};
pub use piece::{Piece, PieceKind};
pub use position::Position;
pub use search::{Evaluate, Searchable};
