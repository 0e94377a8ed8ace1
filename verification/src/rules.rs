//! The rules of chess, stated over the view of a board: which squares a
//! piece attacks, when a king is in check, which moves are legal, what a
//! move does to the board and how a game ends.

use crate::board::{bump, BoardView, CastlingRights};
use crate::color::Color;
use crate::moves::{Move, Outcome};
use crate::piece::{magnitude, sign, Piece, PieceKind};
use crate::position::{on_grid, Position};
use vstd::prelude::*;

verus! {

/// The larger of two numbers.
pub open spec fn larger(a: int, b: int) -> int {
    if a >= b {
        a
    } else {
        b
    }
}

/// The square with the given number, counting row by row.
pub open spec fn square(i: int) -> Position {
    Position::at(i / 8, i % 8)
}

/// The kinds to which a pawn can be promoted, in the order in which the
/// promotions of one pawn are listed.
pub open spec fn promotion_kind(i: int) -> PieceKind {
    if i == 0 {
        PieceKind::Queen
    } else if i == 1 {
        PieceKind::Rook
    } else if i == 2 {
        PieceKind::Bishop
    } else {
        PieceKind::Knight
    }
}

impl BoardView {
    /// Whether a piece of `color` stands on `(row, col)`.
    pub open spec fn holds(self, row: int, col: int, color: Color) -> bool {
        self.at(row, col) matches Some(p) && p.color == color
    }

    /// Whether the `n` squares that follow `(row, col)` in the direction
    /// `(sr, sc)` are all empty.
    pub open spec fn clear_run(self, row: int, col: int, sr: int, sc: int, n: int) -> bool
        decreases n,
    {
        n <= 0 || (self.at(row + sr, col + sc) is None && self.clear_run(
            row + sr,
            col + sc,
            sr,
            sc,
            n - 1,
        ))
    }

    /// Whether the squares strictly between `(fr, fc)` and `(tr, tc)`, which
    /// lie on a common row, column or diagonal, are all empty.
    pub open spec fn line_clear(self, fr: int, fc: int, tr: int, tc: int) -> bool {
        self.clear_run(
            fr,
            fc,
            sign(tr - fr),
            sign(tc - fc),
            larger(magnitude(tr - fr), magnitude(tc - fc)) - 1,
        )
    }

    /// Whether a displacement from `(fr, fc)` to `(tr, tc)` fits the way a
    /// piece of `kind` other than a pawn moves, with nothing in its way.
    pub open spec fn reaches(self, kind: PieceKind, fr: int, fc: int, tr: int, tc: int) -> bool {
        kind.pattern(tr - fr, tc - fc) && (kind.slides() ==> self.line_clear(fr, fc, tr, tc))
    }

    /// Whether the piece `p`, standing on `(fr, fc)`, attacks `(tr, tc)`.
    /// A pawn attacks the two squares diagonally ahead of it.
    pub open spec fn piece_attacks(self, p: Piece, fr: int, fc: int, tr: int, tc: int) -> bool {
        if p.kind == PieceKind::Pawn {
            tr - fr == p.color.forward() && magnitude(tc - fc) == 1
        } else {
            self.reaches(p.kind, fr, fc, tr, tc)
        }
    }

    /// Whether a piece of color `by` stands on `(row, col)` and attacks
    /// `(tr, tc)`.
    pub open spec fn attacker_on(self, row: int, col: int, by: Color, tr: int, tc: int) -> bool {
        &&& on_grid(row, col)
        &&& self.at(row, col) matches Some(p)
        &&& p.color == by
        &&& self.piece_attacks(p, row, col, tr, tc)
    }

    /// Whether some piece of color `by` attacks `(tr, tc)`.
    pub open spec fn attacked(self, tr: int, tc: int, by: Color) -> bool {
        exists|row: int, col: int| #[trigger] self.attacker_on(row, col, by, tr, tc)
    }

    /// Whether a king of `color` stands on `(row, col)` and is attacked.
    pub open spec fn checked_on(self, row: int, col: int, color: Color) -> bool {
        &&& on_grid(row, col)
        &&& self.at(row, col) == Some(Piece { kind: PieceKind::King, color })
        &&& self.attacked(row, col, color.other())
    }

    /// Whether `color` is in check: a king of that color is attacked.
    pub open spec fn in_check(self, color: Color) -> bool {
        exists|row: int, col: int| #[trigger] self.checked_on(row, col, color)
    }

    /// Whether a pawn of `color` on `(fr, fc)` may take en passant onto
    /// `(tr, tc)`: that square is the en-passant target and is empty, and a
    /// pawn of the other color stands beside the capturing pawn, behind the
    /// target.
    pub open spec fn takes_en_passant(self, color: Color, fr: int, fc: int, tr: int, tc: int) -> bool {
        &&& self.en_passant matches Some(e)
        &&& e.row() == tr
        &&& e.col() == tc
        &&& self.at(tr, tc) is None
        &&& self.at(fr, tc) == Some(Piece { kind: PieceKind::Pawn, color: color.other() })
    }

    /// Whether a pawn of `color` on `(fr, fc)` may go to `(tr, tc)`: one
    /// square ahead onto an empty square, two squares ahead from its starting
    /// row over empty squares, or one square diagonally ahead onto a piece of
    /// the other color or en passant.
    pub open spec fn pawn_reaches(self, color: Color, fr: int, fc: int, tr: int, tc: int) -> bool {
        let f = color.forward();
        ||| (tc == fc && tr == fr + f && self.at(tr, tc) is None)
        ||| (tc == fc && fr == color.pawn_row() && tr == fr + 2 * f && self.at(fr + f, fc) is None
            && self.at(tr, tc) is None)
        ||| (magnitude(tc - fc) == 1 && tr == fr + f && (self.holds(tr, tc, color.other())
            || self.takes_en_passant(color, fr, fc, tr, tc)))
    }

    /// Whether the piece of `color` on `(fr, fc)` may go to `(tr, tc)` as far
    /// as its own way of moving and the occupancy of the board go.
    pub open spec fn step_allowed(self, color: Color, fr: int, fc: int, tr: int, tc: int) -> bool {
        &&& on_grid(fr, fc)
        &&& on_grid(tr, tc)
        &&& self.at(fr, fc) matches Some(p)
        &&& p.color == color
        &&& !self.holds(tr, tc, color)
        &&& if p.kind == PieceKind::Pawn {
            self.pawn_reaches(color, fr, fc, tr, tc)
        } else {
            self.reaches(p.kind, fr, fc, tr, tc)
        }
    }

    /// Whether a move of `color` from `(fr, fc)` to row `tr` takes a pawn to
    /// its last row.
    pub open spec fn promotes(self, color: Color, fr: int, fc: int, tr: int) -> bool {
        self.at(fr, fc) == Some(Piece { kind: PieceKind::Pawn, color }) && tr
            == color.promotion_row()
    }

    /// The column on which the rook of the given wing starts.
    pub open spec fn rook_col(kingside: bool) -> int {
        if kingside {
            7
        } else {
            0
        }
    }

    /// The direction in which the king goes when it castles on the given
    /// wing.
    pub open spec fn wing(kingside: bool) -> int {
        if kingside {
            1
        } else {
            -1
        }
    }

    /// Whether `color` may castle on the given wing, check after the move
    /// aside: it has the right, king and rook stand on their squares, the
    /// squares between them are empty, and neither the king's square nor the
    /// two squares it crosses and reaches are attacked.
    pub open spec fn may_castle(self, color: Color, kingside: bool) -> bool {
        let row = color.home_row();
        let w = Self::wing(kingside);
        &&& self.castling.allows(color, kingside)
        &&& self.at(row, 4) == Some(Piece { kind: PieceKind::King, color })
        &&& self.at(row, Self::rook_col(kingside)) == Some(Piece { kind: PieceKind::Rook, color })
        &&& self.at(row, 4 + w) is None
        &&& self.at(row, 4 + 2 * w) is None
        &&& (kingside || self.at(row, 1) is None)
        &&& !self.attacked(row, 4, color.other())
        &&& !self.attacked(row, 4 + w, color.other())
        &&& !self.attacked(row, 4 + 2 * w, color.other())
    }

    /// Whether `m` is a move that `color` may make, check after the move
    /// aside. A pawn reaches its last row only by a promotion, to a queen,
    /// rook, bishop or knight of its own color. Resigning is not a move on
    /// the board.
    pub open spec fn pseudo_legal(self, m: Move, color: Color) -> bool {
        match m {
            Move::Piece(from, to) => {
                &&& self.step_allowed(color, from.row(), from.col(), to.row(), to.col())
                &&& !self.promotes(color, from.row(), from.col(), to.row())
            },
            Move::Promotion(from, to, piece) => {
                &&& self.step_allowed(color, from.row(), from.col(), to.row(), to.col())
                &&& self.promotes(color, from.row(), from.col(), to.row())
                &&& piece.kind.promotable()
                &&& piece.color == color
            },
            Move::KingSideCastle => self.may_castle(color, true),
            Move::QueenSideCastle => self.may_castle(color, false),
            Move::Resign => false,
        }
    }

    /// The castling rights after a piece of `kind` and `color` went from
    /// `(fr, fc)` to `(tr, tc)`: a king's move costs its side both rights, a
    /// rook's move from its corner costs the right of that wing, and a rook
    /// taken in its corner costs its side the right of that wing.
    pub open spec fn rights_after(
        self,
        color: Color,
        kind: PieceKind,
        fr: int,
        fc: int,
        tr: int,
        tc: int,
    ) -> CastlingRights {
        let own = if kind == PieceKind::King {
            self.castling.without(color, true).without(color, false)
        } else if kind == PieceKind::Rook && fr == color.home_row() && fc == 7 {
            self.castling.without(color, true)
        } else if kind == PieceKind::Rook && fr == color.home_row() && fc == 0 {
            self.castling.without(color, false)
        } else {
            self.castling
        };
        let foe = color.other();
        if self.at(tr, tc) == Some(Piece { kind: PieceKind::Rook, color: foe }) && tr
            == foe.home_row() && tc == 7 {
            own.without(foe, true)
        } else if self.at(tr, tc) == Some(Piece { kind: PieceKind::Rook, color: foe }) && tr
            == foe.home_row() && tc == 0 {
            own.without(foe, false)
        } else {
            own
        }
    }

    /// The board after the piece of `color` on `from` went to `to`, where it
    /// was replaced by a piece of kind `promo` if one is given.
    ///
    /// The piece leaves its square and takes the place of what stood on the
    /// target; a pawn that takes en passant also removes the pawn beside it.
    /// The turn passes to the other side. The en-passant target is the square
    /// a pawn passed over if it advanced two squares, and none otherwise. The
    /// half-move clock restarts on a pawn move or a capture and grows
    /// otherwise; the move number grows after a move of Black.
    pub open spec fn moved(self, color: Color, from: Position, to: Position, promo: Option<PieceKind>) -> BoardView {
        let fr = from.row();
        let fc = from.col();
        let tr = to.row();
        let tc = to.col();
        let p = self.at(fr, fc)->0;
        let placed = match promo {
            Some(kind) => Piece { kind, color },
            None => p,
        };
        let passant = p.kind == PieceKind::Pawn && self.takes_en_passant(color, fr, fc, tr, tc);
        let capture = self.at(tr, tc) is Some || passant;
        let lifted = self.put(fr, fc, None).put(tr, tc, Some(placed));
        let cleared = if passant {
            lifted.put(fr, tc, None)
        } else {
            lifted
        };
        BoardView {
            squares: cleared.squares,
            turn: color.other(),
            castling: self.rights_after(color, p.kind, fr, fc, tr, tc),
            en_passant: if p.kind == PieceKind::Pawn && magnitude(tr - fr) == 2 {
                Some(Position::at(fr + color.forward(), fc))
            } else {
                None
            },
            halfmove_clock: if p.kind == PieceKind::Pawn || capture {
                0
            } else {
                bump(self.halfmove_clock)
            },
            fullmove_number: if color == Color::Black {
                bump(self.fullmove_number)
            } else {
                self.fullmove_number
            },
        }
    }

    /// The board after `color` castled on the given wing: the king goes two
    /// squares towards the rook, the rook lands on the square the king
    /// crossed, and `color` loses both castling rights.
    pub open spec fn castled(self, color: Color, kingside: bool) -> BoardView {
        let row = color.home_row();
        let w = Self::wing(kingside);
        let squares = self.put(row, 4, None).put(row, Self::rook_col(kingside), None).put(
            row,
            4 + 2 * w,
            Some(Piece { kind: PieceKind::King, color }),
        ).put(row, 4 + w, Some(Piece { kind: PieceKind::Rook, color })).squares;
        BoardView {
            squares,
            turn: color.other(),
            castling: self.castling.without(color, true).without(color, false),
            en_passant: None,
            halfmove_clock: bump(self.halfmove_clock),
            fullmove_number: if color == Color::Black {
                bump(self.fullmove_number)
            } else {
                self.fullmove_number
            },
        }
    }

    /// The board after `color` made the move `m`. Resigning leaves the board
    /// as it is.
    pub open spec fn apply(self, m: Move, color: Color) -> BoardView {
        match m {
            Move::Piece(from, to) => self.moved(color, from, to, None),
            Move::Promotion(from, to, piece) => self.moved(color, from, to, Some(piece.kind)),
            Move::KingSideCastle => self.castled(color, true),
            Move::QueenSideCastle => self.castled(color, false),
            Move::Resign => self,
        }
    }

    /// Whether `m` is a legal move of `color`: `color` may make it, and it
    /// does not leave the king of `color` in check.
    pub open spec fn legal(self, m: Move, color: Color) -> bool {
        self.pseudo_legal(m, color) && !self.apply(m, color).in_check(color)
    }

    /// `m` alone if it is a legal move of `color`, and nothing otherwise.
    pub open spec fn keep(self, m: Move, color: Color) -> Seq<Move> {
        if self.legal(m, color) {
            seq![m]
        } else {
            Seq::empty()
        }
    }

    /// The first `n` promotions from `from` to `to` that are legal for
    /// `color`, in the order queen, rook, bishop, knight.
    pub open spec fn promotions(self, color: Color, from: Position, to: Position, n: int) -> Seq<Move>
        decreases n,
    {
        if n <= 0 {
            Seq::empty()
        } else {
            self.promotions(color, from, to, n - 1) + self.keep(
                Move::Promotion(from, to, Piece { kind: promotion_kind(n - 1), color }),
                color,
            )
        }
    }

    /// The legal moves of `color` from `from` to `to`: the plain move, then
    /// the promotions.
    pub open spec fn moves_between(self, color: Color, from: Position, to: Position) -> Seq<Move> {
        self.keep(Move::Piece(from, to), color) + self.promotions(color, from, to, 4)
    }

    /// The legal moves of `color` from the square numbered `from` to the
    /// first `n` squares, in the order of the targets.
    pub open spec fn moves_from(self, color: Color, from: int, n: int) -> Seq<Move>
        decreases n,
    {
        if n <= 0 {
            Seq::empty()
        } else {
            self.moves_from(color, from, n - 1) + self.moves_between(
                color,
                square(from),
                square(n - 1),
            )
        }
    }

    /// The legal moves of `color` from the first `n` squares, in the order of
    /// the squares they start from.
    pub open spec fn moves_upto(self, color: Color, n: int) -> Seq<Move>
        decreases n,
    {
        if n <= 0 {
            Seq::empty()
        } else {
            self.moves_upto(color, n - 1) + self.moves_from(color, n - 1, 64)
        }
    }

    /// Every legal move of `color`, each once: castling on the king's wing,
    /// castling on the queen's wing, then the moves from square to square,
    /// ordered by the square they start from and then by their target, the
    /// squares counted row by row from a1. Resigning is not among them.
    pub open spec fn legal_moves(self, color: Color) -> Seq<Move> {
        self.keep(Move::KingSideCastle, color) + self.keep(Move::QueenSideCastle, color)
            + self.moves_upto(color, 64)
    }

    /// How many pieces of the given kind and color stand on the first `n`
    /// squares.
    pub open spec fn count(self, kind: PieceKind, color: Color, n: int) -> int
        decreases n,
    {
        if n <= 0 {
            0
        } else {
            self.count(kind, color, n - 1) + if self.squares[n - 1] == Some(Piece { kind, color }) {
                1int
            } else {
                0int
            }
        }
    }

    /// Whether `color` lacks the material to mate: besides its king it has
    /// nothing, one or two knights, or one or two bishops.
    pub open spec fn insufficient_material(self, color: Color) -> bool {
        let knights = self.count(PieceKind::Knight, color, 64);
        let bishops = self.count(PieceKind::Bishop, color, 64);
        &&& self.count(PieceKind::Pawn, color, 64) == 0
        &&& self.count(PieceKind::Rook, color, 64) == 0
        &&& self.count(PieceKind::Queen, color, 64) == 0
        &&& ((knights <= 2 && bishops == 0) || (bishops <= 2 && knights == 0))
    }

    /// Whether the side to move is checkmated: it is in check and has no
    /// legal move.
    pub open spec fn is_checkmate(self) -> bool {
        self.in_check(self.turn) && self.legal_moves(self.turn).len() == 0
    }

    /// Whether the game is drawn: the side to move has no legal move and is
    /// not in check, or neither side has the material to mate.
    pub open spec fn is_stalemate(self) -> bool {
        ||| (!self.in_check(self.turn) && self.legal_moves(self.turn).len() == 0)
        ||| (self.insufficient_material(Color::White) && self.insufficient_material(
            Color::Black,
        ))
    }

    /// What comes of the side to move playing `m`.
    ///
    /// Resigning gives the game to the other side. A move that is not legal
    /// is handed back. After a legal move the mover has won if the other side
    /// is checkmated, the game is drawn if it is stalemated or neither side
    /// has the material to mate, and it goes on from the new board otherwise.
    pub open spec fn outcome(self, m: Move) -> Outcome {
        let next = self.apply(m, self.turn);
        if m == Move::Resign {
            Outcome::Victory(self.turn.other())
        } else if !self.legal(m, self.turn) {
            Outcome::IllegalMove(m)
        } else if next.is_checkmate() {
            Outcome::Victory(self.turn)
        } else if next.is_stalemate() {
            Outcome::Stalemate
        } else {
            Outcome::Continuing(next)
        }
    }
}

} // verus!
