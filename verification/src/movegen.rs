//! The rules of chess as the board carries them out: attack and check
//! detection, legality, the list of legal moves, and playing a move.

use crate::board::{Board, BoardBuilder, BoardView};
use crate::color::Color;
use crate::laws::{lemma_legal_moves_exact, lemma_legal_moves_once};
use crate::moves::{GameResult, Move};
use crate::piece::{magnitude, sign, Piece, PieceKind};
use crate::position::{on_grid, Position};
use crate::rules::{promotion_kind, square};
use vstd::prelude::*;

verus! {

/// The sign of `x`.
fn signum(x: i32) -> (r: i32)
    ensures
        r == sign(x as int),
{
    if x < 0 {
        -1
    } else if x > 0 {
        1
    } else {
        0
    }
}

/// The absolute value of `x`.
fn absolute(x: i32) -> (r: i32)
    requires
        -8 < x < 8,
    ensures
        r == magnitude(x as int),
{
    if x < 0 {
        -x
    } else {
        x
    }
}

/// `n + 1`, unless that no longer fits.
fn bumped(n: u32) -> (r: u32)
    ensures
        r == crate::board::bump(n as nat),
{
    if n < u32::MAX {
        n + 1
    } else {
        n
    }
}

/// The kind with the given number among those a pawn is promoted to.
fn promotion_choice(i: usize) -> (k: PieceKind)
    ensures
        k == promotion_kind(i as int),
{
    if i == 0 {
        PieceKind::Queen
    } else if i == 1 {
        PieceKind::Rook
    } else if i == 2 {
        PieceKind::Bishop
    } else {
        PieceKind::Knight
    }
}

impl Board {
    /// Tells whether the squares strictly between two squares of a common
    /// row, column or diagonal are all empty.
    pub(crate) fn line_is_clear(&self, fr: i32, fc: i32, tr: i32, tc: i32) -> (r: bool)
        requires
            on_grid(fr as int, fc as int),
            on_grid(tr as int, tc as int),
        ensures
            r == self@.line_clear(fr as int, fc as int, tr as int, tc as int),
    {
        let sr = signum(tr - fr);
        let sc = signum(tc - fc);
        let ar = absolute(tr - fr);
        let ac = absolute(tc - fc);
        let n: i32 = if ar >= ac {
            ar - 1
        } else {
            ac - 1
        };
        let mut row: i32 = fr;
        let mut col: i32 = fc;
        let mut k: i32 = n;
        while k > 0
            invariant
                -1 <= n <= 6,
                k <= n,
                k >= 0 || k == n,
                -1 <= sr <= 1,
                -1 <= sc <= 1,
                fr - (n - k) <= row <= fr + (n - k),
                fc - (n - k) <= col <= fc + (n - k),
                0 <= fr < 8,
                0 <= fc < 8,
                self@.line_clear(fr as int, fc as int, tr as int, tc as int) == self@.clear_run(
                    row as int,
                    col as int,
                    sr as int,
                    sc as int,
                    k as int,
                ),
            decreases k,
        {
            if self.get_square(row + sr, col + sc).is_some() {
                return false;
            }
            row = row + sr;
            col = col + sc;
            k = k - 1;
        }
        true
    }

    /// Tells whether a piece of `kind` other than a pawn can go from one
    /// square to another: the displacement fits its way of moving and nothing
    /// stands in between.
    pub(crate) fn can_reach(&self, kind: PieceKind, fr: i32, fc: i32, tr: i32, tc: i32) -> (r: bool)
        requires
            on_grid(fr as int, fc as int),
            on_grid(tr as int, tc as int),
        ensures
            r == self@.reaches(kind, fr as int, fc as int, tr as int, tc as int),
    {
        kind.fits_pattern(tr - fr, tc - fc) && (!kind.is_slider() || self.line_is_clear(
            fr,
            fc,
            tr,
            tc,
        ))
    }

    /// Tells whether the piece `p`, standing on `(fr, fc)`, attacks
    /// `(tr, tc)`.
    pub(crate) fn attacks_from(&self, p: Piece, fr: i32, fc: i32, tr: i32, tc: i32) -> (r: bool)
        requires
            on_grid(fr as int, fc as int),
            on_grid(tr as int, tc as int),
        ensures
            r == self@.piece_attacks(p, fr as int, fc as int, tr as int, tc as int),
    {
        if p.is_pawn() {
            tr - fr == p.color.get_forward() && absolute(tc - fc) == 1
        } else {
            self.can_reach(p.kind, fr, fc, tr, tc)
        }
    }

    /// Tells whether some piece of color `by` attacks the square `(tr, tc)`.
    pub(crate) fn is_attacked(&self, tr: i32, tc: i32, by: Color) -> (r: bool)
        requires
            on_grid(tr as int, tc as int),
        ensures
            r == self@.attacked(tr as int, tc as int, by),
    {
        let mut row: i32 = 0;
        while row < 8
            invariant
                0 <= row <= 8,
                on_grid(tr as int, tc as int),
                forall|r0: int, c0: int|
                    0 <= r0 < row ==> !#[trigger] self@.attacker_on(
                        r0,
                        c0,
                        by,
                        tr as int,
                        tc as int,
                    ),
            decreases 8 - row,
        {
            let mut col: i32 = 0;
            while col < 8
                invariant
                    0 <= row < 8,
                    0 <= col <= 8,
                    on_grid(tr as int, tc as int),
                    forall|r0: int, c0: int|
                        0 <= r0 < row ==> !#[trigger] self@.attacker_on(
                            r0,
                            c0,
                            by,
                            tr as int,
                            tc as int,
                        ),
                    forall|c0: int|
                        0 <= c0 < col ==> !#[trigger] self@.attacker_on(
                            row as int,
                            c0,
                            by,
                            tr as int,
                            tc as int,
                        ),
                decreases 8 - col,
            {
                match self.get_square(row, col) {
                    Some(p) => {
                        if p.color == by && self.attacks_from(p, row, col, tr, tc) {
                            assert(self@.attacker_on(row as int, col as int, by, tr as int, tc as int));
                            return true;
                        }
                    },
                    None => {},
                }
                col = col + 1;
            }
            row = row + 1;
        }
        false
    }

    /// Tells whether some piece of color `by` attacks the square `at`.
    pub fn is_threatened(&self, at: Position, by: Color) -> (r: bool)
        ensures
            r == self@.attacked(at.row(), at.col(), by),
    {
        self.is_attacked(at.get_row(), at.get_col(), by)
    }

    /// Tells whether `color` is in check.
    pub fn is_in_check(&self, color: Color) -> (r: bool)
        ensures
            r == self@.in_check(color),
    {
        let king = Piece { kind: PieceKind::King, color };
        let foe = color.invert();
        let mut row: i32 = 0;
        while row < 8
            invariant
                0 <= row <= 8,
                king == (Piece { kind: PieceKind::King, color }),
                foe == color.other(),
                forall|r0: int, c0: int|
                    0 <= r0 < row ==> !#[trigger] self@.checked_on(r0, c0, color),
            decreases 8 - row,
        {
            let mut col: i32 = 0;
            while col < 8
                invariant
                    0 <= row < 8,
                    0 <= col <= 8,
                    king == (Piece { kind: PieceKind::King, color }),
                    foe == color.other(),
                    forall|r0: int, c0: int|
                        0 <= r0 < row ==> !#[trigger] self@.checked_on(r0, c0, color),
                    forall|c0: int|
                        0 <= c0 < col ==> !#[trigger] self@.checked_on(row as int, c0, color),
                decreases 8 - col,
            {
                match self.get_square(row, col) {
                    Some(p) => {
                        if p == king && self.is_attacked(row, col, foe) {
                            assert(self@.checked_on(row as int, col as int, color));
                            return true;
                        }
                    },
                    None => {},
                }
                col = col + 1;
            }
            row = row + 1;
        }
        false
    }

    /// Tells whether a piece of `color` stands on `(row, col)`.
    pub(crate) fn holds_color(&self, row: i32, col: i32, color: Color) -> (r: bool)
        ensures
            r == self@.holds(row as int, col as int, color),
    {
        match self.get_square(row, col) {
            Some(p) => p.color == color,
            None => false,
        }
    }

    /// Tells whether a pawn of `color` on `(fr, fc)` may take en passant
    /// onto `(tr, tc)`.
    pub(crate) fn can_take_en_passant(&self, color: Color, fr: i32, fc: i32, tr: i32, tc: i32) -> (r:
        bool)
        requires
            on_grid(fr as int, fc as int),
            on_grid(tr as int, tc as int),
        ensures
            r == self@.takes_en_passant(color, fr as int, fc as int, tr as int, tc as int),
    {
        match self.get_en_passant() {
            Some(e) => {
                e.get_row() == tr && e.get_col() == tc && self.get_square(tr, tc).is_none()
                    && self.get_square(fr, tc) == Some(
                    Piece { kind: PieceKind::Pawn, color: color.invert() },
                )
            },
            None => false,
        }
    }

    /// Tells whether a pawn of `color` on `(fr, fc)` may go to `(tr, tc)`.
    pub(crate) fn pawn_can_reach(&self, color: Color, fr: i32, fc: i32, tr: i32, tc: i32) -> (r: bool)
        requires
            on_grid(fr as int, fc as int),
            on_grid(tr as int, tc as int),
        ensures
            r == self@.pawn_reaches(color, fr as int, fc as int, tr as int, tc as int),
    {
        let f = color.get_forward();
        if tc == fc {
            if tr == fr + f {
                self.get_square(tr, tc).is_none()
            } else if fr == color.get_pawn_row() && tr == fr + 2 * f {
                self.get_square(fr + f, fc).is_none() && self.get_square(tr, tc).is_none()
            } else {
                false
            }
        } else if absolute(tc - fc) == 1 && tr == fr + f {
            self.holds_color(tr, tc, color.invert()) || self.can_take_en_passant(
                color,
                fr,
                fc,
                tr,
                tc,
            )
        } else {
            false
        }
    }

    /// Tells whether the piece of `color` on `from` may go to `to` as far as
    /// its own way of moving and the occupancy of the board go.
    pub fn step_is_allowed(&self, color: Color, from: Position, to: Position) -> (r: bool)
        ensures
            r == self@.step_allowed(color, from.row(), from.col(), to.row(), to.col()),
            from.on_board(),
            to.on_board(),
    {
        let fr = from.get_row();
        let fc = from.get_col();
        let tr = to.get_row();
        let tc = to.get_col();
        match self.get_square(fr, fc) {
            Some(p) => {
                if p.color != color || self.holds_color(tr, tc, color) {
                    false
                } else if p.is_pawn() {
                    self.pawn_can_reach(color, fr, fc, tr, tc)
                } else {
                    self.can_reach(p.kind, fr, fc, tr, tc)
                }
            },
            None => false,
        }
    }

    /// Tells whether a move of `color` from `from` to `to` takes a pawn to
    /// its last row.
    pub fn is_promotion(&self, color: Color, from: Position, to: Position) -> (r: bool)
        ensures
            r == self@.promotes(color, from.row(), from.col(), to.row()),
    {
        self.get_piece(from) == Some(Piece { kind: PieceKind::Pawn, color }) && to.get_row()
            == color.get_promotion_row()
    }

    /// Tells whether `color` may castle on the given wing, check after the
    /// move aside.
    pub fn can_castle(&self, color: Color, kingside: bool) -> (r: bool)
        ensures
            r == self@.may_castle(color, kingside),
    {
        let row = color.get_home_row();
        let w: i32 = if kingside {
            1
        } else {
            -1
        };
        let rook_col: i32 = if kingside {
            7
        } else {
            0
        };
        let foe = color.invert();
        self.get_castling_rights().get(color, kingside) && self.get_square(row, 4) == Some(
            Piece { kind: PieceKind::King, color },
        ) && self.get_square(row, rook_col) == Some(Piece { kind: PieceKind::Rook, color })
            && self.get_square(row, 4 + w).is_none() && self.get_square(row, 4 + 2 * w).is_none()
            && (kingside || self.get_square(row, 1).is_none()) && !self.is_attacked(row, 4, foe)
            && !self.is_attacked(row, 4 + w, foe) && !self.is_attacked(row, 4 + 2 * w, foe)
    }

    /// Tells whether `m` is a move that `color` may make, check after the
    /// move aside.
    pub fn is_pseudo_legal(&self, m: Move, color: Color) -> (r: bool)
        ensures
            r == self@.pseudo_legal(m, color),
    {
        match m {
            Move::Piece(from, to) => self.step_is_allowed(color, from, to) && !self.is_promotion(
                color,
                from,
                to,
            ),
            Move::Promotion(from, to, piece) => self.step_is_allowed(color, from, to)
                && self.is_promotion(color, from, to) && piece.kind != PieceKind::Pawn
                && piece.kind != PieceKind::King && piece.color == color,
            Move::KingSideCastle => self.can_castle(color, true),
            Move::QueenSideCastle => self.can_castle(color, false),
            Move::Resign => false,
        }
    }

    /// The castling rights after a piece of `kind` and `color` went from
    /// `(fr, fc)` to `(tr, tc)`.
    fn next_rights(&self, color: Color, kind: PieceKind, fr: i32, fc: i32, tr: i32, tc: i32) -> (r:
        crate::board::CastlingRights)
        ensures
            r == self@.rights_after(color, kind, fr as int, fc as int, tr as int, tc as int),
    {
        let rights = self.get_castling_rights();
        let home = color.get_home_row();
        let own = if kind == PieceKind::King {
            rights.revoke(color, true).revoke(color, false)
        } else if kind == PieceKind::Rook && fr == home && fc == 7 {
            rights.revoke(color, true)
        } else if kind == PieceKind::Rook && fr == home && fc == 0 {
            rights.revoke(color, false)
        } else {
            rights
        };
        let foe = color.invert();
        let taken_rook = self.get_square(tr, tc) == Some(Piece { kind: PieceKind::Rook, color: foe })
            && tr == foe.get_home_row();
        if taken_rook && tc == 7 {
            own.revoke(foe, true)
        } else if taken_rook && tc == 0 {
            own.revoke(foe, false)
        } else {
            own
        }
    }

    /// The board after the piece of `color` on `from` went to `to`, where it
    /// was replaced by a piece of kind `promo` if one is given.
    fn move_piece(&self, color: Color, from: Position, to: Position, promo: Option<PieceKind>) -> (b:
        Board)
        requires
            self@.step_allowed(color, from.row(), from.col(), to.row(), to.col()),
        ensures
            b@ == self@.moved(color, from, to, promo),
    {
        let fr = from.get_row();
        let fc = from.get_col();
        let tr = to.get_row();
        let tc = to.get_col();
        let f = color.get_forward();
        let p = self.get_square(fr, fc).unwrap();
        let placed = match promo {
            Some(kind) => Piece { kind, color },
            None => p,
        };
        let passant = p.is_pawn() && self.can_take_en_passant(color, fr, fc, tr, tc);
        let capture = self.get_square(tr, tc).is_some() || passant;
        let rights = self.next_rights(color, p.kind, fr, fc, tr, tc);
        let lifted = BoardBuilder::from_board(self).set_square(fr, fc, None).set_square(
            tr,
            tc,
            Some(placed),
        );
        let cleared = if passant {
            lifted.set_square(fr, tc, None)
        } else {
            lifted
        };
        let target = if p.is_pawn() && absolute(tr - fr) == 2 {
            Position::new(fr + f, fc)
        } else {
            None
        };
        let half: u32 = if p.is_pawn() || capture {
            0
        } else {
            bumped(self.get_halfmove_clock())
        };
        let full = if color == Color::Black {
            bumped(self.get_fullmove_number())
        } else {
            self.get_fullmove_number()
        };
        cleared.turn(color.invert()).castling(rights).en_passant(target).halfmove_clock(
            half,
        ).fullmove_number(full).build()
    }

    /// The board after `color` castled on the given wing.
    fn castle(&self, color: Color, kingside: bool) -> (b: Board)
        ensures
            b@ == self@.castled(color, kingside),
    {
        let row = color.get_home_row();
        let w: i32 = if kingside {
            1
        } else {
            -1
        };
        let rook_col: i32 = if kingside {
            7
        } else {
            0
        };
        let full = if color == Color::Black {
            bumped(self.get_fullmove_number())
        } else {
            self.get_fullmove_number()
        };
        let rights = self.get_castling_rights().revoke(color, true).revoke(color, false);
        BoardBuilder::from_board(self).set_square(row, 4, None).set_square(
            row,
            rook_col,
            None,
        ).set_square(row, 4 + 2 * w, Some(Piece { kind: PieceKind::King, color })).set_square(
            row,
            4 + w,
            Some(Piece { kind: PieceKind::Rook, color }),
        ).turn(color.invert()).castling(rights).en_passant(None).halfmove_clock(
            bumped(self.get_halfmove_clock()),
        ).fullmove_number(full).build()
    }

    /// The board after `color` made the move `m`, which it may make.
    pub fn apply_move(&self, m: Move, color: Color) -> (b: Board)
        requires
            self@.pseudo_legal(m, color),
        ensures
            b@ == self@.apply(m, color),
    {
        match m {
            Move::Piece(from, to) => self.move_piece(color, from, to, None),
            Move::Promotion(from, to, piece) => self.move_piece(color, from, to, Some(piece.kind)),
            Move::KingSideCastle => self.castle(color, true),
            Move::QueenSideCastle => self.castle(color, false),
            Move::Resign => *self,
        }
    }

    /// Tells whether `m` is a legal move of `color`: one that `color` may
    /// make and that does not leave its king in check.
    pub fn is_legal_move(&self, m: Move, color: Color) -> (r: bool)
        ensures
            r == self@.legal(m, color),
    {
        self.is_pseudo_legal(m, color) && !self.apply_move(m, color).is_in_check(color)
    }

    /// Every legal move of `color`, in a fixed order: castling first, then
    /// the other moves by the square they start from and by their target.
    pub fn get_legal_moves_for(&self, color: Color) -> (moves: Vec<Move>)
        ensures
            moves@ == self@.legal_moves(color),
            forall|m: Move| moves@.contains(m) <==> self@.legal(m, color),
            forall|m: Move| moves@.contains(m) ==> !self@.apply(m, color).in_check(color),
            moves@.no_duplicates(),
    {
        proof {
            assert forall|m: Move| self@.legal_moves(color).contains(m) <==> self@.legal(
                m,
                color,
            ) by {
                lemma_legal_moves_exact(self@, color, m);
            }
            lemma_legal_moves_once(self@, color);
        }
        let mut moves: Vec<Move> = Vec::new();
        if self.is_legal_move(Move::KingSideCastle, color) {
            moves.push(Move::KingSideCastle);
        }
        assert(moves@ =~= self@.keep(Move::KingSideCastle, color));
        if self.is_legal_move(Move::QueenSideCastle, color) {
            moves.push(Move::QueenSideCastle);
        }
        let ghost head = self@.keep(Move::KingSideCastle, color) + self@.keep(
            Move::QueenSideCastle,
            color,
        );
        assert(moves@ =~= head);
        let mut fi: usize = 0;
        assert(moves@ =~= head + self@.moves_upto(color, 0));
        while fi < 64
            invariant
                0 <= fi <= 64,
                moves@ == head + self@.moves_upto(color, fi as int),
            decreases 64 - fi,
        {
            let ghost before = moves@;
            let from = Position::from_index(fi).unwrap();
            if self.holds_color(from.get_row(), from.get_col(), color) {
                let mut ti: usize = 0;
                assert(moves@ =~= before + self@.moves_from(color, fi as int, 0));
                while ti < 64
                    invariant
                        0 <= fi < 64,
                        0 <= ti <= 64,
                        from == square(fi as int),
                        moves@ == before + self@.moves_from(color, fi as int, ti as int),
                    decreases 64 - ti,
                {
                    let ghost base = moves@;
                    let to = Position::from_index(ti).unwrap();
                    if !self.step_is_allowed(color, from, to) {
                        proof {
                            lemma_blocked_pair(self@, color, from, to);
                        }
                    } else if self.is_promotion(color, from, to) {
                        let mut k: usize = 0;
                        assert(moves@ =~= base + self@.promotions(color, from, to, 0));
                        while k < 4
                            invariant
                                0 <= k <= 4,
                                moves@ == base + self@.promotions(color, from, to, k as int),
                            decreases 4 - k,
                        {
                            let ghost sofar = self@.promotions(color, from, to, k as int);
                            let m = Move::Promotion(
                                from,
                                to,
                                Piece { kind: promotion_choice(k), color },
                            );
                            if self.is_legal_move(m, color) {
                                moves.push(m);
                            }
                            assert(moves@ =~= base + (sofar + self@.keep(m, color)));
                            k = k + 1;
                        }
                        assert(self@.keep(Move::Piece(from, to), color) =~= Seq::<Move>::empty());
                        assert(moves@ =~= base + self@.moves_between(color, from, to));
                    } else {
                        let m = Move::Piece(from, to);
                        if self.is_legal_move(m, color) {
                            moves.push(m);
                        }
                        proof {
                            lemma_no_promotions(self@, color, from, to, 4);
                        }
                        assert(moves@ =~= base + self@.moves_between(color, from, to));
                    }
                    assert(before + (self@.moves_from(color, fi as int, ti as int)
                        + self@.moves_between(color, from, to)) =~= base + self@.moves_between(
                        color,
                        from,
                        to,
                    ));
                    ti = ti + 1;
                }
            } else {
                proof {
                    lemma_idle_square(self@, color, fi as int, 64);
                }
            }
            assert(head + (self@.moves_upto(color, fi as int) + self@.moves_from(
                color,
                fi as int,
                64,
            )) =~= before + self@.moves_from(color, fi as int, 64));
            fi = fi + 1;
        }
        proof {
            assert forall|m: Move| moves@.contains(m) implies !self@.apply(m, color).in_check(
                color,
            ) by {
                lemma_legal_moves_exact(self@, color, m);
            }
        }
        moves
    }

    /// Every legal move of the side to move.
    pub fn get_legal_moves(&self) -> (moves: Vec<Move>)
        ensures
            moves@ == self@.legal_moves(self@.turn),
            forall|m: Move| moves@.contains(m) <==> self@.legal(m, self@.turn),
            forall|m: Move| moves@.contains(m) ==> !self@.apply(m, self@.turn).in_check(self@.turn),
            moves@.no_duplicates(),
    {
        self.get_legal_moves_for(self.get_turn_color())
    }

    /// How many pieces of the given kind and color stand on the board.
    pub fn count_pieces(&self, kind: PieceKind, color: Color) -> (n: u32)
        ensures
            n == self@.count(kind, color, 64),
    {
        let wanted = Some(Piece { kind, color });
        let mut n: u32 = 0;
        let mut i: i32 = 0;
        while i < 64
            invariant
                0 <= i <= 64,
                0 <= n <= i,
                wanted == Some(Piece { kind, color }),
                n == self@.count(kind, color, i as int),
            decreases 64 - i,
        {
            if self.get_square(i / 8, i % 8) == wanted {
                n = n + 1;
            }
            i = i + 1;
        }
        n
    }

    /// Tells whether `color` lacks the material to mate.
    pub fn has_insufficient_material(&self, color: Color) -> (r: bool)
        ensures
            r == self@.insufficient_material(color),
    {
        let knights = self.count_pieces(PieceKind::Knight, color);
        let bishops = self.count_pieces(PieceKind::Bishop, color);
        self.count_pieces(PieceKind::Pawn, color) == 0 && self.count_pieces(PieceKind::Rook, color)
            == 0 && self.count_pieces(PieceKind::Queen, color) == 0 && ((knights <= 2 && bishops
            == 0) || (bishops <= 2 && knights == 0))
    }

    /// Tells whether the side to move is checkmated.
    pub fn is_checkmate(&self) -> (r: bool)
        ensures
            r == self@.is_checkmate(),
    {
        self.is_in_check(self.get_turn_color()) && self.get_legal_moves().len() == 0
    }

    /// Tells whether the game is drawn.
    pub fn is_stalemate(&self) -> (r: bool)
        ensures
            r == self@.is_stalemate(),
    {
        (!self.is_in_check(self.get_turn_color()) && self.get_legal_moves().len() == 0) || (
        self.has_insufficient_material(Color::White) && self.has_insufficient_material(
            Color::Black,
        ))
    }

    /// Plays `m` for the side to move and tells what came of it.
    ///
    /// The board itself stays as it is: where the game goes on, the result
    /// holds the new board.
    pub fn play_move(&self, m: Move) -> (r: GameResult)
        ensures
            r@ == self@.outcome(m),
    {
        let color = self.get_turn_color();
        if m == Move::Resign {
            return GameResult::Victory(color.invert());
        }
        if !self.is_legal_move(m, color) {
            return GameResult::IllegalMove(m);
        }
        let next = self.apply_move(m, color);
        if next.is_checkmate() {
            GameResult::Victory(color)
        } else if next.is_stalemate() {
            GameResult::Stalemate
        } else {
            GameResult::Continuing(next)
        }
    }
}

/// No promotion from `from` to `to` is legal where the move does not take a
/// pawn to its last row.
pub proof fn lemma_no_promotions(v: BoardView, color: Color, from: Position, to: Position, n: int)
    requires
        !v.step_allowed(color, from.row(), from.col(), to.row(), to.col()) || !v.promotes(
            color,
            from.row(),
            from.col(),
            to.row(),
        ),
    ensures
        v.promotions(color, from, to, n) == Seq::<Move>::empty(),
    decreases n,
{
    if n > 0 {
        lemma_no_promotions(v, color, from, to, n - 1);
        assert(v.promotions(color, from, to, n) =~= Seq::<Move>::empty());
    }
}

/// No move from `from` to `to` is legal where the piece may not make the
/// step.
pub proof fn lemma_blocked_pair(v: BoardView, color: Color, from: Position, to: Position)
    requires
        !v.step_allowed(color, from.row(), from.col(), to.row(), to.col()),
    ensures
        v.moves_between(color, from, to) == Seq::<Move>::empty(),
{
    lemma_no_promotions(v, color, from, to, 4);
    assert(v.moves_between(color, from, to) =~= Seq::<Move>::empty());
}

/// No move is legal from a square that holds no piece of `color`.
pub proof fn lemma_idle_square(v: BoardView, color: Color, from: int, n: int)
    requires
        !v.holds(square(from).row(), square(from).col(), color),
    ensures
        v.moves_from(color, from, n) == Seq::<Move>::empty(),
    decreases n,
{
    if n > 0 {
        lemma_idle_square(v, color, from, n - 1);
        lemma_blocked_pair(v, color, square(from), square(n - 1));
        assert(v.moves_from(color, from, n) =~= Seq::<Move>::empty());
    }
}

} // verus!
