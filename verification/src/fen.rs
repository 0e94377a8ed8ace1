//! Forsyth-Edwards Notation: the text of a position.

use crate::board::{Board, BoardBuilder, BoardView, CastlingRights};
use crate::color::Color;
use crate::piece::{Piece, PieceKind};
use crate::position::Position;
use crate::text::{decimal_text, digit_char, push_decimal, string_from};
use vstd::prelude::*;

verus! {

/// The letter of a kind of piece, in upper case.
pub open spec fn kind_char(kind: PieceKind) -> char {
    match kind {
        PieceKind::Pawn => 'P',
        PieceKind::Knight => 'N',
        PieceKind::Bishop => 'B',
        PieceKind::Rook => 'R',
        PieceKind::Queen => 'Q',
        PieceKind::King => 'K',
    }
}

/// The letter of a piece: upper case for White, lower case for Black.
pub open spec fn piece_char(p: Piece) -> char {
    match p.color {
        Color::White => kind_char(p.kind),
        Color::Black => ((kind_char(p.kind) as u32) + 32) as char,
    }
}

/// The digit for a run of `run` empty squares, and nothing for no run.
pub open spec fn run_text(run: int) -> Seq<char> {
    if run > 0 {
        seq![digit_char(run)]
    } else {
        Seq::empty()
    }
}

/// The letter of the side to move.
pub open spec fn turn_char(color: Color) -> char {
    match color {
        Color::White => 'w',
        Color::Black => 'b',
    }
}

/// `c` alone if `flag` holds, and nothing otherwise.
pub open spec fn flag_text(flag: bool, c: char) -> Seq<char> {
    if flag {
        seq![c]
    } else {
        Seq::empty()
    }
}

/// The castling field: the letters of the rights that are held, or a dash
/// where none is.
pub open spec fn castling_text(rights: CastlingRights) -> Seq<char> {
    if rights == CastlingRights::none() {
        seq!['-']
    } else {
        flag_text(rights.white_kingside, 'K') + flag_text(rights.white_queenside, 'Q')
            + flag_text(rights.black_kingside, 'k') + flag_text(rights.black_queenside, 'q')
    }
}

/// The en-passant field: the name of the target square, or a dash.
pub open spec fn en_passant_text(target: Option<Position>) -> Seq<char> {
    match target {
        Some(p) => p.name_text(),
        None => seq!['-'],
    }
}

impl BoardView {
    /// The text of the squares of `row` from column `col` on, with `run`
    /// empty squares met just before: pieces by their letters, runs of empty
    /// squares by their length.
    pub open spec fn rank_text(self, row: int, col: int, run: int) -> Seq<char>
        decreases 8 - col,
    {
        if col >= 8 {
            run_text(run)
        } else {
            match self.at(row, col) {
                None => self.rank_text(row, col + 1, run + 1),
                Some(p) => run_text(run) + seq![piece_char(p)] + self.rank_text(row, col + 1, 0),
            }
        }
    }

    /// The text of the rows from `row` down to row 0, with a slash between
    /// one row and the next.
    pub open spec fn ranks_text(self, row: int) -> Seq<char>
        decreases row,
    {
        if row <= 0 {
            self.rank_text(0, 0, 0)
        } else {
            self.rank_text(row, 0, 0) + seq!['/'] + self.ranks_text(row - 1)
        }
    }

    /// The two counters, the half-move clock and the move number, with a
    /// space between them.
    pub open spec fn counters_text(self) -> Seq<char> {
        decimal_text(self.halfmove_clock) + (seq![' '] + decimal_text(self.fullmove_number))
    }

    /// The fields that follow the placement of the pieces, each after a
    /// space: the side to move, the castling rights, the en-passant target
    /// and the two counters.
    pub open spec fn fields_text(self) -> Seq<char> {
        seq![' ', turn_char(self.turn), ' '] + (castling_text(self.castling) + (seq![' '] + (
        en_passant_text(self.en_passant) + (seq![' '] + self.counters_text()))))
    }

    /// The position in Forsyth-Edwards Notation: the placement of the
    /// pieces, the side to move, the castling rights, the en-passant target,
    /// the half-move clock and the move number, with a space between one
    /// field and the next.
    pub open spec fn fen_text(self) -> Seq<char> {
        self.ranks_text(7) + self.fields_text()
    }
}

/// The letter of a piece.
pub fn piece_letter(p: Piece) -> (c: char)
    ensures
        c == piece_char(p),
{
    let upper: u8 = match p.kind {
        PieceKind::Pawn => 80,
        PieceKind::Knight => 78,
        PieceKind::Bishop => 66,
        PieceKind::Rook => 82,
        PieceKind::Queen => 81,
        PieceKind::King => 75,
    };
    match p.color {
        Color::White => upper as char,
        Color::Black => (upper + 32) as char,
    }
}

impl Board {
    /// Appends the text of one row to `out`.
    fn push_rank(&self, row: i32, out: &mut Vec<char>)
        requires
            0 <= row < 8,
        ensures
            final(out)@ == old(out)@ + self@.rank_text(row as int, 0, 0),
    {
        let mut col: i32 = 0;
        let mut run: u8 = 0;
        assert(out@ + self@.rank_text(row as int, 0, 0) =~= old(out)@ + self@.rank_text(
            row as int,
            0,
            0,
        ));
        while col < 8
            invariant
                0 <= row < 8,
                0 <= col <= 8,
                0 <= run <= col,
                out@ + self@.rank_text(row as int, col as int, run as int) == old(out)@
                    + self@.rank_text(row as int, 0, 0),
            decreases 8 - col,
        {
            let ghost sofar = out@;
            let ghost rest = self@.rank_text(row as int, col + 1, 0);
            match self.get_square(row, col) {
                Some(p) => {
                    if run > 0 {
                        out.push((48u8 + run) as char);
                    }
                    out.push(piece_letter(p));
                    assert(out@ + rest =~= sofar + (run_text(run as int) + seq![piece_char(p)]
                        + rest));
                    run = 0;
                },
                None => {
                    run = run + 1;
                },
            }
            col = col + 1;
        }
        let ghost sofar = out@;
        if run > 0 {
            out.push((48u8 + run) as char);
        }
        assert(out@ =~= sofar + run_text(run as int));
    }

    /// Appends the text of the rows from `row` down to row 0 to `out`.
    fn push_ranks(&self, row: i32, out: &mut Vec<char>)
        requires
            0 <= row < 8,
        ensures
            final(out)@ == old(out)@ + self@.ranks_text(row as int),
        decreases row,
    {
        self.push_rank(row, out);
        if row > 0 {
            out.push('/');
            self.push_ranks(row - 1, out);
            assert(out@ =~= old(out)@ + (self@.rank_text(row as int, 0, 0) + seq!['/']
                + self@.ranks_text(row - 1)));
        }
    }

    /// Appends the two counters to `out`.
    fn push_counters(&self, out: &mut Vec<char>)
        ensures
            final(out)@ == old(out)@ + self@.counters_text(),
    {
        push_decimal(out, self.get_halfmove_clock() as u64);
        let ghost half = out@;
        out.push(' ');
        push_decimal(out, self.get_fullmove_number() as u64);
        assert(out@ =~= old(out)@ + (decimal_text(self@.halfmove_clock) + (seq![' ']
            + decimal_text(self@.fullmove_number))));
    }

    /// Appends the fields that follow the placement of the pieces to `out`.
    fn push_fields(&self, out: &mut Vec<char>)
        ensures
            final(out)@ == old(out)@ + self@.fields_text(),
    {
        let ghost counters = self@.counters_text();
        let ghost target = en_passant_text(self@.en_passant);
        let ghost rights = castling_text(self@.castling);
        let ghost turn = seq![' ', turn_char(self@.turn), ' '];
        let ghost t3 = seq![' '] + counters;
        let ghost t2 = target + t3;
        let ghost t1 = seq![' '] + t2;
        let ghost t0 = rights + t1;
        push_turn(self.get_turn_color(), out);
        let ghost o1 = out@;
        push_castling(self.get_castling_rights(), out);
        let ghost o2 = out@;
        out.push(' ');
        let ghost o3 = out@;
        push_en_passant(self.get_en_passant(), out);
        let ghost o4 = out@;
        out.push(' ');
        let ghost o5 = out@;
        self.push_counters(out);
        assert(out@ =~= o4 + t3);
        assert(o4 + t3 =~= o3 + t2);
        assert(o3 + t2 =~= o2 + t1);
        assert(o2 + t1 =~= o1 + t0);
        assert(o1 + t0 =~= old(out)@ + (turn + t0));
    }

    /// The position in Forsyth-Edwards Notation, with `halfmove_number` in
    /// place of the board's own half-move clock.
    pub fn fen_with_halfmove(&self, halfmove_number: u32) -> (s: String)
        ensures
            s@ == (BoardView { halfmove_clock: halfmove_number as nat, ..self@ }).fen_text(),
            (BoardView { halfmove_clock: halfmove_number as nat, ..self@ }).holdable(),
            parse_fen(s@) == Some(BoardView { halfmove_clock: halfmove_number as nat, ..self@ }),
    {
        BoardBuilder::from_board(self).halfmove_clock(halfmove_number).build().fen()
    }

    /// The position in Forsyth-Edwards Notation. The text reads back as the
    /// board: `build_from_fen` gives the board again.
    pub fn fen(&self) -> (s: String)
        ensures
            s@ == self@.fen_text(),
            self@.holdable(),
            parse_fen(s@) == Some(self@),
            Board::of_view(self@) == *self,
    {
        proof {
            self.lemma_of_view();
        }
        let mut out: Vec<char> = Vec::new();
        let _ = self.get_en_passant();
        self.push_ranks(7, &mut out);
        self.push_fields(&mut out);
        assert(out@ =~= self@.fen_text());
        proof {
            crate::fen_laws::lemma_fen_round_trip(self@);
        }
        string_from(&out)
    }
}

/// Appends the field of the side to move, with the spaces around it.
fn push_turn(color: Color, out: &mut Vec<char>)
    ensures
        final(out)@ == old(out)@ + seq![' ', turn_char(color), ' '],
{
    out.push(' ');
    out.push(
        match color {
            Color::White => 'w',
            Color::Black => 'b',
        },
    );
    out.push(' ');
    assert(out@ =~= old(out)@ + seq![' ', turn_char(color), ' ']);
}

/// Appends `c` if `flag` holds.
fn push_flag(flag: bool, c: char, out: &mut Vec<char>)
    ensures
        final(out)@ == old(out)@ + flag_text(flag, c),
{
    if flag {
        out.push(c);
    }
    assert(out@ =~= old(out)@ + flag_text(flag, c));
}

/// Appends the castling field.
fn push_castling(rights: CastlingRights, out: &mut Vec<char>)
    ensures
        final(out)@ == old(out)@ + castling_text(rights),
{
    if !rights.white_kingside && !rights.white_queenside && !rights.black_kingside
        && !rights.black_queenside {
        out.push('-');
        assert(out@ =~= old(out)@ + castling_text(rights));
    } else {
        push_flag(rights.white_kingside, 'K', out);
        push_flag(rights.white_queenside, 'Q', out);
        push_flag(rights.black_kingside, 'k', out);
        push_flag(rights.black_queenside, 'q', out);
        assert(out@ =~= old(out)@ + (flag_text(rights.white_kingside, 'K') + flag_text(
            rights.white_queenside,
            'Q',
        ) + flag_text(rights.black_kingside, 'k') + flag_text(rights.black_queenside, 'q')));
    }
}

/// Appends the en-passant field.
fn push_en_passant(target: Option<Position>, out: &mut Vec<char>)
    ensures
        final(out)@ == old(out)@ + en_passant_text(target),
{
    match target {
        Some(p) => {
            out.push(p.file_letter());
            out.push(p.rank_digit());
        },
        None => {
            out.push('-');
        },
    }
    assert(out@ =~= old(out)@ + en_passant_text(target));
}

/// The piece that the letter `c` stands for.
pub open spec fn piece_of_char(c: char) -> Option<Piece> {
    if c == 'P' {
        Some(Piece { kind: PieceKind::Pawn, color: Color::White })
    } else if c == 'N' {
        Some(Piece { kind: PieceKind::Knight, color: Color::White })
    } else if c == 'B' {
        Some(Piece { kind: PieceKind::Bishop, color: Color::White })
    } else if c == 'R' {
        Some(Piece { kind: PieceKind::Rook, color: Color::White })
    } else if c == 'Q' {
        Some(Piece { kind: PieceKind::Queen, color: Color::White })
    } else if c == 'K' {
        Some(Piece { kind: PieceKind::King, color: Color::White })
    } else if c == 'p' {
        Some(Piece { kind: PieceKind::Pawn, color: Color::Black })
    } else if c == 'n' {
        Some(Piece { kind: PieceKind::Knight, color: Color::Black })
    } else if c == 'b' {
        Some(Piece { kind: PieceKind::Bishop, color: Color::Black })
    } else if c == 'r' {
        Some(Piece { kind: PieceKind::Rook, color: Color::Black })
    } else if c == 'q' {
        Some(Piece { kind: PieceKind::Queen, color: Color::Black })
    } else if c == 'k' {
        Some(Piece { kind: PieceKind::King, color: Color::Black })
    } else {
        None
    }
}

/// The length of the run of empty squares that the digit `c` stands for.
pub open spec fn run_of(c: char) -> Option<int> {
    let n = c as u32;
    if 49 <= n <= 56 {
        Some(n - 48)
    } else {
        None
    }
}

/// The value of the decimal digit `c`.
pub open spec fn digit_of(c: char) -> Option<int> {
    let n = c as u32;
    if 48 <= n <= 57 {
        Some(n - 48)
    } else {
        None
    }
}

/// The file that the lower-case letter `c` names.
pub open spec fn lower_file_of(c: char) -> Option<int> {
    let n = c as u32;
    if 97 <= n <= 104 {
        Some(n - 97)
    } else {
        None
    }
}

/// The side to move that the letter `c` stands for.
pub open spec fn turn_of(c: char) -> Option<Color> {
    if c == 'w' {
        Some(Color::White)
    } else if c == 'b' {
        Some(Color::Black)
    } else {
        None
    }
}

/// Reads the rest of one row, from column `col` on, at `pos` in `s`, onto
/// `acc`: a letter puts its piece on the next square, a digit from 1 to 8
/// skips as many squares, and any other character, or the end of the text,
/// ends the row, which must then be full. Yields the board and the place
/// where the row ends.
pub open spec fn read_rank(s: Seq<char>, pos: int, row: int, col: int, acc: BoardView) -> Option<
    (BoardView, int),
>
    decreases s.len() - pos,
{
    if pos < 0 || col < 0 || col > 8 {
        None
    } else if pos < s.len() && piece_of_char(s[pos]) is Some {
        if col >= 8 {
            None
        } else {
            read_rank(s, pos + 1, row, col + 1, acc.put(row, col, piece_of_char(s[pos])))
        }
    } else if pos < s.len() && run_of(s[pos]) is Some {
        if col + run_of(s[pos])->0 > 8 {
            None
        } else {
            read_rank(s, pos + 1, row, col + run_of(s[pos])->0, acc)
        }
    } else if col == 8 {
        Some((acc, pos))
    } else {
        None
    }
}

/// Reads the rows from `row` down to row 0, with a slash between one row and
/// the next, at `pos` in `s`, onto `acc`.
pub open spec fn read_ranks(s: Seq<char>, pos: int, row: int, acc: BoardView) -> Option<
    (BoardView, int),
>
    decreases row,
{
    if row < 0 {
        None
    } else {
        match read_rank(s, pos, row, 0, acc) {
            None => None,
            Some(r) => if row == 0 {
                Some(r)
            } else if r.1 < s.len() && s[r.1] == '/' {
                read_ranks(s, r.1 + 1, row - 1, r.0)
            } else {
                None
            },
        }
    }
}

/// The place after the letter `c` if it stands at `pos` in `s`, and `pos`
/// itself if it does not.
pub open spec fn read_flag(s: Seq<char>, pos: int, c: char) -> int {
    if 0 <= pos < s.len() && s[pos] == c {
        pos + 1
    } else {
        pos
    }
}

/// Reads the castling field at `pos` in `s`: a dash, or one or more of the
/// letters `K`, `Q`, `k` and `q`, in this order.
pub open spec fn read_castling(s: Seq<char>, pos: int) -> Option<(CastlingRights, int)> {
    let past_wk = read_flag(s, pos, 'K');
    let past_wq = read_flag(s, past_wk, 'Q');
    let past_bk = read_flag(s, past_wq, 'k');
    let past_bq = read_flag(s, past_bk, 'q');
    if 0 <= pos < s.len() && s[pos] == '-' {
        Some((CastlingRights::none(), pos + 1))
    } else if past_bq == pos {
        None
    } else {
        Some(
            (
                CastlingRights {
                    white_kingside: past_wk != pos,
                    white_queenside: past_wq != past_wk,
                    black_kingside: past_bk != past_wq,
                    black_queenside: past_bq != past_bk,
                },
                past_bq,
            ),
        )
    }
}

/// Reads the en-passant field at `pos` in `s`: a dash, or the name of a
/// square in lower case.
pub open spec fn read_en_passant(s: Seq<char>, pos: int) -> Option<(Option<Position>, int)> {
    if 0 <= pos < s.len() && s[pos] == '-' {
        Some((None, pos + 1))
    } else if 0 <= pos && pos + 1 < s.len() && lower_file_of(s[pos]) is Some && crate::position::rank_of(
        s[pos + 1],
    ) is Some {
        Some(
            (
                Some(
                    Position::at(
                        crate::position::rank_of(s[pos + 1])->0,
                        lower_file_of(s[pos])->0,
                    ),
                ),
                pos + 2,
            ),
        )
    } else {
        None
    }
}

/// Reads the decimal digits at `pos` in `s` after digits that came to
/// `acc`. Yields the number and the place where the digits end.
pub open spec fn read_digits(s: Seq<char>, pos: int, acc: nat) -> (nat, int)
    decreases s.len() - pos,
{
    if 0 <= pos < s.len() && digit_of(s[pos]) is Some {
        read_digits(s, pos + 1, (acc * 10 + digit_of(s[pos])->0) as nat)
    } else {
        (acc, pos)
    }
}

/// Reads a decimal number at `pos` in `s`: one or more digits that come to
/// no more than a counter of a board can hold.
pub open spec fn read_number(s: Seq<char>, pos: int) -> Option<(nat, int)> {
    let r = read_digits(s, pos, 0);
    if r.1 > pos && r.0 <= 0xFFFF_FFFF {
        Some(r)
    } else {
        None
    }
}

/// Reads the two counters, and the end of the text, at `pos` in `s`, and
/// completes the board.
pub open spec fn read_counters(s: Seq<char>, pos: int, sofar: BoardView) -> Option<BoardView> {
    match read_number(s, pos) {
        None => None,
        Some(half) => if !(half.1 < s.len() && s[half.1] == ' ') {
            None
        } else {
            match read_number(s, half.1 + 1) {
                None => None,
                Some(full) => if full.1 != s.len() {
                    None
                } else {
                    Some(BoardView { halfmove_clock: half.0, fullmove_number: full.0, ..sofar })
                },
            }
        },
    }
}

/// Reads the fields that follow the placement of the pieces, at `pos` in
/// `s`, and completes the board.
pub open spec fn read_fields(s: Seq<char>, pos: int, placed: BoardView) -> Option<BoardView> {
    if !(0 <= pos && pos + 2 < s.len() && s[pos] == ' ' && turn_of(s[pos + 1]) is Some && s[pos
        + 2] == ' ') {
        None
    } else {
        match read_castling(s, pos + 3) {
            None => None,
            Some(rights) => if !(rights.1 < s.len() && s[rights.1] == ' ') {
                None
            } else {
                match read_en_passant(s, rights.1 + 1) {
                    None => None,
                    Some(target) => if !(target.1 < s.len() && s[target.1] == ' ') {
                        None
                    } else {
                        read_counters(
                            s,
                            target.1 + 1,
                            BoardView {
                                turn: turn_of(s[pos + 1])->0,
                                castling: rights.0,
                                en_passant: target.0,
                                ..placed
                            },
                        )
                    },
                }
            },
        }
    }
}

/// The board that the text `s` stands for in Forsyth-Edwards Notation, if it
/// stands for one: eight rows of eight squares each, then the side to move,
/// the castling rights, the en-passant target and the two counters, each
/// after one space.
pub open spec fn parse_fen(s: Seq<char>) -> Option<BoardView> {
    match read_ranks(s, 0, 7, BoardView::empty()) {
        None => None,
        Some(r) => read_fields(s, r.1, r.0),
    }
}

/// Whether `r` is what reading the text `s` gives: the board that `s` stands
/// for, or the message that says that it stands for none.
pub open spec fn reads_as(s: Seq<char>, r: Result<Board, String>) -> bool {
    match parse_fen(s) {
        Some(v) => r matches Ok(b) && b@ == v && b == Board::of_view(v),
        None => r matches Err(e) && e@ == fen_error_text(s),
    }
}

/// The message for a text that stands for no board.
pub open spec fn fen_error_text(s: Seq<char>) -> Seq<char> {
    "invalid FEN `"@ + s + "`"@
}

/// The piece that a letter stands for.
fn letter_piece(c: char) -> (r: Option<Piece>)
    ensures
        r == piece_of_char(c),
{
    if c == 'P' {
        Some(Piece { kind: PieceKind::Pawn, color: Color::White })
    } else if c == 'N' {
        Some(Piece { kind: PieceKind::Knight, color: Color::White })
    } else if c == 'B' {
        Some(Piece { kind: PieceKind::Bishop, color: Color::White })
    } else if c == 'R' {
        Some(Piece { kind: PieceKind::Rook, color: Color::White })
    } else if c == 'Q' {
        Some(Piece { kind: PieceKind::Queen, color: Color::White })
    } else if c == 'K' {
        Some(Piece { kind: PieceKind::King, color: Color::White })
    } else if c == 'p' {
        Some(Piece { kind: PieceKind::Pawn, color: Color::Black })
    } else if c == 'n' {
        Some(Piece { kind: PieceKind::Knight, color: Color::Black })
    } else if c == 'b' {
        Some(Piece { kind: PieceKind::Bishop, color: Color::Black })
    } else if c == 'r' {
        Some(Piece { kind: PieceKind::Rook, color: Color::Black })
    } else if c == 'q' {
        Some(Piece { kind: PieceKind::Queen, color: Color::Black })
    } else if c == 'k' {
        Some(Piece { kind: PieceKind::King, color: Color::Black })
    } else {
        None
    }
}

/// Reads one row of the placement at `pos`.
fn scan_rank(v: &Vec<char>, pos: usize, row: i32, acc: BoardBuilder) -> (r: Option<
    (BoardBuilder, usize),
>)
    requires
        0 <= row < 8,
        pos <= v.len(),
    ensures
        match read_rank(v@, pos as int, row as int, 0, acc@) {
            Some(x) => r matches Some(y) && y.0@ == x.0 && y.1 == x.1 && y.1 <= v.len(),
            None => r is None,
        },
{
    let mut at: usize = pos;
    let mut col: i32 = 0;
    let mut b = acc;
    let mut ended = false;
    while at < v.len() && !ended
        invariant
            0 <= row < 8,
            0 <= col <= 8,
            pos <= at <= v.len(),
            ended ==> at < v.len() && piece_of_char(v@[at as int]) is None && run_of(
                v@[at as int],
            ) is None,
            read_rank(v@, pos as int, row as int, 0, acc@) == read_rank(
                v@,
                at as int,
                row as int,
                col as int,
                b@,
            ),
        decreases v.len() - at + if ended { 0int } else { 1int },
    {
        let c = v[at];
        let n: u32 = c as u32;
        match letter_piece(c) {
            Some(p) => {
                if col >= 8 {
                    return None;
                }
                b = b.set_square(row, col, Some(p));
                col = col + 1;
                at = at + 1;
            },
            None => {
                if 49 <= n && n <= 56 {
                    let d: i32 = (n - 48) as i32;
                    if col + d > 8 {
                        return None;
                    }
                    col = col + d;
                    at = at + 1;
                } else {
                    ended = true;
                }
            },
        }
    }
    if col == 8 {
        Some((b, at))
    } else {
        None
    }
}

/// Reads the rows from `row` down to row 0 at `pos`.
fn scan_ranks(v: &Vec<char>, pos: usize, row: i32, acc: BoardBuilder) -> (r: Option<
    (BoardBuilder, usize),
>)
    requires
        0 <= row < 8,
        pos <= v.len(),
    ensures
        match read_ranks(v@, pos as int, row as int, acc@) {
            Some(x) => r matches Some(y) && y.0@ == x.0 && y.1 == x.1 && y.1 <= v.len(),
            None => r is None,
        },
    decreases row,
{
    match scan_rank(v, pos, row, acc) {
        None => None,
        Some((b, end)) => {
            if row == 0 {
                Some((b, end))
            } else if end < v.len() && v[end] == '/' {
                scan_ranks(v, end + 1, row - 1, b)
            } else {
                None
            }
        },
    }
}

/// The place after the letter `c` if it stands at `pos`.
fn scan_flag(v: &Vec<char>, pos: usize, c: char) -> (r: usize)
    requires
        pos <= v.len(),
    ensures
        r == read_flag(v@, pos as int, c),
        pos <= r <= v.len(),
{
    if pos < v.len() && v[pos] == c {
        pos + 1
    } else {
        pos
    }
}

/// Reads the castling field at `pos`.
fn scan_castling(v: &Vec<char>, pos: usize) -> (r: Option<(CastlingRights, usize)>)
    requires
        pos <= v.len(),
    ensures
        match read_castling(v@, pos as int) {
            Some(x) => r == Some((x.0, x.1 as usize)) && x.1 <= v.len(),
            None => r is None,
        },
{
    if pos < v.len() && v[pos] == '-' {
        return Some(
            (
                CastlingRights {
                    white_kingside: false,
                    white_queenside: false,
                    black_kingside: false,
                    black_queenside: false,
                },
                pos + 1,
            ),
        );
    }
    let past_wk = scan_flag(v, pos, 'K');
    let past_wq = scan_flag(v, past_wk, 'Q');
    let past_bk = scan_flag(v, past_wq, 'k');
    let past_bq = scan_flag(v, past_bk, 'q');
    if past_bq == pos {
        None
    } else {
        Some(
            (
                CastlingRights {
                    white_kingside: past_wk != pos,
                    white_queenside: past_wq != past_wk,
                    black_kingside: past_bk != past_wq,
                    black_queenside: past_bq != past_bk,
                },
                past_bq,
            ),
        )
    }
}

/// Reads the en-passant field at `pos`.
fn scan_en_passant(v: &Vec<char>, pos: usize) -> (r: Option<(Option<Position>, usize)>)
    requires
        pos <= v.len(),
    ensures
        match read_en_passant(v@, pos as int) {
            Some(x) => r == Some((x.0, x.1 as usize)) && x.1 <= v.len(),
            None => r is None,
        },
{
    if pos < v.len() && v[pos] == '-' {
        return Some((None, pos + 1));
    }
    if pos < v.len() && v.len() - pos > 1 {
        let f: u32 = v[pos] as u32;
        let k: u32 = v[pos + 1] as u32;
        if 97 <= f && f <= 104 && 49 <= k && k <= 56 {
            return Some((Position::new((k - 49) as i32, (f - 97) as i32), pos + 2));
        }
    }
    None
}

/// Reads a decimal number at `pos`.
fn scan_number(v: &Vec<char>, pos: usize) -> (r: Option<(u32, usize)>)
    requires
        pos <= v.len(),
    ensures
        match read_number(v@, pos as int) {
            Some(x) => r == Some((x.0 as u32, x.1 as usize)) && x.1 <= v.len(),
            None => r is None,
        },
{
    let mut at: usize = pos;
    let mut acc: u64 = 0;
    let mut ended = false;
    while at < v.len() && !ended
        invariant
            pos <= at <= v.len(),
            acc <= 0xFFFF_FFFF,
            ended ==> at < v.len() && digit_of(v@[at as int]) is None,
            read_digits(v@, pos as int, 0) == read_digits(v@, at as int, acc as nat),
        decreases v.len() - at + if ended { 0int } else { 1int },
    {
        let n: u32 = v[at] as u32;
        if 48 <= n && n <= 57 {
            acc = acc * 10 + (n - 48) as u64;
            if acc > 0xFFFF_FFFF {
                proof {
                    lemma_digits_grow(v@, at + 1, acc as nat);
                }
                return None;
            }
            at = at + 1;
        } else {
            ended = true;
        }
    }
    if at > pos {
        Some((acc as u32, at))
    } else {
        None
    }
}

/// Reading more digits does not make a number smaller, and does not go
/// back in the text.
pub proof fn lemma_digits_grow(s: Seq<char>, pos: int, acc: nat)
    ensures
        read_digits(s, pos, acc).0 >= acc,
        read_digits(s, pos, acc).1 >= pos,
        read_digits(s, pos, acc).1 <= s.len() || read_digits(s, pos, acc).1 == pos,
    decreases s.len() - pos,
{
    if 0 <= pos < s.len() && digit_of(s[pos]) is Some {
        lemma_digits_grow(s, pos + 1, (acc * 10 + digit_of(s[pos])->0) as nat);
    }
}

/// Reads the two counters and the end of the text at `pos`.
fn scan_counters(v: &Vec<char>, pos: usize, sofar: BoardBuilder) -> (r: Option<Board>)
    requires
        pos <= v.len(),
    ensures
        match read_counters(v@, pos as int, sofar@) {
            Some(x) => r matches Some(b) && b@ == x,
            None => r is None,
        },
{
    match scan_number(v, pos) {
        None => None,
        Some((half, half_end)) => {
            if !(half_end < v.len() && v[half_end] == ' ') {
                return None;
            }
            match scan_number(v, half_end + 1) {
                None => None,
                Some((full, full_end)) => {
                    if full_end != v.len() {
                        return None;
                    }
                    Some(sofar.halfmove_clock(half).fullmove_number(full).build())
                },
            }
        },
    }
}

/// Reads the fields that follow the placement of the pieces at `pos`.
fn scan_fields(v: &Vec<char>, pos: usize, placed: BoardBuilder) -> (r: Option<Board>)
    requires
        pos <= v.len(),
    ensures
        match read_fields(v@, pos as int, placed@) {
            Some(x) => r matches Some(b) && b@ == x,
            None => r is None,
        },
{
    if !(pos < v.len() && v.len() - pos > 2 && v[pos] == ' ' && v[pos + 2] == ' ') {
        return None;
    }
    let turn = if v[pos + 1] == 'w' {
        Color::White
    } else if v[pos + 1] == 'b' {
        Color::Black
    } else {
        return None;
    };
    match scan_castling(v, pos + 3) {
        None => None,
        Some((rights, rights_end)) => {
            if !(rights_end < v.len() && v[rights_end] == ' ') {
                return None;
            }
            match scan_en_passant(v, rights_end + 1) {
                None => None,
                Some((target, target_end)) => {
                    if !(target_end < v.len() && v[target_end] == ' ') {
                        return None;
                    }
                    scan_counters(
                        v,
                        target_end + 1,
                        placed.turn(turn).castling(rights).en_passant(target),
                    )
                },
            }
        },
    }
}

impl Board {
    /// Reads a board from its text in Forsyth-Edwards Notation.
    ///
    /// The text is rejected, with a message that quotes it, unless it has
    /// the six fields of the notation with one space between them: eight rows
    /// of eight squares each, `w` or `b`, the castling rights, the
    /// en-passant target and two counters that fit in 32 bits.
    pub fn build_from_fen(fen: &str) -> (r: Result<Board, String>)
        ensures
            reads_as(fen@, r),
    {
        let v = crate::text::chars_of(fen);
        let found = match scan_ranks(&v, 0, 7, BoardBuilder::new()) {
            None => None,
            Some((placed, end)) => scan_fields(&v, end, placed),
        };
        match found {
            Some(b) => {
                proof {
                    b.lemma_of_view();
                }
                Ok(b)
            },
            None => {
                let mut out: Vec<char> = Vec::new();
                crate::text::push_str(&mut out, "invalid FEN `");
                crate::text::push_str(&mut out, fen);
                crate::text::push_str(&mut out, "`");
                assert(out@ =~= fen_error_text(fen@));
                Err(string_from(&out))
            },
        }
    }
}

} // verus!
