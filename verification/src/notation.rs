//! Moves as text: reading a move that a player typed and writing a move
//! out.

use crate::board::BoardView;
use crate::color::Color;
use crate::laws::lemma_legal_moves_exact;
use crate::moves::Move;
use crate::piece::{piece_error_text, Piece, PieceKind};
use crate::position::{parse_square, square_error_text, Position};
use crate::text::{
    chars_of, drop_trailing_spaces, flush_word, is_space, push_str, skip_spaces, spells,
    split_words, string_from, trim, trim_bounds, word_views, words, words_from,
};
use vstd::prelude::*;

verus! {

/// The message for a text that has the shape of no move.
pub open spec fn format_error_text(s: Seq<char>) -> Seq<char> {
    "invalid move format `"@ + s + "`"@
}

/// The message for a promotion to a king or a pawn.
pub open spec fn promotion_error_text() -> Seq<char> {
    "invalid promotion"@
}

/// The move from the square that `a` names to the square that `b` names, or
/// the message for the first of the two that names none.
pub open spec fn parse_pair(a: Seq<char>, b: Seq<char>) -> Result<Move, Seq<char>> {
    match parse_square(a) {
        None => Err(square_error_text(a)),
        Some(from) => match parse_square(b) {
            None => Err(square_error_text(b)),
            Some(to) => Ok(Move::Piece(from, to)),
        },
    }
}

/// The color of the side whose pawns are promoted on the row `row`: Black on
/// the first row, White elsewhere.
pub open spec fn promoting_color(row: int) -> Color {
    if row == 0 {
        Color::Black
    } else {
        Color::White
    }
}

/// The promotion from the square that `a` names to the square that `b`
/// names, to the kind of piece that `name` names. The piece has the color of
/// the side that promotes on the target's row. The name is looked at first,
/// then the squares.
pub open spec fn parse_promotion(a: Seq<char>, b: Seq<char>, name: Seq<char>) -> Result<
    Move,
    Seq<char>,
> {
    match PieceKind::named(name) {
        None => Err(piece_error_text(name)),
        Some(kind) => if !kind.promotable() {
            Err(promotion_error_text())
        } else {
            match parse_square(a) {
                None => Err(square_error_text(a)),
                Some(from) => match parse_square(b) {
                    None => Err(square_error_text(b)),
                    Some(to) => Ok(
                        Move::Promotion(
                            from,
                            to,
                            Piece { kind, color: promoting_color(to.row()) },
                        ),
                    ),
                },
            }
        },
    }
}

/// Whether `t` is one of the ways to write that a player resigns.
pub open spec fn says_resign(t: Seq<char>) -> bool {
    t == "resign"@ || t == "resigns"@
}

/// Whether `t` is one of the ways to write castling on the queen's wing.
pub open spec fn says_queenside(t: Seq<char>) -> bool {
    t == "queenside castle"@ || t == "castle queenside"@ || t == "O-O-O"@ || t == "0-0-0"@ || t
        == "o-o-o"@
}

/// Whether `t` is one of the ways to write castling on the king's wing.
pub open spec fn says_kingside(t: Seq<char>) -> bool {
    t == "kingside castle"@ || t == "castle kingside"@ || t == "O-O"@ || t == "0-0"@ || t
        == "o-o"@
}

/// The move that the text `s` stands for, or the message that says why it
/// stands for none.
///
/// White space around the text is ignored. The text is one of the fixed
/// phrases for resigning and castling, or it consists of words: one word of
/// four characters that names two squares, two words that name a square
/// each, two such words with `to` between them, or those three words and the
/// name of the piece that a pawn is promoted to.
pub open spec fn parse_move(s: Seq<char>) -> Result<Move, Seq<char>> {
    let t = trim(s);
    let ws = words(t);
    if says_resign(t) {
        Ok(Move::Resign)
    } else if says_queenside(t) {
        Ok(Move::QueenSideCastle)
    } else if says_kingside(t) {
        Ok(Move::KingSideCastle)
    } else if ws.len() == 1 && ws[0].len() == 4 {
        parse_pair(ws[0].subrange(0, 2), ws[0].subrange(2, 4))
    } else if ws.len() == 2 {
        parse_pair(ws[0], ws[1])
    } else if ws.len() == 3 && ws[1] == "to"@ {
        parse_pair(ws[0], ws[2])
    } else if ws.len() == 4 && ws[1] == "to"@ {
        parse_promotion(ws[0], ws[2], ws[3])
    } else {
        Err(format_error_text(t))
    }
}

/// Whether `r` is what reading the text `s` gives: the move that `s` stands
/// for, or the message that says why it stands for none.
pub open spec fn parses_as(s: Seq<char>, r: Result<Move, String>) -> bool {
    match parse_move(s) {
        Ok(m) => r == Ok::<Move, String>(m),
        Err(e) => r matches Err(text) && text@ == e,
    }
}

impl Move {
    /// The move written out, in a form that `parse_move` reads: `e2 to e4`,
    /// `e7 to e8 queen`, `O-O`, `O-O-O` or `resign`.
    pub open spec fn text(self) -> Seq<char> {
        match self {
            Move::Piece(from, to) => from.name_text() + " to "@ + to.name_text(),
            Move::Promotion(from, to, piece) => from.name_text() + " to "@ + to.name_text() + " "@
                + piece.kind.name_text(),
            Move::KingSideCastle => "O-O"@,
            Move::QueenSideCastle => "O-O-O"@,
            Move::Resign => "resign"@,
        }
    }

    /// Writes the move out, so that it reads back: parsing the text gives the
    /// move again. A promotion reads back where its piece can be promoted to
    /// and has the color of the side that promotes on the target's row, as
    /// every promotion that the engine produces has.
    pub fn to_string(&self) -> (s: String)
        ensures
            s@ == self.text(),
            reads_back(*self) ==> parse_move(s@) == Ok::<Move, Seq<char>>(*self),
            !(*self is Promotion) ==> reads_back(*self),
    {
        proof {
            if reads_back(*self) {
                lemma_text_reads_back(*self);
            }
        }
        match self {
            Move::Piece(from, to) => {
                let _ = from.get_row();
                let _ = to.get_row();
            },
            _ => {},
        }
        let mut out: Vec<char> = Vec::new();
        match self {
            Move::Piece(from, to) => {
                out.push(from.file_letter());
                out.push(from.rank_digit());
                assert(out@ =~= from.name_text());
                push_str(&mut out, " to ");
                let ghost sofar = out@;
                out.push(to.file_letter());
                out.push(to.rank_digit());
                assert(out@ =~= sofar + to.name_text());
            },
            Move::Promotion(from, to, piece) => {
                out.push(from.file_letter());
                out.push(from.rank_digit());
                assert(out@ =~= from.name_text());
                push_str(&mut out, " to ");
                let ghost sofar = out@;
                out.push(to.file_letter());
                out.push(to.rank_digit());
                assert(out@ =~= sofar + to.name_text());
                push_str(&mut out, " ");
                push_kind_name(&mut out, piece.kind);
            },
            Move::KingSideCastle => {
                push_str(&mut out, "O-O");
                assert(out@ =~= "O-O"@);
            },
            Move::QueenSideCastle => {
                push_str(&mut out, "O-O-O");
                assert(out@ =~= "O-O-O"@);
            },
            Move::Resign => {
                push_str(&mut out, "resign");
                assert(out@ =~= "resign"@);
            },
        }
        string_from(&out)
    }

    /// Reads a move from text.
    ///
    /// These are read, with or without white space around them:
    /// `resign`, `resigns`; `castle queenside`, `queenside castle`, `O-O-O`,
    /// `o-o-o`, `0-0-0`; `castle kingside`, `kingside castle`, `O-O`, `o-o`,
    /// `0-0`; `e2e4`, `e2 e4`, `e2 to e4`; and `e7 to e8 queen` for a
    /// promotion, to any piece but a king or a pawn. A text such as
    /// `knight to e4` or `Qxe4` is not read: the message in the error says
    /// what was wrong with it.
    pub fn parse(repr: String) -> (r: Result<Move, String>)
        ensures
            parses_as(repr@, r),
    {
        parse_text(repr.as_str())
    }
}

impl TryFrom<String> for Move {
    type Error = String;

    /// Reads a move from text, as `Move::parse` does.
    fn try_from(repr: String) -> (r: Result<Move, String>)
        ensures
            parses_as(repr@, r),
    {
        parse_text(repr.as_str())
    }
}

impl vstd::std_specs::convert::TryFromSpecImpl<String> for Move {
    open spec fn obeys_try_from_spec() -> bool {
        false
    }

    open spec fn try_from_spec(v: String) -> Result<Move, String> {
        Err(v)
    }
}

/// Appends the name of a kind of piece to `out`.
fn push_kind_name(out: &mut Vec<char>, kind: PieceKind)
    ensures
        final(out)@ == old(out)@ + kind.name_text(),
{
    match kind {
        PieceKind::Pawn => push_str(out, "pawn"),
        PieceKind::Knight => push_str(out, "knight"),
        PieceKind::Bishop => push_str(out, "bishop"),
        PieceKind::Rook => push_str(out, "rook"),
        PieceKind::Queen => push_str(out, "queen"),
        PieceKind::King => push_str(out, "king"),
    }
}

/// The message made of `head`, the characters `v[lo..hi]` and `tail`.
fn quote(head: &str, v: &Vec<char>, lo: usize, hi: usize, tail: &str) -> (s: String)
    requires
        lo <= hi <= v.len(),
    ensures
        s@ == head@ + v@.subrange(lo as int, hi as int) + tail@,
{
    let mut out: Vec<char> = Vec::new();
    push_str(&mut out, head);
    assert(out@ =~= head@);
    let mut i: usize = lo;
    while i < hi
        invariant
            lo <= i <= hi <= v.len(),
            out@ == head@ + v@.subrange(lo as int, i as int),
        decreases hi - i,
    {
        out.push(v[i]);
        assert(v@.subrange(lo as int, i + 1) =~= v@.subrange(lo as int, i as int).push(v@[i as int]));
        assert(out@ =~= head@ + v@.subrange(lo as int, i + 1));
        i = i + 1;
    }
    push_str(&mut out, tail);
    string_from(&out)
}

/// Reads the move from the squares named by `a[alo..ahi]` and `b[blo..bhi]`.
fn read_pair(a: &Vec<char>, alo: usize, ahi: usize, b: &Vec<char>, blo: usize, bhi: usize) -> (r:
    Result<Move, String>)
    requires
        alo <= ahi <= a.len(),
        blo <= bhi <= b.len(),
    ensures
        match parse_pair(a@.subrange(alo as int, ahi as int), b@.subrange(blo as int, bhi as int)) {
            Ok(m) => r == Ok::<Move, String>(m),
            Err(e) => r matches Err(text) && text@ == e,
        },
{
    match Position::from_chars(a, alo, ahi) {
        None => Err(quote("invalid square `", a, alo, ahi, "`")),
        Some(from) => match Position::from_chars(b, blo, bhi) {
            None => Err(quote("invalid square `", b, blo, bhi, "`")),
            Some(to) => Ok(Move::Piece(from, to)),
        },
    }
}

/// Reads the promotion from the square named by `a` to the square named by
/// `b`, to the piece named by `name`.
fn read_promotion(a: &Vec<char>, b: &Vec<char>, name: &Vec<char>) -> (r: Result<Move, String>)
    ensures
        match parse_promotion(a@, b@, name@) {
            Ok(m) => r == Ok::<Move, String>(m),
            Err(e) => r matches Err(text) && text@ == e,
        },
{
    assert(a@.subrange(0, a.len() as int) =~= a@);
    assert(b@.subrange(0, b.len() as int) =~= b@);
    assert(name@.subrange(0, name.len() as int) =~= name@);
    match PieceKind::from_chars(name, 0, name.len()) {
        None => Err(quote("invalid piece `", name, 0, name.len(), "`")),
        Some(kind) => {
            if kind == PieceKind::King || kind == PieceKind::Pawn {
                return Err(string_of_str("invalid promotion"));
            }
            match Position::from_chars(a, 0, a.len()) {
                None => Err(quote("invalid square `", a, 0, a.len(), "`")),
                Some(from) => match Position::from_chars(b, 0, b.len()) {
                    None => Err(quote("invalid square `", b, 0, b.len(), "`")),
                    Some(to) => {
                        let color = if to.get_row() == 0 {
                            Color::Black
                        } else {
                            Color::White
                        };
                        Ok(Move::Promotion(from, to, Piece { kind, color }))
                    },
                },
            }
        },
    }
}

/// The string with the characters of `lit`.
fn string_of_str(lit: &str) -> (s: String)
    ensures
        s@ == lit@,
{
    let mut out: Vec<char> = Vec::new();
    push_str(&mut out, lit);
    assert(out@ =~= lit@);
    string_from(&out)
}

/// Reads a move from text, as `Move::parse` does.
pub fn parse_text(repr: &str) -> (r: Result<Move, String>)
    ensures
        parses_as(repr@, r),
{
    let v = chars_of(repr);
    let (a, b) = trim_bounds(&v);
    if spells(&v, a, b, "resign") || spells(&v, a, b, "resigns") {
        return Ok(Move::Resign);
    }
    if spells(&v, a, b, "queenside castle") || spells(&v, a, b, "castle queenside") || spells(
        &v,
        a,
        b,
        "O-O-O",
    ) || spells(&v, a, b, "0-0-0") || spells(&v, a, b, "o-o-o") {
        return Ok(Move::QueenSideCastle);
    }
    if spells(&v, a, b, "kingside castle") || spells(&v, a, b, "castle kingside") || spells(
        &v,
        a,
        b,
        "O-O",
    ) || spells(&v, a, b, "0-0") || spells(&v, a, b, "o-o") {
        return Ok(Move::KingSideCastle);
    }
    let ws = split_words(&v, a, b);
    let ghost views = words(trim(v@));
    assert(views == word_views(ws@));
    if ws.len() == 1 && ws[0].len() == 4 {
        assert(views[0] == ws[0]@);
        read_pair(&ws[0], 0, 2, &ws[0], 2, 4)
    } else if ws.len() == 2 {
        assert(views[0] == ws[0]@);
        assert(views[1] == ws[1]@);
        assert(ws[0]@.subrange(0, ws[0].len() as int) =~= ws[0]@);
        assert(ws[1]@.subrange(0, ws[1].len() as int) =~= ws[1]@);
        read_pair(&ws[0], 0, ws[0].len(), &ws[1], 0, ws[1].len())
    } else if ws.len() == 3 && is_to(&ws[1]) {
        assert(views[0] == ws[0]@);
        assert(views[1] == ws[1]@);
        assert(views[2] == ws[2]@);
        assert(ws[0]@.subrange(0, ws[0].len() as int) =~= ws[0]@);
        assert(ws[2]@.subrange(0, ws[2].len() as int) =~= ws[2]@);
        read_pair(&ws[0], 0, ws[0].len(), &ws[2], 0, ws[2].len())
    } else if ws.len() == 4 && is_to(&ws[1]) {
        assert(views[0] == ws[0]@);
        assert(views[1] == ws[1]@);
        assert(views[2] == ws[2]@);
        assert(views[3] == ws[3]@);
        read_promotion(&ws[0], &ws[2], &ws[3])
    } else {
        proof {
            if ws.len() >= 2 {
                assert(views[1] == ws[1]@);
            }
        }
        Err(quote("invalid move format `", &v, a, b, "`"))
    }
}

/// Tells whether `w` is the word `to`.
fn is_to(w: &Vec<char>) -> (r: bool)
    ensures
        r == (w@ == "to"@),
{
    assert(w@.subrange(0, w.len() as int) =~= w@);
    spells(w, 0, w.len(), "to")
}

/// Whether the text of `m` reads back as `m`: the squares of `m` lie on the
/// board and, in a promotion, the piece can be promoted to and has the color
/// of the side that promotes on the target's row. Castling and resigning
/// always read back.
pub open spec fn reads_back(m: Move) -> bool {
    match m {
        Move::Piece(from, to) => from.on_board() && to.on_board(),
        Move::Promotion(from, to, piece) => from.on_board() && to.on_board()
            && piece.kind.promotable() && piece.color == promoting_color(to.row()),
        Move::KingSideCastle => true,
        Move::QueenSideCastle => true,
        Move::Resign => true,
    }
}

/// A run of characters without white space, closed by white space or by the
/// end of the text, is one word.
pub proof fn lemma_word_run(s: Seq<char>, i: int, j: int, cur: Seq<char>)
    requires
        0 <= i <= j <= s.len(),
        forall|k: int| i <= k < j ==> !is_space(#[trigger] s[k]),
        j == s.len() || is_space(s[j]),
    ensures
        words_from(s, i, cur) == flush_word(cur + s.subrange(i, j)) + if j == s.len() {
            Seq::<Seq<char>>::empty()
        } else {
            words_from(s, j + 1, Seq::empty())
        },
    decreases j - i,
{
    if i == j {
        assert(cur + s.subrange(i, j) =~= cur);
        assert(flush_word(cur) + Seq::<Seq<char>>::empty() =~= flush_word(cur));
    } else {
        lemma_word_run(s, i + 1, j, cur.push(s[i]));
        assert(cur.push(s[i]) + s.subrange(i + 1, j) =~= cur + s.subrange(i, j));
    }
}

/// The name of a square reads back as the square.
pub proof fn lemma_square_reads_back(p: Position)
    requires
        p.on_board(),
    ensures
        parse_square(p.name_text()) == Some(p),
        p.name_text().len() == 2,
        !is_space(p.name_text()[0]),
        !is_space(p.name_text()[1]),
        49 <= p.name_text()[1] as u32 <= 56,
{
    let s = p.name_text();
    assert(skip_spaces(s, 0) == 0);
    assert(drop_trailing_spaces(s, 0, 2) == 2);
    assert(s.subrange(0, 2) =~= s);
    Position::lemma_at_self(p);
}

/// A text whose second character is a digit from 1 to 8 is none of the fixed
/// phrases.
pub proof fn lemma_not_a_phrase(t: Seq<char>)
    requires
        t.len() >= 2,
        49 <= t[1] as u32 <= 56,
    ensures
        !says_resign(t),
        !says_queenside(t),
        !says_kingside(t),
{
    reveal_strlit("resign");
    reveal_strlit("resigns");
    reveal_strlit("queenside castle");
    reveal_strlit("castle queenside");
    reveal_strlit("O-O-O");
    reveal_strlit("0-0-0");
    reveal_strlit("o-o-o");
    reveal_strlit("kingside castle");
    reveal_strlit("castle kingside");
    reveal_strlit("O-O");
    reveal_strlit("0-0");
    reveal_strlit("o-o");
}

/// A text that starts and ends with a character that is no white space is
/// its own trimmed form.
pub proof fn lemma_trim_tight(t: Seq<char>)
    requires
        t.len() >= 1,
        !is_space(t[0]),
        !is_space(t[t.len() - 1]),
    ensures
        trim(t) == t,
{
    assert(skip_spaces(t, 0) == 0);
    assert(drop_trailing_spaces(t, 0, t.len() as int) == t.len());
    assert(t.subrange(0, t.len() as int) =~= t);
}

/// The name of a kind of piece holds no white space and names the kind.
pub proof fn lemma_kind_reads_back(kind: PieceKind)
    ensures
        PieceKind::named(kind.name_text()) == Some(kind),
        4 <= kind.name_text().len() <= 6,
        forall|k: int| 0 <= k < kind.name_text().len() ==> !is_space(#[trigger] kind.name_text()[k]),
{
    reveal_strlit("pawn");
    reveal_strlit("knight");
    reveal_strlit("bishop");
    reveal_strlit("rook");
    reveal_strlit("queen");
    reveal_strlit("king");
    let s = kind.name_text();
    assert("pawn"@.len() == 4 && "rook"@.len() == 4 && "king"@.len() == 4);
    assert("knight"@.len() == 6 && "bishop"@.len() == 6 && "queen"@.len() == 5);
    assert("pawn"@[0] == 'p' && "rook"@[0] == 'r' && "king"@[0] == 'k');
    assert("knight"@[0] == 'k' && "bishop"@[0] == 'b');
    match kind {
        PieceKind::Pawn => {
            assert(PieceKind::named(s) == Some(kind));
        },
        PieceKind::Knight => {
            assert(s != "pawn"@);
            assert(PieceKind::named(s) == Some(kind));
        },
        PieceKind::Bishop => {
            assert(s != "pawn"@);
            assert(s[0] != "knight"@[0]);
            assert(s != "knight"@);
            assert(PieceKind::named(s) == Some(kind));
        },
        PieceKind::Rook => {
            assert(s[0] != "pawn"@[0]);
            assert(s != "pawn"@);
            assert(s != "knight"@);
            assert(s != "bishop"@);
            assert(PieceKind::named(s) == Some(kind));
        },
        PieceKind::Queen => {
            assert(s != "pawn"@);
            assert(s != "knight"@);
            assert(s != "bishop"@);
            assert(s != "rook"@);
            assert(PieceKind::named(s) == Some(kind));
        },
        PieceKind::King => {
            assert(s[0] != "pawn"@[0]);
            assert(s[0] != "rook"@[0]);
            assert(s != "pawn"@);
            assert(s != "knight"@);
            assert(s != "bishop"@);
            assert(s != "rook"@);
            assert(s != "queen"@);
            assert(PieceKind::named(s) == Some(kind));
        },
    }
}

/// The words of the text of a move from square to square: the two names with
/// `to` between them.
pub proof fn lemma_words_of_step(from: Position, to: Position)
    requires
        from.on_board(),
        to.on_board(),
    ensures
        words(from.name_text() + " to "@ + to.name_text()) == seq![
            from.name_text(),
            "to"@,
            to.name_text(),
        ],
        trim(from.name_text() + " to "@ + to.name_text()) == from.name_text() + " to "@
            + to.name_text(),
{
    reveal_strlit(" to ");
    reveal_strlit("to");
    lemma_square_reads_back(from);
    lemma_square_reads_back(to);
    let a = from.name_text();
    let b = to.name_text();
    let s = a + " to "@ + b;
    assert(s.len() == 8);
    assert(s[0] == a[0] && s[1] == a[1] && s[6] == b[0] && s[7] == b[1]);
    assert(s[2] == ' ' && s[3] == 't' && s[4] == 'o' && s[5] == ' ');
    lemma_trim_tight(s);
    lemma_word_run(s, 0, 2, Seq::empty());
    lemma_word_run(s, 3, 5, Seq::empty());
    lemma_word_run(s, 6, 8, Seq::empty());
    assert(Seq::<char>::empty() + s.subrange(0, 2) =~= a);
    assert(Seq::<char>::empty() + s.subrange(3, 5) =~= "to"@);
    assert(Seq::<char>::empty() + s.subrange(6, 8) =~= b);
    assert(words(s) =~= seq![a, "to"@, b]);
}

/// The words of the text of a promotion: the two names with `to` between
/// them, and the name of the piece.
pub proof fn lemma_words_of_promotion(from: Position, to: Position, kind: PieceKind)
    requires
        from.on_board(),
        to.on_board(),
    ensures
        words(from.name_text() + " to "@ + to.name_text() + " "@ + kind.name_text()) == seq![
            from.name_text(),
            "to"@,
            to.name_text(),
            kind.name_text(),
        ],
        trim(from.name_text() + " to "@ + to.name_text() + " "@ + kind.name_text())
            == from.name_text() + " to "@ + to.name_text() + " "@ + kind.name_text(),
{
    reveal_strlit(" to ");
    reveal_strlit("to");
    reveal_strlit(" ");
    lemma_square_reads_back(from);
    lemma_square_reads_back(to);
    lemma_kind_reads_back(kind);
    let a = from.name_text();
    let b = to.name_text();
    let n = kind.name_text();
    let s = a + " to "@ + b + " "@ + n;
    assert(s.len() == 9 + n.len());
    assert(s[0] == a[0] && s[1] == a[1] && s[6] == b[0] && s[7] == b[1]);
    assert(s[2] == ' ' && s[3] == 't' && s[4] == 'o' && s[5] == ' ' && s[8] == ' ');
    assert forall|k: int| 9 <= k < s.len() implies !is_space(#[trigger] s[k]) by {
        assert(s[k] == n[k - 9]);
    }
    lemma_trim_tight(s);
    lemma_word_run(s, 0, 2, Seq::empty());
    lemma_word_run(s, 3, 5, Seq::empty());
    lemma_word_run(s, 6, 8, Seq::empty());
    lemma_word_run(s, 9, s.len() as int, Seq::empty());
    assert(Seq::<char>::empty() + s.subrange(0, 2) =~= a);
    assert(Seq::<char>::empty() + s.subrange(3, 5) =~= "to"@);
    assert(Seq::<char>::empty() + s.subrange(6, 8) =~= b);
    assert(Seq::<char>::empty() + s.subrange(9, s.len() as int) =~= n);
    assert(words(s) =~= seq![a, "to"@, b, n]);
}

/// The text of a move reads back as the move: for castling and resigning
/// always, and for a move from square to square where its squares lie on the
/// board and its promotion piece, if it has one, can be promoted to and has
/// the color of the side that promotes there.
pub proof fn lemma_text_reads_back(m: Move)
    requires
        reads_back(m),
    ensures
        parse_move(m.text()) == Ok::<Move, Seq<char>>(m),
{
    match m {
        Move::Piece(from, to) => {
            lemma_words_of_step(from, to);
            lemma_square_reads_back(from);
            lemma_square_reads_back(to);
            let s = m.text();
            reveal_strlit(" to ");
            assert(s[1] == from.name_text()[1]);
            lemma_not_a_phrase(s);
        },
        Move::Promotion(from, to, piece) => {
            lemma_words_of_promotion(from, to, piece.kind);
            lemma_square_reads_back(from);
            lemma_square_reads_back(to);
            lemma_kind_reads_back(piece.kind);
            let s = m.text();
            reveal_strlit(" to ");
            reveal_strlit(" ");
            assert(s[1] == from.name_text()[1]);
            lemma_not_a_phrase(s);
        },
        Move::KingSideCastle => {
            reveal_strlit("resign");
            reveal_strlit("resigns");
            reveal_strlit("queenside castle");
            reveal_strlit("castle queenside");
            reveal_strlit("O-O-O");
            reveal_strlit("0-0-0");
            reveal_strlit("o-o-o");
            reveal_strlit("O-O");
            lemma_trim_tight("O-O"@);
        },
        Move::QueenSideCastle => {
            reveal_strlit("resign");
            reveal_strlit("resigns");
            reveal_strlit("O-O-O");
            lemma_trim_tight("O-O-O"@);
        },
        Move::Resign => {
            reveal_strlit("resign");
            lemma_trim_tight("resign"@);
        },
    }
}

/// Writing a move out and reading the text back gives the move: whatever
/// `parse` returns for the text that `to_string` wrote for a move that reads
/// back is that move.
pub proof fn lemma_written_text_parses(m: Move, r: Result<Move, String>)
    requires
        reads_back(m),
        parses_as(m.text(), r),
    ensures
        r == Ok::<Move, String>(m),
{
    lemma_text_reads_back(m);
}

/// Every move that the engine produces reads back from its text: for each
/// move `m` in the list of legal moves of a board, parsing the text of `m`
/// gives `m`.
pub proof fn lemma_legal_move_reads_back(v: BoardView, color: Color, m: Move)
    requires
        v.legal_moves(color).contains(m),
    ensures
        parse_move(m.text()) == Ok::<Move, Seq<char>>(m),
{
    lemma_legal_moves_exact(v, color, m);
    lemma_text_reads_back(m);
}

/// Writing a legal move out and reading the text back gives the move:
/// whatever `parse` returns for the text that `to_string` wrote for a move
/// `m` in the list of legal moves of a board is `m`.
pub proof fn lemma_written_move_parses(
    v: BoardView,
    color: Color,
    m: Move,
    r: Result<Move, String>,
)
    requires
        v.legal_moves(color).contains(m),
        parses_as(m.text(), r),
    ensures
        r == Ok::<Move, String>(m),
{
    lemma_legal_move_reads_back(v, color, m);
}

} // verus!
