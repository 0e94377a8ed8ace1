use chess_engine::text::{
    chars_of, is_whitespace, push_decimal, push_str, spells, split_words, string_from, string_of,
    trim_bounds,
};
use chess_engine::{Color, Move, Piece, PieceKind, Position, BLACK, WHITE};

fn sq(name: &str) -> Position {
    Position::pgn(name).unwrap()
}

#[test]
fn squares_are_named_by_file_and_rank() {
    let e4 = sq("e4");
    assert_eq!((e4.get_row(), e4.get_col()), (3, 4));
    assert_eq!(e4.to_index(), 28);
    assert_eq!(e4.to_string(), "e4");
    assert_eq!(sq("a1").to_string(), "a1");
    assert_eq!(sq("h8").to_string(), "h8");
    assert_eq!(sq("H8"), sq("h8"));
    assert_eq!(sq("  c7\t"), Position::new(6, 2).unwrap());
    assert_eq!((e4.file_letter(), e4.rank_digit()), ('e', '4'));
}

#[test]
fn malformed_squares_are_rejected() {
    for text in ["", "e", "e9", "e0", "i4", "4e", "e44", "e 4", "é4"] {
        assert_eq!(Position::pgn(text), Err(format!("invalid square `{text}`")));
    }
}

#[test]
fn squares_off_the_board_are_not_made() {
    assert_eq!(Position::new(8, 0), None);
    assert_eq!(Position::new(0, 8), None);
    assert_eq!(Position::new(-1, 0), None);
    assert_eq!(Position::new(0, -1), None);
    assert!(Position::new(7, 7).is_some());
    assert_eq!(Position::from_index(64), None);
    assert_eq!(Position::from_index(63), Some(sq("h8")));
    assert_eq!(Position::from_index(8), Some(sq("a2")));
    let e4 = sq("e4");
    assert_eq!(e4.offset(1, 1), Some(sq("f5")));
    assert_eq!(e4.offset(-3, -4), Some(sq("a1")));
    assert_eq!(e4.offset(4, 3), Some(sq("h8")));
    assert_eq!(e4.offset(5, 0), None);
    assert_eq!(e4.offset(0, 4), None);
    assert_eq!(e4.offset(-4, 0), None);
    assert_eq!(e4.offset(i32::MAX, 0), None);
    assert_eq!(e4.offset(0, i32::MIN), None);
}

#[test]
fn colors_invert() {
    assert_eq!(Color::White.invert(), Color::Black);
    assert_eq!(Color::Black.invert(), Color::White);
    assert_eq!(!Color::White, Color::Black);
    assert_eq!(!Color::Black, Color::White);
    assert_eq!(!!WHITE, WHITE);
    assert_eq!(Color::White.to_string(), "White");
    assert_eq!(BLACK.to_string(), "Black");
    assert!(Color::White < Color::Black);
    assert_eq!((WHITE.get_forward(), BLACK.get_forward()), (1, -1));
    assert_eq!((WHITE.get_home_row(), BLACK.get_home_row()), (0, 7));
    assert_eq!((WHITE.get_pawn_row(), BLACK.get_pawn_row()), (1, 6));
    assert_eq!((WHITE.get_promotion_row(), BLACK.get_promotion_row()), (7, 0));
}

#[test]
fn pieces_have_names_and_values() {
    let kinds = [
        (PieceKind::Pawn, "pawn", 1, 100),
        (PieceKind::Knight, "knight", 3, 320),
        (PieceKind::Bishop, "bishop", 3, 330),
        (PieceKind::Rook, "rook", 5, 500),
        (PieceKind::Queen, "queen", 9, 900),
        (PieceKind::King, "king", 0, 0),
    ];
    for (kind, name, points, centipawns) in kinds {
        let piece = Piece::new(kind, Color::White);
        assert_eq!(piece.get_name(), name);
        assert_eq!(kind.get_name(), name);
        assert_eq!(piece.get_material_value(), points);
        assert_eq!(Piece::from_name(name), Ok(piece));
        assert_eq!(piece.get_kind(), kind);
        assert_eq!(piece.get_color(), Color::White);
        assert_eq!(piece.with_color(Color::Black), Piece::new(kind, Color::Black));
        assert_eq!(piece.is_king(), kind == PieceKind::King);
        assert_eq!(piece.is_queen(), kind == PieceKind::Queen);
        assert_eq!(piece.is_rook(), kind == PieceKind::Rook);
        assert_eq!(piece.is_bishop(), kind == PieceKind::Bishop);
        assert_eq!(piece.is_knight(), kind == PieceKind::Knight);
        assert_eq!(piece.is_pawn(), kind == PieceKind::Pawn);
        assert_eq!(kind.is_slider(), matches!(kind, PieceKind::Bishop | PieceKind::Rook | PieceKind::Queen));
        let corner = piece.get_weighted_value(sq("a1"));
        assert!(corner >= centipawns - 50 && corner <= centipawns + 50);
    }
    assert_eq!(Piece::from_name("Queen"), Err(String::from("invalid piece `Queen`")));
    assert_eq!(Piece::from_name(""), Err(String::from("invalid piece ``")));
}

#[test]
fn piece_square_tables_are_mirrored_for_black() {
    let pawn = Piece::new(PieceKind::Pawn, Color::White);
    assert_eq!(pawn.get_weighted_value(sq("e2")), 80);
    assert_eq!(pawn.get_weighted_value(sq("e4")), 120);
    assert_eq!(pawn.get_weighted_value(sq("a7")), 150);
    let black_pawn = Piece::new(PieceKind::Pawn, Color::Black);
    assert_eq!(black_pawn.get_weighted_value(sq("e7")), 80);
    assert_eq!(black_pawn.get_weighted_value(sq("e5")), 120);
    assert_eq!(black_pawn.get_weighted_value(sq("a2")), 150);
    let knight = Piece::new(PieceKind::Knight, Color::White);
    assert_eq!(knight.get_weighted_value(sq("g1")), 280);
    assert_eq!(knight.get_weighted_value(sq("f3")), 330);
    let king = Piece::new(PieceKind::King, Color::White);
    assert_eq!(king.get_weighted_value(sq("g1")), 30);
    assert_eq!(king.get_weighted_value(sq("d8")), -50);
    let queen = Piece::new(PieceKind::Queen, Color::Black);
    assert_eq!(queen.get_weighted_value(sq("a8")), 880);
    assert_eq!(queen.get_weighted_value(sq("a4")), 895);
    assert_eq!(queen.get_weighted_value(sq("a5")), 900);
}

#[test]
fn movement_patterns_of_the_kinds() {
    assert!(PieceKind::Knight.fits_pattern(1, 2));
    assert!(PieceKind::Knight.fits_pattern(-2, 1));
    assert!(!PieceKind::Knight.fits_pattern(2, 2));
    assert!(PieceKind::Bishop.fits_pattern(3, -3));
    assert!(!PieceKind::Bishop.fits_pattern(3, 0));
    assert!(PieceKind::Rook.fits_pattern(0, -7));
    assert!(!PieceKind::Rook.fits_pattern(1, 1));
    assert!(PieceKind::Queen.fits_pattern(5, 5));
    assert!(PieceKind::Queen.fits_pattern(0, 2));
    assert!(PieceKind::Queen.fits_pattern(i32::MIN, i32::MIN));
    assert!(PieceKind::Rook.fits_pattern(i32::MIN, 0));
    assert!(!PieceKind::Bishop.fits_pattern(i32::MIN, i32::MAX));
    assert!(!PieceKind::Queen.fits_pattern(1, 2));
    assert!(PieceKind::King.fits_pattern(1, -1));
    assert!(!PieceKind::King.fits_pattern(0, 2));
    assert!(!PieceKind::King.fits_pattern(0, 0));
    assert!(!PieceKind::Pawn.fits_pattern(1, 0));
}

#[test]
fn moves_are_written_out() {
    assert_eq!(Move::Piece(sq("e2"), sq("e4")).to_string(), "e2 to e4");
    let promotion = Move::Promotion(sq("e7"), sq("e8"), Piece::new(PieceKind::Queen, Color::White));
    assert_eq!(promotion.to_string(), "e7 to e8 queen");
    let under = Move::Promotion(sq("a2"), sq("a1"), Piece::new(PieceKind::Knight, Color::Black));
    assert_eq!(under.to_string(), "a2 to a1 knight");
    assert_eq!(Move::KingSideCastle.to_string(), "O-O");
    assert_eq!(Move::QueenSideCastle.to_string(), "O-O-O");
    assert_eq!(Move::Resign.to_string(), "resign");
}

#[test]
fn moves_are_read_in_every_accepted_form() {
    let parse = |text: &str| Move::parse(String::from(text));
    assert_eq!(parse("resign"), Ok(Move::Resign));
    assert_eq!(parse("resigns"), Ok(Move::Resign));
    for text in ["queenside castle", "castle queenside", "O-O-O", "0-0-0", "o-o-o"] {
        assert_eq!(parse(text), Ok(Move::QueenSideCastle));
    }
    for text in ["kingside castle", "castle kingside", "O-O", "0-0", "o-o", "  O-O \n"] {
        assert_eq!(parse(text), Ok(Move::KingSideCastle));
    }
    let e2e4 = Move::Piece(sq("e2"), sq("e4"));
    for text in ["e2e4", "e2 e4", "e2 to e4", "  e2   to\te4  ", "E2 E4", "e2 e4\u{3000}"] {
        assert_eq!(parse(text), Ok(e2e4));
    }
    assert_eq!(
        parse("e7 to e8 queen"),
        Ok(Move::Promotion(sq("e7"), sq("e8"), Piece::new(PieceKind::Queen, Color::White)))
    );
    assert_eq!(
        parse("e2 to e1 rook"),
        Ok(Move::Promotion(sq("e2"), sq("e1"), Piece::new(PieceKind::Rook, Color::Black)))
    );
    assert_eq!(
        parse("a4 to a5 bishop"),
        Ok(Move::Promotion(sq("a4"), sq("a5"), Piece::new(PieceKind::Bishop, Color::White)))
    );
    assert_eq!(Move::try_from(String::from("e2e4")), Ok(e2e4));
}

#[test]
fn unreadable_moves_are_told_why() {
    let parse = |text: &str| Move::parse(String::from(text));
    assert_eq!(parse("e7 to e8 king"), Err(String::from("invalid promotion")));
    assert_eq!(parse("e7 to e8 pawn"), Err(String::from("invalid promotion")));
    assert_eq!(parse("e7 to e8 duke"), Err(String::from("invalid piece `duke`")));
    assert_eq!(parse("e7 to x8 duke"), Err(String::from("invalid piece `duke`")));
    assert_eq!(parse("e7 to x8 queen"), Err(String::from("invalid square `x8`")));
    assert_eq!(parse("e9 to x8 queen"), Err(String::from("invalid square `e9`")));
    assert_eq!(parse("e2 e9"), Err(String::from("invalid square `e9`")));
    assert_eq!(parse("z2 e9"), Err(String::from("invalid square `z2`")));
    assert_eq!(parse("e2e9"), Err(String::from("invalid square `e9`")));
    assert_eq!(parse("knight to e4"), Err(String::from("invalid square `knight`")));
    assert_eq!(parse("Qxe4"), Err(String::from("invalid square `Qx`")));
    assert_eq!(parse(""), Err(String::from("invalid move format ``")));
    assert_eq!(parse("   "), Err(String::from("invalid move format ``")));
    assert_eq!(parse("Resign"), Err(String::from("invalid move format `Resign`")));
    assert_eq!(parse("RESIGN"), Err(String::from("invalid move format `RESIGN`")));
    assert_eq!(parse("e2 from e4"), Err(String::from("invalid move format `e2 from e4`")));
    assert_eq!(parse(" e2 e3 e4 e5 e6 "), Err(String::from("invalid move format `e2 e3 e4 e5 e6`")));
    assert_eq!(parse("e2 at e4 queen"), Err(String::from("invalid move format `e2 at e4 queen`")));
    assert_eq!(parse("castle"), Err(String::from("invalid move format `castle`")));
    assert_eq!(parse("e2-e4"), Err(String::from("invalid move format `e2-e4`")));
    assert_eq!(Move::try_from(String::from("x")), Err(String::from("invalid move format `x`")));
}

#[test]
fn written_moves_read_back() {
    let board = chess_engine::Board::default();
    for m in board.get_legal_moves() {
        assert_eq!(Move::parse(m.to_string()), Ok(m));
    }
    for kind in [PieceKind::Queen, PieceKind::Rook, PieceKind::Bishop, PieceKind::Knight] {
        let up = Move::Promotion(sq("b7"), sq("a8"), Piece::new(kind, Color::White));
        assert_eq!(Move::parse(up.to_string()), Ok(up));
        let down = Move::Promotion(sq("g2"), sq("h1"), Piece::new(kind, Color::Black));
        assert_eq!(Move::parse(down.to_string()), Ok(down));
    }
    assert_eq!(Move::parse(Move::KingSideCastle.to_string()), Ok(Move::KingSideCastle));
    assert_eq!(Move::parse(Move::QueenSideCastle.to_string()), Ok(Move::QueenSideCastle));
    assert_eq!(Move::parse(Move::Resign.to_string()), Ok(Move::Resign));
    assert_eq!(Move::try_from(Move::Resign.to_string()), Ok(Move::Resign));
}

#[test]
fn moves_are_ordered_by_variant_and_squares() {
    assert!(Move::QueenSideCastle < Move::KingSideCastle);
    assert!(Move::KingSideCastle < Move::Piece(sq("a1"), sq("a2")));
    assert!(Move::Piece(sq("a1"), sq("b1")) < Move::Piece(sq("a1"), sq("a2")));
    assert!(Move::Piece(sq("h8"), sq("h7")) < Move::Resign);
}

#[test]
fn white_space_is_told_from_other_characters() {
    let spaces = [
        ' ', '\t', '\n', '\r', '\u{b}', '\u{c}', '\u{85}', '\u{a0}', '\u{1680}', '\u{2000}',
        '\u{200a}', '\u{2028}', '\u{2029}', '\u{202f}', '\u{205f}', '\u{3000}',
    ];
    for c in spaces {
        assert!(is_whitespace(c));
        assert!(c.is_whitespace());
    }
    for c in ['a', '0', '-', '\u{200b}', '\u{feff}', '\u{8}', '\u{e}', '\u{1f}', '\u{180e}'] {
        assert!(!is_whitespace(c));
        assert!(!c.is_whitespace());
    }
}

#[test]
fn text_is_trimmed_and_split_as_the_standard_library_does() {
    for text in ["", " ", "a", " a b ", "\te2\u{a0}to e4\n", "  x  ", "ab  cd\u{2003}ef", " é ü "] {
        let v = chars_of(text);
        assert_eq!(v, text.chars().collect::<Vec<char>>());
        let (lo, hi) = trim_bounds(&v);
        assert_eq!(string_of(&v, lo, hi), text.trim());
        let words: Vec<String> = split_words(&v, lo, hi).iter().map(string_from).collect();
        let expected: Vec<String> = text.split_whitespace().map(String::from).collect();
        assert_eq!(words, expected);
    }
    let v = chars_of("castle kingside");
    assert!(spells(&v, 0, 6, "castle"));
    assert!(!spells(&v, 0, 6, "castl"));
    assert!(!spells(&v, 0, 6, "cattle"));
    assert!(spells(&v, 7, 15, "kingside"));
    assert!(spells(&v, 3, 3, ""));
}

#[test]
fn numbers_are_written_in_decimal() {
    for n in [0u64, 7, 10, 99, 100, 4294967295, u64::MAX] {
        let mut out = vec!['#'];
        push_decimal(&mut out, n);
        assert_eq!(string_from(&out), format!("#{n}"));
    }
    let mut out = Vec::new();
    push_str(&mut out, "ab");
    push_str(&mut out, "");
    push_str(&mut out, "c");
    assert_eq!(out, vec!['a', 'b', 'c']);
}
