use chess_engine::{
    Board, BoardBuilder, CastlingRights, Color, GameResult, Move, Piece, PieceKind, Position,
};

fn sq(name: &str) -> Position {
    Position::pgn(name).unwrap()
}

fn play(board: Board, from: &str, to: &str) -> Board {
    match board.play_move(Move::Piece(sq(from), sq(to))) {
        GameResult::Continuing(next) => next,
        other => panic!("the game does not go on after {from}{to}: {other:?}"),
    }
}

#[test]
fn initial_position_in_notation() {
    assert_eq!(
        Board::default().fen(),
        "rnbqkbnr/pppppppp/8/8/8/8/PPPPPPPP/RNBQKBNR w KQkq - 0 1"
    );
    assert_eq!(Board::empty().fen(), "8/8/8/8/8/8/8/8 w - - 0 1");
}

#[test]
fn notation_follows_the_game() {
    let board = play(Board::default(), "e2", "e4");
    assert_eq!(board.fen(), "rnbqkbnr/pppppppp/8/8/4P3/8/PPPP1PPP/RNBQKBNR b KQkq e3 0 1");
    let board = play(board, "c7", "c5");
    assert_eq!(board.fen(), "rnbqkbnr/pp1ppppp/8/2p5/4P3/8/PPPP1PPP/RNBQKBNR w KQkq c6 0 2");
    let board = play(board, "g1", "f3");
    assert_eq!(board.fen(), "rnbqkbnr/pp1ppppp/8/2p5/4P3/5N2/PPPP1PPP/RNBQKB1R b KQkq - 1 2");
    let board = play(board, "b8", "c6");
    let board = play(board, "e1", "e2");
    assert_eq!(board.fen(), "r1bqkbnr/pp1ppppp/2n5/2p5/4P3/5N2/PPPPKPPP/RNBQ1B1R b kq - 3 3");
}

#[test]
fn notation_is_read_back() {
    let texts = [
        "rnbqkbnr/pppppppp/8/8/8/8/PPPPPPPP/RNBQKBNR w KQkq - 0 1",
        "rnbqkbnr/pp1ppppp/8/2p5/4P3/8/PPPP1PPP/RNBQKBNR w KQkq c6 0 2",
        "r1bqkbnr/pp1ppppp/2n5/2p5/4P3/5N2/PPPPKPPP/RNBQ1B1R b kq - 3 3",
        "8/8/8/8/8/8/8/8 w - - 0 1",
        "4k3/8/8/8/8/8/8/R3K2R b Kq h6 4294967295 4294967295",
        "k7/1P6/8/8/8/8/6p1/7K w Qk a3 12 345",
        "QQQQQQQQ/1q1q1q1q/q1q1q1q1/8/p6P/2n2N2/bB4rR/kK6 b - - 10 100",
    ];
    for text in texts {
        let board = Board::build_from_fen(text).unwrap();
        assert_eq!(board.fen(), text);
    }
}

#[test]
fn every_board_comes_back_from_its_notation() {
    let mut board = Board::default();
    let line = [
        ("e2", "e4"),
        ("d7", "d5"),
        ("e4", "d5"),
        ("d8", "d5"),
        ("b1", "c3"),
        ("d5", "a5"),
        ("e1", "e2"),
        ("a5", "c3"),
        ("h2", "h4"),
        ("e8", "d8"),
    ];
    assert_eq!(Board::build_from_fen(&board.fen()), Ok(board));
    for (from, to) in line {
        board = play(board, from, to);
        assert_eq!(Board::build_from_fen(&board.fen()), Ok(board));
    }
    let odd = BoardBuilder::from_board(&board)
        .en_passant(Some(sq("h8")))
        .halfmove_clock(u32::MAX)
        .fullmove_number(0)
        .castling(CastlingRights {
            white_kingside: false,
            white_queenside: true,
            black_kingside: true,
            black_queenside: false,
        })
        .build();
    assert_eq!(Board::build_from_fen(&odd.fen()), Ok(odd));
}

#[test]
fn notation_gives_the_fields_of_the_board() {
    let board = Board::build_from_fen("4k3/8/8/3pP3/8/8/8/R3K2R w Kq d6 5 17").unwrap();
    assert_eq!(board.get_turn_color(), Color::White);
    assert_eq!(board.get_en_passant(), Some(sq("d6")));
    assert_eq!(board.get_halfmove_clock(), 5);
    assert_eq!(board.get_fullmove_number(), 17);
    assert_eq!(
        board.get_castling_rights(),
        CastlingRights {
            white_kingside: true,
            white_queenside: false,
            black_kingside: false,
            black_queenside: true,
        }
    );
    assert_eq!(board.get_piece(sq("e1")), Some(Piece::new(PieceKind::King, Color::White)));
    assert_eq!(board.get_piece(sq("a1")), Some(Piece::new(PieceKind::Rook, Color::White)));
    assert_eq!(board.get_piece(sq("d5")), Some(Piece::new(PieceKind::Pawn, Color::Black)));
    assert_eq!(board.get_piece(sq("e8")), Some(Piece::new(PieceKind::King, Color::Black)));
    assert_eq!(board.get_piece(sq("d6")), None);
    assert!(board.get_legal_moves().contains(&Move::Piece(sq("e5"), sq("d6"))));
    assert!(board.get_legal_moves().contains(&Move::KingSideCastle));
    assert!(!board.get_legal_moves().contains(&Move::QueenSideCastle));
}

#[test]
fn malformed_notation_is_rejected() {
    let texts = [
        "",
        "rnbqkbnr/pppppppp/8/8/8/8/PPPPPPPP/RNBQKBNR",
        "rnbqkbnr/pppppppp/8/8/8/8/PPPPPPPP/RNBQKBNR w KQkq - 0",
        "rnbqkbnr/pppppppp/8/8/8/8/PPPPPPPP/RNBQKBNR w KQkq - 0 1 ",
        " rnbqkbnr/pppppppp/8/8/8/8/PPPPPPPP/RNBQKBNR w KQkq - 0 1",
        "rnbqkbnr/pppppppp/8/8/8/8/PPPPPPPP/RNBQKBNR  w KQkq - 0 1",
        "rnbqkbnr/pppppppp/8/8/8/8/PPPPPPPP w KQkq - 0 1",
        "rnbqkbnr/pppppppp/8/8/8/8/PPPPPPPP/RNBQKBNR/8 w KQkq - 0 1",
        "rnbqkbnr/pppppppp/9/8/8/8/PPPPPPPP/RNBQKBNR w KQkq - 0 1",
        "rnbqkbnr/pppppppp/7/8/8/8/PPPPPPPP/RNBQKBNR w KQkq - 0 1",
        "rnbqkbnr/ppppppppp/8/8/8/8/PPPPPPPP/RNBQKBNR w KQkq - 0 1",
        "rnbqkbnr/pppppppp/8/8/8/8/PPPPPPPP/RNBQKBNX w KQkq - 0 1",
        "rnbqkbnr/pppppppp/8/8/8/8/PPPPPPPP/RNBQKBNR x KQkq - 0 1",
        "rnbqkbnr/pppppppp/8/8/8/8/PPPPPPPP/RNBQKBNR w QK - 0 1",
        "rnbqkbnr/pppppppp/8/8/8/8/PPPPPPPP/RNBQKBNR w  - 0 1",
        "rnbqkbnr/pppppppp/8/8/8/8/PPPPPPPP/RNBQKBNR w KQkq e9 0 1",
        "rnbqkbnr/pppppppp/8/8/8/8/PPPPPPPP/RNBQKBNR w KQkq E3 0 1",
        "rnbqkbnr/pppppppp/8/8/8/8/PPPPPPPP/RNBQKBNR w KQkq - x 1",
        "rnbqkbnr/pppppppp/8/8/8/8/PPPPPPPP/RNBQKBNR w KQkq - -1 1",
        "rnbqkbnr/pppppppp/8/8/8/8/PPPPPPPP/RNBQKBNR w KQkq - 0 4294967296",
        "rnbqkbnr/pppppppp/8/8/8/8/PPPPPPPP/RNBQKBNR w KQkq - 99999999999999999999999 1",
    ];
    for text in texts {
        assert_eq!(Board::build_from_fen(text), Err(format!("invalid FEN `{text}`")));
    }
}

#[test]
fn notation_takes_a_half_move_clock_from_outside() {
    let board = Board::default();
    assert_eq!(
        board.fen_with_halfmove(0),
        "rnbqkbnr/pppppppp/8/8/8/8/PPPPPPPP/RNBQKBNR w KQkq - 0 1"
    );
    assert_eq!(
        board.fen_with_halfmove(37),
        "rnbqkbnr/pppppppp/8/8/8/8/PPPPPPPP/RNBQKBNR w KQkq - 37 1"
    );
    let board = play(play(board, "g1", "f3"), "c7", "c5");
    assert_eq!(board.get_halfmove_clock(), 0);
    assert_eq!(
        board.fen_with_halfmove(u32::MAX),
        "rnbqkbnr/pp1ppppp/8/2p5/8/5N2/PPPPPPPP/RNBQKB1R w KQkq c6 4294967295 2"
    );
    assert_eq!(board.fen_with_halfmove(board.get_halfmove_clock()), board.fen());
    let read = Board::build_from_fen(&board.fen_with_halfmove(9)).unwrap();
    assert_eq!(read, BoardBuilder::from_board(&board).halfmove_clock(9).build());
}

#[test]
fn the_board_is_pictured_in_eight_lines() {
    assert_eq!(
        Board::default().to_string(),
        "rnbqkbnr\npppppppp\n........\n........\n........\n........\nPPPPPPPP\nRNBQKBNR\n"
    );
    assert_eq!(Board::empty().to_string(), "........\n".repeat(8));
    let board = Board::build_from_fen("k7/1P6/8/8/8/8/6p1/7K w - - 0 1").unwrap();
    assert_eq!(
        board.to_string(),
        "k.......\n.P......\n........\n........\n........\n........\n......p.\n.......K\n"
    );
}
