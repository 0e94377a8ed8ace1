use chess_engine::{
    Board, BoardBuilder, CastlingRights, Color, GameResult, Move, Piece, PieceKind, Position,
};

fn sq(name: &str) -> Position {
    Position::pgn(name).unwrap()
}

fn step(from: &str, to: &str) -> Move {
    Move::Piece(sq(from), sq(to))
}

fn piece(kind: PieceKind, color: Color) -> Piece {
    Piece::new(kind, color)
}

fn play(board: Board, from: &str, to: &str) -> Board {
    match board.play_move(step(from, to)) {
        GameResult::Continuing(next) => next,
        other => panic!("the game does not go on after {from}{to}: {other:?}"),
    }
}

fn all_rights() -> CastlingRights {
    CastlingRights {
        white_kingside: true,
        white_queenside: true,
        black_kingside: true,
        black_queenside: true,
    }
}

#[test]
fn initial_position_has_twenty_moves() {
    let board = Board::default();
    assert_eq!(board.get_turn_color(), Color::White);
    assert_eq!(board.get_legal_moves().len(), 20);
    assert_eq!(board.get_legal_moves_for(Color::Black).len(), 20);
}

#[test]
fn initial_moves_come_in_a_fixed_order() {
    let moves = Board::default().get_legal_moves();
    assert_eq!(moves[0], step("b1", "a3"));
    assert_eq!(moves[1], step("b1", "c3"));
    assert_eq!(moves[2], step("g1", "f3"));
    assert_eq!(moves[3], step("g1", "h3"));
    assert_eq!(moves[4], step("a2", "a3"));
    assert_eq!(moves[5], step("a2", "a4"));
    assert_eq!(moves[19], step("h2", "h4"));
    assert_eq!(moves, Board::default().get_legal_moves());
}

#[test]
fn initial_position_is_laid_out_as_usual() {
    let board = Board::default();
    assert_eq!(board.get_piece(sq("e1")), Some(piece(PieceKind::King, Color::White)));
    assert_eq!(board.get_piece(sq("d8")), Some(piece(PieceKind::Queen, Color::Black)));
    assert_eq!(board.get_piece(sq("a1")), Some(piece(PieceKind::Rook, Color::White)));
    assert_eq!(board.get_piece(sq("g8")), Some(piece(PieceKind::Knight, Color::Black)));
    assert_eq!(board.get_piece(sq("c1")), Some(piece(PieceKind::Bishop, Color::White)));
    assert_eq!(board.get_piece(sq("h7")), Some(piece(PieceKind::Pawn, Color::Black)));
    assert_eq!(board.get_piece(sq("e4")), None);
    assert_eq!(board.get_castling_rights(), all_rights());
    assert_eq!(board.get_en_passant(), None);
    assert_eq!(board.get_halfmove_clock(), 0);
    assert_eq!(board.get_fullmove_number(), 1);
}

#[test]
fn playing_a_move_leaves_the_board_as_it_was() {
    let board = Board::default();
    let next = play(board, "e2", "e4");
    assert_eq!(board, Board::default());
    assert_eq!(next.get_turn_color(), Color::Black);
    assert_eq!(next.get_piece(sq("e2")), None);
    assert_eq!(next.get_piece(sq("e4")), Some(piece(PieceKind::Pawn, Color::White)));
}

#[test]
fn fools_mate_is_a_victory_for_black() {
    let board = Board::default();
    let board = play(board, "f2", "f3");
    let board = play(board, "e7", "e5");
    let board = play(board, "g2", "g4");
    let result = board.play_move(step("d8", "h4"));
    assert_eq!(result, GameResult::Victory(Color::Black));
}

#[test]
fn checkmated_side_has_no_legal_move() {
    let board = Board::default();
    let board = play(board, "f2", "f3");
    let board = play(board, "e7", "e5");
    let board = play(board, "g2", "g4");
    let mated = board.apply_move(step("d8", "h4"), Color::Black);
    assert!(mated.is_in_check(Color::White));
    assert!(mated.is_checkmate());
    assert!(!mated.is_stalemate());
    assert_eq!(mated.get_legal_moves().len(), 0);
    assert_eq!(mated.play_move(step("e2", "e3")), GameResult::IllegalMove(step("e2", "e3")));
}

#[test]
fn no_move_and_no_check_is_a_draw() {
    let board = BoardBuilder::new()
        .piece(piece(PieceKind::King, Color::White), sq("f7"))
        .piece(piece(PieceKind::Queen, Color::White), sq("g1"))
        .piece(piece(PieceKind::King, Color::Black), sq("h8"))
        .build();
    let result = board.play_move(step("g1", "g6"));
    assert_eq!(result, GameResult::Stalemate);
    let after = board.apply_move(step("g1", "g6"), Color::White);
    assert!(!after.is_in_check(Color::Black));
    assert_eq!(after.get_legal_moves().len(), 0);
    assert!(!after.has_insufficient_material(Color::White));
}

#[test]
fn king_against_king_and_knight_without_moves_is_a_draw() {
    let board = BoardBuilder::new()
        .piece(piece(PieceKind::King, Color::White), sq("d7"))
        .piece(piece(PieceKind::Knight, Color::White), sq("c6"))
        .piece(piece(PieceKind::King, Color::Black), sq("a8"))
        .build();
    let result = board.play_move(step("d7", "c7"));
    assert_eq!(result, GameResult::Stalemate);
    let after = board.apply_move(step("d7", "c7"), Color::White);
    assert!(!after.is_in_check(Color::Black));
    assert_eq!(after.get_legal_moves().len(), 0);
}

#[test]
fn king_and_bishop_against_king_is_a_draw_with_moves_left() {
    let board = BoardBuilder::new()
        .piece(piece(PieceKind::King, Color::White), sq("e1"))
        .piece(piece(PieceKind::Bishop, Color::White), sq("c1"))
        .piece(piece(PieceKind::King, Color::Black), sq("e8"))
        .build();
    let after = board.apply_move(step("e1", "e2"), Color::White);
    assert!(after.get_legal_moves().len() > 0);
    assert_eq!(board.play_move(step("e1", "e2")), GameResult::Stalemate);
}

#[test]
fn capture_that_leaves_too_little_material_is_a_draw() {
    let board = BoardBuilder::new()
        .piece(piece(PieceKind::King, Color::White), sq("e1"))
        .piece(piece(PieceKind::Bishop, Color::White), sq("c1"))
        .piece(piece(PieceKind::King, Color::Black), sq("e8"))
        .piece(piece(PieceKind::Rook, Color::Black), sq("h6"))
        .build();
    assert!(!board.has_insufficient_material(Color::Black));
    assert_eq!(board.play_move(step("c1", "h6")), GameResult::Stalemate);
}

#[test]
fn insufficient_material_is_told_by_the_pieces() {
    let kings = BoardBuilder::new()
        .piece(piece(PieceKind::King, Color::White), sq("e1"))
        .piece(piece(PieceKind::King, Color::Black), sq("e8"));
    assert!(kings.build().has_insufficient_material(Color::White));
    let two_knights = kings
        .piece(piece(PieceKind::Knight, Color::White), sq("b1"))
        .piece(piece(PieceKind::Knight, Color::White), sq("g1"));
    assert!(two_knights.build().has_insufficient_material(Color::White));
    let three_knights = two_knights.piece(piece(PieceKind::Knight, Color::White), sq("c3"));
    assert!(!three_knights.build().has_insufficient_material(Color::White));
    let two_bishops = kings
        .piece(piece(PieceKind::Bishop, Color::White), sq("c1"))
        .piece(piece(PieceKind::Bishop, Color::White), sq("f1"));
    assert!(two_bishops.build().has_insufficient_material(Color::White));
    let bishop_and_knight = kings
        .piece(piece(PieceKind::Bishop, Color::White), sq("c1"))
        .piece(piece(PieceKind::Knight, Color::White), sq("g1"));
    assert!(!bishop_and_knight.build().has_insufficient_material(Color::White));
    let pawn = kings.piece(piece(PieceKind::Pawn, Color::White), sq("a2"));
    assert!(!pawn.build().has_insufficient_material(Color::White));
    assert!(pawn.build().has_insufficient_material(Color::Black));
    assert_eq!(two_knights.build().count_pieces(PieceKind::Knight, Color::White), 2);
}

#[test]
fn en_passant_is_open_for_one_move_only() {
    let board = Board::default();
    let board = play(board, "e2", "e4");
    let board = play(board, "a7", "a6");
    let board = play(board, "e4", "e5");
    let board = play(board, "d7", "d5");
    assert_eq!(board.get_en_passant(), Some(sq("d6")));
    assert!(board.get_legal_moves().contains(&step("e5", "d6")));
    let taken = play(board, "e5", "d6");
    assert_eq!(taken.get_piece(sq("d5")), None);
    assert_eq!(taken.get_piece(sq("e5")), None);
    assert_eq!(taken.get_piece(sq("d6")), Some(piece(PieceKind::Pawn, Color::White)));
    assert_eq!(taken.get_en_passant(), None);
    assert_eq!(taken.get_halfmove_clock(), 0);

    let later = play(board, "h2", "h3");
    assert_eq!(later.get_en_passant(), None);
    let later = play(later, "h7", "h6");
    assert!(!later.get_legal_moves().contains(&step("e5", "d6")));
    assert_eq!(later.play_move(step("e5", "d6")), GameResult::IllegalMove(step("e5", "d6")));
}

#[test]
fn en_passant_target_follows_a_double_step_only() {
    let board = Board::default();
    let board = play(board, "e2", "e4");
    assert_eq!(board.get_en_passant(), Some(sq("e3")));
    let board = play(board, "e7", "e6");
    assert_eq!(board.get_en_passant(), None);
    let board = play(board, "g1", "f3");
    assert_eq!(board.get_en_passant(), None);
    let board = play(board, "c7", "c5");
    assert_eq!(board.get_en_passant(), Some(sq("c6")));
}

#[test]
fn pawns_move_forward_and_take_diagonally() {
    let board = Board::default();
    assert!(board.is_legal_move(step("e2", "e3"), Color::White));
    assert!(board.is_legal_move(step("e2", "e4"), Color::White));
    assert!(!board.is_legal_move(step("e2", "e5"), Color::White));
    assert!(!board.is_legal_move(step("e2", "d3"), Color::White));
    assert!(!board.is_legal_move(step("e2", "e1"), Color::White));
    let board = play(board, "e2", "e4");
    let board = play(board, "d7", "d5");
    assert!(board.is_legal_move(step("e4", "d5"), Color::White));
    assert!(board.is_legal_move(step("e4", "e5"), Color::White));
    assert!(!board.is_legal_move(step("e4", "e6"), Color::White));
    let board = play(board, "e4", "e5");
    let board = play(board, "e7", "e6");
    assert!(!board.is_legal_move(step("e5", "e6"), Color::White));
}

#[test]
fn sliding_pieces_stop_at_the_first_piece() {
    let board = Board::default();
    assert!(!board.is_legal_move(step("a1", "a3"), Color::White));
    assert!(!board.is_legal_move(step("c1", "e3"), Color::White));
    assert!(!board.is_legal_move(step("d1", "d2"), Color::White));
    let board = BoardBuilder::new()
        .piece(piece(PieceKind::King, Color::White), sq("e1"))
        .piece(piece(PieceKind::Rook, Color::White), sq("a1"))
        .piece(piece(PieceKind::Pawn, Color::Black), sq("a5"))
        .piece(piece(PieceKind::King, Color::Black), sq("e8"))
        .build();
    assert!(board.is_legal_move(step("a1", "a4"), Color::White));
    assert!(board.is_legal_move(step("a1", "a5"), Color::White));
    assert!(!board.is_legal_move(step("a1", "a6"), Color::White));
    assert!(board.is_legal_move(step("a1", "d1"), Color::White));
    assert!(!board.is_legal_move(step("a1", "e1"), Color::White));
    assert!(!board.is_legal_move(step("a1", "b2"), Color::White));
}

#[test]
fn knights_jump_and_kings_step() {
    let board = Board::default();
    assert!(board.is_legal_move(step("g1", "f3"), Color::White));
    assert!(!board.is_legal_move(step("g1", "e2"), Color::White));
    assert!(!board.is_legal_move(step("g1", "g3"), Color::White));
    assert!(!board.is_legal_move(step("e1", "e2"), Color::White));
    assert!(!board.is_legal_move(step("e7", "e5"), Color::White));
    assert!(board.is_legal_move(step("e7", "e5"), Color::Black));
}

#[test]
fn a_pinned_piece_may_not_leave_the_line() {
    let board = BoardBuilder::new()
        .piece(piece(PieceKind::King, Color::White), sq("e1"))
        .piece(piece(PieceKind::Knight, Color::White), sq("e2"))
        .piece(piece(PieceKind::Rook, Color::Black), sq("e8"))
        .piece(piece(PieceKind::King, Color::Black), sq("a8"))
        .build();
    assert!(board.is_pseudo_legal(step("e2", "c3"), Color::White));
    assert!(!board.is_legal_move(step("e2", "c3"), Color::White));
    assert_eq!(board.play_move(step("e2", "c3")), GameResult::IllegalMove(step("e2", "c3")));
    for m in board.get_legal_moves() {
        assert!(!board.apply_move(m, Color::White).is_in_check(Color::White));
    }
}

#[test]
fn no_legal_move_leaves_the_mover_in_check() {
    let mut board = Board::default();
    let line = [
        ("e2", "e4"),
        ("e7", "e5"),
        ("g1", "f3"),
        ("b8", "c6"),
        ("f1", "b5"),
        ("a7", "a6"),
        ("b5", "c6"),
        ("d7", "c6"),
    ];
    for (from, to) in line {
        let color = board.get_turn_color();
        for m in board.get_legal_moves() {
            assert!(board.is_pseudo_legal(m, color));
            assert!(!board.apply_move(m, color).is_in_check(color));
            assert!(!matches!(board.play_move(m), GameResult::IllegalMove(_)));
        }
        board = play(board, from, to);
    }
}

#[test]
fn a_check_must_be_answered() {
    let board = Board::default();
    let board = play(board, "e2", "e4");
    let board = play(board, "f7", "f6");
    let board = play(board, "d1", "h5");
    assert!(board.is_in_check(Color::Black));
    assert!(!board.is_in_check(Color::White));
    assert_eq!(board.get_legal_moves(), vec![step("g7", "g6")]);
    assert!(board.is_threatened(sq("e8"), Color::White));
    assert!(board.is_threatened(sq("f7"), Color::White));
    assert!(!board.is_threatened(sq("d8"), Color::White));
    assert!(board.is_threatened(sq("g6"), Color::Black));
    assert!(board.is_threatened(sq("g5"), Color::Black));
    assert!(!board.is_threatened(sq("h4"), Color::Black));
}

#[test]
fn castling_moves_king_and_rook() {
    let start = BoardBuilder::new()
        .piece(piece(PieceKind::King, Color::White), sq("e1"))
        .piece(piece(PieceKind::Rook, Color::White), sq("a1"))
        .piece(piece(PieceKind::Rook, Color::White), sq("h1"))
        .piece(piece(PieceKind::King, Color::Black), sq("e8"))
        .piece(piece(PieceKind::Rook, Color::Black), sq("a8"))
        .piece(piece(PieceKind::Rook, Color::Black), sq("h8"))
        .enable_castling()
        .build();
    let moves = start.get_legal_moves();
    assert_eq!(moves[0], Move::KingSideCastle);
    assert_eq!(moves[1], Move::QueenSideCastle);
    let short = match start.play_move(Move::KingSideCastle) {
        GameResult::Continuing(next) => next,
        other => panic!("castling failed: {other:?}"),
    };
    assert_eq!(short.get_piece(sq("g1")), Some(piece(PieceKind::King, Color::White)));
    assert_eq!(short.get_piece(sq("f1")), Some(piece(PieceKind::Rook, Color::White)));
    assert_eq!(short.get_piece(sq("e1")), None);
    assert_eq!(short.get_piece(sq("h1")), None);
    assert!(!short.get_castling_rights().white_kingside);
    assert!(!short.get_castling_rights().white_queenside);
    assert!(short.get_castling_rights().black_kingside);
    let long = match short.play_move(Move::QueenSideCastle) {
        GameResult::Continuing(next) => next,
        other => panic!("castling failed: {other:?}"),
    };
    assert_eq!(long.get_piece(sq("c8")), Some(piece(PieceKind::King, Color::Black)));
    assert_eq!(long.get_piece(sq("d8")), Some(piece(PieceKind::Rook, Color::Black)));
    assert_eq!(long.get_piece(sq("a8")), None);
    assert_eq!(long.get_piece(sq("e8")), None);
    assert_eq!(long.get_castling_rights().black_kingside, false);
    assert_eq!(long.get_fullmove_number(), 2);
    assert_eq!(long.get_halfmove_clock(), 2);
}

#[test]
fn castling_needs_rights_room_and_safety() {
    let pieces = BoardBuilder::new()
        .piece(piece(PieceKind::King, Color::White), sq("e1"))
        .piece(piece(PieceKind::Rook, Color::White), sq("a1"))
        .piece(piece(PieceKind::Rook, Color::White), sq("h1"))
        .piece(piece(PieceKind::King, Color::Black), sq("e8"));
    let no_rights = pieces.build();
    assert!(!no_rights.can_castle(Color::White, true));
    assert_eq!(
        no_rights.play_move(Move::KingSideCastle),
        GameResult::IllegalMove(Move::KingSideCastle)
    );
    let free = pieces.enable_castling().build();
    assert!(free.can_castle(Color::White, true));
    assert!(free.can_castle(Color::White, false));
    assert!(!free.can_castle(Color::Black, true));
    let blocked = pieces
        .enable_castling()
        .piece(piece(PieceKind::Knight, Color::White), sq("b1"))
        .build();
    assert!(blocked.can_castle(Color::White, true));
    assert!(!blocked.can_castle(Color::White, false));
    let crossed = pieces
        .enable_castling()
        .piece(piece(PieceKind::Rook, Color::Black), sq("f8"))
        .build();
    assert!(!crossed.can_castle(Color::White, true));
    assert!(crossed.can_castle(Color::White, false));
    let checked = pieces
        .enable_castling()
        .piece(piece(PieceKind::Rook, Color::Black), sq("e5"))
        .build();
    assert!(!checked.can_castle(Color::White, true));
    assert!(!checked.can_castle(Color::White, false));
    let guarded_b1 = pieces
        .enable_castling()
        .piece(piece(PieceKind::Rook, Color::Black), sq("b8"))
        .build();
    assert!(guarded_b1.can_castle(Color::White, false));
}

#[test]
fn moving_king_or_rook_costs_the_right_to_castle() {
    let start = BoardBuilder::new()
        .piece(piece(PieceKind::King, Color::White), sq("e1"))
        .piece(piece(PieceKind::Rook, Color::White), sq("a1"))
        .piece(piece(PieceKind::Rook, Color::White), sq("h1"))
        .piece(piece(PieceKind::King, Color::Black), sq("e8"))
        .piece(piece(PieceKind::Rook, Color::Black), sq("a8"))
        .piece(piece(PieceKind::Rook, Color::Black), sq("h8"))
        .enable_castling()
        .build();
    let rook_moved = play(start, "h1", "h2");
    assert!(!rook_moved.get_castling_rights().white_kingside);
    assert!(rook_moved.get_castling_rights().white_queenside);
    let king_moved = play(start, "e1", "e2");
    assert!(!king_moved.get_castling_rights().white_kingside);
    assert!(!king_moved.get_castling_rights().white_queenside);
    assert!(king_moved.get_castling_rights().black_queenside);
    let rook_taken = play(start, "a1", "a8");
    assert!(!rook_taken.get_castling_rights().white_queenside);
    assert!(rook_taken.get_castling_rights().white_kingside);
    assert!(!rook_taken.get_castling_rights().black_queenside);
    assert!(rook_taken.get_castling_rights().black_kingside);
}

#[test]
fn a_pawn_on_its_last_row_is_promoted() {
    let board = BoardBuilder::new()
        .piece(piece(PieceKind::King, Color::White), sq("e1"))
        .piece(piece(PieceKind::Pawn, Color::White), sq("a7"))
        .piece(piece(PieceKind::King, Color::Black), sq("h8"))
        .piece(piece(PieceKind::Pawn, Color::Black), sq("h7"))
        .piece(piece(PieceKind::Pawn, Color::Black), sq("g7"))
        .build();
    let queen = Move::Promotion(sq("a7"), sq("a8"), piece(PieceKind::Queen, Color::White));
    let knight = Move::Promotion(sq("a7"), sq("a8"), piece(PieceKind::Knight, Color::White));
    let king = Move::Promotion(sq("a7"), sq("a8"), piece(PieceKind::King, Color::White));
    let pawn = Move::Promotion(sq("a7"), sq("a8"), piece(PieceKind::Pawn, Color::White));
    let foreign = Move::Promotion(sq("a7"), sq("a8"), piece(PieceKind::Queen, Color::Black));
    assert!(board.is_legal_move(queen, Color::White));
    assert!(board.is_legal_move(knight, Color::White));
    assert!(!board.is_legal_move(king, Color::White));
    assert!(!board.is_legal_move(pawn, Color::White));
    assert!(!board.is_legal_move(foreign, Color::White));
    assert!(!board.is_legal_move(step("a7", "a8"), Color::White));
    let moves = board.get_legal_moves();
    let promotions: Vec<Move> =
        moves.iter().copied().filter(|m| matches!(m, Move::Promotion(..))).collect();
    assert_eq!(
        promotions,
        vec![
            Move::Promotion(sq("a7"), sq("a8"), piece(PieceKind::Queen, Color::White)),
            Move::Promotion(sq("a7"), sq("a8"), piece(PieceKind::Rook, Color::White)),
            Move::Promotion(sq("a7"), sq("a8"), piece(PieceKind::Bishop, Color::White)),
            Move::Promotion(sq("a7"), sq("a8"), piece(PieceKind::Knight, Color::White)),
        ]
    );
    assert_eq!(board.play_move(queen), GameResult::Victory(Color::White));
    let after = board.apply_move(knight, Color::White);
    assert_eq!(after.get_piece(sq("a8")), Some(piece(PieceKind::Knight, Color::White)));
    assert_eq!(after.get_piece(sq("a7")), None);
    let early = Move::Promotion(sq("e1"), sq("e2"), piece(PieceKind::Queen, Color::White));
    assert_eq!(board.play_move(early), GameResult::IllegalMove(early));
}

#[test]
fn resigning_gives_the_game_to_the_other_side() {
    let board = Board::default();
    assert_eq!(board.play_move(Move::Resign), GameResult::Victory(Color::Black));
    let board = play(board, "e2", "e4");
    assert_eq!(board.play_move(Move::Resign), GameResult::Victory(Color::White));
    assert!(!Board::default().get_legal_moves().contains(&Move::Resign));
}

#[test]
fn illegal_moves_are_handed_back() {
    let board = Board::default();
    for m in [step("e2", "e5"), step("e7", "e5"), step("e4", "e5"), step("a1", "a1"), Move::KingSideCastle] {
        assert_eq!(board.play_move(m), GameResult::IllegalMove(m));
    }
    assert_eq!(board, Board::default());
}

#[test]
fn clocks_count_moves() {
    let board = Board::default();
    let board = play(board, "g1", "f3");
    assert_eq!((board.get_halfmove_clock(), board.get_fullmove_number()), (1, 1));
    let board = play(board, "g8", "f6");
    assert_eq!((board.get_halfmove_clock(), board.get_fullmove_number()), (2, 2));
    let board = play(board, "e2", "e4");
    assert_eq!((board.get_halfmove_clock(), board.get_fullmove_number()), (0, 2));
    let board = play(board, "f6", "e4");
    assert_eq!((board.get_halfmove_clock(), board.get_fullmove_number()), (0, 3));
    let full = BoardBuilder::from_board(&board)
        .halfmove_clock(u32::MAX)
        .fullmove_number(u32::MAX)
        .build();
    let full = play(full, "f3", "g1");
    assert_eq!((full.get_halfmove_clock(), full.get_fullmove_number()), (u32::MAX, u32::MAX));
    let full = play(full, "e4", "f6");
    assert_eq!((full.get_halfmove_clock(), full.get_fullmove_number()), (u32::MAX, u32::MAX));
}

#[test]
fn builder_sets_every_field() {
    let rights = CastlingRights {
        white_kingside: true,
        white_queenside: false,
        black_kingside: false,
        black_queenside: true,
    };
    let builder = BoardBuilder::new()
        .piece(piece(PieceKind::King, Color::White), sq("e1"))
        .piece(piece(PieceKind::King, Color::Black), sq("e8"))
        .piece(piece(PieceKind::Queen, Color::White), sq("d1"))
        .clear(sq("d1"))
        .turn(Color::Black)
        .castling(rights)
        .en_passant(Some(sq("e3")))
        .halfmove_clock(7)
        .fullmove_number(9);
    assert_eq!(builder.get_square(0, 4), Some(piece(PieceKind::King, Color::White)));
    assert_eq!(builder.get_square(9, 4), None);
    let board = builder.build();
    assert_eq!(board.get_piece(sq("e8")), Some(piece(PieceKind::King, Color::Black)));
    assert_eq!(board.get_piece(sq("d1")), None);
    assert_eq!(board.get_square(0, 4), Some(piece(PieceKind::King, Color::White)));
    assert_eq!(board.get_square(-1, 4), None);
    assert_eq!(board.get_square(0, 8), None);
    assert_eq!(board.get_turn_color(), Color::Black);
    assert_eq!(board.get_castling_rights(), rights);
    assert_eq!(board.get_en_passant(), Some(sq("e3")));
    assert_eq!(board.get_halfmove_clock(), 7);
    assert_eq!(board.get_fullmove_number(), 9);
    assert_eq!(BoardBuilder::new().build(), Board::empty());
    assert_eq!(BoardBuilder::from_board(&board).build(), board);
    assert_eq!(BoardBuilder::new().enable_castling().disable_castling().build(), Board::empty());
    assert!(rights.get(Color::White, true));
    assert!(!rights.get(Color::White, false));
    assert!(!rights.revoke(Color::Black, false).get(Color::Black, false));
    assert_eq!(Board::default(), Board::initial());
}

#[test]
fn steps_and_promotions_are_told_apart() {
    let board = BoardBuilder::new()
        .piece(piece(PieceKind::King, Color::White), sq("e1"))
        .piece(piece(PieceKind::Pawn, Color::White), sq("a7"))
        .piece(piece(PieceKind::Pawn, Color::White), sq("b2"))
        .piece(piece(PieceKind::King, Color::Black), sq("h8"))
        .piece(piece(PieceKind::Pawn, Color::Black), sq("c2"))
        .build();
    assert!(board.step_is_allowed(Color::White, sq("a7"), sq("a8")));
    assert!(board.is_promotion(Color::White, sq("a7"), sq("a8")));
    assert!(board.step_is_allowed(Color::White, sq("b2"), sq("b4")));
    assert!(!board.is_promotion(Color::White, sq("b2"), sq("b4")));
    assert!(!board.step_is_allowed(Color::White, sq("b2"), sq("b5")));
    assert!(!board.step_is_allowed(Color::White, sq("c2"), sq("c1")));
    assert!(board.step_is_allowed(Color::Black, sq("c2"), sq("c1")));
    assert!(board.is_promotion(Color::Black, sq("c2"), sq("c1")));
    assert!(!board.is_promotion(Color::White, sq("c2"), sq("c1")));
    assert!(!board.is_promotion(Color::White, sq("e1"), sq("e8")));
    assert!(!board.step_is_allowed(Color::White, sq("d4"), sq("d5")));
    assert!(!board.step_is_allowed(Color::White, sq("e1"), sq("e1")));
}

#[test]
fn a_move_by_the_mated_side_is_handed_back() {
    let mated = Board::build_from_fen("rnb1kbnr/pppp1ppp/8/4p3/6Pq/5P2/PPPPP2P/RNBQKBNR w KQkq - 1 3")
        .unwrap();
    assert!(mated.is_checkmate());
    for from in 0..64 {
        for to in 0..64 {
            let m = Move::Piece(Position::from_index(from).unwrap(), Position::from_index(to).unwrap());
            assert_eq!(mated.play_move(m), GameResult::IllegalMove(m));
        }
    }
    assert_eq!(mated.play_move(Move::Resign), GameResult::Victory(Color::Black));
}
