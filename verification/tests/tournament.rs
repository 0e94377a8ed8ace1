use chess_engine::tournament::{
    after_search, describe_move, engine_array, engine_for, engine_str, half_points,
    is_engine_name, status_line, Step, MIN_SECONDS, NODE_LIMIT, START_DEPTH,
};
use chess_engine::{Board, Color, GameResult, Move, Piece, PieceKind, Position};

fn sq(name: &str) -> Position {
    Position::pgn(name).unwrap()
}

#[test]
fn a_quick_and_small_search_is_followed_by_a_deeper_one() {
    let best = Move::Piece(sq("e2"), sq("e4"));
    assert_eq!((START_DEPTH, MIN_SECONDS, NODE_LIMIT), (4, 10, 10_000));
    assert_eq!(after_search(4, best, 9_999, 9), Step::Search(5));
    assert_eq!(after_search(4, best, 0, 0), Step::Search(5));
    assert_eq!(after_search(7, best, 10_000, 9), Step::Play(best));
    assert_eq!(after_search(7, best, 9_999, 10), Step::Play(best));
    assert_eq!(after_search(7, best, u64::MAX, u64::MAX), Step::Play(best));
    assert_eq!(after_search(i32::MAX, best, 0, 0), Step::Play(best));
    assert_eq!(after_search(-3, best, 0, 0), Step::Search(-2));
}

#[test]
fn each_side_plays_with_its_own_engine() {
    let white = Some([1, 0, 0, 0, 0, 0]);
    let black = Some([0, 1, 2, 3, 4, 5]);
    assert_eq!(engine_for(Color::White, white, black), white);
    assert_eq!(engine_for(Color::Black, white, black), black);
    assert_eq!(engine_for(Color::Black, white, None), None);
}

#[test]
fn engines_are_named_by_their_weights() {
    assert_eq!(engine_array("101010"), [1, 0, 1, 0, 1, 0]);
    assert_eq!(engine_array("987654"), [9, 8, 7, 6, 5, 4]);
    assert_eq!(engine_array("12"), [1, 2, 0, 0, 0, 0]);
    assert_eq!(engine_array(""), [0, 0, 0, 0, 0, 0]);
    assert_eq!(engine_str([1, 0, 1, 0, 1, 0]), "101010");
    assert_eq!(engine_str([9, 8, 7, 6, 5, 4]), "987654");
    assert_eq!(engine_str([10, -2, 0, 300, i32::MIN, i32::MAX]), "10-20300-21474836482147483647");
    assert_eq!(engine_array(&engine_str([3, 1, 4, 1, 5, 9])), [3, 1, 4, 1, 5, 9]);
    assert!(is_engine_name("101010"));
    assert!(is_engine_name(""));
    assert!(is_engine_name("7"));
    assert!(!is_engine_name("1010101"));
    assert!(!is_engine_name("10a010"));
    assert!(!is_engine_name("1 2"));
    assert!(!is_engine_name("-1"));
    assert!(!is_engine_name("١٢"));
}

#[test]
fn moves_are_described_by_what_they_do() {
    let board = Board::build_from_fen("r3k2r/8/8/4p3/8/5N2/8/R3K2R w KQkq - 0 1").unwrap();
    assert_eq!(
        describe_move(&board, Move::Piece(sq("f3"), sq("e5"))),
        "take pawn(e5) with knight(f3)"
    );
    assert_eq!(describe_move(&board, Move::Piece(sq("f3"), sq("d4"))), "move knight(f3) to d4");
    assert_eq!(describe_move(&board, Move::Piece(sq("b3"), sq("b4"))), "move b3 to b4");
    assert_eq!(describe_move(&board, Move::Piece(sq("b3"), sq("e5"))), "move b3 to e5");
    let promotion = Move::Promotion(sq("a1"), sq("a8"), Piece::new(PieceKind::Queen, Color::White));
    assert_eq!(describe_move(&board, promotion), "take rook(a8) with rook(a1)");
    assert_eq!(describe_move(&board, Move::KingSideCastle), "castle kingside");
    assert_eq!(describe_move(&board, Move::QueenSideCastle), "castle queenside");
    assert_eq!(describe_move(&board, Move::Resign), "resign");
}

#[test]
fn games_are_summed_up_in_a_line() {
    let board = Board::default();
    let after = board.play_move(Move::Piece(sq("e2"), sq("e4")));
    assert_eq!(status_line(&after), Some(String::from("Black to play")));
    assert_eq!(status_line(&GameResult::Continuing(board)), Some(String::from("White to play")));
    assert_eq!(
        status_line(&GameResult::Victory(Color::White)),
        Some(String::from("Black loses. White is victorious."))
    );
    assert_eq!(
        status_line(&GameResult::Victory(Color::Black)),
        Some(String::from("White loses. Black is victorious."))
    );
    assert_eq!(status_line(&GameResult::Stalemate), Some(String::from("Draw")));
    assert_eq!(status_line(&GameResult::IllegalMove(Move::Resign)), None);
}

#[test]
fn finished_games_count_in_half_points() {
    assert_eq!(half_points(&GameResult::Victory(Color::White)), Some(2));
    assert_eq!(half_points(&GameResult::Victory(Color::Black)), Some(2));
    assert_eq!(half_points(&GameResult::Stalemate), Some(1));
    assert_eq!(half_points(&GameResult::Continuing(Board::default())), None);
    assert_eq!(half_points(&GameResult::IllegalMove(Move::Resign)), None);
}
