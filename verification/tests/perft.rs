use chess_engine::Board;

/// The number of lines of play of `depth` moves from `board`.
fn lines(board: &Board, depth: u32) -> u64 {
    let moves = board.get_legal_moves();
    if depth == 1 {
        return moves.len() as u64;
    }
    let color = board.get_turn_color();
    moves.iter().map(|m| lines(&board.apply_move(*m, color), depth - 1)).sum()
}

fn count(fen: &str, depth: u32) -> u64 {
    lines(&Board::build_from_fen(fen).unwrap(), depth)
}

#[test]
fn lines_of_play_from_the_initial_position() {
    let board = Board::default();
    assert_eq!(lines(&board, 1), 20);
    assert_eq!(lines(&board, 2), 400);
    assert_eq!(lines(&board, 3), 8_902);
    assert_eq!(lines(&board, 4), 197_281);
}

#[test]
fn lines_of_play_with_castling_and_pins() {
    let fen = "r3k2r/p1ppqpb1/bn2pnp1/3PN3/1p2P3/2N2Q1p/PPPBBPPP/R3K2R w KQkq - 0 1";
    assert_eq!(count(fen, 1), 48);
    assert_eq!(count(fen, 2), 2_039);
    assert_eq!(count(fen, 3), 97_862);
}

#[test]
fn lines_of_play_with_en_passant_and_checks() {
    let fen = "8/2p5/3p4/KP5r/1R3p1k/8/4P1P1/8 w - - 0 1";
    assert_eq!(count(fen, 1), 14);
    assert_eq!(count(fen, 2), 191);
    assert_eq!(count(fen, 3), 2_812);
    assert_eq!(count(fen, 4), 43_238);
}

#[test]
fn lines_of_play_with_promotions() {
    let fen = "r3k2r/Pppp1ppp/1b3nbN/nP6/BBP1P3/q4N2/Pp1P2PP/R2Q1RK1 w kq - 0 1";
    assert_eq!(count(fen, 1), 6);
    assert_eq!(count(fen, 2), 264);
    assert_eq!(count(fen, 3), 9_467);
    let mirrored = "r2q1rk1/pP1p2pp/Q4n2/bbp1p3/Np6/1B3NBn/pPPP1PPP/R3K2R b KQ - 0 1";
    assert_eq!(count(mirrored, 1), 6);
    assert_eq!(count(mirrored, 2), 264);
    assert_eq!(count(mirrored, 3), 9_467);
}

#[test]
fn lines_of_play_from_a_middle_game() {
    let fen = "rnbq1k1r/pp1Pbppp/2p5/8/2B5/8/PPP1NnPP/RNBQK2R w KQ - 1 8";
    assert_eq!(count(fen, 1), 44);
    assert_eq!(count(fen, 2), 1_486);
    assert_eq!(count(fen, 3), 62_379);
    let fen = "r4rk1/1pp1qppp/p1np1n2/2b1p1B1/2B1P1b1/P1NP1N2/1PP1QPPP/R4RK1 w - - 0 10";
    assert_eq!(count(fen, 1), 46);
    assert_eq!(count(fen, 2), 2_079);
    assert_eq!(count(fen, 3), 89_890);
}
