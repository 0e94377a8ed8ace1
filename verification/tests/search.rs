use chess_engine::search::{
    alpha_beta, evaluate, last_highest_place, pick_move, weights_or_default,
};
use chess_engine::{
    Board, BoardBuilder, Color, Evaluate, GameResult, Move, Piece, PieceKind, Position, Searchable,
};
use chess_engine::tournament::{after_search, Step, START_DEPTH};
use dashmap::DashMap;
use rayon::iter::{IntoParallelRefIterator, ParallelIterator};
use std::sync::{Arc, Mutex};

fn sq(name: &str) -> Position {
    Position::pgn(name).unwrap()
}

fn step(from: &str, to: &str) -> Move {
    Move::Piece(sq(from), sq(to))
}

fn play(board: Board, from: &str, to: &str) -> Board {
    match board.play_move(step(from, to)) {
        GameResult::Continuing(next) => next,
        other => panic!("the game does not go on after {from}{to}: {other:?}"),
    }
}

fn positions() -> Vec<Board> {
    let opening = play(play(play(Board::default(), "e2", "e4"), "d7", "d5"), "b1", "c3");
    let endgame = BoardBuilder::new()
        .piece(Piece::new(PieceKind::King, Color::White), sq("e1"))
        .piece(Piece::new(PieceKind::Rook, Color::White), sq("a1"))
        .piece(Piece::new(PieceKind::Pawn, Color::White), sq("g6"))
        .piece(Piece::new(PieceKind::King, Color::Black), sq("g8"))
        .piece(Piece::new(PieceKind::Knight, Color::Black), sq("c3"))
        .piece(Piece::new(PieceKind::Pawn, Color::Black), sq("b2"))
        .turn(Color::Black)
        .build();
    vec![Board::default(), opening, endgame]
}

/// The score of `board` by a search of every line to `depth`, without a
/// window and without a cache.
fn full_width(board: &Board, depth: i32, maximizing: bool, color: Color, w: &[i32; 6]) -> i64 {
    if depth == 0 {
        return evaluate(board, color, w);
    }
    let mut best: i64 = if maximizing { -999_999 } else { 999_999 };
    for m in board.get_legal_moves() {
        let value = full_width(&board.apply_eval_move(m), depth - 1, !maximizing, color, w);
        if maximizing {
            best = best.max(value);
        } else {
            best = best.min(value);
        }
    }
    best
}

#[test]
fn heuristics_of_the_initial_position() {
    let board = Board::default();
    for color in [Color::White, Color::Black] {
        assert_eq!(board.value_for(color), 0);
        assert_eq!(board.mobility_value_for(color), 20);
        assert_eq!(board.naive_value_for(color), 0);
        assert_eq!(board.control_value_for(color), 22);
        assert_eq!(board.closest_value_for(color), 70);
        assert_eq!(board.trade_value_for(color), -78);
    }
    assert_eq!(board.get_current_player_color(), Color::White);
    assert_eq!(Searchable::get_legal_moves(&board), board.get_legal_moves());
    assert_eq!(Searchable::get_legal_moves_for(&board, Color::Black).len(), 20);
    assert_eq!(board.cache_repr(), board.fen());
}

#[test]
fn heuristics_follow_the_pieces() {
    let board = play(Board::default(), "e2", "e4");
    assert_eq!(board.value_for(Color::White), 40);
    assert_eq!(board.value_for(Color::Black), -40);
    assert_eq!(board.mobility_value_for(Color::White), 30);
    assert_eq!(board.mobility_value_for(Color::Black), 20);
    let board = BoardBuilder::new()
        .piece(Piece::new(PieceKind::King, Color::White), sq("a1"))
        .piece(Piece::new(PieceKind::Queen, Color::White), sq("d4"))
        .piece(Piece::new(PieceKind::King, Color::Black), sq("h8"))
        .piece(Piece::new(PieceKind::Rook, Color::Black), sq("h1"))
        .piece(Piece::new(PieceKind::Pawn, Color::Black), sq("d5"))
        .build();
    assert_eq!(board.naive_value_for(Color::White), 3);
    assert_eq!(board.naive_value_for(Color::Black), -3);
    assert_eq!(board.trade_value_for(Color::White), -15);
    assert_eq!(board.trade_value_for(Color::Black), -15);
    assert_eq!(board.value_for(Color::White), (20 + 905) - (20 + 500 + 120));
    assert_eq!(board.value_for(Color::Black), (20 + 500 + 120) - (20 + 905));
    assert_eq!(board.closest_value_for(Color::White), 105);
    assert_eq!(board.closest_value_for(Color::Black), 105);
    assert_eq!(board.control_value_for(Color::White), 26);
    let lone = BoardBuilder::new()
        .piece(Piece::new(PieceKind::King, Color::White), sq("a1"))
        .build();
    assert_eq!(lone.closest_value_for(Color::White), 0);
    assert_eq!(lone.closest_value_for(Color::Black), 0);
    assert_eq!(lone.control_value_for(Color::White), 3);
    assert_eq!(lone.control_value_for(Color::Black), 0);
    let near = BoardBuilder::new()
        .piece(Piece::new(PieceKind::King, Color::White), sq("a1"))
        .piece(Piece::new(PieceKind::King, Color::Black), sq("b2"))
        .build();
    assert_eq!(near.closest_value_for(Color::White), 420);
}

#[test]
fn scores_are_weighted_sums() {
    let board = play(Board::default(), "e2", "e4");
    assert_eq!(evaluate(&board, Color::White, &[1, 0, 0, 0, 0, 0]), 40);
    assert_eq!(evaluate(&board, Color::White, &[0, 1, 0, 0, 0, 0]), 30);
    assert_eq!(evaluate(&board, Color::White, &[0, 0, 0, 0, 0, 0]), 0);
    assert_eq!(evaluate(&board, Color::White, &[0, 0, 0, 0, 0, 1]), -78);
    assert_eq!(evaluate(&board, Color::Black, &[2, 3, 5, 7, 11, 13]), {
        2 * board.value_for(Color::Black)
            + 3 * board.mobility_value_for(Color::Black)
            + 5 * board.naive_value_for(Color::Black)
            + 7 * board.control_value_for(Color::Black)
            + 11 * board.closest_value_for(Color::Black)
            + 13 * board.trade_value_for(Color::Black)
    });
    assert_eq!(evaluate(&board, Color::White, &[i32::MIN, 0, 0, 0, 0, i32::MAX]), {
        40 * (i32::MIN as i64) - 78 * (i32::MAX as i64)
    });
    assert_eq!(weights_or_default(None), [1, 0, 0, 0, 0, 0]);
    assert_eq!(weights_or_default(Some([9, 8, 7, 6, 5, 4])), [9, 8, 7, 6, 5, 4]);
}

#[test]
fn a_leaf_is_scored_counted_and_cached() {
    let board = play(Board::default(), "e2", "e4");
    let mut count = 41;
    let mut cache = DashMap::new();
    let value = board.minimax(0, -1_000_000, 1_000_000, false, Color::White, &mut count, None, &mut cache);
    assert_eq!(value, 40);
    assert_eq!(count, 42);
    assert_eq!(cache.len(), 1);
    assert_eq!(*cache.get(&board.fen()).unwrap(), 40);
    let mut full = u64::MAX;
    board.minimax(0, 0, 0, true, Color::Black, &mut full, Some([0, 0, 1, 0, 0, 0]), &mut cache);
    assert_eq!(full, u64::MAX);
    assert_eq!(*cache.get(&board.fen()).unwrap(), 0);
}

#[test]
fn a_cached_position_is_not_searched() {
    let board = Board::default();
    let mut count = 0;
    let mut cache = DashMap::new();
    cache.insert(board.fen(), 1234);
    let value = board.minimax(2, -1_000_000, 1_000_000, true, Color::White, &mut count, None, &mut cache);
    assert_eq!(value, 1234);
    assert_eq!(count, 0);
    assert_eq!(cache.len(), 1);
    let low = board.minimax(2, -1_000_000, 1_000_000, false, Color::White, &mut count, None, &mut cache);
    assert_eq!(low, 1234);
    cache.insert(board.fen(), -2_000_000);
    let floor = board.minimax(1, -1_000_000, 1_000_000, true, Color::White, &mut count, None, &mut cache);
    assert_eq!(floor, -999_999);
    assert_eq!(count, 0);
}

#[test]
fn a_position_without_moves_scores_as_lost_for_the_side_to_choose() {
    let mated = Board::build_from_fen("rnb1kbnr/pppp1ppp/8/4p3/6Pq/5P2/PPPPP2P/RNBQKBNR w KQkq - 1 3")
        .unwrap();
    assert_eq!(mated.get_legal_moves().len(), 0);
    let mut count = 0;
    let mut cache = DashMap::new();
    let as_max = mated.minimax(3, -1_000_000, 1_000_000, true, Color::White, &mut count, None, &mut cache);
    let as_min = mated.minimax(3, -1_000_000, 1_000_000, false, Color::White, &mut count, None, &mut cache);
    assert_eq!((as_max, as_min), (-999_999, 999_999));
    assert_eq!(count, 0);
    assert_eq!(cache.len(), 0);
}

#[test]
fn one_level_of_search_takes_the_best_reply() {
    let board = play(Board::default(), "e2", "e4");
    let mut count = 0;
    let mut cache = DashMap::new();
    let value = board.minimax(1, -1_000_000, 1_000_000, false, Color::White, &mut count, None, &mut cache);
    assert_eq!(value, -10);
    assert_eq!(count, 20);
    assert_eq!(cache.len(), 20);
    assert_eq!(value, full_width(&board, 1, false, Color::White, &[1, 0, 0, 0, 0, 0]));
}

#[test]
fn the_best_move_at_depth_zero_is_the_last_of_the_highest() {
    let board = Board::default();
    let (best, count, score) = board.get_best_next_move(0, None);
    assert_eq!(best, step("g1", "f3"));
    assert_eq!(count, 20);
    assert_eq!(score, 50);
    assert_eq!(board.get_worst_next_move(0, None), (best, count, score));
    assert_eq!(pick_move(&board, 0, Some([1, 0, 0, 0, 0, 0])), (best, count, score));
    let by_mobility = board.get_best_next_move(0, Some([0, 1, 0, 0, 0, 0]));
    assert_eq!(by_mobility, (step("e2", "e4"), 20, 30));
}

#[test]
fn the_best_move_takes_a_hanging_queen() {
    let board = BoardBuilder::new()
        .piece(Piece::new(PieceKind::King, Color::White), sq("e1"))
        .piece(Piece::new(PieceKind::Rook, Color::White), sq("a1"))
        .piece(Piece::new(PieceKind::King, Color::Black), sq("h8"))
        .piece(Piece::new(PieceKind::Queen, Color::Black), sq("a7"))
        .piece(Piece::new(PieceKind::Pawn, Color::Black), sq("h7"))
        .build();
    for depth in [0, 1, 2] {
        let (best, _, _) = board.get_best_next_move(depth, None);
        assert_eq!(best, step("a1", "a7"));
    }
}

#[test]
fn repeated_searches_agree() {
    for board in positions() {
        for depth in [0, 1, 2] {
            let first = board.get_best_next_move(depth, Some([1, 1, 1, 0, 1, 0]));
            let second = board.get_best_next_move(depth, Some([1, 1, 1, 0, 1, 0]));
            assert_eq!(first, second);
            assert!(board.get_legal_moves().contains(&first.0));
        }
    }
}

#[test]
fn pruning_does_not_change_the_score() {
    let weights = [[1, 0, 0, 0, 0, 0], [1, 2, 3, 0, 1, 1], [0, 0, 9, 0, 0, 0]];
    for board in positions() {
        let color = board.get_turn_color();
        for w in weights {
            for depth in [1, 2] {
                let mut count = 0;
                let mut cache = DashMap::new();
                let pruned = alpha_beta(&board, depth, -1_000_000, 1_000_000, true, color, &mut count, &w, &mut cache);
                assert_eq!(pruned, full_width(&board, depth, true, color, &w));
                let (_, _, score) = board.get_best_next_move(depth, Some(w));
                let mut best = i64::MIN;
                for m in board.get_legal_moves() {
                    best = best.max(full_width(&board.apply_eval_move(m), depth, false, color, &w));
                }
                assert_eq!(score, best);
            }
        }
    }
}

#[test]
fn pruning_scores_fewer_positions() {
    let board = Board::default();
    let mut pruned = 0;
    let mut cache = DashMap::new();
    board.minimax(2, -1_000_000, 1_000_000, true, Color::White, &mut pruned, None, &mut cache);
    assert!(pruned < 400);
    assert!(pruned >= 20);
    assert_eq!(cache.len() as u64, pruned);
}

/// The best move of `board` by searches of its legal moves on a pool of
/// workers that share one counter and one cache.
fn side_by_side(board: &Board, depth: i32, engine: Option<[i32; 6]>) -> (Move, u64, i64) {
    let legal_moves = board.get_legal_moves();
    let color = board.get_turn_color();
    let board_count = Arc::new(Mutex::new(0u64));
    let board_cache: Arc<Mutex<DashMap<String, i64>>> = Arc::new(Mutex::new(DashMap::new()));
    let (best_move, best_value) = legal_moves
        .par_iter()
        .map(|mov| {
            let value = board.apply_eval_move(*mov).minimax(
                depth,
                -1_000_000,
                1_000_000,
                false,
                color,
                &mut board_count.lock().unwrap(),
                engine,
                &mut board_cache.lock().unwrap(),
            );
            (mov, value)
        })
        .max_by(|(_, a), (_, b)| a.cmp(b))
        .unwrap();
    let count = *board_count.lock().unwrap();
    (*best_move, count, best_value)
}

#[test]
fn searching_side_by_side_gives_the_same() {
    for board in positions() {
        for depth in [0, 1, 2] {
            for engine in [None, Some([1, 1, 0, 0, 2, 0])] {
                let alone = board.get_best_next_move(depth, engine);
                assert_eq!(side_by_side(&board, depth, engine), alone);
                assert_eq!(side_by_side(&board, depth, engine), alone);
            }
        }
    }
}

#[test]
fn each_move_is_scored_as_if_searched_alone() {
    for board in positions() {
        let color = board.get_turn_color();
        let moves = board.get_legal_moves();
        let mut shared = DashMap::new();
        let mut total = 0;
        for m in moves.iter().rev() {
            let next = board.apply_eval_move(*m);
            let mut fresh = DashMap::new();
            let mut count = 0;
            let alone = next.minimax(2, -1_000_000, 1_000_000, false, color, &mut count, None, &mut fresh);
            let mut again = 0;
            let together = next.minimax(2, -1_000_000, 1_000_000, false, color, &mut again, None, &mut shared);
            assert_eq!((alone, count), (together, again));
            total += count;
        }
        assert_eq!(board.get_best_next_move(2, None).1, total);
    }
}

#[test]
fn the_last_of_the_highest_scores_is_found() {
    assert_eq!(last_highest_place(&vec![7]), 0);
    assert_eq!(last_highest_place(&vec![1, 5, 3]), 1);
    assert_eq!(last_highest_place(&vec![5, 1, 5, 3]), 2);
    assert_eq!(last_highest_place(&vec![-3, -3, -3]), 2);
    assert_eq!(last_highest_place(&vec![i64::MAX, i64::MIN, 0]), 0);
    assert_eq!(last_highest_place(&vec![i64::MIN, i64::MIN]), 1);
}

#[test]
fn at_the_end_of_the_counters_the_cache_answers() {
    let w = [0, 0, 0, 1, 0, 0];
    let late = Board::build_from_fen("7k/8/8/8/8/8/7K/Nn6 w - - 4294967295 4294967295").unwrap();
    let full = full_width(&late, 4, true, Color::White, &w);
    assert_eq!(full, 14);
    let mut count = 0;
    let mut cache = DashMap::new();
    let pruned =
        alpha_beta(&late, 4, -1_000_000, 1_000_000, true, Color::White, &mut count, &w, &mut cache);
    assert!(cache.contains_key(&late.fen()));
    assert_eq!(pruned, 13);

    let early = Board::build_from_fen("7k/8/8/8/8/8/7K/Nn6 w - - 4294967295 4294967293").unwrap();
    let mut count = 0;
    let mut cache = DashMap::new();
    let pruned =
        alpha_beta(&early, 4, -1_000_000, 1_000_000, true, Color::White, &mut count, &w, &mut cache);
    assert!(!cache.contains_key(&early.fen()));
    assert_eq!(pruned, 14);
    assert_eq!(full_width(&early, 4, true, Color::White, &w), 14);
}

#[test]
fn the_search_finds_the_fools_mate() {
    let board = play(play(play(Board::default(), "f2", "f3"), "e7", "e5"), "g2", "g4");
    assert_eq!(board.get_turn_color(), Color::Black);
    for depth in [1, 2, 3] {
        let (best, _, score) = board.get_best_next_move(depth, None);
        assert_eq!(best, step("d8", "h4"));
        assert_eq!(score, 999_999);
        assert_eq!(side_by_side(&board, depth, None).0, step("d8", "h4"));
    }
    assert_eq!(board.play_move(step("d8", "h4")), GameResult::Victory(Color::Black));
}

#[test]
fn the_first_search_of_a_game_finds_the_fools_mate() {
    let board = play(play(play(Board::default(), "f2", "f3"), "e7", "e5"), "g2", "g4");
    let (best, count, score) = board.get_best_next_move(START_DEPTH, None);
    assert_eq!(best, step("d8", "h4"));
    assert_eq!(after_search(START_DEPTH, best, count, 0), Step::Play(best));
    assert_eq!(score, 999_999);
    assert!(count > 0);
}
