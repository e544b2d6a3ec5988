use rusty_mind::search::{FULL_WINDOW, QUIESCENCE_LIMIT};
use rusty_mind::{reorder_moves, Board, Engine, Move, NoMove, Status};

const START: &str = "rnbqkbnr/pppppppp/8/8/8/8/PPPPPPPP/RNBQKBNR w KQkq - 0 1";

#[test]
fn start_position_depth_two_yields_an_opening_move() {
    let board = Board::from_fen(START).unwrap();
    let mut engine = Engine::new();
    let found = engine.play(&board, 2).unwrap();
    assert!(board.legal_moves().contains(&found));
}

#[test]
fn mate_in_one_is_found_at_depth_two() {
    // White mates with Ra8.
    let board = Board::from_fen("6k1/5ppp/8/8/8/8/5PPP/R5K1 w - - 0 1").unwrap();
    let mut engine = Engine::new();
    let found = engine.play(&board, 2).unwrap();
    assert_eq!(found, Move { from: 0, to: 56, promotion: None });
}

#[test]
fn mate_in_one_is_found_at_depth_three() {
    let board = Board::from_fen("6k1/5ppp/8/8/8/8/5PPP/R5K1 w - - 0 1").unwrap();
    let mut engine = Engine::deterministic();
    let found = engine.play(&board, 3).unwrap();
    assert_eq!(found, Move { from: 0, to: 56, promotion: None });
}

#[test]
fn checkmate_and_stalemate_are_told_apart() {
    let mut engine = Engine::new();
    let mated = Board::from_fen("rnb1kbnr/pppp1ppp/8/4p3/6Pq/5P2/PPPPP2P/RNBQKBNR w KQkq - 0 1").unwrap();
    assert_eq!(engine.play(&mated, 2), Err(NoMove::Checkmate));
    let stuck = Board::from_fen("7k/5Q2/6K1/8/8/8/8/8 b - - 0 1").unwrap();
    assert_eq!(engine.play(&stuck, 2), Err(NoMove::Stalemate));
}

/// Full-window negamax without pruning over the tree of the main search,
/// with the quiescence score at the leaves.
fn reference_score(leaves: &mut Engine, board: &Board, depth: i32) -> i32 {
    let legal = board.legal_moves();
    if depth <= 0 || legal.is_empty() {
        return leaves.quiescence_search(board, -FULL_WINDOW, FULL_WINDOW, 0);
    }
    let mut best = -FULL_WINDOW;
    for m in reorder_moves(board, legal) {
        let score = -reference_score(leaves, &board.play(&m), depth - 1);
        if score > best {
            best = score;
        }
    }
    best
}

fn reference_choice(board: &Board, depth: i32) -> (Move, i32) {
    let mut leaves = Engine::deterministic();
    let mut best: Option<(Move, i32)> = None;
    for m in reorder_moves(board, board.legal_moves()) {
        let score = -reference_score(&mut leaves, &board.play(&m), depth - 1);
        if best.map_or(true, |(_, top)| score > top) {
            best = Some((m, score));
        }
    }
    best.unwrap()
}

fn pruned_choice_matches_reference(fen: &str, depth: i32) {
    let board = Board::from_fen(fen).unwrap();
    let mut engine = Engine::deterministic();
    let found = engine.play(&board, depth).unwrap();
    let (expected, _) = reference_choice(&board, depth);
    assert_eq!(found, expected, "{} at depth {}", fen, depth);
}

#[test]
fn pruned_search_chooses_as_full_window_search_does() {
    for depth in 1..=3 {
        pruned_choice_matches_reference("6k1/5ppp/8/8/8/8/5PPP/R5K1 w - - 0 1", depth);
        pruned_choice_matches_reference("4k3/8/8/3q4/8/8/8/3RK3 w - - 0 1", depth);
        pruned_choice_matches_reference("r3k3/8/8/8/8/8/8/R3K2Q b - - 0 1", depth);
        pruned_choice_matches_reference("4k3/8/8/8/8/8/4p3/R3K3 w Q - 0 1", depth);
    }
}

#[test]
fn hanging_queen_is_taken() {
    let board = Board::from_fen("4k3/8/8/3q4/8/8/8/3RK3 w - - 0 1").unwrap();
    let mut engine = Engine::deterministic();
    assert_eq!(engine.play(&board, 2), Ok(Move { from: 3, to: 35, promotion: None }));
}

#[test]
fn depth_below_one_counts_as_one() {
    let board = Board::from_fen("4k3/8/8/3q4/8/8/8/3RK3 w - - 0 1").unwrap();
    let at_one = Engine::deterministic().play(&board, 1);
    assert_eq!(Engine::deterministic().play(&board, 0), at_one);
    assert_eq!(Engine::deterministic().play(&board, -7), at_one);
    assert_eq!(Engine::deterministic().play(&board, i32::MIN), at_one);
}

#[test]
fn deterministic_engines_agree_and_seeded_engines_repeat() {
    let board = Board::from_fen(START).unwrap();
    let first = Engine::deterministic().play(&board, 2);
    assert_eq!(Engine::deterministic().play(&board, 2), first);
    let seeded = Engine::with_seed(7).play(&board, 2);
    assert_eq!(Engine::with_seed(7).play(&board, 2), seeded);
    assert!(board.legal_moves().contains(&seeded.unwrap()));
}

#[test]
fn perturbations_are_small_and_absent_when_switched_off() {
    let mut plain = Engine::deterministic();
    assert_eq!(plain.perturbations(5), vec![0, 0, 0, 0, 0]);
    let mut seeded = Engine::with_seed(11);
    let drawn = seeded.perturbations(200);
    assert_eq!(drawn.len(), 200);
    assert!(drawn.iter().all(|d| (-1..=1).contains(d)));
    assert!(drawn.iter().any(|d| *d != 0));
}

#[test]
fn quiescence_ends_on_a_square_with_many_recaptures() {
    // Four attackers and four defenders meet on d5.
    let board =
        Board::from_fen("3rk3/3r4/2n2n2/3p4/2B1P3/2N5/3R4/3RK3 w - - 0 1").unwrap();
    let mut engine = Engine::deterministic();
    let score = engine.quiescence_search(&board, -FULL_WINDOW, FULL_WINDOW, 0);
    assert!(score > -FULL_WINDOW && score < FULL_WINDOW);
    let narrow = Engine::deterministic().quiescence_search(&board, -50, 50, 0);
    assert!((-50..=50).contains(&narrow));
}

#[test]
fn quiescence_scores_ended_positions_directly() {
    let mut engine = Engine::deterministic();
    let mated = Board::from_fen("7k/6Q1/6K1/8/8/8/8/8 b - - 0 1").unwrap();
    assert_eq!(mated.status(), Status::Checkmate);
    assert_eq!(engine.quiescence_search(&mated, -10, 10, 0), -99_999);
    let stuck = Board::from_fen("7k/5Q2/6K1/8/8/8/8/8 b - - 0 1").unwrap();
    assert_eq!(engine.quiescence_search(&stuck, 5, 10, 0), 0);
    assert_eq!(engine.probe_hash(&mated), None);
}

#[test]
fn quiescence_stands_pat_at_beta_and_at_the_ply_limit() {
    let quiet = Board::from_fen("4k3/8/8/8/3N4/8/8/4K3 w - - 0 1").unwrap();
    let mut engine = Engine::deterministic();
    // The material score is 300: it cuts off at a beta of 100, and the
    // positional terms are not worked out so far from the window.
    assert_eq!(engine.quiescence_search(&quiet, 0, 100, 0), 100);
    assert_eq!(engine.probe_hash(&quiet), Some(300));
    let mut fresh = Engine::deterministic();
    assert_eq!(fresh.quiescence_search(&quiet, -FULL_WINDOW, FULL_WINDOW, 0), 305);
    let mut late = Engine::deterministic();
    assert_eq!(
        late.quiescence_search(&quiet, -FULL_WINDOW, FULL_WINDOW, QUIESCENCE_LIMIT),
        305
    );
}

#[test]
fn quiescence_reads_the_standing_pat_score_from_the_cache() {
    let quiet = Board::from_fen("4k3/8/8/8/3N4/8/8/4K3 w - - 0 1").unwrap();
    let mut engine = Engine::deterministic();
    engine.save_hash(&quiet, 12);
    assert_eq!(engine.quiescence_search(&quiet, -FULL_WINDOW, FULL_WINDOW, 0), 12);
}

#[test]
fn main_search_at_depth_zero_is_the_quiescence_search() {
    let board = Board::from_fen("4k3/8/8/3q4/8/8/8/3RK3 w - - 0 1").unwrap();
    let by_negamax = Engine::deterministic().negamax(&board, -FULL_WINDOW, FULL_WINDOW, 0);
    let by_quiescence =
        Engine::deterministic().quiescence_search(&board, -FULL_WINDOW, FULL_WINDOW, 0);
    assert_eq!(by_negamax, by_quiescence);
}

#[test]
fn main_search_sees_the_mate_one_ply_ahead() {
    let board = Board::from_fen("6k1/5ppp/8/8/8/8/5PPP/R5K1 w - - 0 1").unwrap();
    let mut engine = Engine::deterministic();
    assert_eq!(engine.negamax(&board, -FULL_WINDOW, FULL_WINDOW, 1), 99_999);
    let after = board.play(&Move { from: 0, to: 56, promotion: None });
    assert_eq!(engine.negamax(&after, -FULL_WINDOW, FULL_WINDOW, 3), -99_999);
}

#[test]
fn main_search_leaves_a_node_once_alpha_reaches_beta() {
    let board = Board::from_fen("6k1/5ppp/8/8/8/8/5PPP/R5K1 w - - 0 1").unwrap();
    let mut engine = Engine::deterministic();
    // The first move tried is the mating check, which lifts alpha past beta.
    assert_eq!(engine.negamax(&board, 0, 50, 1), 99_999);
    // With nothing above alpha, alpha comes back.
    let quiet = Board::from_fen("4k3/8/8/8/8/8/8/4K3 w - - 0 1").unwrap();
    assert_eq!(engine.negamax(&quiet, 5_000, 6_000, 1), 5_000);
}
