use rusty_mind::{filter_moves, reorder_moves, sorting_func, Board, Move};

fn mv(from: u8, to: u8) -> Move {
    Move { from, to, promotion: None }
}

const MIXED: &str = "4k3/8/8/8/8/8/4p3/R3K3 w Q - 0 1";

#[test]
fn checks_rank_above_captures_above_quiet_moves() {
    let b = Board::from_fen(MIXED).unwrap();
    assert_eq!(sorting_func(&b, &mv(0, 56)), 2);
    assert_eq!(sorting_func(&b, &mv(4, 12)), 1);
    assert_eq!(sorting_func(&b, &mv(0, 8)), 0);
}

#[test]
fn capture_that_gives_check_ranks_as_a_check() {
    let b = Board::from_fen("4k3/4r3/8/8/8/8/8/4R1K1 w - - 0 1").unwrap();
    assert_eq!(sorting_func(&b, &mv(4, 52)), 2);
}

#[test]
fn moves_are_ordered_check_capture_rest_with_ties_reversed() {
    let b = Board::from_fen(MIXED).unwrap();
    let legal = b.legal_moves();
    let sorted = reorder_moves(&b, legal.clone());
    assert_eq!(sorted.len(), legal.len());
    assert_eq!(sorted[0], mv(0, 56));
    assert_eq!(sorted[1], mv(4, 12));
    let mut quiet: Vec<Move> =
        legal.iter().copied().filter(|m| sorting_func(&b, m) == 0).collect();
    quiet.reverse();
    assert_eq!(&sorted[2..], &quiet[..]);
}

#[test]
fn quiescence_follows_captures_and_early_checks_only() {
    let b = Board::from_fen(MIXED).unwrap();
    let legal = b.legal_moves();
    let early = filter_moves(&b, legal.clone(), 0);
    assert_eq!(early.len(), 2);
    assert!(early.contains(&mv(0, 56)));
    assert!(early.contains(&mv(4, 12)));
    let at_nine = filter_moves(&b, legal.clone(), 9);
    assert_eq!(at_nine, early);
    let late = filter_moves(&b, legal, 10);
    assert_eq!(late, vec![mv(4, 12)]);
}

#[test]
fn quiescence_follows_every_move_out_of_check() {
    let b = Board::from_fen("4k3/8/8/8/8/8/8/r3K3 w - - 0 1").unwrap();
    assert!(b.is_check());
    let legal = b.legal_moves();
    assert_eq!(filter_moves(&b, legal.clone(), 30), legal);
}

#[test]
fn capture_in_passing_counts_as_a_capture() {
    // Black has just played d7d5 beside the white pawn on e5.
    let b = Board::from_fen("4k3/8/8/3pP3/8/8/8/4K3 w - d6 0 1").unwrap();
    let passing = mv(36, 43);
    assert!(b.legal_moves().contains(&passing));
    assert!(rusty_mind::is_capture(&passing, &b));
    assert!(!rusty_mind::is_capture(&mv(36, 44), &b));
    assert!(!rusty_mind::is_capture(&mv(4, 3), &b));
    assert_eq!(sorting_func(&b, &passing), 1);
    let kept = filter_moves(&b, b.legal_moves(), 20);
    assert_eq!(kept, vec![passing]);
    let sorted = reorder_moves(&b, b.legal_moves());
    assert_eq!(sorted[0], passing);
}

#[test]
fn pawn_that_takes_a_piece_and_pawn_that_advances_are_told_apart() {
    let b = Board::from_fen("4k3/8/8/8/8/3n4/4P3/4K3 w - - 0 1").unwrap();
    assert!(rusty_mind::is_capture(&mv(12, 19), &b));
    assert!(!rusty_mind::is_capture(&mv(12, 20), &b));
    assert!(!rusty_mind::is_capture(&mv(12, 28), &b));
    // A knight that changes file onto an empty square captures nothing.
    let k = Board::from_fen("4k3/8/8/8/8/3N4/8/4K3 w - - 0 1").unwrap();
    assert!(!rusty_mind::is_capture(&mv(19, 36), &k));
}
