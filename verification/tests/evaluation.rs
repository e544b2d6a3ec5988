use rusty_mind::evaluation::{
    evaluate_piece, is_knight_step, material, pawn_attacked, reaches_center, static_evaluation,
};
use rusty_mind::tables::{KING_TABLE, PAWN_TABLE, ROOK_TABLE};
use rusty_mind::{
    center_control, evaluation, is_endgame, mobility, read_table, Board, Color, Piece, PieceKind,
};

const START: &str = "rnbqkbnr/pppppppp/8/8/8/8/PPPPPPPP/RNBQKBNR w KQkq - 0 1";
const FULL: i32 = 999_999;

fn board(fen: &str) -> Board {
    Board::from_fen(fen).unwrap()
}

#[test]
fn checkmate_scores_as_mate() {
    let mated = board("rnb1kbnr/pppp1ppp/8/4p3/6Pq/5P2/PPPPP2P/RNBQKBNR w KQkq - 0 1");
    assert_eq!(evaluation(&mated, -FULL, FULL), -99_999);
    assert_eq!(evaluation(&mated, 5, 6), -99_999);
}

#[test]
fn stalemate_scores_as_nothing() {
    let stuck = board("7k/5Q2/6K1/8/8/8/8/8 b - - 0 1");
    assert_eq!(evaluation(&stuck, -FULL, FULL), 0);
}

#[test]
fn start_position_is_level() {
    // The starting position is its own mirror: everything cancels.
    let start = board(START);
    assert_eq!(material(&start), 0);
    assert_eq!(mobility(&start, Color::White), 23);
    assert_eq!(mobility(&start, Color::Black), 23);
    assert_eq!(center_control(&start, Color::White), 0);
    assert_eq!(center_control(&start, Color::Black), 0);
    assert_eq!(evaluation(&start, -FULL, FULL), 0);
    let black = board("rnbqkbnr/pppppppp/8/8/8/8/PPPPPPPP/RNBQKBNR b KQkq - 0 1");
    assert_eq!(evaluation(&black, -FULL, FULL), 0);
}

#[test]
fn lone_knight_is_scored_for_either_side() {
    let white = board("4k3/8/8/8/3N4/8/8/4K3 w - - 0 1");
    assert!(is_endgame(&white));
    assert_eq!(material(&white), 300);
    assert_eq!(mobility(&white, Color::White), 5);
    assert_eq!(mobility(&white, Color::Black), 0);
    assert_eq!(evaluation(&white, -FULL, FULL), 305);
    let black = board("4k3/8/8/8/3N4/8/8/4K3 b - - 0 1");
    assert_eq!(material(&black), -300);
    assert_eq!(evaluation(&black, -FULL, FULL), -305);
}

#[test]
fn positional_terms_are_skipped_outside_the_margin() {
    let b = board("4k3/8/8/8/3N4/8/8/4K3 w - - 0 1");
    // The material score is 300 and the margin 80.
    assert_eq!(static_evaluation(&b, -FULL, 381), 305);
    assert_eq!(static_evaluation(&b, -FULL, 380), 300);
    assert_eq!(static_evaluation(&b, 379, FULL), 305);
    assert_eq!(static_evaluation(&b, 380, FULL), 300);
    assert_eq!(evaluation(&b, 380, FULL), 300);
}

#[test]
fn rook_on_an_open_file_controls_the_centre() {
    let b = board("4k3/8/8/8/8/8/8/3RK3 w - - 0 1");
    assert_eq!(material(&b), 510);
    assert_eq!(mobility(&b, Color::White), 3);
    assert_eq!(center_control(&b, Color::White), 5);
    assert_eq!(center_control(&b, Color::Black), 0);
    assert_eq!(evaluation(&b, -FULL, FULL), 518);
    let rook = Piece { kind: PieceKind::Rook, color: Color::White };
    let bishop = Piece { kind: PieceKind::Bishop, color: Color::White };
    assert!(reaches_center(&b, rook, 3));
    assert!(!reaches_center(&b, bishop, 3));
}

#[test]
fn blocked_rook_does_not_control_the_centre() {
    let b = board("4k3/8/8/8/8/8/3P4/3RK3 w - - 0 1");
    assert_eq!(center_control(&b, Color::White), 0);
}

#[test]
fn bishop_and_queen_control_the_centre_along_diagonals() {
    let b = board("4k3/8/8/8/8/8/1B6/4K2Q w - - 0 1");
    // The bishop on b2 sees d4; the queen on h1 sees e4 and d5.
    assert_eq!(center_control(&b, Color::White), 10);
}

#[test]
fn knight_controls_the_centre_from_a_knights_move_away() {
    assert!(is_knight_step(18, 28));
    assert!(is_knight_step(18, 35));
    assert!(!is_knight_step(18, 27));
    assert!(!is_knight_step(7, 16));
    let b = board("4k3/8/8/8/8/2N5/8/4K3 w - - 0 1");
    assert_eq!(center_control(&b, Color::White), 5);
}

#[test]
fn piece_attacked_by_a_pawn_earns_no_mobility() {
    let b = board("4k3/8/8/4p3/3N4/8/8/4K3 w - - 0 1");
    assert!(pawn_attacked(&b, Color::Black, 27));
    assert!(pawn_attacked(&b, Color::Black, 29));
    assert!(!pawn_attacked(&b, Color::Black, 28));
    assert!(!pawn_attacked(&b, Color::White, 27));
    assert_eq!(mobility(&b, Color::White), 0);
    assert_eq!(material(&b), 155);
    assert_eq!(evaluation(&b, -FULL, FULL), 155);
}

#[test]
fn white_pawn_attacks_up_the_board_and_not_across_the_edge() {
    let b = board("4k3/8/8/8/8/8/7P/4K3 b - - 0 1");
    // A pawn on h2 attacks g3 only.
    assert!(pawn_attacked(&b, Color::White, 22));
    assert!(!pawn_attacked(&b, Color::White, 24));
    assert!(!pawn_attacked(&b, Color::White, 16));
}

#[test]
fn tables_are_read_in_the_direction_of_play() {
    assert_eq!(read_table(&PAWN_TABLE, 8, Color::White), 10);
    assert_eq!(read_table(&PAWN_TABLE, 8, Color::Black), 50);
    assert_eq!(read_table(&PAWN_TABLE, 52, Color::White), 50);
    assert_eq!(read_table(&ROOK_TABLE, 3, Color::White), 10);
    assert_eq!(read_table(&ROOK_TABLE, 24, Color::Black), -10);
    assert_eq!(read_table(&KING_TABLE, 6, Color::White), 30);
    assert_eq!(read_table(&KING_TABLE, 62, Color::Black), 30);
}

#[test]
fn king_reads_the_endgame_table_when_few_pieces_are_left() {
    let late = board("4k3/8/8/8/3K4/8/8/8 w - - 0 1");
    assert!(is_endgame(&late));
    assert_eq!(evaluate_piece(&late, 27, true), 60);
    assert_eq!(evaluate_piece(&late, 60, true), 50);
    let early = board(START);
    assert!(!is_endgame(&early));
    assert_eq!(evaluate_piece(&early, 4, false), -10);
    assert_eq!(evaluate_piece(&early, 60, false), 10);
    assert_eq!(evaluate_piece(&early, 30, false), 0);
}

#[test]
fn three_officers_make_an_endgame_and_four_do_not() {
    assert!(is_endgame(&board("4k3/8/8/8/8/8/8/1NB1K2R w - - 0 1")));
    assert!(!is_endgame(&board("4k3/8/8/8/8/8/8/1NBQK2R w - - 0 1")));
}

#[test]
fn passing_the_turn_negates_the_material_score() {
    let b = board("r3k3/8/8/4p3/3N4/8/8/4K2R w - - 0 1");
    assert_eq!(material(&b.pass()), -material(&b));
    assert_eq!(b.pass().en_passant, b.en_passant);
}

#[test]
fn mirrored_position_has_the_negated_material_score() {
    let a = board("4k3/8/8/8/8/8/4P3/R3K3 w - - 0 1");
    let b = board("r3k3/4p3/8/8/8/8/8/4K3 w - - 0 1");
    assert_eq!(material(&a), 605);
    assert_eq!(material(&b), -605);
}

#[test]
fn mirrored_position_has_the_negated_score() {
    // Knight, bishop, queen, rook and pawn, with a pawn attacking the
    // knight and the rook and the bishop looking at the centre.
    let a = board("4k3/8/8/4p3/3N4/8/1B1R4/3QK3 w - - 0 1");
    let b = board("3qk3/1b1r4/8/3n4/4P3/8/8/4K3 w - - 0 1");
    assert_eq!(material(&b), -material(&a));
    assert_eq!(mobility(&b, Color::Black), mobility(&a, Color::White));
    assert_eq!(mobility(&b, Color::White), mobility(&a, Color::Black));
    assert_eq!(center_control(&b, Color::Black), center_control(&a, Color::White));
    assert_eq!(center_control(&a, Color::White), 10);
    assert_eq!(mobility(&a, Color::White), 7);
    assert_eq!(static_evaluation(&b, -FULL, FULL), -static_evaluation(&a, -FULL, FULL));
}

#[test]
fn black_pieces_control_the_centre_as_white_ones_do() {
    let b = board("3rk3/8/8/8/8/8/8/4K3 b - - 0 1");
    assert_eq!(center_control(&b, Color::Black), 5);
    let blocked = board("3rk3/3p4/8/8/8/8/8/4K3 b - - 0 1");
    assert_eq!(center_control(&blocked, Color::Black), 0);
    let diagonal = board("4k3/6b1/8/8/8/8/8/4K3 b - - 0 1");
    assert_eq!(center_control(&diagonal, Color::Black), 5);
}
