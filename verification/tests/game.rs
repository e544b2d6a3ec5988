use rusty_mind::{board_to_fen, parse_move, write_move, Game, Move, NoMove, PieceKind, SetupError};

const START: &str = "rnbqkbnr/pppppppp/8/8/8/8/PPPPPPPP/RNBQKBNR w KQkq - 0 1";

fn words(list: &[&str]) -> Vec<String> {
    list.iter().map(|w| w.to_string()).collect()
}

#[test]
fn new_game_starts_at_the_starting_position() {
    let game = Game::new();
    assert_eq!(board_to_fen(&game.board), START);
}

#[test]
fn moves_are_read_from_text() {
    assert_eq!(parse_move("e2e4"), Some(Move { from: 12, to: 28, promotion: None }));
    assert_eq!(parse_move("a1h8"), Some(Move { from: 0, to: 63, promotion: None }));
    assert_eq!(
        parse_move("e7e8q"),
        Some(Move { from: 52, to: 60, promotion: Some(PieceKind::Queen) })
    );
    assert_eq!(
        parse_move("a2a1n"),
        Some(Move { from: 8, to: 0, promotion: Some(PieceKind::Knight) })
    );
    assert_eq!(parse_move("e2e"), None);
    assert_eq!(parse_move("e2e4qq"), None);
    assert_eq!(parse_move("e2e9"), None);
    assert_eq!(parse_move("i2e4"), None);
    assert_eq!(parse_move("e7e8k"), None);
    assert_eq!(parse_move(""), None);
}

#[test]
fn moves_are_written_as_text() {
    assert_eq!(write_move(&Move { from: 12, to: 28, promotion: None }), "e2e4");
    assert_eq!(
        write_move(&Move { from: 52, to: 60, promotion: Some(PieceKind::Rook) }),
        "e7e8r"
    );
    assert_eq!(write_move(&Move { from: 63, to: 0, promotion: None }), "h8a1");
}

#[test]
fn board_is_set_up_from_a_record_and_moves() {
    let mut game = Game::new();
    assert_eq!(game.set_board(START, &words(&["e2e4", "e7e5", "g1f3"])), Ok(()));
    assert_eq!(
        board_to_fen(&game.board),
        "rnbqkbnr/pppp1ppp/8/4p3/4P3/5N2/PPPP1PPP/RNBQKB1R b KQkq - 0 1"
    );
}

#[test]
fn refused_set_up_leaves_the_board_alone() {
    let mut game = Game::new();
    game.set_board(START, &words(&["e2e4"])).unwrap();
    let before = board_to_fen(&game.board);
    assert_eq!(game.set_board("nonsense", &words(&[])), Err(SetupError::BadRecord));
    assert_eq!(game.set_board(START, &words(&["e2e5"])), Err(SetupError::BadMove));
    assert_eq!(game.set_board(START, &words(&["e2e4", "zz"])), Err(SetupError::BadMove));
    assert_eq!(board_to_fen(&game.board), before);
}

#[test]
fn game_plays_a_legal_move_at_the_depth_that_was_set() {
    let mut game = Game::new();
    game.set_depth(1);
    let found = game.play().unwrap();
    assert!(game.board.legal_moves().contains(&found));
}

#[test]
fn game_reports_how_an_ended_game_ended() {
    let mut game = Game::new();
    game.set_depth(2);
    game.set_board("rnb1kbnr/pppp1ppp/8/4p3/6Pq/5P2/PPPPP2P/RNBQKBNR w KQkq - 0 1", &words(&[]))
        .unwrap();
    assert_eq!(game.play(), Err(NoMove::Checkmate));
    game.set_board("7k/5Q2/6K1/8/8/8/8/8 b - - 0 1", &words(&[])).unwrap();
    assert_eq!(game.play(), Err(NoMove::Stalemate));
}
