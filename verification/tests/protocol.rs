use rusty_mind::handlers::{bestmove_line, parse_depth, split_words};
use rusty_mind::{
    board_to_fen, id, options, search, set_depth, set_up, CommandError, Game, Move, NoMove,
    PieceKind,
};

const START: &str = "rnbqkbnr/pppppppp/8/8/8/8/PPPPPPPP/RNBQKBNR w KQkq - 0 1";

#[test]
fn id_names_engine_and_author() {
    assert_eq!(id(), "id name Rusty Mind 1.0\nid author Vilém Učík\n");
}

#[test]
fn options_offer_depth() {
    assert_eq!(options(), "option name Depth type spin default 2 min 1\n");
}

#[test]
fn lines_are_split_at_blanks() {
    assert_eq!(split_words("go"), vec!["go"]);
    assert_eq!(split_words("  position \t startpos\r\n"), vec!["position", "startpos"]);
    assert_eq!(split_words("a  b c"), vec!["a", "b", "c"]);
    assert_eq!(split_words("Učík é"), vec!["Učík", "é"]);
    assert!(split_words("").is_empty());
    assert!(split_words(" \t ").is_empty());
}

#[test]
fn depths_are_read_as_positive_numbers() {
    assert_eq!(parse_depth("1"), Some(1));
    assert_eq!(parse_depth("12"), Some(12));
    assert_eq!(parse_depth("007"), Some(7));
    assert_eq!(parse_depth("2147483647"), Some(i32::MAX));
    assert_eq!(parse_depth("2147483648"), None);
    assert_eq!(parse_depth("99999999999999999999"), None);
    assert_eq!(parse_depth("0"), None);
    assert_eq!(parse_depth(""), None);
    assert_eq!(parse_depth("-3"), None);
    assert_eq!(parse_depth("3x"), None);
}

#[test]
fn setoption_sets_the_depth() {
    let mut game = Game::new();
    assert_eq!(game.depth(), 4);
    assert_eq!(set_depth(&mut game, "setoption name Depth value 2"), Ok(()));
    assert_eq!(game.depth(), 2);
}

#[test]
fn setoption_refuses_bad_lines_and_values() {
    let mut game = Game::new();
    assert_eq!(
        set_depth(&mut game, "setoption name Depth value 0"),
        Err(CommandError::InvalidValue)
    );
    assert_eq!(
        set_depth(&mut game, "setoption name Depth value x"),
        Err(CommandError::InvalidValue)
    );
    assert_eq!(
        set_depth(&mut game, "setoption name Depth value 3 4"),
        Err(CommandError::Malformed)
    );
    assert_eq!(set_depth(&mut game, "setoption name Hash value 3"), Err(CommandError::Malformed));
    assert_eq!(game.depth(), 4);
}

#[test]
fn position_startpos_sets_the_starting_position() {
    let mut game = Game::new();
    game.set_board("4k3/8/8/8/8/8/8/4K3 w - - 0 1", &Vec::new()).unwrap();
    assert_eq!(set_up(&mut game, "position startpos"), Ok(()));
    assert_eq!(board_to_fen(&game.board), START);
}

#[test]
fn position_plays_the_moves_that_follow() {
    let mut game = Game::new();
    assert_eq!(set_up(&mut game, "position startpos moves e2e4 c7c5"), Ok(()));
    assert_eq!(
        board_to_fen(&game.board),
        "rnbqkbnr/pp1ppppp/8/2p5/4P3/8/PPPP1PPP/RNBQKBNR w KQkq - 0 1"
    );
}

#[test]
fn position_fen_reads_the_record() {
    let mut game = Game::new();
    assert_eq!(
        set_up(&mut game, "position fen 8/P6k/8/8/8/8/8/K7 w - - 0 1 moves a7a8q"),
        Ok(())
    );
    assert_eq!(board_to_fen(&game.board), "Q7/7k/8/8/8/8/8/K7 b - - 0 1");
}

#[test]
fn position_refuses_bad_lines_and_keeps_the_board() {
    let mut game = Game::new();
    assert_eq!(set_up(&mut game, "position"), Err(CommandError::Malformed));
    assert_eq!(set_up(&mut game, "position fen 8/8 w - -"), Err(CommandError::Malformed));
    assert_eq!(set_up(&mut game, "position startpos moves"), Err(CommandError::Malformed));
    assert_eq!(set_up(&mut game, "position startpos e2e4"), Err(CommandError::Malformed));
    assert_eq!(set_up(&mut game, "go"), Err(CommandError::Malformed));
    assert_eq!(
        set_up(&mut game, "position fen 8/8/8/8/8/8/8/8 w - - 0 1"),
        Err(CommandError::BadRecord)
    );
    assert_eq!(
        set_up(&mut game, "position startpos moves e2e4 e2e4"),
        Err(CommandError::BadMove)
    );
    assert_eq!(board_to_fen(&game.board), START);
}

#[test]
fn bestmove_line_names_the_move() {
    assert_eq!(bestmove_line(&Move { from: 12, to: 28, promotion: None }), "bestmove e2e4\n");
    assert_eq!(
        bestmove_line(&Move { from: 48, to: 56, promotion: Some(PieceKind::Queen) }),
        "bestmove a7a8q\n"
    );
}

#[test]
fn go_names_the_mating_move() {
    let mut game = Game::new();
    set_depth(&mut game, "setoption name Depth value 2").unwrap();
    set_up(&mut game, "position fen 6k1/5ppp/8/8/8/8/5PPP/R5K1 w - - 0 1").unwrap();
    assert_eq!(search(&mut game), Ok("bestmove a1a8\n".to_string()));
}

#[test]
fn go_says_how_an_ended_game_ended() {
    let mut game = Game::new();
    set_up(&mut game, "position fen 7k/5Q2/6K1/8/8/8/8/8 b - - 0 1").unwrap();
    assert_eq!(search(&mut game), Err(NoMove::Stalemate));
    set_up(&mut game, "position fen 7k/6Q1/6K1/8/8/8/8/8 b - - 0 1").unwrap();
    assert_eq!(search(&mut game), Err(NoMove::Checkmate));
}
