use rusty_mind::oracle::{endgame_result, piece_count, score_of_verdict, translate_move, verdict_from_sign};
use rusty_mind::search::plan_root;
use rusty_mind::{
    is_syzygy, square_from_integer, Board, Consultation, Engine, Move, NoMove, Oracle,
    OracleError, OracleMove, PieceKind, RootPlan, Status, Verdict,
};

const KPK: &str = "8/8/8/8/8/4k3/4P3/4K3 w - - 0 1";

#[test]
fn five_pieces_are_put_to_the_tablebases_and_six_are_not() {
    let five = Board::from_fen("8/8/8/4k3/8/8/3PP3/3QK3 w - - 0 1").unwrap();
    assert_eq!(piece_count(&five), 5);
    assert!(is_syzygy(&five));
    let six = Board::from_fen("8/8/8/4k3/8/8/2PPP3/3QK3 w - - 0 1").unwrap();
    assert_eq!(piece_count(&six), 6);
    assert!(!is_syzygy(&six));
    let engine = Engine::deterministic();
    assert!(engine.is_syzygy(&five));
    assert!(!engine.is_syzygy(&six));
}

#[test]
fn squares_keep_their_numbers() {
    assert_eq!(square_from_integer(0), 0);
    assert_eq!(square_from_integer(12), 12);
    assert_eq!(square_from_integer(63), 63);
}

#[test]
fn outcome_signs_become_scores() {
    assert_eq!(verdict_from_sign(1), Verdict::Win);
    assert_eq!(verdict_from_sign(0), Verdict::Draw);
    assert_eq!(verdict_from_sign(-1), Verdict::Loss);
    assert_eq!(score_of_verdict(Verdict::Win), 99_999);
    assert_eq!(score_of_verdict(Verdict::Draw), 0);
    assert_eq!(score_of_verdict(Verdict::Loss), -99_999);
}

#[test]
fn ordinary_and_en_passant_moves_are_translated() {
    let plain = OracleMove::Normal { from: 12, to: 28, promotion: None };
    assert_eq!(translate_move(&plain), Ok(Move { from: 12, to: 28, promotion: None }));
    let queen = OracleMove::Normal { from: 52, to: 60, promotion: Some(5) };
    assert_eq!(
        translate_move(&queen),
        Ok(Move { from: 52, to: 60, promotion: Some(PieceKind::Queen) })
    );
    let knight = OracleMove::Normal { from: 52, to: 60, promotion: Some(2) };
    assert_eq!(
        translate_move(&knight),
        Ok(Move { from: 52, to: 60, promotion: Some(PieceKind::Knight) })
    );
    let passing = OracleMove::EnPassant { from: 36, to: 43 };
    assert_eq!(translate_move(&passing), Ok(Move { from: 36, to: 43, promotion: None }));
}

#[test]
fn castling_and_drops_are_refused() {
    let castle = OracleMove::Castle { king: 4, rook: 7 };
    assert_eq!(translate_move(&castle), Err(OracleError::UnsupportedMove));
    let drop = OracleMove::Put { role: 5, to: 20 };
    assert_eq!(translate_move(&drop), Err(OracleError::UnsupportedMove));
}

#[test]
fn won_endgame_gives_the_named_move_and_a_decisive_score() {
    let asked = Consultation {
        sign: Some(1),
        best: Some(Some(OracleMove::Normal { from: 4, to: 11, promotion: None })),
    };
    assert_eq!(
        endgame_result(Status::Ongoing, &asked),
        Ok((99_999, Some(Move { from: 4, to: 11, promotion: None })))
    );
    let lost = Consultation { sign: Some(-1), ..asked };
    assert_eq!(
        endgame_result(Status::Ongoing, &lost),
        Ok((-99_999, Some(Move { from: 4, to: 11, promotion: None })))
    );
    let drawn = Consultation { sign: Some(0), ..asked };
    assert_eq!(
        endgame_result(Status::Ongoing, &drawn),
        Ok((0, Some(Move { from: 4, to: 11, promotion: None })))
    );
}

#[test]
fn ended_positions_need_no_tables() {
    let nothing = Consultation { sign: None, best: None };
    assert_eq!(endgame_result(Status::Checkmate, &nothing), Ok((-99_999, None)));
    assert_eq!(endgame_result(Status::Stalemate, &nothing), Ok((0, None)));
}

#[test]
fn failed_probe_leaves_the_adapter_without_an_answer() {
    let nothing = Consultation { sign: None, best: None };
    assert_eq!(endgame_result(Status::Ongoing, &nothing), Err(OracleError::Unavailable));
    let half = Consultation { sign: Some(1), best: None };
    assert_eq!(endgame_result(Status::Ongoing, &half), Err(OracleError::Unavailable));
    let no_move = Consultation { sign: Some(1), best: Some(None) };
    assert_eq!(endgame_result(Status::Ongoing, &no_move), Err(OracleError::Unavailable));
}

#[test]
fn root_defers_to_the_tablebases_when_they_answer() {
    let asked = Consultation {
        sign: Some(1),
        best: Some(Some(OracleMove::Normal { from: 4, to: 11, promotion: None })),
    };
    let named = Move { from: 4, to: 11, promotion: None };
    let legal = vec![Move { from: 4, to: 3, promotion: None }, named];
    assert_eq!(plan_root(Status::Ongoing, true, &asked, &legal), RootPlan::Oracle(named));
    assert_eq!(plan_root(Status::Ongoing, false, &asked, &legal), RootPlan::Search);
    assert_eq!(
        plan_root(Status::Checkmate, true, &asked, &legal),
        RootPlan::Stop(NoMove::Checkmate)
    );
    assert_eq!(
        plan_root(Status::Stalemate, true, &asked, &legal),
        RootPlan::Stop(NoMove::Stalemate)
    );
}

#[test]
fn root_searches_when_the_tablebases_fail_and_stops_on_a_castling_answer() {
    let legal = vec![Move { from: 4, to: 3, promotion: None }];
    let nothing = Consultation { sign: None, best: None };
    assert_eq!(plan_root(Status::Ongoing, true, &nothing, &legal), RootPlan::Search);
    let castle = Consultation {
        sign: Some(0),
        best: Some(Some(OracleMove::Castle { king: 4, rook: 7 })),
    };
    assert_eq!(
        plan_root(Status::Ongoing, true, &castle, &legal),
        RootPlan::Stop(NoMove::UnsupportedOracleMove)
    );
}

#[test]
fn root_searches_when_the_tablebases_name_a_move_that_is_not_legal() {
    let asked = Consultation {
        sign: Some(1),
        best: Some(Some(OracleMove::Normal { from: 4, to: 11, promotion: None })),
    };
    let legal = vec![Move { from: 4, to: 3, promotion: None }];
    assert_eq!(plan_root(Status::Ongoing, true, &asked, &legal), RootPlan::Search);
}

#[test]
fn engine_without_tables_searches_small_positions() {
    let b = Board::from_fen(KPK).unwrap();
    let mut engine = Engine::deterministic();
    assert_eq!(engine.convert_endgame(&b), Err(OracleError::Unavailable));
    let found = engine.play(&b, 2).unwrap();
    assert!(b.legal_moves().contains(&found));
}

#[test]
fn engine_with_an_empty_table_directory_falls_back_to_searching() {
    let b = Board::from_fen(KPK).unwrap();
    let mut engine = Engine::deterministic();
    engine.load_tables("/nonexistent/tables");
    assert_eq!(engine.convert_endgame(&b), Err(OracleError::Unavailable));
    let found = engine.play(&b, 2).unwrap();
    assert!(b.legal_moves().contains(&found));
}

#[test]
fn oracle_without_tables_brings_nothing_back() {
    let b = Board::from_fen(KPK).unwrap();
    let oracle = Oracle::empty();
    assert!(!oracle.is_stocked());
    assert_eq!(oracle.verdict(&b), None);
    let asked = oracle.consult(&b);
    assert_eq!(asked.sign, None);
    assert_eq!(asked.best, None);
    let missing = Oracle::from_directory("/nonexistent/tables");
    assert!(!missing.is_stocked());
}

#[test]
fn converted_endgame_of_an_ended_position_is_its_terminal_score() {
    let engine = Engine::deterministic();
    let stuck = Board::from_fen("7k/5Q2/6K1/8/8/8/8/8 b - - 0 1").unwrap();
    assert_eq!(engine.convert_endgame(&stuck), Ok((0, None)));
    let mated = Board::from_fen("7k/6Q1/6K1/8/8/8/8/8 b - - 0 1").unwrap();
    assert_eq!(engine.convert_endgame(&mated), Ok((-99_999, None)));
}

#[test]
fn engine_whose_tables_hold_nothing_still_finds_a_move() {
    let b = Board::from_fen(KPK).unwrap();
    let mut engine = Engine::deterministic();
    engine.load_tables(".");
    let found = engine.play(&b, 3).unwrap();
    assert!(b.legal_moves().contains(&found));
    let mut plain = Engine::deterministic();
    assert_eq!(plain.play(&b, 3), Ok(found));
}

#[test]
fn positions_are_handed_to_the_prober() {
    let start =
        Board::from_fen("rnbqkbnr/pppppppp/8/8/8/8/PPPPPPPP/RNBQKBNR w KQkq - 0 1").unwrap();
    assert!(rusty_mind::shakmaty_board(&start).is_some());
    let passing =
        Board::from_fen("rnbqkbnr/ppp1pppp/8/8/3pP3/8/PPPP1PPP/RNBQKBNR b KQkq e3 0 1").unwrap();
    assert!(rusty_mind::shakmaty_board(&passing).is_some());
}

#[test]
fn board_without_kings_is_not_taken_by_the_prober() {
    let start =
        Board::from_fen("rnbqkbnr/pppppppp/8/8/8/8/PPPPPPPP/RNBQKBNR w KQkq - 0 1").unwrap();
    let bare = Board { pieces: [0; 6], colors: [0; 2], ..start };
    assert!(rusty_mind::shakmaty_board(&bare).is_none());
    let oracle = Oracle::from_directory(".");
    let asked = oracle.consult(&bare);
    assert_eq!(asked.sign, None);
    assert_eq!(asked.best, None);
    assert_eq!(oracle.verdict(&bare), None);
}
