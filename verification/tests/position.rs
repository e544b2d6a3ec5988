use rusty_mind::{board_to_fen, gives_check, is_capture, Board, Color, Move, PieceKind, Status};

const START: &str = "rnbqkbnr/pppppppp/8/8/8/8/PPPPPPPP/RNBQKBNR w KQkq - 0 1";

fn mv(from: u8, to: u8) -> Move {
    Move { from, to, promotion: None }
}

#[test]
fn start_position_round_trips_through_fen() {
    let p = Board::from_fen(START).unwrap();
    assert_eq!(board_to_fen(&p), START);
    assert_eq!(p.side, Color::White);
    assert!(!p.is_check());
}

#[test]
fn start_position_has_twenty_moves() {
    let p = Board::from_fen(START).unwrap();
    assert_eq!(p.legal_moves().len(), 20);
    assert_eq!(p.status(), Status::Ongoing);
}

#[test]
fn fen_is_rejected_when_malformed() {
    assert!(Board::from_fen("not a position").is_none());
    assert!(Board::from_fen("8/8/8/8/8/8/8/8 w - - 0 1").is_none());
}

#[test]
fn playing_a_double_step_next_to_an_enemy_pawn_records_en_passant() {
    let p = Board::from_fen("rnbqkbnr/ppp1pppp/8/8/3p4/8/PPPPPPPP/RNBQKBNR w KQkq - 0 1").unwrap();
    let next = p.play(&mv(12, 28));
    assert_eq!(next.en_passant, Some(28));
    assert_eq!(
        board_to_fen(&next),
        "rnbqkbnr/ppp1pppp/8/8/3pP3/8/PPPP1PPP/RNBQKBNR b KQkq e3 0 1"
    );
    let again = Board::from_fen(&board_to_fen(&next)).unwrap();
    assert_eq!(again.en_passant, Some(28));
    assert_eq!(again.hash, next.hash);
    let taken = again.play(&mv(27, 20));
    assert_eq!(
        board_to_fen(&taken),
        "rnbqkbnr/ppp1pppp/8/8/8/4p3/PPPP1PPP/RNBQKBNR w KQkq - 0 1"
    );
}

#[test]
fn try_play_refuses_an_illegal_move() {
    let p = Board::from_fen(START).unwrap();
    assert!(p.try_play(&mv(12, 36)).is_none());
    let next = p.try_play(&mv(12, 28)).unwrap();
    assert_eq!(next.side, Color::Black);
    assert_eq!(
        board_to_fen(&next),
        "rnbqkbnr/pppppppp/8/8/4P3/8/PPPP1PPP/RNBQKBNR b KQkq - 0 1"
    );
}

#[test]
fn fools_mate_is_checkmate() {
    let p = Board::from_fen("rnb1kbnr/pppp1ppp/8/4p3/6Pq/5P2/PPPPP2P/RNBQKBNR w KQkq - 0 1").unwrap();
    assert!(p.is_check());
    assert_eq!(p.legal_moves().len(), 0);
    assert_eq!(p.status(), Status::Checkmate);
}

#[test]
fn cornered_king_without_moves_is_stalemate() {
    let p = Board::from_fen("7k/5Q2/6K1/8/8/8/8/8 b - - 0 1").unwrap();
    assert!(!p.is_check());
    assert_eq!(p.status(), Status::Stalemate);
}

#[test]
fn capture_and_check_are_told_apart() {
    let p = Board::from_fen("4k3/8/8/8/8/8/4p3/R3K3 w Q - 0 1").unwrap();
    assert!(is_capture(&mv(4, 12), &p));
    assert!(!is_capture(&mv(0, 56), &p));
    assert!(gives_check(&mv(0, 56), &p));
    assert!(!gives_check(&mv(0, 8), &p));
}

#[test]
fn promotion_moves_carry_their_piece() {
    let p = Board::from_fen("8/P6k/8/8/8/8/8/K7 w - - 0 1").unwrap();
    let moves = p.legal_moves();
    let queen = Move { from: 48, to: 56, promotion: Some(PieceKind::Queen) };
    assert!(moves.contains(&queen));
    let next = p.play(&queen);
    assert_eq!(board_to_fen(&next), "Q7/7k/8/8/8/8/8/K7 b - - 0 1");
}

#[test]
fn partial_castling_rights_are_written() {
    let p = Board::from_fen("r3k2r/8/8/8/8/8/8/R3K2R b Kq - 0 1").unwrap();
    assert_eq!(board_to_fen(&p), "r3k2r/8/8/8/8/8/8/R3K2R b Kq - 0 1");
}

#[test]
fn records_with_broken_fields_are_refused() {
    assert!(Board::from_fen("").is_none());
    assert!(Board::from_fen("rnbqkbnr/pppppppp/8/8/8/8/PPPPPPPP/RNBQKBNR").is_none());
    assert!(Board::from_fen("rnbqkbnr/pppppppp/8/8/8/8/PPPPPPPP/RNBQKBNR w KQkq").is_none());
    assert!(Board::from_fen("rnbqkbnr/pppppppp/9/8/8/8/PPPPPPPP/RNBQKBNR w KQkq - 0 1").is_none());
    assert!(Board::from_fen("rnbqkbnr/pppppppp/8/8/8/8/PPPPPPPP w KQkq - 0 1").is_none());
    assert!(Board::from_fen("rnbqkbnr/pppppppp/8/8/8/8/PPPPPPPP/RNBQKBNR x KQkq - 0 1").is_none());
    assert!(Board::from_fen("rnbqkbnr/pppppppp/8/8/8/8/PPPPPPPP/RNBQKBNR w KK - 0 1").is_none());
    assert!(Board::from_fen("rnbqkbnr/pppppppp/8/8/8/8/PPPPPPPP/RNBQKBNR w KQkq e 0 1").is_none());
    assert!(Board::from_fen("rnbqkbnr/pppppppp/8/8/8/8/PPPPPPPP/RNBQKBNRR w KQkq - 0 1").is_none());
}

#[test]
fn record_without_move_counters_is_read() {
    let p = Board::from_fen("rnbqkbnr/pppppppp/8/8/8/8/PPPPPPPP/RNBQKBNR w KQkq -").unwrap();
    assert_eq!(board_to_fen(&p), START);
}

#[test]
fn position_with_the_opponent_in_check_is_refused() {
    assert!(Board::from_fen("4k3/8/8/8/8/8/8/4R1K1 w - - 0 1").is_none());
}

#[test]
fn king_presence_is_seen() {
    let p = Board::from_fen(START).unwrap();
    assert!(p.king_present(Color::White));
    assert!(p.king_present(Color::Black));
    assert_eq!(p.piece_at(4).unwrap().kind, PieceKind::King);
    assert!(p.piece_at(20).is_none());
}

#[test]
fn castling_moves_the_rook_and_spends_the_rights() {
    let p = Board::from_fen("r3k2r/8/8/8/8/8/8/R3K2R w KQkq - 0 1").unwrap();
    let short = p.play(&mv(4, 6));
    assert_eq!(board_to_fen(&short), "r3k2r/8/8/8/8/8/8/R4RK1 b kq - 0 1");
    let long = short.play(&mv(60, 58));
    assert_eq!(board_to_fen(&long), "2kr3r/8/8/8/8/8/8/R4RK1 w - - 0 1");
}

#[test]
fn hash_tells_positions_apart_and_agrees_across_move_orders() {
    let p = Board::from_fen(START).unwrap();
    let one = p.play(&mv(12, 28)).play(&mv(52, 36)).play(&mv(6, 21)).play(&mv(57, 42));
    let other = p.play(&mv(6, 21)).play(&mv(57, 42)).play(&mv(12, 28)).play(&mv(52, 36));
    assert_eq!(board_to_fen(&one), board_to_fen(&other));
    assert_eq!(one.hash, other.hash);
    assert_ne!(one.hash, p.hash);
}

#[test]
fn side_with_more_than_sixteen_pieces_is_not_put_to_the_rules() {
    assert!(Board::from_fen("NNNNNNNN/8/8/NNNNNNNN/8/NNN5/8/K6k w - - 0 1").is_none());
    let start = Board::from_fen(START).unwrap();
    let crowded = Board {
        pieces: [0, 0xff00_00ff_0007_0000, 0, 0, 0, 0x81],
        colors: [0xff00_00ff_0007_0001, 0x80],
        ..start
    };
    assert_eq!(crowded.army_size(Color::White), 20);
    assert!(!crowded.is_playable());
    assert!(crowded.legal_moves().is_empty());
    assert_eq!(start.army_size(Color::White), 16);
    assert!(start.is_playable());
}
