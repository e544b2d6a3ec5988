use rusty_mind::{Board, Color, Engine, ScoreCache};

const START: &str = "rnbqkbnr/pppppppp/8/8/8/8/PPPPPPPP/RNBQKBNR w KQkq - 0 1";

#[test]
fn recorded_score_is_read_back_by_the_same_side() {
    let b = Board::from_fen(START).unwrap();
    let mut cache = ScoreCache::new();
    assert_eq!(cache.probe(&b), None);
    cache.record(&b, 123);
    assert_eq!(cache.probe(&b), Some(123));
}

#[test]
fn recorded_score_is_negated_for_the_other_side() {
    let white = Board::from_fen(START).unwrap();
    let black = Board { side: Color::Black, ..white };
    let mut cache = ScoreCache::new();
    cache.record(&white, 123);
    assert_eq!(cache.probe(&black), Some(-123));
    cache.record(&black, 77);
    assert_eq!(cache.probe(&black), Some(77));
    assert_eq!(cache.probe(&white), Some(-77));
}

#[test]
fn later_write_to_a_slot_replaces_the_earlier_one() {
    let first = Board::from_fen(START).unwrap();
    let second = Board { hash: first.hash ^ 8, ..first };
    let mut cache = ScoreCache::with_capacity(4);
    cache.record(&first, 10);
    cache.record(&second, 20);
    assert_eq!(cache.probe(&first), None);
    assert_eq!(cache.probe(&second), Some(20));
    cache.record(&second, 30);
    assert_eq!(cache.probe(&second), Some(30));
}

#[test]
fn different_slots_do_not_disturb_each_other() {
    let first = Board::from_fen(START).unwrap();
    let second = Board { hash: first.hash ^ 1, ..first };
    let mut cache = ScoreCache::with_capacity(4);
    cache.record(&first, 10);
    cache.record(&second, 20);
    assert_eq!(cache.probe(&first), Some(10));
    assert_eq!(cache.probe(&second), Some(20));
}

#[test]
fn empty_cache_answers_the_zero_hash_with_zero() {
    let start = Board::from_fen(START).unwrap();
    let zero = Board { hash: 0, ..start };
    let cache = ScoreCache::new();
    assert_eq!(cache.probe(&zero), Some(0));
}

#[test]
fn engine_cache_round_trip() {
    let b = Board::from_fen(START).unwrap();
    let mut engine = Engine::deterministic();
    assert_eq!(engine.probe_hash(&b), None);
    engine.save_hash(&b, -55);
    assert_eq!(engine.probe_hash(&b), Some(-55));
    assert_eq!(engine.probe_hash(&b.pass()), Some(55));
}

#[test]
fn score_recorded_for_one_side_is_found_negated_by_the_other() {
    let white = Board::from_fen("4k3/8/8/8/8/8/8/4K2R w - - 0 1").unwrap();
    let black = Board::from_fen("4k3/8/8/8/8/8/8/4K2R b - - 0 1").unwrap();
    assert_eq!(white.hash, black.hash);
    let mut engine = Engine::deterministic();
    engine.save_hash(&white, 50);
    assert_eq!(engine.probe_hash(&black), Some(-50));
    assert_eq!(engine.probe_hash(&white), Some(50));
    let other = Board::from_fen("4k3/8/8/8/8/8/8/4K1R1 w - - 0 1").unwrap();
    assert_ne!(other.hash, white.hash);
    assert_eq!(engine.probe_hash(&other), None);
}

#[test]
fn identity_leaves_out_castling_rights_and_is_kept_by_played_positions() {
    let with = Board::from_fen("4k3/8/8/8/8/8/8/4K2R w K - 0 1").unwrap();
    let without = Board::from_fen("4k3/8/8/8/8/8/8/4K2R w - - 0 1").unwrap();
    assert_eq!(with.hash, without.hash);
    assert_eq!(with.key(), with.hash);
    let next = with.play(&rusty_mind::Move { from: 7, to: 6, promotion: None });
    let same = Board::from_fen("4k3/8/8/8/8/8/8/4K1R1 b - - 0 1").unwrap();
    assert_eq!(next.hash, same.hash);
    assert_eq!(next.key(), next.hash);
}
