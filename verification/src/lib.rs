//! The decision core of a chess engine: a static evaluator, move ordering,
//! a direct-mapped score cache, an adapter to endgame tablebases and a
//! depth-limited negamax search with a quiescence extension.
//!
//! The rules of chess (legal moves, applying a move, check detection and
//! position hashing) are supplied by the `chess` crate and tablebase
//! probing by `shakmaty-syzygy`; both are reached through a small set of
//! trusted functions whose contracts are assumed rather than proved.
pub mod board;
pub mod cache;
pub mod evaluation;
pub mod fen;
pub mod game;
pub mod handlers;
pub mod oracle;
pub mod round_trip;
pub mod ordering;
pub mod rules;
pub mod search;
pub mod tables;

pub use board::{Board, CastleRights, Color, Move, Piece, PieceKind, Status};
pub use cache::ScoreCache;
pub use evaluation::{center_control, evaluation, is_endgame, mobility, read_table};
pub use fen::board_to_fen;
pub use game::{parse_move, write_move, Game, SetupError};
pub use handlers::{id, options, search, set_depth, set_up, CommandError};
pub use oracle::{
    is_syzygy, shakmaty_board, square_from_integer, Consultation, Oracle, OracleError,
    OracleMove, Verdict,
};
pub use ordering::{filter_moves, reorder_moves, sorting_func};
pub use rules::{gives_check, is_capture};
pub use search::{Engine, NoMove, RootPlan};
