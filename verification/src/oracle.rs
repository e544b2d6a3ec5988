//! The adapter to endgame tablebases: it decides when a position is small
//! enough to ask, hands the position over in the prober's own form, and
//! turns the answer into a score and a move of this library.
use crate::board::{Board, Move, PieceKind, Status};
use crate::evaluation::CHECKMATE_SCORE;
use crate::fen::{board_to_fen, fen_text};
use shakmaty::Chess;
use shakmaty_syzygy::Tablebase;
use vstd::prelude::*;

verus! {

/// `shakmaty::Chess`, the form in which the prober takes a position.
#[verifier::external_type_specification]
#[verifier::external_body]
pub struct ExChess(Chess);

/// A set of Syzygy tables, as `shakmaty_syzygy::Tablebase` holds it: the
/// table files registered so far, read when a probe needs them. The type
/// is kept behind this struct because its parameter is bound by traits of
/// the prober, which keeps it from being declared on its own.
#[verifier::external_body]
pub struct Tables {
    inner: Tablebase<Chess>,
}

/// A position with fewer pieces than this is put to the tablebases.
pub const ORACLE_PIECES: u8 = 6;

/// The score of a position that the tablebases give as won.
pub const ORACLE_WIN: i32 = 99_999;

/// A move as the tablebase prober reports it, squares numbered as in this
/// library and piece kinds from 1 (pawn) to 6 (king).
#[derive(Clone, Copy, Debug, PartialEq, Eq)]
pub enum OracleMove {
    Normal { from: u8, to: u8, promotion: Option<u8> },
    EnPassant { from: u8, to: u8 },
    Castle { king: u8, rook: u8 },
    Put { role: u8, to: u8 },
}

/// Whether the prober's library reads a record as a position of standard
/// chess: whether it parses the text and accepts what it has parsed.
pub uninterp spec fn prober_reads(fen: Seq<char>) -> bool;

/// `str::parse` into `shakmaty::fen::Fen`, then `Fen::into_position` for
/// standard chess. `None` stands for either error. Both steps read the
/// text alone, so whether a position comes out is named `prober_reads`;
/// nothing is claimed of the position itself.
#[verifier::external_body]
fn parse_for_oracle(fen: &str) -> (position: Option<Chess>)
    ensures
        position is Some == prober_reads(fen@),
{
    fen.parse::<shakmaty::fen::Fen>().ok()?.into_position(shakmaty::CastlingMode::Standard).ok()
}

/// `shakmaty_syzygy::Tablebase::new`: a prober with no tables.
#[verifier::external_body]
fn tablebase_new() -> (tables: Tables) {
    Tables { inner: Tablebase::new() }
}

/// `shakmaty_syzygy::Tablebase::add_directory`: registers the table files
/// of a directory and reports how many it found, or `None` on an error.
#[verifier::external_body]
fn tablebase_add_directory(tables: &mut Tables, path: &str) -> (added: Option<usize>) {
    tables.inner.add_directory(path).ok()
}

/// `shakmaty_syzygy::Tablebase::probe_wdl`, reduced by
/// `AmbiguousWdl::signum`: 1 for a win of the player to move, 0 for a draw,
/// -1 for a loss, `None` where the probe fails. The answer depends on the
/// table files, so only its range is stated.
#[verifier::external_body]
fn tablebase_probe_wdl(tables: &Tables, position: &Chess) -> (sign: Option<i32>)
    ensures
        sign matches Some(s) ==> -1 <= s <= 1,
{
    tables.inner.probe_wdl(position).ok().map(|wdl| wdl.signum())
}

/// `shakmaty_syzygy::Tablebase::best_move`: the recommended move, `None`
/// where the probe fails and `Some(None)` where the position has no move.
/// The answer depends on the table files; stated is only that squares are
/// below 64 and piece kinds from 1 to 6, as `u8::from` gives them.
#[verifier::external_body]
fn tablebase_best_move(tables: &Tables, position: &Chess) -> (best: Option<
    Option<OracleMove>,
>)
    ensures
        best matches Some(Some(m)) ==> oracle_move_in_range(m),
{
    let best = tables.inner.best_move(position).ok()?;
    Some(best.map(|(m, _)| match m {
        shakmaty::Move::Normal { from, to, promotion, .. } => OracleMove::Normal { from: from.into(), to: to.into(), promotion: promotion.map(u8::from) },
        shakmaty::Move::EnPassant { from, to } => OracleMove::EnPassant { from: from.into(), to: to.into() },
        shakmaty::Move::Castle { king, rook } => OracleMove::Castle { king: king.into(), rook: rook.into() },
        shakmaty::Move::Put { role, to } => OracleMove::Put { role: role.into(), to: to.into() },
    }))
}

/// Whether a reported move names squares of the board and piece kinds that
/// exist.
pub open spec fn oracle_move_in_range(m: OracleMove) -> bool {
    match m {
        OracleMove::Normal { from, to, promotion } => from < 64 && to < 64 && (promotion matches Some(
            role,
        ) ==> 1 <= role <= 6),
        OracleMove::EnPassant { from, to } => from < 64 && to < 64,
        OracleMove::Castle { king, rook } => king < 64 && rook < 64,
        OracleMove::Put { role, to } => 1 <= role <= 6 && to < 64,
    }
}

/// What the tablebases say of a position, for the player to move.
#[derive(Clone, Copy, Debug, PartialEq, Eq, Structural)]
pub enum Verdict {
    Win,
    Draw,
    Loss,
}

/// Why the adapter has no answer.
#[derive(Clone, Copy, Debug, PartialEq, Eq, Structural)]
pub enum OracleError {
    /// No tables are at hand, or the probe failed: the caller searches on.
    Unavailable,
    /// The prober recommends a castling move or a drop, which this adapter
    /// does not translate.
    UnsupportedMove,
}

/// What one consultation brought back from the prober: the sign of the
/// outcome and the recommended move, each absent where its probe failed.
#[derive(Clone, Copy, Debug)]
pub struct Consultation {
    pub sign: Option<i32>,
    pub best: Option<Option<OracleMove>>,
}

/// The number of occupied squares below `n`.
pub open spec fn pieces_below(board: Board, n: int) -> int
    decreases n,
{
    if n <= 0 {
        0
    } else {
        pieces_below(board, n - 1) + if board.piece_on(n - 1) is Some {
            1int
        } else {
            0int
        }
    }
}

/// The number of pieces on the board.
pub open spec fn piece_total(board: Board) -> int {
    pieces_below(board, 64)
}

/// Whether a position is small enough for the tablebases.
pub open spec fn consultable(board: Board) -> bool {
    piece_total(board) < ORACLE_PIECES
}

/// The verdict for the sign of an outcome.
pub open spec fn verdict_of_sign(sign: int) -> Verdict {
    if sign > 0 {
        Verdict::Win
    } else if sign < 0 {
        Verdict::Loss
    } else {
        Verdict::Draw
    }
}

/// What the tablebases' word is worth: a win or a loss counts as much as
/// a mate, a draw nothing.
pub open spec fn verdict_score(verdict: Verdict) -> int {
    match verdict {
        Verdict::Win => ORACLE_WIN as int,
        Verdict::Draw => 0,
        Verdict::Loss => -ORACLE_WIN,
    }
}

/// The kind of piece that the prober numbers `role`: 1 the pawn, 2 the
/// knight, 3 the bishop, 4 the rook, 5 the queen, and the king otherwise.
pub open spec fn role_kind(role: int) -> PieceKind {
    PieceKind::at_slot(role - 1)
}

/// This library's move for a move of the prober. Ordinary moves and
/// en-passant captures keep their squares; castling moves and drops are
/// not translated.
pub open spec fn translated(m: OracleMove) -> Result<Move, OracleError> {
    match m {
        OracleMove::Normal { from, to, promotion } => Ok(
            Move {
                from,
                to,
                promotion: match promotion {
                    Some(role) => Some(role_kind(role as int)),
                    None => None,
                },
            },
        ),
        OracleMove::EnPassant { from, to } => Ok(Move { from, to, promotion: None }),
        OracleMove::Castle { .. } => Err(OracleError::UnsupportedMove),
        OracleMove::Put { .. } => Err(OracleError::UnsupportedMove),
    }
}

/// What the adapter answers for a position of a given status once the
/// prober has been asked. A position that has ended needs no tables. For
/// any other, both probes must have answered and named a move, and the move
/// must be one the adapter translates.
pub open spec fn endgame_outcome(status: Status, asked: Consultation) -> Result<
    (int, Option<Move>),
    OracleError,
> {
    match status {
        Status::Checkmate => Ok((CHECKMATE_SCORE as int, None)),
        Status::Stalemate => Ok((0, None)),
        Status::Ongoing => match (asked.sign, asked.best) {
            (Some(sign), Some(Some(m))) => match translated(m) {
                Ok(chosen) => Ok((verdict_score(verdict_of_sign(sign as int)), Some(chosen))),
                Err(e) => Err(e),
            },
            _ => Err(OracleError::Unavailable),
        },
    }
}

/// The number of pieces on the board.
pub fn piece_count(board: &Board) -> (n: u8)
    ensures
        n == piece_total(*board),
        n <= 64,
{
    let mut n: u8 = 0;
    let mut sq: u8 = 0;
    while sq < 64
        invariant
            sq <= 64,
            n == pieces_below(*board, sq as int),
            n <= sq,
        decreases 64 - sq,
    {
        if board.piece_at(sq).is_some() {
            n = n + 1;
        }
        sq = sq + 1;
    }
    n
}

/// Whether a position is small enough for the tablebases.
pub fn is_syzygy(board: &Board) -> (r: bool)
    ensures
        r == consultable(*board),
{
    piece_count(board) < ORACLE_PIECES
}

/// The square with a given number, put together from its rank and file.
pub fn square_from_integer(index: u8) -> (square: u8)
    requires
        index < 64,
    ensures
        square == index,
{
    let rank = index / 8;
    let file = index - rank * 8;
    rank * 8 + file
}

/// The verdict for the sign of an outcome.
pub fn verdict_from_sign(sign: i32) -> (verdict: Verdict)
    ensures
        verdict == verdict_of_sign(sign as int),
{
    if sign > 0 {
        Verdict::Win
    } else if sign < 0 {
        Verdict::Loss
    } else {
        Verdict::Draw
    }
}

/// The score of a verdict.
pub fn score_of_verdict(verdict: Verdict) -> (score: i32)
    ensures
        score == verdict_score(verdict),
        -ORACLE_WIN <= score <= ORACLE_WIN,
{
    match verdict {
        Verdict::Win => ORACLE_WIN,
        Verdict::Draw => 0,
        Verdict::Loss => -ORACLE_WIN,
    }
}

/// Translates a move of the prober.
pub fn translate_move(m: &OracleMove) -> (chosen: Result<Move, OracleError>)
    requires
        oracle_move_in_range(*m),
    ensures
        chosen == translated(*m),
        chosen matches Ok(found) ==> found.from < 64 && found.to < 64,
{
    match *m {
        OracleMove::Normal { from, to, promotion } => {
            let promotion = match promotion {
                Some(role) => Some(PieceKind::from_index(role - 1)),
                None => None,
            };
            Ok(Move { from: square_from_integer(from), to: square_from_integer(to), promotion })
        },
        OracleMove::EnPassant { from, to } => Ok(
            Move { from: square_from_integer(from), to: square_from_integer(to), promotion: None },
        ),
        OracleMove::Castle { .. } => Err(OracleError::UnsupportedMove),
        OracleMove::Put { .. } => Err(OracleError::UnsupportedMove),
    }
}

/// The adapter's answer for a position of a given status, from what the
/// prober brought back.
pub fn endgame_result(status: Status, asked: &Consultation) -> (answer: Result<
    (i32, Option<Move>),
    OracleError,
>)
    requires
        asked.best matches Some(Some(m)) ==> oracle_move_in_range(m),
    ensures
        match (answer, endgame_outcome(status, *asked)) {
            (Ok((score, chosen)), Ok((s, c))) => score == s && chosen == c,
            (Err(e), Err(f)) => e == f,
            _ => false,
        },
        answer matches Ok((_, Some(m))) ==> m.from < 64 && m.to < 64,
{
    match status {
        Status::Checkmate => Ok((CHECKMATE_SCORE, None)),
        Status::Stalemate => Ok((0, None)),
        Status::Ongoing => match (asked.sign, asked.best) {
            (Some(sign), Some(Some(m))) => match translate_move(&m) {
                Ok(chosen) => Ok((score_of_verdict(verdict_from_sign(sign)), Some(chosen))),
                Err(e) => Err(e),
            },
            _ => Err(OracleError::Unavailable),
        },
    }
}

/// Whether the prober takes a position: whether its library reads the
/// position's record.
pub open spec fn prober_takes(board: Board) -> bool {
    prober_reads(fen_text(board))
}

/// The position in the form in which the prober takes it: what the
/// prober's library reads from the position's record, or `None` where it
/// does not read the record.
pub fn shakmaty_board(board: &Board) -> (position: Option<Chess>)
    ensures
        position is Some == prober_takes(*board),
{
    let fen = board_to_fen(board);
    parse_for_oracle(fen.as_str())
}

/// The endgame oracle: tablebases, where a directory of them was at hand.
pub struct Oracle {
    tables: Option<Tables>,
}

impl Oracle {
    /// Whether tables are at hand.
    pub closed spec fn stocked(&self) -> bool {
        self.tables is Some
    }

    /// An oracle without tables: it never answers.
    pub fn empty() -> (oracle: Oracle)
        ensures
            !oracle.stocked(),
    {
        Oracle { tables: None }
    }

    /// An oracle over a set of tables to which a directory was added:
    /// `added` is the number of table files found there, or `None` where
    /// the directory could not be read, and the oracle then has no tables.
    pub fn holding(tables: Tables, added: Option<usize>) -> (oracle: Oracle)
        ensures
            oracle.stocked() == added is Some,
    {
        match added {
            Some(_) => Oracle { tables: Some(tables) },
            None => Oracle { tables: None },
        }
    }

    /// An oracle over the tables of a directory. Where the directory cannot
    /// be read the oracle has no tables.
    pub fn from_directory(path: &str) -> (oracle: Oracle) {
        let mut tables = tablebase_new();
        let added = tablebase_add_directory(&mut tables, path);
        Oracle::holding(tables, added)
    }

    /// Whether tables are at hand.
    pub fn is_stocked(&self) -> (r: bool)
        ensures
            r == self.stocked(),
    {
        self.tables.is_some()
    }

    /// Asks the prober about a position: nothing comes back without tables
    /// or where the prober does not take the position.
    pub fn consult(&self, board: &Board) -> (asked: Consultation)
        ensures
            !self.stocked() || !prober_takes(*board) ==> asked.sign is None && asked.best is None,
            asked.sign matches Some(s) ==> -1 <= s <= 1,
            asked.best matches Some(Some(m)) ==> oracle_move_in_range(m),
    {
        let nothing = Consultation { sign: None, best: None };
        match &self.tables {
            None => nothing,
            Some(tables) => {
                match shakmaty_board(board) {
                    None => nothing,
                    Some(position) => Consultation {
                        sign: tablebase_probe_wdl(tables, &position),
                        best: tablebase_best_move(tables, &position),
                    },
                }
            },
        }
    }

    /// What the tablebases say of a position, if they answer: nothing
    /// without tables or where the prober does not take the position.
    pub fn verdict(&self, board: &Board) -> (verdict: Option<Verdict>)
        ensures
            !self.stocked() || !prober_takes(*board) ==> verdict is None,
    {
        match &self.tables {
            None => None,
            Some(tables) => {
                match shakmaty_board(board) {
                    None => None,
                    Some(position) => match tablebase_probe_wdl(tables, &position) {
                        Some(sign) => Some(verdict_from_sign(sign)),
                        None => None,
                    },
                }
            },
        }
    }
}

} // verus!
