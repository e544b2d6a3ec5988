//! A game in progress: the board, the engine that plays it and the depth
//! it searches at, with the reading and writing of moves as text.
use crate::board::{Board, CastleRights, Color, Move, PieceKind};
use crate::fen::{digit_value, file_text, file_value, run_text};
use crate::search::{root_searched, Engine, NoMove};
use vstd::prelude::*;
use vstd::string::*;

verus! {

/// The depth a game searches at when none was set.
pub const DEFAULT_DEPTH: i32 = 4;

/// The record of the starting position.
pub open spec fn start_text() -> Seq<char> {
    "rnbqkbnr/pppppppp/8/8/8/8/PPPPPPPP/RNBQKBNR w KQkq - 0 1"@
}

/// The letter of a promotion piece, as moves are written.
pub open spec fn promotion_text(kind: PieceKind) -> Seq<char> {
    match kind {
        PieceKind::Pawn => "p"@,
        PieceKind::Knight => "n"@,
        PieceKind::Bishop => "b"@,
        PieceKind::Rook => "r"@,
        PieceKind::Queen => "q"@,
        PieceKind::King => "k"@,
    }
}

/// The name of a square: its file letter and its rank digit.
pub open spec fn square_text(sq: int) -> Seq<char> {
    file_text(sq % 8) + run_text(sq / 8 + 1)
}

/// A move as text: origin square, destination square and, for a
/// promotion, the letter of the new piece.
pub open spec fn move_text(m: Move) -> Seq<char> {
    square_text(m.from as int) + square_text(m.to as int) + match m.promotion {
        Some(kind) => promotion_text(kind),
        None => Seq::empty(),
    }
}

/// The promotion piece that a letter stands for: queen, rook, bishop or
/// knight.
pub open spec fn promotion_value(c: char) -> Option<PieceKind> {
    if c == 'q' {
        Some(PieceKind::Queen)
    } else if c == 'r' {
        Some(PieceKind::Rook)
    } else if c == 'b' {
        Some(PieceKind::Bishop)
    } else if c == 'n' {
        Some(PieceKind::Knight)
    } else {
        None
    }
}

/// The square that a file letter and a rank digit name.
pub open spec fn square_value(file: char, rank: char) -> Option<u8> {
    match (file_value(file), digit_value(rank)) {
        (Some(f), Some(r)) => Some(((r - 1) * 8 + f) as u8),
        _ => None,
    }
}

/// The move that a text names: four characters for the two squares and,
/// for a promotion, a fifth for the piece.
pub open spec fn text_move(text: Seq<char>) -> Option<Move> {
    if text.len() != 4 && text.len() != 5 {
        None
    } else {
        match (square_value(text[0], text[1]), square_value(text[2], text[3])) {
            (Some(from), Some(to)) => if text.len() == 4 {
                Some(Move { from, to, promotion: None })
            } else {
                match promotion_value(text[4]) {
                    Some(kind) => Some(Move { from, to, promotion: Some(kind) }),
                    None => None,
                }
            },
            _ => None,
        }
    }
}

/// The texts of a list of strings.
pub open spec fn texts(words: Seq<String>) -> Seq<Seq<char>> {
    Seq::new(words.len(), |i: int| words[i]@)
}

/// The board after the first `n` of a list of moves, each given as text,
/// have been played from a board; none where one of them names no move or
/// an illegal one.
pub open spec fn replayed(board: Board, moves: Seq<Seq<char>>, n: int) -> Option<Board>
    decreases n,
{
    if n <= 0 {
        Some(board)
    } else {
        match replayed(board, moves, n - 1) {
            Some(reached) => match text_move(moves[n - 1]) {
                Some(m) => if reached.legal_moves_spec().contains(m) {
                    Some(reached.successor(m))
                } else {
                    None
                },
                None => None,
            },
            None => None,
        }
    }
}

/// Why a board could not be set up.
#[derive(Clone, Copy, Debug, PartialEq, Eq, Structural)]
pub enum SetupError {
    /// The record is not one of a position.
    BadRecord,
    /// One of the moves is not written as a move or is not legal.
    BadMove,
}

/// The board that a record and a list of moves set up.
pub open spec fn set_up_board(fen: Seq<char>, moves: Seq<Seq<char>>) -> Result<
    Board,
    SetupError,
> {
    match Board::parsed(fen) {
        None => Err(SetupError::BadRecord),
        Some(board) => match replayed(board, moves, moves.len() as int) {
            Some(reached) => Ok(reached),
            None => Err(SetupError::BadMove),
        },
    }
}

fn file_of(c: char) -> (value: Option<u8>)
    ensures
        value == file_value(c),
        value matches Some(v) ==> v < 8,
{
    if c == 'a' {
        Some(0)
    } else if c == 'b' {
        Some(1)
    } else if c == 'c' {
        Some(2)
    } else if c == 'd' {
        Some(3)
    } else if c == 'e' {
        Some(4)
    } else if c == 'f' {
        Some(5)
    } else if c == 'g' {
        Some(6)
    } else if c == 'h' {
        Some(7)
    } else {
        None
    }
}

fn rank_of(c: char) -> (value: Option<u8>)
    ensures
        value == digit_value(c),
        value matches Some(v) ==> 1 <= v <= 8,
{
    if c == '1' {
        Some(1)
    } else if c == '2' {
        Some(2)
    } else if c == '3' {
        Some(3)
    } else if c == '4' {
        Some(4)
    } else if c == '5' {
        Some(5)
    } else if c == '6' {
        Some(6)
    } else if c == '7' {
        Some(7)
    } else if c == '8' {
        Some(8)
    } else {
        None
    }
}

fn square_of(file: char, rank: char) -> (sq: Option<u8>)
    ensures
        sq == square_value(file, rank),
{
    match (file_of(file), rank_of(rank)) {
        (Some(f), Some(r)) => Some((r - 1) * 8 + f),
        _ => None,
    }
}

/// Reads a move written as text.
pub fn parse_move(text: &str) -> (m: Option<Move>)
    ensures
        m == text_move(text@),
{
    let n = text.unicode_len();
    if n != 4 && n != 5 {
        return None;
    }
    let from = square_of(text.get_char(0), text.get_char(1));
    let to = square_of(text.get_char(2), text.get_char(3));
    match (from, to) {
        (Some(from), Some(to)) => {
            if n == 4 {
                return Some(Move { from, to, promotion: None });
            }
            let c = text.get_char(4);
            let kind = if c == 'q' {
                PieceKind::Queen
            } else if c == 'r' {
                PieceKind::Rook
            } else if c == 'b' {
                PieceKind::Bishop
            } else if c == 'n' {
                PieceKind::Knight
            } else {
                return None;
            };
            Some(Move { from, to, promotion: Some(kind) })
        },
        _ => None,
    }
}

fn push_square(text: &mut String, sq: u8)
    requires
        sq < 64,
    ensures
        final(text)@ == old(text)@ + square_text(sq as int),
{
    let ghost start = text@;
    let file = sq % 8;
    let rank = sq / 8;
    if file == 0 {
        text.append("a");
    } else if file == 1 {
        text.append("b");
    } else if file == 2 {
        text.append("c");
    } else if file == 3 {
        text.append("d");
    } else if file == 4 {
        text.append("e");
    } else if file == 5 {
        text.append("f");
    } else if file == 6 {
        text.append("g");
    } else {
        text.append("h");
    }
    if rank == 0 {
        text.append("1");
    } else if rank == 1 {
        text.append("2");
    } else if rank == 2 {
        text.append("3");
    } else if rank == 3 {
        text.append("4");
    } else if rank == 4 {
        text.append("5");
    } else if rank == 5 {
        text.append("6");
    } else if rank == 6 {
        text.append("7");
    } else {
        text.append("8");
    }
    assert(text@ =~= start + square_text(sq as int));
}

/// Writes a move as text.
pub fn write_move(m: &Move) -> (text: String)
    requires
        m.from < 64,
        m.to < 64,
    ensures
        text@ == move_text(*m),
{
    let mut text = String::new();
    push_square(&mut text, m.from);
    push_square(&mut text, m.to);
    match m.promotion {
        Some(PieceKind::Pawn) => text.append("p"),
        Some(PieceKind::Knight) => text.append("n"),
        Some(PieceKind::Bishop) => text.append("b"),
        Some(PieceKind::Rook) => text.append("r"),
        Some(PieceKind::Queen) => text.append("q"),
        Some(PieceKind::King) => text.append("k"),
        None => {},
    }
    assert(text@ =~= move_text(*m));
    text
}

/// The starting position as plain values, with no check and no hash.
pub open spec fn starting_draft_spec() -> Board {
    Board {
        pieces: [
            0x00ff_0000_0000_ff00u64,
            0x4200_0000_0000_0042u64,
            0x2400_0000_0000_0024u64,
            0x8100_0000_0000_0081u64,
            0x0800_0000_0000_0008u64,
            0x1000_0000_0000_0010u64,
        ],
        colors: [0x0000_0000_0000_ffffu64, 0xffff_0000_0000_0000u64],
        side: Color::White,
        castles: [CastleRights::Both, CastleRights::Both],
        en_passant: None,
        checkers: 0,
        hash: 0,
    }
}

/// The board the game starts on: the starting position as the rules
/// library gives it, and as plain values should the library give none.
pub open spec fn starting_board() -> Board {
    match Board::parsed(start_text()) {
        Some(board) => board,
        None => starting_draft_spec(),
    }
}

/// The starting position as plain values, with no check and no hash.
pub fn starting_draft() -> (board: Board)
    ensures
        board == starting_draft_spec(),
{
    let board = Board {
        pieces: [
            0x00ff_0000_0000_ff00,
            0x4200_0000_0000_0042,
            0x2400_0000_0000_0024,
            0x8100_0000_0000_0081,
            0x0800_0000_0000_0008,
            0x1000_0000_0000_0010,
        ],
        colors: [0x0000_0000_0000_ffff, 0xffff_0000_0000_0000],
        side: Color::White,
        castles: [CastleRights::Both, CastleRights::Both],
        en_passant: None,
        checkers: 0,
        hash: 0,
    };
    board
}

/// A game: the board, the engine and the search depth.
pub struct Game {
    /// The position to move from.
    pub board: Board,
    /// The engine that chooses the moves.
    pub engine: Engine,
    /// The depth to search at, if one was set.
    pub depth: Option<i32>,
}

impl Game {
    /// Whether the game's engine is fit to search.
    pub open spec fn wf(&self) -> bool {
        self.engine.wf()
    }

    /// The position on the board.
    pub open spec fn current(&self) -> Board {
        self.board
    }

    /// The depth that was set, if any.
    pub open spec fn depth_set(&self) -> Option<i32> {
        self.depth
    }

    /// The depth that the game searches at.
    pub open spec fn search_depth(&self) -> int {
        match self.depth_set() {
            Some(depth) => depth as int,
            None => DEFAULT_DEPTH as int,
        }
    }

    /// The game's engine.
    pub open spec fn engine(&self) -> Engine {
        self.engine
    }

    /// A game at the starting position with a fresh engine and no depth
    /// set.
    pub fn new() -> (game: Game)
        ensures
            game.wf(),
            game.depth_set() is None,
            game.current() == starting_board(),
            !game.engine().stocked(),
    {
        let board = match Board::from_fen(
            "rnbqkbnr/pppppppp/8/8/8/8/PPPPPPPP/RNBQKBNR w KQkq - 0 1",
        ) {
            Some(board) => board,
            None => starting_draft(),
        };
        Game { board, engine: Engine::new(), depth: None }
    }

    /// Sets the depth to search at.
    pub fn set_depth(&mut self, depth: i32)
        ensures
            final(self).depth_set() == Some(depth),
            final(self).current() == old(self).current(),
            final(self).engine() == old(self).engine(),
    {
        self.depth = Some(depth);
    }

    /// The depth that the game searches at.
    pub fn depth(&self) -> (depth: i32)
        ensures
            depth == self.search_depth(),
    {
        match self.depth {
            Some(depth) => depth,
            None => DEFAULT_DEPTH,
        }
    }

    /// Gives the game's engine the tablebases of a directory.
    pub fn load_tables(&mut self, path: &str)
        requires
            old(self).wf(),
        ensures
            final(self).wf(),
            final(self).current() == old(self).current(),
            final(self).depth_set() == old(self).depth_set(),
            final(self).engine().slots() == old(self).engine().slots(),
            final(self).engine().perturbs() == old(self).engine().perturbs(),
    {
        self.engine.load_tables(path);
    }

    /// The engine's move for the position on the board, searched at the
    /// depth that was set, or at the default depth.
    pub fn play(&mut self) -> (found: Result<Move, NoMove>)
        requires
            old(self).wf(),
        ensures
            final(self).wf(),
            final(self).current() == old(self).current(),
            final(self).depth_set() == old(self).depth_set(),
            final(self).engine().stocked() == old(self).engine().stocked(),
            final(self).engine().perturbs() == old(self).engine().perturbs(),
            found matches Ok(m) ==> old(self).current().legal_moves_spec().contains(m) && m.from
                < 64 && m.to < 64,
            root_searched(
                old(self).engine().slots(),
                old(self).current(),
                old(self).search_depth(),
                old(self).engine().stocked(),
                old(self).engine().perturbs(),
                found,
                final(self).engine().slots(),
            ),
    {
        let depth = match self.depth {
            Some(depth) => depth,
            None => DEFAULT_DEPTH,
        };
        self.engine.play(&self.board, depth)
    }

    /// Sets the board up from a record and a list of moves played from it.
    /// Where the record or a move is refused the board stays as it was.
    pub fn set_board(&mut self, fen: &str, moves: &Vec<String>) -> (done: Result<(), SetupError>)
        ensures
            final(self).engine() == old(self).engine(),
            final(self).depth_set() == old(self).depth_set(),
            match set_up_board(fen@, texts(moves@)) {
                Ok(board) => done is Ok && final(self).current() == board,
                Err(e) => done == Err::<(), SetupError>(e) && final(self).current() == old(self).current(),
            },
    {
        let mut board = match Board::from_fen(fen) {
            Some(board) => board,
            None => {
                return Err(SetupError::BadRecord);
            },
        };
        let mut i: usize = 0;
        while i < moves.len()
            invariant
                i <= moves.len(),
                *self == *old(self),
                Board::parsed(fen@) is Some,
                replayed(Board::parsed(fen@).unwrap(), texts(moves@), i as int) == Some(
                    board,
                ),
            decreases moves.len() - i,
        {
            let next = match parse_move(moves[i].as_str()) {
                Some(m) => board.try_play(&m),
                None => None,
            };
            match next {
                Some(reached) => {
                    board = reached;
                },
                None => {
                    proof {
                        lemma_replay_stays_failed(
                            Board::parsed(fen@).unwrap(),
                            texts(moves@),
                            i as int + 1,
                            moves.len() as int,
                        );
                    }
                    return Err(SetupError::BadMove);
                },
            }
            i = i + 1;
        }
        self.board = board;
        Ok(())
    }
}

/// Once a move has been refused, the rest of the list is not played.
pub proof fn lemma_replay_stays_failed(
    board: Board,
    moves: Seq<Seq<char>>,
    failed: int,
    n: int,
)
    requires
        0 <= failed <= n,
        replayed(board, moves, failed) is None,
    ensures
        replayed(board, moves, n) is None,
    decreases n - failed,
{
    if failed < n {
        lemma_replay_stays_failed(board, moves, failed, n - 1);
    }
}

} // verus!
