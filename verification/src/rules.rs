//! The rules of chess, as the `chess` crate supplies them.
//!
//! Every call into that crate is made on a position written out in
//! Forsyth-Edwards notation and hands back plain numbers, so each result
//! is a function of the text alone; the key among them comes from tables
//! that are fixed when the crate is built. What the rules say is not
//! proved here: the results carry names, and the rest of the library is
//! verified against those names.
use crate::board::{Board, CastleRights, Color, Move, Piece, PieceKind, Status};
use crate::fen::{board_to_fen, fen_text, parse_record, ranks_text, read_record};
use chess::{BitBoard, ChessMove, MoveGen, ALL_COLORS, ALL_PIECES, ALL_SQUARES};
use vstd::prelude::*;

verus! {

/// A board as the rules library reports it: the square sets by piece kind
/// (pawn 0 to king 5) and by colour (White 0, Black 1), the castling
/// rights of White and Black as numbers, the player to move, the pawn that
/// can be captured in passing and the checking pieces.
#[derive(Clone, Copy, Debug)]
pub struct RawBoard {
    pub pieces: [u64; 6],
    pub colors: [u64; 2],
    pub castles: [u8; 2],
    pub white_to_move: bool,
    pub en_passant: Option<u8>,
    pub checkers: u64,
}

/// A move as the rules library reports it: origin, destination, and the
/// number of the promotion piece's kind.
pub type RawMove = (u8, u8, Option<u8>);

/// The board that the rules library reads from a record, or `None` where
/// it rejects the record.
pub uninterp spec fn parsed_board(fen: Seq<char>) -> Option<RawBoard>;

/// The legal moves that the rules library generates for the position of a
/// record, in the order in which it generates them, or `None` where it
/// rejects the record.
pub uninterp spec fn generated_moves(fen: Seq<char>) -> Option<Seq<RawMove>>;

/// The board that the rules library reaches by playing a move in the
/// position of a record, or `None` where it rejects the record.
pub uninterp spec fn board_after(fen: Seq<char>, from: u8, to: u8, promotion: Option<u8>) -> Option<
    RawBoard,
>;

/// The key under which the rules library files a placement, given as the
/// placement field of a record: it leaves out whose turn it is, the
/// castling rights and the capture in passing.
pub uninterp spec fn placement_key(placement: Seq<char>) -> u64;

/// The squares that a bishop on `square` attacks when the squares of
/// `occupied` block its way.
pub uninterp spec fn bishop_reach(square: u8, occupied: u64) -> u64;

/// The squares that a rook on `square` attacks when the squares of
/// `occupied` block its way.
pub uninterp spec fn rook_reach(square: u8, occupied: u64) -> u64;

/// Whether a text is the record of a position in which the player to move
/// has a king and at most sixteen pieces. The rules library is only ever
/// called on such records: it looks up the mover's king as soon as it has
/// read a record, and its list of moves has room for the pieces of a game
/// of chess and no more.
pub open spec fn is_playable_record(fen: Seq<char>) -> bool {
    exists|position: Board| #[trigger] fen_text(position) == fen && position.playable()
}

/// Whether a reported move names squares on the board and, if any, a piece
/// kind that exists.
pub open spec fn raw_move_in_range(m: RawMove) -> bool {
    &&& m.0 < 64
    &&& m.1 < 64
    &&& m.2 matches Some(kind) ==> kind < 6
}

/// `str::parse` into `chess::Board`, then the board's accessors `pieces`,
/// `color_combined`, `castle_rights`, `side_to_move`, `en_passant` and
/// `checkers`. The result is what the crate reads from the record, named
/// `parsed_board`; `None` stands for the crate's error. The crate fills
/// the board square by square as the placement field says, so the board
/// read has the placement of every board that the record is the record
/// of. The record must be playable: on a record without a king for the
/// mover the crate indexes out of bounds.
#[verifier::external_body]
fn chess_parse(fen: &str) -> (raw: Option<RawBoard>)
    requires
        is_playable_record(fen@),
    ensures
        raw == parsed_board(fen@),
        raw matches Some(read) ==> forall|board: Board| #[trigger]
            fen_text(board) == fen@ ==> ranks_text(read.draft(), 0) == ranks_text(board, 0),
{
    let b = fen.parse::<chess::Board>().ok()?;
    Some(RawBoard {
        pieces: ALL_PIECES.map(|p| b.pieces(p).0),
        colors: ALL_COLORS.map(|c| b.color_combined(c).0),
        castles: ALL_COLORS.map(|c| b.castle_rights(c).to_index() as u8),
        white_to_move: b.side_to_move() == chess::Color::White,
        en_passant: b.en_passant().map(|s| s.to_int()),
        checkers: b.checkers().0,
    })
}

/// `chess::MoveGen::new_legal` on the parsed record, each move taken apart
/// by `get_source`, `get_dest` and `get_promotion`. The result is the
/// crate's list of legal moves, named `generated_moves`; its squares are
/// below 64 and its promotion kinds below 6, as `Square::to_int` and
/// `Piece::to_index` give them. The record is rejected exactly where
/// `chess_parse` rejects it. The record must be playable: the crate keeps
/// one entry per piece that can move, and two more for captures in
/// passing, in a list of eighteen that it fills unchecked.
#[verifier::external_body]
fn chess_legal_moves(fen: &str) -> (moves: Option<Vec<RawMove>>)
    requires
        is_playable_record(fen@),
    ensures
        moves is Some <==> generated_moves(fen@) is Some,
        moves is Some <==> parsed_board(fen@) is Some,
        moves matches Some(list) ==> generated_moves(fen@) == Some(list@) && forall|i: int|
            0 <= i < list.len() ==> raw_move_in_range(#[trigger] list[i]),
{
    let b = fen.parse::<chess::Board>().ok()?;
    let raw = |m: ChessMove| {
        let promotion = m.get_promotion().map(|p| p.to_index() as u8);
        (m.get_source().to_int(), m.get_dest().to_int(), promotion)
    };
    Some(MoveGen::new_legal(&b).map(raw).collect())
}

/// `chess::Board::make_move_new` on the parsed record, then the board's
/// accessors as in `chess_parse`. The move must be one of the position's
/// legal moves: the crate does not check it and panics where no piece
/// stands on the origin. The result is named `board_after`, and is there
/// whenever the record has legal moves, since the record was then read.
#[verifier::external_body]
fn chess_make_move(fen: &str, from: u8, to: u8, promotion: Option<u8>) -> (raw: Option<RawBoard>)
    requires
        is_playable_record(fen@),
        raw_move_in_range((from, to, promotion)),
        generated_moves(fen@) matches Some(list) && list.contains((from, to, promotion)),
    ensures
        raw == board_after(fen@, from, to, promotion),
        raw is Some,
{
    let promotion = promotion.map(|i| ALL_PIECES[i as usize]);
    let m = ChessMove::new(ALL_SQUARES[from as usize], ALL_SQUARES[to as usize], promotion);
    let b = fen.parse::<chess::Board>().ok()?.make_move_new(m);
    Some(RawBoard {
        pieces: ALL_PIECES.map(|p| b.pieces(p).0),
        colors: ALL_COLORS.map(|c| b.color_combined(c).0),
        castles: ALL_COLORS.map(|c| b.castle_rights(c).to_index() as u8),
        white_to_move: b.side_to_move() == chess::Color::White,
        en_passant: b.en_passant().map(|s| s.to_int()),
        checkers: b.checkers().0,
    })
}

/// `Hash::hash` of the parsed `chess::Board` into a `DefaultHasher` made
/// by `new`, then `finish`. The crate feeds the hasher the key that it
/// builds from the pieces on their squares alone, and such a hasher gives
/// equal output for equal input. So the result is a function of the
/// placement field, named `placement_key`, for every board that the
/// record is the record of; it is there exactly where `chess_parse` reads
/// the record.
#[verifier::external_body]
fn chess_placement_key(fen: &str) -> (key: Option<u64>)
    requires
        is_playable_record(fen@),
    ensures
        key is Some <==> parsed_board(fen@) is Some,
        key matches Some(k) ==> forall|board: Board| #[trigger]
            fen_text(board) == fen@ ==> k == placement_key(ranks_text(board, 0)),
{
    let b = fen.parse::<chess::Board>().ok()?;
    let mut hasher = std::collections::hash_map::DefaultHasher::new();
    std::hash::Hash::hash(&b, &mut hasher);
    Some(std::hash::Hasher::finish(&hasher))
}

/// `chess::get_bishop_moves`: the squares a bishop on `square` reaches on
/// a board whose occupied squares are `occupied`, named `bishop_reach`.
#[verifier::external_body]
pub(crate) fn chess_bishop_moves(square: u8, occupied: u64) -> (reach: u64)
    requires
        square < 64,
    ensures
        reach == bishop_reach(square, occupied),
{
    chess::get_bishop_moves(ALL_SQUARES[square as usize], BitBoard(occupied)).0
}

/// `chess::get_rook_moves`: the squares a rook on `square` reaches on a
/// board whose occupied squares are `occupied`, named `rook_reach`.
#[verifier::external_body]
pub(crate) fn chess_rook_moves(square: u8, occupied: u64) -> (reach: u64)
    requires
        square < 64,
    ensures
        reach == rook_reach(square, occupied),
{
    chess::get_rook_moves(ALL_SQUARES[square as usize], BitBoard(occupied)).0
}

impl RawBoard {
    /// The position that a reported board stands for, without its key.
    pub open spec fn draft(self) -> Board {
        Board {
            pieces: self.pieces,
            colors: self.colors,
            side: if self.white_to_move {
                Color::White
            } else {
                Color::Black
            },
            castles: [
                CastleRights::at_slot(self.castles[0] as int),
                CastleRights::at_slot(self.castles[1] as int),
            ],
            en_passant: self.en_passant,
            checkers: self.checkers,
            hash: 0,
        }
    }

    /// The position that a reported board stands for.
    pub open spec fn decoded(self) -> Board {
        Board { hash: self.draft().identity(), ..self.draft() }
    }
}

/// The move that a reported move stands for.
pub open spec fn decode_move(m: RawMove) -> Move {
    Move {
        from: m.0,
        to: m.1,
        promotion: match m.2 {
            Some(kind) => Some(PieceKind::at_slot(kind as int)),
            None => None,
        },
    }
}

/// A move in the form in which the rules library takes it.
pub open spec fn encode_move(m: Move) -> RawMove {
    (
        m.from,
        m.to,
        match m.promotion {
            Some(kind) => Some(kind.slot() as u8),
            None => None,
        },
    )
}

/// The moves that a list of reported moves stands for, in the same order;
/// a reported move that names no square of the board is left out.
pub open spec fn decode_moves(raw: Seq<RawMove>) -> Seq<Move>
    decreases raw.len(),
{
    if raw.len() == 0 {
        Seq::empty()
    } else if raw_move_in_range(raw.last()) {
        decode_moves(raw.drop_last()).push(decode_move(raw.last()))
    } else {
        decode_moves(raw.drop_last())
    }
}

/// Every decoded move comes from a reported move in range, which encoding
/// gives back.
pub proof fn lemma_decoded_move_was_reported(raw: Seq<RawMove>, m: Move)
    requires
        decode_moves(raw).contains(m),
    ensures
        raw.contains(encode_move(m)),
        raw_move_in_range(encode_move(m)),
    decreases raw.len(),
{
    if raw.len() > 0 {
        let rest = raw.drop_last();
        let found = choose|i: int| 0 <= i < decode_moves(raw).len() && decode_moves(raw)[i] == m;
        if raw_move_in_range(raw.last()) && found == decode_moves(rest).len() {
            assert(encode_move(m) == raw.last());
            assert(raw[raw.len() - 1] == raw.last());
        } else {
            assert(decode_moves(rest)[found] == m);
            lemma_decoded_move_was_reported(rest, m);
            let k = choose|k: int| 0 <= k < rest.len() && rest[k] == encode_move(m);
            assert(raw[k] == encode_move(m));
        }
    }
}

impl Board {
    /// The position that a record stands for: the record is read, and
    /// what was read is put to the rules library, which adds who gives
    /// check and the hash. There is none where the text is no record,
    /// where the position read is not playable, or where the rules
    /// library rejects the position.
    pub open spec fn parsed(fen: Seq<char>) -> Option<Board> {
        match read_record(fen) {
            Some(draft) => if draft.playable() {
                match parsed_board(fen_text(draft)) {
                    Some(raw) => Some(raw.decoded()),
                    None => None,
                }
            } else {
                None
            },
            None => None,
        }
    }

    /// The legal moves of a position, in the order in which the rules
    /// library generates them. A position that is not playable, or that
    /// the rules library rejects, has none.
    pub open spec fn legal_moves_spec(self) -> Seq<Move> {
        if self.playable() {
            match generated_moves(fen_text(self)) {
                Some(raw) => decode_moves(raw),
                None => Seq::empty(),
            }
        } else {
            Seq::empty()
        }
    }

    /// The position reached by a move.
    pub open spec fn successor(self, m: Move) -> Board {
        let raw = encode_move(m);
        match board_after(fen_text(self), raw.0, raw.1, raw.2) {
            Some(board) => board.decoded(),
            None => self,
        }
    }

    /// Whether the game goes on: it does while a legal move exists; with
    /// none left, the player to move is mated if in check and stalemated
    /// if not.
    pub open spec fn status_spec(self) -> Status {
        if self.legal_moves_spec().len() > 0 {
            Status::Ongoing
        } else if self.in_check() {
            Status::Checkmate
        } else {
            Status::Stalemate
        }
    }

    /// Whether a move captures: it lands on an occupied square, or it
    /// takes a pawn of the mover to another file. A pawn changes file only
    /// by capturing, so on an empty square it captures in passing.
    pub open spec fn captures(self, m: Move) -> bool {
        self.piece_on(m.to as int) is Some || (self.piece_on(m.from as int) == Some(
            Piece { kind: PieceKind::Pawn, color: self.side },
        ) && m.from % 8 != m.to % 8)
    }

    /// Whether a move leaves the opponent in check.
    pub open spec fn checks(self, m: Move) -> bool {
        self.successor(m).in_check()
    }

    /// The identity of a position for caching: the key under which the
    /// rules library files its placement, so that the same placement has
    /// the same identity whoever is to move. A position that is not
    /// playable, or that the rules library rejects, has the identity 0.
    pub open spec fn identity(self) -> u64 {
        if self.accepted() {
            placement_key(ranks_text(self, 0))
        } else {
            0
        }
    }

    /// Whether the rules library takes a position: it can be asked, and
    /// reads the position's record.
    pub open spec fn accepted(self) -> bool {
        self.playable() && parsed_board(fen_text(self)) is Some
    }

    /// Whether a position carries its identity as its hash. Every
    /// position that this library reads or reaches does.
    pub open spec fn keyed(self) -> bool {
        self.hash == self.identity()
    }

    /// The identity of a position for caching.
    pub fn key(&self) -> (key: u64)
        ensures
            key == self.identity(),
    {
        if !self.is_playable() {
            return 0;
        }
        let fen = board_to_fen(self);
        match chess_placement_key(fen.as_str()) {
            Some(key) => key,
            None => 0,
        }
    }

    /// The position for a reported board.
    pub fn from_raw(raw: &RawBoard) -> (position: Board)
        ensures
            position == raw.decoded(),
            position.keyed(),
    {
        let draft = Board {
            pieces: raw.pieces,
            colors: raw.colors,
            side: if raw.white_to_move {
                Color::White
            } else {
                Color::Black
            },
            castles: [
                CastleRights::from_index(raw.castles[0]),
                CastleRights::from_index(raw.castles[1]),
            ],
            en_passant: raw.en_passant,
            checkers: raw.checkers,
            hash: 0,
        };
        let hash = draft.key();
        proof {
            lemma_identity_ignores_hash(draft, hash);
        }
        Board {
            pieces: draft.pieces,
            colors: draft.colors,
            side: draft.side,
            castles: draft.castles,
            en_passant: draft.en_passant,
            checkers: draft.checkers,
            hash,
        }
    }

    /// Reads a position from a record in Forsyth-Edwards notation. The
    /// position read has the placement that the record gives.
    pub fn from_fen(fen: &str) -> (position: Option<Board>)
        ensures
            position == Board::parsed(fen@),
            position matches Some(board) ==> board.keyed() && read_record(fen@) is Some
                && ranks_text(board, 0) == ranks_text(read_record(fen@).unwrap(), 0),
    {
        match parse_record(fen) {
            Some(draft) => {
                if !draft.is_playable() {
                    return None;
                }
                let text = board_to_fen(&draft);
                match chess_parse(text.as_str()) {
                    Some(raw) => {
                        proof {
                            assert(fen_text(draft) == text@);
                            lemma_identity_ignores_hash(raw.draft(), raw.draft().identity());
                        }
                        Some(Board::from_raw(&raw))
                    },
                    None => None,
                }
            },
            None => None,
        }
    }

    /// The legal moves of the position, in the rules library's order.
    pub fn legal_moves(&self) -> (moves: Vec<Move>)
        ensures
            moves@ == self.legal_moves_spec(),
    {
        let mut moves: Vec<Move> = Vec::new();
        if !self.is_playable() {
            return moves;
        }
        let fen = board_to_fen(self);
        match chess_legal_moves(fen.as_str()) {
            None => {},
            Some(raw) => {
                let mut i: usize = 0;
                while i < raw.len()
                    invariant
                        i <= raw.len(),
                        moves@ == decode_moves(raw@.take(i as int)),
                    decreases raw.len() - i,
                {
                    let m = raw[i];
                    assert(raw@.take(i as int + 1).drop_last() =~= raw@.take(i as int));
                    let in_range = m.0 < 64 && m.1 < 64 && match m.2 {
                        Some(kind) => kind < 6,
                        None => true,
                    };
                    if in_range {
                        let promotion = match m.2 {
                            Some(kind) => Some(PieceKind::from_index(kind)),
                            None => None,
                        };
                        moves.push(Move { from: m.0, to: m.1, promotion });
                    }
                    i = i + 1;
                }
                assert(raw@.take(raw.len() as int) =~= raw@);
            },
        }
        moves
    }

    /// Plays a legal move.
    pub fn play(&self, m: &Move) -> (next: Board)
        requires
            self.legal_moves_spec().contains(*m),
        ensures
            next == self.successor(*m),
            next.keyed(),
    {
        let fen = board_to_fen(self);
        let promotion = match m.promotion {
            Some(kind) => Some(kind.index()),
            None => None,
        };
        proof {
            lemma_decoded_move_was_reported(generated_moves(fen_text(*self)).unwrap(), *m);
        }
        let raw = chess_make_move(fen.as_str(), m.from, m.to, promotion).unwrap();
        Board::from_raw(&raw)
    }

    /// Plays a move if it is legal.
    pub fn try_play(&self, m: &Move) -> (next: Option<Board>)
        ensures
            next == if self.legal_moves_spec().contains(*m) {
                Some(self.successor(*m))
            } else {
                None
            },
    {
        let moves = self.legal_moves();
        let mut i: usize = 0;
        while i < moves.len()
            invariant
                i <= moves.len(),
                moves@ == self.legal_moves_spec(),
                forall|j: int| 0 <= j < i ==> moves[j] != *m,
            decreases moves.len() - i,
        {
            if moves[i].same(m) {
                return Some(self.play(m));
            }
            i = i + 1;
        }
        None
    }

    /// Whether the game goes on, and if not, how it ended.
    pub fn status(&self) -> (status: Status)
        ensures
            status == self.status_spec(),
    {
        let moves = self.legal_moves();
        if moves.len() > 0 {
            Status::Ongoing
        } else if self.is_check() {
            Status::Checkmate
        } else {
            Status::Stalemate
        }
    }
}

/// Whether a move captures, in passing or otherwise.
pub fn is_capture(chess_move: &Move, board: &Board) -> (r: bool)
    ensures
        r == board.captures(*chess_move),
{
    if chess_move.to < 64 && board.piece_at(chess_move.to).is_some() {
        return true;
    }
    if chess_move.from >= 64 || chess_move.from % 8 == chess_move.to % 8 {
        return false;
    }
    match board.piece_at(chess_move.from) {
        Some(piece) => piece.kind == PieceKind::Pawn && piece.color == board.side,
        None => false,
    }
}

/// Whether a legal move leaves the opponent in check.
pub fn gives_check(chess_move: &Move, board: &Board) -> (r: bool)
    requires
        board.legal_moves_spec().contains(*chess_move),
    ensures
        r == board.checks(*chess_move),
{
    board.play(chess_move).is_check()
}

/// The record of a position, and with it the position's identity and
/// everything else that the rules library says of it, does not depend on
/// the hash that the position carries.
pub proof fn lemma_identity_ignores_hash(board: Board, hash: u64)
    ensures
        fen_text(Board { hash, ..board }) == fen_text(board),
        ranks_text(Board { hash, ..board }, 0) == ranks_text(board, 0),
        (Board { hash, ..board }).identity() == board.identity(),
{
    let other = Board { hash, ..board };
    assert forall|sq: int| other.piece_on(sq) == board.piece_on(sq) by {}
    lemma_ranks_text_by_pieces(board, other, 0);
    lemma_army_by_pieces(board, other, Color::White, 64);
    lemma_army_by_pieces(board, other, Color::Black, 64);
    assert(other.has_king(other.side) == board.has_king(board.side)) by {
        if board.has_king(board.side) {
            let sq = choose|sq: int|
                0 <= sq < 64 && #[trigger] board.piece_on(sq) == Some(
                    Piece { kind: PieceKind::King, color: board.side },
                );
            assert(other.piece_on(sq) == board.piece_on(sq));
        }
        if other.has_king(other.side) {
            let sq = choose|sq: int|
                0 <= sq < 64 && #[trigger] other.piece_on(sq) == Some(
                    Piece { kind: PieceKind::King, color: other.side },
                );
            assert(other.piece_on(sq) == board.piece_on(sq));
        }
    }
}

/// Boards that hold the same pieces have the same placement text.
pub proof fn lemma_ranks_text_by_pieces(a: Board, b: Board, rank: int)
    requires
        forall|sq: int| a.piece_on(sq) == b.piece_on(sq),
    ensures
        ranks_text(a, rank) == ranks_text(b, rank),
    decreases 8 - rank,
{
    lemma_rank_text_by_pieces(a, b, rank, 0, 0);
    if rank < 7 {
        lemma_rank_text_by_pieces(a, b, 7, 0, 0);
        lemma_ranks_text_by_pieces(a, b, rank + 1);
    } else {
        lemma_rank_text_by_pieces(a, b, 7, 0, 0);
    }
}

/// Boards that hold the same pieces have the same text for a rank.
pub proof fn lemma_rank_text_by_pieces(a: Board, b: Board, rank: int, file: int, run: int)
    requires
        forall|sq: int| a.piece_on(sq) == b.piece_on(sq),
    ensures
        crate::fen::rank_text(a, rank, file, run) == crate::fen::rank_text(b, rank, file, run),
    decreases 8 - file,
{
    if file < 8 {
        assert(a.piece_on(rank * 8 + file) == b.piece_on(rank * 8 + file));
        lemma_rank_text_by_pieces(a, b, rank, file + 1, 0);
        lemma_rank_text_by_pieces(a, b, rank, file + 1, run + 1);
    }
}

/// Boards that hold the same pieces have armies of the same size.
pub proof fn lemma_army_by_pieces(a: Board, b: Board, color: Color, n: int)
    requires
        forall|sq: int| a.piece_on(sq) == b.piece_on(sq),
    ensures
        a.army_below(color, n) == b.army_below(color, n),
    decreases n,
{
    if n > 0 {
        lemma_army_by_pieces(a, b, color, n - 1);
        assert(a.piece_on(n - 1) == b.piece_on(n - 1));
    }
}

/// The squares of a legal move lie on the board.
pub proof fn lemma_legal_move_on_board(position: Board, m: Move)
    requires
        position.legal_moves_spec().contains(m),
    ensures
        m.from < 64,
        m.to < 64,
{
    lemma_decoded_move_was_reported(generated_moves(fen_text(position)).unwrap(), m);
}

} // verus!
