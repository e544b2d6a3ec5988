//! Plain-value model of the board: colours, pieces, squares, moves and
//! positions. Squares are numbered 0 to 63, rank by rank from a1 (0) over
//! h1 (7) to h8 (63); a set of squares is a `u64` with one bit per square.
use vstd::prelude::*;

verus! {

/// One of the two players.
#[derive(Clone, Copy, Debug, PartialEq, Eq, Structural)]
pub enum Color {
    White,
    Black,
}

impl Color {
    /// The other player.
    pub open spec fn other(self) -> Color {
        match self {
            Color::White => Color::Black,
            Color::Black => Color::White,
        }
    }

    /// The other player.
    pub fn opponent(self) -> (r: Color)
        ensures
            r == self.other(),
    {
        match self {
            Color::White => Color::Black,
            Color::Black => Color::White,
        }
    }

    /// Index of this colour in a per-colour array: White 0, Black 1.
    pub open spec fn slot(self) -> int {
        match self {
            Color::White => 0,
            Color::Black => 1,
        }
    }

    /// Index of this colour in a per-colour array: White 0, Black 1.
    pub fn index(self) -> (i: usize)
        ensures
            i == self.slot(),
    {
        match self {
            Color::White => 0,
            Color::Black => 1,
        }
    }
}

/// The six kinds of chess piece.
#[derive(Clone, Copy, Debug, PartialEq, Eq, Structural)]
pub enum PieceKind {
    Pawn,
    Knight,
    Bishop,
    Rook,
    Queen,
    King,
}

impl PieceKind {
    /// Index of this kind in a per-kind array, pawn 0 to king 5.
    pub open spec fn slot(self) -> int {
        match self {
            PieceKind::Pawn => 0,
            PieceKind::Knight => 1,
            PieceKind::Bishop => 2,
            PieceKind::Rook => 3,
            PieceKind::Queen => 4,
            PieceKind::King => 5,
        }
    }

    /// The kind stored at a per-kind index; indices past 5 count as king.
    pub open spec fn at_slot(i: int) -> PieceKind {
        if i == 0 {
            PieceKind::Pawn
        } else if i == 1 {
            PieceKind::Knight
        } else if i == 2 {
            PieceKind::Bishop
        } else if i == 3 {
            PieceKind::Rook
        } else if i == 4 {
            PieceKind::Queen
        } else {
            PieceKind::King
        }
    }

    /// Index of this kind in a per-kind array, pawn 0 to king 5.
    pub fn index(self) -> (i: u8)
        ensures
            i == self.slot(),
            i < 6,
            PieceKind::at_slot(i as int) == self,
    {
        match self {
            PieceKind::Pawn => 0,
            PieceKind::Knight => 1,
            PieceKind::Bishop => 2,
            PieceKind::Rook => 3,
            PieceKind::Queen => 4,
            PieceKind::King => 5,
        }
    }

    /// The kind stored at a per-kind index; indices past 5 count as king.
    pub fn from_index(i: u8) -> (kind: PieceKind)
        ensures
            kind == PieceKind::at_slot(i as int),
            i < 6 ==> kind.slot() == i,
    {
        if i == 0 {
            PieceKind::Pawn
        } else if i == 1 {
            PieceKind::Knight
        } else if i == 2 {
            PieceKind::Bishop
        } else if i == 3 {
            PieceKind::Rook
        } else if i == 4 {
            PieceKind::Queen
        } else {
            PieceKind::King
        }
    }
}

/// A piece of a given kind and colour.
#[derive(Clone, Copy, Debug, PartialEq, Eq, Structural)]
pub struct Piece {
    pub kind: PieceKind,
    pub color: Color,
}

/// The castling moves still open to one player.
#[derive(Clone, Copy, Debug, PartialEq, Eq, Structural)]
pub enum CastleRights {
    NoRights,
    KingSide,
    QueenSide,
    Both,
}

impl CastleRights {
    /// The rights stored under a number: 0 none, 1 king side, 2 queen side,
    /// anything else both.
    pub open spec fn at_slot(i: int) -> CastleRights {
        if i == 0 {
            CastleRights::NoRights
        } else if i == 1 {
            CastleRights::KingSide
        } else if i == 2 {
            CastleRights::QueenSide
        } else {
            CastleRights::Both
        }
    }

    /// The rights stored under a number: 0 none, 1 king side, 2 queen side,
    /// anything else both.
    pub fn from_index(i: u8) -> (rights: CastleRights)
        ensures
            rights == CastleRights::at_slot(i as int),
    {
        if i == 0 {
            CastleRights::NoRights
        } else if i == 1 {
            CastleRights::KingSide
        } else if i == 2 {
            CastleRights::QueenSide
        } else {
            CastleRights::Both
        }
    }

    /// Whether castling on the king's side is still open.
    pub open spec fn king_side(self) -> bool {
        self == CastleRights::KingSide || self == CastleRights::Both
    }

    /// Whether castling on the queen's side is still open.
    pub open spec fn queen_side(self) -> bool {
        self == CastleRights::QueenSide || self == CastleRights::Both
    }
}

/// A move: origin square, destination square and, for a pawn reaching the
/// last rank, the kind of piece it becomes.
#[derive(Clone, Copy, Debug, PartialEq, Eq)]
pub struct Move {
    pub from: u8,
    pub to: u8,
    pub promotion: Option<PieceKind>,
}

impl Move {
    /// Whether two moves name the same squares and promotion.
    pub fn same(&self, other: &Move) -> (r: bool)
        ensures
            r == (*self == *other),
    {
        let promotion = match (self.promotion, other.promotion) {
            (None, None) => true,
            (Some(a), Some(b)) => a == b,
            _ => false,
        };
        self.from == other.from && self.to == other.to && promotion
    }
}

/// Whether a game can go on from a position, and if not, how it ended.
#[derive(Clone, Copy, Debug, PartialEq, Eq, Structural)]
pub enum Status {
    Ongoing,
    Stalemate,
    Checkmate,
}

/// Whether square `sq` belongs to the set `squares`.
pub open spec fn has_bit(squares: u64, sq: int) -> bool {
    0 <= sq < 64 && (squares >> (sq as u64)) & 1u64 == 1u64
}

/// Whether square `sq` belongs to the set `squares`.
pub fn test_bit(squares: u64, sq: u8) -> (r: bool)
    requires
        sq < 64,
    ensures
        r == has_bit(squares, sq as int),
{
    (squares >> (sq as u64)) & 1u64 == 1u64
}

/// A set of squares seen from the other end of the board: the ranks in
/// reverse order, the files as they are.
pub open spec fn flipped(squares: u64) -> u64 {
    (squares << 56) | ((squares & 0xff00) << 40) | ((squares & 0xff_0000) << 24) | ((squares
        & 0xff00_0000) << 8) | ((squares >> 8) & 0xff00_0000) | ((squares >> 24) & 0xff_0000) | ((
    squares >> 40) & 0xff00) | (squares >> 56)
}

/// A set of squares seen from the other end of the board.
pub fn flip_ranks(squares: u64) -> (r: u64)
    ensures
        r == flipped(squares),
{
    (squares << 56) | ((squares & 0xff00) << 40) | ((squares & 0xff_0000) << 24) | ((squares
        & 0xff00_0000) << 8) | ((squares >> 8) & 0xff00_0000) | ((squares >> 24) & 0xff_0000) | ((
    squares >> 40) & 0xff00) | (squares >> 56)
}

/// A chess position as plain values: where the pieces stand, whose turn it
/// is, which castling moves remain, and what the rules library reported
/// when the position was made.
#[derive(Clone, Copy, Debug, PartialEq, Eq)]
pub struct Board {
    /// The squares holding a piece of each kind, indexed pawn 0 to king 5.
    pub pieces: [u64; 6],
    /// The squares holding a piece of each colour: White 0, Black 1.
    pub colors: [u64; 2],
    /// The player to move.
    pub side: Color,
    /// The castling rights of White (0) and Black (1).
    pub castles: [CastleRights; 2],
    /// The square of a pawn that has just advanced two ranks and can be
    /// captured in passing.
    pub en_passant: Option<u8>,
    /// The squares of the enemy pieces that give check to the player to move.
    pub checkers: u64,
    /// The position's identity for caching: the key of its placement,
    /// the same whoever is to move.
    pub hash: u64,
}

impl Board {
    /// The kind of the piece on a square, the lowest kind winning where the
    /// sets overlap.
    pub open spec fn kind_on(self, sq: int) -> Option<PieceKind> {
        if has_bit(self.pieces[0], sq) {
            Some(PieceKind::Pawn)
        } else if has_bit(self.pieces[1], sq) {
            Some(PieceKind::Knight)
        } else if has_bit(self.pieces[2], sq) {
            Some(PieceKind::Bishop)
        } else if has_bit(self.pieces[3], sq) {
            Some(PieceKind::Rook)
        } else if has_bit(self.pieces[4], sq) {
            Some(PieceKind::Queen)
        } else if has_bit(self.pieces[5], sq) {
            Some(PieceKind::King)
        } else {
            None
        }
    }

    /// The colour of the piece on a square, White winning where the sets
    /// overlap.
    pub open spec fn color_on(self, sq: int) -> Option<Color> {
        if has_bit(self.colors[0], sq) {
            Some(Color::White)
        } else if has_bit(self.colors[1], sq) {
            Some(Color::Black)
        } else {
            None
        }
    }

    /// The piece on a square: a square holds one when it has both a kind
    /// and a colour.
    pub open spec fn piece_on(self, sq: int) -> Option<Piece> {
        match (self.kind_on(sq), self.color_on(sq)) {
            (Some(kind), Some(color)) => Some(Piece { kind, color }),
            _ => None,
        }
    }

    /// The set of all occupied squares.
    pub open spec fn occupied(self) -> u64 {
        self.colors[0] | self.colors[1]
    }

    /// Whether the player to move is in check.
    pub open spec fn in_check(self) -> bool {
        self.checkers != 0
    }

    /// Whether a king of the given colour stands on the board.
    pub open spec fn has_king(self, color: Color) -> bool {
        exists|sq: int|
            0 <= sq < 64 && #[trigger] self.piece_on(sq) == Some(
                Piece { kind: PieceKind::King, color },
            )
    }

    /// The number of pieces of a colour on the squares below `n`.
    pub open spec fn army_below(self, color: Color, n: int) -> int
        decreases n,
    {
        if n <= 0 {
            0
        } else {
            self.army_below(color, n - 1) + match self.piece_on(n - 1) {
                Some(piece) => if piece.color == color {
                    1int
                } else {
                    0int
                },
                None => 0int,
            }
        }
    }

    /// The number of pieces of a colour.
    pub open spec fn army(self, color: Color) -> int {
        self.army_below(color, 64)
    }

    /// Whether the rules library can be asked about the position: the
    /// player to move has a king and no more than the sixteen pieces of a
    /// game of chess.
    pub open spec fn playable(self) -> bool {
        self.has_king(self.side) && self.army(self.side) <= 16
    }

    /// The same board with the other player to move, as if the mover had
    /// passed; nothing else changes, the en-passant square included.
    pub open spec fn passed(self) -> Board {
        Board { side: self.side.other(), ..self }
    }

    /// The piece on a square, if any.
    pub fn piece_at(&self, sq: u8) -> (piece: Option<Piece>)
        requires
            sq < 64,
        ensures
            piece == self.piece_on(sq as int),
    {
        let color = if test_bit(self.colors[0], sq) {
            Color::White
        } else if test_bit(self.colors[1], sq) {
            Color::Black
        } else {
            return None;
        };
        let kind = if test_bit(self.pieces[0], sq) {
            PieceKind::Pawn
        } else if test_bit(self.pieces[1], sq) {
            PieceKind::Knight
        } else if test_bit(self.pieces[2], sq) {
            PieceKind::Bishop
        } else if test_bit(self.pieces[3], sq) {
            PieceKind::Rook
        } else if test_bit(self.pieces[4], sq) {
            PieceKind::Queen
        } else if test_bit(self.pieces[5], sq) {
            PieceKind::King
        } else {
            return None;
        };
        Some(Piece { kind, color })
    }

    /// Whether a king of the given colour stands on the board.
    pub fn king_present(&self, color: Color) -> (r: bool)
        ensures
            r == self.has_king(color),
    {
        let mut sq: u8 = 0;
        while sq < 64
            invariant
                sq <= 64,
                forall|s: int|
                    0 <= s < sq ==> #[trigger] self.piece_on(s) != Some(
                        Piece { kind: PieceKind::King, color },
                    ),
            decreases 64 - sq,
        {
            match self.piece_at(sq) {
                Some(piece) => {
                    if piece.kind == PieceKind::King && piece.color == color {
                        return true;
                    }
                },
                None => {},
            }
            sq = sq + 1;
        }
        false
    }

    /// The number of pieces of a colour.
    pub fn army_size(&self, color: Color) -> (n: u8)
        ensures
            n == self.army(color),
            n <= 64,
    {
        let mut n: u8 = 0;
        let mut sq: u8 = 0;
        while sq < 64
            invariant
                sq <= 64,
                n == self.army_below(color, sq as int),
                n <= sq,
            decreases 64 - sq,
        {
            match self.piece_at(sq) {
                Some(piece) => {
                    if piece.color == color {
                        n = n + 1;
                    }
                },
                None => {},
            }
            sq = sq + 1;
        }
        n
    }

    /// Whether the rules library can be asked about the position.
    pub fn is_playable(&self) -> (r: bool)
        ensures
            r == self.playable(),
    {
        self.king_present(self.side) && self.army_size(self.side) <= 16
    }

    /// The same board with the other player to move.
    pub fn pass(&self) -> (flipped: Board)
        ensures
            flipped == self.passed(),
    {
        Board {
            pieces: self.pieces,
            colors: self.colors,
            side: self.side.opponent(),
            castles: self.castles,
            en_passant: self.en_passant,
            checkers: self.checkers,
            hash: self.hash,
        }
    }

    /// The set of all occupied squares.
    pub fn all_pieces(&self) -> (squares: u64)
        ensures
            squares == self.occupied(),
    {
        self.colors[0] | self.colors[1]
    }

    /// Whether the player to move is in check.
    pub fn is_check(&self) -> (r: bool)
        ensures
            r == self.in_check(),
    {
        self.checkers != 0
    }
}

} // verus!
