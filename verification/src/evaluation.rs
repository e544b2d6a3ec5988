//! Static evaluation: the score of a position, in centipawns, from the
//! point of view of the player to move.
use crate::board::{flip_ranks, flipped, has_bit, Board, Color, Piece, PieceKind, Status};
use crate::rules::{bishop_reach, chess_bishop_moves, chess_rook_moves, rook_reach};
use crate::tables::{
    lemma_tables_in_range, BISHOP_TABLE, KING_TABLE, KING_TABLE_ENDGAME, KNIGHT_TABLE, PAWN_TABLE,
    QUEEN_TABLE, ROOK_TABLE,
};
use vstd::prelude::*;

verus! {

/// The score of a position in which the player to move has been mated.
pub const CHECKMATE_SCORE: i32 = -99_999;

/// The score of a position in which the player to move is stalemated.
pub const STALEMATE_SCORE: i32 = 0;

/// How far the material score may lie below the upper end of the search
/// window for mobility and centre control still to be worked out.
pub const LAZY_MARGIN: i32 = 80;

/// A position with fewer knights, bishops, rooks and queens than this is an
/// endgame.
pub const ENDGAME_PIECES: u8 = 4;

/// The four central squares d4, e4, d5 and e5.
pub const CENTER: u64 = 0x0000_0018_1800_0000;

/// The bonus for a piece that attacks a central square.
pub const CENTER_BONUS: i32 = 5;

/// The value of a piece by its kind. A pawn counts for more than the
/// customary 100 because its mobility earns it nothing; the king has no
/// material value.
pub open spec fn material_value(kind: PieceKind) -> int {
    match kind {
        PieceKind::Pawn => 115,
        PieceKind::Knight => 300,
        PieceKind::Bishop => 310,
        PieceKind::Rook => 500,
        PieceKind::Queen => 900,
        PieceKind::King => 0,
    }
}

/// Where a colour reads a table that depends on the direction of play:
/// Black at the square's own index, White at the index of the square
/// mirrored to the other end of the board.
pub open spec fn table_index(sq: int, color: Color) -> int {
    match color {
        Color::Black => sq,
        Color::White => 8 * (7 - sq / 8) + sq % 8,
    }
}

/// Whether a piece is a knight, bishop, rook or queen.
pub open spec fn is_officer(piece: Option<Piece>) -> bool {
    match piece {
        Some(p) => p.kind != PieceKind::Pawn && p.kind != PieceKind::King,
        None => false,
    }
}

/// The number of knights, bishops, rooks and queens on the squares below
/// `n`.
pub open spec fn officers_below(position: Board, n: int) -> int
    decreases n,
{
    if n <= 0 {
        0
    } else {
        officers_below(position, n - 1) + if is_officer(position.piece_on(n - 1)) {
            1int
        } else {
            0int
        }
    }
}

/// Whether few enough knights, bishops, rooks and queens are left for the
/// kings to leave their shelter.
pub open spec fn endgame(position: Board) -> bool {
    officers_below(position, 64) < ENDGAME_PIECES
}

/// The table that a piece reads, the king's depending on whether the
/// position is an endgame.
pub open spec fn table_of(position: Board, kind: PieceKind) -> [i32; 64] {
    match kind {
        PieceKind::Pawn => PAWN_TABLE,
        PieceKind::Knight => KNIGHT_TABLE,
        PieceKind::Bishop => BISHOP_TABLE,
        PieceKind::Rook => ROOK_TABLE,
        PieceKind::Queen => QUEEN_TABLE,
        PieceKind::King => if endgame(position) {
            KING_TABLE_ENDGAME
        } else {
            KING_TABLE
        },
    }
}

/// The bonus for a piece of a kind and colour standing on a square: the
/// entry of the piece's table, read in the direction in which the
/// piece's colour plays.
pub open spec fn placement_bonus(position: Board, piece: Piece, sq: int) -> int {
    table_of(position, piece.kind)[table_index(sq, piece.color)] as int
}

/// What the piece on a square is worth to the player to move: its value
/// and placement bonus, counted for the mover's own pieces and against the
/// opponent's. An empty square is worth nothing.
pub open spec fn piece_score(position: Board, sq: int) -> int {
    match position.piece_on(sq) {
        None => 0,
        Some(piece) => {
            let worth = material_value(piece.kind) + placement_bonus(position, piece, sq);
            if piece.color == position.side {
                worth
            } else {
                -worth
            }
        },
    }
}

/// The sum of the piece scores of the squares below `n`.
pub open spec fn material_below(position: Board, n: int) -> int
    decreases n,
{
    if n <= 0 {
        0
    } else {
        material_below(position, n - 1) + piece_score(position, n - 1)
    }
}

/// The material and placement score of a position for the player to move.
pub open spec fn material_score(position: Board) -> int {
    material_below(position, 64)
}

/// Whether a pawn of colour `by` attacks square `sq`: a pawn attacks the
/// two squares diagonally in front of it.
pub open spec fn pawn_attacks(position: Board, by: Color, sq: int) -> bool {
    let pawn = Some(Piece { kind: PieceKind::Pawn, color: by });
    match by {
        Color::White => (sq % 8 < 7 && position.piece_on(sq - 7) == pawn) || (sq % 8 > 0
            && position.piece_on(sq - 9) == pawn),
        Color::Black => (sq % 8 > 0 && position.piece_on(sq + 7) == pawn) || (sq % 8 < 7
            && position.piece_on(sq + 9) == pawn),
    }
}

/// What the freedom of a piece of a kind is worth: most for the knight,
/// whose reach is shortest, least for the queen, nothing for pawn and king.
pub open spec fn mobility_weight(kind: PieceKind) -> int {
    match kind {
        PieceKind::Knight => 5,
        PieceKind::Bishop => 3,
        PieceKind::Rook => 3,
        PieceKind::Queen => 1,
        PieceKind::Pawn => 0,
        PieceKind::King => 0,
    }
}

/// The mobility that the piece on a square earns for a colour: the weight
/// of its kind if it belongs to the colour and no enemy pawn attacks it.
pub open spec fn mobility_term(position: Board, color: Color, sq: int) -> int {
    match position.piece_on(sq) {
        Some(piece) => if piece.color == color && !pawn_attacks(position, color.other(), sq) {
            mobility_weight(piece.kind)
        } else {
            0
        },
        None => 0,
    }
}

/// The mobility earned on the squares below `n`.
pub open spec fn mobility_below(position: Board, color: Color, n: int) -> int
    decreases n,
{
    if n <= 0 {
        0
    } else {
        mobility_below(position, color, n - 1) + mobility_term(position, color, n - 1)
    }
}

/// The mobility of a colour: for each of its knights, bishops, rooks and
/// queens that no enemy pawn attacks, the weight of the piece's kind.
pub open spec fn mobility_score(position: Board, color: Color) -> int {
    mobility_below(position, color, 64)
}

/// How far apart two numbers are.
pub open spec fn distance(a: int, b: int) -> int {
    if a >= b {
        a - b
    } else {
        b - a
    }
}

/// Whether one square is a knight's move away from another: one file and
/// two ranks apart, or two files and one rank.
pub open spec fn knight_step(from: int, to: int) -> bool {
    let files = distance(from % 8, to % 8);
    let ranks = distance(from / 8, to / 8);
    (files == 1 && ranks == 2) || (files == 2 && ranks == 1)
}

/// The square at the same place seen from the other end of the board: the
/// same file, and the rank counted from the eighth.
pub open spec fn mirror_square(sq: int) -> int {
    8 * (7 - sq / 8) + sq % 8
}

/// The square from which a piece looks at the board, read in the
/// direction in which its colour plays: White from the square itself,
/// Black from its mirror square.
pub open spec fn seat(sq: int, color: Color) -> int {
    match color {
        Color::White => sq,
        Color::Black => mirror_square(sq),
    }
}

/// The occupied squares as a piece sees them, read in the direction in
/// which its colour plays.
pub open spec fn sight(position: Board, color: Color) -> u64 {
    match color {
        Color::White => position.occupied(),
        Color::Black => flipped(position.occupied()),
    }
}

/// Whether a piece standing on a square attacks one of the four central
/// squares. The board is read in the direction in which the piece's
/// colour plays, as the tables are; the central squares are the same
/// from either end. Pawns and kings are not asked.
pub open spec fn attacks_center(position: Board, piece: Piece, sq: int) -> bool {
    let from = seat(sq, piece.color) as u8;
    let seen = sight(position, piece.color);
    match piece.kind {
        PieceKind::Knight => knight_step(sq, 27) || knight_step(sq, 28) || knight_step(sq, 35)
            || knight_step(sq, 36),
        PieceKind::Bishop => bishop_reach(from, seen) & CENTER != 0,
        PieceKind::Rook => rook_reach(from, seen) & CENTER != 0,
        PieceKind::Queen => rook_reach(from, seen) & CENTER != 0 || bishop_reach(from, seen)
            & CENTER != 0,
        PieceKind::Pawn => false,
        PieceKind::King => false,
    }
}

/// The centre control that the piece on a square earns for a colour.
pub open spec fn center_term(position: Board, color: Color, sq: int) -> int {
    match position.piece_on(sq) {
        Some(piece) => if piece.color == color && attacks_center(position, piece, sq) {
            CENTER_BONUS as int
        } else {
            0
        },
        None => 0,
    }
}

/// The centre control earned on the squares below `n`.
pub open spec fn center_below(position: Board, color: Color, n: int) -> int
    decreases n,
{
    if n <= 0 {
        0
    } else {
        center_below(position, color, n - 1) + center_term(position, color, n - 1)
    }
}

/// The centre control of a colour: a fixed bonus for each of its knights,
/// bishops, rooks and queens that attacks a central square.
pub open spec fn center_score(position: Board, color: Color) -> int {
    center_below(position, color, 64)
}

/// What mobility and centre control add to the score of the player to move:
/// the mover's own terms less the opponent's.
pub open spec fn positional_score(position: Board) -> int {
    mobility_score(position, position.side) + center_score(position, position.side)
        - mobility_score(position, position.side.other()) - center_score(
        position,
        position.side.other(),
    )
}

/// Whether the material score is close enough to the window for the
/// positional terms to be worth working out.
pub open spec fn within_margin(material: int, alpha: int, beta: int) -> bool {
    material + LAZY_MARGIN < beta && material + LAZY_MARGIN > alpha
}

/// The score of a position in which the game goes on: the material score,
/// with the positional terms added where it lies within the margin of the
/// window.
pub open spec fn static_score(position: Board, alpha: int, beta: int) -> int {
    let material = material_score(position);
    if within_margin(material, alpha, beta) {
        material + positional_score(position)
    } else {
        material
    }
}

/// The score of a position that has ended.
pub open spec fn terminal_score(status: Status) -> int {
    match status {
        Status::Checkmate => CHECKMATE_SCORE as int,
        _ => STALEMATE_SCORE as int,
    }
}

/// The score of a position for the player to move.
pub open spec fn evaluation_spec(position: Board, alpha: int, beta: int) -> int {
    match position.status_spec() {
        Status::Ongoing => static_score(position, alpha, beta),
        ended => terminal_score(ended),
    }
}

/// Reads a table that depends on the direction of play for a colour.
pub fn read_table(table: &[i32; 64], square: u8, color: Color) -> (bonus: i32)
    requires
        square < 64,
    ensures
        bonus == table[table_index(square as int, color)],
{
    match color {
        Color::Black => table[square as usize],
        Color::White => {
            let rank = square / 8;
            let file = square % 8;
            table[(8 * (7 - rank) + file) as usize]
        },
    }
}

/// Whether few enough knights, bishops, rooks and queens are left for the
/// position to count as an endgame.
pub fn is_endgame(board: &Board) -> (r: bool)
    ensures
        r == endgame(*board),
{
    let mut officers: u8 = 0;
    let mut sq: u8 = 0;
    while sq < 64
        invariant
            sq <= 64,
            officers == officers_below(*board, sq as int),
            officers <= sq,
        decreases 64 - sq,
    {
        match board.piece_at(sq) {
            Some(piece) => {
                if piece.kind != PieceKind::Pawn && piece.kind != PieceKind::King {
                    officers = officers + 1;
                }
            },
            None => {},
        }
        sq = sq + 1;
    }
    officers < ENDGAME_PIECES
}

/// The value of a kind of piece.
pub fn piece_value(kind: PieceKind) -> (value: i32)
    ensures
        value == material_value(kind),
{
    match kind {
        PieceKind::Pawn => 115,
        PieceKind::Knight => 300,
        PieceKind::Bishop => 310,
        PieceKind::Rook => 500,
        PieceKind::Queen => 900,
        PieceKind::King => 0,
    }
}

/// What the piece on a square is worth to the player to move. `late` says
/// whether the position is an endgame.
pub fn evaluate_piece(board: &Board, square: u8, late: bool) -> (score: i32)
    requires
        square < 64,
        late == endgame(*board),
    ensures
        score == piece_score(*board, square as int),
        -1000 <= score <= 1000,
{
    proof {
        lemma_tables_in_range();
    }
    match board.piece_at(square) {
        None => 0,
        Some(piece) => {
            let bonus = match piece.kind {
                PieceKind::Pawn => read_table(&PAWN_TABLE, square, piece.color),
                PieceKind::Knight => read_table(&KNIGHT_TABLE, square, piece.color),
                PieceKind::Bishop => read_table(&BISHOP_TABLE, square, piece.color),
                PieceKind::Rook => read_table(&ROOK_TABLE, square, piece.color),
                PieceKind::Queen => read_table(&QUEEN_TABLE, square, piece.color),
                PieceKind::King => if late {
                    read_table(&KING_TABLE_ENDGAME, square, piece.color)
                } else {
                    read_table(&KING_TABLE, square, piece.color)
                },
            };
            let worth = piece_value(piece.kind) + bonus;
            if piece.color == board.side {
                worth
            } else {
                -worth
            }
        },
    }
}

/// The material and placement score of a position for the player to move.
pub fn material(board: &Board) -> (score: i32)
    ensures
        score == material_score(*board),
        -64_000 <= score <= 64_000,
{
    let late = is_endgame(board);
    let mut score: i32 = 0;
    let mut sq: u8 = 0;
    while sq < 64
        invariant
            sq <= 64,
            late == endgame(*board),
            score == material_below(*board, sq as int),
            -1000 * sq <= score <= 1000 * sq,
        decreases 64 - sq,
    {
        score = score + evaluate_piece(board, sq, late);
        sq = sq + 1;
    }
    score
}

/// Whether a pawn of colour `by` attacks a square.
pub fn pawn_attacked(board: &Board, by: Color, square: u8) -> (r: bool)
    requires
        square < 64,
    ensures
        r == pawn_attacks(*board, by, square as int),
{
    let file = square % 8;
    let pawn = Piece { kind: PieceKind::Pawn, color: by };
    match by {
        Color::White => (file < 7 && square >= 7 && holds(board, square - 7, pawn)) || (file > 0
            && square >= 9 && holds(board, square - 9, pawn)),
        Color::Black => (file > 0 && square < 57 && holds(board, square + 7, pawn)) || (file < 7
            && square < 55 && holds(board, square + 9, pawn)),
    }
}

/// Whether a square holds a given piece.
fn holds(board: &Board, square: u8, piece: Piece) -> (r: bool)
    requires
        square < 64,
    ensures
        r == (board.piece_on(square as int) == Some(piece)),
{
    match board.piece_at(square) {
        Some(found) => found.kind == piece.kind && found.color == piece.color,
        None => false,
    }
}

/// The mobility of a colour. Where the colour is not the one to move, the
/// board is read as if the mover had passed.
pub fn mobility(board: &Board, color: Color) -> (score: i32)
    ensures
        score == mobility_score(*board, color),
        0 <= score <= 320,
{
    if color != board.side {
        let flipped = board.pass();
        proof {
            lemma_mobility_ignores_turn(*board, color, 64);
        }
        mobility_of(&flipped, color)
    } else {
        mobility_of(board, color)
    }
}

/// Mobility reads only where the pieces stand, not whose turn it is.
pub proof fn lemma_mobility_ignores_turn(position: Board, color: Color, n: int)
    ensures
        mobility_below(position.passed(), color, n) == mobility_below(position, color, n),
    decreases n,
{
    if n > 0 {
        lemma_mobility_ignores_turn(position, color, n - 1);
        let sq = n - 1;
        assert(forall|s: int| position.passed().piece_on(s) == position.piece_on(s));
        assert(mobility_term(position.passed(), color, sq) == mobility_term(position, color, sq));
    }
}

fn mobility_of(board: &Board, color: Color) -> (score: i32)
    ensures
        score == mobility_score(*board, color),
        0 <= score <= 320,
{
    let enemy = color.opponent();
    let mut score: i32 = 0;
    let mut sq: u8 = 0;
    while sq < 64
        invariant
            sq <= 64,
            enemy == color.other(),
            score == mobility_below(*board, color, sq as int),
            0 <= score <= 5 * sq,
        decreases 64 - sq,
    {
        match board.piece_at(sq) {
            Some(piece) => {
                if piece.color == color && !pawn_attacked(board, enemy, sq) {
                    score = score + match piece.kind {
                        PieceKind::Knight => 5,
                        PieceKind::Bishop => 3,
                        PieceKind::Rook => 3,
                        PieceKind::Queen => 1,
                        PieceKind::Pawn => 0,
                        PieceKind::King => 0,
                    };
                }
            },
            None => {},
        }
        sq = sq + 1;
    }
    score
}

/// Whether one square is a knight's move away from another.
pub fn is_knight_step(from: u8, to: u8) -> (r: bool)
    ensures
        r == knight_step(from as int, to as int),
{
    let files = if from % 8 >= to % 8 {
        from % 8 - to % 8
    } else {
        to % 8 - from % 8
    };
    let ranks = if from / 8 >= to / 8 {
        from / 8 - to / 8
    } else {
        to / 8 - from / 8
    };
    (files == 1 && ranks == 2) || (files == 2 && ranks == 1)
}

/// Whether a piece standing on a square attacks a central square.
pub fn reaches_center(board: &Board, piece: Piece, square: u8) -> (r: bool)
    requires
        square < 64,
    ensures
        r == attacks_center(*board, piece, square as int),
{
    let (from, seen) = match piece.color {
        Color::White => (square, board.all_pieces()),
        Color::Black => (8 * (7 - square / 8) + square % 8, flip_ranks(board.all_pieces())),
    };
    match piece.kind {
        PieceKind::Knight => is_knight_step(square, 27) || is_knight_step(square, 28)
            || is_knight_step(square, 35) || is_knight_step(square, 36),
        PieceKind::Bishop => chess_bishop_moves(from, seen) & CENTER != 0,
        PieceKind::Rook => chess_rook_moves(from, seen) & CENTER != 0,
        PieceKind::Queen => chess_rook_moves(from, seen) & CENTER != 0 || chess_bishop_moves(
            from,
            seen,
        ) & CENTER != 0,
        PieceKind::Pawn => false,
        PieceKind::King => false,
    }
}

/// The centre control of a colour.
pub fn center_control(board: &Board, color: Color) -> (score: i32)
    ensures
        score == center_score(*board, color),
        0 <= score <= 320,
{
    let mut score: i32 = 0;
    let mut sq: u8 = 0;
    while sq < 64
        invariant
            sq <= 64,
            score == center_below(*board, color, sq as int),
            0 <= score <= 5 * sq,
        decreases 64 - sq,
    {
        match board.piece_at(sq) {
            Some(piece) => {
                if piece.color == color && reaches_center(board, piece, sq) {
                    score = score + CENTER_BONUS;
                }
            },
            None => {},
        }
        sq = sq + 1;
    }
    score
}

/// The score of a position in which the game goes on.
pub fn static_evaluation(board: &Board, alpha: i32, beta: i32) -> (score: i32)
    ensures
        score == static_score(*board, alpha as int, beta as int),
        -65_280 <= score <= 65_280,
{
    let mut eval = material(board);
    if eval + LAZY_MARGIN < beta && eval + LAZY_MARGIN > alpha {
        let enemy = board.side.opponent();
        eval = eval + mobility(board, board.side) + center_control(board, board.side);
        eval = eval - (mobility(board, enemy) + center_control(board, enemy));
    }
    eval
}

/// The score of a position for the player to move: the mate score where
/// the mover is mated, nothing where the mover is stalemated, and the
/// static score otherwise.
pub fn evaluation(board: &Board, alpha: i32, beta: i32) -> (score: i32)
    ensures
        score == evaluation_spec(*board, alpha as int, beta as int),
        -99_999 <= score <= 65_280,
{
    match board.status() {
        Status::Checkmate => CHECKMATE_SCORE,
        Status::Stalemate => STALEMATE_SCORE,
        Status::Ongoing => static_evaluation(board, alpha, beta),
    }
}

/// A position without a legal move scores as a mate where the player to
/// move is in check, and as nothing where not.
pub proof fn lemma_terminal_scoring(board: Board, alpha: int, beta: int)
    requires
        board.legal_moves_spec().len() == 0,
    ensures
        board.in_check() ==> evaluation_spec(board, alpha, beta) == CHECKMATE_SCORE,
        !board.in_check() ==> evaluation_spec(board, alpha, beta) == 0,
{
}

/// Whose turn it is does not change the count of knights, bishops, rooks
/// and queens.
pub proof fn lemma_officers_ignore_turn(board: Board, n: int)
    ensures
        officers_below(board.passed(), n) == officers_below(board, n),
    decreases n,
{
    if n > 0 {
        lemma_officers_ignore_turn(board, n - 1);
        assert(board.passed().piece_on(n - 1) == board.piece_on(n - 1));
    }
}

/// Passing the turn negates the material score of the squares below `n`.
pub proof fn lemma_material_turns(board: Board, n: int)
    ensures
        material_below(board.passed(), n) == -material_below(board, n),
    decreases n,
{
    if n > 0 {
        lemma_material_turns(board, n - 1);
        lemma_officers_ignore_turn(board, 64);
        assert(board.passed().piece_on(n - 1) == board.piece_on(n - 1));
        assert(piece_score(board.passed(), n - 1) == -piece_score(board, n - 1));
    }
}

/// Passing the turn leaves the centre control of each colour as it is.
pub proof fn lemma_center_ignores_turn(board: Board, color: Color, n: int)
    ensures
        center_below(board.passed(), color, n) == center_below(board, color, n),
    decreases n,
{
    if n > 0 {
        lemma_center_ignores_turn(board, color, n - 1);
        assert(board.passed().piece_on(n - 1) == board.piece_on(n - 1));
        assert(board.passed().occupied() == board.occupied());
        assert(center_term(board.passed(), color, n - 1) == center_term(board, color, n - 1));
    }
}

/// The static score is antisymmetric in the player to move: the same
/// placement with the other player to move scores the negated material,
/// and the negated static score wherever the window lets both players'
/// scores take the positional terms or lets neither.
pub proof fn lemma_score_turns(board: Board, alpha: int, beta: int)
    ensures
        material_score(board.passed()) == -material_score(board),
        positional_score(board.passed()) == -positional_score(board),
        within_margin(material_score(board), alpha, beta) == within_margin(
            -material_score(board),
            alpha,
            beta,
        ) ==> static_score(board.passed(), alpha, beta) == -static_score(board, alpha, beta),
{
    lemma_material_turns(board, 64);
    lemma_mobility_ignores_turn(board, Color::White, 64);
    lemma_mobility_ignores_turn(board, Color::Black, 64);
    lemma_center_ignores_turn(board, Color::White, 64);
    lemma_center_ignores_turn(board, Color::Black, 64);
}

/// The same piece in the other colour.
pub open spec fn recolored(piece: Option<Piece>) -> Option<Piece> {
    match piece {
        Some(p) => Some(Piece { kind: p.kind, color: p.color.other() }),
        None => None,
    }
}

/// Whether no square of a board holds pieces of both colours.
pub open spec fn sound(board: Board) -> bool {
    board.colors[0] & board.colors[1] == 0
}

/// Whether `b` is `a` with the colours swapped and the board turned end
/// for end, the same player being to move.
pub open spec fn is_mirror(a: Board, b: Board) -> bool {
    &&& b.side == a.side
    &&& b.pieces[0] == flipped(a.pieces[0])
    &&& b.pieces[1] == flipped(a.pieces[1])
    &&& b.pieces[2] == flipped(a.pieces[2])
    &&& b.pieces[3] == flipped(a.pieces[3])
    &&& b.pieces[4] == flipped(a.pieces[4])
    &&& b.pieces[5] == flipped(a.pieces[5])
    &&& b.colors[0] == flipped(a.colors[1])
    &&& b.colors[1] == flipped(a.colors[0])
}

/// Whether every square of `b` holds what its mirror square holds in `a`,
/// in the other colour.
pub open spec fn mirrors_pieces(a: Board, b: Board) -> bool {
    forall|sq: int|
        0 <= sq < 64 ==> #[trigger] b.piece_on(mirror_square(sq)) == recolored(a.piece_on(sq))
}

/// A square belongs to a set exactly if its mirror square belongs to the
/// set seen from the other end.
pub proof fn lemma_flipped_bit(squares: u64, sq: int)
    requires
        0 <= sq < 64,
    ensures
        has_bit(flipped(squares), mirror_square(sq)) == has_bit(squares, sq),
{
    let s = sq as u64;
    let m = mirror_square(sq) as u64;
    assert(m == s ^ 56) by {
        assert(s < 64 ==> s ^ 56 == 8 * (7 - s / 8) + s % 8) by (bit_vector);
    }
    assert(s < 64 ==> ((flipped(squares) >> (s ^ 56)) & 1 == 1) == ((squares >> s) & 1 == 1))
        by (bit_vector);
}

/// A mirror of a sound board mirrors its pieces, is sound, and is seen
/// from the other end as the board is seen from this one.
pub proof fn lemma_mirror_pieces(a: Board, b: Board)
    requires
        is_mirror(a, b),
        sound(a),
    ensures
        mirrors_pieces(a, b),
        b.occupied() == flipped(a.occupied()),
        a.occupied() == flipped(b.occupied()),
{
    let (w, k) = (a.colors[0], a.colors[1]);
    assert forall|sq: int| 0 <= sq < 64 implies #[trigger] b.piece_on(mirror_square(sq))
        == recolored(a.piece_on(sq)) by {
        lemma_flipped_bit(a.pieces[0], sq);
        lemma_flipped_bit(a.pieces[1], sq);
        lemma_flipped_bit(a.pieces[2], sq);
        lemma_flipped_bit(a.pieces[3], sq);
        lemma_flipped_bit(a.pieces[4], sq);
        lemma_flipped_bit(a.pieces[5], sq);
        lemma_flipped_bit(w, sq);
        lemma_flipped_bit(k, sq);
        let s = sq as u64;
        assert(w & k == 0 && s < 64 ==> !((w >> s) & 1 == 1 && (k >> s) & 1 == 1))
            by (bit_vector);
    }
    assert(flipped(k) | flipped(w) == flipped(w | k)) by (bit_vector);
    assert(flipped(flipped(k) | flipped(w)) == w | k) by (bit_vector);
}

/// The mirror square lies on the board, has the same file and mirrors
/// back; a colour reads a table at a square where the other colour reads
/// it at the mirror square.
pub proof fn lemma_mirror_square(sq: int)
    requires
        0 <= sq < 64,
    ensures
        0 <= mirror_square(sq) < 64,
        mirror_square(sq) % 8 == sq % 8,
        mirror_square(mirror_square(sq)) == sq,
        table_index(mirror_square(sq), Color::Black) == table_index(sq, Color::White),
        table_index(mirror_square(sq), Color::White) == table_index(sq, Color::Black),
{
}

/// The sum of a function over the squares below `n`.
pub open spec fn sum_below(f: spec_fn(int) -> int, n: int) -> int
    decreases n,
{
    if n <= 0 {
        0
    } else {
        sum_below(f, n - 1) + f(n - 1)
    }
}

/// The sum of a function over the eight squares of a rank.
pub open spec fn rank_sum(f: spec_fn(int) -> int, rank: int) -> int {
    f(8 * rank) + f(8 * rank + 1) + f(8 * rank + 2) + f(8 * rank + 3) + f(8 * rank + 4) + f(
        8 * rank + 5,
    ) + f(8 * rank + 6) + f(8 * rank + 7)
}

/// The sum over the squares below a rank's end is the sum below its start
/// and the rank's own.
proof fn lemma_sum_by_rank(f: spec_fn(int) -> int, rank: int)
    requires
        0 <= rank,
    ensures
        sum_below(f, 8 * rank + 8) == sum_below(f, 8 * rank) + rank_sum(f, rank),
{
    reveal_with_fuel(sum_below, 9);
}

/// The sum over the board is the sum of the eight ranks.
proof fn lemma_sum_of_ranks(f: spec_fn(int) -> int)
    ensures
        sum_below(f, 64) == rank_sum(f, 0) + rank_sum(f, 1) + rank_sum(f, 2) + rank_sum(f, 3)
            + rank_sum(f, 4) + rank_sum(f, 5) + rank_sum(f, 6) + rank_sum(f, 7),
{
    lemma_sum_by_rank(f, 0);
    lemma_sum_by_rank(f, 1);
    lemma_sum_by_rank(f, 2);
    lemma_sum_by_rank(f, 3);
    lemma_sum_by_rank(f, 4);
    lemma_sum_by_rank(f, 5);
    lemma_sum_by_rank(f, 6);
    lemma_sum_by_rank(f, 7);
}

/// A sum over the board does not change when every square is read at its
/// mirror square.
pub proof fn lemma_sum_mirrored(f: spec_fn(int) -> int, g: spec_fn(int) -> int)
    requires
        forall|sq: int| 0 <= sq < 64 ==> #[trigger] g(sq) == f(mirror_square(sq)),
    ensures
        sum_below(g, 64) == sum_below(f, 64),
{
    lemma_sum_of_ranks(f);
    lemma_sum_of_ranks(g);
    assert forall|rank: int| 0 <= rank < 8 implies #[trigger] rank_sum(g, rank) == rank_sum(
        f,
        7 - rank,
    ) by {
        assert(g(8 * rank) == f(mirror_square(8 * rank)));
        assert(g(8 * rank + 1) == f(mirror_square(8 * rank + 1)));
        assert(g(8 * rank + 2) == f(mirror_square(8 * rank + 2)));
        assert(g(8 * rank + 3) == f(mirror_square(8 * rank + 3)));
        assert(g(8 * rank + 4) == f(mirror_square(8 * rank + 4)));
        assert(g(8 * rank + 5) == f(mirror_square(8 * rank + 5)));
        assert(g(8 * rank + 6) == f(mirror_square(8 * rank + 6)));
        assert(g(8 * rank + 7) == f(mirror_square(8 * rank + 7)));
    }
    assert(rank_sum(g, 0) == rank_sum(f, 7));
    assert(rank_sum(g, 1) == rank_sum(f, 6));
    assert(rank_sum(g, 2) == rank_sum(f, 5));
    assert(rank_sum(g, 3) == rank_sum(f, 4));
    assert(rank_sum(g, 4) == rank_sum(f, 3));
    assert(rank_sum(g, 5) == rank_sum(f, 2));
    assert(rank_sum(g, 6) == rank_sum(f, 1));
    assert(rank_sum(g, 7) == rank_sum(f, 0));
}

/// The material score is the sum of the piece scores.
proof fn lemma_material_is_sum(board: Board, n: int)
    ensures
        material_below(board, n) == sum_below(|sq: int| piece_score(board, sq), n),
    decreases n,
{
    if n > 0 {
        lemma_material_is_sum(board, n - 1);
    }
}

/// The count of knights, bishops, rooks and queens is a sum over the
/// squares.
proof fn lemma_officers_is_sum(board: Board, n: int)
    ensures
        officers_below(board, n) == sum_below(
            |sq: int|
                if is_officer(board.piece_on(sq)) {
                    1int
                } else {
                    0int
                },
            n,
        ),
    decreases n,
{
    if n > 0 {
        lemma_officers_is_sum(board, n - 1);
    }
}

/// A position and its mirror hold as many knights, bishops, rooks and
/// queens, so both are endgames or neither is.
pub proof fn lemma_endgame_mirrored(a: Board, b: Board)
    requires
        mirrors_pieces(a, b),
    ensures
        endgame(b) == endgame(a),
{
    let count_a = |sq: int|
        if is_officer(a.piece_on(sq)) {
            1int
        } else {
            0int
        };
    let count_b = |sq: int|
        if is_officer(b.piece_on(sq)) {
            1int
        } else {
            0int
        };
    let count_turned = |sq: int| count_b(mirror_square(sq));
    assert forall|sq: int| 0 <= sq < 64 implies #[trigger] count_turned(sq) == count_a(sq) by {
        assert(b.piece_on(mirror_square(sq)) == recolored(a.piece_on(sq)));
    }
    lemma_sum_mirrored(count_b, count_turned);
    lemma_sums_agree(count_turned, count_a, 64);
    lemma_officers_is_sum(a, 64);
    lemma_officers_is_sum(b, 64);
}

/// The piece on a square's mirror square is worth to the mover of the
/// mirrored position what the piece on the square costs the mover of the
/// position.
proof fn lemma_piece_score_mirrored(a: Board, b: Board, sq: int)
    requires
        a.side == b.side,
        mirrors_pieces(a, b),
        0 <= sq < 64,
    ensures
        piece_score(b, mirror_square(sq)) == -piece_score(a, sq),
{
    let turned = mirror_square(sq);
    lemma_mirror_square(sq);
    lemma_endgame_mirrored(a, b);
    assert(b.piece_on(turned) == recolored(a.piece_on(sq)));
    match a.piece_on(sq) {
        Some(p) => {
            let q = Piece { kind: p.kind, color: p.color.other() };
            assert(b.piece_on(turned) == Some(q));
            assert(table_index(turned, q.color) == table_index(sq, p.color));
            assert(table_of(b, q.kind) == table_of(a, p.kind));
        },
        None => {},
    }
}

/// The square `files` to the side and `ranks` up from a square has as its
/// mirror square the square as far to the side and as far down from the
/// mirror square, and lies on the board exactly if that one does.
proof fn lemma_mirror_step(sq: int, files: int, ranks: int)
    requires
        0 <= sq < 64,
        0 <= sq % 8 + files < 8,
        -1 <= ranks <= 1,
    ensures
        0 <= sq + 8 * ranks + files < 64 <==> 0 <= mirror_square(sq) - 8 * ranks + files < 64,
        0 <= sq + 8 * ranks + files < 64 ==> mirror_square(sq + 8 * ranks + files)
            == mirror_square(sq) - 8 * ranks + files,
{
    let rank = sq / 8;
    let file = sq % 8;
    assert(sq == 8 * rank + file);
    let to = sq + 8 * ranks + files;
    assert(to == 8 * (rank + ranks) + (file + files));
    if 0 <= rank + ranks < 8 {
        assert(to / 8 == rank + ranks);
        assert(to % 8 == file + files);
    }
}

/// A square holds a piece in a position exactly if its mirror square
/// holds the piece in the other colour in the mirrored position; squares
/// off the board hold nothing.
proof fn lemma_holds_mirrored(a: Board, b: Board, sq: int, turned: int, piece: Piece)
    requires
        mirrors_pieces(a, b),
        0 <= sq < 64 <==> 0 <= turned < 64,
        0 <= sq < 64 ==> turned == mirror_square(sq),
    ensures
        (a.piece_on(sq) == Some(piece)) == (b.piece_on(turned) == Some(
            Piece { kind: piece.kind, color: piece.color.other() },
        )),
{
    if 0 <= sq < 64 {
        assert(b.piece_on(mirror_square(sq)) == recolored(a.piece_on(sq)));
    } else {
        assert(a.piece_on(sq) is None);
        assert(b.piece_on(turned) is None);
    }
}

/// Whether a pawn attacks a square is seen alike from either end: a pawn
/// of one colour attacks a square of a position exactly if a pawn of the
/// other colour attacks the mirror square of the mirrored position.
proof fn lemma_pawn_attacks_mirrored(a: Board, b: Board, by: Color, sq: int)
    requires
        mirrors_pieces(a, b),
        0 <= sq < 64,
    ensures
        pawn_attacks(b, by.other(), mirror_square(sq)) == pawn_attacks(a, by, sq),
{
    let turned = mirror_square(sq);
    let pawn = Piece { kind: PieceKind::Pawn, color: by };
    lemma_mirror_square(sq);
    match by {
        Color::White => {
            if sq % 8 < 7 {
                lemma_mirror_step(sq, 1, -1);
                lemma_holds_mirrored(a, b, sq - 7, turned + 9, pawn);
            }
            if sq % 8 > 0 {
                lemma_mirror_step(sq, -1, -1);
                lemma_holds_mirrored(a, b, sq - 9, turned + 7, pawn);
            }
        },
        Color::Black => {
            if sq % 8 > 0 {
                lemma_mirror_step(sq, -1, 1);
                lemma_holds_mirrored(a, b, sq + 7, turned - 9, pawn);
            }
            if sq % 8 < 7 {
                lemma_mirror_step(sq, 1, 1);
                lemma_holds_mirrored(a, b, sq + 9, turned - 7, pawn);
            }
        },
    }
}

/// What a square earns one colour in mobility, its mirror square earns
/// the other colour in the mirrored position.
proof fn lemma_mobility_term_mirrored(a: Board, b: Board, color: Color, sq: int)
    requires
        mirrors_pieces(a, b),
        0 <= sq < 64,
    ensures
        mobility_term(b, color.other(), mirror_square(sq)) == mobility_term(a, color, sq),
{
    assert(b.piece_on(mirror_square(sq)) == recolored(a.piece_on(sq)));
    lemma_pawn_attacks_mirrored(a, b, color.other(), sq);
}

/// What a square earns one colour in centre control, its mirror square
/// earns the other colour in the mirrored position.
proof fn lemma_center_term_mirrored(a: Board, b: Board, color: Color, sq: int)
    requires
        mirrors_pieces(a, b),
        b.occupied() == flipped(a.occupied()),
        a.occupied() == flipped(b.occupied()),
        0 <= sq < 64,
    ensures
        center_term(b, color.other(), mirror_square(sq)) == center_term(a, color, sq),
{
    let turned = mirror_square(sq);
    lemma_mirror_square(sq);
    assert(b.piece_on(turned) == recolored(a.piece_on(sq)));
    match a.piece_on(sq) {
        Some(p) => {
            let q = Piece { kind: p.kind, color: p.color.other() };
            assert(seat(turned, q.color) == seat(sq, p.color));
            assert(sight(b, q.color) == sight(a, p.color));
            assert(knight_step(turned, 27) == knight_step(sq, 35));
            assert(knight_step(turned, 35) == knight_step(sq, 27));
            assert(knight_step(turned, 28) == knight_step(sq, 36));
            assert(knight_step(turned, 36) == knight_step(sq, 28));
            assert(attacks_center(b, q, turned) == attacks_center(a, p, sq));
        },
        None => {},
    }
}

/// Mobility is the sum of its terms.
proof fn lemma_mobility_is_sum(board: Board, color: Color, n: int)
    ensures
        mobility_below(board, color, n) == sum_below(
            |sq: int| mobility_term(board, color, sq),
            n,
        ),
    decreases n,
{
    if n > 0 {
        lemma_mobility_is_sum(board, color, n - 1);
    }
}

/// Centre control is the sum of its terms.
proof fn lemma_center_is_sum(board: Board, color: Color, n: int)
    ensures
        center_below(board, color, n) == sum_below(|sq: int| center_term(board, color, sq), n),
    decreases n,
{
    if n > 0 {
        lemma_center_is_sum(board, color, n - 1);
    }
}

/// The mobility and the centre control of a colour are those of the
/// other colour in the mirrored position.
proof fn lemma_positional_mirrored(a: Board, b: Board, color: Color)
    requires
        mirrors_pieces(a, b),
        b.occupied() == flipped(a.occupied()),
        a.occupied() == flipped(b.occupied()),
    ensures
        mobility_score(b, color.other()) == mobility_score(a, color),
        center_score(b, color.other()) == center_score(a, color),
{
    let other = color.other();
    let mob_a = |sq: int| mobility_term(a, color, sq);
    let mob_b = |sq: int| mobility_term(b, other, sq);
    let mob_turned = |sq: int| mob_b(mirror_square(sq));
    assert forall|sq: int| 0 <= sq < 64 implies #[trigger] mob_turned(sq) == mob_a(sq) by {
        lemma_mobility_term_mirrored(a, b, color, sq);
    }
    lemma_sum_mirrored(mob_b, mob_turned);
    lemma_sums_agree(mob_turned, mob_a, 64);
    lemma_mobility_is_sum(a, color, 64);
    lemma_mobility_is_sum(b, other, 64);

    let cen_a = |sq: int| center_term(a, color, sq);
    let cen_b = |sq: int| center_term(b, other, sq);
    let cen_turned = |sq: int| cen_b(mirror_square(sq));
    assert forall|sq: int| 0 <= sq < 64 implies #[trigger] cen_turned(sq) == cen_a(sq) by {
        lemma_center_term_mirrored(a, b, color, sq);
    }
    lemma_sum_mirrored(cen_b, cen_turned);
    lemma_sums_agree(cen_turned, cen_a, 64);
    lemma_center_is_sum(a, color, 64);
    lemma_center_is_sum(b, other, 64);
}

/// The material score is antisymmetric under mirroring.
proof fn lemma_material_mirrored(a: Board, b: Board)
    requires
        a.side == b.side,
        mirrors_pieces(a, b),
    ensures
        material_score(b) == -material_score(a),
{
    let score_a = |sq: int| piece_score(a, sq);
    let score_b = |sq: int| piece_score(b, sq);
    let score_turned = |sq: int| score_b(mirror_square(sq));
    let negated = |sq: int| -score_a(sq);
    assert forall|sq: int| 0 <= sq < 64 implies #[trigger] score_turned(sq) == negated(sq) by {
        lemma_piece_score_mirrored(a, b, sq);
    }
    lemma_sum_mirrored(score_b, score_turned);
    lemma_sums_agree(score_turned, negated, 64);
    lemma_sum_negated(score_a, negated, 64);
    lemma_material_is_sum(a, 64);
    lemma_material_is_sum(b, 64);
}

/// The static score is antisymmetric under mirroring: a position with the
/// colours swapped and the board turned end for end, the same player to
/// move, has the negated material score and the negated positional
/// terms, and so the negated static score wherever the window lets both
/// scores take the positional terms or lets neither. A window that holds
/// every material score with the margin to spare lets both.
pub proof fn lemma_static_mirrored(a: Board, b: Board, alpha: int, beta: int)
    requires
        is_mirror(a, b),
        sound(a),
    ensures
        material_score(b) == -material_score(a),
        positional_score(b) == -positional_score(a),
        within_margin(material_score(a), alpha, beta) == within_margin(
            -material_score(a),
            alpha,
            beta,
        ) ==> static_score(b, alpha, beta) == -static_score(a, alpha, beta),
        alpha < -64_000 + LAZY_MARGIN && beta > 64_000 + LAZY_MARGIN ==> static_score(
            b,
            alpha,
            beta,
        ) == -static_score(a, alpha, beta),
        alpha < -64_000 + LAZY_MARGIN && beta > 64_000 + LAZY_MARGIN && a.status_spec()
            == Status::Ongoing && b.status_spec() == Status::Ongoing ==> evaluation_spec(
            b,
            alpha,
            beta,
        ) == -evaluation_spec(a, alpha, beta),
{
    lemma_mirror_pieces(a, b);
    lemma_material_mirrored(a, b);
    lemma_positional_mirrored(a, b, Color::White);
    lemma_positional_mirrored(a, b, Color::Black);
    lemma_material_range(a, 64);
}

/// The material score of the squares below `n` lies within 1000 a square.
pub proof fn lemma_material_range(board: Board, n: int)
    requires
        0 <= n <= 64,
    ensures
        -1000 * n <= material_below(board, n) <= 1000 * n,
    decreases n,
{
    if n > 0 {
        lemma_material_range(board, n - 1);
        lemma_tables_in_range();
        let sq = n - 1;
        match board.piece_on(sq) {
            Some(piece) => {
                let at = table_index(sq, piece.color);
                assert(0 <= at < 64);
                assert(-100 <= table_of(board, piece.kind)[at] <= 100);
            },
            None => {},
        }
    }
}

/// Functions that agree on the squares below `n` have the same sum there.
proof fn lemma_sums_agree(f: spec_fn(int) -> int, g: spec_fn(int) -> int, n: int)
    requires
        n <= 64,
        forall|sq: int| 0 <= sq < 64 ==> #[trigger] f(sq) == g(sq),
    ensures
        sum_below(f, n) == sum_below(g, n),
    decreases n,
{
    if n > 0 {
        lemma_sums_agree(f, g, n - 1);
        assert(f(n - 1) == g(n - 1));
    }
}

/// The sum of a negated function is the negated sum.
proof fn lemma_sum_negated(f: spec_fn(int) -> int, g: spec_fn(int) -> int, n: int)
    requires
        forall|sq: int| #[trigger] g(sq) == -f(sq),
    ensures
        sum_below(g, n) == -sum_below(f, n),
    decreases n,
{
    if n > 0 {
        lemma_sum_negated(f, g, n - 1);
        assert(g(n - 1) == -f(n - 1));
    }
}

} // verus!
