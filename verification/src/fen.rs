//! Forsyth-Edwards notation: the text form in which a position is handed to
//! the rules library and to the tablebase prober.
use crate::board::{Board, CastleRights, Color, Piece, PieceKind};
use vstd::prelude::*;
use vstd::string::*;

verus! {

/// The letter of a piece: upper case for White, lower case for Black.
pub open spec fn piece_letter(piece: Piece) -> Seq<char> {
    match (piece.color, piece.kind) {
        (Color::White, PieceKind::Pawn) => "P"@,
        (Color::White, PieceKind::Knight) => "N"@,
        (Color::White, PieceKind::Bishop) => "B"@,
        (Color::White, PieceKind::Rook) => "R"@,
        (Color::White, PieceKind::Queen) => "Q"@,
        (Color::White, PieceKind::King) => "K"@,
        (Color::Black, PieceKind::Pawn) => "p"@,
        (Color::Black, PieceKind::Knight) => "n"@,
        (Color::Black, PieceKind::Bishop) => "b"@,
        (Color::Black, PieceKind::Rook) => "r"@,
        (Color::Black, PieceKind::Queen) => "q"@,
        (Color::Black, PieceKind::King) => "k"@,
    }
}

/// The digit for a run of empty squares; nothing for an empty run.
pub open spec fn run_text(run: int) -> Seq<char> {
    if run == 1 {
        "1"@
    } else if run == 2 {
        "2"@
    } else if run == 3 {
        "3"@
    } else if run == 4 {
        "4"@
    } else if run == 5 {
        "5"@
    } else if run == 6 {
        "6"@
    } else if run == 7 {
        "7"@
    } else if run == 8 {
        "8"@
    } else {
        Seq::empty()
    }
}

/// The text of one rank from `file` on, after `run` empty squares that are
/// not yet written out.
pub open spec fn rank_text(position: Board, rank: int, file: int, run: int) -> Seq<char>
    decreases 8 - file,
{
    if file >= 8 {
        run_text(run)
    } else {
        match position.piece_on(rank * 8 + file) {
            Some(piece) => run_text(run) + piece_letter(piece) + rank_text(
                position,
                rank,
                file + 1,
                0,
            ),
            None => rank_text(position, rank, file + 1, run + 1),
        }
    }
}

/// The text of the ranks from the eighth down to `rank` (counted from 0),
/// separated by slashes.
pub open spec fn ranks_text(position: Board, rank: int) -> Seq<char>
    decreases 8 - rank,
{
    if rank >= 7 {
        rank_text(position, 7, 0, 0)
    } else {
        ranks_text(position, rank + 1) + "/"@ + rank_text(position, rank, 0, 0)
    }
}

/// The letter of the player to move.
pub open spec fn side_text(side: Color) -> Seq<char> {
    match side {
        Color::White => "w"@,
        Color::Black => "b"@,
    }
}

/// The castling field: the letters of the rights that remain, White's
/// first, or a dash when none remain.
pub open spec fn castling_text(white: CastleRights, black: CastleRights) -> Seq<char> {
    if white == CastleRights::NoRights && black == CastleRights::NoRights {
        "-"@
    } else {
        (if white.king_side() {
            "K"@
        } else {
            Seq::empty()
        }) + (if white.queen_side() {
            "Q"@
        } else {
            Seq::empty()
        }) + (if black.king_side() {
            "k"@
        } else {
            Seq::empty()
        }) + (if black.queen_side() {
            "q"@
        } else {
            Seq::empty()
        })
    }
}

/// The letter of a file, counted from 0; files past the seventh read as h.
pub open spec fn file_text(file: int) -> Seq<char> {
    if file == 0 {
        "a"@
    } else if file == 1 {
        "b"@
    } else if file == 2 {
        "c"@
    } else if file == 3 {
        "d"@
    } else if file == 4 {
        "e"@
    } else if file == 5 {
        "f"@
    } else if file == 6 {
        "g"@
    } else {
        "h"@
    }
}

/// The en-passant field: a dash, or the square that the capturing pawn
/// would move to, which lies behind the pawn that advanced: on the sixth
/// rank when White is to move and on the third when Black is.
pub open spec fn en_passant_text(position: Board) -> Seq<char> {
    match position.en_passant {
        None => "-"@,
        Some(sq) => file_text((sq % 8) as int) + match position.side {
            Color::White => "6"@,
            Color::Black => "3"@,
        },
    }
}

/// The whole record: placement, player to move, castling rights,
/// en-passant square, and the two move counters, which are not tracked and
/// always read `0 1`.
pub open spec fn fen_text(position: Board) -> Seq<char> {
    ranks_text(position, 0) + " "@ + side_text(position.side) + " "@ + castling_text(
        position.castles[0],
        position.castles[1],
    ) + " "@ + en_passant_text(position) + " 0 1"@
}

fn push_run(text: &mut String, run: u8)
    ensures
        final(text)@ == old(text)@ + run_text(run as int),
{
    if run == 1 {
        text.append("1");
    } else if run == 2 {
        text.append("2");
    } else if run == 3 {
        text.append("3");
    } else if run == 4 {
        text.append("4");
    } else if run == 5 {
        text.append("5");
    } else if run == 6 {
        text.append("6");
    } else if run == 7 {
        text.append("7");
    } else if run == 8 {
        text.append("8");
    } else {
        assert(text@ + Seq::<char>::empty() =~= text@);
    }
}

fn push_piece(text: &mut String, piece: Piece)
    ensures
        final(text)@ == old(text)@ + piece_letter(piece),
{
    match (piece.color, piece.kind) {
        (Color::White, PieceKind::Pawn) => text.append("P"),
        (Color::White, PieceKind::Knight) => text.append("N"),
        (Color::White, PieceKind::Bishop) => text.append("B"),
        (Color::White, PieceKind::Rook) => text.append("R"),
        (Color::White, PieceKind::Queen) => text.append("Q"),
        (Color::White, PieceKind::King) => text.append("K"),
        (Color::Black, PieceKind::Pawn) => text.append("p"),
        (Color::Black, PieceKind::Knight) => text.append("n"),
        (Color::Black, PieceKind::Bishop) => text.append("b"),
        (Color::Black, PieceKind::Rook) => text.append("r"),
        (Color::Black, PieceKind::Queen) => text.append("q"),
        (Color::Black, PieceKind::King) => text.append("k"),
    }
}

fn push_castling(text: &mut String, white: CastleRights, black: CastleRights)
    ensures
        final(text)@ == old(text)@ + castling_text(white, black),
{
    let ghost start = text@;
    if white == CastleRights::NoRights && black == CastleRights::NoRights {
        text.append("-");
        return ;
    }
    if white == CastleRights::KingSide || white == CastleRights::Both {
        text.append("K");
    }
    if white == CastleRights::QueenSide || white == CastleRights::Both {
        text.append("Q");
    }
    if black == CastleRights::KingSide || black == CastleRights::Both {
        text.append("k");
    }
    if black == CastleRights::QueenSide || black == CastleRights::Both {
        text.append("q");
    }
    assert(text@ =~= start + castling_text(white, black));
}

fn push_file(text: &mut String, file: u8)
    ensures
        final(text)@ == old(text)@ + file_text(file as int),
{
    if file == 0 {
        text.append("a");
    } else if file == 1 {
        text.append("b");
    } else if file == 2 {
        text.append("c");
    } else if file == 3 {
        text.append("d");
    } else if file == 4 {
        text.append("e");
    } else if file == 5 {
        text.append("f");
    } else if file == 6 {
        text.append("g");
    } else {
        text.append("h");
    }
}

fn push_en_passant(text: &mut String, position: &Board)
    ensures
        final(text)@ == old(text)@ + en_passant_text(*position),
{
    let ghost start = text@;
    match position.en_passant {
        None => text.append("-"),
        Some(sq) => {
            push_file(text, sq % 8);
            match position.side {
                Color::White => text.append("6"),
                Color::Black => text.append("3"),
            }
            assert(text@ =~= start + en_passant_text(*position));
        },
    }
}

fn push_rank(text: &mut String, position: &Board, rank: u8)
    requires
        rank < 8,
    ensures
        final(text)@ == old(text)@ + rank_text(*position, rank as int, 0, 0),
{
    let ghost start = text@;
    let mut file: u8 = 0;
    let mut run: u8 = 0;
    while file < 8
        invariant
            rank < 8,
            file <= 8,
            run <= file,
            text@ + rank_text(*position, rank as int, file as int, run as int) == start
                + rank_text(*position, rank as int, 0, 0),
        decreases 8 - file,
    {
        let ghost before = text@;
        let ghost pending = rank_text(*position, rank as int, file as int, run as int);
        match position.piece_at(rank * 8 + file) {
            Some(piece) => {
                push_run(text, run);
                push_piece(text, piece);
                run = 0;
                assert(text@ + rank_text(*position, rank as int, file as int + 1, 0) =~= before
                    + pending);
            },
            None => {
                run = run + 1;
            },
        }
        file = file + 1;
    }
    push_run(text, run);
}

/// Writes a position in Forsyth-Edwards notation.
pub fn board_to_fen(position: &Board) -> (text: String)
    ensures
        text@ == fen_text(*position),
{
    let mut text = String::new();
    push_rank(&mut text, position, 7);
    assert(text@ =~= ranks_text(*position, 7));
    let mut rank: u8 = 7;
    while rank > 0
        invariant
            rank <= 7,
            text@ == ranks_text(*position, rank as int),
        decreases rank,
    {
        rank = rank - 1;
        text.append("/");
        push_rank(&mut text, position, rank);
    }
    text.append(" ");
    match position.side {
        Color::White => text.append("w"),
        Color::Black => text.append("b"),
    }
    text.append(" ");
    push_castling(&mut text, position.castles[0], position.castles[1]);
    text.append(" ");
    push_en_passant(&mut text, position);
    text.append(" 0 1");
    text
}

/// Where the reader of a record stands.
#[derive(Clone, Copy, Debug, PartialEq, Eq, Structural)]
pub enum Stage {
    /// In the placement field.
    Placement,
    /// Before the letter of the player to move.
    Side,
    /// After the letter of the player to move.
    SideRead,
    /// At the start of the castling field.
    Castling,
    /// After the dash of the castling field.
    CastlingNone,
    /// After a letter of the castling field.
    CastlingSome,
    /// At the start of the en-passant field.
    EnPassant,
    /// After the dash of the en-passant field.
    EnPassantNone,
    /// After the file letter of the en-passant field.
    EnPassantFile,
    /// After the rank digit of the en-passant field.
    EnPassantSquare,
    /// Past the four fields that are read; the rest is skipped.
    Rest,
    /// The text is no record.
    Failed,
}

/// What the reader has gathered so far.
#[derive(Clone, Copy, Debug)]
pub struct Reader {
    pub stage: Stage,
    /// The rank being filled, from 7 down to 0.
    pub rank: u8,
    /// The number of files of that rank filled so far.
    pub file: u8,
    pub pieces: [u64; 6],
    pub colors: [u64; 2],
    pub side: Color,
    /// The castling letters seen: K, Q, k, q.
    pub castling: [bool; 4],
    /// The file of the en-passant square.
    pub en_passant: Option<u8>,
}

/// The piece that a letter of the placement field stands for.
pub open spec fn letter_piece(c: char) -> Option<Piece> {
    if c == 'P' {
        Some(Piece { kind: PieceKind::Pawn, color: Color::White })
    } else if c == 'N' {
        Some(Piece { kind: PieceKind::Knight, color: Color::White })
    } else if c == 'B' {
        Some(Piece { kind: PieceKind::Bishop, color: Color::White })
    } else if c == 'R' {
        Some(Piece { kind: PieceKind::Rook, color: Color::White })
    } else if c == 'Q' {
        Some(Piece { kind: PieceKind::Queen, color: Color::White })
    } else if c == 'K' {
        Some(Piece { kind: PieceKind::King, color: Color::White })
    } else if c == 'p' {
        Some(Piece { kind: PieceKind::Pawn, color: Color::Black })
    } else if c == 'n' {
        Some(Piece { kind: PieceKind::Knight, color: Color::Black })
    } else if c == 'b' {
        Some(Piece { kind: PieceKind::Bishop, color: Color::Black })
    } else if c == 'r' {
        Some(Piece { kind: PieceKind::Rook, color: Color::Black })
    } else if c == 'q' {
        Some(Piece { kind: PieceKind::Queen, color: Color::Black })
    } else if c == 'k' {
        Some(Piece { kind: PieceKind::King, color: Color::Black })
    } else {
        None
    }
}

/// The number that a digit from 1 to 8 stands for.
pub open spec fn digit_value(c: char) -> Option<u8> {
    if c == '1' {
        Some(1u8)
    } else if c == '2' {
        Some(2u8)
    } else if c == '3' {
        Some(3u8)
    } else if c == '4' {
        Some(4u8)
    } else if c == '5' {
        Some(5u8)
    } else if c == '6' {
        Some(6u8)
    } else if c == '7' {
        Some(7u8)
    } else if c == '8' {
        Some(8u8)
    } else {
        None
    }
}

/// The file that a letter from a to h stands for.
pub open spec fn file_value(c: char) -> Option<u8> {
    if c == 'a' {
        Some(0u8)
    } else if c == 'b' {
        Some(1u8)
    } else if c == 'c' {
        Some(2u8)
    } else if c == 'd' {
        Some(3u8)
    } else if c == 'e' {
        Some(4u8)
    } else if c == 'f' {
        Some(5u8)
    } else if c == 'g' {
        Some(6u8)
    } else if c == 'h' {
        Some(7u8)
    } else {
        None
    }
}

/// The place of a castling letter among K, Q, k, q.
pub open spec fn castling_value(c: char) -> Option<u8> {
    if c == 'K' {
        Some(0u8)
    } else if c == 'Q' {
        Some(1u8)
    } else if c == 'k' {
        Some(2u8)
    } else if c == 'q' {
        Some(3u8)
    } else {
        None
    }
}

/// The reader before the first character.
pub open spec fn reader_start() -> Reader {
    Reader {
        stage: Stage::Placement,
        rank: 7,
        file: 0,
        pieces: [0u64, 0u64, 0u64, 0u64, 0u64, 0u64],
        colors: [0u64, 0u64],
        side: Color::White,
        castling: [false, false, false, false],
        en_passant: None,
    }
}

/// A set of squares with one square added.
pub open spec fn with_square(squares: u64, sq: u8) -> u64 {
    squares | (1u64 << (sq as u64))
}

/// The square sets by kind with a square added to the set of one kind.
pub open spec fn with_kind(pieces: [u64; 6], kind: PieceKind, sq: u8) -> [u64; 6] {
    [
        if kind == PieceKind::Pawn {
            with_square(pieces[0], sq)
        } else {
            pieces[0]
        },
        if kind == PieceKind::Knight {
            with_square(pieces[1], sq)
        } else {
            pieces[1]
        },
        if kind == PieceKind::Bishop {
            with_square(pieces[2], sq)
        } else {
            pieces[2]
        },
        if kind == PieceKind::Rook {
            with_square(pieces[3], sq)
        } else {
            pieces[3]
        },
        if kind == PieceKind::Queen {
            with_square(pieces[4], sq)
        } else {
            pieces[4]
        },
        if kind == PieceKind::King {
            with_square(pieces[5], sq)
        } else {
            pieces[5]
        },
    ]
}

/// The square sets by colour with a square added to the set of one colour.
pub open spec fn with_color(colors: [u64; 2], color: Color, sq: u8) -> [u64; 2] {
    [
        if color == Color::White {
            with_square(colors[0], sq)
        } else {
            colors[0]
        },
        if color == Color::Black {
            with_square(colors[1], sq)
        } else {
            colors[1]
        },
    ]
}

/// The castling letters seen, with one more.
pub open spec fn with_letter(castling: [bool; 4], place: u8) -> [bool; 4] {
    [
        castling[0] || place == 0,
        castling[1] || place == 1,
        castling[2] || place == 2,
        castling[3] || place == 3,
    ]
}

/// The reader stopped on a text that is no record.
pub open spec fn reader_failed(reader: Reader) -> Reader {
    Reader { stage: Stage::Failed, ..reader }
}

/// The reader moved to another stage.
pub open spec fn reader_at(reader: Reader, stage: Stage) -> Reader {
    Reader { stage, ..reader }
}

/// The reader after a character of the placement field: a piece letter
/// fills one file, a digit skips as many files as it says, a slash closes
/// a full rank and opens the next one down, and a blank closes the field
/// once the first rank is full.
pub open spec fn read_placement(reader: Reader, c: char) -> Reader {
    if c == ' ' {
        if reader.rank == 0 && reader.file == 8 {
            reader_at(reader, Stage::Side)
        } else {
            reader_failed(reader)
        }
    } else if c == '/' {
        if reader.rank > 0 && reader.file == 8 {
            Reader { rank: (reader.rank - 1) as u8, file: 0, ..reader }
        } else {
            reader_failed(reader)
        }
    } else if digit_value(c) is Some {
        if reader.file + digit_value(c).unwrap() <= 8 {
            Reader { file: (reader.file + digit_value(c).unwrap()) as u8, ..reader }
        } else {
            reader_failed(reader)
        }
    } else if letter_piece(c) is Some {
        if reader.rank < 8 && reader.file < 8 {
            let piece = letter_piece(c).unwrap();
            let sq = (reader.rank * 8 + reader.file) as u8;
            Reader {
                file: (reader.file + 1) as u8,
                pieces: with_kind(reader.pieces, piece.kind, sq),
                colors: with_color(reader.colors, piece.color, sq),
                ..reader
            }
        } else {
            reader_failed(reader)
        }
    } else {
        reader_failed(reader)
    }
}

/// The reader after a character of the fields behind the placement. The
/// player to move is `w` or `b`. The castling field is a dash or some of
/// the letters K, Q, k and q, none of them twice. The en-passant field is
/// a dash or a file letter and a rank digit. Fields are parted by one
/// blank, and whatever follows the fourth field is skipped.
pub open spec fn read_tail(reader: Reader, c: char) -> Reader {
    match reader.stage {
        Stage::Side => if c == 'w' {
            Reader { stage: Stage::SideRead, side: Color::White, ..reader }
        } else if c == 'b' {
            Reader { stage: Stage::SideRead, side: Color::Black, ..reader }
        } else {
            reader_failed(reader)
        },
        Stage::SideRead => if c == ' ' {
            reader_at(reader, Stage::Castling)
        } else {
            reader_failed(reader)
        },
        Stage::Castling => if c == '-' {
            reader_at(reader, Stage::CastlingNone)
        } else if castling_value(c) is Some {
            Reader {
                stage: Stage::CastlingSome,
                castling: with_letter(reader.castling, castling_value(c).unwrap()),
                ..reader
            }
        } else {
            reader_failed(reader)
        },
        Stage::CastlingNone => if c == ' ' {
            reader_at(reader, Stage::EnPassant)
        } else {
            reader_failed(reader)
        },
        Stage::CastlingSome => if c == ' ' {
            reader_at(reader, Stage::EnPassant)
        } else if castling_value(c) is Some && !reader.castling[castling_value(c).unwrap() as int] {
            Reader {
                castling: with_letter(reader.castling, castling_value(c).unwrap()),
                ..reader
            }
        } else {
            reader_failed(reader)
        },
        Stage::EnPassant => if c == '-' {
            reader_at(reader, Stage::EnPassantNone)
        } else if file_value(c) is Some {
            Reader { stage: Stage::EnPassantFile, en_passant: file_value(c), ..reader }
        } else {
            reader_failed(reader)
        },
        Stage::EnPassantNone => if c == ' ' {
            reader_at(reader, Stage::Rest)
        } else {
            reader_failed(reader)
        },
        Stage::EnPassantFile => if digit_value(c) is Some {
            reader_at(reader, Stage::EnPassantSquare)
        } else {
            reader_failed(reader)
        },
        Stage::EnPassantSquare => if c == ' ' {
            reader_at(reader, Stage::Rest)
        } else {
            reader_failed(reader)
        },
        _ => reader,
    }
}

/// The reader after one more character.
pub open spec fn read_char(reader: Reader, c: char) -> Reader {
    if reader.stage == Stage::Placement {
        read_placement(reader, c)
    } else {
        read_tail(reader, c)
    }
}

/// The reader after the first `n` characters of a text.
pub open spec fn read_prefix(text: Seq<char>, n: int) -> Reader
    decreases n,
{
    if n <= 0 {
        reader_start()
    } else {
        read_char(read_prefix(text, n - 1), text[n - 1])
    }
}

/// The castling rights that two letters of one colour give.
pub open spec fn rights_of(king_side: bool, queen_side: bool) -> CastleRights {
    if king_side && queen_side {
        CastleRights::Both
    } else if king_side {
        CastleRights::KingSide
    } else if queen_side {
        CastleRights::QueenSide
    } else {
        CastleRights::NoRights
    }
}

/// The square of the pawn that can be captured in passing on a file: on
/// the fifth rank when White is to move, on the fourth when Black is.
pub open spec fn passed_pawn_square(side: Color, file: u8) -> u8 {
    match side {
        Color::White => (32 + file) as u8,
        Color::Black => (24 + file) as u8,
    }
}

/// What a reader that has come to the end of a text has read: a board, if
/// the text went on at least to the end of its en-passant field. Who gives
/// check and the hash are not part of a record and read as 0.
pub open spec fn reader_board(reader: Reader) -> Option<Board> {
    if reader.stage == Stage::EnPassantNone || reader.stage == Stage::EnPassantSquare
        || reader.stage == Stage::Rest {
        Some(
            Board {
                pieces: reader.pieces,
                colors: reader.colors,
                side: reader.side,
                castles: [
                    rights_of(reader.castling[0], reader.castling[1]),
                    rights_of(reader.castling[2], reader.castling[3]),
                ],
                en_passant: match reader.en_passant {
                    Some(file) => Some(passed_pawn_square(reader.side, file)),
                    None => None,
                },
                checkers: 0,
                hash: 0,
            },
        )
    } else {
        None
    }
}

/// The board that a record describes, or `None` where the text is no
/// record: eight ranks of eight files each, the player to move, the
/// castling rights and the en-passant square.
pub open spec fn read_record(text: Seq<char>) -> Option<Board> {
    reader_board(read_prefix(text, text.len() as int))
}

fn piece_of_letter(c: char) -> (piece: Option<Piece>)
    ensures
        piece == letter_piece(c),
{
    if c == 'P' {
        Some(Piece { kind: PieceKind::Pawn, color: Color::White })
    } else if c == 'N' {
        Some(Piece { kind: PieceKind::Knight, color: Color::White })
    } else if c == 'B' {
        Some(Piece { kind: PieceKind::Bishop, color: Color::White })
    } else if c == 'R' {
        Some(Piece { kind: PieceKind::Rook, color: Color::White })
    } else if c == 'Q' {
        Some(Piece { kind: PieceKind::Queen, color: Color::White })
    } else if c == 'K' {
        Some(Piece { kind: PieceKind::King, color: Color::White })
    } else if c == 'p' {
        Some(Piece { kind: PieceKind::Pawn, color: Color::Black })
    } else if c == 'n' {
        Some(Piece { kind: PieceKind::Knight, color: Color::Black })
    } else if c == 'b' {
        Some(Piece { kind: PieceKind::Bishop, color: Color::Black })
    } else if c == 'r' {
        Some(Piece { kind: PieceKind::Rook, color: Color::Black })
    } else if c == 'q' {
        Some(Piece { kind: PieceKind::Queen, color: Color::Black })
    } else if c == 'k' {
        Some(Piece { kind: PieceKind::King, color: Color::Black })
    } else {
        None
    }
}

fn value_of_digit(c: char) -> (value: Option<u8>)
    ensures
        value == digit_value(c),
        value matches Some(v) ==> 1 <= v <= 8,
{
    if c == '1' {
        Some(1)
    } else if c == '2' {
        Some(2)
    } else if c == '3' {
        Some(3)
    } else if c == '4' {
        Some(4)
    } else if c == '5' {
        Some(5)
    } else if c == '6' {
        Some(6)
    } else if c == '7' {
        Some(7)
    } else if c == '8' {
        Some(8)
    } else {
        None
    }
}

fn value_of_file(c: char) -> (value: Option<u8>)
    ensures
        value == file_value(c),
        value matches Some(v) ==> v < 8,
{
    if c == 'a' {
        Some(0)
    } else if c == 'b' {
        Some(1)
    } else if c == 'c' {
        Some(2)
    } else if c == 'd' {
        Some(3)
    } else if c == 'e' {
        Some(4)
    } else if c == 'f' {
        Some(5)
    } else if c == 'g' {
        Some(6)
    } else if c == 'h' {
        Some(7)
    } else {
        None
    }
}

fn value_of_castling(c: char) -> (value: Option<u8>)
    ensures
        value == castling_value(c),
        value matches Some(v) ==> v < 4,
{
    if c == 'K' {
        Some(0)
    } else if c == 'Q' {
        Some(1)
    } else if c == 'k' {
        Some(2)
    } else if c == 'q' {
        Some(3)
    } else {
        None
    }
}

fn add_square(squares: u64, sq: u8) -> (r: u64)
    requires
        sq < 64,
    ensures
        r == with_square(squares, sq),
{
    squares | (1u64 << (sq as u64))
}

fn fail(reader: &Reader) -> (r: Reader)
    ensures
        r == reader_failed(*reader),
{
    move_to(reader, Stage::Failed)
}

fn move_to(reader: &Reader, stage: Stage) -> (r: Reader)
    ensures
        r == reader_at(*reader, stage),
{
    Reader {
        stage,
        rank: reader.rank,
        file: reader.file,
        pieces: reader.pieces,
        colors: reader.colors,
        side: reader.side,
        castling: reader.castling,
        en_passant: reader.en_passant,
    }
}

fn step_placement(reader: &Reader, c: char) -> (r: Reader)
    requires
        reader.rank < 8,
        reader.file <= 8,
    ensures
        r == read_placement(*reader, c),
        r.rank < 8,
        r.file <= 8,
        r.en_passant == reader.en_passant,
{
    let mut next = *reader;
    if c == ' ' {
        if reader.rank == 0 && reader.file == 8 {
            return move_to(reader, Stage::Side);
        }
        return fail(reader);
    }
    if c == '/' {
        if reader.rank > 0 && reader.file == 8 {
            next.rank = reader.rank - 1;
            next.file = 0;
            return next;
        }
        return fail(reader);
    }
    match value_of_digit(c) {
        Some(run) => {
            if reader.file + run <= 8 {
                next.file = reader.file + run;
                return next;
            }
            return fail(reader);
        },
        None => {},
    }
    match piece_of_letter(c) {
        Some(piece) => {
            if reader.file < 8 {
                let sq = reader.rank * 8 + reader.file;
                let p = reader.pieces;
                let k = piece.kind;
                next.file = reader.file + 1;
                next.pieces = [
                    if k == PieceKind::Pawn {
                        add_square(p[0], sq)
                    } else {
                        p[0]
                    },
                    if k == PieceKind::Knight {
                        add_square(p[1], sq)
                    } else {
                        p[1]
                    },
                    if k == PieceKind::Bishop {
                        add_square(p[2], sq)
                    } else {
                        p[2]
                    },
                    if k == PieceKind::Rook {
                        add_square(p[3], sq)
                    } else {
                        p[3]
                    },
                    if k == PieceKind::Queen {
                        add_square(p[4], sq)
                    } else {
                        p[4]
                    },
                    if k == PieceKind::King {
                        add_square(p[5], sq)
                    } else {
                        p[5]
                    },
                ];
                next.colors = [
                    if piece.color == Color::White {
                        add_square(reader.colors[0], sq)
                    } else {
                        reader.colors[0]
                    },
                    if piece.color == Color::Black {
                        add_square(reader.colors[1], sq)
                    } else {
                        reader.colors[1]
                    },
                ];
                return next;
            }
            fail(reader)
        },
        None => fail(reader),
    }
}

fn step_tail(reader: &Reader, c: char) -> (r: Reader)
    requires
        reader.stage != Stage::Placement,
    ensures
        r == read_tail(*reader, c),
        r.stage != Stage::Placement,
        r.rank == reader.rank,
        r.file == reader.file,
        (reader.en_passant matches Some(f) ==> f < 8) ==> (r.en_passant matches Some(f) ==> f < 8),
{
    let mut next = *reader;
    match reader.stage {
        Stage::Side => {
            if c == 'w' {
                next.stage = Stage::SideRead;
                next.side = Color::White;
                next
            } else if c == 'b' {
                next.stage = Stage::SideRead;
                next.side = Color::Black;
                next
            } else {
                fail(reader)
            }
        },
        Stage::SideRead => if c == ' ' {
            move_to(reader, Stage::Castling)
        } else {
            fail(reader)
        },
        Stage::Castling => {
            if c == '-' {
                return move_to(reader, Stage::CastlingNone);
            }
            match value_of_castling(c) {
                Some(place) => {
                    let seen = reader.castling;
                    next.stage = Stage::CastlingSome;
                    next.castling = [
                        seen[0] || place == 0,
                        seen[1] || place == 1,
                        seen[2] || place == 2,
                        seen[3] || place == 3,
                    ];
                    next
                },
                None => fail(reader),
            }
        },
        Stage::CastlingNone => if c == ' ' {
            move_to(reader, Stage::EnPassant)
        } else {
            fail(reader)
        },
        Stage::CastlingSome => {
            if c == ' ' {
                return move_to(reader, Stage::EnPassant);
            }
            match value_of_castling(c) {
                Some(place) => {
                    let seen = reader.castling;
                    if seen[place as usize] {
                        return fail(reader);
                    }
                    next.castling = [
                        seen[0] || place == 0,
                        seen[1] || place == 1,
                        seen[2] || place == 2,
                        seen[3] || place == 3,
                    ];
                    next
                },
                None => fail(reader),
            }
        },
        Stage::EnPassant => {
            if c == '-' {
                return move_to(reader, Stage::EnPassantNone);
            }
            match value_of_file(c) {
                Some(file) => {
                    next.stage = Stage::EnPassantFile;
                    next.en_passant = Some(file);
                    next
                },
                None => fail(reader),
            }
        },
        Stage::EnPassantNone => if c == ' ' {
            move_to(reader, Stage::Rest)
        } else {
            fail(reader)
        },
        Stage::EnPassantFile => match value_of_digit(c) {
            Some(_) => move_to(reader, Stage::EnPassantSquare),
            None => fail(reader),
        },
        Stage::EnPassantSquare => if c == ' ' {
            move_to(reader, Stage::Rest)
        } else {
            fail(reader)
        },
        _ => next,
    }
}

/// Reads a record in Forsyth-Edwards notation. Who gives check and the
/// hash are left at 0: the rules library supplies them.
pub fn parse_record(text: &str) -> (board: Option<Board>)
    ensures
        board == read_record(text@),
{
    let n = text.unicode_len();
    let mut reader = Reader {
        stage: Stage::Placement,
        rank: 7,
        file: 0,
        pieces: [0, 0, 0, 0, 0, 0],
        colors: [0, 0],
        side: Color::White,
        castling: [false, false, false, false],
        en_passant: None,
    };
    let mut i: usize = 0;
    while i < n
        invariant
            n == text@.len(),
            i <= n,
            reader == read_prefix(text@, i as int),
            reader.rank < 8,
            reader.file <= 8,
            reader.en_passant matches Some(f) ==> f < 8,
        decreases n - i,
    {
        let c = text.get_char(i);
        reader = if reader.stage == Stage::Placement {
            step_placement(&reader, c)
        } else {
            step_tail(&reader, c)
        };
        i = i + 1;
    }
    if reader.stage == Stage::EnPassantNone || reader.stage == Stage::EnPassantSquare
        || reader.stage == Stage::Rest {
        let en_passant = match reader.en_passant {
            Some(file) => match reader.side {
                Color::White => Some(32 + file),
                Color::Black => Some(24 + file),
            },
            None => None,
        };
        Some(
            Board {
                pieces: reader.pieces,
                colors: reader.colors,
                side: reader.side,
                castles: [
                    rights(reader.castling[0], reader.castling[1]),
                    rights(reader.castling[2], reader.castling[3]),
                ],
                en_passant,
                checkers: 0,
                hash: 0,
            },
        )
    } else {
        None
    }
}

fn rights(king_side: bool, queen_side: bool) -> (r: CastleRights)
    ensures
        r == rights_of(king_side, queen_side),
{
    if king_side && queen_side {
        CastleRights::Both
    } else if king_side {
        CastleRights::KingSide
    } else if queen_side {
        CastleRights::QueenSide
    } else {
        CastleRights::NoRights
    }
}

} // verus!
