//! Reading and writing agree: the reader reads from the record of a board
//! the pieces, the mover, the castling rights and the file of the capture
//! in passing that the board has.
use crate::board::{has_bit, Board, CastleRights, Color, Piece, PieceKind};
use crate::fen::{
    castling_text, castling_value, digit_value, en_passant_text, fen_text, file_text, file_value,
    letter_piece, passed_pawn_square, piece_letter, rank_text, ranks_text, read_char,
    read_prefix, read_record, reader_board, reader_start, rights_of, run_text, side_text,
    with_color, with_kind, with_square, Reader, Stage,
};
use vstd::prelude::*;

verus! {

/// The reader after the first `n` characters of a text, starting from a
/// given reader.
pub open spec fn read_from(reader: Reader, text: Seq<char>, n: int) -> Reader
    decreases n,
{
    if n <= 0 {
        reader
    } else {
        read_char(read_from(reader, text, n - 1), text[n - 1])
    }
}

/// The reader after a whole text, starting from a given reader.
pub open spec fn reads(reader: Reader, text: Seq<char>) -> Reader {
    read_from(reader, text, text.len() as int)
}

/// Reading from the start is reading from the reader at the start.
pub proof fn lemma_read_prefix(text: Seq<char>, n: int)
    ensures
        read_prefix(text, n) == read_from(reader_start(), text, n),
    decreases n,
{
    if n > 0 {
        lemma_read_prefix(text, n - 1);
    }
}

/// Texts that agree on their first `n` characters are read alike that far.
pub proof fn lemma_read_agrees(reader: Reader, s: Seq<char>, t: Seq<char>, n: int)
    requires
        n <= s.len(),
        n <= t.len(),
        forall|i: int| 0 <= i < n ==> s[i] == t[i],
    ensures
        read_from(reader, s, n) == read_from(reader, t, n),
    decreases n,
{
    if n > 0 {
        lemma_read_agrees(reader, s, t, n - 1);
    }
}

/// Reading two texts on end is reading the second from where the first
/// has led.
pub proof fn lemma_reads_both(reader: Reader, s: Seq<char>, t: Seq<char>)
    ensures
        reads(reader, s + t) == reads(reads(reader, s), t),
    decreases t.len(),
{
    if t.len() == 0 {
        assert(s + t =~= s);
    } else {
        let shorter = t.drop_last();
        let n = (s + t).len() as int;
        lemma_reads_both(reader, s, shorter);
        lemma_read_agrees(reader, s + t, s + shorter, n - 1);
        lemma_read_agrees(reads(reader, s), t, shorter, t.len() - 1);
        assert((s + t)[n - 1] == t[t.len() - 1]);
    }
}

/// Reading one character is one step of the reader.
pub proof fn lemma_reads_one(reader: Reader, c: char)
    ensures
        reads(reader, seq![c]) == read_char(reader, c),
{
    reveal_with_fuel(read_from, 2);
    assert(seq![c][0] == c);
}

/// Reading nothing leaves the reader as it is.
pub proof fn lemma_reads_nothing(reader: Reader)
    ensures
        reads(reader, Seq::empty()) == reader,
{
}

/// The character that stands for a piece.
pub open spec fn letter_of(piece: Piece) -> char {
    match (piece.color, piece.kind) {
        (Color::White, PieceKind::Pawn) => 'P',
        (Color::White, PieceKind::Knight) => 'N',
        (Color::White, PieceKind::Bishop) => 'B',
        (Color::White, PieceKind::Rook) => 'R',
        (Color::White, PieceKind::Queen) => 'Q',
        (Color::White, PieceKind::King) => 'K',
        (Color::Black, PieceKind::Pawn) => 'p',
        (Color::Black, PieceKind::Knight) => 'n',
        (Color::Black, PieceKind::Bishop) => 'b',
        (Color::Black, PieceKind::Rook) => 'r',
        (Color::Black, PieceKind::Queen) => 'q',
        (Color::Black, PieceKind::King) => 'k',
    }
}

/// The letter written for a piece is one character, which the reader
/// takes for that piece and for nothing else.
pub proof fn lemma_letter(piece: Piece)
    ensures
        piece_letter(piece) == seq![letter_of(piece)],
        letter_piece(letter_of(piece)) == Some(piece),
        digit_value(letter_of(piece)) is None,
        letter_of(piece) != ' ',
        letter_of(piece) != '/',
{
    reveal_strlit("P");
    reveal_strlit("N");
    reveal_strlit("B");
    reveal_strlit("R");
    reveal_strlit("Q");
    reveal_strlit("K");
    reveal_strlit("p");
    reveal_strlit("n");
    reveal_strlit("b");
    reveal_strlit("r");
    reveal_strlit("q");
    reveal_strlit("k");
    assert(piece_letter(piece) =~= seq![letter_of(piece)]);
}

/// The digit that stands for a run of empty squares.
pub open spec fn digit_of(run: int) -> char {
    if run == 1 {
        '1'
    } else if run == 2 {
        '2'
    } else if run == 3 {
        '3'
    } else if run == 4 {
        '4'
    } else if run == 5 {
        '5'
    } else if run == 6 {
        '6'
    } else if run == 7 {
        '7'
    } else {
        '8'
    }
}

/// The digit written for a run of empty squares is one character, which
/// the reader takes for the length of the run.
pub proof fn lemma_run(run: int)
    requires
        1 <= run <= 8,
    ensures
        run_text(run) == seq![digit_of(run)],
        digit_value(digit_of(run)) == Some(run as u8),
        digit_of(run) != ' ',
        digit_of(run) != '/',
{
    reveal_strlit("1");
    reveal_strlit("2");
    reveal_strlit("3");
    reveal_strlit("4");
    reveal_strlit("5");
    reveal_strlit("6");
    reveal_strlit("7");
    reveal_strlit("8");
    assert(run_text(run) =~= seq![digit_of(run)]);
}

/// The board that a reader has gathered, as far as pieces go.
pub open spec fn gathered(reader: Reader) -> Board {
    Board {
        pieces: reader.pieces,
        colors: reader.colors,
        side: Color::White,
        castles: [CastleRights::NoRights, CastleRights::NoRights],
        en_passant: None,
        checkers: 0,
        hash: 0,
    }
}

/// Whether a reader has marked a square in any of its sets.
pub open spec fn marked(reader: Reader, sq: int) -> bool {
    has_bit(reader.pieces[0], sq) || has_bit(reader.pieces[1], sq) || has_bit(
        reader.pieces[2],
        sq,
    ) || has_bit(reader.pieces[3], sq) || has_bit(reader.pieces[4], sq) || has_bit(
        reader.pieces[5],
        sq,
    ) || has_bit(reader.colors[0], sq) || has_bit(reader.colors[1], sq)
}

/// Whether a square comes before the file `file` of the rank `rank` in the
/// order in which a record goes through the squares.
pub open spec fn comes_before(sq: int, rank: int, file: int) -> bool {
    sq / 8 > rank || (sq / 8 == rank && sq % 8 < file)
}

/// Whether a reader in the placement field has gathered the pieces of a
/// board on the squares before the file `file` of the rank `rank`, and
/// marked no other square.
pub open spec fn filled(reader: Reader, board: Board, rank: int, file: int) -> bool {
    &&& reader.stage == Stage::Placement
    &&& reader.side == Color::White
    &&& reader.castling == [false, false, false, false]
    &&& reader.en_passant is None
    &&& forall|sq: int|
        0 <= sq < 64 && comes_before(sq, rank, file) ==> #[trigger] gathered(reader).piece_on(sq)
            == board.piece_on(sq)
    &&& forall|sq: int|
        0 <= sq < 64 && !comes_before(sq, rank, file) ==> !#[trigger] marked(reader, sq)
}

/// Adding a square to a set adds that square and no other.
pub proof fn lemma_with_square(squares: u64, sq: u8, other: int)
    requires
        sq < 64,
        0 <= other < 64,
    ensures
        has_bit(with_square(squares, sq), other) == (has_bit(squares, other) || other == sq),
{
    let s = sq as u64;
    let t = other as u64;
    assert(s < 64 && t < 64 ==> ((((squares | (1u64 << s)) >> t) & 1 == 1) == (((squares >> t)
        & 1 == 1) || s == t))) by (bit_vector);
}

/// Whether a board holds nothing on a rank from one file up to another.
pub open spec fn empty_between(board: Board, rank: int, from: int, to: int) -> bool {
    forall|sq: int|
        0 <= sq < 64 && sq / 8 == rank && from <= sq % 8 < to ==> #[trigger] board.piece_on(sq)
            is None
}

/// The reader marks nothing before it starts.
pub proof fn lemma_start_is_clean(sq: int)
    requires
        0 <= sq < 64,
    ensures
        !marked(reader_start(), sq),
{
    let s = sq as u64;
    assert(s < 64 ==> (0u64 >> s) & 1 != 1) by (bit_vector);
}

/// Reading the letter of the piece on the next square gathers that piece.
pub proof fn lemma_read_letter(reader: Reader, board: Board, piece: Piece, rank: int, file: int)
    requires
        0 <= rank < 8,
        0 <= file < 8,
        reader.rank == rank,
        reader.file == file,
        filled(reader, board, rank, file),
        board.piece_on(rank * 8 + file) == Some(piece),
    ensures
        read_char(reader, letter_of(piece)).rank == rank,
        read_char(reader, letter_of(piece)).file == file + 1,
        filled(read_char(reader, letter_of(piece)), board, rank, file + 1),
{
    lemma_letter(piece);
    let after = read_char(reader, letter_of(piece));
    let at = (rank * 8 + file) as u8;
    assert(after.pieces == with_kind(reader.pieces, piece.kind, at));
    assert(after.colors == with_color(reader.colors, piece.color, at));
    assert(!marked(reader, at as int));
    assert forall|sq: int| 0 <= sq < 64 implies (if comes_before(sq, rank, file + 1) {
        #[trigger] gathered(after).piece_on(sq) == board.piece_on(sq)
    } else {
        !marked(after, sq)
    }) by {
        lemma_with_square(reader.pieces[0], at, sq);
        lemma_with_square(reader.pieces[1], at, sq);
        lemma_with_square(reader.pieces[2], at, sq);
        lemma_with_square(reader.pieces[3], at, sq);
        lemma_with_square(reader.pieces[4], at, sq);
        lemma_with_square(reader.pieces[5], at, sq);
        lemma_with_square(reader.colors[0], at, sq);
        lemma_with_square(reader.colors[1], at, sq);
        if sq == at {
        } else if comes_before(sq, rank, file) {
            assert(gathered(reader).piece_on(sq) == board.piece_on(sq));
            assert(gathered(after).piece_on(sq) == gathered(reader).piece_on(sq));
        } else {
            assert(!marked(reader, sq));
        }
    }
    assert forall|sq: int| 0 <= sq < 64 && !comes_before(sq, rank, file + 1) implies !#[trigger] marked(
        after,
        sq,
    ) by {
        assert(if comes_before(sq, rank, file + 1) {
            gathered(after).piece_on(sq) == board.piece_on(sq)
        } else {
            !marked(after, sq)
        });
    }
}

/// Reading the digit of a run of empty squares passes over them.
pub proof fn lemma_read_run(reader: Reader, board: Board, rank: int, file: int, run: int)
    requires
        0 <= rank < 8,
        0 <= file,
        0 <= run,
        file + run <= 8,
        reader.rank == rank,
        reader.file == file,
        filled(reader, board, rank, file),
        empty_between(board, rank, file, file + run),
    ensures
        reads(reader, run_text(run)).rank == rank,
        reads(reader, run_text(run)).file == file + run,
        filled(reads(reader, run_text(run)), board, rank, file + run),
{
    if run == 0 {
        lemma_reads_nothing(reader);
        assert(run_text(run) =~= Seq::<char>::empty());
    } else {
        lemma_run(run);
        lemma_reads_one(reader, digit_of(run));
        let after = read_char(reader, digit_of(run));
        assert(after.pieces == reader.pieces && after.colors == reader.colors);
        assert forall|sq: int| 0 <= sq < 64 && comes_before(sq, rank, file + run) implies #[trigger] gathered(
            after,
        ).piece_on(sq) == board.piece_on(sq) by {
            if comes_before(sq, rank, file) {
                assert(gathered(reader).piece_on(sq) == board.piece_on(sq));
            } else {
                assert(!marked(reader, sq));
                assert(board.piece_on(sq) is None);
            }
        }
        assert forall|sq: int| 0 <= sq < 64 && !comes_before(sq, rank, file + run) implies !#[trigger] marked(
            after,
            sq,
        ) by {
            assert(!marked(reader, sq));
        }
    }
}

/// Reading the rest of a rank's text gathers the rest of the rank.
pub proof fn lemma_read_rank(reader: Reader, board: Board, rank: int, file: int, run: int)
    requires
        0 <= rank < 8,
        0 <= run <= file <= 8,
        reader.rank == rank,
        reader.file == file - run,
        filled(reader, board, rank, file - run),
        empty_between(board, rank, file - run, file),
    ensures
        reads(reader, rank_text(board, rank, file, run)).rank == rank,
        reads(reader, rank_text(board, rank, file, run)).file == 8,
        filled(reads(reader, rank_text(board, rank, file, run)), board, rank, 8),
    decreases 8 - file,
{
    if file >= 8 {
        lemma_read_run(reader, board, rank, file - run, run);
    } else {
        match board.piece_on(rank * 8 + file) {
            Some(piece) => {
                let rest = rank_text(board, rank, file + 1, 0);
                lemma_read_run(reader, board, rank, file - run, run);
                let passed = reads(reader, run_text(run));
                lemma_letter(piece);
                lemma_reads_one(passed, letter_of(piece));
                lemma_read_letter(passed, board, piece, rank, file);
                let placed = read_char(passed, letter_of(piece));
                lemma_read_rank(placed, board, rank, file + 1, 0);
                lemma_reads_both(reader, run_text(run), piece_letter(piece));
                lemma_reads_both(reader, run_text(run) + piece_letter(piece), rest);
            },
            None => {
                assert forall|sq: int|
                    0 <= sq < 64 && sq / 8 == rank && file - run <= sq % 8 < file + 1 implies #[trigger] board.piece_on(
                    sq,
                ) is None by {
                    if sq % 8 == file {
                        assert(sq == rank * 8 + file);
                    }
                }
                lemma_read_rank(reader, board, rank, file + 1, run + 1);
            },
        }
    }
}

/// Reading the placement down to a rank gathers the pieces down to that
/// rank.
pub proof fn lemma_read_ranks(board: Board, rank: int)
    requires
        0 <= rank <= 7,
    ensures
        reads(reader_start(), ranks_text(board, rank)).rank == rank,
        reads(reader_start(), ranks_text(board, rank)).file == 8,
        filled(reads(reader_start(), ranks_text(board, rank)), board, rank, 8),
    decreases 8 - rank,
{
    if rank >= 7 {
        assert forall|sq: int| 0 <= sq < 64 implies !#[trigger] marked(reader_start(), sq) by {
            lemma_start_is_clean(sq);
        }
        lemma_read_rank(reader_start(), board, 7, 0, 0);
    } else {
        reveal_strlit("/");
        let above = ranks_text(board, rank + 1);
        let line = rank_text(board, rank, 0, 0);
        lemma_read_ranks(board, rank + 1);
        let high = reads(reader_start(), above);
        lemma_reads_both(reader_start(), above, "/"@);
        assert("/"@ =~= seq!['/']);
        lemma_reads_one(high, '/');
        let low = read_char(high, '/');
        assert(low.rank == rank && low.file == 0);
        assert(low.pieces == high.pieces && low.colors == high.colors);
        assert forall|sq: int| 0 <= sq < 64 && comes_before(sq, rank, 0) implies #[trigger] gathered(
            low,
        ).piece_on(sq) == board.piece_on(sq) by {
            assert(comes_before(sq, rank + 1, 8));
            assert(gathered(high).piece_on(sq) == board.piece_on(sq));
        }
        assert forall|sq: int| 0 <= sq < 64 && !comes_before(sq, rank, 0) implies !#[trigger] marked(
            low,
            sq,
        ) by {
            assert(!comes_before(sq, rank + 1, 8));
            assert(!marked(high, sq));
        }
        lemma_read_rank(low, board, rank, 0, 0);
        lemma_reads_both(reader_start(), above + "/"@, line);
    }
}

/// The same reader at another stage.
pub open spec fn at_stage(reader: Reader, stage: Stage) -> Reader {
    Reader { stage, ..reader }
}

/// Reading a castling letter that is written only where its right
/// remains: where it is written the reader sees the letter, and where it
/// is not the reader stays as it is.
proof fn lemma_read_right(reader: Reader, written: bool, letter: Seq<char>, c: char, place: u8)
    requires
        reader.stage == Stage::Castling || reader.stage == Stage::CastlingSome,
        letter == seq![c],
        castling_value(c) == Some(place),
        c != ' ',
        c != '-',
        place < 4,
        !reader.castling[place as int],
    ensures
        reads(
            reader,
            if written {
                letter
            } else {
                Seq::empty()
            },
        ) == if written {
            Reader {
                stage: Stage::CastlingSome,
                castling: crate::fen::with_letter(reader.castling, place),
                ..reader
            }
        } else {
            reader
        },
{
    if written {
        lemma_reads_one(reader, c);
    } else {
        lemma_reads_nothing(reader);
    }
}

/// Reading the castling field of a record gathers the rights written.
proof fn lemma_read_castling(reader: Reader, white: CastleRights, black: CastleRights)
    requires
        reader.stage == Stage::Castling,
        reader.castling == [false, false, false, false],
    ensures
        ({
            let after = reads(reader, castling_text(white, black));
            &&& after.stage == Stage::CastlingNone || after.stage == Stage::CastlingSome
            &&& rights_of(after.castling[0], after.castling[1]) == white
            &&& rights_of(after.castling[2], after.castling[3]) == black
            &&& after == Reader { stage: after.stage, castling: after.castling, ..reader }
        }),
{
    reveal_strlit("-");
    reveal_strlit("K");
    reveal_strlit("Q");
    reveal_strlit("k");
    reveal_strlit("q");
    if white == CastleRights::NoRights && black == CastleRights::NoRights {
        assert("-"@ =~= seq!['-']);
        lemma_reads_one(reader, '-');
    } else {
        let nothing = Seq::<char>::empty();
        let a = if white.king_side() {
            "K"@
        } else {
            nothing
        };
        let b = if white.queen_side() {
            "Q"@
        } else {
            nothing
        };
        let c = if black.king_side() {
            "k"@
        } else {
            nothing
        };
        let d = if black.queen_side() {
            "q"@
        } else {
            nothing
        };
        assert("K"@ =~= seq!['K']);
        assert("Q"@ =~= seq!['Q']);
        assert("k"@ =~= seq!['k']);
        assert("q"@ =~= seq!['q']);
        lemma_read_right(reader, white.king_side(), "K"@, 'K', 0);
        let r1 = reads(reader, a);
        lemma_read_right(r1, white.queen_side(), "Q"@, 'Q', 1);
        let r2 = reads(r1, b);
        lemma_read_right(r2, black.king_side(), "k"@, 'k', 2);
        let r3 = reads(r2, c);
        lemma_read_right(r3, black.queen_side(), "q"@, 'q', 3);
        lemma_reads_both(reader, a, b);
        lemma_reads_both(reader, a + b, c);
        lemma_reads_both(reader, a + b + c, d);
        assert(castling_text(white, black) == a + b + c + d);
    }
}

/// Reading the en-passant field of a record gathers the file written.
proof fn lemma_read_en_passant(reader: Reader, board: Board)
    requires
        reader.stage == Stage::EnPassant,
        reader.en_passant is None,
    ensures
        ({
            let after = reads(reader, en_passant_text(board));
            &&& after.stage == Stage::EnPassantNone || after.stage == Stage::EnPassantSquare
            &&& after.en_passant == match board.en_passant {
                Some(sq) => Some((sq % 8) as u8),
                None => None,
            }
            &&& after == Reader { stage: after.stage, en_passant: after.en_passant, ..reader }
        }),
{
    reveal_strlit("-");
    reveal_strlit("a");
    reveal_strlit("b");
    reveal_strlit("c");
    reveal_strlit("d");
    reveal_strlit("e");
    reveal_strlit("f");
    reveal_strlit("g");
    reveal_strlit("h");
    reveal_strlit("6");
    reveal_strlit("3");
    match board.en_passant {
        None => {
            assert("-"@ =~= seq!['-']);
            lemma_reads_one(reader, '-');
        },
        Some(sq) => {
            let file = (sq % 8) as int;
            let letter = file_text(file);
            let digit = match board.side {
                Color::White => "6"@,
                Color::Black => "3"@,
            };
            let l = letter[0];
            let d = digit[0];
            assert(letter =~= seq![l]);
            assert(digit =~= seq![d]);
            assert(file_value(l) == Some(file as u8));
            assert(l != '-');
            assert(digit_value(d) is Some);
            lemma_reads_one(reader, l);
            let named = read_char(reader, l);
            lemma_reads_one(named, d);
            lemma_reads_both(reader, letter, digit);
        },
    }
}

/// The record of a board up to the blank before the castling field.
pub open spec fn head_text(board: Board) -> Seq<char> {
    ranks_text(board, 0) + " "@ + side_text(board.side) + " "@
}

/// The record of a board up to the blank before the en-passant field.
pub open spec fn middle_text(board: Board) -> Seq<char> {
    head_text(board) + castling_text(board.castles[0], board.castles[1]) + " "@
}

/// Reading a blank is one step of the reader.
proof fn lemma_read_blank(reader: Reader)
    ensures
        reads(reader, " "@) == read_char(reader, ' '),
{
    reveal_strlit(" ");
    assert(" "@ =~= seq![' ']);
    lemma_reads_one(reader, ' ');
}

/// Reading the letter of the player to move gathers the player.
proof fn lemma_read_side(reader: Reader, side: Color)
    requires
        reader.stage == Stage::Side,
    ensures
        reads(reader, side_text(side)) == (Reader { stage: Stage::SideRead, side, ..reader }),
{
    reveal_strlit("w");
    reveal_strlit("b");
    let c = side_text(side)[0];
    assert(side_text(side) =~= seq![c]);
    lemma_reads_one(reader, c);
}

/// Reading a record up to the castling field gathers the pieces and the
/// player to move.
proof fn lemma_read_head(board: Board)
    ensures
        reads(reader_start(), head_text(board)) == (Reader {
            stage: Stage::Castling,
            side: board.side,
            ..reads(reader_start(), ranks_text(board, 0))
        }),
{
    let start = reader_start();
    let t0 = ranks_text(board, 0);
    let t1 = t0 + " "@;
    let t2 = t1 + side_text(board.side);
    lemma_read_ranks(board, 0);
    let r0 = reads(start, t0);
    lemma_reads_both(start, t0, " "@);
    lemma_read_blank(r0);
    let r1 = reads(start, t1);
    assert(r1 == at_stage(r0, Stage::Side));
    lemma_reads_both(start, t1, side_text(board.side));
    lemma_read_side(r1, board.side);
    let r2 = reads(start, t2);
    lemma_reads_both(start, t2, " "@);
    lemma_read_blank(r2);
}

/// Reading a record up to the en-passant field gathers the castling
/// rights as well.
proof fn lemma_read_middle(board: Board)
    ensures
        ({
            let placed = reads(reader_start(), ranks_text(board, 0));
            let after = reads(reader_start(), middle_text(board));
            &&& after.stage == Stage::EnPassant
            &&& after.side == board.side
            &&& after.pieces == placed.pieces
            &&& after.colors == placed.colors
            &&& after.en_passant is None
            &&& rights_of(after.castling[0], after.castling[1]) == board.castles[0]
            &&& rights_of(after.castling[2], after.castling[3]) == board.castles[1]
        }),
{
    let start = reader_start();
    let rights = castling_text(board.castles[0], board.castles[1]);
    lemma_read_ranks(board, 0);
    lemma_read_head(board);
    let r3 = reads(start, head_text(board));
    lemma_reads_both(start, head_text(board), rights);
    lemma_read_castling(r3, board.castles[0], board.castles[1]);
    let r4 = reads(start, head_text(board) + rights);
    lemma_reads_both(start, head_text(board) + rights, " "@);
    lemma_read_blank(r4);
}

/// Reading the move counters at the end of a record leaves what was
/// gathered as it is.
proof fn lemma_read_counters(reader: Reader)
    requires
        reader.stage == Stage::EnPassantNone || reader.stage == Stage::EnPassantSquare,
    ensures
        reads(reader, " 0 1"@) == at_stage(reader, Stage::Rest),
{
    reveal_strlit(" 0 1");
    let tail = " 0 1"@;
    assert(tail =~= seq![' ', '0', ' ', '1']);
    reveal_with_fuel(read_from, 5);
    let r1 = read_char(reader, ' ');
    assert(r1 == at_stage(reader, Stage::Rest));
    assert(read_char(r1, '0') == r1);
    assert(read_char(r1, ' ') == r1);
    assert(read_char(r1, '1') == r1);
    assert(tail[0] == ' ' && tail[1] == '0' && tail[2] == ' ' && tail[3] == '1');
}

/// Reading a whole record gathers the capture in passing as well.
proof fn lemma_read_all(board: Board)
    ensures
        ({
            let placed = reads(reader_start(), ranks_text(board, 0));
            let after = reads(reader_start(), fen_text(board));
            &&& after.stage == Stage::Rest
            &&& after.side == board.side
            &&& after.pieces == placed.pieces
            &&& after.colors == placed.colors
            &&& rights_of(after.castling[0], after.castling[1]) == board.castles[0]
            &&& rights_of(after.castling[2], after.castling[3]) == board.castles[1]
            &&& after.en_passant == match board.en_passant {
                Some(sq) => Some((sq % 8) as u8),
                None => None,
            }
        }),
{
    let start = reader_start();
    let passing = en_passant_text(board);
    lemma_read_middle(board);
    let r5 = reads(start, middle_text(board));
    lemma_reads_both(start, middle_text(board), passing);
    lemma_read_en_passant(r5, board);
    let r6 = reads(start, middle_text(board) + passing);
    lemma_reads_both(start, middle_text(board) + passing, " 0 1"@);
    lemma_read_counters(r6);
    assert(fen_text(board) == middle_text(board) + passing + " 0 1"@);
}

/// Reading what is written gives the board back: the reader reads from
/// the record of a board a board with the same piece on every square, the
/// same player to move and the same castling rights. Of the capture in
/// passing a record keeps the file, and the board read has the square of
/// the pawn on that file; who gives check and the hash are no part of a
/// record.
pub proof fn lemma_record_round_trip(board: Board)
    ensures
        read_record(fen_text(board)) is Some,
        forall|sq: int|
            0 <= sq < 64 ==> #[trigger] read_record(fen_text(board)).unwrap().piece_on(sq)
                == board.piece_on(sq),
        read_record(fen_text(board)).unwrap().side == board.side,
        read_record(fen_text(board)).unwrap().castles[0] == board.castles[0],
        read_record(fen_text(board)).unwrap().castles[1] == board.castles[1],
        read_record(fen_text(board)).unwrap().en_passant == match board.en_passant {
            Some(sq) => Some(passed_pawn_square(board.side, (sq % 8) as u8)),
            None => None,
        },
        read_record(fen_text(board)).unwrap().checkers == 0,
        read_record(fen_text(board)).unwrap().hash == 0,
{
    let text = fen_text(board);
    lemma_read_all(board);
    lemma_read_ranks(board, 0);
    lemma_read_prefix(text, text.len() as int);
    let placed = reads(reader_start(), ranks_text(board, 0));
    let after = reads(reader_start(), text);
    let read = reader_board(after).unwrap();
    assert forall|sq: int| 0 <= sq < 64 implies #[trigger] read.piece_on(sq) == board.piece_on(
        sq,
    ) by {
        assert(comes_before(sq, 0, 8));
        assert(gathered(placed).piece_on(sq) == board.piece_on(sq));
        assert(read.piece_on(sq) == gathered(placed).piece_on(sq));
    }
}

} // verus!
