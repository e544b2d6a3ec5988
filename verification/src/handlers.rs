//! The engine's side of the text protocol: what it answers to each command
//! and what each command does to the game. Reading and printing the lines
//! is left to the caller.
use crate::board::{Board, Move};
use crate::game::{
    move_text, set_up_board, start_text, texts, write_move, Game, SetupError,
};
use crate::search::{root_searched, NoMove};
use vstd::prelude::*;
use vstd::string::*;

verus! {

/// The identification lines sent in answer to `uci`.
pub open spec fn id_text() -> Seq<char> {
    "id name Rusty Mind 1.0\nid author Vilém Učík\n"@
}

/// The option lines sent in answer to `uci`.
pub open spec fn options_text() -> Seq<char> {
    "option name Depth type spin default 2 min 1\n"@
}

/// The engine's name and author, one protocol line each.
pub fn id() -> (text: String)
    ensures
        text@ == id_text(),
{
    String::from_str("id name Rusty Mind 1.0\nid author Vilém Učík\n")
}

/// The options the engine offers: the search depth.
pub fn options() -> (text: String)
    ensures
        text@ == options_text(),
{
    String::from_str("option name Depth type spin default 2 min 1\n")
}

/// Why a command was not carried out.
#[derive(Clone, Copy, Debug, PartialEq, Eq, Structural)]
pub enum CommandError {
    /// The line is not written as the command requires.
    Malformed,
    /// The depth is not a number, or is below 1.
    InvalidValue,
    /// The record is not one of a position.
    BadRecord,
    /// One of the moves is not written as a move or is not legal.
    BadMove,
}

/// Whether a character parts words: blank, tab, line feed or carriage
/// return.
pub open spec fn is_blank(c: char) -> bool {
    c == ' ' || c == '\t' || c == '\n' || c == '\r'
}

/// The words of the first `n` characters of a text that are closed by a
/// blank, in order.
pub open spec fn closed_words(text: Seq<char>, n: int) -> Seq<Seq<char>>
    decreases n,
{
    if n <= 0 {
        Seq::empty()
    } else if is_blank(text[n - 1]) && open_word(text, n - 1).len() > 0 {
        closed_words(text, n - 1).push(open_word(text, n - 1))
    } else {
        closed_words(text, n - 1)
    }
}

/// The word that the first `n` characters of a text end in: the characters
/// behind the last blank.
pub open spec fn open_word(text: Seq<char>, n: int) -> Seq<char>
    decreases n,
{
    if n <= 0 || is_blank(text[n - 1]) {
        Seq::empty()
    } else {
        open_word(text, n - 1).push(text[n - 1])
    }
}

/// The words of a text: its runs of characters that are not blank.
pub open spec fn words_of(text: Seq<char>) -> Seq<Seq<char>> {
    let n = text.len() as int;
    if open_word(text, n).len() > 0 {
        closed_words(text, n).push(open_word(text, n))
    } else {
        closed_words(text, n)
    }
}

/// Splits a text into its words.
pub fn split_words(text: &str) -> (words: Vec<String>)
    ensures
        texts(words@) == words_of(text@),
{
    let n = text.unicode_len();
    let mut words: Vec<String> = Vec::new();
    let mut start: usize = 0;
    let mut i: usize = 0;
    while i < n
        invariant
            n == text@.len(),
            start <= i <= n,
            texts(words@) == closed_words(text@, i as int),
            open_word(text@, i as int) == text@.subrange(start as int, i as int),
        decreases n - i,
    {
        let c = text.get_char(i);
        let blank = c == ' ' || c == '\t' || c == '\n' || c == '\r';
        if blank {
            if start < i {
                let word = String::from_str(text.substring_char(start, i));
                let ghost before = words@;
                words.push(word);
                assert(texts(words@) =~= texts(before).push(word@));
            }
            start = i + 1;
            assert(open_word(text@, i as int + 1) =~= text@.subrange(start as int, start as int));
        } else {
            assert(open_word(text@, i as int + 1) =~= text@.subrange(start as int, i as int + 1));
        }
        i = i + 1;
    }
    if start < n {
        let word = String::from_str(text.substring_char(start, n));
        let ghost before = words@;
        words.push(word);
        assert(texts(words@) =~= texts(before).push(word@));
    }
    words
}

/// The number that a decimal digit stands for.
pub open spec fn decimal_digit(c: char) -> Option<int> {
    if c == '0' {
        Some(0int)
    } else if c == '1' {
        Some(1int)
    } else if c == '2' {
        Some(2int)
    } else if c == '3' {
        Some(3int)
    } else if c == '4' {
        Some(4int)
    } else if c == '5' {
        Some(5int)
    } else if c == '6' {
        Some(6int)
    } else if c == '7' {
        Some(7int)
    } else if c == '8' {
        Some(8int)
    } else if c == '9' {
        Some(9int)
    } else {
        None
    }
}

/// The number that the first `n` characters of a text spell in decimal
/// digits; none where one of them is no digit.
pub open spec fn decimal_prefix(text: Seq<char>, n: int) -> Option<int>
    decreases n,
{
    if n <= 0 {
        Some(0int)
    } else {
        match (decimal_prefix(text, n - 1), decimal_digit(text[n - 1])) {
            (Some(value), Some(digit)) => Some(value * 10 + digit),
            _ => None,
        }
    }
}

/// The depth that a text spells: a number in decimal digits from 1 up to
/// the largest `i32`.
pub open spec fn depth_value(text: Seq<char>) -> Option<i32> {
    if text.len() == 0 {
        None
    } else {
        match decimal_prefix(text, text.len() as int) {
            Some(value) => if 1 <= value <= i32::MAX {
                Some(value as i32)
            } else {
                None
            },
            None => None,
        }
    }
}

/// A number only grows as digits are added to it.
proof fn lemma_decimal_grows(text: Seq<char>, m: int, n: int)
    requires
        0 <= m <= n,
        decimal_prefix(text, n) is Some,
    ensures
        decimal_prefix(text, m) matches Some(low) && 0 <= low <= decimal_prefix(text, n).unwrap(),
    decreases n - m,
{
    if m < n {
        lemma_decimal_grows(text, m, n - 1);
        lemma_decimal_grows(text, n - 1, n - 1);
    } else {
        lemma_decimal_nonnegative(text, n);
    }
}

/// A number spelled in digits is not negative.
proof fn lemma_decimal_nonnegative(text: Seq<char>, n: int)
    requires
        decimal_prefix(text, n) is Some,
    ensures
        decimal_prefix(text, n).unwrap() >= 0,
    decreases n,
{
    if n > 0 {
        lemma_decimal_nonnegative(text, n - 1);
    }
}

/// Once a character is no digit, the text spells no number.
proof fn lemma_decimal_stays_none(text: Seq<char>, m: int, n: int)
    requires
        0 <= m <= n,
        decimal_prefix(text, m) is None,
    ensures
        decimal_prefix(text, n) is None,
    decreases n - m,
{
    if m < n {
        lemma_decimal_stays_none(text, m, n - 1);
    }
}

fn digit_of(c: char) -> (digit: Option<i64>)
    ensures
        match digit {
            Some(d) => decimal_digit(c) == Some(d as int) && 0 <= d <= 9,
            None => decimal_digit(c) is None,
        },
{
    if c == '0' {
        Some(0)
    } else if c == '1' {
        Some(1)
    } else if c == '2' {
        Some(2)
    } else if c == '3' {
        Some(3)
    } else if c == '4' {
        Some(4)
    } else if c == '5' {
        Some(5)
    } else if c == '6' {
        Some(6)
    } else if c == '7' {
        Some(7)
    } else if c == '8' {
        Some(8)
    } else if c == '9' {
        Some(9)
    } else {
        None
    }
}

/// Reads a search depth.
pub fn parse_depth(text: &str) -> (depth: Option<i32>)
    ensures
        depth == depth_value(text@),
{
    let n = text.unicode_len();
    if n == 0 {
        return None;
    }
    let mut value: i64 = 0;
    let mut i: usize = 0;
    while i < n
        invariant
            n == text@.len(),
            i <= n,
            decimal_prefix(text@, i as int) == Some(value as int),
            0 <= value <= i32::MAX,
        decreases n - i,
    {
        match digit_of(text.get_char(i)) {
            None => {
                proof {
                    lemma_decimal_stays_none(text@, i as int + 1, n as int);
                }
                return None;
            },
            Some(digit) => {
                value = value * 10 + digit;
                if value > 0x7fff_ffff {
                    proof {
                        if decimal_prefix(text@, n as int) is Some {
                            lemma_decimal_grows(text@, i as int + 1, n as int);
                        }
                    }
                    return None;
                }
            },
        }
        i = i + 1;
    }
    if value < 1 {
        None
    } else {
        Some(value as i32)
    }
}

/// What a `setoption` line asks for: the line is the four words
/// `setoption name Depth value` and a depth.
pub open spec fn depth_command(words: Seq<Seq<char>>) -> Result<i32, CommandError> {
    if words.len() == 5 && words[0] == "setoption"@ && words[1] == "name"@ && words[2]
        == "Depth"@ && words[3] == "value"@ {
        match depth_value(words[4]) {
            Some(depth) => Ok(depth),
            None => Err(CommandError::InvalidValue),
        }
    } else {
        Err(CommandError::Malformed)
    }
}

/// Words joined by single blanks, from the `from`-th up to but not
/// including the `to`-th.
pub open spec fn joined(words: Seq<Seq<char>>, from: int, to: int) -> Seq<char>
    decreases to - from,
{
    if to <= from {
        Seq::empty()
    } else if to == from + 1 {
        words[from]
    } else {
        joined(words, from, to - 1) + " "@ + words[to - 1]
    }
}

/// What a `position` line asks for: the record and the moves to play from
/// it. The line is `position`, then `startpos` or `fen` and the six fields
/// of a record, then nothing more or `moves` and at least one move.
pub open spec fn position_command(words: Seq<Seq<char>>) -> Option<(Seq<char>, int)> {
    if words.len() < 2 || words[0] != "position"@ {
        None
    } else {
        let located = if words[1] == "startpos"@ {
            Some((start_text(), 2int))
        } else if words[1] == "fen"@ && words.len() >= 8 {
            Some((joined(words, 2, 8), 8int))
        } else {
            None
        };
        match located {
            Some((fen, next)) => if words.len() == next {
                Some((fen, next))
            } else if words[next] == "moves"@ && words.len() > next + 1 {
                Some((fen, next + 1))
            } else {
                None
            },
            None => None,
        }
    }
}

/// Whether a word reads as a given text.
fn word_is(word: &String, text: &str) -> (r: bool)
    ensures
        r == (word@ == text@),
{
    let other = String::from_str(text);
    *word == other
}

/// The error of a command for the error of a set-up.
pub open spec fn command_error(e: SetupError) -> CommandError {
    match e {
        SetupError::BadRecord => CommandError::BadRecord,
        SetupError::BadMove => CommandError::BadMove,
    }
}

/// What a `position` line does to a board: the board it sets up, or why
/// it sets none up.
pub open spec fn position_outcome(words: Seq<Seq<char>>) -> Result<Board, CommandError> {
    match position_command(words) {
        None => Err(CommandError::Malformed),
        Some((fen, first)) => {
            let moves = words.subrange(first, words.len() as int);
            match set_up_board(fen, moves) {
                Ok(board) => Ok(board),
                Err(e) => Err(command_error(e)),
            }
        },
    }
}

/// The line that names the engine's move.
pub open spec fn bestmove_text(m: Move) -> Seq<char> {
    "bestmove "@ + move_text(m) + "\n"@
}

/// Carries out a `setoption name Depth value <depth>` line: sets the depth
/// of the game, which must be 1 or more.
pub fn set_depth(game: &mut Game, input: &str) -> (done: Result<(), CommandError>)
    ensures
        final(game).current() == old(game).current(),
        final(game).engine() == old(game).engine(),
        match depth_command(words_of(input@)) {
            Ok(depth) => done is Ok && final(game).depth_set() == Some(depth),
            Err(e) => done == Err::<(), CommandError>(e) && final(game).depth_set() == old(
                game,
            ).depth_set(),
        },
{
    let words = split_words(input);
    assert(forall|i: int| 0 <= i < words.len() ==> words_of(input@)[i] == #[trigger] words[i]@);
    if words.len() != 5 || !word_is(&words[0], "setoption") || !word_is(&words[1], "name")
        || !word_is(&words[2], "Depth") || !word_is(&words[3], "value") {
        return Err(CommandError::Malformed);
    }
    match parse_depth(words[4].as_str()) {
        Some(depth) => {
            game.set_depth(depth);
            Ok(())
        },
        None => Err(CommandError::InvalidValue),
    }
}

/// Joins six words of a record by single blanks.
fn join_record(words: &Vec<String>) -> (fen: String)
    requires
        words.len() >= 8,
    ensures
        fen@ == joined(texts(words@), 2, 8),
{
    let mut fen = String::new();
    fen.append(words[2].as_str());
    let mut i: usize = 3;
    assert(fen@ =~= joined(texts(words@), 2, 3));
    while i < 8
        invariant
            3 <= i <= 8,
            words.len() >= 8,
            fen@ == joined(texts(words@), 2, i as int),
        decreases 8 - i,
    {
        fen.append(" ");
        fen.append(words[i].as_str());
        i = i + 1;
    }
    fen
}

/// Carries out a `position` line: sets the board up from `startpos` or
/// from a record, and plays the moves that follow `moves`. A line that is
/// refused leaves the game as it was.
pub fn set_up(game: &mut Game, input: &str) -> (done: Result<(), CommandError>)
    ensures
        final(game).engine() == old(game).engine(),
        final(game).depth_set() == old(game).depth_set(),
        match position_outcome(words_of(input@)) {
            Ok(board) => done is Ok && final(game).current() == board,
            Err(e) => done == Err::<(), CommandError>(e) && final(game).current() == old(
                game,
            ).current(),
        },
{
    let words = split_words(input);
    let ghost all = words_of(input@);
    assert(forall|i: int| 0 <= i < words.len() ==> all[i] == #[trigger] words[i]@);
    if words.len() < 2 || !word_is(&words[0], "position") {
        return Err(CommandError::Malformed);
    }
    let fen: String;
    let next: usize;
    if word_is(&words[1], "startpos") {
        fen = String::from_str("rnbqkbnr/pppppppp/8/8/8/8/PPPPPPPP/RNBQKBNR w KQkq - 0 1");
        next = 2;
    } else if word_is(&words[1], "fen") && words.len() >= 8 {
        fen = join_record(&words);
        next = 8;
    } else {
        return Err(CommandError::Malformed);
    }
    let first = if words.len() == next {
        next
    } else if word_is(&words[next], "moves") && words.len() > next + 1 {
        next + 1
    } else {
        return Err(CommandError::Malformed);
    };
    assert(position_command(all) == Some((fen@, first as int)));
    let mut moves: Vec<String> = Vec::new();
    let mut i: usize = first;
    while i < words.len()
        invariant
            first <= i <= words.len(),
            texts(moves@) == texts(words@).subrange(first as int, i as int),
        decreases words.len() - i,
    {
        let word = words[i].clone();
        let ghost before = moves@;
        moves.push(word);
        assert(texts(moves@) =~= texts(before).push(word@));
        assert(texts(moves@) =~= texts(words@).subrange(first as int, i as int + 1));
        i = i + 1;
    }
    assert(texts(moves@) == all.subrange(first as int, all.len() as int));
    match game.set_board(fen.as_str(), &moves) {
        Ok(()) => Ok(()),
        Err(SetupError::BadRecord) => Err(CommandError::BadRecord),
        Err(SetupError::BadMove) => Err(CommandError::BadMove),
    }
}

/// The line that names a move as the engine's choice.
pub fn bestmove_line(m: &Move) -> (line: String)
    requires
        m.from < 64,
        m.to < 64,
    ensures
        line@ == bestmove_text(*m),
{
    let mut line = String::from_str("bestmove ");
    let text = write_move(m);
    line.append(text.as_str());
    line.append("\n");
    line
}

/// Carries out a `go` line: searches the position on the board and names
/// the move found, or says why there is none.
pub fn search(game: &mut Game) -> (line: Result<String, NoMove>)
    requires
        old(game).wf(),
    ensures
        final(game).wf(),
        final(game).current() == old(game).current(),
        final(game).depth_set() == old(game).depth_set(),
        exists|found: Result<Move, NoMove>|
            {
                &&& #[trigger] root_searched(
                    old(game).engine().slots(),
                    old(game).current(),
                    old(game).search_depth(),
                    old(game).engine().stocked(),
                    old(game).engine().perturbs(),
                    found,
                    final(game).engine().slots(),
                )
                &&& match found {
                    Ok(m) => line matches Ok(text) && text@ == bestmove_text(m),
                    Err(why) => line == Err::<String, NoMove>(why),
                }
            },
{
    let found = game.play();
    let line = match found {
        Ok(m) => Ok(bestmove_line(&m)),
        Err(why) => Err(why),
    };
    line
}

} // verus!
