//! The search: negamax with alpha-beta pruning over the ordered legal
//! moves, a quiescence search over the tactical moves at its leaves, and
//! the choice of a move at the root.
//!
//! What a search returns is stated by specification functions over the
//! cache's slots. They follow the tree the search walks, since the cache
//! that one subtree leaves behind is the cache that the next one reads.
//! What the tablebases answer on the way is not known beforehand, so the
//! functions take the answers as a list in the order asked; every search
//! ran as they say for some such list.
use crate::board::{Board, Move, Status};
use crate::cache::{
    empty_slots, probe_slots, record_slots, slots_valid, ScoreCache, DEFAULT_CAPACITY,
};
use crate::evaluation::{static_evaluation, static_score, terminal_score, CHECKMATE_SCORE};
use crate::oracle::{
    consultable, endgame_outcome, endgame_result, is_syzygy, prober_takes, score_of_verdict,
    verdict_score, Consultation, Oracle, OracleError, Verdict,
};
use crate::ordering::{
    all_legal, filter_moves, lemma_ordered_keeps_moves, ordered, reorder_moves, tactical,
};
use rand::rngs::StdRng;
use vstd::prelude::*;

verus! {

/// The bound of the window with which the root searches every move.
pub const FULL_WINDOW: i32 = 999_999;

/// The ply at which the quiescence search stops following moves, so that
/// no run of checks and evasions keeps it going.
pub const QUIESCENCE_LIMIT: i32 = 64;

/// The depth used where the caller asks for less.
pub const MIN_DEPTH: i32 = 1;

/// The slots of the position cache.
pub type Slots = Seq<(u64, i32)>;

/// The larger of two scores.
pub open spec fn larger(a: int, b: int) -> int {
    if a >= b {
        a
    } else {
        b
    }
}

/// The standing-pat score of a position and the cache after asking for
/// it: the cached score where the cache has one, and otherwise the static
/// score, which is then written to the cache.
pub open spec fn stand_pat(slots: Slots, board: Board, alpha: int, beta: int) -> (int, Slots) {
    match probe_slots(slots, board.hash, board.side) {
        Some(score) => (score, slots),
        None => {
            let score = static_score(board, alpha, beta);
            (score, record_slots(slots, board.hash, board.side, score))
        },
    }
}

/// The score that the quiescence search returns for a position at a ply,
/// and the cache it leaves.
///
/// A position that has ended scores as such. Otherwise the standing-pat
/// score cuts the node off at `beta` or raises `alpha`, and the tactical
/// moves are followed unless the ply limit is reached; on leaving, the
/// node's `alpha` is written to the cache.
pub open spec fn quiesce(slots: Slots, board: Board, alpha: int, beta: int, ply: int) -> (
    int,
    Slots,
)
    decreases QUIESCENCE_LIMIT - ply, 1int, 0int,
{
    let status = board.status_spec();
    if status != Status::Ongoing {
        (terminal_score(status), slots)
    } else {
        let (pat, seen) = stand_pat(slots, board, alpha, beta);
        if pat >= beta {
            (beta, seen)
        } else if ply >= QUIESCENCE_LIMIT {
            (larger(alpha, pat), record_slots(seen, board.hash, board.side, larger(alpha, pat)))
        } else {
            quiesce_moves(
                seen,
                board,
                tactical(board, board.legal_moves_spec(), ply),
                0,
                larger(alpha, pat),
                beta,
                ply,
            )
        }
    }
}

/// The quiescence search of a node from its `i`-th tactical move on: each
/// move's score is the negated score of its successor under the negated
/// window; a score of `beta` or more cuts the node off at `beta`, a score
/// above `alpha` raises `alpha`.
pub open spec fn quiesce_moves(
    slots: Slots,
    board: Board,
    moves: Seq<Move>,
    i: int,
    alpha: int,
    beta: int,
    ply: int,
) -> (int, Slots)
    decreases QUIESCENCE_LIMIT - ply, 0int, moves.len() - i,
{
    if i < 0 || i >= moves.len() || ply >= QUIESCENCE_LIMIT {
        (alpha, record_slots(slots, board.hash, board.side, alpha))
    } else {
        let (reply, after) = quiesce(slots, board.successor(moves[i]), -beta, -alpha, ply + 1);
        if -reply >= beta {
            (beta, after)
        } else {
            quiesce_moves(after, board, moves, i + 1, larger(alpha, -reply), beta, ply)
        }
    }
}

/// What the tablebases answered to the consultations of a search, in the
/// order in which they were asked: the word for each position, or `None`
/// where they had none.
pub type Answers = Seq<Option<Verdict>>;

/// What a search of a node comes to.
pub struct Searched {
    /// The node's score.
    pub score: int,
    /// The cache that the search leaves.
    pub slots: Slots,
    /// The answers that the search has not used.
    pub rest: Answers,
    /// Whether every consultation found an answer to read.
    pub fed: bool,
}

/// What the main search of a position comes to when the tablebases answer
/// its consultations with `answers`.
///
/// Where the depth is used up or the game has ended, the score is that of
/// the quiescence search. A position small enough for the tablebases is
/// put to them if the engine has any: their word, if they give one, is the
/// score. In every other case the ordered legal moves are searched.
pub open spec fn negamax_told(
    slots: Slots,
    board: Board,
    alpha: int,
    beta: int,
    depth: int,
    stocked: bool,
    answers: Answers,
) -> Searched
    decreases depth, 1int, 0int,
{
    let moves = ordered(board, board.legal_moves_spec());
    if depth <= 0 || board.status_spec() != Status::Ongoing {
        let (score, after) = quiesce(slots, board, alpha, beta, 0);
        Searched { score, slots: after, rest: answers, fed: true }
    } else if stocked && consultable(board) {
        if answers.len() == 0 {
            Searched { score: alpha, slots, rest: answers, fed: false }
        } else {
            match answers[0] {
                Some(word) => Searched {
                    score: verdict_score(word),
                    slots,
                    rest: answers.drop_first(),
                    fed: true,
                },
                None => negamax_moves_told(
                    slots,
                    board,
                    moves,
                    0,
                    alpha,
                    beta,
                    depth,
                    stocked,
                    answers.drop_first(),
                ),
            }
        }
    } else {
        negamax_moves_told(slots, board, moves, 0, alpha, beta, depth, stocked, answers)
    }
}

/// The main search of a node from its `i`-th move on: each move's score is
/// the negated score of its successor, searched one ply less deep under
/// the negated window; the best score so far is `alpha`, and the node is
/// left as soon as `alpha` reaches `beta`. The result is `alpha`.
pub open spec fn negamax_moves_told(
    slots: Slots,
    board: Board,
    moves: Seq<Move>,
    i: int,
    alpha: int,
    beta: int,
    depth: int,
    stocked: bool,
    answers: Answers,
) -> Searched
    decreases depth, 0int, moves.len() - i,
{
    if i < 0 || i >= moves.len() || depth <= 0 {
        Searched { score: alpha, slots, rest: answers, fed: true }
    } else {
        let reply = negamax_told(
            slots,
            board.successor(moves[i]),
            -beta,
            -alpha,
            depth - 1,
            stocked,
            answers,
        );
        if !reply.fed {
            reply
        } else if larger(alpha, -reply.score) >= beta {
            Searched { score: larger(alpha, -reply.score), ..reply }
        } else {
            negamax_moves_told(
                reply.slots,
                board,
                moves,
                i + 1,
                larger(alpha, -reply.score),
                beta,
                depth,
                stocked,
                reply.rest,
            )
        }
    }
}

/// The score that the main search returns for a position when the engine
/// has no tablebases, and the cache it leaves.
pub open spec fn negamax_score(slots: Slots, board: Board, alpha: int, beta: int, depth: int) -> (
    int,
    Slots,
) {
    let found = negamax_told(slots, board, alpha, beta, depth, false, Seq::empty());
    (found.score, found.slots)
}

/// Whether a main search that returned `score` and left the cache `after`
/// ran as `negamax_told` says for the answers `answers`, and used them
/// all. An engine without tablebases asks nothing.
pub open spec fn searched_as(
    before: Slots,
    board: Board,
    alpha: int,
    beta: int,
    depth: int,
    stocked: bool,
    answers: Answers,
    score: int,
    after: Slots,
) -> bool {
    let told = negamax_told(before, board, alpha, beta, depth, stocked, answers);
    &&& !stocked ==> answers.len() == 0
    &&& told.fed
    &&& told.rest.len() == 0
    &&& told.score == score
    &&& told.slots == after
}

/// The depth that a search runs at: the depth asked for, and 1 where less
/// was asked.
pub open spec fn effective_depth(depth: int) -> int {
    larger(depth, MIN_DEPTH as int)
}

/// What the search of the root's moves comes to.
pub struct Chosen {
    /// The move chosen, if there was any move.
    pub chosen: Option<Move>,
    /// The cache that the search leaves.
    pub slots: Slots,
    /// The answers that the search has not used.
    pub rest: Answers,
    /// Whether every consultation found an answer to read.
    pub fed: bool,
}

/// The choice at the root from its `i`-th move on: each move's score is
/// the negated full-window score of its successor plus the move's
/// perturbation; `best` is the first move with the highest score so far,
/// and a later move replaces it only with a higher score.
pub open spec fn root_choice(
    slots: Slots,
    board: Board,
    moves: Seq<Move>,
    perturbations: Seq<i32>,
    i: int,
    best: Option<(Move, int)>,
    depth: int,
    stocked: bool,
    answers: Answers,
) -> Chosen
    decreases moves.len() - i,
{
    if i < 0 || i >= moves.len() {
        Chosen {
            chosen: match best {
                Some((chosen, _)) => Some(chosen),
                None => None,
            },
            slots,
            rest: answers,
            fed: true,
        }
    } else {
        let reply = negamax_told(
            slots,
            board.successor(moves[i]),
            -FULL_WINDOW as int,
            FULL_WINDOW as int,
            depth - 1,
            stocked,
            answers,
        );
        if !reply.fed {
            Chosen { chosen: None, slots: reply.slots, rest: reply.rest, fed: false }
        } else {
            root_choice(
                reply.slots,
                board,
                moves,
                perturbations,
                i + 1,
                better_of(best, moves[i], -reply.score + perturbations[i]),
                depth,
                stocked,
                reply.rest,
            )
        }
    }
}

/// Whether a search of the root's moves that chose `chosen` and left the
/// cache `after` ran as `root_choice` says for the answers `answers`, and
/// used them all.
pub open spec fn chosen_as(
    before: Slots,
    board: Board,
    moves: Seq<Move>,
    perturbations: Seq<i32>,
    depth: int,
    stocked: bool,
    answers: Answers,
    chosen: Move,
    after: Slots,
) -> bool {
    let told = root_choice(before, board, moves, perturbations, 0, None, depth, stocked, answers);
    &&& !stocked ==> answers.len() == 0
    &&& told.fed
    &&& told.rest.len() == 0
    &&& told.chosen == Some(chosen)
    &&& told.slots == after
}

/// An engine without tablebases searches as `negamax_score` says.
pub proof fn lemma_without_tables(
    before: Slots,
    board: Board,
    alpha: int,
    beta: int,
    depth: int,
    stocked: bool,
    answers: Answers,
    score: int,
    after: Slots,
)
    requires
        searched_as(before, board, alpha, beta, depth, stocked, answers, score, after),
    ensures
        !stocked ==> (score, after) == negamax_score(before, board, alpha, beta, depth),
{
    if !stocked {
        assert(answers =~= Seq::empty());
    }
}

/// Answers that a search does not come to read do not change it: with
/// more answers behind those it was given, a search that found all it
/// asked for runs alike and leaves the further answers over.
pub proof fn lemma_more_answers(
    slots: Slots,
    board: Board,
    alpha: int,
    beta: int,
    depth: int,
    stocked: bool,
    answers: Answers,
    more: Answers,
)
    requires
        negamax_told(slots, board, alpha, beta, depth, stocked, answers).fed,
    ensures
        negamax_told(slots, board, alpha, beta, depth, stocked, answers + more) == (Searched {
            rest: negamax_told(slots, board, alpha, beta, depth, stocked, answers).rest + more,
            ..negamax_told(slots, board, alpha, beta, depth, stocked, answers)
        }),
    decreases depth, 1int, 0int,
{
    let moves = ordered(board, board.legal_moves_spec());
    if depth <= 0 || board.status_spec() != Status::Ongoing {
    } else if stocked && consultable(board) {
        assert((answers + more)[0] == answers[0]);
        assert((answers + more).drop_first() =~= answers.drop_first() + more);
        if answers[0] is None {
            lemma_more_moves(
                slots,
                board,
                moves,
                0,
                alpha,
                beta,
                depth,
                stocked,
                answers.drop_first(),
                more,
            );
        }
    } else {
        lemma_more_moves(slots, board, moves, 0, alpha, beta, depth, stocked, answers, more);
    }
}

/// Answers that the search of a node's moves does not come to read do not
/// change it.
pub proof fn lemma_more_moves(
    slots: Slots,
    board: Board,
    moves: Seq<Move>,
    i: int,
    alpha: int,
    beta: int,
    depth: int,
    stocked: bool,
    answers: Answers,
    more: Answers,
)
    requires
        negamax_moves_told(slots, board, moves, i, alpha, beta, depth, stocked, answers).fed,
    ensures
        negamax_moves_told(slots, board, moves, i, alpha, beta, depth, stocked, answers + more)
            == (Searched {
            rest: negamax_moves_told(
                slots,
                board,
                moves,
                i,
                alpha,
                beta,
                depth,
                stocked,
                answers,
            ).rest + more,
            ..negamax_moves_told(slots, board, moves, i, alpha, beta, depth, stocked, answers)
        }),
    decreases depth, 0int, moves.len() - i,
{
    if i < 0 || i >= moves.len() || depth <= 0 {
    } else {
        let next = board.successor(moves[i]);
        let reply = negamax_told(slots, next, -beta, -alpha, depth - 1, stocked, answers);
        lemma_more_answers(slots, next, -beta, -alpha, depth - 1, stocked, answers, more);
        if larger(alpha, -reply.score) < beta {
            lemma_more_moves(
                reply.slots,
                board,
                moves,
                i + 1,
                larger(alpha, -reply.score),
                beta,
                depth,
                stocked,
                reply.rest,
                more,
            );
        }
    }
}

/// Whether a main search that has used the answers `used` and stands
/// before the `i`-th move of its node, with the cache `now` and the best
/// score `best`, goes on as the search from the node's start does:
/// whatever answers are still to come, the two searches come to the same.
pub open spec fn search_resumes(
    start: Slots,
    board: Board,
    alpha: int,
    beta: int,
    depth: int,
    stocked: bool,
    used: Answers,
    now: Slots,
    moves: Seq<Move>,
    i: int,
    best: int,
) -> bool {
    forall|coming: Answers| #[trigger]
        negamax_moves_told(now, board, moves, i, best, beta, depth, stocked, coming).fed
            ==> negamax_told(start, board, alpha, beta, depth, stocked, used + coming)
            == negamax_moves_told(now, board, moves, i, best, beta, depth, stocked, coming)
}

/// A search resumes at the first move of a node once the tablebases have
/// been asked, if the node is theirs to ask, and have given no word.
pub proof fn lemma_search_begins(
    start: Slots,
    board: Board,
    alpha: int,
    beta: int,
    depth: int,
    stocked: bool,
    used: Answers,
)
    requires
        depth > 0,
        board.status_spec() == Status::Ongoing,
        stocked && consultable(board) ==> used == seq![None::<Verdict>],
        !(stocked && consultable(board)) ==> used.len() == 0,
    ensures
        search_resumes(
            start,
            board,
            alpha,
            beta,
            depth,
            stocked,
            used,
            start,
            ordered(board, board.legal_moves_spec()),
            0,
            alpha,
        ),
{
    assert forall|coming: Answers| #[trigger]
        negamax_moves_told(
            start,
            board,
            ordered(board, board.legal_moves_spec()),
            0,
            alpha,
            beta,
            depth,
            stocked,
            coming,
        ).fed implies negamax_told(start, board, alpha, beta, depth, stocked, used + coming)
        == negamax_moves_told(
        start,
        board,
        ordered(board, board.legal_moves_spec()),
        0,
        alpha,
        beta,
        depth,
        stocked,
        coming,
    ) by {
        if stocked && consultable(board) {
            assert((used + coming)[0] == used[0]);
            assert((used + coming).drop_first() =~= coming);
        } else {
            assert(used + coming =~= coming);
        }
    }
}

/// What the search of one move adds to a search that resumes before it:
/// where the move's score lifts the best score to `beta` the node is
/// done, and otherwise the search resumes before the next move.
pub proof fn lemma_search_moves_on(
    start: Slots,
    board: Board,
    alpha: int,
    beta: int,
    depth: int,
    stocked: bool,
    used: Answers,
    before: Slots,
    moves: Seq<Move>,
    i: int,
    low: int,
    told: Answers,
    reply: int,
    now: Slots,
)
    requires
        depth > 0,
        0 <= i < moves.len(),
        search_resumes(start, board, alpha, beta, depth, stocked, used, before, moves, i, low),
        searched_as(
            before,
            board.successor(moves[i]),
            -beta,
            -low,
            depth - 1,
            stocked,
            told,
            reply,
            now,
        ),
        !stocked ==> used.len() == 0,
    ensures
        larger(low, -reply) >= beta ==> searched_as(
            start,
            board,
            alpha,
            beta,
            depth,
            stocked,
            used + told,
            larger(low, -reply),
            now,
        ),
        larger(low, -reply) < beta ==> search_resumes(
            start,
            board,
            alpha,
            beta,
            depth,
            stocked,
            used + told,
            now,
            moves,
            i + 1,
            larger(low, -reply),
        ),
{
    let next = board.successor(moves[i]);
    let best = larger(low, -reply);
    if best >= beta {
        let step = negamax_moves_told(before, board, moves, i, low, beta, depth, stocked, told);
        assert(step.fed && step.rest.len() == 0 && step.score == best && step.slots == now);
    } else {
        assert forall|coming: Answers| #[trigger]
            negamax_moves_told(now, board, moves, i + 1, best, beta, depth, stocked, coming).fed
            implies negamax_told(start, board, alpha, beta, depth, stocked, (used + told) + coming)
            == negamax_moves_told(now, board, moves, i + 1, best, beta, depth, stocked, coming) by {
            lemma_more_answers(before, next, -beta, -low, depth - 1, stocked, told, coming);
            let reply_told = negamax_told(before, next, -beta, -low, depth - 1, stocked, told);
            assert(reply_told.rest + coming =~= coming);
            let step = negamax_moves_told(
                before,
                board,
                moves,
                i,
                low,
                beta,
                depth,
                stocked,
                told + coming,
            );
            assert(step == negamax_moves_told(
                now,
                board,
                moves,
                i + 1,
                best,
                beta,
                depth,
                stocked,
                coming,
            ));
            assert((used + told) + coming =~= used + (told + coming));
        }
    }
}

/// A search that resumes behind the last move of its node is done: its
/// score is the best score.
pub proof fn lemma_search_ends(
    start: Slots,
    board: Board,
    alpha: int,
    beta: int,
    depth: int,
    stocked: bool,
    used: Answers,
    now: Slots,
    moves: Seq<Move>,
    best: int,
)
    requires
        search_resumes(
            start,
            board,
            alpha,
            beta,
            depth,
            stocked,
            used,
            now,
            moves,
            moves.len() as int,
            best,
        ),
        !stocked ==> used.len() == 0,
    ensures
        searched_as(start, board, alpha, beta, depth, stocked, used, best, now),
{
    let nothing: Answers = Seq::empty();
    let done = negamax_moves_told(
        now,
        board,
        moves,
        moves.len() as int,
        best,
        beta,
        depth,
        stocked,
        nothing,
    );
    assert(done.fed);
    assert(used + nothing =~= used);
}

/// Whether a search of the root's moves that has used the answers `used`
/// and stands before the `i`-th move, with the cache `now` and the best
/// move `best`, goes on as the search from the first move does.
pub open spec fn choice_resumes(
    start: Slots,
    board: Board,
    moves: Seq<Move>,
    perturbations: Seq<i32>,
    depth: int,
    stocked: bool,
    used: Answers,
    now: Slots,
    i: int,
    best: Option<(Move, int)>,
) -> bool {
    forall|coming: Answers| #[trigger]
        root_choice(now, board, moves, perturbations, i, best, depth, stocked, coming).fed
            ==> root_choice(
            start,
            board,
            moves,
            perturbations,
            0,
            None,
            depth,
            stocked,
            used + coming,
        ) == root_choice(now, board, moves, perturbations, i, best, depth, stocked, coming)
}

/// A search of the root's moves resumes at the first move.
pub proof fn lemma_choice_begins(
    start: Slots,
    board: Board,
    moves: Seq<Move>,
    perturbations: Seq<i32>,
    depth: int,
    stocked: bool,
)
    ensures
        choice_resumes(
            start,
            board,
            moves,
            perturbations,
            depth,
            stocked,
            Seq::empty(),
            start,
            0,
            None,
        ),
{
    let nothing: Answers = Seq::empty();
    assert forall|coming: Answers| nothing + coming == coming by {
        assert(nothing + coming =~= coming);
    }
}

/// The better of the best move so far and a move with its score: the
/// move, if there was none before or its score is higher.
pub open spec fn better_of(best: Option<(Move, int)>, m: Move, score: int) -> Option<(Move, int)> {
    match best {
        Some((_, top)) => if score > top {
            Some((m, score))
        } else {
            best
        },
        None => Some((m, score)),
    }
}

/// What the search of one move adds to a search of the root's moves that
/// resumes before it: the search resumes before the next move.
pub proof fn lemma_choice_moves_on(
    start: Slots,
    board: Board,
    moves: Seq<Move>,
    perturbations: Seq<i32>,
    depth: int,
    stocked: bool,
    used: Answers,
    before: Slots,
    i: int,
    best: Option<(Move, int)>,
    told: Answers,
    reply: int,
    now: Slots,
)
    requires
        0 <= i < moves.len(),
        choice_resumes(start, board, moves, perturbations, depth, stocked, used, before, i, best),
        searched_as(
            before,
            board.successor(moves[i]),
            -FULL_WINDOW as int,
            FULL_WINDOW as int,
            depth - 1,
            stocked,
            told,
            reply,
            now,
        ),
    ensures
        choice_resumes(
            start,
            board,
            moves,
            perturbations,
            depth,
            stocked,
            used + told,
            now,
            i + 1,
            better_of(best, moves[i], -reply + perturbations[i]),
        ),
{
    let next = board.successor(moves[i]);
    let floor = -FULL_WINDOW as int;
    let roof = FULL_WINDOW as int;
    let kept = better_of(best, moves[i], -reply + perturbations[i]);
    assert forall|coming: Answers| #[trigger]
        root_choice(now, board, moves, perturbations, i + 1, kept, depth, stocked, coming).fed
        implies root_choice(
        start,
        board,
        moves,
        perturbations,
        0,
        None,
        depth,
        stocked,
        (used + told) + coming,
    ) == root_choice(now, board, moves, perturbations, i + 1, kept, depth, stocked, coming) by {
        lemma_more_answers(before, next, floor, roof, depth - 1, stocked, told, coming);
        let reply_told = negamax_told(before, next, floor, roof, depth - 1, stocked, told);
        assert(reply_told.rest + coming =~= coming);
        let step = root_choice(
            before,
            board,
            moves,
            perturbations,
            i,
            best,
            depth,
            stocked,
            told + coming,
        );
        assert(step == root_choice(
            now,
            board,
            moves,
            perturbations,
            i + 1,
            kept,
            depth,
            stocked,
            coming,
        ));
        assert((used + told) + coming =~= used + (told + coming));
    }
}

/// A search of the root's moves that resumes behind the last move is
/// done: its choice is the best move.
pub proof fn lemma_choice_ends(
    start: Slots,
    board: Board,
    moves: Seq<Move>,
    perturbations: Seq<i32>,
    depth: int,
    stocked: bool,
    used: Answers,
    now: Slots,
    chosen: Move,
    top: int,
)
    requires
        choice_resumes(
            start,
            board,
            moves,
            perturbations,
            depth,
            stocked,
            used,
            now,
            moves.len() as int,
            Some((chosen, top)),
        ),
        !stocked ==> used.len() == 0,
    ensures
        chosen_as(start, board, moves, perturbations, depth, stocked, used, chosen, now),
{
    let nothing: Answers = Seq::empty();
    let done = root_choice(
        now,
        board,
        moves,
        perturbations,
        moves.len() as int,
        Some((chosen, top)),
        depth,
        stocked,
        nothing,
    );
    assert(done.fed);
    assert(used + nothing =~= used);
}

/// Whether each perturbation is -1, 0 or 1.
pub open spec fn small_perturbations(perturbations: Seq<i32>) -> bool {
    forall|i: int| 0 <= i < perturbations.len() ==> -1 <= #[trigger] perturbations[i] <= 1
}

/// Why a search names no move.
#[derive(Clone, Copy, Debug, PartialEq, Eq, Structural)]
pub enum NoMove {
    /// The player to move is mated.
    Checkmate,
    /// The player to move is stalemated.
    Stalemate,
    /// The tablebases recommend a move that the adapter does not translate.
    UnsupportedOracleMove,
}

/// What the root does with a position.
#[derive(Clone, Copy, Debug, PartialEq, Eq)]
pub enum RootPlan {
    /// The game has ended, or the tablebases' move cannot be translated.
    Stop(NoMove),
    /// The tablebases name the move.
    Oracle(Move),
    /// The moves are searched.
    Search,
}

/// What the root does with a position of a given status, given whether it
/// is small enough for the tablebases and what they brought back.
///
/// A position that has ended has no move. A position small enough for the
/// tablebases is theirs whenever they answer with one of its legal moves:
/// that move is played. The search stops if their move cannot be
/// translated. Every other position is searched, as is one on which the
/// tablebases fail or name a move that is not legal.
pub open spec fn root_plan(
    status: Status,
    small: bool,
    asked: Consultation,
    legal: Seq<Move>,
) -> RootPlan {
    match status {
        Status::Checkmate => RootPlan::Stop(NoMove::Checkmate),
        Status::Stalemate => RootPlan::Stop(NoMove::Stalemate),
        Status::Ongoing => if small {
            match endgame_outcome(status, asked) {
                Ok((_, Some(chosen))) => if legal.contains(chosen) {
                    RootPlan::Oracle(chosen)
                } else {
                    RootPlan::Search
                },
                Ok((_, None)) => RootPlan::Search,
                Err(OracleError::UnsupportedMove) => RootPlan::Stop(NoMove::UnsupportedOracleMove),
                Err(OracleError::Unavailable) => RootPlan::Search,
            }
        } else {
            RootPlan::Search
        },
    }
}

/// What a root search may do: `found` and `after` are its result and the
/// cache it leaves when the tablebases brought back `asked` for the root,
/// the moves were perturbed by `perturbations`, and the tablebases
/// answered the consultations below the root with `answers`.
///
/// Where the plan is not to search, the plan is the result and the cache
/// is untouched. Where it is, there is one perturbation for each of the
/// ordered legal moves, and the result is the choice over them.
pub open spec fn root_outcome(
    before: Slots,
    board: Board,
    depth: int,
    stocked: bool,
    asked: Consultation,
    perturbations: Seq<i32>,
    answers: Answers,
    found: Result<Move, NoMove>,
    after: Slots,
) -> bool {
    let moves = ordered(board, board.legal_moves_spec());
    match root_plan(board.status_spec(), consultable(board), asked, board.legal_moves_spec()) {
        RootPlan::Stop(why) => found == Err::<Move, NoMove>(why) && after == before,
        RootPlan::Oracle(chosen) => found == Ok::<Move, NoMove>(chosen) && after == before,
        RootPlan::Search => {
            &&& perturbations.len() == moves.len()
            &&& found matches Ok(chosen) && moves.contains(chosen) && chosen_as(
                before,
                board,
                moves,
                perturbations,
                effective_depth(depth),
                stocked,
                answers,
                chosen,
                after,
            )
        },
    }
}

/// What every root search does: there are a consultation of the root,
/// perturbations and answers with which the search ran as `root_outcome`
/// says. An engine without tablebases has nothing brought back, and one
/// that does not perturb has perturbations of 0.
pub open spec fn root_searched(
    before: Slots,
    board: Board,
    depth: int,
    stocked: bool,
    perturbs: bool,
    found: Result<Move, NoMove>,
    after: Slots,
) -> bool {
    exists|asked: Consultation, perturbations: Seq<i32>, answers: Answers|
        {
            &&& !stocked || !prober_takes(board) ==> asked.sign is None && asked.best is None
            &&& small_perturbations(perturbations)
            &&& !perturbs ==> forall|i: int|
                0 <= i < perturbations.len() ==> perturbations[i] == 0
            &&& #[trigger] root_outcome(
                before,
                board,
                depth,
                stocked,
                asked,
                perturbations,
                answers,
                found,
                after,
            )
        }
}

/// A root search of a position that is small enough for the tablebases,
/// and on which they answer with a legal move that the adapter
/// translates, returns that move and leaves the cache untouched: the
/// moves are not searched.
pub proof fn lemma_oracle_gating(
    before: Slots,
    board: Board,
    depth: int,
    stocked: bool,
    asked: Consultation,
    perturbations: Seq<i32>,
    answers: Answers,
    found: Result<Move, NoMove>,
    after: Slots,
)
    requires
        board.status_spec() == Status::Ongoing,
        consultable(board),
        endgame_outcome(Status::Ongoing, asked) matches Ok((_, Some(named)))
            && board.legal_moves_spec().contains(named),
        root_outcome(before, board, depth, stocked, asked, perturbations, answers, found, after),
    ensures
        endgame_outcome(Status::Ongoing, asked) matches Ok((_, Some(named))) && found == Ok::<
            Move,
            NoMove,
        >(named),
        after == before,
{
}

/// A root search names no move exactly where the game has ended, telling
/// mate from stalemate, or where the tablebases' move cannot be
/// translated; every move it names is legal, and a position that is not
/// put to the tablebases and in which the game goes on always gets one.
pub proof fn lemma_root_names_a_move(
    before: Slots,
    board: Board,
    depth: int,
    stocked: bool,
    asked: Consultation,
    perturbations: Seq<i32>,
    answers: Answers,
    found: Result<Move, NoMove>,
    after: Slots,
)
    requires
        root_outcome(before, board, depth, stocked, asked, perturbations, answers, found, after),
    ensures
        board.status_spec() == Status::Checkmate ==> found == Err::<Move, NoMove>(
            NoMove::Checkmate,
        ),
        board.status_spec() == Status::Stalemate ==> found == Err::<Move, NoMove>(
            NoMove::Stalemate,
        ),
        board.status_spec() == Status::Ongoing ==> found is Ok || found == Err::<Move, NoMove>(
            NoMove::UnsupportedOracleMove,
        ),
        found matches Ok(chosen) ==> board.legal_moves_spec().contains(chosen),
        board.status_spec() == Status::Ongoing && !consultable(board) ==> found is Ok,
{
    if found is Ok && root_plan(
        board.status_spec(),
        consultable(board),
        asked,
        board.legal_moves_spec(),
    ) == RootPlan::Search {
        lemma_ordered_keeps_moves(board, board.legal_moves_spec());
        let moves = ordered(board, board.legal_moves_spec());
        let chosen = found->Ok_0;
        let j = choose|j: int| 0 <= j < moves.len() && moves[j] == chosen;
        assert(board.legal_moves_spec().contains(moves[j]));
    }
}

/// A depth below 1 is searched as depth 1.
pub proof fn lemma_depth_floor(
    before: Slots,
    board: Board,
    depth: int,
    stocked: bool,
    asked: Consultation,
    perturbations: Seq<i32>,
    answers: Answers,
    found: Result<Move, NoMove>,
    after: Slots,
)
    requires
        depth < 1,
    ensures
        root_outcome(before, board, depth, stocked, asked, perturbations, answers, found, after)
            == root_outcome(before, board, 1, stocked, asked, perturbations, answers, found, after),
{
}

/// Decides what the root does with a position.
pub fn plan_root(status: Status, small: bool, asked: &Consultation, legal: &Vec<Move>) -> (plan:
    RootPlan)
    requires
        asked.best matches Some(Some(m)) ==> crate::oracle::oracle_move_in_range(m),
    ensures
        plan == root_plan(status, small, *asked, legal@),
        plan matches RootPlan::Oracle(m) ==> legal@.contains(m),
{
    match status {
        Status::Checkmate => RootPlan::Stop(NoMove::Checkmate),
        Status::Stalemate => RootPlan::Stop(NoMove::Stalemate),
        Status::Ongoing => {
            if small {
                match endgame_result(status, asked) {
                    Ok((_, Some(chosen))) => if is_among(&chosen, legal) {
                        RootPlan::Oracle(chosen)
                    } else {
                        RootPlan::Search
                    },
                    Ok((_, None)) => RootPlan::Search,
                    Err(OracleError::UnsupportedMove) => RootPlan::Stop(
                        NoMove::UnsupportedOracleMove,
                    ),
                    Err(OracleError::Unavailable) => RootPlan::Search,
                }
            } else {
                RootPlan::Search
            }
        },
    }
}

/// Whether a move is one of a list.
pub fn is_among(m: &Move, moves: &Vec<Move>) -> (r: bool)
    ensures
        r == moves@.contains(*m),
{
    let mut i: usize = 0;
    while i < moves.len()
        invariant
            i <= moves.len(),
            forall|j: int| 0 <= j < i ==> moves[j] != *m,
        decreases moves.len() - i,
    {
        if moves[i].same(m) {
            return true;
        }
        i = i + 1;
    }
    false
}

/// `rand::rngs::StdRng`, the generator of the perturbations; nothing is
/// known of its state.
#[verifier::external_type_specification]
#[verifier::external_body]
pub struct ExStdRng(StdRng);

/// `StdRng::from_rng` on `OsRng`: a generator seeded by the operating
/// system, or `None` where it gives no seed.
#[verifier::external_body]
fn rng_from_system() -> (rng: Option<StdRng>) {
    <StdRng as rand::SeedableRng>::from_rng(rand::rngs::OsRng).ok()
}

/// `StdRng::seed_from_u64`: a generator with a given seed.
#[verifier::external_body]
fn rng_from_seed(seed: u64) -> (rng: StdRng) {
    <StdRng as rand::SeedableRng>::seed_from_u64(seed)
}

/// `Rng::gen_range` over `-1..=1`: some number of that range.
#[verifier::external_body]
fn rng_perturbation(rng: &mut StdRng) -> (delta: i32)
    ensures
        -1 <= delta <= 1,
{
    rand::Rng::gen_range(rng, -1..=1)
}

/// The search engine: the position cache, the endgame oracle, and the
/// source of the perturbations that break ties at the root.
pub struct Engine {
    random: Option<StdRng>,
    cache: ScoreCache,
    oracle: Oracle,
}

impl Engine {
    /// The slots of the engine's cache.
    pub closed spec fn slots(&self) -> Slots {
        self.cache@
    }

    /// Whether the engine has tablebases at hand.
    pub closed spec fn stocked(&self) -> bool {
        self.oracle.stocked()
    }

    /// Whether the engine perturbs the scores at the root.
    pub closed spec fn perturbs(&self) -> bool {
        self.random is Some
    }

    /// Whether the engine's cache can be probed and written.
    pub open spec fn wf(&self) -> bool {
        slots_valid(self.slots())
    }

    /// An engine with an empty cache, no tablebases, and perturbations
    /// drawn from a generator that the operating system seeds; where it
    /// gives no seed, the engine does not perturb.
    pub fn new() -> (engine: Engine)
        ensures
            engine.wf(),
            engine.slots() == empty_slots(DEFAULT_CAPACITY as nat),
            !engine.stocked(),
    {
        Engine { random: rng_from_system(), cache: ScoreCache::new(), oracle: Oracle::empty() }
    }

    /// An engine with an empty cache and no tablebases that does not
    /// perturb: equal searches return equal moves.
    pub fn deterministic() -> (engine: Engine)
        ensures
            engine.wf(),
            engine.slots() == empty_slots(DEFAULT_CAPACITY as nat),
            !engine.stocked(),
            !engine.perturbs(),
    {
        Engine { random: None, cache: ScoreCache::new(), oracle: Oracle::empty() }
    }

    /// An engine with an empty cache and no tablebases whose perturbations
    /// come from a generator with the given seed.
    pub fn with_seed(seed: u64) -> (engine: Engine)
        ensures
            engine.wf(),
            engine.slots() == empty_slots(DEFAULT_CAPACITY as nat),
            !engine.stocked(),
            engine.perturbs(),
    {
        Engine {
            random: Some(rng_from_seed(seed)),
            cache: ScoreCache::new(),
            oracle: Oracle::empty(),
        }
    }

    /// Gives the engine the tablebases of a directory, in place of any it
    /// had. Where the directory cannot be read the engine has none.
    pub fn load_tables(&mut self, path: &str)
        requires
            old(self).wf(),
        ensures
            final(self).wf(),
            final(self).slots() == old(self).slots(),
            final(self).perturbs() == old(self).perturbs(),
    {
        self.oracle = Oracle::from_directory(path);
    }

    /// The score kept in the cache for a position, as its player to move
    /// sees it.
    pub fn probe_hash(&self, board: &Board) -> (score: Option<i32>)
        requires
            self.wf(),
        ensures
            score.is_some() == probe_slots(self.slots(), board.hash, board.side).is_some(),
            score matches Some(s) ==> probe_slots(self.slots(), board.hash, board.side) == Some(
                s as int,
            ),
    {
        self.cache.probe(board)
    }

    /// Keeps a score for a position in the cache, given as its player to
    /// move sees it.
    pub fn save_hash(&mut self, board: &Board, eval: i32)
        requires
            old(self).wf(),
            eval > i32::MIN,
        ensures
            final(self).wf(),
            final(self).slots() == record_slots(
                old(self).slots(),
                board.hash,
                board.side,
                eval as int,
            ),
            final(self).stocked() == old(self).stocked(),
            final(self).perturbs() == old(self).perturbs(),
    {
        self.cache.record(board, eval);
    }

    /// The standing-pat score of a position in which the game goes on.
    fn standing_pat(&mut self, board: &Board, alpha: i32, beta: i32) -> (score: i32)
        requires
            old(self).wf(),
        ensures
            final(self).wf(),
            final(self).stocked() == old(self).stocked(),
            final(self).perturbs() == old(self).perturbs(),
            (score as int, final(self).slots()) == stand_pat(
                old(self).slots(),
                *board,
                alpha as int,
                beta as int,
            ),
            score > i32::MIN,
    {
        match self.cache.probe(board) {
            Some(score) => score,
            None => {
                let score = static_evaluation(board, alpha, beta);
                self.cache.record(board, score);
                score
            },
        }
    }

    /// The quiescence search: the score of a position once the captures
    /// and checks that hang over it have been played out. `depth` is the
    /// ply of the quiescence search, 0 at its root; from the limit on no
    /// move is followed, which bounds the search.
    pub fn quiescence_search(
        &mut self,
        board: &Board,
        alpha: i32,
        beta: i32,
        depth: i32,
    ) -> (score: i32)
        requires
            old(self).wf(),
            alpha > i32::MIN,
            beta > i32::MIN,
        ensures
            final(self).wf(),
            final(self).stocked() == old(self).stocked(),
            final(self).perturbs() == old(self).perturbs(),
            (score as int, final(self).slots()) == quiesce(
                old(self).slots(),
                *board,
                alpha as int,
                beta as int,
                depth as int,
            ),
            score > i32::MIN,
            score >= alpha || score >= beta || score >= CHECKMATE_SCORE,
        decreases QUIESCENCE_LIMIT - depth,
    {
        let ghost goal = quiesce(
            old(self).slots(),
            *board,
            alpha as int,
            beta as int,
            depth as int,
        );
        let legal = board.legal_moves();
        if legal.len() == 0 {
            return if board.is_check() {
                CHECKMATE_SCORE
            } else {
                0
            };
        }
        let pat = self.standing_pat(board, alpha, beta);
        if pat >= beta {
            return beta;
        }
        let mut best = if pat > alpha {
            pat
        } else {
            alpha
        };
        if depth >= QUIESCENCE_LIMIT {
            self.cache.record(board, best);
            return best;
        }
        let moves = filter_moves(board, legal, depth);
        let mut i: usize = 0;
        while i < moves.len()
            invariant
                i <= moves.len(),
                self.wf(),
                self.stocked() == old(self).stocked(),
                self.perturbs() == old(self).perturbs(),
                best > i32::MIN,
                best >= alpha,
                beta > i32::MIN,
                depth < QUIESCENCE_LIMIT,
                all_legal(*board, moves@),
                goal == quiesce(
                    old(self).slots(),
                    *board,
                    alpha as int,
                    beta as int,
                    depth as int,
                ),
                quiesce_moves(
                    self.slots(),
                    *board,
                    moves@,
                    i as int,
                    best as int,
                    beta as int,
                    depth as int,
                ) == goal,
            decreases moves.len() - i,
        {
            let next = board.play(&moves[i]);
            let reply = self.quiescence_search(&next, -beta, -best, depth + 1);
            let eval = -reply;
            if eval >= beta {
                return beta;
            }
            if eval > best {
                best = eval;
            }
            i = i + 1;
        }
        self.cache.record(board, best);
        best
    }

    /// The main search: the score of a position searched `depth` plies deep
    /// within the window from `alpha` to `beta`.
    ///
    /// The search runs as `negamax_told` says for what the tablebases
    /// answered on the way; without tablebases that is `negamax_score`.
    pub fn negamax(&mut self, board: &Board, alpha: i32, beta: i32, depth: i32) -> (score: i32)
        requires
            old(self).wf(),
            alpha > i32::MIN,
            beta > i32::MIN,
        ensures
            final(self).wf(),
            final(self).stocked() == old(self).stocked(),
            final(self).perturbs() == old(self).perturbs(),
            score > i32::MIN,
            score >= alpha || score >= beta || score >= CHECKMATE_SCORE,
            exists|answers: Answers| #[trigger]
                searched_as(
                    old(self).slots(),
                    *board,
                    alpha as int,
                    beta as int,
                    depth as int,
                    old(self).stocked(),
                    answers,
                    score as int,
                    final(self).slots(),
                ),
            !old(self).stocked() ==> (score as int, final(self).slots()) == negamax_score(
                old(self).slots(),
                *board,
                alpha as int,
                beta as int,
                depth as int,
            ),
        decreases depth,
    {
        let ghost start = self.slots();
        let ghost stocked = self.stocked();
        let ghost nothing: Answers = Seq::empty();
        if depth <= 0 {
            let score = self.quiescence_search(board, alpha, beta, 0);
            assert(searched_as(
                start,
                *board,
                alpha as int,
                beta as int,
                depth as int,
                stocked,
                nothing,
                score as int,
                self.slots(),
            ));
            return score;
        }
        let legal = board.legal_moves();
        if legal.len() == 0 {
            let score = self.quiescence_search(board, alpha, beta, 0);
            assert(searched_as(
                start,
                *board,
                alpha as int,
                beta as int,
                depth as int,
                stocked,
                nothing,
                score as int,
                self.slots(),
            ));
            return score;
        }
        let ghost mut used: Answers = Seq::empty();
        if is_syzygy(board) && self.oracle.is_stocked() {
            let word = self.oracle.verdict(board);
            proof {
                used = seq![word];
                assert(used.drop_first() =~= nothing);
            }
            match word {
                Some(verdict) => {
                    let score = score_of_verdict(verdict);
                    assert(searched_as(
                        start,
                        *board,
                        alpha as int,
                        beta as int,
                        depth as int,
                        stocked,
                        used,
                        score as int,
                        self.slots(),
                    ));
                    return score;
                },
                None => {},
            }
        }
        let moves = reorder_moves(board, legal);
        let mut best = alpha;
        let mut i: usize = 0;
        proof {
            lemma_search_begins(
                start,
                *board,
                alpha as int,
                beta as int,
                depth as int,
                stocked,
                used,
            );
        }
        while i < moves.len()
            invariant
                i <= moves.len(),
                self.wf(),
                self.stocked() == stocked,
                stocked == old(self).stocked(),
                start == old(self).slots(),
                self.perturbs() == old(self).perturbs(),
                best > i32::MIN,
                best >= alpha,
                beta > i32::MIN,
                depth > 0,
                all_legal(*board, moves@),
                !stocked ==> used.len() == 0,
                search_resumes(
                    start,
                    *board,
                    alpha as int,
                    beta as int,
                    depth as int,
                    stocked,
                    used,
                    self.slots(),
                    moves@,
                    i as int,
                    best as int,
                ),
            decreases moves.len() - i,
        {
            let ghost before = self.slots();
            let ghost low = best;
            let next = board.play(&moves[i]);
            let reply = self.negamax(&next, -beta, -best, depth - 1);
            let ghost floor = -beta as int;
            let ghost roof = -low as int;
            let ghost below = depth as int - 1;
            let ghost told = choose|a: Answers| #[trigger]
                searched_as(
                    before,
                    next,
                    floor,
                    roof,
                    below,
                    stocked,
                    a,
                    reply as int,
                    self.slots(),
                );
            proof {
                lemma_search_moves_on(
                    start,
                    *board,
                    alpha as int,
                    beta as int,
                    depth as int,
                    stocked,
                    used,
                    before,
                    moves@,
                    i as int,
                    low as int,
                    told,
                    reply as int,
                    self.slots(),
                );
                used = used + told;
            }
            let eval = -reply;
            if eval > best {
                best = eval;
            }
            if best >= beta {
                proof {
                    lemma_without_tables(
                        start,
                        *board,
                        alpha as int,
                        beta as int,
                        depth as int,
                        stocked,
                        used,
                        best as int,
                        self.slots(),
                    );
                }
                return best;
            }
            i = i + 1;
        }
        proof {
            lemma_search_ends(
                start,
                *board,
                alpha as int,
                beta as int,
                depth as int,
                stocked,
                used,
                self.slots(),
                moves@,
                best as int,
            );
            lemma_without_tables(
                start,
                *board,
                alpha as int,
                beta as int,
                depth as int,
                stocked,
                used,
                best as int,
                self.slots(),
            );
        }
        best
    }

    /// One perturbation for each of `count` moves: each -1, 0 or 1, and all
    /// 0 where the engine does not perturb.
    pub fn perturbations(&mut self, count: usize) -> (drawn: Vec<i32>)
        requires
            old(self).wf(),
        ensures
            final(self).wf(),
            final(self).slots() == old(self).slots(),
            final(self).stocked() == old(self).stocked(),
            final(self).perturbs() == old(self).perturbs(),
            drawn.len() == count,
            small_perturbations(drawn@),
            !old(self).perturbs() ==> forall|i: int| 0 <= i < count ==> drawn[i] == 0,
    {
        let mut drawn: Vec<i32> = Vec::new();
        let mut i: usize = 0;
        while i < count
            invariant
                i <= count,
                drawn.len() == i,
                self.wf(),
                self.slots() == old(self).slots(),
                self.stocked() == old(self).stocked(),
                self.perturbs() == old(self).perturbs(),
                small_perturbations(drawn@),
                !old(self).perturbs() ==> forall|j: int| 0 <= j < i ==> drawn[j] == 0,
            decreases count - i,
        {
            let delta = match &mut self.random {
                Some(rng) => rng_perturbation(rng),
                None => 0,
            };
            drawn.push(delta);
            i = i + 1;
        }
        drawn
    }

    /// Searches each of the given moves `depth` plies deep and picks the
    /// first with the highest perturbed score.
    pub fn search_root(
        &mut self,
        board: &Board,
        moves: &Vec<Move>,
        perturbations: &Vec<i32>,
        depth: i32,
    ) -> (chosen: Move)
        requires
            old(self).wf(),
            moves.len() > 0,
            all_legal(*board, moves@),
            perturbations.len() == moves.len(),
            small_perturbations(perturbations@),
            depth >= 1,
        ensures
            final(self).wf(),
            final(self).stocked() == old(self).stocked(),
            final(self).perturbs() == old(self).perturbs(),
            moves@.contains(chosen),
            exists|answers: Answers| #[trigger]
                chosen_as(
                    old(self).slots(),
                    *board,
                    moves@,
                    perturbations@,
                    depth as int,
                    old(self).stocked(),
                    answers,
                    chosen,
                    final(self).slots(),
                ),
    {
        let ghost start = self.slots();
        let ghost stocked = self.stocked();
        let ghost mut used: Answers = Seq::empty();
        let ghost mut best: Option<(Move, int)> = None;
        let mut chosen = moves[0];
        let mut top: i32 = 0;
        let mut i: usize = 0;
        proof {
            lemma_choice_begins(start, *board, moves@, perturbations@, depth as int, stocked);
        }
        while i < moves.len()
            invariant
                i <= moves.len(),
                moves.len() > 0,
                self.wf(),
                self.stocked() == stocked,
                stocked == old(self).stocked(),
                start == old(self).slots(),
                self.perturbs() == old(self).perturbs(),
                all_legal(*board, moves@),
                perturbations.len() == moves.len(),
                small_perturbations(perturbations@),
                depth >= 1,
                moves@.contains(chosen),
                !stocked ==> used.len() == 0,
                i > 0 ==> best == Some((chosen, top as int)),
                i == 0 ==> best is None,
                choice_resumes(
                    start,
                    *board,
                    moves@,
                    perturbations@,
                    depth as int,
                    stocked,
                    used,
                    self.slots(),
                    i as int,
                    best,
                ),
            decreases moves.len() - i,
        {
            let ghost before = self.slots();
            let next = board.play(&moves[i]);
            let reply = self.negamax(&next, -FULL_WINDOW, FULL_WINDOW, depth - 1);
            let ghost floor = -FULL_WINDOW as int;
            let ghost roof = FULL_WINDOW as int;
            let ghost below = depth as int - 1;
            let ghost told = choose|a: Answers| #[trigger]
                searched_as(
                    before,
                    next,
                    floor,
                    roof,
                    below,
                    stocked,
                    a,
                    reply as int,
                    self.slots(),
                );
            let score = -reply + perturbations[i];
            proof {
                lemma_choice_moves_on(
                    start,
                    *board,
                    moves@,
                    perturbations@,
                    depth as int,
                    stocked,
                    used,
                    before,
                    i as int,
                    best,
                    told,
                    reply as int,
                    self.slots(),
                );
                used = used + told;
                best = better_of(best, moves[i as int], score as int);
            }
            if i == 0 || score > top {
                chosen = moves[i];
                top = score;
            }
            i = i + 1;
        }
        proof {
            lemma_choice_ends(
                start,
                *board,
                moves@,
                perturbations@,
                depth as int,
                stocked,
                used,
                self.slots(),
                chosen,
                top as int,
            );
        }
        chosen
    }

    /// Whether a position is small enough for the tablebases.
    pub fn is_syzygy(&self, board: &Board) -> (r: bool)
        ensures
            r == consultable(*board),
    {
        is_syzygy(board)
    }

    /// Puts a position to the tablebases: the score for the player to move
    /// and the recommended move. A position that has ended is answered
    /// without them.
    pub fn convert_endgame(&self, board: &Board) -> (answer: Result<
        (i32, Option<Move>),
        OracleError,
    >)
        ensures
            exists|asked: Consultation|
                {
                    &&& !self.stocked() || !prober_takes(*board) ==> asked.sign is None
                        && asked.best is None
                    &&& match (answer, #[trigger] endgame_outcome(board.status_spec(), asked)) {
                        (Ok((score, chosen)), Ok((s, c))) => score == s && chosen == c,
                        (Err(e), Err(f)) => e == f,
                        _ => false,
                    }
                },
    {
        let status = board.status();
        let asked = match status {
            Status::Ongoing => self.oracle.consult(board),
            _ => Consultation { sign: None, best: None },
        };
        let answer = endgame_result(status, &asked);
        assert(endgame_outcome(board.status_spec(), asked) == endgame_outcome(status, asked));
        answer
    }

    /// Chooses a move for the player to move, searching `depth` plies
    /// deep; a depth below 1 counts as 1.
    ///
    /// A position that has ended has no move, and the result says how it
    /// ended. A position small enough for the tablebases is theirs where
    /// they answer. For any other position a move is always found.
    pub fn negamax_root(&mut self, board: &Board, depth: i32) -> (found: Result<Move, NoMove>)
        requires
            old(self).wf(),
        ensures
            final(self).wf(),
            final(self).stocked() == old(self).stocked(),
            final(self).perturbs() == old(self).perturbs(),
            found matches Ok(m) ==> board.legal_moves_spec().contains(m) && m.from < 64 && m.to
                < 64,
            root_searched(
                old(self).slots(),
                *board,
                depth as int,
                old(self).stocked(),
                old(self).perturbs(),
                found,
                final(self).slots(),
            ),
    {
        let plies = if depth < MIN_DEPTH {
            MIN_DEPTH
        } else {
            depth
        };
        let legal = board.legal_moves();
        let status = board.status();
        let small = is_syzygy(board);
        let nothing = Consultation { sign: None, best: None };
        let asked = if small {
            match status {
                Status::Ongoing => self.oracle.consult(board),
                _ => nothing,
            }
        } else {
            nothing
        };
        match plan_root(status, small, &asked, &legal) {
            RootPlan::Stop(why) => {
                assert(root_outcome(
                    old(self).slots(),
                    *board,
                    depth as int,
                    old(self).stocked(),
                    asked,
                    Seq::<i32>::empty(),
                    Seq::<Option<Verdict>>::empty(),
                    Err::<Move, NoMove>(why),
                    self.slots(),
                ));
                Err(why)
            },
            RootPlan::Oracle(chosen) => {
                assert(root_outcome(
                    old(self).slots(),
                    *board,
                    depth as int,
                    old(self).stocked(),
                    asked,
                    Seq::<i32>::empty(),
                    Seq::<Option<Verdict>>::empty(),
                    Ok::<Move, NoMove>(chosen),
                    self.slots(),
                ));
                Ok(chosen)
            },
            RootPlan::Search => {
                let moves = reorder_moves(board, legal);
                let perturbations = self.perturbations(moves.len());
                let ghost before = self.slots();
                let chosen = self.search_root(board, &moves, &perturbations, plies);
                proof {
                    crate::rules::lemma_legal_move_on_board(*board, chosen);
                    let answers = choose|answers: Answers| #[trigger]
                        chosen_as(
                            before,
                            *board,
                            moves@,
                            perturbations@,
                            plies as int,
                            old(self).stocked(),
                            answers,
                            chosen,
                            self.slots(),
                        );
                    assert(root_outcome(
                        old(self).slots(),
                        *board,
                        depth as int,
                        old(self).stocked(),
                        asked,
                        perturbations@,
                        answers,
                        Ok::<Move, NoMove>(chosen),
                        self.slots(),
                    ));
                }
                Ok(chosen)
            },
        }
    }

    /// Chooses a move for the player to move.
    pub fn play(&mut self, board: &Board, depth: i32) -> (found: Result<Move, NoMove>)
        requires
            old(self).wf(),
        ensures
            final(self).wf(),
            final(self).stocked() == old(self).stocked(),
            final(self).perturbs() == old(self).perturbs(),
            found matches Ok(m) ==> board.legal_moves_spec().contains(m) && m.from < 64 && m.to
                < 64,
            root_searched(
                old(self).slots(),
                *board,
                depth as int,
                old(self).stocked(),
                old(self).perturbs(),
                found,
                final(self).slots(),
            ),
    {
        self.negamax_root(board, depth)
    }
}

} // verus!
