//! Move ordering for the main search and the choice of tactical moves for
//! the quiescence search.
use crate::board::{Board, Move};
use crate::rules::{gives_check, is_capture};
use vstd::prelude::*;

verus! {

/// The ply of the quiescence search from which quiet checks are no longer
/// followed.
pub const CHECK_HORIZON: i32 = 10;

/// How attractive a move is: 2 if it gives check, 1 if it captures without
/// giving check, 0 otherwise.
pub open spec fn move_rank(position: Board, m: Move) -> int {
    if position.checks(m) {
        2
    } else if position.captures(m) {
        1
    } else {
        0
    }
}

/// The moves of a given rank among `moves[i..]`, the last of them first.
pub open spec fn ranked_from(position: Board, moves: Seq<Move>, rank: int, i: int) -> Seq<Move>
    decreases moves.len() - i,
{
    if i < 0 || i >= moves.len() {
        Seq::empty()
    } else if move_rank(position, moves[i]) == rank {
        ranked_from(position, moves, rank, i + 1).push(moves[i])
    } else {
        ranked_from(position, moves, rank, i + 1)
    }
}

/// The order in which the main search tries the moves: checks first, then
/// captures, then the rest, and within each group the move generated last
/// first.
pub open spec fn ordered(position: Board, moves: Seq<Move>) -> Seq<Move> {
    ranked_from(position, moves, 2, 0) + ranked_from(position, moves, 1, 0) + ranked_from(
        position,
        moves,
        0,
        0,
    )
}

/// Whether the quiescence search follows a move from a position in which
/// the mover is not in check: captures always, checks below the horizon.
pub open spec fn is_tactical(position: Board, m: Move, ply: int) -> bool {
    position.captures(m) || (position.checks(m) && ply < CHECK_HORIZON)
}

/// The tactical moves among the first `n` of `moves`, in their order.
pub open spec fn tactical_prefix(position: Board, moves: Seq<Move>, ply: int, n: int) -> Seq<
    Move,
>
    decreases n,
{
    if n <= 0 || n > moves.len() {
        Seq::empty()
    } else if is_tactical(position, moves[n - 1], ply) {
        tactical_prefix(position, moves, ply, n - 1).push(moves[n - 1])
    } else {
        tactical_prefix(position, moves, ply, n - 1)
    }
}

/// The moves that the quiescence search follows: every move where the
/// mover is in check, and otherwise the tactical ones, in their order.
pub open spec fn tactical(position: Board, moves: Seq<Move>, ply: int) -> Seq<Move> {
    if position.in_check() {
        moves
    } else {
        tactical_prefix(position, moves, ply, moves.len() as int)
    }
}

/// Whether every move of a list is legal in a position.
pub open spec fn all_legal(position: Board, moves: Seq<Move>) -> bool {
    forall|i: int|
        0 <= i < moves.len() ==> position.legal_moves_spec().contains(#[trigger] moves[i])
}

/// The moves of one rank are moves of the list, and there are as many as
/// the list holds of that rank.
pub proof fn lemma_ranked_from(position: Board, moves: Seq<Move>, rank: int, i: int)
    requires
        0 <= i <= moves.len(),
    ensures
        ranked_from(position, moves, rank, i).len() <= moves.len() - i,
        forall|j: int|
            0 <= j < ranked_from(position, moves, rank, i).len() ==> moves.contains(
                #[trigger] ranked_from(position, moves, rank, i)[j],
            ),
    decreases moves.len() - i,
{
    if i < moves.len() {
        lemma_ranked_from(position, moves, rank, i + 1);
        let rest = ranked_from(position, moves, rank, i + 1);
        let all = ranked_from(position, moves, rank, i);
        assert forall|j: int| 0 <= j < all.len() implies moves.contains(#[trigger] all[j]) by {
            if j < rest.len() {
                assert(all[j] == rest[j]);
            } else {
                assert(all[j] == moves[i]);
            }
        }
    }
}

/// The three ranks together hold every move of the list once.
pub proof fn lemma_ranks_partition(position: Board, moves: Seq<Move>, i: int)
    requires
        0 <= i <= moves.len(),
    ensures
        ranked_from(position, moves, 2, i).len() + ranked_from(position, moves, 1, i).len()
            + ranked_from(position, moves, 0, i).len() == moves.len() - i,
    decreases moves.len() - i,
{
    if i < moves.len() {
        lemma_ranks_partition(position, moves, i + 1);
    }
}

/// Ordering keeps the moves: the ordered list is as long as the list, and
/// each of its moves is one of the list.
pub proof fn lemma_ordered_keeps_moves(position: Board, moves: Seq<Move>)
    ensures
        ordered(position, moves).len() == moves.len(),
        forall|j: int|
            0 <= j < ordered(position, moves).len() ==> moves.contains(
                #[trigger] ordered(position, moves)[j],
            ),
{
    lemma_ranks_partition(position, moves, 0);
    lemma_ranked_from(position, moves, 2, 0);
    lemma_ranked_from(position, moves, 1, 0);
    lemma_ranked_from(position, moves, 0, 0);
}

/// The tactical moves are moves of the list.
pub proof fn lemma_tactical_prefix(position: Board, moves: Seq<Move>, ply: int, n: int)
    requires
        0 <= n <= moves.len(),
    ensures
        forall|j: int|
            0 <= j < tactical_prefix(position, moves, ply, n).len() ==> moves.contains(
                #[trigger] tactical_prefix(position, moves, ply, n)[j],
            ),
    decreases n,
{
    if n > 0 {
        lemma_tactical_prefix(position, moves, ply, n - 1);
        let rest = tactical_prefix(position, moves, ply, n - 1);
        let all = tactical_prefix(position, moves, ply, n);
        assert forall|j: int| 0 <= j < all.len() implies moves.contains(#[trigger] all[j]) by {
            if j < rest.len() {
                assert(all[j] == rest[j]);
            } else {
                assert(all[j] == moves[n - 1]);
            }
        }
    }
}

/// Every move among the tactical moves of the first `n` is a capture or a
/// check made below the horizon.
pub proof fn lemma_tactical_prefix_is_forcing(
    position: Board,
    moves: Seq<Move>,
    ply: int,
    n: int,
)
    requires
        0 <= n <= moves.len(),
    ensures
        forall|j: int|
            0 <= j < tactical_prefix(position, moves, ply, n).len() ==> is_tactical(
                position,
                #[trigger] tactical_prefix(position, moves, ply, n)[j],
                ply,
            ),
    decreases n,
{
    if n > 0 {
        lemma_tactical_prefix_is_forcing(position, moves, ply, n - 1);
        let rest = tactical_prefix(position, moves, ply, n - 1);
        let all = tactical_prefix(position, moves, ply, n);
        assert forall|j: int| 0 <= j < all.len() implies is_tactical(
            position,
            #[trigger] all[j],
            ply,
        ) by {
            if j < rest.len() {
                assert(all[j] == rest[j]);
            }
        }
    }
}

/// Every move that the quiescence search follows is a reply to a check, a
/// capture, in passing or otherwise, or a check made below the horizon.
pub proof fn lemma_tactical_is_forcing(position: Board, moves: Seq<Move>, ply: int)
    ensures
        forall|j: int|
            0 <= j < tactical(position, moves, ply).len() ==> position.in_check()
                || position.captures(#[trigger] tactical(position, moves, ply)[j]) || (
            position.checks(tactical(position, moves, ply)[j]) && ply < CHECK_HORIZON),
{
    if !position.in_check() {
        lemma_tactical_prefix_is_forcing(position, moves, ply, moves.len() as int);
    }
}

/// How attractive a legal move is: 2 for a check, 1 for a capture, 0 for
/// any other move.
pub fn sorting_func(board: &Board, chess_move: &Move) -> (rank: i32)
    requires
        board.legal_moves_spec().contains(*chess_move),
    ensures
        rank == move_rank(*board, *chess_move),
{
    if gives_check(chess_move, board) {
        2
    } else if is_capture(chess_move, board) {
        1
    } else {
        0
    }
}

/// Orders legal moves for the main search: checks, then captures, then the
/// rest, and within each group the move generated last first.
pub fn reorder_moves(board: &Board, moves: Vec<Move>) -> (sorted: Vec<Move>)
    requires
        all_legal(*board, moves@),
    ensures
        sorted@ == ordered(*board, moves@),
        sorted.len() == moves.len(),
        all_legal(*board, sorted@),
{
    let n = moves.len();
    let mut ranks: Vec<i32> = Vec::new();
    let mut i: usize = 0;
    while i < n
        invariant
            n == moves.len(),
            i <= n,
            ranks.len() == i,
            all_legal(*board, moves@),
            forall|j: int| 0 <= j < i ==> ranks[j] == move_rank(*board, #[trigger] moves[j]),
        decreases n - i,
    {
        ranks.push(sorting_func(board, &moves[i]));
        i = i + 1;
    }
    let mut sorted: Vec<Move> = Vec::new();
    let mut rank: i32 = 2;
    while rank >= 0
        invariant
            n == moves.len(),
            ranks.len() == n,
            -1 <= rank <= 2,
            forall|j: int| 0 <= j < n ==> ranks[j] == move_rank(*board, #[trigger] moves[j]),
            rank == 2 ==> sorted@ == Seq::<Move>::empty(),
            rank == 1 ==> sorted@ == ranked_from(*board, moves@, 2, 0),
            rank == 0 ==> sorted@ == ranked_from(*board, moves@, 2, 0) + ranked_from(
                *board,
                moves@,
                1,
                0,
            ),
            rank == -1 ==> sorted@ == ordered(*board, moves@),
        decreases rank + 1,
    {
        let ghost before = sorted@;
        let mut k: usize = n;
        while k > 0
            invariant
                n == moves.len(),
                ranks.len() == n,
                k <= n,
                forall|j: int| 0 <= j < n ==> ranks[j] == move_rank(*board, #[trigger] moves[j]),
                sorted@ == before + ranked_from(*board, moves@, rank as int, k as int),
            decreases k,
        {
            k = k - 1;
            if ranks[k] == rank {
                sorted.push(moves[k]);
            }
        }
        rank = rank - 1;
    }
    proof {
        lemma_ordered_keeps_moves(*board, moves@);
    }
    sorted
}

/// Picks the moves that the quiescence search follows at a ply: every move
/// where the mover is in check; otherwise the captures and, below the
/// horizon, the checks.
pub fn filter_moves(board: &Board, moves: Vec<Move>, depth: i32) -> (kept: Vec<Move>)
    requires
        all_legal(*board, moves@),
    ensures
        kept@ == tactical(*board, moves@, depth as int),
        all_legal(*board, kept@),
{
    if board.is_check() {
        return moves;
    }
    let n = moves.len();
    let mut kept: Vec<Move> = Vec::new();
    let mut i: usize = 0;
    while i < n
        invariant
            n == moves.len(),
            i <= n,
            all_legal(*board, moves@),
            kept@ == tactical_prefix(*board, moves@, depth as int, i as int),
        decreases n - i,
    {
        let m = moves[i];
        if (depth < CHECK_HORIZON && gives_check(&m, board)) || is_capture(&m, board) {
            kept.push(m);
        }
        i = i + 1;
    }
    proof {
        lemma_tactical_prefix(*board, moves@, depth as int, n as int);
    }
    kept
}

} // verus!
