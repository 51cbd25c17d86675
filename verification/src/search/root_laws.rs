use vstd::prelude::*;
use crate::position::{position_after, Move, PositionData};
use crate::search::alpha_beta::{
    first_window, registered, root_after, root_move_spec, root_step, visited_twice, RootOutcome,
};

verus! {

/// Whether the root search searches the move `moves[k]`: it does unless
/// the move leads to a position that the game has reached twice.
pub open spec fn is_admitted(p: PositionData, moves: Seq<Move>, k: int, visits: Map<u64, u8>)
    -> bool {
    !visited_twice(visits, position_after(p, moves[k]).hash)
}

/// The score that the root search accepts for the move `moves[k]`: what
/// the search of the move gives, with the window that the kept scores give
/// and the table as the moves before left it.
pub open spec fn accepted_score(
    p: PositionData,
    moves: Seq<Move>,
    k: int,
    depth: u8,
    visits: Map<u64, u8>,
    start: RootOutcome,
) -> i32 {
    let so_far = root_after(p, moves, k, depth, visits, start);
    let child = position_after(p, moves[k]);
    root_move_spec(
        child,
        first_window(so_far.scores, child.hash),
        depth,
        p.white_to_move,
        so_far.state,
    ).0 as i32
}

/// Whether the score `a` is better than `b` for the side to move: higher
/// for White, lower for Black.
pub open spec fn is_better(white: bool, a: i32, b: i32) -> bool {
    if white {
        a > b
    } else {
        a < b
    }
}

/// While no move was searched, the root search holds what it started from.
pub proof fn lemma_root_holds_nothing(
    p: PositionData,
    moves: Seq<Move>,
    n: int,
    depth: u8,
    visits: Map<u64, u8>,
    start: RootOutcome,
)
    requires
        0 <= n <= moves.len(),
        forall|k: int| 0 <= k < n ==> !is_admitted(p, moves, k, visits),
    ensures
        root_after(p, moves, n, depth, visits, start) == start,
    decreases n,
{
    if n > 0 {
        lemma_root_holds_nothing(p, moves, n - 1, depth, visits, start);
        assert(!is_admitted(p, moves, n - 1, visits));
    }
}

/// The root search holds the best of the moves that it searched: after the
/// first `n` moves, of which it searched one at least, it holds one of the
/// searched moves with its accepted score; no searched move has a score
/// that is better for the side to move, and every searched move before it
/// has a worse one.
pub proof fn lemma_root_best_is_extremal(
    p: PositionData,
    moves: Seq<Move>,
    n: int,
    depth: u8,
    visits: Map<u64, u8>,
    start: RootOutcome,
) -> (j: int)
    requires
        0 <= n <= moves.len(),
        start.best.0 is None,
        exists|k: int| 0 <= k < n && is_admitted(p, moves, k, visits),
    ensures
        0 <= j < n,
        is_admitted(p, moves, j, visits),
        root_after(p, moves, n, depth, visits, start).best == (
            Some(moves[j]),
            accepted_score(p, moves, j, depth, visits, start),
        ),
        forall|k: int|
            0 <= k < n && is_admitted(p, moves, k, visits) ==> !is_better(
                p.white_to_move,
                #[trigger] accepted_score(p, moves, k, depth, visits, start),
                accepted_score(p, moves, j, depth, visits, start),
            ),
        forall|k: int|
            0 <= k < j && is_admitted(p, moves, k, visits) ==> is_better(
                p.white_to_move,
                accepted_score(p, moves, j, depth, visits, start),
                #[trigger] accepted_score(p, moves, k, depth, visits, start),
            ),
    decreases n,
{
    let last = n - 1;
    let before = root_after(p, moves, last, depth, visits, start);
    let after = root_after(p, moves, n, depth, visits, start);
    assert(after == root_step(p, moves[last], depth, visits, before));
    if exists|k: int| 0 <= k < last && is_admitted(p, moves, k, visits) {
        let i = lemma_root_best_is_extremal(p, moves, last, depth, visits, start);
        if is_admitted(p, moves, last, visits) {
            let score = accepted_score(p, moves, last, depth, visits, start);
            assert(after.best == registered(before.best, moves[last], score, p.white_to_move));
            if is_better(p.white_to_move, score, before.best.1) {
                last
            } else {
                i
            }
        } else {
            i
        }
    } else {
        lemma_root_holds_nothing(p, moves, last, depth, visits, start);
        assert(is_admitted(p, moves, last, visits));
        last
    }
}

/// The root search keeps the score of every move that it searched: after
/// the first `n` moves the kept scores hold, for the position that the
/// searched move `moves[k]` leads to, the score accepted for that move,
/// unless a later searched move leads to the same position.
pub proof fn lemma_root_keeps_score(
    p: PositionData,
    moves: Seq<Move>,
    n: int,
    k: int,
    depth: u8,
    visits: Map<u64, u8>,
    start: RootOutcome,
)
    requires
        0 <= k < n <= moves.len(),
        is_admitted(p, moves, k, visits),
        forall|l: int|
            k < l < n && is_admitted(p, moves, l, visits) ==> position_after(
                p,
                #[trigger] moves[l],
            ).hash != position_after(p, moves[k]).hash,
    ensures
        root_after(p, moves, n, depth, visits, start).scores.dom().contains(
            position_after(p, moves[k]).hash,
        ),
        root_after(p, moves, n, depth, visits, start).scores[position_after(p, moves[k]).hash]
            == accepted_score(p, moves, k, depth, visits, start),
    decreases n,
{
    let last = n - 1;
    let before = root_after(p, moves, last, depth, visits, start);
    let after = root_after(p, moves, n, depth, visits, start);
    assert(after == root_step(p, moves[last], depth, visits, before));
    if k < last {
        lemma_root_keeps_score(p, moves, last, k, depth, visits, start);
        if is_admitted(p, moves, last, visits) {
            assert(position_after(p, moves[last]).hash != position_after(p, moves[k]).hash);
        }
    }
}

/// The root search leaves the kept score of every position that no
/// searched move leads to as it was.
pub proof fn lemma_root_leaves_other_scores(
    p: PositionData,
    moves: Seq<Move>,
    n: int,
    hash: u64,
    depth: u8,
    visits: Map<u64, u8>,
    start: RootOutcome,
)
    requires
        0 <= n <= moves.len(),
        forall|k: int|
            0 <= k < n && is_admitted(p, moves, k, visits) ==> position_after(
                p,
                #[trigger] moves[k],
            ).hash != hash,
    ensures
        root_after(p, moves, n, depth, visits, start).scores.dom().contains(hash)
            == start.scores.dom().contains(hash),
        start.scores.dom().contains(hash) ==> root_after(
            p,
            moves,
            n,
            depth,
            visits,
            start,
        ).scores[hash] == start.scores[hash],
    decreases n,
{
    if n > 0 {
        let last = n - 1;
        lemma_root_leaves_other_scores(p, moves, last, hash, depth, visits, start);
        let before = root_after(p, moves, last, depth, visits, start);
        let after = root_after(p, moves, n, depth, visits, start);
        assert(after == root_step(p, moves[last], depth, visits, before));
        if is_admitted(p, moves, last, visits) {
            assert(position_after(p, moves[last]).hash != hash);
        }
    }
}

} // verus!
