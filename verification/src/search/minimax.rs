use vstd::prelude::*;
use vstd::seq_lib::to_multiset_contains;
use crate::evaluation::evaluate::{CONSIDERED_MATE, MATE_SCORE};
use crate::position::{legal_moves_of, position_after, Move, PositionData};
use crate::search::alpha_beta::{
    first_window, is_leaf, nothing_found, registered, reply_to_max, reply_to_min, root_after,
    root_move_spec, root_spec, root_start, search_max_from, search_max_spec, search_min_from,
    search_min_spec, search_order, visited_twice, widen_room, AspirationWindow, BestMove,
    RootOutcome,
};
use crate::search::move_order::lemma_order_is_permutation;
use crate::search::quiesce_search::{
    higher, lemma_quiesce_max_is_minimax, lemma_quiesce_min_is_minimax,
    lemma_quiesce_value_bounds, lower, quiesce_value_max, quiesce_value_min, stands_for,
};
use crate::search::{cached_score, SearchState};

verus! {

/// The value of a position for the maximizer when every line is played
/// out to `depth` and nothing is cut off or taken from the table: at a leaf
/// the value of the quiescence search, else the best of the values that the
/// minimizer has after the moves.
pub open spec fn full_value_max(p: PositionData, depth: u8) -> int
    decreases depth, 1int, 0int,
{
    if is_leaf(p, depth) {
        quiesce_value_max(p)
    } else {
        best_for_max(p, legal_moves_of(p), legal_moves_of(p).len() as int, depth)
    }
}

/// The best for the maximizer of the values after the first `n` of `moves`.
pub open spec fn best_for_max(p: PositionData, moves: Seq<Move>, n: int, depth: u8) -> int
    decreases depth, 0int, n,
{
    if depth == 0 {
        0
    } else if n <= 1 {
        full_value_min(position_after(p, moves[0]), (depth - 1) as u8)
    } else {
        higher(
            best_for_max(p, moves, n - 1, depth),
            full_value_min(position_after(p, moves[n - 1]), (depth - 1) as u8),
        )
    }
}

/// The value of a position for the minimizer when every line is played
/// out to `depth` and nothing is cut off or taken from the table.
pub open spec fn full_value_min(p: PositionData, depth: u8) -> int
    decreases depth, 1int, 0int,
{
    if is_leaf(p, depth) {
        quiesce_value_min(p)
    } else {
        best_for_min(p, legal_moves_of(p), legal_moves_of(p).len() as int, depth)
    }
}

/// The best for the minimizer of the values after the first `n` of `moves`.
pub open spec fn best_for_min(p: PositionData, moves: Seq<Move>, n: int, depth: u8) -> int
    decreases depth, 0int, n,
{
    if depth == 0 {
        0
    } else if n <= 1 {
        full_value_max(position_after(p, moves[0]), (depth - 1) as u8)
    } else {
        lower(
            best_for_min(p, moves, n - 1, depth),
            full_value_max(position_after(p, moves[n - 1]), (depth - 1) as u8),
        )
    }
}

/// Whether no node of the tree below a position, leaves apart, has a value
/// beyond `CONSIDERED_MATE`, so that no score is changed on its way up; and
/// each of these nodes, in which the game goes on, has a move.
pub open spec fn calm_max(p: PositionData, depth: u8) -> bool
    decreases depth, 1int,
{
    is_leaf(p, depth) || (legal_moves_of(p).len() > 0 && -CONSIDERED_MATE <= full_value_max(
        p,
        depth,
    ) <= CONSIDERED_MATE && forall|i: int|
        0 <= i < legal_moves_of(p).len() ==> calm_min(
            position_after(p, #[trigger] legal_moves_of(p)[i]),
            (depth - 1) as u8,
        ))
}

/// As `calm_max`, for a node of the minimizer.
pub open spec fn calm_min(p: PositionData, depth: u8) -> bool
    decreases depth, 1int,
{
    is_leaf(p, depth) || (legal_moves_of(p).len() > 0 && -CONSIDERED_MATE <= full_value_min(
        p,
        depth,
    ) <= CONSIDERED_MATE && forall|i: int|
        0 <= i < legal_moves_of(p).len() ==> calm_max(
            position_after(p, #[trigger] legal_moves_of(p)[i]),
            (depth - 1) as u8,
        ))
}

/// Whether the search of a node of the maximizer takes no score from the
/// table: for no position that it comes to does the table hold a usable
/// score.
pub open spec fn table_silent_max(
    p: PositionData,
    alpha: int,
    beta: int,
    depth: u8,
    s: SearchState,
) -> bool
    decreases depth, 1int, 0int,
{
    is_leaf(p, depth) || table_silent_max_from(p, search_order(p, s), 0, alpha, beta, depth, s)
}

/// Whether the maximizer's search from `moves[i]` on takes no score from
/// the table.
pub open spec fn table_silent_max_from(
    p: PositionData,
    moves: Seq<Move>,
    i: int,
    alpha: int,
    beta: int,
    depth: u8,
    s: SearchState,
) -> bool
    decreases depth, 0int, moves.len() - i,
{
    if depth == 0 || i < 0 || i >= moves.len() {
        true
    } else {
        let child = position_after(p, moves[i]);
        let below = (depth - 1) as u8;
        let reply = reply_to_max(child, alpha, beta, below, s);
        &&& cached_score(s.table, child.hash, alpha, beta, below) is None
        &&& table_silent_min(child, alpha, beta, below, s)
        &&& reply.0 < beta ==> table_silent_max_from(
            p,
            moves,
            i + 1,
            higher(alpha, reply.0),
            beta,
            depth,
            reply.1,
        )
    }
}

/// Whether the search of a node of the minimizer takes no score from the
/// table.
pub open spec fn table_silent_min(
    p: PositionData,
    alpha: int,
    beta: int,
    depth: u8,
    s: SearchState,
) -> bool
    decreases depth, 1int, 0int,
{
    is_leaf(p, depth) || table_silent_min_from(p, search_order(p, s), 0, alpha, beta, depth, s)
}

/// Whether the minimizer's search from `moves[i]` on takes no score from
/// the table.
pub open spec fn table_silent_min_from(
    p: PositionData,
    moves: Seq<Move>,
    i: int,
    alpha: int,
    beta: int,
    depth: u8,
    s: SearchState,
) -> bool
    decreases depth, 0int, moves.len() - i,
{
    if depth == 0 || i < 0 || i >= moves.len() {
        true
    } else {
        let child = position_after(p, moves[i]);
        let below = (depth - 1) as u8;
        let reply = reply_to_min(child, alpha, beta, below, s);
        &&& cached_score(s.table, child.hash, alpha, beta, below) is None
        &&& table_silent_max(child, alpha, beta, below, s)
        &&& reply.0 > alpha ==> table_silent_min_from(
            p,
            moves,
            i + 1,
            alpha,
            lower(beta, reply.0),
            depth,
            reply.1,
        )
    }
}

/// The best for the maximizer is the value after one of the moves, and no
/// value after a move is better.
pub proof fn lemma_best_for_max(p: PositionData, moves: Seq<Move>, n: int, depth: u8)
    requires
        depth > 0,
        1 <= n <= moves.len(),
    ensures
        exists|i: int|
            0 <= i < n && best_for_max(p, moves, n, depth) == full_value_min(
                position_after(p, #[trigger] moves[i]),
                (depth - 1) as u8,
            ),
        forall|i: int|
            0 <= i < n ==> full_value_min(position_after(p, #[trigger] moves[i]), (depth - 1) as u8)
                <= best_for_max(p, moves, n, depth),
    decreases n,
{
    if n > 1 {
        lemma_best_for_max(p, moves, n - 1, depth);
        let before = best_for_max(p, moves, n - 1, depth);
        let last = full_value_min(position_after(p, moves[n - 1]), (depth - 1) as u8);
        if last > before {
            assert(best_for_max(p, moves, n, depth) == full_value_min(
                position_after(p, moves[n - 1]),
                (depth - 1) as u8,
            ));
        } else {
            let i = choose|i: int|
                0 <= i < n - 1 && before == full_value_min(
                    position_after(p, #[trigger] moves[i]),
                    (depth - 1) as u8,
                );
            assert(0 <= i < n && best_for_max(p, moves, n, depth) == full_value_min(
                position_after(p, moves[i]),
                (depth - 1) as u8,
            ));
        }
    } else {
        assert(best_for_max(p, moves, n, depth) == full_value_min(
            position_after(p, moves[0]),
            (depth - 1) as u8,
        ));
    }
}

/// The best for the minimizer is the value after one of the moves, and no
/// value after a move is better.
pub proof fn lemma_best_for_min(p: PositionData, moves: Seq<Move>, n: int, depth: u8)
    requires
        depth > 0,
        1 <= n <= moves.len(),
    ensures
        exists|i: int|
            0 <= i < n && best_for_min(p, moves, n, depth) == full_value_max(
                position_after(p, #[trigger] moves[i]),
                (depth - 1) as u8,
            ),
        forall|i: int|
            0 <= i < n ==> full_value_max(position_after(p, #[trigger] moves[i]), (depth - 1) as u8)
                >= best_for_min(p, moves, n, depth),
    decreases n,
{
    if n > 1 {
        lemma_best_for_min(p, moves, n - 1, depth);
        let before = best_for_min(p, moves, n - 1, depth);
        let last = full_value_max(position_after(p, moves[n - 1]), (depth - 1) as u8);
        if last < before {
            assert(best_for_min(p, moves, n, depth) == full_value_max(
                position_after(p, moves[n - 1]),
                (depth - 1) as u8,
            ));
        } else {
            let i = choose|i: int|
                0 <= i < n - 1 && before == full_value_max(
                    position_after(p, #[trigger] moves[i]),
                    (depth - 1) as u8,
                );
            assert(0 <= i < n && best_for_min(p, moves, n, depth) == full_value_max(
                position_after(p, moves[i]),
                (depth - 1) as u8,
            ));
        }
    } else {
        assert(best_for_min(p, moves, n, depth) == full_value_max(
            position_after(p, moves[0]),
            (depth - 1) as u8,
        ));
    }
}

/// The best for the maximizer does not depend on the order of the moves.
pub proof fn lemma_best_for_max_of_rearranged(
    p: PositionData,
    a: Seq<Move>,
    b: Seq<Move>,
    depth: u8,
)
    requires
        depth > 0,
        a.len() >= 1,
        a.to_multiset() == b.to_multiset(),
    ensures
        a.len() == b.len(),
        best_for_max(p, a, a.len() as int, depth) == best_for_max(p, b, b.len() as int, depth),
{
    a.to_multiset_ensures();
    b.to_multiset_ensures();
    lemma_best_for_max(p, a, a.len() as int, depth);
    lemma_best_for_max(p, b, b.len() as int, depth);
    let i = choose|i: int|
        0 <= i < a.len() && best_for_max(p, a, a.len() as int, depth) == full_value_min(
            position_after(p, #[trigger] a[i]),
            (depth - 1) as u8,
        );
    let j = choose|j: int|
        0 <= j < b.len() && best_for_max(p, b, b.len() as int, depth) == full_value_min(
            position_after(p, #[trigger] b[j]),
            (depth - 1) as u8,
        );
    lemma_same_moves(a, b, a[i]);
    lemma_same_moves(b, a, b[j]);
    let i2 = choose|k: int| 0 <= k < b.len() && b[k] == a[i];
    let j2 = choose|k: int| 0 <= k < a.len() && a[k] == b[j];
    assert(b[i2] == a[i]);
    assert(a[j2] == b[j]);
}

/// The best for the minimizer does not depend on the order of the moves.
pub proof fn lemma_best_for_min_of_rearranged(
    p: PositionData,
    a: Seq<Move>,
    b: Seq<Move>,
    depth: u8,
)
    requires
        depth > 0,
        a.len() >= 1,
        a.to_multiset() == b.to_multiset(),
    ensures
        a.len() == b.len(),
        best_for_min(p, a, a.len() as int, depth) == best_for_min(p, b, b.len() as int, depth),
{
    a.to_multiset_ensures();
    b.to_multiset_ensures();
    lemma_best_for_min(p, a, a.len() as int, depth);
    lemma_best_for_min(p, b, b.len() as int, depth);
    let i = choose|i: int|
        0 <= i < a.len() && best_for_min(p, a, a.len() as int, depth) == full_value_max(
            position_after(p, #[trigger] a[i]),
            (depth - 1) as u8,
        );
    let j = choose|j: int|
        0 <= j < b.len() && best_for_min(p, b, b.len() as int, depth) == full_value_max(
            position_after(p, #[trigger] b[j]),
            (depth - 1) as u8,
        );
    lemma_same_moves(a, b, a[i]);
    lemma_same_moves(b, a, b[j]);
    let i2 = choose|k: int| 0 <= k < b.len() && b[k] == a[i];
    let j2 = choose|k: int| 0 <= k < a.len() && a[k] == b[j];
    assert(b[i2] == a[i]);
    assert(a[j2] == b[j]);
}

/// A move of one list is a move of any rearrangement of the list.
pub proof fn lemma_same_moves(a: Seq<Move>, b: Seq<Move>, m: Move)
    requires
        a.to_multiset() == b.to_multiset(),
        a.contains(m),
    ensures
        b.contains(m),
{
    to_multiset_contains(a, m);
    to_multiset_contains(b, m);
}

/// Every move of the search order leads to a calm position where the
/// position is calm.
proof fn lemma_calm_child_of_max(p: PositionData, s: SearchState, depth: u8, i: int)
    requires
        !is_leaf(p, depth),
        calm_max(p, depth),
        0 <= i < search_order(p, s).len(),
    ensures
        calm_min(position_after(p, search_order(p, s)[i]), (depth - 1) as u8),
{
    let m = search_order(p, s)[i];
    crate::search::alpha_beta::lemma_searched_moves_are_legal(p, s, i);
    let k = choose|k: int| 0 <= k < legal_moves_of(p).len() && legal_moves_of(p)[k] == m;
    assert(calm_min(position_after(p, legal_moves_of(p)[k]), (depth - 1) as u8));
}

proof fn lemma_calm_child_of_min(p: PositionData, s: SearchState, depth: u8, i: int)
    requires
        !is_leaf(p, depth),
        calm_min(p, depth),
        0 <= i < search_order(p, s).len(),
    ensures
        calm_max(position_after(p, search_order(p, s)[i]), (depth - 1) as u8),
{
    let m = search_order(p, s)[i];
    crate::search::alpha_beta::lemma_searched_moves_are_legal(p, s, i);
    let k = choose|k: int| 0 <= k < legal_moves_of(p).len() && legal_moves_of(p)[k] == m;
    assert(calm_max(position_after(p, legal_moves_of(p)[k]), (depth - 1) as u8));
}

/// The pruning search agrees with the unpruned one. Where the search of a
/// node of the maximizer takes no score from the table and no score below
/// the node is changed on its way up, what the search gives stands for the
/// value of the node with nothing cut off: it is that value where the
/// value lies inside the window, and lies on the value's side of the window
/// where it does not.
#[verifier::rlimit(50)]
pub proof fn lemma_search_max_is_minimax(
    p: PositionData,
    alpha: int,
    beta: int,
    depth: u8,
    s: SearchState,
)
    requires
        alpha < beta,
        calm_max(p, depth),
        table_silent_max(p, alpha, beta, depth, s),
    ensures
        stands_for(
            search_max_spec(p, alpha, beta, depth, s).score,
            full_value_max(p, depth),
            alpha,
            beta,
        ),
    decreases depth, 1int, 0int,
{
    if is_leaf(p, depth) {
        lemma_quiesce_max_is_minimax(p, alpha, beta);
    } else {
        let order = search_order(p, s);
        let legal = legal_moves_of(p);
        lemma_order_is_permutation(
            legal,
            p.placement,
            p.white_to_move,
            crate::search::alpha_beta::hint_for(s, p.hash),
        );
        lemma_best_for_max_of_rearranged(p, legal, order, depth);
        assert forall|i: int| 0 <= i < order.len() implies calm_min(
            position_after(p, #[trigger] order[i]),
            (depth - 1) as u8,
        ) by {
            lemma_calm_child_of_max(p, s, depth, i);
        }
        lemma_search_max_from(p, order, 0, alpha, alpha, beta, depth, None, s);
    }
}

/// The maximizer's search from `moves[i]` on stands for the best over all
/// the moves.
pub proof fn lemma_search_max_from(
    p: PositionData,
    moves: Seq<Move>,
    i: int,
    alpha: int,
    low: int,
    beta: int,
    depth: u8,
    best: Option<Move>,
    s: SearchState,
)
    requires
        depth > 0,
        moves.len() >= 1,
        0 <= i <= moves.len(),
        alpha < beta,
        alpha <= low < beta,
        -CONSIDERED_MATE <= best_for_max(p, moves, moves.len() as int, depth) <= CONSIDERED_MATE,
        forall|k: int|
            0 <= k < moves.len() ==> calm_min(
                position_after(p, #[trigger] moves[k]),
                (depth - 1) as u8,
            ),
        table_silent_max_from(p, moves, i, low, beta, depth, s),
        i == 0 ==> low == alpha && best is None,
        i > 0 ==> best_for_max(p, moves, i, depth) < beta,
        i > 0 && best_for_max(p, moves, i, depth) > alpha ==> low == best_for_max(
            p,
            moves,
            i,
            depth,
        ) && best is Some,
        i > 0 && best_for_max(p, moves, i, depth) <= alpha ==> low == alpha && best is None,
    ensures
        stands_for(
            search_max_from(p, moves, i, low, beta, depth, best, s).score,
            best_for_max(p, moves, moves.len() as int, depth),
            alpha,
            beta,
        ),
    decreases depth, 0int, moves.len() - i,
{
    if i < moves.len() {
        let child = position_after(p, moves[i]);
        let below = (depth - 1) as u8;
        let reply = reply_to_max(child, low, beta, below, s);
        let value = full_value_min(child, below);
        lemma_search_min_is_minimax(child, low, beta, below, s);
        assert(reply.0 == search_min_spec(child, low, beta, below, s).score);
        let so_far = if i == 0 {
            value
        } else {
            higher(best_for_max(p, moves, i, depth), value)
        };
        assert(best_for_max(p, moves, i + 1, depth) == so_far);
        if reply.0 >= beta {
            lemma_best_for_max(p, moves, moves.len() as int, depth);
        } else if reply.0 > low {
            lemma_search_max_from(
                p,
                moves,
                i + 1,
                alpha,
                reply.0,
                beta,
                depth,
                Some(moves[i]),
                reply.1,
            );
        } else {
            lemma_search_max_from(p, moves, i + 1, alpha, low, beta, depth, best, reply.1);
        }
    }
}

/// The pruning search agrees with the unpruned one for the minimizer too.
#[verifier::rlimit(50)]
pub proof fn lemma_search_min_is_minimax(
    p: PositionData,
    alpha: int,
    beta: int,
    depth: u8,
    s: SearchState,
)
    requires
        alpha < beta,
        calm_min(p, depth),
        table_silent_min(p, alpha, beta, depth, s),
    ensures
        stands_for(
            search_min_spec(p, alpha, beta, depth, s).score,
            full_value_min(p, depth),
            alpha,
            beta,
        ),
    decreases depth, 1int, 0int,
{
    if is_leaf(p, depth) {
        lemma_quiesce_min_is_minimax(p, alpha, beta);
    } else {
        let order = search_order(p, s);
        let legal = legal_moves_of(p);
        lemma_order_is_permutation(
            legal,
            p.placement,
            p.white_to_move,
            crate::search::alpha_beta::hint_for(s, p.hash),
        );
        lemma_best_for_min_of_rearranged(p, legal, order, depth);
        assert forall|i: int| 0 <= i < order.len() implies calm_max(
            position_after(p, #[trigger] order[i]),
            (depth - 1) as u8,
        ) by {
            lemma_calm_child_of_min(p, s, depth, i);
        }
        lemma_search_min_from(p, order, 0, alpha, beta, beta, depth, None, s);
    }
}

/// The minimizer's search from `moves[i]` on stands for the best over all
/// the moves.
pub proof fn lemma_search_min_from(
    p: PositionData,
    moves: Seq<Move>,
    i: int,
    alpha: int,
    beta: int,
    high: int,
    depth: u8,
    best: Option<Move>,
    s: SearchState,
)
    requires
        depth > 0,
        moves.len() >= 1,
        0 <= i <= moves.len(),
        alpha < beta,
        alpha < high <= beta,
        -CONSIDERED_MATE <= best_for_min(p, moves, moves.len() as int, depth) <= CONSIDERED_MATE,
        forall|k: int|
            0 <= k < moves.len() ==> calm_max(
                position_after(p, #[trigger] moves[k]),
                (depth - 1) as u8,
            ),
        table_silent_min_from(p, moves, i, alpha, high, depth, s),
        i == 0 ==> high == beta && best is None,
        i > 0 ==> best_for_min(p, moves, i, depth) > alpha,
        i > 0 && best_for_min(p, moves, i, depth) < beta ==> high == best_for_min(
            p,
            moves,
            i,
            depth,
        ) && best is Some,
        i > 0 && best_for_min(p, moves, i, depth) >= beta ==> high == beta && best is None,
    ensures
        stands_for(
            search_min_from(p, moves, i, alpha, high, depth, best, s).score,
            best_for_min(p, moves, moves.len() as int, depth),
            alpha,
            beta,
        ),
    decreases depth, 0int, moves.len() - i,
{
    if i < moves.len() {
        let child = position_after(p, moves[i]);
        let below = (depth - 1) as u8;
        let reply = reply_to_min(child, alpha, high, below, s);
        let value = full_value_max(child, below);
        lemma_search_max_is_minimax(child, alpha, high, below, s);
        assert(reply.0 == search_max_spec(child, alpha, high, below, s).score);
        let so_far = if i == 0 {
            value
        } else {
            lower(best_for_min(p, moves, i, depth), value)
        };
        assert(best_for_min(p, moves, i + 1, depth) == so_far);
        if reply.0 <= alpha {
            lemma_best_for_min(p, moves, moves.len() as int, depth);
        } else if reply.0 < high {
            lemma_search_min_from(
                p,
                moves,
                i + 1,
                alpha,
                beta,
                reply.0,
                depth,
                Some(moves[i]),
                reply.1,
            );
        } else {
            lemma_search_min_from(p, moves, i + 1, alpha, beta, high, depth, best, reply.1);
        }
    }
}

/// The value of a calm position lies within the mate score.
pub proof fn lemma_full_value_bounds(p: PositionData, depth: u8)
    ensures
        calm_max(p, depth) ==> -MATE_SCORE <= full_value_max(p, depth) <= MATE_SCORE,
        calm_min(p, depth) ==> -MATE_SCORE <= full_value_min(p, depth) <= MATE_SCORE,
{
    lemma_quiesce_value_bounds(p);
}

/// The value of the position after a move at the root, for the side that
/// answers: the minimizer after a move of White, the maximizer after a
/// move of Black.
pub open spec fn reply_value(child: PositionData, depth: u8, white: bool) -> int {
    if white {
        full_value_min(child, depth)
    } else {
        full_value_max(child, depth)
    }
}

/// Whether the position after a move at the root is calm.
pub open spec fn reply_is_calm(child: PositionData, depth: u8, white: bool) -> bool {
    if white {
        calm_min(child, depth)
    } else {
        calm_max(child, depth)
    }
}

/// Whether none of the searches of a move at the root, with the window
/// and with the wider ones that follow, takes a score from the table.
pub open spec fn root_move_silent(
    child: PositionData,
    w: AspirationWindow,
    depth: u8,
    white: bool,
    s: SearchState,
) -> bool
    decreases widen_room(w),
{
    let found = if white {
        search_min_spec(child, w.spec_alpha(), w.spec_beta(), depth, s)
    } else {
        search_max_spec(child, w.spec_alpha(), w.spec_beta(), depth, s)
    };
    &&& if white {
        table_silent_min(child, w.spec_alpha(), w.spec_beta(), depth, s)
    } else {
        table_silent_max(child, w.spec_alpha(), w.spec_beta(), depth, s)
    }
    &&& w.wf() && w.can_widen_for(found.score) && !(w.spec_alpha() < found.score
        < w.spec_beta()) ==> root_move_silent(
        child,
        w.widened_for(found.score),
        depth,
        white,
        found.state,
    )
}

/// The score that a move at the root gets is the value of the position
/// after the move with nothing cut off, where the position is calm and no
/// search of the move takes a score from the table.
pub proof fn lemma_root_move_is_minimax(
    child: PositionData,
    w: AspirationWindow,
    depth: u8,
    white: bool,
    s: SearchState,
)
    requires
        w.wf(),
        reply_is_calm(child, depth, white),
        root_move_silent(child, w, depth, white, s),
    ensures
        root_move_spec(child, w, depth, white, s).0 == reply_value(child, depth, white),
    decreases widen_room(w),
{
    reveal(root_move_spec);
    lemma_full_value_bounds(child, depth);
    let found = if white {
        search_min_spec(child, w.spec_alpha(), w.spec_beta(), depth, s)
    } else {
        search_max_spec(child, w.spec_alpha(), w.spec_beta(), depth, s)
    };
    if white {
        lemma_search_min_is_minimax(child, w.spec_alpha(), w.spec_beta(), depth, s);
    } else {
        lemma_search_max_is_minimax(child, w.spec_alpha(), w.spec_beta(), depth, s);
    }
    if w.can_widen_for(found.score) && !(w.spec_alpha() < found.score < w.spec_beta()) {
        lemma_root_move_is_minimax(child, w.widened_for(found.score), depth, white, found.state);
    }
}

/// The best move that the unpruned root search holds after the move `m`:
/// a move that does not lead to a position reached twice is valued by the
/// position after it, and the first of the moves with the best value is
/// held.
pub open spec fn full_root_step(
    p: PositionData,
    m: Move,
    depth: u8,
    visits: Map<u64, u8>,
    best: BestMove,
) -> BestMove {
    let child = position_after(p, m);
    if visited_twice(visits, child.hash) {
        best
    } else {
        registered(best, m, reply_value(child, depth, p.white_to_move) as i32, p.white_to_move)
    }
}

/// The best move that the unpruned root search holds after the first `n`
/// of `moves`.
pub open spec fn full_root_after(
    p: PositionData,
    moves: Seq<Move>,
    n: int,
    depth: u8,
    visits: Map<u64, u8>,
) -> BestMove
    decreases n,
{
    if n <= 0 {
        nothing_found(p.white_to_move)
    } else {
        full_root_step(
            p,
            moves[n - 1],
            depth,
            visits,
            full_root_after(p, moves, n - 1, depth, visits),
        )
    }
}

/// The best move of the root with its score when every line is played out
/// to `max_depth` and nothing is cut off or taken from the table.
pub open spec fn full_root(p: PositionData, max_depth: u8, visits: Map<u64, u8>) -> BestMove {
    if legal_moves_of(p).len() == 1 {
        (Some(legal_moves_of(p)[0]), 0)
    } else {
        full_root_after(
            p,
            legal_moves_of(p),
            legal_moves_of(p).len() as int,
            (max_depth - 1) as u8,
            visits,
        )
    }
}

/// Whether the root search of the first `n` of `moves` searches calm
/// positions only and takes no score from the table.
pub open spec fn root_silent_after(
    p: PositionData,
    moves: Seq<Move>,
    n: int,
    depth: u8,
    visits: Map<u64, u8>,
    start: RootOutcome,
) -> bool
    decreases n,
{
    n <= 0 || {
        let so_far = root_after(p, moves, n - 1, depth, visits, start);
        let child = position_after(p, moves[n - 1]);
        &&& root_silent_after(p, moves, n - 1, depth, visits, start)
        &&& visited_twice(visits, child.hash) || (reply_is_calm(child, depth, p.white_to_move)
            && root_move_silent(
            child,
            first_window(so_far.scores, child.hash),
            depth,
            p.white_to_move,
            so_far.state,
        ))
    }
}

/// Whether the search of the root to `max_depth` searches calm positions
/// only and takes no score from the table.
pub open spec fn root_silent(
    p: PositionData,
    max_depth: u8,
    visits: Map<u64, u8>,
    scores: Map<u64, i32>,
    s: SearchState,
) -> bool {
    legal_moves_of(p).len() == 1 || root_silent_after(
        p,
        legal_moves_of(p),
        legal_moves_of(p).len() as int,
        (max_depth - 1) as u8,
        visits,
        root_start(scores, s, p.white_to_move),
    )
}

/// After the first `n` moves the root search holds the move that the
/// unpruned search holds.
pub proof fn lemma_root_after_is_minimax(
    p: PositionData,
    moves: Seq<Move>,
    n: int,
    depth: u8,
    visits: Map<u64, u8>,
    start: RootOutcome,
)
    requires
        start.best == nothing_found(p.white_to_move),
        root_silent_after(p, moves, n, depth, visits, start),
    ensures
        root_after(p, moves, n, depth, visits, start).best == full_root_after(
            p,
            moves,
            n,
            depth,
            visits,
        ),
    decreases n,
{
    if n > 0 {
        lemma_root_after_is_minimax(p, moves, n - 1, depth, visits, start);
        let so_far = root_after(p, moves, n - 1, depth, visits, start);
        let child = position_after(p, moves[n - 1]);
        if !visited_twice(visits, child.hash) {
            lemma_root_move_is_minimax(
                child,
                first_window(so_far.scores, child.hash),
                depth,
                p.white_to_move,
                so_far.state,
            );
        }
    }
}

/// The pruning search of the root agrees with the unpruned one: where it
/// runs to its end, searches calm positions only and takes no score from
/// the table, it gives the move and the score that playing out every line
/// gives.
pub proof fn lemma_root_is_minimax(
    p: PositionData,
    max_depth: u8,
    visits: Map<u64, u8>,
    scores: Map<u64, i32>,
    s: SearchState,
)
    requires
        max_depth >= 1,
        root_silent(p, max_depth, visits, scores, s),
    ensures
        root_spec(p, max_depth, visits, scores, s).best == full_root(p, max_depth, visits),
{
    if legal_moves_of(p).len() != 1 {
        lemma_root_after_is_minimax(
            p,
            legal_moves_of(p),
            legal_moves_of(p).len() as int,
            (max_depth - 1) as u8,
            visits,
            root_start(scores, s, p.white_to_move),
        );
    }
}

} // verus!
