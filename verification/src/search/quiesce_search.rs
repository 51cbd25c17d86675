use vstd::prelude::*;
use vstd::seq_lib::to_multiset_contains;
use crate::bits::{bit_count, count_bits};
use crate::evaluation::bounds::lemma_evaluate_bounds;
use crate::evaluation::evaluate::{evaluate, evaluate_spec, MATE_SCORE};
use crate::position::{legal_moves_of, position_after, Move, Placement, Position, PositionData};
use crate::search::move_order::{
    capture_order, captures_of, get_move_order_captures, lemma_sort_keeps_moves,
};
use crate::search::NodeType;

verus! {

/// The number of pieces on the board.
pub open spec fn piece_total(pl: Placement) -> nat {
    bit_count(pl.white | pl.black) as nat
}

/// The greater of two scores.
pub open spec fn higher(a: int, b: int) -> int {
    if a >= b {
        a
    } else {
        b
    }
}

/// The lesser of two scores.
pub open spec fn lower(a: int, b: int) -> int {
    if a <= b {
        a
    } else {
        b
    }
}

/// What the quiescence search gives for a position in which the maximizer
/// is to move, with the window from `alpha` to `beta`. The static score
/// stands where it reaches `beta`, and where no capture is left. Else the
/// captures are tried in their order, each answered by the minimizer, with
/// the window raised to the best score so far; a score that reaches `beta`
/// cuts the search off with `beta` as a lower bound. Where it is not cut
/// off, the best score is exact. A capture that leaves no fewer pieces on
/// the board is passed over.
pub open spec fn quiesce_max_spec(p: PositionData, alpha: int, beta: int) -> (int, NodeType)
    decreases piece_total(p.placement), 1int, 0int,
{
    let stand_pat = evaluate_spec(p);
    if stand_pat >= beta {
        (beta, NodeType::CUT)
    } else if capture_order(p).len() == 0 {
        (stand_pat, NodeType::PV)
    } else {
        quiesce_max_from(p, capture_order(p), 0, higher(alpha, stand_pat), beta, stand_pat)
    }
}

/// The maximizer's search from the capture `moves[i]` on, with `value` the
/// best score so far.
pub open spec fn quiesce_max_from(
    p: PositionData,
    moves: Seq<Move>,
    i: int,
    alpha: int,
    beta: int,
    value: int,
) -> (int, NodeType)
    decreases piece_total(p.placement), 0int, moves.len() - i,
{
    if i < 0 || i >= moves.len() {
        (value, NodeType::PV)
    } else {
        let child = position_after(p, moves[i]);
        if piece_total(child.placement) >= piece_total(p.placement) {
            quiesce_max_from(p, moves, i + 1, alpha, beta, value)
        } else {
            let best = higher(value, quiesce_min_spec(child, alpha, beta).0);
            if best >= beta {
                (beta, NodeType::CUT)
            } else {
                quiesce_max_from(p, moves, i + 1, higher(alpha, best), beta, best)
            }
        }
    }
}

/// What the quiescence search gives for a position in which the minimizer
/// is to move: as `quiesce_max_spec`, with the sides exchanged.
pub open spec fn quiesce_min_spec(p: PositionData, alpha: int, beta: int) -> (int, NodeType)
    decreases piece_total(p.placement), 1int, 0int,
{
    let stand_pat = evaluate_spec(p);
    if stand_pat <= alpha {
        (alpha, NodeType::CUT)
    } else if capture_order(p).len() == 0 {
        (stand_pat, NodeType::PV)
    } else {
        quiesce_min_from(p, capture_order(p), 0, alpha, lower(beta, stand_pat), stand_pat)
    }
}

/// The minimizer's search from the capture `moves[i]` on, with `value` the
/// best score so far.
pub open spec fn quiesce_min_from(
    p: PositionData,
    moves: Seq<Move>,
    i: int,
    alpha: int,
    beta: int,
    value: int,
) -> (int, NodeType)
    decreases piece_total(p.placement), 0int, moves.len() - i,
{
    if i < 0 || i >= moves.len() {
        (value, NodeType::PV)
    } else {
        let child = position_after(p, moves[i]);
        if piece_total(child.placement) >= piece_total(p.placement) {
            quiesce_min_from(p, moves, i + 1, alpha, beta, value)
        } else {
            let best = lower(value, quiesce_max_spec(child, alpha, beta).0);
            if best <= alpha {
                (alpha, NodeType::CUT)
            } else {
                quiesce_min_from(p, moves, i + 1, alpha, lower(beta, best), best)
            }
        }
    }
}

/// The captures among moves are among the moves.
pub proof fn lemma_captures_are_moves(
    moves: Seq<Move>,
    pl: Placement,
    white_to_move: bool,
    m: Move,
)
    requires
        captures_of(moves, pl, white_to_move).contains(m),
    ensures
        moves.contains(m),
    decreases moves.len(),
{
    if moves.len() > 0 {
        let front = moves.drop_last();
        let before = captures_of(front, pl, white_to_move);
        let all = captures_of(moves, pl, white_to_move);
        let i = choose|i: int| 0 <= i < all.len() && all[i] == m;
        if i < before.len() {
            assert(before[i] == m);
            lemma_captures_are_moves(front, pl, white_to_move, m);
            let j = choose|j: int| 0 <= j < front.len() && front[j] == m;
            assert(moves[j] == m);
        } else {
            assert(moves[moves.len() - 1] == m);
        }
    }
}

/// Every capture that the search tries is a legal move.
pub proof fn lemma_tried_captures_are_legal(p: PositionData, i: int)
    requires
        0 <= i < capture_order(p).len(),
    ensures
        legal_moves_of(p).contains(capture_order(p)[i]),
{
    let captures = captures_of(legal_moves_of(p), p.placement, p.white_to_move);
    let m = capture_order(p)[i];
    lemma_sort_keeps_moves(captures, p.placement);
    to_multiset_contains(capture_order(p), m);
    to_multiset_contains(captures, m);
    assert(capture_order(p).contains(m));
    lemma_captures_are_moves(legal_moves_of(p), p.placement, p.white_to_move, m);
}

/// The number of pieces on the board.
pub fn count_pieces(pl: &Placement) -> (r: u32)
    ensures
        r == piece_total(*pl),
{
    count_bits(pl.white | pl.black)
}

/// The quiescence search for the maximizer: captures alone are tried, so
/// that the static score is taken only where the exchanges have ended.
pub fn quiesce_search_max(position: Position, alpha: i32, beta: i32) -> (r: (i32, NodeType))
    ensures
        (r.0 as int, r.1) == quiesce_max_spec(position@, alpha as int, beta as int),
    decreases piece_total(position@.placement), 1int, 0int,
{
    let stand_pat = evaluate(&position);
    if stand_pat >= beta {
        return (beta, NodeType::CUT);
    }
    let mut low = alpha;
    if stand_pat > low {
        low = stand_pat;
    }
    let moves = get_move_order_captures(&position);
    if moves.len() == 0 {
        return (stand_pat, NodeType::PV);
    }
    let pieces = count_pieces(&position.placement());
    let mut value = stand_pat;
    let mut i: usize = 0;
    while i < moves.len()
        invariant
            i <= moves@.len(),
            moves@ == capture_order(position@),
            pieces == piece_total(position@.placement),
            quiesce_max_spec(position@, alpha as int, beta as int) == quiesce_max_from(
                position@,
                moves@,
                i as int,
                low as int,
                beta as int,
                value as int,
            ),
        decreases moves@.len() - i,
    {
        proof {
            lemma_tried_captures_are_legal(position@, i as int);
        }
        let copy = position.make_move(moves[i]);
        if count_pieces(&copy.placement()) < pieces {
            let (score, _) = quiesce_search_min(copy, low, beta);
            if score > value {
                value = score;
            }
            if value >= beta {
                return (beta, NodeType::CUT);
            }
            if value > low {
                low = value;
            }
        }
        i += 1;
    }
    (value, NodeType::PV)
}

/// The quiescence search for the minimizer.
pub fn quiesce_search_min(position: Position, alpha: i32, beta: i32) -> (r: (i32, NodeType))
    ensures
        (r.0 as int, r.1) == quiesce_min_spec(position@, alpha as int, beta as int),
    decreases piece_total(position@.placement), 1int, 0int,
{
    let stand_pat = evaluate(&position);
    if stand_pat <= alpha {
        return (alpha, NodeType::CUT);
    }
    let mut high = beta;
    if stand_pat < high {
        high = stand_pat;
    }
    let moves = get_move_order_captures(&position);
    if moves.len() == 0 {
        return (stand_pat, NodeType::PV);
    }
    let pieces = count_pieces(&position.placement());
    let mut value = stand_pat;
    let mut i: usize = 0;
    while i < moves.len()
        invariant
            i <= moves@.len(),
            moves@ == capture_order(position@),
            pieces == piece_total(position@.placement),
            quiesce_min_spec(position@, alpha as int, beta as int) == quiesce_min_from(
                position@,
                moves@,
                i as int,
                alpha as int,
                high as int,
                value as int,
            ),
        decreases moves@.len() - i,
    {
        proof {
            lemma_tried_captures_are_legal(position@, i as int);
        }
        let copy = position.make_move(moves[i]);
        if count_pieces(&copy.placement()) < pieces {
            let (score, _) = quiesce_search_max(copy, alpha, high);
            if score < value {
                value = score;
            }
            if value <= alpha {
                return (alpha, NodeType::CUT);
            }
            if value < high {
                high = value;
            }
        }
        i += 1;
    }
    (value, NodeType::PV)
}

/// The value of a position for the maximizer when every line of captures
/// is played out and nothing is cut off: the best of the static score and
/// of the values of the positions after the captures.
pub open spec fn quiesce_value_max(p: PositionData) -> int
    decreases piece_total(p.placement), 1int, 0int,
{
    best_of_max(p, capture_order(p), 0, evaluate_spec(p))
}

/// The best of `value` and of the values after the captures from
/// `moves[i]` on, for the maximizer.
pub open spec fn best_of_max(p: PositionData, moves: Seq<Move>, i: int, value: int) -> int
    decreases piece_total(p.placement), 0int, moves.len() - i,
{
    if i < 0 || i >= moves.len() {
        value
    } else {
        let child = position_after(p, moves[i]);
        if piece_total(child.placement) >= piece_total(p.placement) {
            best_of_max(p, moves, i + 1, value)
        } else {
            best_of_max(p, moves, i + 1, higher(value, quiesce_value_min(child)))
        }
    }
}

/// The value of a position for the minimizer when every line of captures
/// is played out and nothing is cut off.
pub open spec fn quiesce_value_min(p: PositionData) -> int
    decreases piece_total(p.placement), 1int, 0int,
{
    best_of_min(p, capture_order(p), 0, evaluate_spec(p))
}

/// The best of `value` and of the values after the captures from
/// `moves[i]` on, for the minimizer.
pub open spec fn best_of_min(p: PositionData, moves: Seq<Move>, i: int, value: int) -> int
    decreases piece_total(p.placement), 0int, moves.len() - i,
{
    if i < 0 || i >= moves.len() {
        value
    } else {
        let child = position_after(p, moves[i]);
        if piece_total(child.placement) >= piece_total(p.placement) {
            best_of_min(p, moves, i + 1, value)
        } else {
            best_of_min(p, moves, i + 1, lower(value, quiesce_value_max(child)))
        }
    }
}

/// Whether a search result `found` stands for the true value `value` in the
/// window from `alpha` to `beta`: it is the value where the value lies
/// inside the window, and lies on the value's side of the window where the
/// value lies outside.
pub open spec fn stands_for(found: int, value: int, alpha: int, beta: int) -> bool {
    &&& value <= alpha ==> found <= alpha
    &&& alpha < value < beta ==> found == value
    &&& value >= beta ==> found >= beta
}

/// The maximizer's best is no less than what it starts from.
pub proof fn lemma_best_of_max_grows(p: PositionData, moves: Seq<Move>, i: int, value: int)
    ensures
        best_of_max(p, moves, i, value) >= value,
    decreases moves.len() - i,
{
    if 0 <= i < moves.len() {
        let child = position_after(p, moves[i]);
        if piece_total(child.placement) >= piece_total(p.placement) {
            lemma_best_of_max_grows(p, moves, i + 1, value);
        } else {
            lemma_best_of_max_grows(p, moves, i + 1, higher(value, quiesce_value_min(child)));
        }
    }
}

/// The minimizer's best is no more than what it starts from.
pub proof fn lemma_best_of_min_falls(p: PositionData, moves: Seq<Move>, i: int, value: int)
    ensures
        best_of_min(p, moves, i, value) <= value,
    decreases moves.len() - i,
{
    if 0 <= i < moves.len() {
        let child = position_after(p, moves[i]);
        if piece_total(child.placement) >= piece_total(p.placement) {
            lemma_best_of_min_falls(p, moves, i + 1, value);
        } else {
            lemma_best_of_min_falls(p, moves, i + 1, lower(value, quiesce_value_max(child)));
        }
    }
}

/// The pruning quiescence search agrees with the unpruned one: with any
/// window that is not empty, what the maximizer's search gives stands for
/// the value of the position with nothing cut off. With a window that holds
/// the value the search gives the value itself.
pub proof fn lemma_quiesce_max_is_minimax(p: PositionData, alpha: int, beta: int)
    requires
        alpha < beta,
    ensures
        stands_for(quiesce_max_spec(p, alpha, beta).0, quiesce_value_max(p), alpha, beta),
    decreases piece_total(p.placement), 1int, 0int,
{
    let stand_pat = evaluate_spec(p);
    let moves = capture_order(p);
    lemma_best_of_max_grows(p, moves, 0, stand_pat);
    if stand_pat < beta && moves.len() != 0 {
        lemma_quiesce_max_from(p, moves, 0, alpha, higher(alpha, stand_pat), beta, stand_pat, stand_pat);
    }
}

/// The maximizer's search from `moves[i]` on stands for the best with
/// nothing cut off, where `seen` is the search's best so far and `value`
/// the true best so far.
pub proof fn lemma_quiesce_max_from(
    p: PositionData,
    moves: Seq<Move>,
    i: int,
    alpha: int,
    low: int,
    beta: int,
    seen: int,
    value: int,
)
    requires
        0 <= i,
        alpha < beta,
        seen < beta,
        value < beta,
        low == higher(alpha, seen),
        value > alpha ==> seen == value,
        value <= alpha ==> seen <= alpha,
    ensures
        stands_for(
            quiesce_max_from(p, moves, i, low, beta, seen).0,
            best_of_max(p, moves, i, value),
            alpha,
            beta,
        ),
    decreases piece_total(p.placement), 0int, moves.len() - i,
{
    if i < moves.len() {
        let child = position_after(p, moves[i]);
        if piece_total(child.placement) >= piece_total(p.placement) {
            lemma_quiesce_max_from(p, moves, i + 1, alpha, low, beta, seen, value);
        } else {
            lemma_quiesce_min_is_minimax(child, low, beta);
            let reply = quiesce_min_spec(child, low, beta).0;
            let true_reply = quiesce_value_min(child);
            let best = higher(seen, reply);
            let true_best = higher(value, true_reply);
            if best >= beta {
                lemma_best_of_max_grows(p, moves, i + 1, true_best);
            } else {
                lemma_quiesce_max_from(
                    p,
                    moves,
                    i + 1,
                    alpha,
                    higher(low, best),
                    beta,
                    best,
                    true_best,
                );
            }
        }
    }
}

/// The pruning quiescence search agrees with the unpruned one for the
/// minimizer too.
pub proof fn lemma_quiesce_min_is_minimax(p: PositionData, alpha: int, beta: int)
    requires
        alpha < beta,
    ensures
        stands_for(quiesce_min_spec(p, alpha, beta).0, quiesce_value_min(p), alpha, beta),
    decreases piece_total(p.placement), 1int, 0int,
{
    let stand_pat = evaluate_spec(p);
    let moves = capture_order(p);
    lemma_best_of_min_falls(p, moves, 0, stand_pat);
    if stand_pat > alpha && moves.len() != 0 {
        lemma_quiesce_min_from(p, moves, 0, alpha, beta, lower(beta, stand_pat), stand_pat, stand_pat);
    }
}

/// The minimizer's search from `moves[i]` on stands for the best with
/// nothing cut off.
pub proof fn lemma_quiesce_min_from(
    p: PositionData,
    moves: Seq<Move>,
    i: int,
    alpha: int,
    beta: int,
    high: int,
    seen: int,
    value: int,
)
    requires
        0 <= i,
        alpha < beta,
        seen > alpha,
        value > alpha,
        high == lower(beta, seen),
        value < beta ==> seen == value,
        value >= beta ==> seen >= beta,
    ensures
        stands_for(
            quiesce_min_from(p, moves, i, alpha, high, seen).0,
            best_of_min(p, moves, i, value),
            alpha,
            beta,
        ),
    decreases piece_total(p.placement), 0int, moves.len() - i,
{
    if i < moves.len() {
        let child = position_after(p, moves[i]);
        if piece_total(child.placement) >= piece_total(p.placement) {
            lemma_quiesce_min_from(p, moves, i + 1, alpha, beta, high, seen, value);
        } else {
            lemma_quiesce_max_is_minimax(child, alpha, high);
            let reply = quiesce_max_spec(child, alpha, high).0;
            let true_reply = quiesce_value_max(child);
            let best = lower(seen, reply);
            let true_best = lower(value, true_reply);
            if best <= alpha {
                lemma_best_of_min_falls(p, moves, i + 1, true_best);
            } else {
                lemma_quiesce_min_from(
                    p,
                    moves,
                    i + 1,
                    alpha,
                    beta,
                    lower(high, best),
                    best,
                    true_best,
                );
            }
        }
    }
}

/// The maximizer's best lies within the mate score where what it starts
/// from does.
pub proof fn lemma_best_of_max_bounds(p: PositionData, moves: Seq<Move>, i: int, value: int)
    requires
        -MATE_SCORE <= value <= MATE_SCORE,
    ensures
        -MATE_SCORE <= best_of_max(p, moves, i, value) <= MATE_SCORE,
    decreases piece_total(p.placement), 0int, moves.len() - i,
{
    if 0 <= i < moves.len() {
        let child = position_after(p, moves[i]);
        if piece_total(child.placement) >= piece_total(p.placement) {
            lemma_best_of_max_bounds(p, moves, i + 1, value);
        } else {
            lemma_quiesce_value_bounds(child);
            lemma_best_of_max_bounds(p, moves, i + 1, higher(value, quiesce_value_min(child)));
        }
    }
}

/// The minimizer's best lies within the mate score where what it starts
/// from does.
pub proof fn lemma_best_of_min_bounds(p: PositionData, moves: Seq<Move>, i: int, value: int)
    requires
        -MATE_SCORE <= value <= MATE_SCORE,
    ensures
        -MATE_SCORE <= best_of_min(p, moves, i, value) <= MATE_SCORE,
    decreases piece_total(p.placement), 0int, moves.len() - i,
{
    if 0 <= i < moves.len() {
        let child = position_after(p, moves[i]);
        if piece_total(child.placement) >= piece_total(p.placement) {
            lemma_best_of_min_bounds(p, moves, i + 1, value);
        } else {
            lemma_quiesce_value_bounds(child);
            lemma_best_of_min_bounds(p, moves, i + 1, lower(value, quiesce_value_max(child)));
        }
    }
}

/// The value of a position with every line of captures played out lies
/// within the mate score.
pub proof fn lemma_quiesce_value_bounds(p: PositionData)
    ensures
        -MATE_SCORE <= quiesce_value_max(p) <= MATE_SCORE,
        -MATE_SCORE <= quiesce_value_min(p) <= MATE_SCORE,
    decreases piece_total(p.placement), 1int, 0int,
{
    lemma_evaluate_bounds(p);
    lemma_best_of_max_bounds(p, capture_order(p), 0, evaluate_spec(p));
    lemma_best_of_min_bounds(p, capture_order(p), 0, evaluate_spec(p));
}

} // verus!
