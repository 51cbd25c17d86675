use vstd::prelude::*;
use crate::evaluation::evaluate::MATE_SCORE;
use crate::position::{legal_moves_of, position_after, Move, Position, PositionData};
use crate::search::alpha_beta::{
    alpha_beta_search, nothing_found, root_spec, visited_twice, RootOutcome,
};
use crate::search::{SearchData, SearchState, StopSignals};

verus! {

/// The greatest depth that the deepening reaches.
pub const MAX_DEPTH: u8 = 254;

/// Whether a score stands for a mate so near that a deeper search cannot
/// better it.
pub open spec fn is_near_mate(score: i32) -> bool {
    score > MATE_SCORE - 1_000 || score < -(MATE_SCORE - 1_000)
}

/// What the deepening does after the search of one depth: the move that it
/// holds from then on, and whether it goes on to the next depth. A search
/// that was abandoned or found no move changes nothing and ends the
/// deepening. Else the move found is held, and the deepening ends where the
/// score is a near mate or the time has run out.
pub open spec fn after_depth_spec(
    held: Option<Move>,
    found: (Option<Move>, i32),
    hard_stop: bool,
    soft_stop: bool,
) -> (Option<Move>, bool) {
    if hard_stop || found.0 is None {
        (held, false)
    } else {
        (found.0, !is_near_mate(found.1) && !soft_stop)
    }
}

/// What the deepening does after the search of one depth.
pub fn after_depth(
    held: Option<Move>,
    found: (Option<Move>, i32),
    hard_stop: bool,
    soft_stop: bool,
) -> (r: (Option<Move>, bool))
    ensures
        r == after_depth_spec(held, found, hard_stop, soft_stop),
{
    if hard_stop || found.0.is_none() {
        return (held, false);
    }
    let near_mate = found.1 > MATE_SCORE - 1_000 || found.1 < -(MATE_SCORE - 1_000);
    (found.0, !near_mate && !soft_stop)
}

/// What the deepening holds after the searches of the root to the depths
/// from 1 to `depth` ran to their end, each from what the one before left
/// in the table, among the best moves and among the kept scores.
pub open spec fn after_depths(
    p: PositionData,
    depth: int,
    visits: Map<u64, u8>,
    scores: Map<u64, i32>,
    s: SearchState,
) -> RootOutcome
    decreases depth,
{
    if depth <= 0 {
        RootOutcome { best: nothing_found(p.white_to_move), scores, state: s }
    } else {
        let before = after_depths(p, depth - 1, visits, scores, s);
        root_spec(p, depth as u8, visits, before.scores, before.state)
    }
}

/// Whether the deepening from the given scores and state finds the move:
/// it is the best move of the search to some depth that ran to its end,
/// after the searches to all lesser depths ran to theirs.
pub open spec fn found_by_search(
    p: PositionData,
    visits: Map<u64, u8>,
    scores: Map<u64, i32>,
    s: SearchState,
    m: Move,
) -> bool {
    exists|depth: int|
        1 <= depth <= MAX_DEPTH && (#[trigger] after_depths(p, depth, visits, scores, s)).best.0
            == Some(m)
}

/// Searches the position deeper and deeper until the signals end the
/// search, a near mate is found, or the greatest depth is reached, and
/// gives the move of the last depth that was searched to its end. A search
/// that did not run to its end counts as abandoned. None where not even
/// the first depth gave a move.
///
/// The signals are to be reset before the timer that sets them is started.
/// The move is a legal move of the position, and unless it is the only
/// one, it does not lead to a position that the game has reached twice. It
/// is the best move of the search to some depth, each depth searched from
/// what the one before left.
pub fn iterative_deepening(position: &Position, data: &mut SearchData, signals: &StopSignals)
    -> (r: Option<Move>)
    requires
        old(data).wf(),
    ensures
        final(data).wf(),
        final(data).visits() == old(data).visits(),
        r matches Some(m) ==> legal_moves_of(position@).contains(m),
        r matches Some(m) ==> legal_moves_of(position@).len() == 1 || !visited_twice(
            old(data).visits(),
            position_after(position@, m).hash,
        ),
        r matches Some(m) ==> found_by_search(
            position@,
            old(data).visits(),
            old(data).scores(),
            old(data).state(),
            m,
        ),
{
    let mut best_move: Option<Move> = None;
    let mut current_depth: u8 = 1;
    while current_depth <= MAX_DEPTH
        invariant_except_break
            data.scores() == after_depths(
                position@,
                current_depth - 1,
                old(data).visits(),
                old(data).scores(),
                old(data).state(),
            ).scores,
            data.state() == after_depths(
                position@,
                current_depth - 1,
                old(data).visits(),
                old(data).scores(),
                old(data).state(),
            ).state,
        invariant
            1 <= current_depth <= MAX_DEPTH + 1,
            data.wf(),
            data.visits() == old(data).visits(),
            best_move matches Some(m) ==> legal_moves_of(position@).contains(m),
            best_move matches Some(m) ==> legal_moves_of(position@).len() == 1 || !visited_twice(
                old(data).visits(),
                position_after(position@, m).hash,
            ),
            best_move matches Some(m) ==> found_by_search(
                position@,
                old(data).visits(),
                old(data).scores(),
                old(data).state(),
                m,
            ),
        ensures
            data.wf(),
            data.visits() == old(data).visits(),
            best_move matches Some(m) ==> legal_moves_of(position@).contains(m),
            best_move matches Some(m) ==> legal_moves_of(position@).len() == 1 || !visited_twice(
                old(data).visits(),
                position_after(position@, m).hash,
            ),
            best_move matches Some(m) ==> found_by_search(
                position@,
                old(data).visits(),
                old(data).scores(),
                old(data).state(),
                m,
            ),
        decreases MAX_DEPTH + 1 - current_depth,
    {
        signals.publish_depth(current_depth);
        let (joice, score, complete) = alpha_beta_search(position, current_depth, data, signals);
        let hard_stop = signals.hard_stop();
        let soft_stop = signals.soft_stop();
        let (held, go_on) = after_depth(best_move, (joice, score), hard_stop || !complete, soft_stop);
        proof {
            let whole = after_depths(
                position@,
                current_depth as int,
                old(data).visits(),
                old(data).scores(),
                old(data).state(),
            );
            if complete {
                assert(whole.best == (joice, score));
                assert(whole.scores == data.scores() && whole.state == data.state());
            }
        }
        best_move = held;
        if !go_on {
            break;
        }
        current_depth += 1;
    }
    best_move
}

} // verus!
