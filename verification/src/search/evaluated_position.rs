use vstd::prelude::*;
use vstd::std_specs::cmp::{PartialEqSpecImpl, PartialOrdSpecImpl};
use crate::evaluation::evaluate::MATE_SCORE;
use crate::position::Position;

verus! {

/// The score that a search of some depth gave for a position.
#[derive(Clone, Copy)]
pub struct EvaluatedPosition {
    pub board: Position,
    pub evaluation: i32,
    pub depth: u8,
}

impl PartialEq for EvaluatedPosition {
    /// Evaluations are the same when they come from searches of one depth.
    fn eq(&self, other: &Self) -> (r: bool) {
        self.depth == other.depth
    }
}

impl PartialEqSpecImpl for EvaluatedPosition {
    open spec fn obeys_eq_spec() -> bool {
        true
    }

    open spec fn eq_spec(&self, other: &Self) -> bool {
        self.depth == other.depth
    }
}

impl PartialOrd for EvaluatedPosition {
    /// Evaluations are ordered by the depth of their searches.
    fn partial_cmp(&self, other: &Self) -> (r: Option<core::cmp::Ordering>) {
        if self.depth < other.depth {
            Some(core::cmp::Ordering::Less)
        } else if self.depth == other.depth {
            Some(core::cmp::Ordering::Equal)
        } else {
            Some(core::cmp::Ordering::Greater)
        }
    }
}

impl PartialOrdSpecImpl for EvaluatedPosition {
    open spec fn obeys_partial_cmp_spec() -> bool {
        true
    }

    open spec fn partial_cmp_spec(&self, other: &Self) -> Option<core::cmp::Ordering> {
        if self.depth < other.depth {
            Some(core::cmp::Ordering::Less)
        } else if self.depth == other.depth {
            Some(core::cmp::Ordering::Equal)
        } else {
            Some(core::cmp::Ordering::Greater)
        }
    }
}

/// The evaluations kept for positions, by position hash.
pub type EvaluatedPositions = chashmap::CHashMap<u64, EvaluatedPosition>;

/// What a map of evaluations holds: for each position hash the evaluation
/// kept for it.
pub uninterp spec fn kept_positions(
    m: chashmap::CHashMap<u64, EvaluatedPosition>,
) -> Map<u64, EvaluatedPosition>;

/// The map that keeps no evaluation.
pub open spec fn nothing_kept() -> Map<u64, EvaluatedPosition> {
    Map::empty()
}

/// `CHashMap::new`: a map that holds nothing.
#[verifier::external_body]
fn new_position_map() -> (r: chashmap::CHashMap<u64, EvaluatedPosition>)
    ensures
        kept_positions(r) == nothing_kept(),
{
    chashmap::CHashMap::new()
}

/// `CHashMap::get`: the evaluation kept for a hash, if one is.
#[verifier::external_body]
fn position_map_get(m: &chashmap::CHashMap<u64, EvaluatedPosition>, hash: u64) -> (r: Option<
    EvaluatedPosition,
>)
    ensures
        r == if kept_positions(*m).dom().contains(hash) {
            Some(kept_positions(*m)[hash])
        } else {
            None
        },
{
    m.get(&hash).map(|found| *found)
}

/// `CHashMap::insert`: the evaluation is kept for the hash, in place of
/// any that was; what is kept for other hashes stays.
#[verifier::external_body]
fn position_map_insert(
    m: &mut chashmap::CHashMap<u64, EvaluatedPosition>,
    hash: u64,
    kept: EvaluatedPosition,
)
    ensures
        kept_positions(*final(m)) == kept_positions(*old(m)).insert(hash, kept),
{
    m.insert(hash, kept);
}

/// A map that keeps no evaluation yet.
pub fn new_evaluated_positions() -> (r: EvaluatedPositions)
    ensures
        kept_positions(r) == nothing_kept(),
{
    new_position_map()
}

/// A mate score by the distance of the mate: a mate that was found with
/// `depth` moves still to search, in an iteration `max_search_depth` deep,
/// loses one point for each move between the root and the mate. Other
/// scores stay.
pub open spec fn mate_distance_adjusted_spec(evaluation: int, max_search_depth: u8, depth: u8)
    -> int {
    if evaluation == MATE_SCORE {
        evaluation - (max_search_depth - depth)
    } else if evaluation == -MATE_SCORE {
        evaluation + (max_search_depth - depth)
    } else {
        evaluation
    }
}

/// A mate score by the distance of the mate.
pub fn mate_distance_adjusted(evaluation: i32, max_search_depth: u8, depth: u8) -> (r: i32)
    ensures
        r == mate_distance_adjusted_spec(evaluation as int, max_search_depth, depth),
{
    let plies: i32 = max_search_depth as i32 - depth as i32;
    if evaluation == MATE_SCORE {
        evaluation - plies
    } else if evaluation == -MATE_SCORE {
        evaluation + plies
    } else {
        evaluation
    }
}

/// Of two mates found in one iteration, the one nearer to the root, which
/// had more moves still to search, scores strictly better for the side
/// that mates.
pub proof fn lemma_nearer_mate_scores_better(max_search_depth: u8, nearer: u8, farther: u8)
    requires
        farther < nearer,
    ensures
        mate_distance_adjusted_spec(MATE_SCORE as int, max_search_depth, nearer)
            > mate_distance_adjusted_spec(MATE_SCORE as int, max_search_depth, farther),
        mate_distance_adjusted_spec(-MATE_SCORE as int, max_search_depth, nearer)
            < mate_distance_adjusted_spec(-MATE_SCORE as int, max_search_depth, farther),
{
}

/// What is kept for a position from a search at least `depth` deep.
pub open spec fn kept_for(kept: Map<u64, EvaluatedPosition>, hash: u64, depth: u8) -> Option<
    i32,
> {
    if kept.dom().contains(hash) && kept[hash].depth >= depth {
        Some(kept[hash].evaluation)
    } else {
        None
    }
}

/// The evaluation kept for a position, where one is kept from a search at
/// least `depth` deep.
pub fn kept_evaluation(kept: &EvaluatedPositions, hash: u64, depth: u8) -> (r: Option<i32>)
    ensures
        r == kept_for(kept_positions(*kept), hash, depth),
{
    match position_map_get(kept, hash) {
        Some(old) => if old.depth >= depth {
            Some(old.evaluation)
        } else {
            None
        },
        None => None,
    }
}

/// Keeps what a search of `depth` gave for a position, adjusted by the
/// distance of a mate, and gives the adjusted score.
pub fn keep_evaluation(
    kept: &mut EvaluatedPositions,
    board: Position,
    depth: u8,
    max_search_depth: u8,
    evaluation: i32,
) -> (r: i32)
    ensures
        r == mate_distance_adjusted_spec(evaluation as int, max_search_depth, depth),
        kept_positions(*final(kept)) == kept_positions(*old(kept)).insert(
            board@.hash,
            (EvaluatedPosition { board, evaluation: r, depth }),
        ),
{
    let adjusted = mate_distance_adjusted(evaluation, max_search_depth, depth);
    position_map_insert(kept, board.hash(), EvaluatedPosition { board, evaluation: adjusted, depth });
    adjusted
}

/// The evaluation of a position from a search at least `depth` deep: the
/// one that is kept, where one is; else what `calculate` gives, adjusted by
/// the distance of a mate, which is then kept.
pub fn get_or_calculate_evaluation<F: FnOnce() -> i32>(
    kept: &mut EvaluatedPositions,
    board: Position,
    depth: u8,
    max_search_depth: u8,
    calculate: F,
) -> (r: i32)
    requires
        call_requires(calculate, ()),
    ensures
        match kept_for(kept_positions(*old(kept)), board@.hash, depth) {
            Some(evaluation) => r == evaluation && kept_positions(*final(kept)) == kept_positions(
                *old(kept),
            ),
            None => exists|evaluation: i32|
                {
                    &&& #[trigger] call_ensures(calculate, (), evaluation)
                    &&& r == mate_distance_adjusted_spec(
                        evaluation as int,
                        max_search_depth,
                        depth,
                    )
                    &&& kept_positions(*final(kept)) == kept_positions(*old(kept)).insert(
                        board@.hash,
                        (EvaluatedPosition { board, evaluation: r, depth }),
                    )
                },
        },
{
    if let Some(evaluation) = kept_evaluation(kept, board.hash(), depth) {
        return evaluation;
    }
    let evaluation = calculate();
    keep_evaluation(kept, board, depth, max_search_depth, evaluation)
}

} // verus!
