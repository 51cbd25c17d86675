use std::collections::HashMap;
use std::sync::atomic::{AtomicBool, AtomicU8};
use vstd::prelude::*;
use crate::position::{Move, Position};
use crate::transposition_table::entry::Entry;
use crate::transposition_table::table::{
    aged, holds_hash, is_deeper, slot_for, stored, table_wf, TranspositionTable,
};

pub mod alpha_beta;
pub mod evaluated_position;
pub mod iterative_deepening;
pub mod minimax;
pub mod move_order;
pub mod quiesce_search;
pub mod root_laws;

verus! {

broadcast use vstd::std_specs::hash::group_hash_axioms;

/// How a score relates to the true value of the node it was computed for.
#[derive(Clone, Copy, Debug, PartialEq, Eq, Structural)]
pub enum NodeType {
    /// The score is exact.
    PV,
    /// The score is a lower bound: a cutoff happened.
    CUT,
    /// The score is an upper bound: no move improved the window.
    ALL,
}

/// `chashmap::CHashMap`, the concurrent hash map of the `chashmap` crate,
/// declared so that it can be held. What is inside is not seen;
/// `recorded_moves` names it.
#[verifier::external_type_specification]
#[verifier::external_body]
#[verifier::reject_recursive_types(K)]
#[verifier::reject_recursive_types(V)]
pub struct ExCHashMap<K, V>(chashmap::CHashMap<K, V>);

/// What a map of best moves holds: for each position hash the move recorded
/// for it.
pub uninterp spec fn recorded_moves(m: chashmap::CHashMap<u64, Move>) -> Map<u64, Move>;

/// The map that records no move.
pub open spec fn no_moves() -> Map<u64, Move> {
    Map::empty()
}

/// The map that holds no score.
pub open spec fn no_scores() -> Map<u64, i32> {
    Map::empty()
}

/// The map that counts no visit.
pub open spec fn no_visits() -> Map<u64, u8> {
    Map::empty()
}

/// `CHashMap::new`: a map that holds nothing.
#[verifier::external_body]
fn new_move_map() -> (r: chashmap::CHashMap<u64, Move>)
    ensures
        recorded_moves(r) == no_moves(),
{
    chashmap::CHashMap::new()
}

/// `CHashMap::clear`: the map holds nothing afterwards.
#[verifier::external_body]
fn clear_move_map(m: &mut chashmap::CHashMap<u64, Move>)
    ensures
        recorded_moves(*final(m)) == no_moves(),
{
    m.clear();
}

/// `CHashMap::get`: the move recorded for a hash, if one is.
#[verifier::external_body]
fn move_map_get(m: &chashmap::CHashMap<u64, Move>, hash: u64) -> (r: Option<Move>)
    ensures
        r == if recorded_moves(*m).dom().contains(hash) {
            Some(recorded_moves(*m)[hash])
        } else {
            None
        },
{
    m.get(&hash).map(|found| *found)
}

/// `CHashMap::insert`: the move is recorded for the hash, in place of any
/// that was; what is recorded for other hashes stays.
#[verifier::external_body]
fn move_map_insert(m: &mut chashmap::CHashMap<u64, Move>, hash: u64, best: Move)
    ensures
        recorded_moves(*final(m)) == recorded_moves(*old(m)).insert(hash, best),
{
    m.insert(hash, best);
}

/// The signals by which a search is told to end, and the depth that the
/// search has reached. A timer sets them while the search runs.
pub struct StopSignals {
    /// The search is to be abandoned at once.
    pub hard: AtomicBool,
    /// The search is to end with the depth that it is working on.
    pub soft: AtomicBool,
    /// The depth that the search is working on.
    pub depth: AtomicU8,
}

/// The depth beyond which a search whose time has run out is abandoned.
pub const MIN_DEPTH: u8 = 1;

impl StopSignals {
    /// Signals that ask for nothing yet.
    pub fn new() -> StopSignals {
        StopSignals {
            hard: AtomicBool::new(false),
            soft: AtomicBool::new(false),
            depth: AtomicU8::new(0),
        }
    }

    /// Withdraws both signals and sets the depth back, before a search starts.
    pub fn reset(&self) {
        self.hard.store(false, core::sync::atomic::Ordering::SeqCst);
        self.soft.store(false, core::sync::atomic::Ordering::SeqCst);
        self.depth.store(0, core::sync::atomic::Ordering::Relaxed);
    }

    /// Whether the search is to be abandoned.
    pub fn hard_stop(&self) -> bool {
        self.hard.load(core::sync::atomic::Ordering::SeqCst)
    }

    /// Whether the search is to end with the current depth.
    pub fn soft_stop(&self) -> bool {
        self.soft.load(core::sync::atomic::Ordering::SeqCst)
    }

    /// Makes the depth known that the search now works on.
    pub fn publish_depth(&self, depth: u8) {
        self.depth.store(depth, core::sync::atomic::Ordering::Relaxed);
    }

    /// What the timer does when the time has run out: it asks the search to
    /// end with the current depth, and to abandon it where the search is
    /// beyond the first depth already.
    pub fn time_is_up(&self) {
        self.soft.store(true, core::sync::atomic::Ordering::SeqCst);
        if self.depth.load(core::sync::atomic::Ordering::Relaxed) > MIN_DEPTH {
            self.hard.store(true, core::sync::atomic::Ordering::SeqCst);
        }
    }
}

/// What a search works with: the transposition table, the score that each
/// move at the root got in the last iteration, the number of times each
/// position was reached in the game, and the best move found for positions
/// of the current search.
pub struct SearchData {
    transposition_table: TranspositionTable,
    previous_score: HashMap<u64, i32>,
    positions_visited: HashMap<u64, u8>,
    best_moves: chashmap::CHashMap<u64, Move>,
}

/// What a stored result yields for a node searched to `depth` with the
/// window from `alpha` to `beta`: its score, where it is a result for this
/// hash, was searched at least as deep, and its bound decides the node: a
/// lower bound that reaches `beta`, an upper bound that does not exceed
/// `alpha`, or an exact score inside the window.
pub open spec fn usable_score(e: Entry, hash: u64, alpha: int, beta: int, depth: u8) -> Option<
    i32,
> {
    match e {
        Entry::Contains { hash: stored, depth: stored_depth, score, node_type, .. } => {
            let decides = match node_type {
                NodeType::CUT => beta <= score,
                NodeType::ALL => alpha >= score,
                NodeType::PV => alpha <= score <= beta,
            };
            if decides && stored == hash && stored_depth >= depth {
                Some(score)
            } else {
                None
            }
        },
        Entry::Empty => None,
    }
}

/// What the table yields for a node: the usable score of the slot that
/// serves the hash.
pub open spec fn cached_score(table: Seq<Entry>, hash: u64, alpha: int, beta: int, depth: u8)
    -> Option<i32> {
    usable_score(table[slot_for(table, hash)], hash, alpha, beta, depth)
}

/// The number of visits after one more; the count stays at its greatest value.
pub open spec fn one_more_visit(visits: Map<u64, u8>, hash: u64) -> u8 {
    if !visits.dom().contains(hash) {
        1
    } else if visits[hash] < u8::MAX {
        (visits[hash] + 1) as u8
    } else {
        u8::MAX
    }
}

/// What a search reads and leaves behind: the table's slots and the best
/// move recorded for each position.
pub struct SearchState {
    pub table: Seq<Entry>,
    pub hints: Map<u64, Move>,
}

impl SearchData {
    /// The table and the recorded best moves.
    pub open spec fn state(&self) -> SearchState {
        SearchState { table: self.table(), hints: self.hints() }
    }

    /// The table's slots.
    pub closed spec fn table(&self) -> Seq<Entry> {
        self.transposition_table@
    }

    /// The score that each move at the root got in the last iteration, by
    /// the hash of the position that the move leads to.
    pub closed spec fn scores(&self) -> Map<u64, i32> {
        self.previous_score@
    }

    /// How often each position, by its hash, was reached in the game.
    pub closed spec fn visits(&self) -> Map<u64, u8> {
        self.positions_visited@
    }

    /// The best move found for each position of the current search, by hash.
    pub closed spec fn hints(&self) -> Map<u64, Move> {
        recorded_moves(self.best_moves)
    }

    /// Whether the data is well formed: the table is.
    pub open spec fn wf(&self) -> bool {
        table_wf(self.table())
    }

    /// Fresh data with a table of the usual size.
    pub fn new() -> (r: SearchData)
        ensures
            r.wf(),
            r.visits() == no_visits(),
            r.hints() == no_moves(),
            r.scores() == no_scores(),
            forall|i: int| 0 <= i < r.table().len() ==> r.table()[i] is Empty,
    {
        SearchData::with_table(TranspositionTable::new())
    }

    /// Fresh data around a given table.
    pub fn with_table(table: TranspositionTable) -> (r: SearchData)
        requires
            table.wf(),
        ensures
            r.wf(),
            r.table() == table@,
            r.visits() == no_visits(),
            r.hints() == no_moves(),
            r.scores() == no_scores(),
    {
        SearchData {
            transposition_table: table,
            previous_score: HashMap::new(),
            positions_visited: HashMap::new(),
            best_moves: new_move_map(),
        }
    }

    /// Whether the position was reached at least twice in the game.
    pub fn position_visited_twice(&self, position: &Position) -> (r: bool)
        ensures
            r == (self.visits().dom().contains(position@.hash) && self.visits()[position@.hash]
                >= 2),
    {
        self.hash_visited_twice(position.hash())
    }

    /// Whether the position with this hash was reached at least twice.
    pub fn hash_visited_twice(&self, hash: u64) -> (r: bool)
        ensures
            r == (self.visits().dom().contains(hash) && self.visits()[hash] >= 2),
    {
        match self.positions_visited.get(&hash) {
            Some(visited) => *visited >= 2,
            None => false,
        }
    }

    /// Counts one more visit of the position.
    pub fn visit_position(&mut self, position: &Position)
        ensures
            final(self).visits() == old(self).visits().insert(
                position@.hash,
                one_more_visit(old(self).visits(), position@.hash),
            ),
            final(self).table() == old(self).table(),
            final(self).hints() == old(self).hints(),
            final(self).scores() == old(self).scores(),
    {
        let hash = position.hash();
        let mut visited: u8 = 0;
        if let Some(v) = self.positions_visited.get(&hash) {
            visited = *v;
        }
        if visited < u8::MAX {
            visited += 1;
        }
        self.positions_visited.insert(hash, visited);
    }

    /// The score that the move to the position with this hash got in the
    /// last iteration.
    pub fn previous_score(&self, hash: u64) -> (r: Option<i32>)
        ensures
            r == if self.scores().dom().contains(hash) {
                Some(self.scores()[hash])
            } else {
                None
            },
    {
        match self.previous_score.get(&hash) {
            Some(score) => Some(*score),
            None => None,
        }
    }

    /// Keeps the score of the move to the position with this hash for the
    /// next iteration.
    pub fn set_previous_score(&mut self, hash: u64, score: i32)
        ensures
            final(self).scores() == old(self).scores().insert(hash, score),
            final(self).table() == old(self).table(),
            final(self).hints() == old(self).hints(),
            final(self).visits() == old(self).visits(),
    {
        self.previous_score.insert(hash, score);
    }

    /// Forgets the scores of the last search's moves.
    pub fn clear_previous_scores(&mut self)
        ensures
            final(self).scores() == no_scores(),
            final(self).table() == old(self).table(),
            final(self).hints() == old(self).hints(),
            final(self).visits() == old(self).visits(),
    {
        self.previous_score.clear();
    }

    /// Makes every result in the table one move older.
    pub fn age_table(&mut self)
        requires
            old(self).wf(),
        ensures
            final(self).wf(),
            final(self).table().len() == old(self).table().len(),
            forall|i: int|
                0 <= i < old(self).table().len() ==> final(self).table()[i] == aged(
                    old(self).table()[i],
                ),
            final(self).scores() == old(self).scores(),
            final(self).hints() == old(self).hints(),
            final(self).visits() == old(self).visits(),
    {
        self.transposition_table.age_table();
    }

    /// The best move recorded for the position with this hash.
    pub fn best_move(&self, hash: u64) -> (r: Option<Move>)
        ensures
            r == if self.hints().dom().contains(hash) {
                Some(self.hints()[hash])
            } else {
                None
            },
    {
        move_map_get(&self.best_moves, hash)
    }

    /// Records the best move for the position with this hash.
    pub fn set_best_move(&mut self, hash: u64, best: Move)
        ensures
            final(self).hints() == old(self).hints().insert(hash, best),
            final(self).table() == old(self).table(),
            final(self).visits() == old(self).visits(),
            final(self).scores() == old(self).scores(),
    {
        move_map_insert(&mut self.best_moves, hash, best);
    }

    /// Forgets the best moves of the last search.
    pub fn clear_best_moves(&mut self)
        ensures
            final(self).hints() == no_moves(),
            final(self).table() == old(self).table(),
            final(self).visits() == old(self).visits(),
            final(self).scores() == old(self).scores(),
    {
        clear_move_map(&mut self.best_moves);
    }

    /// The score that the table holds for a node, if it holds a usable one.
    pub fn lookup(&self, hash: u64, alpha: i32, beta: i32, depth: u8) -> (r: Option<i32>)
        requires
            self.wf(),
        ensures
            r == cached_score(self.table(), hash, alpha as int, beta as int, depth),
    {
        let slot = self.transposition_table.get(hash);
        match self.transposition_table.entry(slot) {
            Entry::Contains { depth: stored_depth, hash: stored, score, node_type, .. } => {
                let decides = match node_type {
                    NodeType::CUT => beta <= score,
                    NodeType::ALL => alpha >= score,
                    NodeType::PV => alpha <= score && score <= beta,
                };
                if decides && stored == hash && stored_depth >= depth {
                    Some(score)
                } else {
                    None
                }
            },
            Entry::Empty => None,
        }
    }

    /// The score of a node: the table's, where it holds a usable one; else
    /// what `calculate` gives, which is then put into the table with its
    /// bound type, unless the table holds a result for the same hash from a
    /// deeper search.
    pub fn get_or_calculate<F: FnOnce() -> (i32, NodeType)>(
        &mut self,
        hash: u64,
        alpha: i32,
        beta: i32,
        depth: u8,
        calculate: F,
    ) -> (r: i32)
        requires
            old(self).wf(),
            call_requires(calculate, ()),
        ensures
            final(self).wf(),
            final(self).hints() == old(self).hints(),
            final(self).visits() == old(self).visits(),
            final(self).scores() == old(self).scores(),
            match cached_score(old(self).table(), hash, alpha as int, beta as int, depth) {
                Some(score) => r == score && final(self).table() == old(self).table(),
                None => exists|node_type: NodeType|
                    {
                        &&& #[trigger] call_ensures(calculate, (), (r, node_type))
                        &&& final(self).table() == stored(
                            old(self).table(),
                            hash,
                            depth,
                            r,
                            node_type,
                        )
                    },
            },
    {
        if let Some(score) = self.lookup(hash, alpha, beta, depth) {
            return score;
        }
        let (score, node_type) = calculate();
        self.record(hash, depth, score, node_type);
        score
    }

    /// Puts a node's result into the table, unless the table holds a result
    /// for the same hash from a deeper search.
    pub fn record(&mut self, hash: u64, depth: u8, score: i32, node_type: NodeType)
        requires
            old(self).wf(),
        ensures
            final(self).wf(),
            final(self).table() == stored(old(self).table(), hash, depth, score, node_type),
            final(self).hints() == old(self).hints(),
            final(self).visits() == old(self).visits(),
            final(self).scores() == old(self).scores(),
    {
        self.transposition_table.store(hash, depth, score, node_type);
    }
}

/// Looking a node up leaves the table as it is, so looking it up again
/// gives the same. After a result was recorded for a hash, the table is
/// well formed and the slot goes on serving the hash; a lookup for the hash
/// gives what the recorded entry yields, unless a deeper result for the
/// hash was held, which then stays with its depth.
pub proof fn lemma_lookup_after_record(
    table: Seq<Entry>,
    hash: u64,
    depth: u8,
    score: i32,
    node_type: NodeType,
    alpha: int,
    beta: int,
    wanted: u8,
)
    requires
        table_wf(table),
    ensures
        ({
            let entry = Entry::Contains { hash, depth, score, node_type, age: 0 };
            let held = table[slot_for(table, hash)];
            let after = stored(table, hash, depth, score, node_type);
            &&& table_wf(after)
            &&& slot_for(after, hash) == slot_for(table, hash)
            &&& is_deeper(held, hash, depth) ==> after == table
            &&& !is_deeper(held, hash, depth) ==> cached_score(after, hash, alpha, beta, wanted)
                == usable_score(entry, hash, alpha, beta, wanted)
            &&& !is_deeper(held, hash, depth) && wanted <= depth && node_type == NodeType::PV
                && alpha <= score <= beta ==> cached_score(after, hash, alpha, beta, wanted)
                == Some(score)
        }),
{
    let entry = Entry::Contains { hash, depth, score, node_type, age: 0 };
    crate::transposition_table::table::lemma_store_keeps_table(table, hash, entry);
    crate::transposition_table::table::lemma_slot_in_bucket(table, hash);
}

/// The depth of the search that a stored result is from; -1 for an empty
/// slot.
pub open spec fn depth_of(e: Entry) -> int {
    match e {
        Entry::Contains { depth, .. } => depth as int,
        Entry::Empty => -1,
    }
}

/// No result is lost to a shallower one for its hash: where the table
/// holds a result for a hash, it holds one for that hash from a search at
/// least as deep after any result was recorded.
pub proof fn lemma_record_keeps_depth(
    table: Seq<Entry>,
    hash: u64,
    depth: u8,
    score: i32,
    node_type: NodeType,
)
    requires
        table_wf(table),
    ensures
        holds_hash(stored(table, hash, depth, score, node_type)[slot_for(table, hash)], hash),
        depth_of(stored(table, hash, depth, score, node_type)[slot_for(table, hash)]) >= depth,
        holds_hash(table[slot_for(table, hash)], hash) ==> depth_of(
            stored(table, hash, depth, score, node_type)[slot_for(table, hash)],
        ) >= depth_of(table[slot_for(table, hash)]),
{
    crate::transposition_table::table::lemma_slot_in_bucket(table, hash);
}

} // verus!
