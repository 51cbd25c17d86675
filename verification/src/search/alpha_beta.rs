use vstd::prelude::*;
use vstd::seq_lib::to_multiset_contains;
use crate::evaluation::evaluate::{CONSIDERED_MATE, MATE_SCORE};
use crate::position::{
    legal_moves_of, position_after, status_of, BoardStatus, Move, Position, PositionData,
};
use crate::search::move_order::{get_move_order, order_spec};
use crate::search::quiesce_search::{
    quiesce_max_spec, quiesce_min_spec, quiesce_search_max, quiesce_search_min,
};
use crate::search::{cached_score, NodeType, SearchData, SearchState, StopSignals};
use crate::transposition_table::table::stored;

verus! {

/// The narrowest margin of an aspiration window.
pub const WINDOW_SIZE: i32 = 25;

/// The margin after the first widening.
pub const DOUBLE_WINDOW_SIZE: i32 = 50;

/// The margin after the second widening.
pub const QUADRUPLE_WINDOW_SIZE: i32 = 100;

/// The widest margin: no score lies beyond it.
pub const MAX_WINDOW_SIZE: i32 = 2 * MATE_SCORE + 10;

/// The window with which a move at the root is searched: the score that
/// the move is expected to have, and how far below and above it the window
/// reaches.
#[derive(Clone, Copy, Debug, PartialEq, Eq, Structural)]
pub struct AspirationWindow {
    pub source: i32,
    pub left: i32,
    pub right: i32,
}

/// Whether `size` is one of the margins that a window passes through.
pub open spec fn is_window_size(size: int) -> bool {
    size == WINDOW_SIZE || size == DOUBLE_WINDOW_SIZE || size == QUADRUPLE_WINDOW_SIZE || size
        == MAX_WINDOW_SIZE
}

/// The margin that follows `current`: each is twice the one before, and
/// the widest follows the third.
pub open spec fn next_size(current: int) -> int {
    if current == WINDOW_SIZE {
        DOUBLE_WINDOW_SIZE as int
    } else if current == DOUBLE_WINDOW_SIZE {
        QUADRUPLE_WINDOW_SIZE as int
    } else {
        MAX_WINDOW_SIZE as int
    }
}

impl AspirationWindow {
    /// Whether the window is well formed: the expected score lies within
    /// the mate score, and the margins are of those that a window passes
    /// through.
    pub open spec fn wf(&self) -> bool {
        &&& -MATE_SCORE <= self.source <= MATE_SCORE
        &&& is_window_size(self.left as int)
        &&& is_window_size(self.right as int)
    }

    /// The lower end of the window.
    pub open spec fn spec_alpha(&self) -> int {
        self.source - self.left
    }

    /// The upper end of the window.
    pub open spec fn spec_beta(&self) -> int {
        self.source + self.right
    }

    /// Whether the window can be widened on the side on which `value` fell
    /// out of it.
    pub open spec fn can_widen_for(&self, value: int) -> bool {
        if value <= self.spec_alpha() {
            self.left != MAX_WINDOW_SIZE
        } else if value >= self.spec_beta() {
            self.right != MAX_WINDOW_SIZE
        } else {
            true
        }
    }

    /// The window after a search gave `value`: widened below where the
    /// value fell out below, above where it fell out above, and unchanged
    /// where the value lies inside.
    pub open spec fn widened_for(&self, value: int) -> AspirationWindow {
        if value <= self.spec_alpha() {
            AspirationWindow { left: next_size(self.left as int) as i32, ..*self }
        } else if value >= self.spec_beta() {
            AspirationWindow { right: next_size(self.right as int) as i32, ..*self }
        } else {
            *self
        }
    }

    /// The narrowest window around an expected score.
    pub fn new(source: i32) -> (r: AspirationWindow)
        requires
            -MATE_SCORE <= source <= MATE_SCORE,
        ensures
            r == (AspirationWindow { source, left: WINDOW_SIZE, right: WINDOW_SIZE }),
            r.wf(),
    {
        AspirationWindow { source, left: WINDOW_SIZE, right: WINDOW_SIZE }
    }

    /// The widest window, for a move of which nothing is expected.
    pub fn new_inf() -> (r: AspirationWindow)
        ensures
            r == (AspirationWindow { source: 0, left: MAX_WINDOW_SIZE, right: MAX_WINDOW_SIZE }),
            r.wf(),
    {
        AspirationWindow { source: 0, left: MAX_WINDOW_SIZE, right: MAX_WINDOW_SIZE }
    }

    /// The margin that follows `current`, which is not the widest.
    pub fn next(current: i32) -> (r: i32)
        requires
            current == WINDOW_SIZE || current == DOUBLE_WINDOW_SIZE || current
                == QUADRUPLE_WINDOW_SIZE,
        ensures
            r == next_size(current as int),
            is_window_size(r as int),
            r > current,
    {
        if current == WINDOW_SIZE {
            DOUBLE_WINDOW_SIZE
        } else if current == DOUBLE_WINDOW_SIZE {
            QUADRUPLE_WINDOW_SIZE
        } else {
            MAX_WINDOW_SIZE
        }
    }

    /// Whether `value` lies inside the window; where it does not, the
    /// window is widened on the side on which the value fell out.
    pub fn enlarge_and_check_bound(&mut self, value: i32) -> (r: bool)
        requires
            old(self).wf(),
            old(self).can_widen_for(value as int),
        ensures
            final(self).wf(),
            r == (old(self).spec_alpha() < value < old(self).spec_beta()),
            *final(self) == old(self).widened_for(value as int),
    {
        if value <= self.alpha() {
            self.left = Self::next(self.left);
            false
        } else if value >= self.beta() {
            self.right = Self::next(self.right);
            false
        } else {
            true
        }
    }

    /// Whether a search that gave `value` is to be repeated with a wider
    /// window. It is not where the value lies inside the window, nor where
    /// the window reaches as far as it can on the side on which the value
    /// fell out; else the window is widened on that side.
    pub fn widen_or_accept(&mut self, value: i32) -> (again: bool)
        requires
            old(self).wf(),
        ensures
            final(self).wf(),
            again == (old(self).can_widen_for(value as int) && !(old(self).spec_alpha() < value
                < old(self).spec_beta())),
            *final(self) == if old(self).can_widen_for(value as int) {
                old(self).widened_for(value as int)
            } else {
                *old(self)
            },
    {
        let fell_below = value <= self.alpha() && self.left == MAX_WINDOW_SIZE;
        let fell_above = value > self.alpha() && value >= self.beta() && self.right
            == MAX_WINDOW_SIZE;
        if fell_below || fell_above {
            false
        } else {
            !self.enlarge_and_check_bound(value)
        }
    }

    /// The lower end of the window.
    pub fn alpha(&self) -> (r: i32)
        requires
            self.wf(),
        ensures
            r == self.spec_alpha(),
    {
        self.source - self.left
    }

    /// The upper end of the window.
    pub fn beta(&self) -> (r: i32)
        requires
            self.wf(),
        ensures
            r == self.spec_beta(),
    {
        self.source + self.right
    }
}

/// A mate score one move further from the mate: a score beyond
/// `CONSIDERED_MATE` moves toward 0 by one, any other score stays.
pub open spec fn consider_short_mate_spec(value: int) -> int {
    if value > CONSIDERED_MATE {
        value - 1
    } else if value < -CONSIDERED_MATE {
        value + 1
    } else {
        value
    }
}

/// A mate score one move further from the mate, so that of two mates the
/// shorter scores better.
pub fn consider_short_mate(value: i32) -> (r: i32)
    ensures
        r == consider_short_mate_spec(value as int),
{
    if value > CONSIDERED_MATE {
        value - 1
    } else if value < -CONSIDERED_MATE {
        value + 1
    } else {
        value
    }
}

/// The score of a mate that is `plies` moves away, seen from the side
/// that mates: the mate score passed up through that many nodes.
pub open spec fn mate_score_after(plies: nat) -> int
    decreases plies,
{
    if plies == 0 {
        MATE_SCORE as int
    } else {
        consider_short_mate_spec(mate_score_after((plies - 1) as nat))
    }
}

/// A mate that is `plies` moves away scores that much less than a mate on
/// the board, as long as the score still counts as a mate.
pub proof fn lemma_mate_score_after(plies: nat)
    requires
        plies <= MATE_SCORE - CONSIDERED_MATE,
    ensures
        mate_score_after(plies) == MATE_SCORE - plies,
    decreases plies,
{
    if plies > 0 {
        lemma_mate_score_after((plies - 1) as nat);
    }
}

/// Of two forced mates the shorter one scores strictly better for the side
/// that mates, and strictly worse for the side that is mated.
pub proof fn lemma_shorter_mate_dominates(shorter: nat, longer: nat)
    requires
        shorter < longer <= MATE_SCORE - CONSIDERED_MATE,
    ensures
        mate_score_after(shorter) > mate_score_after(longer),
        -mate_score_after(shorter) < -mate_score_after(longer),
        mate_score_after(longer) >= CONSIDERED_MATE,
{
    lemma_mate_score_after(shorter);
    lemma_mate_score_after(longer);
}

/// What the search of a node gives: the score, what kind of bound it is,
/// and what the search leaves in the table and among the best moves.
pub struct Outcome {
    pub score: int,
    pub node_type: NodeType,
    pub state: SearchState,
}

/// The best move recorded for a position, if one is.
pub open spec fn hint_for(s: SearchState, hash: u64) -> Option<Move> {
    if s.hints.dom().contains(hash) {
        Some(s.hints[hash])
    } else {
        None
    }
}

/// The moves of a position in the order in which a search tries them.
pub open spec fn search_order(p: PositionData, s: SearchState) -> Seq<Move> {
    order_spec(legal_moves_of(p), p.placement, p.white_to_move, hint_for(s, p.hash))
}

/// The state with a node's result put into the table, unless the table
/// holds a result for the same hash from a deeper search.
pub open spec fn with_result(
    s: SearchState,
    hash: u64,
    depth: u8,
    score: int,
    node_type: NodeType,
) -> SearchState {
    SearchState { table: stored(s.table, hash, depth, score as i32, node_type), hints: s.hints }
}

/// Whether a node is searched no further: at depth 0, and where the game
/// has ended. The quiescence search decides such a node, and no signal
/// interrupts it.
pub open spec fn is_leaf(p: PositionData, depth: u8) -> bool {
    depth == 0 || status_of(p) != BoardStatus::Ongoing
}

/// The score of a position that the maximizer has moved to, and the state
/// afterwards: the table's score where it holds a usable one; else what the
/// minimizer's search gives, which is then put into the table unless a
/// deeper result for the position is held there.
pub open spec fn reply_to_max(p: PositionData, alpha: int, beta: int, depth: u8, s: SearchState)
    -> (int, SearchState)
    decreases depth, 2int, 0int,
{
    match cached_score(s.table, p.hash, alpha, beta, depth) {
        Some(score) => (score as int, s),
        None => {
            let found = search_min_spec(p, alpha, beta, depth, s);
            (found.score, with_result(found.state, p.hash, depth, found.score, found.node_type))
        },
    }
}

/// The score of a position that the minimizer has moved to, and the state
/// afterwards.
pub open spec fn reply_to_min(p: PositionData, alpha: int, beta: int, depth: u8, s: SearchState)
    -> (int, SearchState)
    decreases depth, 2int, 0int,
{
    match cached_score(s.table, p.hash, alpha, beta, depth) {
        Some(score) => (score as int, s),
        None => {
            let found = search_max_spec(p, alpha, beta, depth, s);
            (found.score, with_result(found.state, p.hash, depth, found.score, found.node_type))
        },
    }
}

/// What the search gives for a node of the maximizer when it is not
/// interrupted. At depth 0 and where the game has ended the quiescence
/// search decides. Else the moves are tried in their order, each scored by
/// the reply to it. A score that reaches `beta` ends the search with `beta`
/// as a lower bound. A score above `alpha` raises `alpha` and makes its move
/// the best. At the end the node is exact where a move was best, with the
/// score passed through `consider_short_mate_spec` and the move recorded for
/// the position; and else `alpha` is an upper bound.
pub open spec fn search_max_spec(
    p: PositionData,
    alpha: int,
    beta: int,
    depth: u8,
    s: SearchState,
) -> Outcome
    decreases depth, 1int, 0int,
{
    if depth == 0 || status_of(p) != BoardStatus::Ongoing {
        let leaf = quiesce_max_spec(p, alpha, beta);
        Outcome { score: leaf.0, node_type: leaf.1, state: s }
    } else {
        search_max_from(p, search_order(p, s), 0, alpha, beta, depth, None, s)
    }
}

/// The maximizer's search from the move `moves[i]` on.
pub open spec fn search_max_from(
    p: PositionData,
    moves: Seq<Move>,
    i: int,
    alpha: int,
    beta: int,
    depth: u8,
    best: Option<Move>,
    s: SearchState,
) -> Outcome
    decreases depth, 0int, moves.len() - i,
{
    if depth == 0 || i < 0 || i >= moves.len() {
        match best {
            Some(m) => Outcome {
                score: consider_short_mate_spec(alpha),
                node_type: NodeType::PV,
                state: SearchState { table: s.table, hints: s.hints.insert(p.hash, m) },
            },
            None => Outcome { score: alpha, node_type: NodeType::ALL, state: s },
        }
    } else {
        let reply = reply_to_max(
            position_after(p, moves[i]),
            alpha,
            beta,
            (depth - 1) as u8,
            s,
        );
        if reply.0 >= beta {
            Outcome { score: beta, node_type: NodeType::CUT, state: reply.1 }
        } else if reply.0 > alpha {
            search_max_from(p, moves, i + 1, reply.0, beta, depth, Some(moves[i]), reply.1)
        } else {
            search_max_from(p, moves, i + 1, alpha, beta, depth, best, reply.1)
        }
    }
}

/// What the search gives for a node of the minimizer when it is not
/// interrupted: as `search_max_spec`, with the sides exchanged.
pub open spec fn search_min_spec(
    p: PositionData,
    alpha: int,
    beta: int,
    depth: u8,
    s: SearchState,
) -> Outcome
    decreases depth, 1int, 0int,
{
    if depth == 0 || status_of(p) != BoardStatus::Ongoing {
        let leaf = quiesce_min_spec(p, alpha, beta);
        Outcome { score: leaf.0, node_type: leaf.1, state: s }
    } else {
        search_min_from(p, search_order(p, s), 0, alpha, beta, depth, None, s)
    }
}

/// The minimizer's search from the move `moves[i]` on.
pub open spec fn search_min_from(
    p: PositionData,
    moves: Seq<Move>,
    i: int,
    alpha: int,
    beta: int,
    depth: u8,
    best: Option<Move>,
    s: SearchState,
) -> Outcome
    decreases depth, 0int, moves.len() - i,
{
    if depth == 0 || i < 0 || i >= moves.len() {
        match best {
            Some(m) => Outcome {
                score: consider_short_mate_spec(beta),
                node_type: NodeType::PV,
                state: SearchState { table: s.table, hints: s.hints.insert(p.hash, m) },
            },
            None => Outcome { score: beta, node_type: NodeType::ALL, state: s },
        }
    } else {
        let reply = reply_to_min(
            position_after(p, moves[i]),
            alpha,
            beta,
            (depth - 1) as u8,
            s,
        );
        if reply.0 <= alpha {
            Outcome { score: alpha, node_type: NodeType::CUT, state: reply.1 }
        } else if reply.0 < beta {
            search_min_from(p, moves, i + 1, alpha, reply.0, depth, Some(moves[i]), reply.1)
        } else {
            search_min_from(p, moves, i + 1, alpha, beta, depth, best, reply.1)
        }
    }
}

/// Every move that a search tries is a legal move.
pub proof fn lemma_searched_moves_are_legal(p: PositionData, s: SearchState, i: int)
    requires
        0 <= i < search_order(p, s).len(),
    ensures
        legal_moves_of(p).contains(search_order(p, s)[i]),
{
    let order = search_order(p, s);
    crate::search::move_order::lemma_order_is_permutation(
        legal_moves_of(p),
        p.placement,
        p.white_to_move,
        hint_for(s, p.hash),
    );
    to_multiset_contains(order, order[i]);
    to_multiset_contains(legal_moves_of(p), order[i]);
    assert(order.contains(order[i]));
}

/// The score of a position that the maximizer has moved to: the table's,
/// where it holds a usable one, else the minimizer's search, whose result
/// goes into the table. None where the search was interrupted, which it is
/// not where the table holds a usable score, nor at a leaf.
pub fn get_or_calculate_min(
    position: Position,
    alpha: i32,
    beta: i32,
    depth: u8,
    data: &mut SearchData,
    signals: &StopSignals,
) -> (r: Option<i32>)
    requires
        old(data).wf(),
    ensures
        final(data).wf(),
        final(data).visits() == old(data).visits(),
        final(data).scores() == old(data).scores(),
        cached_score(old(data).table(), position@.hash, alpha as int, beta as int, depth)
            matches Some(score) ==> r == Some(score) && final(data).state() == old(data).state(),
        is_leaf(position@, depth) ==> r is Some,
        r matches Some(score) ==> (score as int, final(data).state()) == reply_to_max(
            position@,
            alpha as int,
            beta as int,
            depth,
            old(data).state(),
        ),
    decreases depth, 2int,
{
    let hash = position.hash();
    if let Some(score) = data.lookup(hash, alpha, beta, depth) {
        return Some(score);
    }
    match alpha_beta_min(position, alpha, beta, depth, data, signals) {
        Some((score, node_type)) => {
            data.record(hash, depth, score, node_type);
            Some(score)
        },
        None => None,
    }
}

/// The score of a position that the minimizer has moved to: the table's,
/// where it holds a usable one, else the maximizer's search, whose result
/// goes into the table. None where the search was interrupted, which it is
/// not where the table holds a usable score, nor at a leaf.
pub fn get_or_calculate_max(
    position: Position,
    alpha: i32,
    beta: i32,
    depth: u8,
    data: &mut SearchData,
    signals: &StopSignals,
) -> (r: Option<i32>)
    requires
        old(data).wf(),
    ensures
        final(data).wf(),
        final(data).visits() == old(data).visits(),
        final(data).scores() == old(data).scores(),
        cached_score(old(data).table(), position@.hash, alpha as int, beta as int, depth)
            matches Some(score) ==> r == Some(score) && final(data).state() == old(data).state(),
        is_leaf(position@, depth) ==> r is Some,
        r matches Some(score) ==> (score as int, final(data).state()) == reply_to_min(
            position@,
            alpha as int,
            beta as int,
            depth,
            old(data).state(),
        ),
    decreases depth, 2int,
{
    let hash = position.hash();
    if let Some(score) = data.lookup(hash, alpha, beta, depth) {
        return Some(score);
    }
    match alpha_beta_max(position, alpha, beta, depth, data, signals) {
        Some((score, node_type)) => {
            data.record(hash, depth, score, node_type);
            Some(score)
        },
        None => None,
    }
}

/// The search of a node in which the maximizer is to move, `depth_left`
/// moves deep, with the window from `alpha` to `beta`. None where the
/// search was told to stop; what it found till then is not to be used. At a
/// leaf the search asks for no signal and is owed: it gives what the
/// quiescence search gives, and leaves the table and the best moves as they
/// are.
pub fn alpha_beta_max(
    position: Position,
    alpha: i32,
    beta: i32,
    depth_left: u8,
    data: &mut SearchData,
    signals: &StopSignals,
) -> (r: Option<(i32, NodeType)>)
    requires
        old(data).wf(),
    ensures
        final(data).wf(),
        final(data).visits() == old(data).visits(),
        final(data).scores() == old(data).scores(),
        is_leaf(position@, depth_left) ==> r is Some,
        r matches Some(found) ==> {
            let outcome = search_max_spec(
                position@,
                alpha as int,
                beta as int,
                depth_left,
                old(data).state(),
            );
            found.0 == outcome.score && found.1 == outcome.node_type && final(data).state()
                == outcome.state
        },
    decreases depth_left, 1int,
{
    if depth_left == 0 || position.status() != BoardStatus::Ongoing {
        return Some(quiesce_search_max(position, alpha, beta));
    }
    let mut low = alpha;
    let mut best_move: Option<Move> = None;
    let moves = get_move_order(&position, data);
    let mut i: usize = 0;
    while i < moves.len()
        invariant
            i <= moves@.len(),
            depth_left > 0,
            !is_leaf(position@, depth_left),
            data.wf(),
            data.visits() == old(data).visits(),
            data.scores() == old(data).scores(),
            moves@ == search_order(position@, old(data).state()),
            search_max_spec(position@, alpha as int, beta as int, depth_left, old(data).state())
                == search_max_from(
                position@,
                moves@,
                i as int,
                low as int,
                beta as int,
                depth_left,
                best_move,
                data.state(),
            ),
        decreases moves@.len() - i,
    {
        if signals.hard_stop() {
            return None;
        }
        proof {
            lemma_searched_moves_are_legal(position@, old(data).state(), i as int);
        }
        let copy = position.make_move(moves[i]);
        let score = match get_or_calculate_min(copy, low, beta, depth_left - 1, data, signals) {
            Some(score) => score,
            None => {
                return None;
            },
        };
        if score >= beta {
            return Some((beta, NodeType::CUT));
        }
        if score > low {
            low = score;
            best_move = Some(moves[i]);
        }
        i += 1;
    }
    match best_move {
        Some(best) => {
            data.set_best_move(position.hash(), best);
            Some((consider_short_mate(low), NodeType::PV))
        },
        None => Some((low, NodeType::ALL)),
    }
}

/// The search of a node in which the minimizer is to move. None where the
/// search was told to stop. At a leaf the search asks for no signal and is
/// owed: it gives what the quiescence search gives, and leaves the table
/// and the best moves as they are.
pub fn alpha_beta_min(
    position: Position,
    alpha: i32,
    beta: i32,
    depth_left: u8,
    data: &mut SearchData,
    signals: &StopSignals,
) -> (r: Option<(i32, NodeType)>)
    requires
        old(data).wf(),
    ensures
        final(data).wf(),
        final(data).visits() == old(data).visits(),
        final(data).scores() == old(data).scores(),
        is_leaf(position@, depth_left) ==> r is Some,
        r matches Some(found) ==> {
            let outcome = search_min_spec(
                position@,
                alpha as int,
                beta as int,
                depth_left,
                old(data).state(),
            );
            found.0 == outcome.score && found.1 == outcome.node_type && final(data).state()
                == outcome.state
        },
    decreases depth_left, 1int,
{
    if depth_left == 0 || position.status() != BoardStatus::Ongoing {
        return Some(quiesce_search_min(position, alpha, beta));
    }
    let mut high = beta;
    let mut best_move: Option<Move> = None;
    let moves = get_move_order(&position, data);
    let mut i: usize = 0;
    while i < moves.len()
        invariant
            i <= moves@.len(),
            depth_left > 0,
            !is_leaf(position@, depth_left),
            data.wf(),
            data.visits() == old(data).visits(),
            data.scores() == old(data).scores(),
            moves@ == search_order(position@, old(data).state()),
            search_min_spec(position@, alpha as int, beta as int, depth_left, old(data).state())
                == search_min_from(
                position@,
                moves@,
                i as int,
                alpha as int,
                high as int,
                depth_left,
                best_move,
                data.state(),
            ),
        decreases moves@.len() - i,
    {
        if signals.hard_stop() {
            return None;
        }
        proof {
            lemma_searched_moves_are_legal(position@, old(data).state(), i as int);
        }
        let copy = position.make_move(moves[i]);
        let score = match get_or_calculate_max(copy, alpha, high, depth_left - 1, data, signals) {
            Some(score) => score,
            None => {
                return None;
            },
        };
        if score <= alpha {
            return Some((alpha, NodeType::CUT));
        }
        if score < high {
            high = score;
            best_move = Some(moves[i]);
        }
        i += 1;
    }
    match best_move {
        Some(best) => {
            data.set_best_move(position.hash(), best);
            Some((consider_short_mate(high), NodeType::PV))
        },
        None => Some((high, NodeType::ALL)),
    }
}

/// The move and score that the root search holds to be best so far.
pub type BestMove = (Option<Move>, i32);

/// The best move after the move `m` got `score`: `m` where no move was
/// held yet, or where its score is better for the side to move than the
/// score held: higher for White, lower for Black. Of moves with equal
/// scores the first stays.
pub open spec fn registered(best: BestMove, m: Move, score: i32, white: bool) -> BestMove {
    if best.0 is None || (white && score > best.1) || (!white && score < best.1) {
        (Some(m), score)
    } else {
        best
    }
}

/// What the root search holds before any move was searched.
pub open spec fn nothing_found(white: bool) -> BestMove {
    (
        None,
        if white {
            i32::MIN
        } else {
            i32::MAX
        },
    )
}

/// The window with which a move at the root is searched first: narrow
/// around the score that the move got in the last iteration, or the widest
/// where it got none, or one that no position can have.
pub open spec fn first_window(scores: Map<u64, i32>, hash: u64) -> AspirationWindow {
    if scores.dom().contains(hash) && -MATE_SCORE <= scores[hash] <= MATE_SCORE {
        AspirationWindow { source: scores[hash], left: WINDOW_SIZE, right: WINDOW_SIZE }
    } else {
        AspirationWindow { source: 0, left: MAX_WINDOW_SIZE, right: MAX_WINDOW_SIZE }
    }
}

/// How often a margin can still be widened.
pub open spec fn size_room(size: int) -> nat {
    if size == WINDOW_SIZE {
        3
    } else if size == DOUBLE_WINDOW_SIZE {
        2
    } else if size == QUADRUPLE_WINDOW_SIZE {
        1
    } else {
        0
    }
}

/// How often a window can still be widened.
pub open spec fn widen_room(w: AspirationWindow) -> nat {
    size_room(w.left as int) + size_room(w.right as int)
}

/// The score that a move at the root gets, and the state afterwards, where
/// the search is not interrupted: the position after the move is searched
/// for the other side with the window, and again with the window widened
/// for as long as the score falls out of a window that can be widened.
#[verifier::opaque]
pub open spec fn root_move_spec(
    child: PositionData,
    w: AspirationWindow,
    depth: u8,
    white: bool,
    s: SearchState,
) -> (int, SearchState)
    decreases widen_room(w),
{
    let found = if white {
        search_min_spec(child, w.spec_alpha(), w.spec_beta(), depth, s)
    } else {
        search_max_spec(child, w.spec_alpha(), w.spec_beta(), depth, s)
    };
    if w.wf() && w.can_widen_for(found.score) && !(w.spec_alpha() < found.score < w.spec_beta()) {
        root_move_spec(child, w.widened_for(found.score), depth, white, found.state)
    } else {
        (found.score, found.state)
    }
}

/// Whether a position was reached at least twice in the game.
pub open spec fn visited_twice(visits: Map<u64, u8>, hash: u64) -> bool {
    visits.dom().contains(hash) && visits[hash] >= 2
}

/// What a search of the root holds: the best move with its score, the
/// scores of the moves for the next iteration, and the table and hints.
pub struct RootOutcome {
    pub best: BestMove,
    pub scores: Map<u64, i32>,
    pub state: SearchState,
}

/// What the root search starts from: no move is held, the scores are those
/// of the last iteration, and the best moves of the search before are
/// forgotten.
pub open spec fn root_start(scores: Map<u64, i32>, s: SearchState, white: bool) -> RootOutcome {
    RootOutcome {
        best: nothing_found(white),
        scores,
        state: SearchState { table: s.table, hints: crate::search::no_moves() },
    }
}

/// What the root search holds after the move `m`, where it is not
/// interrupted. A move to a position that the game has reached twice is
/// passed over. Any other move is searched, its score is kept for the next
/// iteration, and it becomes the best move where its score is better than
/// that of the best so far.
pub open spec fn root_step(
    p: PositionData,
    m: Move,
    depth: u8,
    visits: Map<u64, u8>,
    so_far: RootOutcome,
) -> RootOutcome {
    let child = position_after(p, m);
    if visited_twice(visits, child.hash) {
        so_far
    } else {
        let found = root_move_spec(
            child,
            first_window(so_far.scores, child.hash),
            depth,
            p.white_to_move,
            so_far.state,
        );
        RootOutcome {
            best: registered(so_far.best, m, found.0 as i32, p.white_to_move),
            scores: so_far.scores.insert(child.hash, found.0 as i32),
            state: found.1,
        }
    }
}

/// What the root search holds after the first `n` of `moves`.
pub open spec fn root_after(
    p: PositionData,
    moves: Seq<Move>,
    n: int,
    depth: u8,
    visits: Map<u64, u8>,
    start: RootOutcome,
) -> RootOutcome
    decreases n,
{
    if n <= 0 {
        start
    } else {
        root_step(p, moves[n - 1], depth, visits, root_after(p, moves, n - 1, depth, visits, start))
    }
}

/// What the search of the root to `max_depth` gives where it is not
/// interrupted. A position with one legal move gives that move with score
/// 0, unsearched. Else every legal move is searched one move less deep, in
/// the generator's order.
pub open spec fn root_spec(
    p: PositionData,
    max_depth: u8,
    visits: Map<u64, u8>,
    scores: Map<u64, i32>,
    s: SearchState,
) -> RootOutcome {
    let start = root_start(scores, s, p.white_to_move);
    if legal_moves_of(p).len() == 1 {
        RootOutcome { best: (Some(legal_moves_of(p)[0]), 0), ..start }
    } else {
        root_after(
            p,
            legal_moves_of(p),
            legal_moves_of(p).len() as int,
            (max_depth - 1) as u8,
            visits,
            start,
        )
    }
}

/// The best move after the move `m` got `score`.
pub fn register_score(best: BestMove, m: Move, score: i32, white: bool) -> (r: BestMove)
    ensures
        r == registered(best, m, score, white),
{
    if best.0.is_none() || (white && score > best.1) || (!white && score < best.1) {
        (Some(m), score)
    } else {
        best
    }
}

/// The window with which the move to the position with this hash is
/// searched first.
pub fn starting_window(data: &SearchData, hash: u64) -> (r: AspirationWindow)
    ensures
        r == first_window(data.scores(), hash),
        r.wf(),
{
    match data.previous_score(hash) {
        Some(previous) => {
            if -MATE_SCORE <= previous && previous <= MATE_SCORE {
                AspirationWindow::new(previous)
            } else {
                AspirationWindow::new_inf()
            }
        },
        None => AspirationWindow::new_inf(),
    }
}

/// The score of one move at the root: the position after it is searched
/// with the window, and again with a wider one until the score lies inside
/// the window or the window cannot be widened on that side. None where the
/// search was told to stop.
pub fn search_root_move(
    child: Position,
    window: AspirationWindow,
    depth: u8,
    white: bool,
    data: &mut SearchData,
    signals: &StopSignals,
) -> (r: Option<i32>)
    requires
        old(data).wf(),
        window.wf(),
    ensures
        final(data).wf(),
        final(data).visits() == old(data).visits(),
        final(data).scores() == old(data).scores(),
        r matches Some(score) ==> (score as int, final(data).state()) == root_move_spec(
            child@,
            window,
            depth,
            white,
            old(data).state(),
        ),
{
    let mut current = window;
    proof {
        reveal(root_move_spec);
    }
    loop
        invariant
            data.wf(),
            current.wf(),
            data.visits() == old(data).visits(),
            data.scores() == old(data).scores(),
            root_move_spec(child@, current, depth, white, data.state()) == root_move_spec(
                child@,
                window,
                depth,
                white,
                old(data).state(),
            ),
        decreases widen_room(current),
    {
        proof {
            reveal(root_move_spec);
        }
        if signals.hard_stop() {
            return None;
        }
        let found = if white {
            alpha_beta_min(child, current.alpha(), current.beta(), depth, data, signals)
        } else {
            alpha_beta_max(child, current.alpha(), current.beta(), depth, data, signals)
        };
        let score = match found {
            Some((score, _)) => score,
            None => {
                return None;
            },
        };
        if !current.widen_or_accept(score) {
            return Some(score);
        }
    }
}

/// Whether a search of the root to `max_depth` that is told to stop holds
/// `best` and has kept the scores `kept` for the next iteration: it holds
/// what the search holds after some of the moves. A position with one
/// legal move is not searched, and so its search is not stopped.
pub open spec fn held_on_the_way(
    p: PositionData,
    max_depth: u8,
    visits: Map<u64, u8>,
    scores: Map<u64, i32>,
    s: SearchState,
    best: BestMove,
    kept: Map<u64, i32>,
) -> bool {
    legal_moves_of(p).len() != 1 && exists|n: int|
        0 <= n < legal_moves_of(p).len() && best == (#[trigger] root_after(
            p,
            legal_moves_of(p),
            n,
            (max_depth - 1) as u8,
            visits,
            root_start(scores, s, p.white_to_move),
        )).best && kept == root_after(
            p,
            legal_moves_of(p),
            n,
            (max_depth - 1) as u8,
            visits,
            root_start(scores, s, p.white_to_move),
        ).scores
}

/// The search of the root to `max_depth`: the best move with its score,
/// and whether the search ran to its end. Where it did not, because it was
/// told to stop, the move is the best of those searched till then.
///
/// The move is a legal move of the position. Unless the position has only
/// one legal move, the move does not lead to a position that the game has
/// reached twice already. A position with one legal move gives that move
/// with score 0 whatever the signals say.
#[verifier::rlimit(50)]
pub fn alpha_beta_search(
    position: &Position,
    max_depth: u8,
    data: &mut SearchData,
    signals: &StopSignals,
) -> (r: (Option<Move>, i32, bool))
    requires
        old(data).wf(),
        max_depth >= 1,
    ensures
        final(data).wf(),
        final(data).visits() == old(data).visits(),
        r.0 matches Some(m) ==> legal_moves_of(position@).contains(m),
        r.0 matches Some(m) ==> legal_moves_of(position@).len() == 1 || !visited_twice(
            old(data).visits(),
            position_after(position@, m).hash,
        ),
        r.2 ==> {
            let outcome = root_spec(
                position@,
                max_depth,
                old(data).visits(),
                old(data).scores(),
                old(data).state(),
            );
            &&& (r.0, r.1) == outcome.best
            &&& final(data).scores() == outcome.scores
            &&& final(data).state() == outcome.state
        },
        legal_moves_of(position@).len() == 1 ==> r.2,
        !r.2 ==> held_on_the_way(
            position@,
            max_depth,
            old(data).visits(),
            old(data).scores(),
            old(data).state(),
            (r.0, r.1),
            final(data).scores(),
        ),
{
    data.clear_best_moves();
    let white = position.white_to_move();
    let mut best: BestMove = (
        None,
        if white {
            i32::MIN
        } else {
            i32::MAX
        },
    );
    let moves = position.legal_moves();
    if moves.len() == 1 {
        return (Some(moves[0]), 0, true);
    }
    let ghost start = root_start(old(data).scores(), old(data).state(), white);
    let mut i: usize = 0;
    while i < moves.len()
        invariant
            i <= moves@.len(),
            max_depth >= 1,
            data.wf(),
            data.visits() == old(data).visits(),
            moves@ == legal_moves_of(position@),
            moves@.len() != 1,
            white == position@.white_to_move,
            start == root_start(old(data).scores(), old(data).state(), white),
            best.0 matches Some(m) ==> legal_moves_of(position@).contains(m) && !visited_twice(
                old(data).visits(),
                position_after(position@, m).hash,
            ),
            (RootOutcome { best, scores: data.scores(), state: data.state() }) == root_after(
                position@,
                moves@,
                i as int,
                (max_depth - 1) as u8,
                old(data).visits(),
                start,
            ),
        decreases moves@.len() - i,
    {
        let ghost so_far = root_after(
            position@,
            legal_moves_of(position@),
            i as int,
            (max_depth - 1) as u8,
            old(data).visits(),
            start,
        );
        let ghost next = root_step(
            position@,
            moves@[i as int],
            (max_depth - 1) as u8,
            old(data).visits(),
            so_far,
        );
        assert(so_far.best == best);
        assert(next == root_after(
            position@,
            moves@,
            i + 1,
            (max_depth - 1) as u8,
            old(data).visits(),
            start,
        ));
        if signals.hard_stop() {
            return (best.0, best.1, false);
        }
        assert(moves@.contains(moves@[i as int]));
        let copy = position.make_move(moves[i]);
        let board_hash = copy.hash();
        if !data.position_visited_twice(&copy) {
            let window = starting_window(data, board_hash);
            let score = match search_root_move(copy, window, max_depth - 1, white, data, signals) {
                Some(score) => score,
                None => {
                    return (best.0, best.1, false);
                },
            };
            data.set_previous_score(board_hash, score);
            best = register_score(best, moves[i], score, white);
        }
        assert((RootOutcome { best, scores: data.scores(), state: data.state() }) == next);
        i += 1;
    }
    (best.0, best.1, true)
}

} // verus!
