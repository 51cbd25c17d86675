use vstd::prelude::*;
use vstd::string::StringSliceAdditionalSpecFns;
use crate::opening_book::{is_best_reply, Node};
use crate::position::{
    fen_of, legal_moves_of, move_of_text, placement_is_sound, position_after, position_of_fen,
    text_of_move, Color, Move, Position, PositionData, START_FEN,
};
use crate::search::iterative_deepening::{found_by_search, iterative_deepening};
use crate::search::alpha_beta::{held_on_the_way, root_spec};
use crate::search::{
    no_scores, no_visits, one_more_visit, SearchData, SearchState, StopSignals,
};
use crate::transposition_table::entry::Entry;
use crate::transposition_table::table::aged;

verus! {

/// A game in progress with what the engine knows about it: the position,
/// the search data, the node of the opening book that the game has reached,
/// and the number of moves made since the game left the book.
pub struct Engine {
    game: Position,
    search_data: SearchData,
    opening_db_node: Option<Node>,
    moves_made: u16,
}

/// The time in milliseconds above which the clock counts as unlimited.
pub const UNLIMITED_MS: u64 = 2_000_000_999;

/// The time in milliseconds from which on a move's budget gives way to the
/// default.
pub const LONGEST_BUDGET_MS: u64 = 5_000;

/// The time in milliseconds to spend on a move, by the time left on the
/// clock, the increment for each move, the default budget, and the number
/// of moves made since the game left the opening book. With an unlimited
/// clock the default holds. Else the time left is shared among the moves
/// still expected, 100 less those made and never fewer than 20, and is
/// doubled for the first ten moves; the increment is added. A budget of
/// five seconds or more gives way to the default.
pub open spec fn recommended_timeout_spec(
    time_remaining_ms: u64,
    increase_ms: u64,
    default_timeout_ms: u64,
    moves_made: u16,
) -> int {
    if time_remaining_ms > UNLIMITED_MS {
        default_timeout_ms as int
    } else {
        let factor: int = if moves_made < 10 {
            2
        } else {
            1
        };
        let potential_moves_left: int = if moves_made < 80 {
            100 - moves_made
        } else {
            20
        };
        let recommended = (time_remaining_ms as int / potential_moves_left) * factor
            + increase_ms;
        if recommended >= LONGEST_BUDGET_MS {
            default_timeout_ms as int
        } else {
            recommended
        }
    }
}

/// The time in milliseconds to spend on a move.
pub fn time_budget(
    time_remaining_ms: u64,
    increase_ms: u64,
    default_timeout_ms: u64,
    moves_made: u16,
) -> (r: u64)
    ensures
        r == recommended_timeout_spec(time_remaining_ms, increase_ms, default_timeout_ms, moves_made),
{
    if time_remaining_ms > UNLIMITED_MS {
        return default_timeout_ms;
    }
    let factor: u64 = if moves_made < 10 {
        2
    } else {
        1
    };
    let potential_moves_left: u64 = if moves_made < 80 {
        100 - moves_made as u64
    } else {
        20
    };
    let target = time_remaining_ms / potential_moves_left;
    assert(target <= time_remaining_ms) by (nonlinear_arith)
        requires
            target == time_remaining_ms / potential_moves_left,
            potential_moves_left >= 1,
    ;
    assert(target * factor <= 2 * target) by (nonlinear_arith)
        requires
            1 <= factor <= 2,
    ;
    if increase_ms >= LONGEST_BUDGET_MS {
        return default_timeout_ms;
    }
    let recommended_timeout = target * factor + increase_ms;
    if recommended_timeout >= LONGEST_BUDGET_MS {
        default_timeout_ms
    } else {
        recommended_timeout
    }
}

impl Engine {
    /// The position on the board.
    pub closed spec fn position(&self) -> PositionData {
        self.game@
    }

    /// How often each position, by its hash, was reached in the game.
    pub closed spec fn visits(&self) -> Map<u64, u8> {
        self.search_data.visits()
    }

    /// The node of the opening book that the game has reached, while it is
    /// in the book.
    pub closed spec fn book(&self) -> Option<Node> {
        self.opening_db_node
    }

    /// The number of moves made since the game left the opening book.
    pub closed spec fn moves_made(&self) -> u16 {
        self.moves_made
    }

    /// The slots of the transposition table.
    pub closed spec fn table(&self) -> Seq<Entry> {
        self.search_data.table()
    }

    /// The scores that the moves at the root got in the last search.
    pub closed spec fn scores(&self) -> Map<u64, i32> {
        self.search_data.scores()
    }

    /// The table and the best moves recorded by the last search.
    pub closed spec fn state(&self) -> SearchState {
        self.search_data.state()
    }

    /// Whether the engine is well formed: its search data is.
    pub closed spec fn wf(&self) -> bool {
        self.search_data.wf()
    }

    /// An engine at the start of a game, with the opening book to play from,
    /// if there is one. The starting position counts as reached once.
    pub fn new(opening_book: Option<Node>) -> (r: Engine)
        ensures
            r.wf(),
            position_of_fen(START_FEN@) == Some(r.position()),
            r.book() == opening_book,
            r.moves_made() == 0,
            r.visits() == no_visits().insert(r.position().hash, 1u8),
            r.scores() == no_scores(),
            forall|i: int| 0 <= i < r.table().len() ==> r.table()[i] is Empty,
    {
        let mut e = Engine {
            game: Position::initial(),
            search_data: SearchData::new(),
            opening_db_node: opening_book,
            moves_made: 0,
        };
        e.search_data.visit_position(&e.game);
        e
    }

    /// The position as a FEN text.
    pub fn get_position(&self) -> (r: String)
        ensures
            r@ == fen_of(self.position()),
    {
        self.game.to_fen()
    }

    /// Sets up the position that a FEN text describes, which counts as
    /// reached once more, and leaves the opening book. A text that describes
    /// no position, or whose placement field is not sound, leaves the
    /// position as it is.
    pub fn load_fen(&mut self, fen: &str) -> (r: Result<(), ()>)
        requires
            old(self).wf(),
        ensures
            final(self).wf(),
            final(self).book() is None,
            final(self).moves_made() == old(self).moves_made(),
            final(self).table() == old(self).table(),
            final(self).scores() == old(self).scores(),
            r is Ok <==> placement_is_sound(fen.spec_bytes()) && position_of_fen(fen@) is Some,
            r is Ok ==> position_of_fen(fen@) == Some(final(self).position()) && final(self).visits() == old(self).visits().insert(
                final(self).position().hash,
                one_more_visit(old(self).visits(), final(self).position().hash),
            ),
            r is Err ==> final(self).position() == old(self).position() && final(self).visits()
                == old(self).visits(),
    {
        self.opening_db_node = None;
        match Position::from_fen(fen) {
            Some(game) => {
                self.game = game;
                self.search_data.visit_position(&self.game);
                Ok(())
            },
            None => Err(()),
        }
    }

    /// Makes a move that is given in coordinate notation. The book is
    /// followed where it has the move, and left where it has not; a move
    /// outside the book is counted; the position reached counts as reached
    /// once more. A text that names no move, or a move that is not legal,
    /// changes nothing and gives `false`.
    pub fn make_move(&mut self, joice: String) -> (made: bool)
        requires
            old(self).wf(),
        ensures
            final(self).wf(),
            final(self).table() == old(self).table(),
            final(self).scores() == old(self).scores(),
            made <==> (move_of_text(joice@) matches Some(m) && legal_moves_of(
                old(self).position(),
            ).contains(m)),
            made ==> {
                &&& final(self).position() == position_after(
                    old(self).position(),
                    move_of_text(joice@)->0,
                )
                &&& final(self).visits() == old(self).visits().insert(
                    final(self).position().hash,
                    one_more_visit(old(self).visits(), final(self).position().hash),
                )
                &&& old(self).book() is None ==> final(self).book() is None
                &&& final(self).moves_made() == if final(self).book() is Some || old(self).moves_made() == u16::MAX {
                    old(self).moves_made()
                } else {
                    (old(self).moves_made() + 1) as u16
                }
            },
            !made ==> final(self).position() == old(self).position() && final(self).visits()
                == old(self).visits() && final(self).book() == old(self).book() && final(self).moves_made() == old(self).moves_made(),
    {
        let parsed = match Move::from_text(joice.as_str()) {
            Some(parsed) => parsed,
            None => {
                return false;
            },
        };
        let next = match self.game.try_move(parsed) {
            Some(next) => next,
            None => {
                return false;
            },
        };
        if let Some(opening_node) = self.opening_db_node {
            self.opening_db_node = opening_node.get_node_by_move(joice);
        }
        if self.opening_db_node.is_none() && self.moves_made < u16::MAX {
            self.moves_made += 1;
        }
        self.game = next;
        self.search_data.visit_position(&self.game);
        true
    }

    /// The move that the engine plays, in coordinate notation: the book's
    /// best reply while the game is in the book, else the move that the
    /// search finds before the signals end it. None where the search found
    /// no move.
    ///
    /// The signals are to be reset before the timer that sets them is
    /// started. A move that the search found is a legal move of the
    /// position and the best move of one of the searches of the root.
    pub fn get_engine_move(&mut self, signals: &StopSignals) -> (r: Option<String>)
        requires
            old(self).wf(),
        ensures
            final(self).wf(),
            final(self).position() == old(self).position(),
            final(self).visits() == old(self).visits(),
            final(self).book() == old(self).book(),
            final(self).moves_made() == old(self).moves_made(),
            match old(self).book() {
                Some(node) if node.children@.len() > 0 => r matches Some(text) && is_best_reply(
                    node.children@,
                    text@,
                ),
                _ => r matches Some(text) ==> exists|m: Move|
                    legal_moves_of(old(self).position()).contains(m) && found_by_search(
                        old(self).position(),
                        old(self).visits(),
                        old(self).scores(),
                        old(self).state(),
                        m,
                    ) && text@ == text_of_move(m),
            },
    {
        if let Some(opening_book) = self.opening_db_node {
            if let Some(opening_move) = opening_book.get_best_move() {
                return Some(opening_move);
            }
        }
        match self.iterative_deepening(signals) {
            Some(joice) => joice.to_text(),
            None => None,
        }
    }

    /// The move that the search finds before the signals end it. The move
    /// is a legal move of the position, and unless it is the only one, it
    /// does not lead to a position that the game has reached twice.
    pub fn iterative_deepening(&mut self, signals: &StopSignals) -> (r: Option<Move>)
        requires
            old(self).wf(),
        ensures
            final(self).wf(),
            final(self).position() == old(self).position(),
            final(self).visits() == old(self).visits(),
            final(self).book() == old(self).book(),
            final(self).moves_made() == old(self).moves_made(),
            r matches Some(m) ==> legal_moves_of(old(self).position()).contains(m),
            r matches Some(m) ==> legal_moves_of(old(self).position()).len() == 1
                || !crate::search::alpha_beta::visited_twice(
                old(self).visits(),
                position_after(old(self).position(), m).hash,
            ),
            r matches Some(m) ==> found_by_search(
                old(self).position(),
                old(self).visits(),
                old(self).scores(),
                old(self).state(),
                m,
            ),
    {
        iterative_deepening(&self.game, &mut self.search_data, signals)
    }

    /// The search of the root to `max_depth`: the best move with its score,
    /// and whether the search ran to its end. Where it did, the move and the
    /// score are those of the whole search, and the score of each move is
    /// kept for the next search; where it was told to stop, they are what the
    /// search held after some of the moves. A position with one legal move
    /// gives that move with score 0, unsearched.
    pub fn alpha_beta_search(&mut self, max_depth: u8, signals: &StopSignals) -> (r: (
        Option<Move>,
        i32,
        bool,
    ))
        requires
            old(self).wf(),
            max_depth >= 1,
        ensures
            final(self).wf(),
            final(self).position() == old(self).position(),
            final(self).visits() == old(self).visits(),
            final(self).book() == old(self).book(),
            final(self).moves_made() == old(self).moves_made(),
            r.0 matches Some(m) ==> legal_moves_of(old(self).position()).contains(m),
            r.0 matches Some(m) ==> legal_moves_of(old(self).position()).len() == 1
                || !crate::search::alpha_beta::visited_twice(
                old(self).visits(),
                position_after(old(self).position(), m).hash,
            ),
            legal_moves_of(old(self).position()).len() == 1 ==> r.2,
            r.2 ==> {
                let outcome = root_spec(
                    old(self).position(),
                    max_depth,
                    old(self).visits(),
                    old(self).scores(),
                    old(self).state(),
                );
                &&& (r.0, r.1) == outcome.best
                &&& final(self).scores() == outcome.scores
                &&& final(self).state() == outcome.state
            },
            !r.2 ==> held_on_the_way(
                old(self).position(),
                max_depth,
                old(self).visits(),
                old(self).scores(),
                old(self).state(),
                (r.0, r.1),
                final(self).scores(),
            ),
    {
        crate::search::alpha_beta::alpha_beta_search(
            &self.game,
            max_depth,
            &mut self.search_data,
            signals,
        )
    }

    /// Whether it is the given side's turn.
    pub fn is_my_turn(&self, color: Color) -> (r: bool)
        ensures
            r == (self.position().white_to_move == (color == Color::White)),
    {
        self.game.white_to_move() == (color == Color::White)
    }

    /// The time in milliseconds to spend on the next move.
    pub fn recommended_timeout(
        &self,
        time_remaining_ms: u64,
        increase_ms: u64,
        default_timeout_ms: u64,
    ) -> (r: u64)
        ensures
            r == recommended_timeout_spec(
                time_remaining_ms,
                increase_ms,
                default_timeout_ms,
                self.moves_made(),
            ),
    {
        time_budget(time_remaining_ms, increase_ms, default_timeout_ms, self.moves_made)
    }

    /// What is done between two moves: the table's results grow one move
    /// older, and the scores of the last search's moves are forgotten.
    pub fn do_off_move_stuff(&mut self)
        requires
            old(self).wf(),
        ensures
            final(self).wf(),
            final(self).position() == old(self).position(),
            final(self).visits() == old(self).visits(),
            final(self).book() == old(self).book(),
            final(self).moves_made() == old(self).moves_made(),
            final(self).scores() == no_scores(),
            final(self).table().len() == old(self).table().len(),
            forall|i: int|
                0 <= i < old(self).table().len() ==> final(self).table()[i] == aged(
                    old(self).table()[i],
                ),
    {
        self.search_data.age_table();
        self.search_data.clear_previous_scores();
    }
}

} // verus!
