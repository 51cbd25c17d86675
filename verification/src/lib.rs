//! A chess engine core: static evaluation, a transposition table, move
//! ordering, quiescence and alpha-beta search under iterative deepening,
//! with contracts that Verus proves.
//!
//! The rules of chess are not part of it. Positions come from the `chess`
//! crate: `position` wraps its board, and what the move generator gives is
//! named there and taken on trust. Everything else is stated over those
//! names and proved:
//!
//! - `evaluation` scores a placement from piece values, piece-square tables,
//!   mobility and pawn structure, blended by the game phase. The score
//!   never reaches a mate score (`evaluation::bounds`). It changes its sign
//!   when the sides are exchanged, as far as the mobility of the bishops,
//!   rooks and queens mirrors, which the attack tables of the `chess` crate
//!   decide (`evaluation::symmetry`).
//! - `transposition_table` keeps search results in buckets, one result for
//!   a hash in each, evicts the oldest, and gives up no result for a
//!   shallower one of the same hash.
//! - `search` holds the search proper: `move_order` rearranges the legal
//!   moves, `quiesce_search` plays out captures, `alpha_beta` searches nodes
//!   and the root with aspiration windows, `iterative_deepening` drives it
//!   under the stop signals. `search::minimax` proves that pruning changes
//!   neither score nor move in a search that takes no score from the table
//!   and meets no mate score above its leaves; with a table hit or a mate
//!   score the search may differ from the plain minimax. `search::root_laws`
//!   proves that the root holds the best of the scores and keeps each of
//!   them.
//! - `engine` ties a game to its search data, opening book and clock.
//! - `opening_book`, `events` and `game_state` serve the program around the
//!   engine: the book's tree, and what the game server reports.

pub mod bits;
pub mod engine;
pub mod evaluation;
pub mod events;
pub mod game_state;
pub mod opening_book;
pub mod position;
pub mod search;
pub mod text;
pub mod transposition_table;

pub use engine::Engine;
