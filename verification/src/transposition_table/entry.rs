use vstd::prelude::*;
use crate::search::NodeType;

verus! {

/// One slot of the transposition table.
#[derive(Clone, Copy, Debug, PartialEq, Eq, Structural)]
pub enum Entry {
    /// A stored search result: the position's hash, the depth it was searched
    /// to, the score with its bound type, and the number of moves played in
    /// the game since it was stored.
    Contains { hash: u64, depth: u8, score: i32, node_type: NodeType, age: u8 },
    /// Nothing stored.
    Empty,
}

} // verus!
