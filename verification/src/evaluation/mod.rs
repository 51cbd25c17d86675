pub mod bounds;
pub mod evaluate;
pub mod helper;
pub mod mobility;
pub mod pawn;
pub mod piece_sq_tables;
pub mod symmetry;

pub use evaluate::{evaluate, CONSIDERED_MATE, MATE_SCORE};
pub use mobility::piece_mobility;
pub use pawn::connectivity::connected_bonus;
pub use pawn::isolated::double_isolated;
pub use piece_sq_tables::{eg_value, game_phase_inc, mg_value};
