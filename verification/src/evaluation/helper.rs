use vstd::prelude::*;
use crate::evaluation::mobility::{rook_attacks, rook_moves_from};
use crate::position::{Color, Placement};

verus! {

/// The squares of the side's rooks and queens.
pub open spec fn heavy_pieces(pl: Placement, color: Color) -> u64 {
    (pl.rooks | pl.queens) & match color {
        Color::White => pl.white,
        Color::Black => pl.black,
    }
}

/// A rook's attacks from `field` when the side's own rooks and queens let it
/// through.
pub fn rook_xray(pl: &Placement, field: u8, color: Color) -> (r: u64)
    requires
        field < 64,
    ensures
        r == rook_moves_from(field, (pl.white | pl.black) & !heavy_pieces(*pl, color)),
{
    let own = match color {
        Color::White => pl.white,
        Color::Black => pl.black,
    };
    let my_supporters = (pl.rooks | pl.queens) & own;
    rook_attacks(field, (pl.white | pl.black) & !my_supporters)
}

/// As `rook_xray`: the attacks are taken along ranks and files here too.
pub fn bishop_xray(pl: &Placement, field: u8, color: Color) -> (r: u64)
    requires
        field < 64,
    ensures
        r == rook_moves_from(field, (pl.white | pl.black) & !heavy_pieces(*pl, color)),
{
    rook_xray(pl, field, color)
}

} // verus!
