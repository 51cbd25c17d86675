use vstd::prelude::*;
use crate::bits::{bit_count, count_bits, file_mask, file_of, file_squares};

verus! {

/// The squares of the files next to the file of `sq`.
pub open spec fn neighbour_files(sq: int) -> u64 {
    (if file_of(sq) != 0 {
        file_mask(file_of(sq) - 1)
    } else {
        0
    }) | (if file_of(sq) != 7 {
        file_mask(file_of(sq) + 1)
    } else {
        0
    })
}

/// Whether a pawn on `sq` is isolated: none of its side's pawns stands on a
/// file next to it.
pub open spec fn isolated_spec(all_my_pawns: u64, sq: int) -> bool {
    all_my_pawns & neighbour_files(sq) == 0
}

/// For an isolated pawn the number of its side's pawns on its file, itself
/// among them; 0 for a pawn that is not isolated.
pub open spec fn double_isolated_spec(all_my_pawns: u64, sq: int) -> int {
    if isolated_spec(all_my_pawns, sq) {
        bit_count(all_my_pawns & file_mask(file_of(sq)))
    } else {
        0
    }
}

/// Whether a pawn on `field` is isolated.
pub fn isolated(all_my_pawns: u64, field: u8) -> (r: bool)
    requires
        field < 64,
    ensures
        r == isolated_spec(all_my_pawns, field as int),
{
    let own_file = field % 8;
    let mut mask: u64 = 0;
    if own_file != 0 {
        mask |= file_squares(own_file - 1);
    }
    if own_file != 7 {
        mask |= file_squares(own_file + 1);
    }
    assert(mask == neighbour_files(field as int)) by {
        assert(forall|a: u64| 0u64 | a == a) by (bit_vector);
        assert(forall|a: u64| a | 0u64 == a) by (bit_vector);
    }
    all_my_pawns & mask == 0
}

/// For an isolated pawn the number of its side's pawns on its file.
pub fn double_isolated(all_my_pawns: u64, field: u8) -> (r: i32)
    requires
        field < 64,
    ensures
        r == double_isolated_spec(all_my_pawns, field as int),
        0 <= r <= 64,
{
    if !isolated(all_my_pawns, field) {
        return 0;
    }
    count_bits(all_my_pawns & file_squares(field % 8)) as i32
}

} // verus!
