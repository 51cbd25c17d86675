use vstd::prelude::*;
use crate::bits::{bit_at, file_mask, file_of, file_squares, has_bit, rank_block, rank_of, ranks_upto};
use crate::position::Color;

verus! {

/// What a connected pawn is worth by the rank it has reached, counted from
/// its own side.
pub const BONUS_SEED: [i32; 7] = [0, 7, 8, 12, 29, 48, 86];

/// The rank of `sq` counted from the side's own first rank.
pub open spec fn transposed_rank(sq: int, color: Color) -> int {
    match color {
        Color::White => rank_of(sq),
        Color::Black => 7 - rank_of(sq),
    }
}

/// The number of the side's pawns that protect a pawn on `sq`: those on the
/// rank behind it, one file to the left and one to the right.
pub open spec fn supporter_spec(all_my_pawns: u64, sq: int, color: Color) -> int {
    let behind = match color {
        Color::White => sq - 8,
        Color::Black => sq + 8,
    };
    (if file_of(sq) != 0 && bit_at(all_my_pawns, behind - 1) {
        1int
    } else {
        0int
    }) + (if file_of(sq) != 7 && bit_at(all_my_pawns, behind + 1) {
        1int
    } else {
        0int
    })
}

/// 1 where one of the side's pawns stands beside a pawn on `sq`, else 0.
pub open spec fn phalanx_spec(all_my_pawns: u64, sq: int) -> int {
    if (file_of(sq) != 0 && bit_at(all_my_pawns, sq - 1)) || (file_of(sq) != 7 && bit_at(
        all_my_pawns,
        sq + 1,
    )) {
        1
    } else {
        0
    }
}

/// The squares that lie ahead of a pawn on `sq`, all files taken; for Black
/// the pawn's own rank is among them.
pub open spec fn ahead(sq: int, color: Color) -> u64 {
    match color {
        Color::White => !ranks_upto(rank_of(sq)),
        Color::Black => ranks_upto(rank_of(sq)),
    }
}

/// 1 where a pawn of the other side stands on the file of `sq` ahead of it,
/// else 0.
pub open spec fn opposed_spec(all_opponent_pawns: u64, sq: int, color: Color) -> int {
    if all_opponent_pawns & file_mask(file_of(sq)) & ahead(sq, color) != 0 {
        1
    } else {
        0
    }
}

/// The bonus for a pawn on `sq` that a pawn protects or stands beside; 0
/// for any other pawn. An opposed pawn gets less, a protected one more.
pub open spec fn connected_bonus_spec(
    all_my_pawns: u64,
    all_other_pawns: u64,
    sq: int,
    color: Color,
) -> int {
    let supporter = supporter_spec(all_my_pawns, sq, color);
    let phalanx = phalanx_spec(all_my_pawns, sq);
    if supporter == 0 && phalanx == 0 {
        0
    } else {
        BONUS_SEED[transposed_rank(sq, color)] * (2 + phalanx - opposed_spec(
            all_other_pawns,
            sq,
            color,
        )) + 21 * supporter
    }
}

/// The number of the side's pawns that protect a pawn on `field`.
pub fn supporter(all_my_pawns: u64, field: u8, color: Color) -> (r: i32)
    requires
        8 <= field < 56,
    ensures
        r == supporter_spec(all_my_pawns, field as int, color),
        0 <= r <= 2,
{
    let mut counter: i32 = 0;
    let behind: u8 = match color {
        Color::White => field - 8,
        Color::Black => field + 8,
    };
    if field % 8 != 0 && has_bit(all_my_pawns, behind - 1) {
        counter += 1;
    }
    if field % 8 != 7 && has_bit(all_my_pawns, behind + 1) {
        counter += 1;
    }
    counter
}

/// 1 where one of the side's pawns stands beside a pawn on `field`, else 0.
pub fn phalanx(all_my_pawns: u64, field: u8) -> (r: i32)
    requires
        field < 64,
    ensures
        r == phalanx_spec(all_my_pawns, field as int),
        0 <= r <= 1,
{
    if field % 8 != 0 && has_bit(all_my_pawns, field - 1) {
        return 1;
    }
    if field % 8 != 7 && has_bit(all_my_pawns, field + 1) {
        return 1;
    }
    0
}

/// 1 where a pawn of the other side stands on the file of `field` ahead of
/// it, else 0.
pub fn opposed(all_opponent_pawns: u64, field: u8, color: Color) -> (r: i32)
    requires
        field < 64,
    ensures
        r == opposed_spec(all_opponent_pawns, field as int, color),
        0 <= r <= 1,
{
    let block = match color {
        Color::White => !rank_block(field / 8),
        Color::Black => rank_block(field / 8),
    };
    if all_opponent_pawns & file_squares(field % 8) & block != 0 {
        return 1;
    }
    0
}

/// The bonus for a connected pawn on `field`, which stands on neither the
/// first nor the last rank.
pub fn connected_bonus(all_my_pawns: u64, all_other_pawns: u64, field: u8, color: Color) -> (r:
    i32)
    requires
        8 <= field < 56,
    ensures
        r == connected_bonus_spec(all_my_pawns, all_other_pawns, field as int, color),
        0 <= r <= 300,
{
    let supporter = supporter(all_my_pawns, field, color);
    let phalanx = phalanx(all_my_pawns, field);
    if supporter == 0 && phalanx == 0 {
        return 0;
    }
    let opposed = opposed(all_other_pawns, field, color);
    let transposed_rank: usize = match color {
        Color::White => (field / 8) as usize,
        Color::Black => (7 - field / 8) as usize,
    };
    let seed = BONUS_SEED[transposed_rank];
    let weight = 2 + phalanx - opposed;
    assert(0 <= seed * weight <= 258) by (nonlinear_arith)
        requires
            0 <= seed <= 86,
            1 <= weight <= 3,
    ;
    seed * weight + 21 * supporter
}

} // verus!
