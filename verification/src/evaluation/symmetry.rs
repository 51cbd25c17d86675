use vstd::prelude::*;
use crate::bits::{
    bit_at, bit_count, bit_count_upto, file_mask, file_of, flip_ranks, mirror_square, rank_of,
    ranks_upto,
};
use crate::evaluation::evaluate::{
    blend, color_at, eg_sum, evaluate_spec, mg_sum, mobility_of, opponent, pawn_terms, pawns_of,
    phase_sum, piece_at, score_board_spec, score_with, square_terms,
};
use crate::evaluation::mobility::{
    knight_moves_from, lemma_knight_moves_mirror, mobility_count,
};
use crate::evaluation::pawn::connectivity::{
    connected_bonus_spec, opposed_spec, phalanx_spec, supporter_spec,
};
use crate::evaluation::pawn::isolated::double_isolated_spec;
use crate::position::{status_of, BoardStatus, Color, Piece, Placement, PositionData};

verus! {

/// Mirroring a square twice gives the square; the mirrored square lies on
/// the same file and on the opposite rank.
pub proof fn lemma_mirror_square(sq: int)
    requires
        0 <= sq < 64,
    ensures
        0 <= mirror_square(sq) < 64,
        mirror_square(mirror_square(sq)) == sq,
        file_of(mirror_square(sq)) == file_of(sq),
        rank_of(mirror_square(sq)) == 7 - rank_of(sq),
{
}

/// A square is in a flipped set exactly where its mirror is in the set.
pub proof fn lemma_flip_bit(x: u64, sq: int)
    requires
        0 <= sq < 64,
    ensures
        bit_at(flip_ranks(x), mirror_square(sq)) == bit_at(x, sq),
{
    let i = sq as u64;
    let m = mirror_square(sq) as u64;
    assert(m == i ^ 56) by (bit_vector)
        requires
            i < 64,
            m == (7 - i / 8) * 8 + i % 8,
    ;
    assert(((flip_ranks(x) >> (i ^ 56)) & 1 == 1) == ((x >> i) & 1 == 1)) by (bit_vector)
        requires
            i < 64,
    ;
}

/// Flipping a set keeps the number of its squares.
pub proof fn lemma_flip_keeps_count(x: u64)
    ensures
        bit_count(flip_ranks(x)) == bit_count(x),
{
    let y = flip_ranks(x);
    lemma_flip_rank_count(x, 0);
    lemma_flip_rank_count(x, 1);
    lemma_flip_rank_count(x, 2);
    lemma_flip_rank_count(x, 3);
    lemma_flip_rank_count(x, 4);
    lemma_flip_rank_count(x, 5);
    lemma_flip_rank_count(x, 6);
    lemma_flip_rank_count(x, 7);
    lemma_count_by_ranks(x, 8);
    lemma_count_by_ranks(y, 8);
    reveal_with_fuel(ranks_count, 9);
}

/// How many squares of one rank are in the set.
pub open spec fn rank_count(x: u64, rank: int) -> int {
    bit_count_upto(x, 8 * rank + 8) - bit_count_upto(x, 8 * rank)
}

/// How many squares of the ranks below `n` are in the set, rank by rank.
pub open spec fn ranks_count(x: u64, n: int) -> int
    decreases n,
{
    if n <= 0 {
        0
    } else {
        ranks_count(x, n - 1) + rank_count(x, n - 1)
    }
}

proof fn lemma_count_by_ranks(x: u64, n: int)
    requires
        0 <= n <= 8,
    ensures
        ranks_count(x, n) == bit_count_upto(x, 8 * n),
    decreases n,
{
    if n > 0 {
        lemma_count_by_ranks(x, n - 1);
    }
}

/// The count of one rank, square by square.
proof fn lemma_rank_count_unfolded(x: u64, rank: int)
    requires
        0 <= rank < 8,
    ensures
        rank_count(x, rank) == one_if(bit_at(x, 8 * rank)) + one_if(bit_at(x, 8 * rank + 1))
            + one_if(bit_at(x, 8 * rank + 2)) + one_if(bit_at(x, 8 * rank + 3)) + one_if(
            bit_at(x, 8 * rank + 4),
        ) + one_if(bit_at(x, 8 * rank + 5)) + one_if(bit_at(x, 8 * rank + 6)) + one_if(
            bit_at(x, 8 * rank + 7),
        ),
{
    let a = 8 * rank;
    assert(bit_count_upto(x, a + 1) == bit_count_upto(x, a) + one_if(bit_at(x, a)));
    assert(bit_count_upto(x, a + 2) == bit_count_upto(x, a + 1) + one_if(bit_at(x, a + 1)));
    assert(bit_count_upto(x, a + 3) == bit_count_upto(x, a + 2) + one_if(bit_at(x, a + 2)));
    assert(bit_count_upto(x, a + 4) == bit_count_upto(x, a + 3) + one_if(bit_at(x, a + 3)));
    assert(bit_count_upto(x, a + 5) == bit_count_upto(x, a + 4) + one_if(bit_at(x, a + 4)));
    assert(bit_count_upto(x, a + 6) == bit_count_upto(x, a + 5) + one_if(bit_at(x, a + 5)));
    assert(bit_count_upto(x, a + 7) == bit_count_upto(x, a + 6) + one_if(bit_at(x, a + 6)));
    assert(bit_count_upto(x, a + 8) == bit_count_upto(x, a + 7) + one_if(bit_at(x, a + 7)));
}

/// 1 for a square that is in a set and 0 for one that is not.
pub open spec fn one_if(b: bool) -> int {
    if b {
        1
    } else {
        0
    }
}

/// A rank of the flipped set holds as many squares as the opposite rank of
/// the set.
#[verifier::rlimit(50)]
proof fn lemma_flip_rank_count(x: u64, rank: int)
    requires
        0 <= rank < 8,
    ensures
        rank_count(flip_ranks(x), 7 - rank) == rank_count(x, rank),
{
    let y = flip_ranks(x);
    let a = 8 * rank;
    let b = 8 * (7 - rank);
    lemma_rank_count_unfolded(x, rank);
    lemma_rank_count_unfolded(y, 7 - rank);
    lemma_flip_bit(x, a);
    lemma_flip_bit(x, a + 1);
    lemma_flip_bit(x, a + 2);
    lemma_flip_bit(x, a + 3);
    lemma_flip_bit(x, a + 4);
    lemma_flip_bit(x, a + 5);
    lemma_flip_bit(x, a + 6);
    lemma_flip_bit(x, a + 7);
    assert(mirror_square(a) == b);
    assert(mirror_square(a + 1) == b + 1);
    assert(mirror_square(a + 2) == b + 2);
    assert(mirror_square(a + 3) == b + 3);
    assert(mirror_square(a + 4) == b + 4);
    assert(mirror_square(a + 5) == b + 5);
    assert(mirror_square(a + 6) == b + 6);
    assert(mirror_square(a + 7) == b + 7);
}

/// Flipping goes through intersections, keeps files, and leaves only the
/// empty set empty.
pub proof fn lemma_flip_masks(a: u64, b: u64, file: int)
    requires
        0 <= file < 8,
    ensures
        flip_ranks(a & b) == flip_ranks(a) & flip_ranks(b),
        flip_ranks(a | b) == flip_ranks(a) | flip_ranks(b),
        flip_ranks(file_mask(file)) == file_mask(file),
        (flip_ranks(a) == 0) == (a == 0),
        flip_ranks(0) == 0,
{
    let f = file as u64;
    assert(flip_ranks(a & b) == flip_ranks(a) & flip_ranks(b)) by (bit_vector);
    assert(flip_ranks(a | b) == flip_ranks(a) | flip_ranks(b)) by (bit_vector);
    assert(flip_ranks(0x0101_0101_0101_0101u64 << f) == 0x0101_0101_0101_0101u64 << f)
        by (bit_vector)
        requires
            f < 8,
    ;
    assert((flip_ranks(a) == 0) == (a == 0)) by (bit_vector);
    assert(flip_ranks(0) == 0) by (bit_vector);
}

/// The ranks up to each rank, as sets of squares.
pub proof fn lemma_ranks_upto_values()
    ensures
        ranks_upto(0) == 0xffu64,
        ranks_upto(1) == 0xffffu64,
        ranks_upto(2) == 0xffffffu64,
        ranks_upto(3) == 0xffffffffu64,
        ranks_upto(4) == 0xffffffffffu64,
        ranks_upto(5) == 0xffffffffffffu64,
        ranks_upto(6) == 0xffffffffffffffu64,
        ranks_upto(7) == 0xffffffffffffffffu64,
{
    assert(1u64 << 8 == 0x100u64) by (bit_vector);
    assert(1u64 << 16 == 0x10000u64) by (bit_vector);
    assert(1u64 << 24 == 0x1000000u64) by (bit_vector);
    assert(1u64 << 32 == 0x100000000u64) by (bit_vector);
    assert(1u64 << 40 == 0x10000000000u64) by (bit_vector);
    assert(1u64 << 48 == 0x1000000000000u64) by (bit_vector);
    assert(1u64 << 56 == 0x100000000000000u64) by (bit_vector);
}

/// A pawn is opposed exactly where its mirror image is, as long as no pawn
/// of the other side stands on the pawn's own square.
pub proof fn lemma_opposed_mirror(other: u64, sq: int, color: Color)
    requires
        0 <= sq < 64,
        !bit_at(other, sq),
    ensures
        opposed_spec(flip_ranks(other), mirror_square(sq), opponent(color)) == opposed_spec(
            other,
            sq,
            color,
        ),
{
    let o = other;
    let rank = rank_of(sq);
    let f = file_of(sq) as u64;
    lemma_mirror_square(sq);
    lemma_ranks_upto_values();
    assert(sq == 8 * rank + f);
    if rank == 0 {
        assert(((flip_ranks(o) & (0x0101_0101_0101_0101u64 << f) & 0xffffffffffffffffu64) != 0) == ((o & (
            0x0101_0101_0101_0101u64 << f) & !0xffu64) != 0)) by (bit_vector)
            requires
                f < 8,
                (o >> (0u64 + f)) & 1 != 1,
        ;
        assert(((flip_ranks(o) & (0x0101_0101_0101_0101u64 << f) & !0xffffffffffffffffu64) != 0) == ((o & (
            0x0101_0101_0101_0101u64 << f) & 0xffu64) != 0)) by (bit_vector)
            requires
                f < 8,
                (o >> (0u64 + f)) & 1 != 1,
        ;
    }
    if rank == 1 {
        assert(((flip_ranks(o) & (0x0101_0101_0101_0101u64 << f) & 0xffffffffffffffu64) != 0) == ((o & (
            0x0101_0101_0101_0101u64 << f) & !0xffffu64) != 0)) by (bit_vector)
            requires
                f < 8,
                (o >> (8u64 + f)) & 1 != 1,
        ;
        assert(((flip_ranks(o) & (0x0101_0101_0101_0101u64 << f) & !0xffffffffffffffu64) != 0) == ((o & (
            0x0101_0101_0101_0101u64 << f) & 0xffffu64) != 0)) by (bit_vector)
            requires
                f < 8,
                (o >> (8u64 + f)) & 1 != 1,
        ;
    }
    if rank == 2 {
        assert(((flip_ranks(o) & (0x0101_0101_0101_0101u64 << f) & 0xffffffffffffu64) != 0) == ((o & (
            0x0101_0101_0101_0101u64 << f) & !0xffffffu64) != 0)) by (bit_vector)
            requires
                f < 8,
                (o >> (16u64 + f)) & 1 != 1,
        ;
        assert(((flip_ranks(o) & (0x0101_0101_0101_0101u64 << f) & !0xffffffffffffu64) != 0) == ((o & (
            0x0101_0101_0101_0101u64 << f) & 0xffffffu64) != 0)) by (bit_vector)
            requires
                f < 8,
                (o >> (16u64 + f)) & 1 != 1,
        ;
    }
    if rank == 3 {
        assert(((flip_ranks(o) & (0x0101_0101_0101_0101u64 << f) & 0xffffffffffu64) != 0) == ((o & (
            0x0101_0101_0101_0101u64 << f) & !0xffffffffu64) != 0)) by (bit_vector)
            requires
                f < 8,
                (o >> (24u64 + f)) & 1 != 1,
        ;
        assert(((flip_ranks(o) & (0x0101_0101_0101_0101u64 << f) & !0xffffffffffu64) != 0) == ((o & (
            0x0101_0101_0101_0101u64 << f) & 0xffffffffu64) != 0)) by (bit_vector)
            requires
                f < 8,
                (o >> (24u64 + f)) & 1 != 1,
        ;
    }
    if rank == 4 {
        assert(((flip_ranks(o) & (0x0101_0101_0101_0101u64 << f) & 0xffffffffu64) != 0) == ((o & (
            0x0101_0101_0101_0101u64 << f) & !0xffffffffffu64) != 0)) by (bit_vector)
            requires
                f < 8,
                (o >> (32u64 + f)) & 1 != 1,
        ;
        assert(((flip_ranks(o) & (0x0101_0101_0101_0101u64 << f) & !0xffffffffu64) != 0) == ((o & (
            0x0101_0101_0101_0101u64 << f) & 0xffffffffffu64) != 0)) by (bit_vector)
            requires
                f < 8,
                (o >> (32u64 + f)) & 1 != 1,
        ;
    }
    if rank == 5 {
        assert(((flip_ranks(o) & (0x0101_0101_0101_0101u64 << f) & 0xffffffu64) != 0) == ((o & (
            0x0101_0101_0101_0101u64 << f) & !0xffffffffffffu64) != 0)) by (bit_vector)
            requires
                f < 8,
                (o >> (40u64 + f)) & 1 != 1,
        ;
        assert(((flip_ranks(o) & (0x0101_0101_0101_0101u64 << f) & !0xffffffu64) != 0) == ((o & (
            0x0101_0101_0101_0101u64 << f) & 0xffffffffffffu64) != 0)) by (bit_vector)
            requires
                f < 8,
                (o >> (40u64 + f)) & 1 != 1,
        ;
    }
    if rank == 6 {
        assert(((flip_ranks(o) & (0x0101_0101_0101_0101u64 << f) & 0xffffu64) != 0) == ((o & (
            0x0101_0101_0101_0101u64 << f) & !0xffffffffffffffu64) != 0)) by (bit_vector)
            requires
                f < 8,
                (o >> (48u64 + f)) & 1 != 1,
        ;
        assert(((flip_ranks(o) & (0x0101_0101_0101_0101u64 << f) & !0xffffu64) != 0) == ((o & (
            0x0101_0101_0101_0101u64 << f) & 0xffffffffffffffu64) != 0)) by (bit_vector)
            requires
                f < 8,
                (o >> (48u64 + f)) & 1 != 1,
        ;
    }
    if rank == 7 {
        assert(((flip_ranks(o) & (0x0101_0101_0101_0101u64 << f) & 0xffu64) != 0) == ((o & (
            0x0101_0101_0101_0101u64 << f) & !0xffffffffffffffffu64) != 0)) by (bit_vector)
            requires
                f < 8,
                (o >> (56u64 + f)) & 1 != 1,
        ;
        assert(((flip_ranks(o) & (0x0101_0101_0101_0101u64 << f) & !0xffu64) != 0) == ((o & (
            0x0101_0101_0101_0101u64 << f) & 0xffffffffffffffffu64) != 0)) by (bit_vector)
            requires
                f < 8,
                (o >> (56u64 + f)) & 1 != 1,
        ;
    }
}

/// The pawns that protect a pawn are the mirror images of those that
/// protect its mirror image.
pub proof fn lemma_supporter_mirror(mine: u64, sq: int, color: Color)
    requires
        8 <= sq < 56,
    ensures
        supporter_spec(flip_ranks(mine), mirror_square(sq), opponent(color)) == supporter_spec(
            mine,
            sq,
            color,
        ),
{
    let behind = match color {
        Color::White => sq - 8,
        Color::Black => sq + 8,
    };
    lemma_mirror_square(sq);
    if file_of(sq) != 0 {
        lemma_flip_bit(mine, behind - 1);
    }
    if file_of(sq) != 7 {
        lemma_flip_bit(mine, behind + 1);
    }
}

/// A pawn stands beside another exactly where its mirror image does.
pub proof fn lemma_phalanx_mirror(mine: u64, sq: int)
    requires
        0 <= sq < 64,
    ensures
        phalanx_spec(flip_ranks(mine), mirror_square(sq)) == phalanx_spec(mine, sq),
{
    lemma_mirror_square(sq);
    if file_of(sq) != 0 {
        lemma_flip_bit(mine, sq - 1);
    }
    if file_of(sq) != 7 {
        lemma_flip_bit(mine, sq + 1);
    }
}

/// A pawn is as isolated as its mirror image.
pub proof fn lemma_isolated_mirror(mine: u64, sq: int)
    requires
        0 <= sq < 64,
    ensures
        double_isolated_spec(flip_ranks(mine), mirror_square(sq)) == double_isolated_spec(
            mine,
            sq,
        ),
{
    lemma_mirror_square(sq);
    let file = file_of(sq);
    let left: u64 = if file != 0 {
        file_mask(file - 1)
    } else {
        0
    };
    let right: u64 = if file != 7 {
        file_mask(file + 1)
    } else {
        0
    };
    if file != 0 {
        lemma_flip_masks(mine, left, file - 1);
    }
    if file != 7 {
        lemma_flip_masks(mine, right, file + 1);
    }
    lemma_flip_masks(left, right, file);
    lemma_flip_masks(mine, left | right, file);
    lemma_flip_masks(mine & (left | right), 0, file);
    lemma_flip_masks(mine, file_mask(file), file);
    lemma_flip_keeps_count(mine & file_mask(file));
}

/// The bonus of a connected pawn is that of its mirror image.
pub proof fn lemma_connected_mirror(mine: u64, other: u64, sq: int, color: Color)
    requires
        8 <= sq < 56,
        !bit_at(other, sq),
    ensures
        connected_bonus_spec(
            flip_ranks(mine),
            flip_ranks(other),
            mirror_square(sq),
            opponent(color),
        ) == connected_bonus_spec(mine, other, sq, color),
{
    lemma_mirror_square(sq);
    lemma_supporter_mirror(mine, sq, color);
    lemma_phalanx_mirror(mine, sq);
    lemma_opposed_mirror(other, sq, color);
}

/// No square is held by both sides where the sides are apart.
pub proof fn lemma_sides_apart(pl: Placement, sq: int)
    requires
        pl.sides_apart(),
        0 <= sq < 64,
    ensures
        !(bit_at(pl.white, sq) && bit_at(pl.black, sq)),
        !(bit_at(pl.pawns & pl.white, sq) && bit_at(pl.pawns & pl.black, sq)),
        bit_at(pl.pawns & pl.white, sq) == (bit_at(pl.pawns, sq) && bit_at(pl.white, sq)),
        bit_at(pl.pawns & pl.black, sq) == (bit_at(pl.pawns, sq) && bit_at(pl.black, sq)),
{
    let w = pl.white;
    let b = pl.black;
    let p = pl.pawns;
    let i = sq as u64;
    assert(!((w >> i) & 1 == 1 && (b >> i) & 1 == 1)) by (bit_vector)
        requires
            w & b == 0,
            i < 64,
    ;
    assert((((p & w) >> i) & 1 == 1) == ((p >> i) & 1 == 1 && (w >> i) & 1 == 1)) by (bit_vector)
        requires
            i < 64,
    ;
    assert((((p & b) >> i) & 1 == 1) == ((p >> i) & 1 == 1 && (b >> i) & 1 == 1)) by (bit_vector)
        requires
            i < 64,
    ;
}

/// The pawns of a side in the mirrored placement are the mirror images of
/// the other side's pawns.
pub proof fn lemma_pawns_mirror(pl: Placement, color: Color)
    ensures
        pawns_of(pl.mirror(), opponent(color)) == flip_ranks(pawns_of(pl, color)),
{
    lemma_flip_masks(pl.pawns, pl.white, 0);
    lemma_flip_masks(pl.pawns, pl.black, 0);
}

/// The pawn-structure term of a pawn is that of its mirror image.
pub proof fn lemma_pawn_terms_mirror(pl: Placement, sq: int, color: Color)
    requires
        pl.sides_apart(),
        8 <= sq < 56,
        color_at(pl, sq) == Some(color),
    ensures
        pawn_terms(pl.mirror(), mirror_square(sq), opponent(color)) == pawn_terms(pl, sq, color),
{
    let mine = pawns_of(pl, color);
    let other = pawns_of(pl, opponent(color));
    lemma_mirror_square(sq);
    lemma_pawns_mirror(pl, color);
    lemma_pawns_mirror(pl, opponent(color));
    lemma_sides_apart(pl, sq);
    assert(!bit_at(other, sq));
    lemma_connected_mirror(mine, other, sq, color);
    lemma_isolated_mirror(mine, sq);
}

/// The mobility of each square's piece, read off at the mirrored square.
pub open spec fn mirror_counts(mobility: Seq<int>) -> Seq<int> {
    Seq::new(64, |sq: int| mobility[mirror_square(sq)])
}

/// What a square adds in the mirrored placement is what its mirror image
/// adds in the placement, with the two score terms negated.
#[verifier::rlimit(50)]
pub proof fn lemma_square_terms_mirror(pl: Placement, mobility: Seq<int>, sq: int)
    requires
        pl.sides_apart(),
        mobility.len() == 64,
        0 <= sq < 64,
    ensures
        square_terms(pl.mirror(), mirror_counts(mobility), mirror_square(sq)).0 == -square_terms(
            pl,
            mobility,
            sq,
        ).0,
        square_terms(pl.mirror(), mirror_counts(mobility), mirror_square(sq)).1 == -square_terms(
            pl,
            mobility,
            sq,
        ).1,
        square_terms(pl.mirror(), mirror_counts(mobility), mirror_square(sq)).2 == square_terms(
            pl,
            mobility,
            sq,
        ).2,
{
    let m = pl.mirror();
    let msq = mirror_square(sq);
    lemma_mirror_square(sq);
    lemma_flip_bit(pl.pawns, sq);
    lemma_flip_bit(pl.knights, sq);
    lemma_flip_bit(pl.bishops, sq);
    lemma_flip_bit(pl.rooks, sq);
    lemma_flip_bit(pl.queens, sq);
    lemma_flip_bit(pl.kings, sq);
    lemma_flip_bit(pl.white, sq);
    lemma_flip_bit(pl.black, sq);
    lemma_sides_apart(pl, sq);
    assert(piece_at(m, msq) == piece_at(pl, sq));
    assert(mirror_counts(mobility)[msq] == mobility[sq]);
    match (color_at(pl, sq), piece_at(pl, sq)) {
        (Some(color), Some(piece)) => {
            assert(color_at(m, msq) == Some(opponent(color)));
            if piece == Piece::Pawn && 8 <= sq < 56 {
                lemma_pawn_terms_mirror(pl, sq, color);
            }
        },
        _ => {},
    }
}

/// The sum of `f` over the squares below `n`.
pub open spec fn sum_below(f: spec_fn(int) -> int, n: int) -> int
    decreases n,
{
    if n <= 0 {
        0
    } else {
        sum_below(f, n - 1) + f(n - 1)
    }
}

/// The sum of `f` over one rank.
pub open spec fn rank_sum(f: spec_fn(int) -> int, rank: int) -> int {
    f(8 * rank) + f(8 * rank + 1) + f(8 * rank + 2) + f(8 * rank + 3) + f(8 * rank + 4) + f(
        8 * rank + 5,
    ) + f(8 * rank + 6) + f(8 * rank + 7)
}

proof fn lemma_sum_by_ranks(f: spec_fn(int) -> int, n: int)
    requires
        0 <= n <= 8,
    ensures
        sum_below(f, 8 * n) == if n == 0 {
            0
        } else {
            sum_below(f, 8 * (n - 1)) + rank_sum(f, n - 1)
        },
{
    if n > 0 {
        reveal_with_fuel(sum_below, 9);
    }
}

/// A sum over the board stays the same when the terms are taken at the
/// mirrored squares.
pub proof fn lemma_sum_mirrored(f: spec_fn(int) -> int, g: spec_fn(int) -> int)
    requires
        forall|sq: int| 0 <= sq < 64 ==> g(mirror_square(sq)) == #[trigger] f(sq),
    ensures
        sum_below(g, 64) == sum_below(f, 64),
{
    lemma_sum_by_ranks(f, 1);
    lemma_sum_by_ranks(f, 2);
    lemma_sum_by_ranks(f, 3);
    lemma_sum_by_ranks(f, 4);
    lemma_sum_by_ranks(f, 5);
    lemma_sum_by_ranks(f, 6);
    lemma_sum_by_ranks(f, 7);
    lemma_sum_by_ranks(f, 8);
    lemma_sum_by_ranks(g, 1);
    lemma_sum_by_ranks(g, 2);
    lemma_sum_by_ranks(g, 3);
    lemma_sum_by_ranks(g, 4);
    lemma_sum_by_ranks(g, 5);
    lemma_sum_by_ranks(g, 6);
    lemma_sum_by_ranks(g, 7);
    lemma_sum_by_ranks(g, 8);
    lemma_rank_sum_mirrored(f, g, 0);
    lemma_rank_sum_mirrored(f, g, 1);
    lemma_rank_sum_mirrored(f, g, 2);
    lemma_rank_sum_mirrored(f, g, 3);
    lemma_rank_sum_mirrored(f, g, 4);
    lemma_rank_sum_mirrored(f, g, 5);
    lemma_rank_sum_mirrored(f, g, 6);
    lemma_rank_sum_mirrored(f, g, 7);
}

proof fn lemma_rank_sum_mirrored(f: spec_fn(int) -> int, g: spec_fn(int) -> int, rank: int)
    requires
        0 <= rank < 8,
        forall|sq: int| 0 <= sq < 64 ==> g(mirror_square(sq)) == #[trigger] f(sq),
    ensures
        rank_sum(g, 7 - rank) == rank_sum(f, rank),
{
    let a = 8 * rank;
    let b = 8 * (7 - rank);
    assert(mirror_square(a) == b);
    assert(mirror_square(a + 1) == b + 1);
    assert(mirror_square(a + 2) == b + 2);
    assert(mirror_square(a + 3) == b + 3);
    assert(mirror_square(a + 4) == b + 4);
    assert(mirror_square(a + 5) == b + 5);
    assert(mirror_square(a + 6) == b + 6);
    assert(mirror_square(a + 7) == b + 7);
    assert(g(b) == f(a));
    assert(g(b + 1) == f(a + 1));
    assert(g(b + 2) == f(a + 2));
    assert(g(b + 3) == f(a + 3));
    assert(g(b + 4) == f(a + 4));
    assert(g(b + 5) == f(a + 5));
    assert(g(b + 6) == f(a + 6));
    assert(g(b + 7) == f(a + 7));
}

proof fn lemma_sums_as_sum_below(pl: Placement, mobility: Seq<int>, n: int)
    requires
        0 <= n,
    ensures
        mg_sum(pl, mobility, n) == sum_below(|sq: int| square_terms(pl, mobility, sq).0, n),
        eg_sum(pl, mobility, n) == sum_below(|sq: int| square_terms(pl, mobility, sq).1, n),
        phase_sum(pl, mobility, n) == sum_below(|sq: int| square_terms(pl, mobility, sq).2, n),
    decreases n,
{
    if n > 0 {
        lemma_sums_as_sum_below(pl, mobility, n - 1);
    }
}

proof fn lemma_sum_negated(f: spec_fn(int) -> int, g: spec_fn(int) -> int, n: int)
    requires
        0 <= n,
        forall|sq: int| 0 <= sq < n ==> g(sq) == -#[trigger] f(sq),
    ensures
        sum_below(g, n) == -sum_below(f, n),
    decreases n,
{
    if n > 0 {
        lemma_sum_negated(f, g, n - 1);
    }
}

/// The score changes its sign when the sides are exchanged: the score of
/// the mirrored placement, whose pieces have the mobility of their mirror
/// images, is the negated score of the placement.
pub proof fn lemma_mirror_negates_score(pl: Placement, mobility: Seq<int>)
    requires
        pl.sides_apart(),
        mobility.len() == 64,
    ensures
        score_with(pl.mirror(), mirror_counts(mobility)) == -score_with(pl, mobility),
{
    let m = pl.mirror();
    let mm = mirror_counts(mobility);
    lemma_sums_as_sum_below(pl, mobility, 64);
    lemma_sums_as_sum_below(m, mm, 64);
    let mg = |sq: int| square_terms(pl, mobility, sq).0;
    let eg = |sq: int| square_terms(pl, mobility, sq).1;
    let ph = |sq: int| square_terms(pl, mobility, sq).2;
    let neg_mg = |sq: int| -square_terms(pl, mobility, sq).0;
    let neg_eg = |sq: int| -square_terms(pl, mobility, sq).1;
    let mmg = |sq: int| square_terms(m, mm, sq).0;
    let meg = |sq: int| square_terms(m, mm, sq).1;
    let mph = |sq: int| square_terms(m, mm, sq).2;
    assert forall|sq: int| 0 <= sq < 64 implies mmg(mirror_square(sq)) == #[trigger] neg_mg(
        sq,
    ) by {
        lemma_square_terms_mirror(pl, mobility, sq);
    }
    assert forall|sq: int| 0 <= sq < 64 implies meg(mirror_square(sq)) == #[trigger] neg_eg(
        sq,
    ) by {
        lemma_square_terms_mirror(pl, mobility, sq);
    }
    assert forall|sq: int| 0 <= sq < 64 implies mph(mirror_square(sq)) == #[trigger] ph(sq) by {
        lemma_square_terms_mirror(pl, mobility, sq);
    }
    lemma_sum_mirrored(neg_mg, mmg);
    lemma_sum_mirrored(neg_eg, meg);
    lemma_sum_mirrored(ph, mph);
    lemma_sum_negated(mg, neg_mg, 64);
    lemma_sum_negated(eg, neg_eg, 64);
    let a = mg_sum(pl, mobility, 64);
    let b = eg_sum(pl, mobility, 64);
    let phase = phase_sum(pl, mobility, 64);
    assert(mg_sum(m, mm, 64) == -a);
    assert(eg_sum(m, mm, 64) == -b);
    assert(phase_sum(m, mm, 64) == phase);
    lemma_blend_negated(a, b, phase);
}

/// Negating both sums negates their blend.
pub proof fn lemma_blend_negated(mg: int, eg: int, phase: int)
    ensures
        blend(-mg, -eg, phase) == -blend(mg, eg, phase),
{
    let mg_phase = if phase > 24 {
        24
    } else {
        phase
    };
    assert((-mg) * mg_phase + (-eg) * (24 - mg_phase) == -(mg * mg_phase + eg * (24 - mg_phase)))
        by (nonlinear_arith);
}

/// The empty set holds no square.
pub proof fn lemma_empty_set(n: int)
    requires
        0 <= n <= 64,
    ensures
        bit_count_upto(0, n) == 0,
        forall|sq: int| !bit_at(0, sq),
    decreases n,
{
    assert forall|sq: int| !bit_at(0, sq) by {
        if 0 <= sq < 64 {
            let i = sq as u64;
            assert(!((0u64 >> i) & 1 == 1)) by (bit_vector)
                requires
                    i < 64,
            ;
        }
    }
    if n > 0 {
        lemma_empty_set(n - 1);
    }
}

/// Whether the bishops, rooks and queens of a placement have the mobility
/// of their mirror images in the mirrored placement.
pub open spec fn sliders_mirror(pl: Placement) -> bool {
    forall|sq: int|
        0 <= sq < 64 ==> match #[trigger] piece_at(pl, sq) {
            Some(piece) => piece == Piece::Bishop || piece == Piece::Rook || piece == Piece::Queen
                ==> mobility_count(
                piece,
                pl.mirror().white | pl.mirror().black,
                mirror_square(sq) as u8,
            ) == mobility_count(piece, pl.white | pl.black, sq as u8),
            None => true,
        }
}

/// The mobility of each piece of the mirrored placement is that of its
/// mirror image, where that is so for the bishops, rooks and queens: for
/// the knights it follows from their attack sets, and pawns and kings have
/// no mobility.
#[verifier::rlimit(50)]
pub proof fn lemma_mobility_mirrors(pl: Placement)
    requires
        sliders_mirror(pl),
    ensures
        mobility_of(pl.mirror()) == mirror_counts(mobility_of(pl)),
{
    let m = pl.mirror();
    let occupied = pl.white | pl.black;
    let mirrored = m.white | m.black;
    lemma_flip_masks(pl.black, pl.white, 0);
    assert(mirrored == flip_ranks(occupied)) by {
        let w = pl.white;
        let b = pl.black;
        assert(flip_ranks(b) | flip_ranks(w) == flip_ranks(w | b)) by (bit_vector);
    }
    assert forall|at: int| 0 <= at < 64 implies mobility_of(m)[at] == mirror_counts(
        mobility_of(pl),
    )[at] by {
        let sq = mirror_square(at);
        lemma_mirror_square(at);
        lemma_mirror_square(sq);
        lemma_flip_bit(pl.pawns, sq);
        lemma_flip_bit(pl.knights, sq);
        lemma_flip_bit(pl.bishops, sq);
        lemma_flip_bit(pl.rooks, sq);
        lemma_flip_bit(pl.queens, sq);
        lemma_flip_bit(pl.kings, sq);
        assert(piece_at(m, at) == piece_at(pl, sq));
        match piece_at(pl, sq) {
            Some(piece) => {
                if piece == Piece::Knight {
                    lemma_knight_moves_mirror(sq as u8);
                    let reach = knight_moves_from(sq as u8);
                    assert(flip_ranks(reach) & !flip_ranks(occupied) == flip_ranks(
                        reach & !occupied,
                    )) by (bit_vector);
                    lemma_flip_keeps_count(reach & !occupied);
                } else if piece == Piece::Pawn || piece == Piece::King {
                    assert(0u64 & !mirrored == 0) by (bit_vector);
                    assert(0u64 & !occupied == 0) by (bit_vector);
                } else {
                    assert(mobility_count(piece, mirrored, mirror_square(sq) as u8)
                        == mobility_count(piece, occupied, sq as u8));
                }
            },
            None => {},
        }
    }
    assert(mobility_of(m) =~= mirror_counts(mobility_of(pl)));
}

/// The score of a placement changes its sign when the sides are
/// exchanged, where the bishops, rooks and queens have the mobility of
/// their mirror images.
pub proof fn lemma_mirror_negates_board(pl: Placement)
    requires
        pl.sides_apart(),
        sliders_mirror(pl),
    ensures
        score_board_spec(pl.mirror()) == -score_board_spec(pl),
{
    lemma_mobility_mirrors(pl);
    lemma_mirror_negates_score(pl, mobility_of(pl));
}

/// The score of a placement without bishops, rooks and queens changes its
/// sign when the sides are exchanged.
pub proof fn lemma_mirror_negates_light_board(pl: Placement)
    requires
        pl.sides_apart(),
        pl.bishops == 0,
        pl.rooks == 0,
        pl.queens == 0,
    ensures
        score_board_spec(pl.mirror()) == -score_board_spec(pl),
{
    lemma_empty_set(0);
    lemma_mirror_negates_board(pl);
}

/// The score of a position in which the game goes on changes its sign
/// when the sides are exchanged: of two such positions, of which one has
/// the mirrored placement of the other, one scores what the other scores
/// negated, where the bishops, rooks and queens have the mobility of their
/// mirror images.
pub proof fn lemma_mirror_negates_evaluation(p: PositionData, q: PositionData)
    requires
        status_of(p) == BoardStatus::Ongoing,
        status_of(q) == BoardStatus::Ongoing,
        p.placement.sides_apart(),
        q.placement == p.placement.mirror(),
        sliders_mirror(p.placement),
    ensures
        evaluate_spec(q) == -evaluate_spec(p),
{
    lemma_mirror_negates_board(p.placement);
}

} // verus!
