use vstd::prelude::*;

verus! {

/// Whether square `i` is in the set `x`: the set's bit `i`.
pub open spec fn bit_at(x: u64, i: int) -> bool {
    0 <= i < 64 && (x >> (i as u64)) & 1 == 1
}

/// How many of the squares below `n` are in the set `x`.
pub open spec fn bit_count_upto(x: u64, n: int) -> int
    decreases n,
{
    if n <= 0 {
        0
    } else {
        bit_count_upto(x, n - 1) + if bit_at(x, n - 1) {
            1int
        } else {
            0int
        }
    }
}

/// How many squares are in the set `x`.
pub open spec fn bit_count(x: u64) -> int {
    bit_count_upto(x, 64)
}

/// The square's rank, from 0 for the first.
pub open spec fn rank_of(sq: int) -> int {
    sq / 8
}

/// The square's file, from 0 for the a-file.
pub open spec fn file_of(sq: int) -> int {
    sq % 8
}

/// The square at the same file on the opposite rank: a1 for a8.
pub open spec fn mirror_square(sq: int) -> int {
    (7 - sq / 8) * 8 + sq % 8
}

/// The squares of one file.
pub open spec fn file_mask(file: int) -> u64 {
    0x0101_0101_0101_0101u64 << (file as u64)
}

/// The squares of the ranks up to `rank`.
pub open spec fn ranks_upto(rank: int) -> u64 {
    if rank >= 7 {
        0xffff_ffff_ffff_ffffu64
    } else {
        ((1u64 << ((8 * (rank + 1)) as u64)) - 1) as u64
    }
}

/// The set with its ranks in opposite order: what White holds on the first
/// rank, the result holds on the eighth.
pub open spec fn flip_ranks(x: u64) -> u64 {
    (x << 56) | ((x << 40) & 0x00ff_0000_0000_0000) | ((x << 24) & 0x0000_ff00_0000_0000) | ((x
        << 8) & 0x0000_00ff_0000_0000) | ((x >> 8) & 0x0000_0000_ff00_0000) | ((x >> 24)
        & 0x0000_0000_00ff_0000) | ((x >> 40) & 0x0000_0000_0000_ff00) | (x >> 56)
}

/// Whether square `i` is in the set `x`; no square above 63 is.
pub fn has_bit(x: u64, i: u8) -> (r: bool)
    ensures
        r == bit_at(x, i as int),
{
    i < 64 && (x >> (i as u64)) & 1 == 1
}

/// How many squares are in the set `x`.
pub fn count_bits(x: u64) -> (r: u32)
    ensures
        r == bit_count(x),
        r <= 64,
{
    let mut n: u32 = 0;
    let mut i: u8 = 0;
    while i < 64
        invariant
            i <= 64,
            n <= i,
            n == bit_count_upto(x, i as int),
        decreases 64 - i,
    {
        if has_bit(x, i) {
            n += 1;
        }
        i += 1;
    }
    n
}

/// The square at the same file on the opposite rank.
pub fn mirrored_square(sq: u8) -> (r: u8)
    requires
        sq < 64,
    ensures
        r == mirror_square(sq as int),
        r < 64,
{
    (7 - sq / 8) * 8 + sq % 8
}

/// The squares of one file.
pub fn file_squares(file: u8) -> (r: u64)
    requires
        file < 8,
    ensures
        r == file_mask(file as int),
{
    0x0101_0101_0101_0101u64 << (file as u64)
}

/// The squares of the ranks up to `rank`.
pub fn rank_block(rank: u8) -> (r: u64)
    requires
        rank < 8,
    ensures
        r == ranks_upto(rank as int),
{
    if rank >= 7 {
        0xffff_ffff_ffff_ffffu64
    } else {
        let shift: u64 = 8 * (rank as u64 + 1);
        assert((1u64 << shift) >= 1) by (bit_vector)
            requires
                shift < 64,
        ;
        (1u64 << shift) - 1
    }
}

/// The set with its ranks in opposite order.
pub fn flipped(x: u64) -> (r: u64)
    ensures
        r == flip_ranks(x),
{
    (x << 56) | ((x << 40) & 0x00ff_0000_0000_0000) | ((x << 24) & 0x0000_ff00_0000_0000) | ((x
        << 8) & 0x0000_00ff_0000_0000) | ((x >> 8) & 0x0000_0000_ff00_0000) | ((x >> 24)
        & 0x0000_0000_00ff_0000) | ((x >> 40) & 0x0000_0000_0000_ff00) | (x >> 56)
}

} // verus!
