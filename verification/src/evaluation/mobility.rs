use vstd::prelude::*;
use crate::bits::{bit_at, bit_count, count_bits, flip_ranks, mirror_square};
use crate::position::Piece;

verus! {

pub const MG_KNIGHT: [i32; 9] = [-62, -53, -12, -4, 3, 13, 22, 28, 33];

pub const MG_BISHOP: [i32; 14] = [-48, -20, 16, 26, 38, 51, 55, 63, 63, 68, 81, 81, 91, 98];

pub const MG_ROOK: [i32; 15] = [-60, -20, 2, 3, 3, 11, 22, 31, 40, 40, 41, 48, 57, 57, 62];

pub const MG_QUEEN: [i32; 28] = [
    -30, -12, -8, -9, 20, 23, 23, 35, 38, 53, 64, 65, 65, 66,
    67, 67, 72, 72, 77, 79, 93, 108, 108, 108, 110, 114, 114, 116,
];

pub const EG_KNIGHT: [i32; 9] = [-81, -56, -31, -16, 5, 11, 17, 20, 25];

pub const EG_BISHOP: [i32; 14] = [-59, -23, -3, 13, 24, 42, 54, 57, 65, 73, 78, 86, 88, 97];

pub const EG_ROOK: [i32; 15] = [
    -78, -17, 23, 39, 70, 99, 103, 121, 134, 139, 158, 164, 168, 169, 172,
];

pub const EG_QUEEN: [i32; 28] = [
    -48, -30, -7, 19, 40, 55, 59, 75, 78, 96, 96, 100, 121, 127,
    131, 133, 136, 141, 147, 150, 151, 168, 168, 171, 182, 182, 192, 219,
];

/// The squares a knight on `sq` attacks: the square's set shifted by each
/// of the eight knight's leaps, without what a leap carries over the edge
/// of the board.
pub open spec fn knight_moves_from(sq: u8) -> u64 {
    let b = 1u64 << (sq as u64);
    ((b << 17) & 0xfefe_fefe_fefe_fefe) | ((b << 15) & 0x7f7f_7f7f_7f7f_7f7f) | ((b << 10)
        & 0xfcfc_fcfc_fcfc_fcfc) | ((b << 6) & 0x3f3f_3f3f_3f3f_3f3f) | ((b >> 17)
        & 0x7f7f_7f7f_7f7f_7f7f) | ((b >> 15) & 0xfefe_fefe_fefe_fefe) | ((b >> 10)
        & 0x3f3f_3f3f_3f3f_3f3f) | ((b >> 6) & 0xfcfc_fcfc_fcfc_fcfc)
}

/// Whether a knight on `sq` reaches `d`: the squares are two ranks and one
/// file apart, or one rank and two files.
pub open spec fn knight_reaches(sq: u64, d: u64) -> bool {
    let ranks = if d / 8 >= sq / 8 {
        d / 8 - sq / 8
    } else {
        sq / 8 - d / 8
    };
    let files = if d % 8 >= sq % 8 {
        d % 8 - sq % 8
    } else {
        sq % 8 - d % 8
    };
    (ranks == 2 && files == 1) || (ranks == 1 && files == 2)
}

/// A square is in the knight's attack set exactly where the knight
/// reaches it.
pub proof fn lemma_knight_moves(sq: u8, d: u8)
    requires
        sq < 64,
        d < 64,
    ensures
        bit_at(knight_moves_from(sq), d as int) == knight_reaches(sq as u64, d as u64),
{
    let at = d as u64;
    assert(((knight_moves_from(sq) >> at) & 1 == 1) == knight_reaches(sq as u64, at))
        by (bit_vector)
        requires
            sq < 64,
            at < 64,
    ;
}

/// The knight's attack set from the mirrored square is the mirrored attack
/// set.
pub proof fn lemma_knight_moves_mirror(sq: u8)
    requires
        sq < 64,
    ensures
        mirror_square(sq as int) == sq ^ 56,
        knight_moves_from(sq ^ 56) == flip_ranks(knight_moves_from(sq)),
{
    assert(sq ^ 56 == (7 - sq / 8) * 8 + sq % 8) by (bit_vector)
        requires
            sq < 64,
    ;
    assert(flip_ranks(knight_moves_from(sq)) == knight_moves_from(sq ^ 56)) by (bit_vector)
        requires
            sq < 64,
    ;
}

/// The squares a bishop on `sq` attacks when `blockers` are occupied.
pub uninterp spec fn bishop_moves_from(sq: u8, blockers: u64) -> u64;

/// The squares a rook on `sq` attacks when `blockers` are occupied.
pub uninterp spec fn rook_moves_from(sq: u8, blockers: u64) -> u64;

/// `chess::get_knight_moves`: a knight's attacks from a square of the
/// board, which the crate's table holds as the squares two ranks and one
/// file, or one rank and two files, away.
#[verifier::external_body]
fn knight_attacks(sq: u8) -> (r: u64)
    requires
        sq < 64,
    ensures
        r == knight_moves_from(sq),
{
    chess::get_knight_moves(chess::ALL_SQUARES[sq as usize]).0
}

/// `chess::get_bishop_moves`: a bishop's attacks from a square of the board
/// past which the blockers let nothing through.
#[verifier::external_body]
fn bishop_attacks(sq: u8, blockers: u64) -> (r: u64)
    requires
        sq < 64,
    ensures
        r == bishop_moves_from(sq, blockers),
{
    chess::get_bishop_moves(chess::ALL_SQUARES[sq as usize], chess::BitBoard(blockers)).0
}

/// `chess::get_rook_moves`: a rook's attacks from a square of the board past
/// which the blockers let nothing through.
#[verifier::external_body]
pub(crate) fn rook_attacks(sq: u8, blockers: u64) -> (r: u64)
    requires
        sq < 64,
    ensures
        r == rook_moves_from(sq, blockers),
{
    chess::get_rook_moves(chess::ALL_SQUARES[sq as usize], chess::BitBoard(blockers)).0
}

/// The squares that a piece on `sq` attacks on a board with the squares
/// `occupied` taken. Pawns and kings count for nothing here.
pub open spec fn attack_set(p: Piece, sq: u8, occupied: u64) -> u64 {
    match p {
        Piece::Knight => knight_moves_from(sq),
        Piece::Bishop => bishop_moves_from(sq, occupied),
        Piece::Rook => rook_moves_from(sq, occupied),
        Piece::Queen => bishop_moves_from(sq, occupied) | rook_moves_from(sq, occupied),
        _ => 0,
    }
}

/// A piece's mobility: the number of free squares that it attacks.
pub open spec fn mobility_count(p: Piece, occupied: u64, sq: u8) -> int {
    bit_count(attack_set(p, sq, occupied) & !occupied)
}

/// The entry of a table with `len` entries for `count`, the last entry
/// standing for every count beyond the table.
pub open spec fn table_index(count: int, len: int) -> int {
    if count < len {
        count
    } else {
        len - 1
    }
}

/// The bonus for a piece with `count` free squares to go to, in the middle
/// game and in the end game.
pub open spec fn mobility_bonus_spec(p: Piece, count: int) -> (int, int) {
    match p {
        Piece::Knight => (
            MG_KNIGHT[table_index(count, 9)] as int,
            EG_KNIGHT[table_index(count, 9)] as int,
        ),
        Piece::Bishop => (
            MG_BISHOP[table_index(count, 14)] as int,
            EG_BISHOP[table_index(count, 14)] as int,
        ),
        Piece::Rook => (
            MG_ROOK[table_index(count, 15)] as int,
            EG_ROOK[table_index(count, 15)] as int,
        ),
        Piece::Queen => (
            MG_QUEEN[table_index(count, 28)] as int,
            EG_QUEEN[table_index(count, 28)] as int,
        ),
        _ => (0, 0),
    }
}

/// The bonus for a piece with `count` free squares to go to.
pub fn mobility_bonus(p: &Piece, count: u32) -> (r: (i32, i32))
    ensures
        (r.0 as int, r.1 as int) == mobility_bonus_spec(*p, count as int),
        -100 <= r.0 <= 120,
        -100 <= r.1 <= 220,
{
    match p {
        Piece::Knight => {
            let i: usize = if count < 9 { count as usize } else { 8 };
            (MG_KNIGHT[i], EG_KNIGHT[i])
        },
        Piece::Bishop => {
            let i: usize = if count < 14 { count as usize } else { 13 };
            (MG_BISHOP[i], EG_BISHOP[i])
        },
        Piece::Rook => {
            let i: usize = if count < 15 { count as usize } else { 14 };
            (MG_ROOK[i], EG_ROOK[i])
        },
        Piece::Queen => {
            let i: usize = if count < 28 { count as usize } else { 27 };
            (MG_QUEEN[i], EG_QUEEN[i])
        },
        _ => (0, 0),
    }
}

/// The number of free squares that a piece on `field` attacks.
pub fn piece_mobility_count(p: &Piece, board: u64, field: u8) -> (r: u32)
    requires
        field < 64,
    ensures
        r == mobility_count(*p, board, field),
        r <= 64,
{
    let attacks = match p {
        Piece::Knight => knight_attacks(field),
        Piece::Bishop => bishop_attacks(field, board),
        Piece::Rook => rook_attacks(field, board),
        Piece::Queen => bishop_attacks(field, board) | rook_attacks(field, board),
        _ => 0,
    };
    count_bits(attacks & !board)
}

/// The mobility bonus of a piece on `field`, in the middle game and in the
/// end game, on a board with the squares `board` taken.
pub fn piece_mobility(p: &Piece, board: u64, field: u8) -> (r: (i32, i32))
    requires
        field < 64,
    ensures
        (r.0 as int, r.1 as int) == mobility_bonus_spec(*p, mobility_count(*p, board, field)),
{
    mobility_bonus(p, piece_mobility_count(p, board, field))
}

} // verus!
