use vstd::prelude::*;
use crate::bits::bit_count_upto;
use crate::evaluation::evaluate::{
    blend, color_at, eg_sum, evaluate_spec, mg_sum, mobility_of, opponent, pawn_terms, pawns_of,
    phase_sum, piece_at, score_with, square_terms, trunc_div, MATE_SCORE, MAX_STATIC_SCORE,
};
use crate::evaluation::mobility::{attack_set, mobility_bonus_spec};
use crate::evaluation::pawn::connectivity::{
    connected_bonus_spec, opposed_spec, phalanx_spec, supporter_spec, transposed_rank,
    BONUS_SEED,
};
use crate::evaluation::piece_sq_tables::{eg_value_spec, game_phase_inc_spec, mg_value_spec};
use crate::position::{status_of, BoardStatus, Color, Piece, Placement, PositionData};

verus! {

/// No set holds fewer than no squares.
pub proof fn lemma_bit_count_bounds(x: u64, n: int)
    requires
        0 <= n,
    ensures
        0 <= bit_count_upto(x, n) <= n,
    decreases n,
{
    if n > 0 {
        lemma_bit_count_bounds(x, n - 1);
    }
}

/// The bonus of a connected pawn lies between 0 and 300.
pub proof fn lemma_connected_bonus_bounds(mine: u64, other: u64, sq: int, color: Color)
    requires
        8 <= sq < 56,
    ensures
        0 <= connected_bonus_spec(mine, other, sq, color) <= 300,
{
    let supporter = supporter_spec(mine, sq, color);
    let phalanx = phalanx_spec(mine, sq);
    let weight = 2 + phalanx - opposed_spec(other, sq, color);
    let rank = transposed_rank(sq, color);
    assert(1 <= rank <= 6);
    let seed = BONUS_SEED[rank] as int;
    assert(0 <= seed <= 86);
    assert(0 <= seed * weight <= 258) by (nonlinear_arith)
        requires
            0 <= seed <= 86,
            1 <= weight <= 3,
    ;
}

/// The pawn-structure terms of a pawn lie between -100 and 300.
pub proof fn lemma_pawn_terms_bounds(pl: Placement, sq: int, color: Color)
    requires
        8 <= sq < 56,
    ensures
        -100 <= pawn_terms(pl, sq, color).0 <= 300,
        -100 <= pawn_terms(pl, sq, color).1 <= 300,
{
    let mine = pawns_of(pl, color);
    let other = pawns_of(pl, opponent(color));
    lemma_connected_bonus_bounds(mine, other, sq, color);
    let bonus = connected_bonus_spec(mine, other, sq, color);
    let advance = trunc_div(transposed_rank(sq, color) - 2, 4);
    assert(0 <= advance <= 1);
    assert(0 <= bonus * advance <= 300) by (nonlinear_arith)
        requires
            0 <= bonus <= 300,
            0 <= advance <= 1,
    ;
}

/// The value of a piece on a square lies between -1300 and 1300.
#[verifier::rlimit(50)]
pub proof fn lemma_piece_value_bounds(piece: Piece, color: Color, sq: int)
    requires
        0 <= sq < 64,
    ensures
        -1300 <= mg_value_spec(piece, color, sq) <= 1300,
        -1300 <= eg_value_spec(piece, color, sq) <= 1300,
        0 <= game_phase_inc_spec(piece) <= 4,
{
}

/// The mobility bonus lies between -100 and 220.
pub proof fn lemma_mobility_bonus_bounds(piece: Piece, count: int)
    requires
        0 <= count,
    ensures
        -100 <= mobility_bonus_spec(piece, count).0 <= 120,
        -100 <= mobility_bonus_spec(piece, count).1 <= 220,
{
}

/// What a square adds to the sums lies between -2000 and 2000, and what it
/// adds to the game phase between 0 and 4.
#[verifier::rlimit(50)]
pub proof fn lemma_square_terms_bounds(pl: Placement, mobility: Seq<int>, sq: int)
    requires
        0 <= sq < 64,
        mobility.len() == 64,
        forall|i: int| 0 <= i < 64 ==> mobility[i] >= 0,
    ensures
        -2000 <= square_terms(pl, mobility, sq).0 <= 2000,
        -2000 <= square_terms(pl, mobility, sq).1 <= 2000,
        0 <= square_terms(pl, mobility, sq).2 <= 4,
{
    match (color_at(pl, sq), piece_at(pl, sq)) {
        (Some(color), Some(piece)) => {
            lemma_piece_value_bounds(piece, color, sq);
            assert(mobility[sq] >= 0);
            lemma_mobility_bonus_bounds(piece, mobility[sq]);
            if piece == Piece::Pawn && 8 <= sq < 56 {
                lemma_pawn_terms_bounds(pl, sq, color);
            }
        },
        _ => {},
    }
}

/// The sums over the squares below `n` lie within 2000 for each square,
/// and the phase within 4 for each.
pub proof fn lemma_sums_bounds(pl: Placement, mobility: Seq<int>, n: int)
    requires
        0 <= n <= 64,
        mobility.len() == 64,
        forall|i: int| 0 <= i < 64 ==> mobility[i] >= 0,
    ensures
        -2000 * n <= mg_sum(pl, mobility, n) <= 2000 * n,
        -2000 * n <= eg_sum(pl, mobility, n) <= 2000 * n,
        0 <= phase_sum(pl, mobility, n) <= 4 * n,
    decreases n,
{
    if n > 0 {
        lemma_sums_bounds(pl, mobility, n - 1);
        lemma_square_terms_bounds(pl, mobility, n - 1);
    }
}

/// A blend of two sums lies within the bounds of the sums.
pub proof fn lemma_blend_bounds(mg: int, eg: int, phase: int)
    requires
        -MAX_STATIC_SCORE <= mg <= MAX_STATIC_SCORE,
        -MAX_STATIC_SCORE <= eg <= MAX_STATIC_SCORE,
        0 <= phase,
    ensures
        -MAX_STATIC_SCORE <= blend(mg, eg, phase) <= MAX_STATIC_SCORE,
{
    let mg_phase = if phase > 24 {
        24
    } else {
        phase
    };
    let eg_phase = 24 - mg_phase;
    assert(-128_000 * 24 <= mg * mg_phase + eg * eg_phase <= 128_000 * 24) by (nonlinear_arith)
        requires
            -128_000 <= mg <= 128_000,
            -128_000 <= eg <= 128_000,
            0 <= mg_phase <= 24,
            eg_phase == 24 - mg_phase,
    ;
}

/// The score of a placement lies within `MAX_STATIC_SCORE`.
pub proof fn lemma_score_bounds(pl: Placement, mobility: Seq<int>)
    requires
        mobility.len() == 64,
        forall|i: int| 0 <= i < 64 ==> mobility[i] >= 0,
    ensures
        -MAX_STATIC_SCORE <= score_with(pl, mobility) <= MAX_STATIC_SCORE,
{
    lemma_sums_bounds(pl, mobility, 64);
    lemma_blend_bounds(
        mg_sum(pl, mobility, 64),
        eg_sum(pl, mobility, 64),
        phase_sum(pl, mobility, 64),
    );
}

/// The score of a position lies within the mate score, and within
/// `MAX_STATIC_SCORE` where the game goes on.
pub proof fn lemma_evaluate_bounds(p: PositionData)
    ensures
        -MATE_SCORE <= evaluate_spec(p) <= MATE_SCORE,
        status_of(p) == BoardStatus::Ongoing ==> -MAX_STATIC_SCORE <= evaluate_spec(p)
            <= MAX_STATIC_SCORE,
{
    let pl = p.placement;
    let mobility = mobility_of(pl);
    assert forall|i: int| 0 <= i < 64 implies mobility[i] >= 0 by {
        match piece_at(pl, i) {
            Some(piece) => {
                let occupied = pl.white | pl.black;
                lemma_bit_count_bounds(attack_set(piece, i as u8, occupied) & !occupied, 64);
            },
            None => {},
        }
    }
    lemma_score_bounds(pl, mobility);
}

} // verus!
