use vstd::prelude::*;
use crate::bits::{bit_at, has_bit};
use crate::evaluation::mobility::{
    mobility_bonus, mobility_bonus_spec, mobility_count, piece_mobility_count,
};
use crate::evaluation::pawn::connectivity::{
    connected_bonus, connected_bonus_spec, transposed_rank,
};
use crate::evaluation::pawn::isolated::{double_isolated, double_isolated_spec};
use crate::evaluation::piece_sq_tables::{
    eg_value, eg_value_spec, game_phase_inc, game_phase_inc_spec, mg_value, mg_value_spec,
    MAX_PHASE,
};
use crate::position::{BoardStatus, Color, Piece, Placement, Position, PositionData, status_of};

verus! {

/// The score of a position in which the side to move is checkmated, seen
/// from the winner's side.
pub const MATE_SCORE: i32 = 1_000_000;

/// Scores beyond this, in either direction, stand for a forced mate.
pub const CONSIDERED_MATE: i32 = MATE_SCORE - 10_000;

/// No score of a position in which the game goes on is beyond this.
pub const MAX_STATIC_SCORE: i32 = 128_000;

/// A term of one side seen from White's: itself for White, negated for Black.
pub open spec fn signed_spec(color: Color, term: int) -> int {
    match color {
        Color::White => term,
        Color::Black => -term,
    }
}

/// The kind of the piece on a square, if one stands there.
pub open spec fn piece_at(pl: Placement, sq: int) -> Option<Piece> {
    if bit_at(pl.pawns, sq) {
        Some(Piece::Pawn)
    } else if bit_at(pl.knights, sq) {
        Some(Piece::Knight)
    } else if bit_at(pl.bishops, sq) {
        Some(Piece::Bishop)
    } else if bit_at(pl.rooks, sq) {
        Some(Piece::Rook)
    } else if bit_at(pl.queens, sq) {
        Some(Piece::Queen)
    } else if bit_at(pl.kings, sq) {
        Some(Piece::King)
    } else {
        None
    }
}

/// The side whose piece stands on a square, if one stands there.
pub open spec fn color_at(pl: Placement, sq: int) -> Option<Color> {
    if bit_at(pl.white, sq) {
        Some(Color::White)
    } else if bit_at(pl.black, sq) {
        Some(Color::Black)
    } else {
        None
    }
}

/// The squares of one side's pawns.
pub open spec fn pawns_of(pl: Placement, color: Color) -> u64 {
    pl.pawns & match color {
        Color::White => pl.white,
        Color::Black => pl.black,
    }
}

/// The other side.
pub open spec fn opponent(color: Color) -> Color {
    match color {
        Color::White => Color::Black,
        Color::Black => Color::White,
    }
}

/// Integer division that rounds toward zero.
pub open spec fn trunc_div(x: int, d: int) -> int {
    if x >= 0 {
        x / d
    } else {
        -((-x) / d)
    }
}

/// What the pawn structure adds for the pawn of `color` on `sq`, in the
/// middle game and in the end game, seen from the pawn's side: the bonus
/// for being connected, which in the end game counts only for a pawn that
/// has reached its seventh rank, less the penalty for being isolated, which
/// is higher where the file holds more than one such pawn.
pub open spec fn pawn_terms(pl: Placement, sq: int, color: Color) -> (int, int) {
    let mine = pawns_of(pl, color);
    let bonus = connected_bonus_spec(mine, pawns_of(pl, opponent(color)), sq, color);
    let advance = trunc_div(transposed_rank(sq, color) - 2, 4);
    let isolation = double_isolated_spec(mine, sq);
    if isolation >= 2 {
        (bonus - 11, bonus * advance - 56)
    } else if isolation >= 1 {
        (bonus - 5, bonus * advance - 15)
    } else {
        (bonus, bonus * advance)
    }
}

/// What one square adds to the middle-game sum, to the end-game sum and to
/// the game phase, where the piece on it has `mobility[sq]` free squares to
/// go to. An empty square adds nothing. A pawn on the first or the last
/// rank, where none can stand in a game, gets no pawn-structure term.
pub open spec fn square_terms(pl: Placement, mobility: Seq<int>, sq: int) -> (int, int, int) {
    match (color_at(pl, sq), piece_at(pl, sq)) {
        (Some(color), Some(piece)) => {
            let mob = mobility_bonus_spec(piece, mobility[sq]);
            let pawn = if piece == Piece::Pawn && 8 <= sq < 56 {
                pawn_terms(pl, sq, color)
            } else {
                (0int, 0int)
            };
            (
                mg_value_spec(piece, color, sq) + signed_spec(color, mob.0) + signed_spec(
                    color,
                    pawn.0,
                ),
                eg_value_spec(piece, color, sq) + signed_spec(color, mob.1) + signed_spec(
                    color,
                    pawn.1,
                ),
                game_phase_inc_spec(piece),
            )
        },
        _ => (0, 0, 0),
    }
}

/// The middle-game sum over the squares below `n`.
pub open spec fn mg_sum(pl: Placement, mobility: Seq<int>, n: int) -> int
    decreases n,
{
    if n <= 0 {
        0
    } else {
        mg_sum(pl, mobility, n - 1) + square_terms(pl, mobility, n - 1).0
    }
}

/// The end-game sum over the squares below `n`.
pub open spec fn eg_sum(pl: Placement, mobility: Seq<int>, n: int) -> int
    decreases n,
{
    if n <= 0 {
        0
    } else {
        eg_sum(pl, mobility, n - 1) + square_terms(pl, mobility, n - 1).1
    }
}

/// The game phase counted over the squares below `n`.
pub open spec fn phase_sum(pl: Placement, mobility: Seq<int>, n: int) -> int
    decreases n,
{
    if n <= 0 {
        0
    } else {
        phase_sum(pl, mobility, n - 1) + square_terms(pl, mobility, n - 1).2
    }
}

/// The two sums weighted by the game phase, which counts for no more than
/// `MAX_PHASE`: the middle-game sum alone at that phase, the end-game sum
/// alone at phase 0.
pub open spec fn blend(mg: int, eg: int, phase: int) -> int {
    let mg_phase = if phase > MAX_PHASE {
        MAX_PHASE as int
    } else {
        phase
    };
    trunc_div(mg * mg_phase + eg * (MAX_PHASE - mg_phase), MAX_PHASE as int)
}

/// The score of a placement whose pieces have the given mobility.
pub open spec fn score_with(pl: Placement, mobility: Seq<int>) -> int {
    blend(mg_sum(pl, mobility, 64), eg_sum(pl, mobility, 64), phase_sum(pl, mobility, 64))
}

/// The mobility of the piece on each square of a placement; 0 for an empty
/// square.
pub open spec fn mobility_of(pl: Placement) -> Seq<int> {
    Seq::new(
        64,
        |sq: int|
            match piece_at(pl, sq) {
                Some(piece) => mobility_count(piece, pl.white | pl.black, sq as u8),
                None => 0,
            },
    )
}

/// The score of a placement, positive where White is better.
pub open spec fn score_board_spec(pl: Placement) -> int {
    score_with(pl, mobility_of(pl))
}

/// The score of a position: 0 for a stalemate, the mate score against the
/// side to move for a checkmate, else the score of the placement.
pub open spec fn evaluate_spec(p: PositionData) -> int {
    match status_of(p) {
        BoardStatus::Stalemate => 0,
        BoardStatus::Checkmate => if p.white_to_move {
            -MATE_SCORE as int
        } else {
            MATE_SCORE as int
        },
        BoardStatus::Ongoing => score_board_spec(p.placement),
    }
}

/// The counts of a list of mobilities as integers.
pub open spec fn as_ints(counts: Seq<u32>) -> Seq<int> {
    Seq::new(counts.len(), |i: int| counts[i] as int)
}

/// A term seen from White's side: itself for White, negated for Black.
pub fn signed(color: &Color, term: i32) -> (r: i32)
    requires
        -MAX_STATIC_SCORE <= term <= MAX_STATIC_SCORE,
    ensures
        r == signed_spec(*color, term as int),
{
    match color {
        Color::White => term,
        Color::Black => -term,
    }
}

/// The kind of the piece on a square, if one stands there.
pub fn piece_on(pl: &Placement, sq: u8) -> (r: Option<Piece>)
    ensures
        r == piece_at(*pl, sq as int),
{
    if has_bit(pl.pawns, sq) {
        Some(Piece::Pawn)
    } else if has_bit(pl.knights, sq) {
        Some(Piece::Knight)
    } else if has_bit(pl.bishops, sq) {
        Some(Piece::Bishop)
    } else if has_bit(pl.rooks, sq) {
        Some(Piece::Rook)
    } else if has_bit(pl.queens, sq) {
        Some(Piece::Queen)
    } else if has_bit(pl.kings, sq) {
        Some(Piece::King)
    } else {
        None
    }
}

/// The side whose piece stands on a square, if one stands there.
pub fn color_on(pl: &Placement, sq: u8) -> (r: Option<Color>)
    ensures
        r == color_at(*pl, sq as int),
{
    if has_bit(pl.white, sq) {
        Some(Color::White)
    } else if has_bit(pl.black, sq) {
        Some(Color::Black)
    } else {
        None
    }
}

/// What the pawn structure adds for the pawn of `color` on `sq`.
pub fn pawn_structure(pl: &Placement, sq: u8, color: Color) -> (r: (i32, i32))
    requires
        8 <= sq < 56,
    ensures
        (r.0 as int, r.1 as int) == pawn_terms(*pl, sq as int, color),
        -100 <= r.0 <= 300,
        -100 <= r.1 <= 300,
{
    let (my_pawns, other_pawns) = match color {
        Color::White => (pl.pawns & pl.white, pl.pawns & pl.black),
        Color::Black => (pl.pawns & pl.black, pl.pawns & pl.white),
    };
    let bonus = connected_bonus(my_pawns, other_pawns, sq, color);
    let transposed_rank: i32 = match color {
        Color::White => (sq / 8) as i32,
        Color::Black => 7 - (sq / 8) as i32,
    };
    let advance = (transposed_rank - 2) / 4;
    assert(0 <= bonus * advance <= 300) by (nonlinear_arith)
        requires
            0 <= bonus <= 300,
            0 <= advance <= 1,
    ;
    let isolation = double_isolated(my_pawns, sq);
    if isolation >= 2 {
        (bonus - 11, bonus * advance - 56)
    } else if isolation >= 1 {
        (bonus - 5, bonus * advance - 15)
    } else {
        (bonus, bonus * advance)
    }
}

/// What one square adds to the two sums and to the game phase.
pub fn score_square(pl: &Placement, mobility: &Vec<u32>, sq: u8) -> (r: (i32, i32, i32))
    requires
        sq < 64,
        mobility@.len() == 64,
    ensures
        (r.0 as int, r.1 as int, r.2 as int) == square_terms(*pl, as_ints(mobility@), sq as int),
        -2000 <= r.0 <= 2000,
        -2000 <= r.1 <= 2000,
        0 <= r.2 <= 4,
{
    match (color_on(pl, sq), piece_on(pl, sq)) {
        (Some(color), Some(piece)) => {
            let mob = mobility_bonus(&piece, mobility[sq as usize]);
            let pawn = if piece == Piece::Pawn && 8 <= sq && sq < 56 {
                pawn_structure(pl, sq, color)
            } else {
                (0, 0)
            };
            (
                mg_value(&piece, color, sq) + signed(&color, mob.0) + signed(&color, pawn.0),
                eg_value(&piece, color, sq) + signed(&color, mob.1) + signed(&color, pawn.1),
                game_phase_inc(&piece),
            )
        },
        _ => (0, 0, 0),
    }
}

/// The sums weighted by the game phase.
pub fn blend_scores(mg_score: i32, eg_score: i32, game_phase: i32) -> (r: i32)
    requires
        -MAX_STATIC_SCORE <= mg_score <= MAX_STATIC_SCORE,
        -MAX_STATIC_SCORE <= eg_score <= MAX_STATIC_SCORE,
        0 <= game_phase,
    ensures
        r == blend(mg_score as int, eg_score as int, game_phase as int),
        -MAX_STATIC_SCORE <= r <= MAX_STATIC_SCORE,
{
    let mut mg_phase = game_phase;
    if mg_phase > 24 {
        mg_phase = 24
    }
    let eg_phase = 24 - mg_phase;
    assert(-128_000 * 24 <= mg_score * mg_phase + eg_score * eg_phase <= 128_000 * 24
        && -128_000 * 24 <= mg_score * mg_phase <= 128_000 * 24 && -128_000 * 24 <= eg_score
        * eg_phase <= 128_000 * 24) by (nonlinear_arith)
        requires
            -128_000 <= mg_score <= 128_000,
            -128_000 <= eg_score <= 128_000,
            0 <= mg_phase <= 24,
            eg_phase == 24 - mg_phase,
    ;
    (mg_score * mg_phase + eg_score * eg_phase) / 24
}

/// The score of a placement whose pieces have the given mobility, one count
/// for each square.
pub fn score_with_mobility(pl: &Placement, mobility: &Vec<u32>) -> (r: i32)
    requires
        mobility@.len() == 64,
    ensures
        r == score_with(*pl, as_ints(mobility@)),
        -MAX_STATIC_SCORE <= r <= MAX_STATIC_SCORE,
{
    let mut mg_score: i32 = 0;
    let mut eg_score: i32 = 0;
    let mut game_phase: i32 = 0;
    let mut i: u8 = 0;
    while i < 64
        invariant
            i <= 64,
            mobility@.len() == 64,
            mg_score == mg_sum(*pl, as_ints(mobility@), i as int),
            eg_score == eg_sum(*pl, as_ints(mobility@), i as int),
            game_phase == phase_sum(*pl, as_ints(mobility@), i as int),
            -2000 * i <= mg_score <= 2000 * i,
            -2000 * i <= eg_score <= 2000 * i,
            0 <= game_phase <= 4 * i,
        decreases 64 - i,
    {
        let (mg, eg, phase) = score_square(pl, mobility, i);
        mg_score += mg;
        eg_score += eg;
        game_phase += phase;
        i += 1;
    }
    blend_scores(mg_score, eg_score, game_phase)
}

/// The mobility of the piece on each square of a placement.
pub fn mobility_counts(pl: &Placement) -> (r: Vec<u32>)
    ensures
        r@.len() == 64,
        as_ints(r@) == mobility_of(*pl),
{
    let occupied = pl.white | pl.black;
    let mut counts: Vec<u32> = Vec::new();
    let mut i: u8 = 0;
    while i < 64
        invariant
            i <= 64,
            occupied == pl.white | pl.black,
            counts@.len() == i,
            forall|sq: int| 0 <= sq < i ==> counts@[sq] as int == mobility_of(*pl)[sq],
        decreases 64 - i,
    {
        let count = match piece_on(pl, i) {
            Some(piece) => piece_mobility_count(&piece, occupied, i),
            None => 0,
        };
        counts.push(count);
        i += 1;
    }
    assert(as_ints(counts@) =~= mobility_of(*pl));
    counts
}

/// The score of a placement, positive where White is better.
pub fn score_board(pl: &Placement) -> (r: i32)
    ensures
        r == score_board_spec(*pl),
        -MAX_STATIC_SCORE <= r <= MAX_STATIC_SCORE,
{
    let mobility = mobility_counts(pl);
    score_with_mobility(pl, &mobility)
}

/// The score of a position, positive where White is better: 0 for a
/// stalemate, the mate score against the side to move for a checkmate, and
/// else the score of the placement.
pub fn evaluate(position: &Position) -> (r: i32)
    ensures
        r == evaluate_spec(position@),
        -MATE_SCORE <= r <= MATE_SCORE,
        status_of(position@) == BoardStatus::Ongoing ==> -MAX_STATIC_SCORE <= r
            <= MAX_STATIC_SCORE,
{
    let game_status = position.status();
    if game_status == BoardStatus::Stalemate {
        return 0;
    }
    if game_status == BoardStatus::Checkmate {
        return if position.white_to_move() {
            -MATE_SCORE
        } else {
            MATE_SCORE
        };
    }
    score_board(&position.placement())
}

} // verus!
