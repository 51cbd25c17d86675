use vstd::multiset::Multiset;
use vstd::prelude::*;
use vstd::seq_lib::{
    lemma_multiset_commutative, to_multiset_build, to_multiset_contains, to_multiset_insert,
};
use crate::bits::{bit_at, has_bit};
use crate::evaluation::evaluate::{piece_at, piece_on};
use crate::position::{legal_moves_of, Move, Piece, Placement, Position, PositionData};
use crate::search::SearchData;

verus! {

/// The rank of a piece in captures: a pawn lowest, a king highest.
pub open spec fn piece_type_spec(p: Piece) -> int {
    match p {
        Piece::Pawn => 1,
        Piece::Knight => 2,
        Piece::Bishop => 3,
        Piece::Rook => 4,
        Piece::Queen => 5,
        Piece::King => 10,
    }
}

/// The rank of the piece that stands on a square; 0 for an empty square.
pub open spec fn rank_on(pl: Placement, sq: u8) -> int {
    match piece_at(pl, sq as int) {
        Some(p) => piece_type_spec(p),
        None => 0,
    }
}

/// Whether the capture `a` is tried before the capture `b`: the one with
/// the lesser attacker is, and of two with equal attackers the one that wins
/// the greater piece.
pub open spec fn tried_before(pl: Placement, a: Move, b: Move) -> bool {
    rank_on(pl, a.source) < rank_on(pl, b.source) || (rank_on(pl, a.source) == rank_on(
        pl,
        b.source,
    ) && rank_on(pl, a.dest) > rank_on(pl, b.dest))
}

/// The squares of the side that is not to move.
pub open spec fn targets(pl: Placement, white_to_move: bool) -> u64 {
    if white_to_move {
        pl.black
    } else {
        pl.white
    }
}

/// Whether a move lands on a piece of the other side.
pub open spec fn is_capture(pl: Placement, white_to_move: bool, m: Move) -> bool {
    bit_at(targets(pl, white_to_move), m.dest as int)
}

/// The captures among `moves`, in their order.
pub open spec fn captures_of(moves: Seq<Move>, pl: Placement, white_to_move: bool) -> Seq<Move>
    decreases moves.len(),
{
    if moves.len() == 0 {
        Seq::empty()
    } else {
        let before = captures_of(moves.drop_last(), pl, white_to_move);
        if is_capture(pl, white_to_move, moves.last()) {
            before.push(moves.last())
        } else {
            before
        }
    }
}

/// The moves among `moves` that capture nothing, in their order.
pub open spec fn quiets_of(moves: Seq<Move>, pl: Placement, white_to_move: bool) -> Seq<Move>
    decreases moves.len(),
{
    if moves.len() == 0 {
        Seq::empty()
    } else {
        let before = quiets_of(moves.drop_last(), pl, white_to_move);
        if is_capture(pl, white_to_move, moves.last()) {
            before
        } else {
            before.push(moves.last())
        }
    }
}

/// The place of `m` in `sorted`: before the first move that it is tried
/// before, and so behind every move that it is on a par with.
pub open spec fn place_of(sorted: Seq<Move>, m: Move, pl: Placement) -> int
    decreases sorted.len(),
{
    if sorted.len() == 0 || tried_before(pl, m, sorted[0]) {
        0
    } else {
        1 + place_of(sorted.skip(1), m, pl)
    }
}

/// The captures in the order in which they are tried; captures on a par
/// keep their order.
pub open spec fn sort_captures(moves: Seq<Move>, pl: Placement) -> Seq<Move>
    decreases moves.len(),
{
    if moves.len() == 0 {
        Seq::empty()
    } else {
        let before = sort_captures(moves.drop_last(), pl);
        before.insert(place_of(before, moves.last(), pl), moves.last())
    }
}

/// `moves` without the first occurrence of `m`.
pub open spec fn remove_first(moves: Seq<Move>, m: Move) -> Seq<Move>
    decreases moves.len(),
{
    if moves.len() == 0 {
        moves
    } else if moves.drop_last().contains(m) {
        remove_first(moves.drop_last(), m).push(moves.last())
    } else if moves.last() == m {
        moves.drop_last()
    } else {
        moves
    }
}

/// The moves without a hint: the captures as they are tried, then the rest.
pub open spec fn plain_order(moves: Seq<Move>, pl: Placement, white_to_move: bool) -> Seq<Move> {
    sort_captures(captures_of(moves, pl, white_to_move), pl) + quiets_of(
        moves,
        pl,
        white_to_move,
    )
}

/// The order in which the moves of a position are searched: the hinted
/// move first, where it is one of them; then the captures as they are
/// tried; then the other moves as they came.
pub open spec fn order_spec(
    moves: Seq<Move>,
    pl: Placement,
    white_to_move: bool,
    hint: Option<Move>,
) -> Seq<Move> {
    match hint {
        Some(first) => if moves.contains(first) {
            seq![first] + remove_first(plain_order(moves, pl, white_to_move), first)
        } else {
            plain_order(moves, pl, white_to_move)
        },
        None => plain_order(moves, pl, white_to_move),
    }
}

/// The place of a move among sorted captures lies within them.
pub proof fn lemma_place_of_in_range(sorted: Seq<Move>, m: Move, pl: Placement)
    ensures
        0 <= place_of(sorted, m, pl) <= sorted.len(),
    decreases sorted.len(),
{
    if !(sorted.len() == 0 || tried_before(pl, m, sorted[0])) {
        lemma_place_of_in_range(sorted.skip(1), m, pl);
    }
}

/// The place of a move is the first index whose move it is tried before.
pub proof fn lemma_place_of_is_first(sorted: Seq<Move>, m: Move, pl: Placement, k: int)
    requires
        0 <= k <= sorted.len(),
        forall|j: int| 0 <= j < k ==> !tried_before(pl, m, sorted[j]),
        k < sorted.len() ==> tried_before(pl, m, sorted[k]),
    ensures
        place_of(sorted, m, pl) == k,
    decreases k,
{
    if k > 0 {
        let rest = sorted.skip(1);
        assert forall|j: int| 0 <= j < k - 1 implies !tried_before(pl, m, rest[j]) by {
            assert(rest[j] == sorted[j + 1]);
        }
        lemma_place_of_is_first(rest, m, pl, k - 1);
    }
}

/// Whether no capture in the list is tried before one that stands ahead of
/// it.
pub open spec fn is_ordered(moves: Seq<Move>, pl: Placement) -> bool {
    forall|i: int, j: int| 0 <= i < j < moves.len() ==> !tried_before(pl, moves[j], moves[i])
}

/// At the place of a move no earlier move is one that the move is tried
/// before, and the move at the place is one.
pub proof fn lemma_place_of(sorted: Seq<Move>, m: Move, pl: Placement)
    ensures
        0 <= place_of(sorted, m, pl) <= sorted.len(),
        forall|j: int| 0 <= j < place_of(sorted, m, pl) ==> !tried_before(pl, m, sorted[j]),
        place_of(sorted, m, pl) < sorted.len() ==> tried_before(
            pl,
            m,
            sorted[place_of(sorted, m, pl)],
        ),
    decreases sorted.len(),
{
    if !(sorted.len() == 0 || tried_before(pl, m, sorted[0])) {
        let rest = sorted.skip(1);
        lemma_place_of(rest, m, pl);
        assert forall|j: int| 0 <= j < place_of(sorted, m, pl) implies !tried_before(
            pl,
            m,
            sorted[j],
        ) by {
            if j > 0 {
                assert(rest[j - 1] == sorted[j]);
            }
        }
        if place_of(sorted, m, pl) < sorted.len() {
            assert(rest[place_of(rest, m, pl)] == sorted[place_of(sorted, m, pl)]);
        }
    }
}

/// The sorted captures are in order: a lesser attacker comes first, and of
/// equal attackers the one that wins more.
pub proof fn lemma_sort_is_ordered(moves: Seq<Move>, pl: Placement)
    ensures
        is_ordered(sort_captures(moves, pl), pl),
    decreases moves.len(),
{
    if moves.len() > 0 {
        let before = sort_captures(moves.drop_last(), pl);
        let m = moves.last();
        let k = place_of(before, m, pl);
        let after = before.insert(k, m);
        lemma_sort_is_ordered(moves.drop_last(), pl);
        lemma_place_of(before, m, pl);
        assert forall|i: int, j: int| 0 <= i < j < after.len() implies !tried_before(
            pl,
            after[j],
            after[i],
        ) by {
            if j < k {
                assert(after[i] == before[i] && after[j] == before[j]);
            } else if j == k {
                assert(after[i] == before[i]);
            } else if i < k {
                assert(after[i] == before[i] && after[j] == before[j - 1]);
            } else if i == k {
                assert(after[j] == before[j - 1]);
                assert(tried_before(pl, m, before[k]));
                if j - 1 > k {
                    assert(!tried_before(pl, before[j - 1], before[k]));
                }
            } else {
                assert(after[i] == before[i - 1] && after[j] == before[j - 1]);
            }
        }
    }
}

/// Sorting keeps every capture, each as often as it came.
pub proof fn lemma_sort_keeps_moves(moves: Seq<Move>, pl: Placement)
    ensures
        sort_captures(moves, pl).to_multiset() == moves.to_multiset(),
        sort_captures(moves, pl).len() == moves.len(),
    decreases moves.len(),
{
    if moves.len() == 0 {
        assert(sort_captures(moves, pl) =~= moves);
    } else {
        let before = sort_captures(moves.drop_last(), pl);
        lemma_sort_keeps_moves(moves.drop_last(), pl);
        lemma_place_of_in_range(before, moves.last(), pl);
        to_multiset_insert(before, place_of(before, moves.last(), pl), moves.last());
        to_multiset_build(moves.drop_last(), moves.last());
        assert(moves.drop_last().push(moves.last()) =~= moves);
    }
}

/// An empty list holds no move.
pub proof fn lemma_no_moves(moves: Seq<Move>)
    requires
        moves.len() == 0,
    ensures
        moves.to_multiset() == Multiset::<Move>::empty(),
{
    assert forall|m: Move| moves.to_multiset().count(m) == 0 by {
        to_multiset_contains(moves, m);
    }
    assert(moves.to_multiset() =~= Multiset::<Move>::empty());
}

/// Every move is either among the captures or among the rest, as often as
/// it came.
pub proof fn lemma_split_keeps_moves(moves: Seq<Move>, pl: Placement, white_to_move: bool)
    ensures
        captures_of(moves, pl, white_to_move).to_multiset().add(
            quiets_of(moves, pl, white_to_move).to_multiset(),
        ) == moves.to_multiset(),
    decreases moves.len(),
{
    let c = captures_of(moves, pl, white_to_move);
    let q = quiets_of(moves, pl, white_to_move);
    if moves.len() == 0 {
        lemma_no_moves(c);
        lemma_no_moves(q);
        lemma_no_moves(moves);
        assert(c.to_multiset().add(q.to_multiset()) =~= moves.to_multiset());
    } else {
        let front = moves.drop_last();
        lemma_split_keeps_moves(front, pl, white_to_move);
        to_multiset_build(front, moves.last());
        to_multiset_build(captures_of(front, pl, white_to_move), moves.last());
        to_multiset_build(quiets_of(front, pl, white_to_move), moves.last());
        assert(front.push(moves.last()) =~= moves);
        let cf = captures_of(front, pl, white_to_move).to_multiset();
        let qf = quiets_of(front, pl, white_to_move).to_multiset();
        assert(moves.to_multiset() =~= cf.add(qf).insert(moves.last()));
        if is_capture(pl, white_to_move, moves.last()) {
            assert(cf.insert(moves.last()).add(qf) =~= cf.add(qf).insert(moves.last()));
        } else {
            assert(cf.add(qf.insert(moves.last())) =~= cf.add(qf).insert(moves.last()));
        }
    }
}

/// Taking out the first occurrence of a move that occurs takes out one.
pub proof fn lemma_remove_first(moves: Seq<Move>, m: Move)
    requires
        moves.contains(m),
    ensures
        remove_first(moves, m).to_multiset().insert(m) == moves.to_multiset(),
        remove_first(moves, m).len() + 1 == moves.len(),
    decreases moves.len(),
{
    let front = moves.drop_last();
    assert(front.push(moves.last()) =~= moves);
    to_multiset_build(front, moves.last());
    if front.contains(m) {
        lemma_remove_first(front, m);
        to_multiset_build(remove_first(front, m), moves.last());
        assert(remove_first(moves, m).to_multiset().insert(m) =~= moves.to_multiset());
    } else {
        let i = choose|i: int| 0 <= i < moves.len() && moves[i] == m;
        if i < moves.len() - 1 {
            assert(front[i] == m);
        }
        assert(moves.last() == m);
    }
}

/// The order without a hint holds every move as often as it came.
pub proof fn lemma_plain_order_keeps_moves(moves: Seq<Move>, pl: Placement, white_to_move: bool)
    ensures
        plain_order(moves, pl, white_to_move).to_multiset() == moves.to_multiset(),
{
    let c = captures_of(moves, pl, white_to_move);
    let q = quiets_of(moves, pl, white_to_move);
    lemma_sort_keeps_moves(c, pl);
    lemma_split_keeps_moves(moves, pl, white_to_move);
    lemma_multiset_commutative(sort_captures(c, pl), q);
}

/// The order in which moves are searched is a rearrangement of the moves:
/// no move is added, dropped or doubled.
pub proof fn lemma_order_is_permutation(
    moves: Seq<Move>,
    pl: Placement,
    white_to_move: bool,
    hint: Option<Move>,
)
    ensures
        order_spec(moves, pl, white_to_move, hint).to_multiset() == moves.to_multiset(),
{
    let plain = plain_order(moves, pl, white_to_move);
    lemma_plain_order_keeps_moves(moves, pl, white_to_move);
    if let Some(first) = hint {
        if moves.contains(first) {
            to_multiset_contains(moves, first);
            to_multiset_contains(plain, first);
            assert(plain.contains(first));
            lemma_remove_first(plain, first);
            let rest = remove_first(plain, first);
            lemma_multiset_commutative(seq![first], rest);
            assert(seq![first].to_multiset() =~= Multiset::<Move>::empty().insert(first)) by {
                to_multiset_build(Seq::<Move>::empty(), first);
                assert(Seq::<Move>::empty().push(first) =~= seq![first]);
                lemma_no_moves(Seq::<Move>::empty());
            }
            assert(order_spec(moves, pl, white_to_move, hint).to_multiset() =~= moves.to_multiset());
        }
    }
}

/// The rank of a piece in captures.
pub fn piece_type(p: &Piece) -> (r: u8)
    ensures
        r == piece_type_spec(*p),
{
    match p {
        Piece::Pawn => 1,
        Piece::Knight => 2,
        Piece::Bishop => 3,
        Piece::Rook => 4,
        Piece::Queen => 5,
        Piece::King => 10,
    }
}

/// The rank of the piece that stands on a square; 0 for an empty square.
pub fn piece_rank_on(pl: &Placement, sq: u8) -> (r: u8)
    ensures
        r == rank_on(*pl, sq),
{
    match piece_on(pl, sq) {
        Some(p) => piece_type(&p),
        None => 0,
    }
}

/// Whether the capture `a` is tried before the capture `b`.
pub fn is_tried_before(pl: &Placement, a: &Move, b: &Move) -> (r: bool)
    ensures
        r == tried_before(*pl, *a, *b),
{
    let a_type = piece_rank_on(pl, a.source);
    let b_type = piece_rank_on(pl, b.source);
    if a_type < b_type {
        return true;
    } else if a_type > b_type {
        return false;
    }
    piece_rank_on(pl, a.dest) > piece_rank_on(pl, b.dest)
}

/// The captures among the moves, in the order in which they are tried.
pub fn sorted_captures(moves: &Vec<Move>, pl: &Placement, white_to_move: bool) -> (r: Vec<Move>)
    ensures
        r@ == sort_captures(captures_of(moves@, *pl, white_to_move), *pl),
{
    let their_squares = if white_to_move {
        pl.black
    } else {
        pl.white
    };
    let mut sorted: Vec<Move> = Vec::new();
    let mut i: usize = 0;
    while i < moves.len()
        invariant
            i <= moves@.len(),
            their_squares == targets(*pl, white_to_move),
            sorted@ == sort_captures(captures_of(moves@.take(i as int), *pl, white_to_move), *pl),
        decreases moves@.len() - i,
    {
        let m = moves[i];
        proof {
            assert(moves@.take(i + 1).drop_last() =~= moves@.take(i as int));
            lemma_sort_keeps_moves(captures_of(moves@.take(i as int), *pl, white_to_move), *pl);
        }
        if has_bit(their_squares, m.dest) {
            let ghost before = sorted@;
            let mut k: usize = 0;
            while k < sorted.len() && !is_tried_before(pl, &m, &sorted[k])
                invariant
                    k <= sorted@.len(),
                    sorted@ == before,
                    forall|j: int| 0 <= j < k ==> !tried_before(*pl, m, sorted@[j]),
                decreases sorted@.len() - k,
            {
                k += 1;
            }
            proof {
                lemma_place_of_is_first(before, m, *pl, k as int);
                let caps = captures_of(moves@.take(i as int), *pl, white_to_move);
                assert(caps.push(m).drop_last() =~= caps);
            }
            sorted.insert(k, m);
        }
        i += 1;
    }
    assert(moves@.take(moves@.len() as int) =~= moves@);
    sorted
}

/// The moves among `moves` that capture nothing, in their order.
pub fn quiet_moves(moves: &Vec<Move>, pl: &Placement, white_to_move: bool) -> (r: Vec<Move>)
    ensures
        r@ == quiets_of(moves@, *pl, white_to_move),
{
    let their_squares = if white_to_move {
        pl.black
    } else {
        pl.white
    };
    let mut quiets: Vec<Move> = Vec::new();
    let mut i: usize = 0;
    while i < moves.len()
        invariant
            i <= moves@.len(),
            their_squares == targets(*pl, white_to_move),
            quiets@ == quiets_of(moves@.take(i as int), *pl, white_to_move),
        decreases moves@.len() - i,
    {
        proof {
            assert(moves@.take(i + 1).drop_last() =~= moves@.take(i as int));
        }
        if !has_bit(their_squares, moves[i].dest) {
            quiets.push(moves[i]);
        }
        i += 1;
    }
    assert(moves@.take(moves@.len() as int) =~= moves@);
    quiets
}

/// Whether `m` is one of `moves`.
pub fn contains_move(moves: &Vec<Move>, m: &Move) -> (r: bool)
    ensures
        r == moves@.contains(*m),
{
    let mut i: usize = 0;
    while i < moves.len()
        invariant
            i <= moves@.len(),
            forall|j: int| 0 <= j < i ==> moves@[j] != *m,
        decreases moves@.len() - i,
    {
        if moves[i] == *m {
            return true;
        }
        i += 1;
    }
    false
}

/// Appends `from` to `to`, leaving out the first occurrence of `skip` where
/// `skipped` says that it has not been left out yet.
fn append_without(to: &mut Vec<Move>, from: &Vec<Move>, skip: Move, skipped: &mut bool)
    ensures
        final(to)@ == old(to)@ + if *old(skipped) {
            from@
        } else {
            remove_first(from@, skip)
        },
        *final(skipped) == (*old(skipped) || from@.contains(skip)),
{
    let mut i: usize = 0;
    proof {
        assert(from@.take(0) =~= Seq::<Move>::empty());
        assert(old(to)@ + Seq::<Move>::empty() =~= old(to)@);
    }
    while i < from.len()
        invariant
            i <= from@.len(),
            to@ == old(to)@ + if *old(skipped) {
                from@.take(i as int)
            } else {
                remove_first(from@.take(i as int), skip)
            },
            *skipped == (*old(skipped) || from@.take(i as int).contains(skip)),
        decreases from@.len() - i,
    {
        let ghost front = from@.take(i as int);
        let ghost next = from@.take(i + 1);
        proof {
            assert(next.drop_last() =~= front);
            assert(next.last() == from@[i as int]);
            assert(next =~= front.push(from@[i as int]));
            if front.contains(skip) {
                let w = choose|w: int| 0 <= w < front.len() && front[w] == skip;
                assert(next[w] == skip);
            }
            if next.contains(skip) && !front.contains(skip) {
                let w = choose|w: int| 0 <= w < next.len() && next[w] == skip;
                if w < i {
                    assert(front[w] == skip);
                }
            }
        }
        if !*skipped && from[i] == skip {
            *skipped = true;
        } else {
            let ghost before = to@;
            to.push(from[i]);
            proof {
                if *old(skipped) {
                    assert(to@ =~= old(to)@ + next);
                } else {
                    assert(to@ =~= old(to)@ + remove_first(next, skip));
                }
            }
        }
        i += 1;
    }
    assert(from@.take(from@.len() as int) =~= from@);
}

/// The moves in the order in which they are searched: the hinted move
/// first, where it is one of them; then the captures as they are tried;
/// then the other moves as they came. No move is added, dropped or doubled.
pub fn order_moves(moves: &Vec<Move>, pl: &Placement, white_to_move: bool, hint: Option<Move>)
    -> (r: Vec<Move>)
    ensures
        r@ == order_spec(moves@, *pl, white_to_move, hint),
        r@.to_multiset() == moves@.to_multiset(),
        r@.len() == moves@.len(),
{
    let captures = sorted_captures(moves, pl, white_to_move);
    let quiets = quiet_moves(moves, pl, white_to_move);
    let mut ordered: Vec<Move> = Vec::new();
    let mut skipped = true;
    let mut skip = Move { source: 0, dest: 0, promotion: None };
    if let Some(first) = hint {
        if contains_move(moves, &first) {
            ordered.push(first);
            skipped = false;
            skip = first;
        }
    }
    let ghost start = ordered@;
    append_without(&mut ordered, &captures, skip, &mut skipped);
    let ghost captures_skipped = skipped;
    append_without(&mut ordered, &quiets, skip, &mut skipped);
    proof {
        lemma_order_is_permutation(moves@, *pl, white_to_move, hint);
        let plain = plain_order(moves@, *pl, white_to_move);
        if start.len() == 0 {
            assert(ordered@ =~= plain);
        } else {
            lemma_remove_first_of_parts(captures@, quiets@, skip);
            assert(ordered@ =~= seq![skip] + remove_first(plain, skip));
        }
        ordered@.to_multiset_ensures();
        moves@.to_multiset_ensures();
    }
    ordered
}

/// Taking the first occurrence of a move out of two lists in a row: out of
/// the first where it occurs there, else out of the second.
pub proof fn lemma_remove_first_of_parts(a: Seq<Move>, b: Seq<Move>, m: Move)
    ensures
        remove_first(a + b, m) == if a.contains(m) {
            remove_first(a, m) + b
        } else {
            a + remove_first(b, m)
        },
    decreases b.len(),
{
    if b.len() == 0 {
        assert(a + b =~= a);
        assert(remove_first(a, m) + b =~= remove_first(a, m));
        assert(remove_first(b, m) =~= b);
    } else {
        let front = b.drop_last();
        lemma_remove_first_of_parts(a, front, m);
        assert((a + b).drop_last() =~= a + front);
        assert((a + b).last() == b.last());
        if (a + front).contains(m) {
            let w = choose|w: int| 0 <= w < (a + front).len() && (a + front)[w] == m;
            if w < a.len() {
                assert(a[w] == m);
            } else {
                assert(front[w - a.len()] == m);
            }
        }
        if a.contains(m) {
            let w = choose|w: int| 0 <= w < a.len() && a[w] == m;
            assert((a + front)[w] == m);
            assert(remove_first(a + b, m) =~= remove_first(a, m) + b);
        } else if front.contains(m) {
            let w = choose|w: int| 0 <= w < front.len() && front[w] == m;
            assert((a + front)[w + a.len()] == m);
            assert(remove_first(a + b, m) =~= a + remove_first(b, m));
        } else {
            assert(!(a + front).contains(m));
            assert(remove_first(a + b, m) =~= a + remove_first(b, m));
        }
    }
}

/// The moves of a position in the order in which they are searched, the
/// best move recorded for the position first. The result holds exactly the
/// legal moves, each once for each time the generator gave it.
pub fn get_move_order(position: &Position, search_data: &SearchData) -> (r: Vec<Move>)
    ensures
        r@ == order_spec(
            legal_moves_of(position@),
            position@.placement,
            position@.white_to_move,
            if search_data.hints().dom().contains(position@.hash) {
                Some(search_data.hints()[position@.hash])
            } else {
                None
            },
        ),
        r@.to_multiset() == legal_moves_of(position@).to_multiset(),
        r@.len() == legal_moves_of(position@).len(),
{
    let moves = position.legal_moves();
    let hint = search_data.best_move(position.hash());
    order_moves(&moves, &position.placement(), position.white_to_move(), hint)
}

/// The captures of a position in the order in which they are tried.
pub fn get_move_order_captures(position: &Position) -> (r: Vec<Move>)
    ensures
        r@ == capture_order(position@),
{
    let moves = position.legal_moves();
    sorted_captures(&moves, &position.placement(), position.white_to_move())
}

/// The captures of a position in the order in which they are tried.
pub open spec fn capture_order(p: PositionData) -> Seq<Move> {
    sort_captures(captures_of(legal_moves_of(p), p.placement, p.white_to_move), p.placement)
}

} // verus!
