use engine::position::{BoardStatus, Move, Piece, Position};
use engine::search::alpha_beta::{
    alpha_beta_max, alpha_beta_min, alpha_beta_search, consider_short_mate,
    get_or_calculate_max, get_or_calculate_min,
    register_score, search_root_move, starting_window, AspirationWindow,
    MAX_WINDOW_SIZE,
};
use engine::search::iterative_deepening::{after_depth, iterative_deepening};
use engine::search::move_order::{
    contains_move, get_move_order, get_move_order_captures, is_tried_before, order_moves,
    piece_type, quiet_moves, sorted_captures,
};
use engine::search::quiesce_search::{count_pieces, quiesce_search_max, quiesce_search_min};
use engine::search::{NodeType, SearchData, StopSignals};
use engine::evaluation::{evaluate, MATE_SCORE};
use engine::transposition_table::entry::Entry;
use engine::transposition_table::table::TranspositionTable;

fn small_data() -> SearchData {
    SearchData::with_table(TranspositionTable::with_buckets(4096))
}

fn mv(text: &str) -> Move {
    Move::from_text(text).unwrap()
}

#[test]
fn test_move_order() {
    let board =
        Position::from_fen("rnbqkbnr/1p2p1pp/p4p2/8/3P4/4p1P1/PPP4P/RNBQKBNR b KQkq - 0 4").unwrap();

    let all_moves: Vec<Move> = board.legal_moves();

    let moves_in_order: Vec<Move> = get_move_order(&board, &SearchData::new());

    // Check if both arrays are the same
    assert_eq!(all_moves.len(), moves_in_order.len());

    for joice in &all_moves {
        assert!(moves_in_order.contains(joice));
    }
}

#[test]
fn test_right_move_order() {
    let board =
        Position::from_fen("rnbqkbnr/1p2p1pp/p4p2/8/3P4/4p1P1/PPP4P/RNBQKBNR b KQkq - 0 4").unwrap();

    let all_moves: Vec<Move> = board.legal_moves();

    let mut search_data = SearchData::new();
    search_data.set_best_move(board.hash(), *all_moves.last().unwrap());

    let moves_in_order: Vec<Move> = get_move_order(&board, &search_data);

    // Check if both arrays are the same
    assert_eq!(all_moves.len(), moves_in_order.len());

    for joice in &all_moves {
        assert!(moves_in_order.contains(joice));
    }

    // check if best move first approach works
    assert_eq!(all_moves.last(), moves_in_order.first())
}

#[test]
fn order_is_a_permutation_of_the_legal_moves() {
    let fens = [
        "rnbqkbnr/pppppppp/8/8/8/8/PPPPPPPP/RNBQKBNR w KQkq - 0 1",
        "3q1rk1/5ppp/2n2n2/p1pNb3/3pP3/3P3N/PPbB2PP/R3KB1R b KQ - 1 16",
        "r3k2r/p1ppqpb1/bn2pnp1/3PN3/1p2P3/2N2Q1p/PPPBBPPP/R3K2R w KQkq - 0 1",
    ];
    for fen in fens {
        let board = Position::from_fen(fen).unwrap();
        let legal = board.legal_moves();
        for hint in legal.iter().copied().map(Some).chain([None, Some(Move { source: 0, dest: 63, promotion: None })]) {
            let mut data = small_data();
            if let Some(h) = hint {
                data.set_best_move(board.hash(), h);
            }
            let ordered = get_move_order(&board, &data);
            let mut a: Vec<(u8, u8, Option<usize>)> =
                legal.iter().map(|m| (m.source, m.dest, m.promotion.map(|p| p.index()))).collect();
            let mut b: Vec<(u8, u8, Option<usize>)> =
                ordered.iter().map(|m| (m.source, m.dest, m.promotion.map(|p| p.index()))).collect();
            a.sort();
            b.sort();
            assert_eq!(a, b);
            if let Some(h) = hint {
                if legal.contains(&h) {
                    assert_eq!(ordered[0], h);
                }
            }
        }
    }
}

#[test]
fn captures_come_first_lesser_attacker_and_greater_victim_ahead() {
    // white: pawn e4, knight c3, queen d1; black: pawn d5, rook b5
    let board = Position::from_fen("4k3/8/8/1r1p4/4P3/2N5/8/3QK3 w - - 0 1").unwrap();
    let pl = board.placement();
    let captures = get_move_order_captures(&board);
    assert_eq!(
        captures,
        vec![mv("e4d5"), mv("c3b5"), mv("c3d5"), mv("d1d5")]
    );
    let all = get_move_order(&board, &small_data());
    assert_eq!(&all[..4], &captures[..]);
    assert_eq!(all.len(), board.legal_moves().len());
    let legal = board.legal_moves();
    assert_eq!(sorted_captures(&legal, &pl, true), captures);
    let quiets = quiet_moves(&legal, &pl, true);
    assert_eq!(quiets.len() + captures.len(), legal.len());
    assert_eq!(&all[4..], &quiets[..]);
    assert!(is_tried_before(&pl, &mv("e4d5"), &mv("c3d5")));
    assert!(is_tried_before(&pl, &mv("c3b5"), &mv("c3d5")));
    assert!(!is_tried_before(&pl, &mv("c3d5"), &mv("c3b5")));
    assert!(!is_tried_before(&pl, &mv("d1d5"), &mv("c3d5")));
    assert!(contains_move(&legal, &mv("e4d5")));
    assert!(!contains_move(&legal, &mv("e4e6")));
    // with a capture as the hint
    let ordered = order_moves(&legal, &pl, true, Some(mv("c3d5")));
    assert_eq!(&ordered[..4], &[mv("c3d5"), mv("e4d5"), mv("c3b5"), mv("d1d5")]);
    assert_eq!(ordered.len(), legal.len());
}

#[test]
fn piece_types_rank_the_pieces() {
    assert_eq!(piece_type(&Piece::Pawn), 1);
    assert_eq!(piece_type(&Piece::Knight), 2);
    assert_eq!(piece_type(&Piece::Bishop), 3);
    assert_eq!(piece_type(&Piece::Rook), 4);
    assert_eq!(piece_type(&Piece::Queen), 5);
    assert_eq!(piece_type(&Piece::King), 10);
}

#[test]
fn quiescence_of_a_quiet_position_is_the_static_score() {
    let board = Position::initial();
    let score = evaluate(&board);
    assert_eq!(quiesce_search_max(board, -MAX_WINDOW_SIZE, MAX_WINDOW_SIZE), (score, NodeType::PV));
    assert_eq!(quiesce_search_min(board, -MAX_WINDOW_SIZE, MAX_WINDOW_SIZE), (score, NodeType::PV));
    assert_eq!(quiesce_search_max(board, -500, score), (score, NodeType::CUT));
    assert_eq!(quiesce_search_max(board, -500, score - 10), (score - 10, NodeType::CUT));
    assert_eq!(quiesce_search_min(board, score, 500), (score, NodeType::CUT));
    assert_eq!(quiesce_search_min(board, score + 10, 500), (score + 10, NodeType::CUT));
}

#[test]
fn quiescence_wins_a_hanging_queen() {
    // white to move takes the queen on d5 with the pawn
    let board = Position::from_fen("4k3/8/8/3q4/4P3/8/8/4K3 w - - 0 1").unwrap();
    let stand_pat = evaluate(&board);
    let after = board.make_move(mv("e4d5"));
    let (score, node_type) = quiesce_search_max(board, -MAX_WINDOW_SIZE, MAX_WINDOW_SIZE);
    assert_eq!(node_type, NodeType::PV);
    assert_eq!(score, evaluate(&after));
    assert!(score > stand_pat);
    assert_eq!(count_pieces(&board.placement()), 4);
    assert_eq!(count_pieces(&after.placement()), 3);
    // a window below the score cuts off at its upper end
    assert_eq!(quiesce_search_max(board, stand_pat, stand_pat + 1), (stand_pat + 1, NodeType::CUT));
    let after_score = evaluate(&after);
    assert_eq!(
        quiesce_search_min(after, after_score - 1, after_score + 500),
        (after_score, NodeType::PV)
    );
}

fn full_quiescence(board: Position, maximize: bool) -> i32 {
    let mut best = evaluate(&board);
    for m in get_move_order_captures(&board) {
        let reply = full_quiescence(board.make_move(m), !maximize);
        if maximize {
            best = best.max(reply);
        } else {
            best = best.min(reply);
        }
    }
    best
}

#[test]
fn quiescence_agrees_with_the_unpruned_search() {
    let fens = [
        "4k3/8/8/1r1p4/4P3/2N5/8/3QK3 w - - 0 1",
        "4k3/8/8/1r1p4/4P3/2N5/8/3QK3 b - - 0 1",
        "r1bqkbnr/pppp1ppp/2n5/4p3/3PP3/5N2/PPP2PPP/RNBQKB1R b KQkq - 0 3",
        "rnbqkbnr/1p2p1pp/p4p2/8/3P4/4p1P1/PPP4P/RNBQKBNR b KQkq - 0 4",
    ];
    for fen in fens {
        let board = Position::from_fen(fen).unwrap();
        let white = board.white_to_move();
        let full = full_quiescence(board, white);
        let found = if white {
            quiesce_search_max(board, -MAX_WINDOW_SIZE, MAX_WINDOW_SIZE)
        } else {
            quiesce_search_min(board, -MAX_WINDOW_SIZE, MAX_WINDOW_SIZE)
        };
        assert_eq!(found.0, full);
        // a window that leaves the value out gives a bound on that side
        let below = if white {
            quiesce_search_max(board, full + 5, full + 50)
        } else {
            quiesce_search_min(board, full + 5, full + 50)
        };
        assert!(below.0 <= full + 5);
        let above = if white {
            quiesce_search_max(board, full - 50, full - 5)
        } else {
            quiesce_search_min(board, full - 50, full - 5)
        };
        assert!(above.0 >= full - 5);
    }
}

#[test]
fn short_mates_score_better() {
    assert_eq!(consider_short_mate(MATE_SCORE), MATE_SCORE - 1);
    assert_eq!(consider_short_mate(MATE_SCORE - 1), MATE_SCORE - 2);
    assert_eq!(consider_short_mate(-MATE_SCORE), -MATE_SCORE + 1);
    assert_eq!(consider_short_mate(MATE_SCORE - 10_000), MATE_SCORE - 10_000);
    assert_eq!(consider_short_mate(MATE_SCORE - 9_999), MATE_SCORE - 10_000);
    assert_eq!(consider_short_mate(-(MATE_SCORE - 10_000)), -(MATE_SCORE - 10_000));
    assert_eq!(consider_short_mate(500), 500);
    assert_eq!(consider_short_mate(0), 0);
}

#[test]
fn mate_in_one_beats_mate_in_three() {
    let signals = StopSignals::new();
    // mate in one: Ra6-a8
    let near = Position::from_fen("7k/1R6/R7/8/8/8/8/K7 w - - 0 1").unwrap();
    // the rooks one rank further back: mate in two moves of White
    let far = Position::from_fen("7k/8/1R6/R7/8/8/8/K7 w - - 0 1").unwrap();
    let mut data = small_data();
    let (_, near_score, _) = alpha_beta_search(&near, 3, &mut data, &signals);
    let mut data = small_data();
    let (_, far_score, _) = alpha_beta_search(&far, 3, &mut data, &signals);
    assert!(near_score > MATE_SCORE - 1_000);
    assert!(far_score > MATE_SCORE - 1_000);
    assert!(near_score > far_score);
}

#[test]
fn aspiration_window_widens_step_by_step() {
    let mut w = AspirationWindow::new(100);
    assert_eq!((w.source, w.left, w.right), (100, 25, 25));
    assert_eq!((w.alpha(), w.beta()), (75, 125));
    assert!(w.enlarge_and_check_bound(76));
    assert!(w.enlarge_and_check_bound(124));
    assert_eq!((w.left, w.right), (25, 25));
    assert!(!w.enlarge_and_check_bound(75));
    assert_eq!((w.left, w.right), (50, 25));
    assert!(!w.enlarge_and_check_bound(125));
    assert_eq!((w.left, w.right), (50, 50));
    assert!(!w.enlarge_and_check_bound(0));
    assert_eq!((w.left, w.right), (100, 50));
    assert!(!w.enlarge_and_check_bound(0));
    assert_eq!((w.left, w.right), (MAX_WINDOW_SIZE, 50));
    assert!(w.enlarge_and_check_bound(0));
    assert_eq!(AspirationWindow::next(25), 50);
    assert_eq!(AspirationWindow::next(50), 100);
    assert_eq!(AspirationWindow::next(100), 2 * MATE_SCORE + 10);
    let inf = AspirationWindow::new_inf();
    assert_eq!((inf.source, inf.left, inf.right), (0, 2_000_010, 2_000_010));
    assert_eq!((inf.alpha(), inf.beta()), (-2_000_010, 2_000_010));
}

#[test]
fn widest_window_accepts_what_falls_out() {
    let mut w = AspirationWindow::new_inf();
    assert!(!w.widen_or_accept(-2_000_010));
    assert!(!w.widen_or_accept(2_000_010));
    assert!(!w.widen_or_accept(17));
    assert_eq!(w, AspirationWindow::new_inf());
    let mut w = AspirationWindow::new(0);
    assert!(w.widen_or_accept(25));
    assert_eq!((w.left, w.right), (25, 50));
    assert!(w.widen_or_accept(-30));
    assert_eq!((w.left, w.right), (50, 50));
    assert!(!w.widen_or_accept(-30));
}

#[test]
fn starting_window_follows_the_previous_score() {
    let mut data = small_data();
    assert_eq!(starting_window(&data, 7), AspirationWindow::new_inf());
    data.set_previous_score(7, 40);
    assert_eq!(starting_window(&data, 7), AspirationWindow::new(40));
    assert_eq!(data.previous_score(7), Some(40));
    data.set_previous_score(7, 2_000_000);
    assert_eq!(starting_window(&data, 7), AspirationWindow::new_inf());
    data.clear_previous_scores();
    assert_eq!(data.previous_score(7), None);
}

#[test]
fn best_move_register_keeps_the_first_of_equals() {
    let a = mv("e2e4");
    let b = mv("d2d4");
    assert_eq!(register_score((None, i32::MIN), a, -5, true), (Some(a), -5));
    assert_eq!(register_score((None, i32::MAX), a, 5, false), (Some(a), 5));
    assert_eq!(register_score((Some(a), 10), b, 10, true), (Some(a), 10));
    assert_eq!(register_score((Some(a), 10), b, 11, true), (Some(b), 11));
    assert_eq!(register_score((Some(a), 10), b, 9, true), (Some(a), 10));
    assert_eq!(register_score((Some(a), 10), b, 10, false), (Some(a), 10));
    assert_eq!(register_score((Some(a), 10), b, 9, false), (Some(b), 9));
}

#[test]
fn root_search_finds_the_mate() {
    let board = Position::from_fen("7k/1R6/R7/8/8/8/8/K7 w - - 0 1").unwrap();
    let signals = StopSignals::new();
    for depth in 1..4u8 {
        let mut data = small_data();
        let (best, score, complete) = alpha_beta_search(&board, depth, &mut data, &signals);
        assert!(complete);
        assert_eq!(best, Some(mv("a6a8")));
        assert_eq!(score, MATE_SCORE);
    }
}

#[test]
fn black_seeks_the_lowest_score() {
    let board = Position::from_fen("k7/8/8/8/8/r7/1r6/7K b - - 0 1").unwrap();
    let signals = StopSignals::new();
    let mut data = small_data();
    let (best, score, complete) = alpha_beta_search(&board, 2, &mut data, &signals);
    assert!(complete);
    assert_eq!(score, -MATE_SCORE);
    let after = board.make_move(best.unwrap());
    assert_eq!(after.status(), BoardStatus::Checkmate);
}

#[test]
fn a_single_legal_move_is_played_unsearched() {
    // the king in the corner can only take the rook
    let board = Position::from_fen("k7/8/8/8/8/8/6PP/6rK w - - 0 1").unwrap();
    assert_eq!(board.legal_moves().len(), 1);
    let signals = StopSignals::new();
    let mut data = small_data();
    data.set_best_move(1, mv("e2e4"));
    let found = alpha_beta_search(&board, 4, &mut data, &signals);
    assert_eq!(found, (Some(board.legal_moves()[0]), 0, true));
    assert_eq!(data.best_move(1), None);
}

fn minimax(board: Position, depth: u8, maximize: bool) -> i32 {
    if depth == 0 || board.status() != BoardStatus::Ongoing {
        return full_quiescence(board, maximize);
    }
    let mut best = if maximize { i32::MIN } else { i32::MAX };
    for m in board.legal_moves() {
        let reply = minimax(board.make_move(m), depth - 1, !maximize);
        best = if maximize { best.max(reply) } else { best.min(reply) };
    }
    best
}

#[test]
fn shallow_search_agrees_with_full_minimax() {
    let fens = [
        "4k3/8/8/3q4/4P3/8/8/4K3 w - - 0 1",
        "8/5k2/8/3P4/2P5/8/8/4K3 b - - 0 1",
        "8/5k2/8/3P4/2P5/8/8/4K3 w - - 0 1",
    ];
    let signals = StopSignals::new();
    for fen in fens {
        let board = Position::from_fen(fen).unwrap();
        let white = board.white_to_move();
        for depth in 1..3u8 {
            let mut data = small_data();
            let (best, score, complete) = alpha_beta_search(&board, depth, &mut data, &signals);
            assert!(complete);
            let full = minimax(board, depth, white);
            assert_eq!(score, full);
            let after = board.make_move(best.unwrap());
            assert_eq!(minimax(after, depth - 1, !white), full);
        }
    }
}

#[test]
fn repeated_positions_are_avoided() {
    let board = Position::from_fen("7k/1R6/R7/8/8/8/8/K7 w - - 0 1").unwrap();
    let mate = board.make_move(mv("a6a8"));
    let signals = StopSignals::new();
    let mut data = small_data();
    assert!(!data.position_visited_twice(&mate));
    data.visit_position(&mate);
    assert!(!data.position_visited_twice(&mate));
    data.visit_position(&mate);
    assert!(data.position_visited_twice(&mate));
    assert!(data.hash_visited_twice(mate.hash()));
    let (best, score, complete) = alpha_beta_search(&board, 2, &mut data, &signals);
    assert!(complete);
    assert!(best.is_some());
    assert_ne!(best, Some(mv("a6a8")));
    assert!(score < MATE_SCORE);
    assert!(!data.position_visited_twice(&board.make_move(best.unwrap())));
}

#[test]
fn a_stopped_search_gives_nothing() {
    let board = Position::initial();
    let signals = StopSignals::new();
    signals.publish_depth(2);
    signals.time_is_up();
    assert!(signals.hard_stop());
    assert!(signals.soft_stop());
    let mut data = small_data();
    assert_eq!(alpha_beta_max(board, -1000, 1000, 3, &mut data, &signals), None);
    assert_eq!(alpha_beta_min(board, -1000, 1000, 3, &mut data, &signals), None);
    assert_eq!(get_or_calculate_min(board, -1000, 1000, 3, &mut data, &signals), None);
    assert_eq!(
        search_root_move(board, AspirationWindow::new_inf(), 3, true, &mut data, &signals),
        None
    );
    assert_eq!(alpha_beta_search(&board, 3, &mut data, &signals), (None, i32::MIN, false));
    assert_eq!(iterative_deepening(&board, &mut data, &signals), None);
    // at depth 0 nothing is left to stop
    let leaf = alpha_beta_max(board, -1000, 1000, 0, &mut data, &signals);
    assert_eq!(leaf, Some(quiesce_search_max(board, -1000, 1000)));
    signals.reset();
    assert!(!signals.hard_stop());
    assert!(!signals.soft_stop());
}

#[test]
fn time_running_out_at_the_first_depth_only_asks_to_finish() {
    let signals = StopSignals::new();
    signals.publish_depth(1);
    signals.time_is_up();
    assert!(signals.soft_stop());
    assert!(!signals.hard_stop());
    // the deepening ends with the move of the first depth
    let board = Position::initial();
    let mut data = small_data();
    let best = iterative_deepening(&board, &mut data, &signals).unwrap();
    assert!(board.legal_moves().contains(&best));
}

#[test]
fn deepening_ends_at_a_mate() {
    let board = Position::from_fen("7k/1R6/R7/8/8/8/8/K7 w - - 0 1").unwrap();
    let signals = StopSignals::new();
    let mut data = small_data();
    assert_eq!(iterative_deepening(&board, &mut data, &signals), Some(mv("a6a8")));
}

#[test]
fn deepening_steps_decide_by_signals_and_score() {
    let held = Some(mv("e2e4"));
    let found = (Some(mv("d2d4")), 30);
    assert_eq!(after_depth(held, found, false, false), (found.0, true));
    assert_eq!(after_depth(held, found, false, true), (found.0, false));
    assert_eq!(after_depth(held, found, true, false), (held, false));
    assert_eq!(after_depth(held, found, true, true), (held, false));
    assert_eq!(after_depth(held, (None, 30), false, false), (held, false));
    assert_eq!(after_depth(None, (None, 30), false, false), (None, false));
    assert_eq!(after_depth(held, (found.0, MATE_SCORE - 1_000), false, false), (found.0, true));
    assert_eq!(after_depth(held, (found.0, MATE_SCORE - 999), false, false), (found.0, false));
    assert_eq!(after_depth(held, (found.0, -(MATE_SCORE - 999)), false, false), (found.0, false));
}

#[test]
fn table_serves_a_hash_by_match_then_empty_then_oldest() {
    let mut table = TranspositionTable::with_buckets(4);
    assert_eq!(table.len(), 12);
    // hash 1 goes to the bucket of slots 3, 4 and 5; the last empty slot is used
    assert_eq!(table.get(1), 5);
    table.store(1, 3, 10, NodeType::PV);
    assert_eq!(
        table.entry(5),
        Entry::Contains { hash: 1, depth: 3, score: 10, node_type: NodeType::PV, age: 0 }
    );
    assert_eq!(table.get(1), 5);
    assert_eq!(table.get(5), 4);
    table.store(5, 1, 20, NodeType::CUT);
    assert_eq!(table.get(9), 3);
    table.store(9, 1, 30, NodeType::ALL);
    // the bucket is full: a stored hash is found again
    assert_eq!(table.get(5), 4);
    assert_eq!(table.get(1), 5);
    // of equal ages the first slot goes
    assert_eq!(table.get(13), 3);
    table.age_table();
    table.store(9, 2, 31, NodeType::PV);
    table.store(5, 2, 21, NodeType::PV);
    // hash 1 was not stored again and is the oldest now
    assert_eq!(
        table.entry(5),
        Entry::Contains { hash: 1, depth: 3, score: 10, node_type: NodeType::PV, age: 1 }
    );
    assert_eq!(table.get(13), 5);
    table.store(13, 0, 0, NodeType::PV);
    assert_eq!(table.get(1), 3);
    assert_eq!(table.entry(0), Entry::Empty);
}

#[test]
fn table_ages_stop_at_the_greatest() {
    let mut table = TranspositionTable::with_buckets(1);
    table.store(3, 0, 0, NodeType::PV);
    for _ in 0..300 {
        table.age_table();
    }
    assert_eq!(
        table.entry(2),
        Entry::Contains { hash: 3, depth: 0, score: 0, node_type: NodeType::PV, age: 255 }
    );
}

#[test]
fn lookup_uses_an_entry_only_where_its_bound_decides() {
    let mut data = small_data();
    assert_eq!(data.lookup(42, -100, 100, 0), None);
    data.record(42, 3, 50, NodeType::PV);
    assert_eq!(data.lookup(42, -100, 100, 3), Some(50));
    assert_eq!(data.lookup(42, -100, 100, 3), Some(50));
    assert_eq!(data.lookup(42, -100, 100, 2), Some(50));
    assert_eq!(data.lookup(42, -100, 100, 4), None);
    assert_eq!(data.lookup(42, 50, 50, 3), Some(50));
    assert_eq!(data.lookup(42, 51, 100, 3), None);
    assert_eq!(data.lookup(42, -100, 49, 3), None);
    assert_eq!(data.lookup(42 + 4096, -100, 100, 3), None);
    data.record(42, 3, 50, NodeType::CUT);
    assert_eq!(data.lookup(42, -100, 50, 3), Some(50));
    assert_eq!(data.lookup(42, -100, 51, 3), None);
    data.record(42, 3, 50, NodeType::ALL);
    assert_eq!(data.lookup(42, 50, 100, 3), Some(50));
    assert_eq!(data.lookup(42, 49, 100, 3), None);
    data.age_table();
    assert_eq!(data.lookup(42, 50, 100, 3), Some(50));
}

#[test]
fn search_leaves_its_results_in_the_table() {
    let board = Position::from_fen("4k3/8/8/1r1p4/4P3/2N5/8/3QK3 w - - 0 1").unwrap();
    let signals = StopSignals::new();
    let mut data = small_data();
    let child = board.make_move(mv("e4d5"));
    let first = get_or_calculate_min(child, -MAX_WINDOW_SIZE, MAX_WINDOW_SIZE, 1, &mut data, &signals);
    assert!(first.is_some());
    assert_eq!(data.lookup(child.hash(), -MAX_WINDOW_SIZE, MAX_WINDOW_SIZE, 1), first);
    let again = get_or_calculate_min(child, -MAX_WINDOW_SIZE, MAX_WINDOW_SIZE, 1, &mut data, &signals);
    assert_eq!(again, first);
}

#[test]
fn leaves_and_cached_scores_need_no_signal() {
    let board = Position::from_fen("4k3/8/8/1r1p4/4P3/2N5/8/3QK3 w - - 0 1").unwrap();
    let mated = Position::from_fen("7k/1R6/R7/8/8/8/8/K7 w - - 0 1").unwrap().make_move(mv("a6a8"));
    let signals = StopSignals::new();
    signals.publish_depth(2);
    signals.time_is_up();
    assert!(signals.hard_stop());
    let mut data = small_data();
    // at depth 0 and where the game has ended the quiescence search decides
    assert_eq!(
        alpha_beta_min(board, -1000, 1000, 0, &mut data, &signals),
        Some(quiesce_search_min(board, -1000, 1000))
    );
    assert_eq!(
        alpha_beta_min(mated, -MAX_WINDOW_SIZE, MAX_WINDOW_SIZE, 5, &mut data, &signals),
        Some((MATE_SCORE, NodeType::PV))
    );
    assert_eq!(
        alpha_beta_max(mated, -MAX_WINDOW_SIZE, MAX_WINDOW_SIZE, 5, &mut data, &signals),
        Some((MATE_SCORE, NodeType::PV))
    );
    // a leaf's score goes into the table though the search is told to stop
    let leaf = get_or_calculate_max(board, -MAX_WINDOW_SIZE, MAX_WINDOW_SIZE, 0, &mut data, &signals);
    assert_eq!(leaf, Some(quiesce_search_max(board, -MAX_WINDOW_SIZE, MAX_WINDOW_SIZE).0));
    assert_eq!(data.lookup(board.hash(), -MAX_WINDOW_SIZE, MAX_WINDOW_SIZE, 0), leaf);
    // a usable score of the table is handed out, and the table stays
    data.record(77, 4, 33, NodeType::PV);
    let other = Position::initial();
    data.record(other.hash(), 4, 33, NodeType::PV);
    assert_eq!(get_or_calculate_min(other, -100, 100, 3, &mut data, &signals), Some(33));
    assert_eq!(get_or_calculate_max(other, -100, 100, 4, &mut data, &signals), Some(33));
    assert_eq!(data.lookup(other.hash(), -100, 100, 4), Some(33));
    // where the table has nothing usable and the node is no leaf, the signal decides
    assert_eq!(get_or_calculate_min(other, -100, 100, 5, &mut data, &signals), None);
    assert_eq!(data.lookup(other.hash(), -100, 100, 4), Some(33));
}

#[test]
fn a_single_legal_move_needs_no_signal() {
    let board = Position::from_fen("k7/8/8/8/8/8/6PP/6rK w - - 0 1").unwrap();
    let only = board.legal_moves()[0];
    let signals = StopSignals::new();
    signals.publish_depth(2);
    signals.time_is_up();
    assert!(signals.hard_stop());
    let mut data = small_data();
    data.set_previous_score(5, 17);
    assert_eq!(alpha_beta_search(&board, 3, &mut data, &signals), (Some(only), 0, true));
    // no score is kept for a move that was not searched
    assert_eq!(data.previous_score(board.make_move(only).hash()), None);
    assert_eq!(data.previous_score(5), Some(17));
}

#[test]
fn a_whole_root_search_keeps_the_score_of_each_move() {
    let board = Position::from_fen("k7/8/8/8/8/r7/1r6/7K b - - 0 1").unwrap();
    let signals = StopSignals::new();
    let mut data = small_data();
    let repeated = board.make_move(mv("a3a2"));
    data.visit_position(&repeated);
    data.visit_position(&repeated);
    let (best, score, complete) = alpha_beta_search(&board, 1, &mut data, &signals);
    assert!(complete);
    assert_eq!((best, score), (Some(mv("a3a1")), -MATE_SCORE));
    let mut lowest = i32::MAX;
    for m in board.legal_moves() {
        let after = board.make_move(m);
        if m == mv("a3a2") {
            assert_eq!(data.previous_score(after.hash()), None);
        } else {
            let kept = data.previous_score(after.hash()).unwrap();
            assert_eq!(kept, quiesce_search_max(after, -MAX_WINDOW_SIZE, MAX_WINDOW_SIZE).0);
            lowest = lowest.min(kept);
        }
    }
    assert_eq!(lowest, score);
}

#[test]
fn scores_are_taken_from_the_table_or_calculated() {
    let mut data = small_data();
    assert_eq!(data.get_or_calculate(9, -100, 100, 2, || (30, NodeType::PV)), 30);
    assert_eq!(data.lookup(9, -100, 100, 2), Some(30));
    // the table serves: the calculation is not asked
    assert_eq!(data.get_or_calculate(9, -100, 100, 2, || (40, NodeType::PV)), 30);
    assert_eq!(data.get_or_calculate(9, -100, 100, 1, || (40, NodeType::PV)), 30);
    // too shallow for depth 3
    assert_eq!(data.get_or_calculate(9, -100, 100, 3, || (40, NodeType::CUT)), 40);
    // the lower bound 40 decides a window that ends at 39, and no wider one
    assert_eq!(data.get_or_calculate(9, -100, 39, 3, || (50, NodeType::PV)), 40);
    assert_eq!(data.get_or_calculate(9, -100, 100, 3, || (50, NodeType::PV)), 50);
    assert_eq!(data.lookup(9, -100, 100, 3), Some(50));
}

#[test]
fn a_deeper_result_is_not_lost_to_a_shallower_one() {
    let mut table = TranspositionTable::with_buckets(4);
    table.store(1, 5, 10, NodeType::CUT);
    let slot = table.get(1);
    // a shallower result for the same hash leaves the entry as it is
    table.age_table();
    table.store(1, 3, 99, NodeType::PV);
    assert_eq!(
        table.entry(slot),
        Entry::Contains { hash: 1, depth: 5, score: 10, node_type: NodeType::CUT, age: 1 }
    );
    // one as deep or deeper takes its place
    table.store(1, 5, 20, NodeType::PV);
    assert_eq!(
        table.entry(slot),
        Entry::Contains { hash: 1, depth: 5, score: 20, node_type: NodeType::PV, age: 0 }
    );
    table.store(1, 6, 30, NodeType::ALL);
    assert_eq!(
        table.entry(slot),
        Entry::Contains { hash: 1, depth: 6, score: 30, node_type: NodeType::ALL, age: 0 }
    );
    // the score is still handed out where the deeper entry does not serve the window
    let mut data = small_data();
    data.record(9, 6, 500, NodeType::PV);
    assert_eq!(data.lookup(9, -100, 100, 2), None);
    assert_eq!(data.get_or_calculate(9, -100, 100, 2, || (40, NodeType::PV)), 40);
    assert_eq!(data.lookup(9, -1000, 1000, 6), Some(500));
    assert_eq!(data.lookup(9, -100, 100, 2), None);
    data.record(9, 5, 41, NodeType::PV);
    assert_eq!(data.lookup(9, -1000, 1000, 6), Some(500));
}

#[test]
fn quiescence_cutoffs_are_lower_bounds_for_the_side_that_cuts() {
    // white takes the queen: the first capture reaches any beta below the gain
    let board = Position::from_fen("4k3/8/8/3q4/4P3/8/8/4K3 w - - 0 1").unwrap();
    let stand_pat = evaluate(&board);
    assert_eq!(quiesce_search_max(board, stand_pat - 10, stand_pat + 10), (stand_pat + 10, NodeType::CUT));
    assert_eq!(quiesce_search_max(board, stand_pat - 10, stand_pat), (stand_pat, NodeType::CUT));
    // black takes the queen
    let board = Position::from_fen("4k3/8/8/4p3/3Q4/8/8/4K3 b - - 0 1").unwrap();
    let stand_pat = evaluate(&board);
    assert_eq!(quiesce_search_min(board, stand_pat - 10, stand_pat + 10), (stand_pat - 10, NodeType::CUT));
    assert_eq!(quiesce_search_min(board, stand_pat, stand_pat + 10), (stand_pat, NodeType::CUT));
}
