use engine::engine::time_budget;
use engine::opening_book::{Node, NodeCount};
use engine::position::{Color, Move, Position, START_FEN};
use engine::search::StopSignals;
use engine::Engine;

const NO_REPLIES: &[NodeCount] = &[];

const AFTER_E4: &[NodeCount] = &[
    (4, Node { joice: "e7e5", children: NO_REPLIES }),
    (2, Node { joice: "c7c5", children: NO_REPLIES }),
];

const FIRST_MOVES: &[NodeCount] = &[
    (6, Node { joice: "e2e4", children: AFTER_E4 }),
    (3, Node { joice: "d2d4", children: NO_REPLIES }),
];

const BOOK: Node = Node { joice: "", children: FIRST_MOVES };

#[test]
fn a_new_engine_stands_at_the_start() {
    let engine = Engine::new(None);
    assert_eq!(engine.get_position(), START_FEN);
    assert!(engine.is_my_turn(Color::White));
    assert!(!engine.is_my_turn(Color::Black));
}

#[test]
fn the_book_is_followed_while_it_lasts() {
    let mut engine = Engine::new(Some(BOOK));
    let signals = StopSignals::new();
    assert_eq!(engine.get_engine_move(&signals), Some("e2e4".to_string()));
    assert!(engine.make_move("e2e4".to_string()));
    assert_eq!(engine.get_engine_move(&signals), Some("e7e5".to_string()));
    assert!(engine.make_move("e7e5".to_string()));
    // the book has no reply here: the search takes over
    signals.publish_depth(1);
    signals.time_is_up();
    let found = engine.get_engine_move(&signals).unwrap();
    let position = Position::from_fen(&engine.get_position()).unwrap();
    assert!(position.legal_moves().contains(&Move::from_text(&found).unwrap()));
}

#[test]
fn moves_change_the_position_and_bad_ones_do_not() {
    let mut engine = Engine::new(None);
    assert!(!engine.make_move("e2e5".to_string()));
    assert!(!engine.make_move("nonsense".to_string()));
    assert_eq!(engine.get_position(), START_FEN);
    assert!(engine.make_move("e2e4".to_string()));
    assert!(engine.is_my_turn(Color::Black));
    assert_eq!(
        engine.get_position(),
        Position::initial().make_move(Move::from_text("e2e4").unwrap()).to_fen()
    );
}

#[test]
fn load_fen_sets_the_position() {
    let mut engine = Engine::new(Some(BOOK));
    assert_eq!(engine.load_fen("7k/1R6/R7/8/8/8/8/K7 w - - 0 1"), Ok(()));
    assert_eq!(
        engine.get_position(),
        Position::from_fen("7k/1R6/R7/8/8/8/8/K7 w - - 0 1").unwrap().to_fen()
    );
    // the book is left behind
    let signals = StopSignals::new();
    assert_eq!(engine.get_engine_move(&signals), Some("a6a8".to_string()));
    assert_eq!(engine.load_fen("not a position"), Err(()));
    assert_eq!(engine.load_fen("8/8/8/8/8/8/8/K7 w - - 0 1"), Err(()));
    assert_eq!(engine.load_fen("7k/1R6/R7/8/8/8/8/8 w - - 0 1"), Err(()));
    assert_eq!(engine.load_fen("7k/1R6/R7/8/8/8/8/K w - - 0 1"), Err(()));
    assert_eq!(engine.load_fen("7k/1R6/R7/8/8/8/K7 w - - 0 1"), Err(()));
    assert_eq!(engine.load_fen("7k/1R6/R7/8/8/8/8/K8 w - - 0 1"), Err(()));
    assert_eq!(engine.load_fen("7k/1R6/R7/9/8/8/8/K7 w - - 0 1"), Err(()));
    assert_eq!(engine.load_fen("7k/1R6/R7/8/8/8/8/Kx6 w - - 0 1"), Err(()));
    assert_eq!(engine.load_fen("Kqqqqqqqq/8/8/8/8/8/8/7k w - - 0 1"), Err(()));
    assert_eq!(engine.get_engine_move(&signals), Some("a6a8".to_string()));
}

#[test]
fn engine_searches_find_legal_moves() {
    let mut engine = Engine::new(None);
    let signals = StopSignals::new();
    let (best, _, complete) = engine.alpha_beta_search(2, &signals);
    assert!(complete);
    assert!(Position::initial().legal_moves().contains(&best.unwrap()));
    signals.publish_depth(1);
    signals.time_is_up();
    let best = engine.iterative_deepening(&signals).unwrap();
    assert!(Position::initial().legal_moves().contains(&best));
    engine.do_off_move_stuff();
}

#[test]
fn time_budget_shares_out_the_clock() {
    // unlimited clock
    assert_eq!(time_budget(2_000_001_000, 0, 3_000, 0), 3_000);
    assert_eq!(time_budget(2_000_000_999, 0, 3_000, 0), 3_000);
    // one minute, no increment, first move: 60000 / 100 * 2
    assert_eq!(time_budget(60_000, 0, 3_000, 0), 1_200);
    assert_eq!(time_budget(60_000, 1_000, 3_000, 0), 2_200);
    // from the tenth move on the budget is not doubled
    assert_eq!(time_budget(60_000, 0, 3_000, 9), 1_318);
    assert_eq!(time_budget(60_000, 0, 3_000, 10), 666);
    // never fewer than twenty moves are expected
    assert_eq!(time_budget(60_000, 0, 3_000, 80), 3_000);
    assert_eq!(time_budget(60_000, 0, 3_000, 500), 3_000);
    assert_eq!(time_budget(40_000, 0, 3_000, 90), 2_000);
    // five seconds and more give way to the default
    assert_eq!(time_budget(249_950, 0, 3_000, 0), 4_998);
    assert_eq!(time_budget(250_000, 0, 3_000, 0), 3_000);
    assert_eq!(time_budget(1_000, u64::MAX, 3_000, 0), 3_000);
    let engine = Engine::new(None);
    assert_eq!(engine.recommended_timeout(60_000, 500, 3_000), 1_700);
}

#[test]
fn moves_outside_the_book_are_counted() {
    let mut engine = Engine::new(Some(BOOK));
    assert!(engine.make_move("e2e4".to_string()));
    // still in the book: the budget is that of the first move
    assert_eq!(engine.recommended_timeout(100_000, 0, 9_000), 2_000);
    for joice in ["g8f6", "e4e5", "f6d5", "d2d4", "d7d6", "g1f3", "c8g4", "f1e2", "e7e6", "c2c4", "d5b6"] {
        assert!(engine.make_move(joice.to_string()));
    }
    // eleven moves outside the book: 100000 / 89, not doubled
    assert_eq!(engine.recommended_timeout(100_000, 0, 9_000), 1_123);
}

#[test]
fn the_engine_finds_the_mate_for_black() {
    let mut engine = Engine::new(None);
    assert_eq!(engine.load_fen("k7/8/8/8/8/r7/1r6/7K b - - 0 1"), Ok(()));
    let signals = StopSignals::new();
    assert_eq!(
        engine.alpha_beta_search(1, &signals),
        (Some(Move::from_text("a3a1").unwrap()), -1_000_000, true)
    );
}

#[test]
fn the_engine_plays_a_single_legal_move_unsearched() {
    let mut engine = Engine::new(None);
    assert_eq!(engine.load_fen("k7/8/8/8/8/8/6PP/6rK w - - 0 1"), Ok(()));
    let signals = StopSignals::new();
    signals.publish_depth(2);
    signals.time_is_up();
    let only = Move::from_text("h1g1").unwrap();
    assert_eq!(engine.alpha_beta_search(7, &signals), (Some(only), 0, true));
}
