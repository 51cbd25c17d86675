use engine::opening_book::{
    contains_byte, contains_castling, is_game_line, is_move_token, BuildNode, Node, NodeCount,
};

const NO_REPLIES: &[NodeCount] = &[];

const AFTER_D4: &[NodeCount] = &[
    (3, Node { joice: "g8f6", children: NO_REPLIES }),
    (5, Node { joice: "d5", children: NO_REPLIES }),
    (1, Node { joice: "f5", children: NO_REPLIES }),
];

const NODE_MAP: Node = Node { joice: "", children: AFTER_D4 };

#[test]
fn it_works() {
    assert_eq!(NODE_MAP.get_best_move(), Some("d5".to_string()))
}

#[test]
fn best_move_of_a_leaf_is_none() {
    let leaf = Node { joice: "e2e4", children: NO_REPLIES };
    assert_eq!(leaf.get_best_move(), None);
}

#[test]
fn best_move_breaks_ties_by_text() {
    let children: &'static [NodeCount] = &[
        (2, Node { joice: "e7e5", children: NO_REPLIES }),
        (2, Node { joice: "c7c5", children: NO_REPLIES }),
    ];
    let node = Node { joice: "e2e4", children };
    assert_eq!(node.get_best_move(), Some("e7e5".to_string()));
}

#[test]
fn node_by_move_finds_the_reply() {
    let found = NODE_MAP.get_node_by_move("d5".to_string());
    assert_eq!(found.map(|n| n.joice), Some("d5"));
    assert!(NODE_MAP.get_node_by_move("e5".to_string()).is_none());
}

#[test]
fn ticket_selects_by_cumulative_games() {
    // counted replies: g8f6 (3) and d5 (5); f5 was played once only
    assert_eq!(NODE_MAP.frequent_games(), 8);
    assert_eq!(NODE_MAP.ticket_index(0), Some(0));
    assert_eq!(NODE_MAP.ticket_index(3), Some(0));
    assert_eq!(NODE_MAP.ticket_index(4), Some(1));
    assert_eq!(NODE_MAP.ticket_index(8), Some(1));
    assert_eq!(NODE_MAP.ticket_index(9), None);
}

#[test]
fn best_node_is_a_counted_reply() {
    for _ in 0..50 {
        let picked = NODE_MAP.get_best_node().unwrap();
        assert!(picked.0 >= 2);
        assert!(picked.1.joice == "g8f6" || picked.1.joice == "d5");
    }
    let leaf = Node { joice: "e2e4", children: NO_REPLIES };
    assert!(leaf.get_best_node().is_none());
}

#[test]
fn add_child_counts_repeated_moves() {
    let mut root = BuildNode::new("".to_string());
    root.add_child(BuildNode::new("e2e4".to_string()));
    root.add_child(BuildNode::new("d2d4".to_string()));
    let again = root.add_child(BuildNode::new("e2e4".to_string()));
    again.add_child(BuildNode::new("e7e5".to_string()));
    assert_eq!(root.children.len(), 2);
    assert_eq!(root.children[0].0, 2);
    assert_eq!(root.children[0].1.joice, "e2e4");
    assert_eq!(root.children[0].1.children.len(), 1);
    assert_eq!(root.children[0].1.children[0].1.joice, "e7e5");
    assert_eq!(root.children[1].0, 1);
    assert_eq!(root.children[1].1.joice, "d2d4");
}

#[test]
fn build_nodes_compare_by_move() {
    let mut a = BuildNode::new("e2e4".to_string());
    a.add_child(BuildNode::new("e7e5".to_string()));
    let b = BuildNode::new("e2e4".to_string());
    assert!(a == b);
    assert!(a != BuildNode::new("d2d4".to_string()));
}

#[test]
fn a_full_count_on_another_move_does_not_hinder() {
    let mut root = BuildNode::new("".to_string());
    root.add_child(BuildNode::new("e2e4".to_string()));
    root.children[0].0 = u16::MAX;
    root.add_child(BuildNode::new("d2d4".to_string()));
    root.add_child(BuildNode::new("d2d4".to_string()));
    assert_eq!(root.children.len(), 2);
    assert_eq!(root.children[0].0, u16::MAX);
    assert_eq!(root.children[1].0, 2);
}

#[test]
fn game_lines_start_with_the_first_move_and_hold_no_comment() {
    assert!(is_game_line("1. e4 e5 2. Nf3 Nc6 1-0"));
    assert!(is_game_line("1."));
    assert!(!is_game_line(""));
    assert!(!is_game_line("1"));
    assert!(!is_game_line("[Event \"Rated game\"]"));
    assert!(!is_game_line(" 1. e4 e5"));
    assert!(!is_game_line("2. e4 e5"));
    assert!(!is_game_line("1. e4 { [%eval 0.2] } e5 1-0"));
    assert!(!is_game_line("1. e4 e5 {"));
}

#[test]
fn results_are_no_moves_and_castling_is_one() {
    assert!(is_move_token("e4"));
    assert!(is_move_token("Nxf3+"));
    assert!(is_move_token("O-O"));
    assert!(is_move_token("O-O-O"));
    assert!(is_move_token("O-O+"));
    assert!(is_move_token(""));
    assert!(!is_move_token("1-0"));
    assert!(!is_move_token("0-1"));
    assert!(!is_move_token("1/2-1/2"));
    assert!(!is_move_token("O-"));
    assert!(!is_move_token("-O"));
    assert!(!is_move_token("0-0"));
    assert!(contains_byte(b"a{b", 123));
    assert!(!contains_byte(b"ab", 123));
    assert!(!contains_byte(b"", 45));
    assert!(contains_castling(b"xO-O"));
    assert!(!contains_castling(b"O-"));
    assert!(!contains_castling(b"O--O"));
}
