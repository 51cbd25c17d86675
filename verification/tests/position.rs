use engine::bits::{count_bits, file_squares, flipped, has_bit, mirrored_square, rank_block};
use engine::evaluation::helper::{bishop_xray, rook_xray};
use engine::game_state::{clock_of, side_of, split_moves};
use engine::position::{
    fen_placement_is_sound, BoardStatus, Color, Move, Piece, Position, START_FEN,
};
use engine::search::evaluated_position::{
    get_or_calculate_evaluation, keep_evaluation, kept_evaluation, mate_distance_adjusted,
    new_evaluated_positions, EvaluatedPosition,
};
use engine::text::{bytes_le, str_eq};

#[test]
fn initial_position_is_the_start_of_a_game() {
    let board = Position::initial();
    assert_eq!(board.to_fen(), START_FEN);
    assert!(board.white_to_move());
    assert_eq!(board.status(), BoardStatus::Ongoing);
    assert_eq!(board.legal_moves().len(), 20);
    let pl = board.placement();
    assert_eq!(pl.pawns, 0x00ff_0000_0000_ff00);
    assert_eq!(pl.knights, 0x4200_0000_0000_0042);
    assert_eq!(pl.bishops, 0x2400_0000_0000_0024);
    assert_eq!(pl.rooks, 0x8100_0000_0000_0081);
    assert_eq!(pl.queens, 0x0800_0000_0000_0008);
    assert_eq!(pl.kings, 0x1000_0000_0000_0010);
    assert_eq!(pl.white, 0x0000_0000_0000_ffff);
    assert_eq!(pl.black, 0xffff_0000_0000_0000);
    let same = Position::from_fen(START_FEN).unwrap();
    assert_eq!(same.hash(), board.hash());
    assert_eq!(same.placement(), pl);
}

#[test]
fn moves_lead_to_new_positions() {
    let board = Position::initial();
    let e4 = Move::from_text("e2e4").unwrap();
    assert_eq!(e4, Move { source: 12, dest: 28, promotion: None });
    let after = board.make_move(e4);
    assert!(!after.white_to_move());
    assert_ne!(after.hash(), board.hash());
    assert_eq!(after.to_fen(), "rnbqkbnr/pppppppp/8/8/4P3/8/PPPP1PPP/RNBQKBNR b KQkq - 0 1");
    assert_eq!(after.placement().pawns, 0x00ff_0000_1000_ef00);
    // the board before the move stays as it was
    assert_eq!(board.to_fen(), START_FEN);
    assert!(board.try_move(Move::from_text("e2e5").unwrap()).is_none());
    assert_eq!(board.try_move(e4).unwrap().to_fen(), after.to_fen());
}

#[test]
fn move_texts_are_read_and_written() {
    assert_eq!(Move::from_text("a1h8"), Some(Move { source: 0, dest: 63, promotion: None }));
    assert_eq!(
        Move::from_text("e7e8q"),
        Some(Move { source: 52, dest: 60, promotion: Some(Piece::Queen) })
    );
    assert_eq!(
        Move::from_text("a2a1n"),
        Some(Move { source: 8, dest: 0, promotion: Some(Piece::Knight) })
    );
    assert_eq!(Move::from_text("e7e8k"), None);
    assert_eq!(Move::from_text("e2"), None);
    assert_eq!(Move::from_text("z2e4"), None);
    assert_eq!(Move::from_text(""), None);
    assert_eq!(Move { source: 12, dest: 28, promotion: None }.to_text(), Some("e2e4".to_string()));
    assert_eq!(
        Move { source: 52, dest: 60, promotion: Some(Piece::Rook) }.to_text(),
        Some("e7e8r".to_string())
    );
    assert_eq!(Move { source: 64, dest: 28, promotion: None }.to_text(), None);
    assert_eq!(Move { source: 12, dest: 200, promotion: None }.to_text(), None);
    for i in 0..6 {
        assert_eq!(Piece::from_index(i).index(), i);
    }
    assert_eq!(Piece::from_index(9), Piece::King);
}

#[test]
fn unsound_placements_are_refused() {
    assert!(fen_placement_is_sound(START_FEN));
    assert!(fen_placement_is_sound("7k/1R6/R7/8/8/8/8/K7"));
    assert!(fen_placement_is_sound("7k/1R6/R7/8/8/8/8/K7 w - - 0 1"));
    assert!(!fen_placement_is_sound(""));
    assert!(!fen_placement_is_sound(" 7k/1R6/R7/8/8/8/8/K7 w - - 0 1"));
    assert!(!fen_placement_is_sound("7k/1R6/R7/8/8/8/8/8 w - - 0 1"));
    assert!(!fen_placement_is_sound("8/1R6/R7/8/8/8/8/K7 w - - 0 1"));
    assert!(!fen_placement_is_sound("7k/1R6/R7/8/8/8/8/K7/8 w - - 0 1"));
    assert!(!fen_placement_is_sound("7k/1R6/R7/8/8/8/K7 w - - 0 1"));
    assert!(!fen_placement_is_sound("7k/1R6/R7/8/8/8/8/K6 w - - 0 1"));
    assert!(!fen_placement_is_sound("7k/1R6/R7/8/8/8/8/K71 w - - 0 1"));
    assert!(!fen_placement_is_sound("7k/1R6/R7/0/8/8/8/K7 w - - 0 1"));
    assert!(!fen_placement_is_sound("7k/1R6/R7/8/8/8/8/K6x w - - 0 1"));
    // more pieces than a side can have
    assert!(!fen_placement_is_sound("k7/8/nnnnnnnn/nnnnnnnn/nnnnnnnn/8/8/7K b - - 0 1"));
    assert!(Position::from_fen("k7/8/nnnnnnnn/nnnnnnnn/nnnnnnnn/8/8/7K b - - 0 1").is_none());
    assert!(!fen_placement_is_sound("k7/8/8/8/8/NNNNNNNN/NNNNNNNN/7K w - - 0 1"));
    assert!(fen_placement_is_sound("k7/8/8/8/8/NNNNNNN1/NNNNNNNN/7K w - - 0 1"));
    assert!(Position::from_fen("k7/8/8/8/8/NNNNNNN1/NNNNNNNN/7K w - - 0 1").is_some());
    assert!(fen_placement_is_sound("knnnnnnn/nnnnnnnn/8/8/8/NNNNNNN1/NNNNNNNN/7K w - - 0 1"));
    assert!(Position::from_fen("7k/1R6/R7/8/8/8/8/K7").is_none());
    assert!(Position::from_fen("7k/1R6/R7/8/8/8/8/K7 w - -").is_some());
    // two kings next to each other
    assert!(Position::from_fen("8/8/8/8/8/8/8/Kk6 w - - 0 1").is_none());
}

#[test]
fn bit_sets_count_and_flip() {
    assert_eq!(count_bits(0), 0);
    assert_eq!(count_bits(u64::MAX), 64);
    assert_eq!(count_bits(0x8000_0000_0000_0001), 2);
    assert!(has_bit(1, 0));
    assert!(!has_bit(1, 1));
    assert!(has_bit(1 << 63, 63));
    assert!(!has_bit(u64::MAX, 64));
    assert_eq!(flipped(0xff), 0xff00_0000_0000_0000);
    assert_eq!(flipped(0x0102_0304_0506_0708), 0x0807_0605_0403_0201);
    assert_eq!(mirrored_square(0), 56);
    assert_eq!(mirrored_square(63), 7);
    assert_eq!(mirrored_square(28), 36);
    assert_eq!(file_squares(0), 0x0101_0101_0101_0101);
    assert_eq!(file_squares(7), 0x8080_8080_8080_8080);
    assert_eq!(rank_block(0), 0xff);
    assert_eq!(rank_block(3), 0xffff_ffff);
    assert_eq!(rank_block(7), u64::MAX);
}

#[test]
fn xray_looks_through_own_heavy_pieces() {
    // white rooks on a1 and d1, white king on f1
    let pl = Position::from_fen("4k3/8/8/8/8/8/8/R2R1K2 w - - 0 1").unwrap().placement();
    // from a1 through the rook on d1 up to the king, and up the a-file
    let along_rank = (1 << 1) | (1 << 2) | (1 << 3) | (1 << 4) | (1 << 5);
    let up_file = 0x0101_0101_0101_0100u64;
    assert_eq!(rook_xray(&pl, 0, Color::White), along_rank | up_file);
    assert_eq!(bishop_xray(&pl, 0, Color::White), along_rank | up_file);
    // for Black the white rook on d1 blocks
    assert_eq!(rook_xray(&pl, 0, Color::Black), (1 << 1) | (1 << 2) | (1 << 3) | up_file);
}

#[test]
fn texts_compare_by_their_bytes() {
    assert!(bytes_le(b"", b""));
    assert!(bytes_le(b"", b"a"));
    assert!(!bytes_le(b"a", b""));
    assert!(bytes_le(b"abc", b"abd"));
    assert!(bytes_le(b"abc", b"abc"));
    assert!(bytes_le(b"ab", b"abc"));
    assert!(!bytes_le(b"abd", b"abc"));
    assert!(!bytes_le(b"b", b"abc"));
    assert!(str_eq("e2e4", "e2e4"));
    assert!(!str_eq("e2e4", "e2e3"));
    assert!(!str_eq("e2e4", "e2e4q"));
    assert!(str_eq("", ""));
}

#[test]
fn move_lists_are_split_at_blanks() {
    assert_eq!(split_moves(""), Vec::<String>::new());
    assert_eq!(split_moves("   "), Vec::<String>::new());
    assert_eq!(split_moves("e2e4"), vec!["e2e4".to_string()]);
    assert_eq!(
        split_moves("e2e4 e7e5 g1f3"),
        vec!["e2e4".to_string(), "e7e5".to_string(), "g1f3".to_string()]
    );
    assert_eq!(split_moves(" e2e4  e7e5 "), vec!["e2e4".to_string(), "e7e5".to_string()]);
}

#[test]
fn clocks_and_sides_follow_the_color() {
    assert_eq!(clock_of(Color::White, 1, 2, 3, 4), (1, 2));
    assert_eq!(clock_of(Color::Black, 1, 2, 3, 4), (3, 4));
    let me = "bot".to_string();
    let bot = Some("bot".to_string());
    let human = Some("human".to_string());
    assert_eq!(side_of(&me, &bot, &human), Some(Color::White));
    assert_eq!(side_of(&me, &human, &bot), Some(Color::Black));
    assert_eq!(side_of(&me, &bot, &bot), Some(Color::White));
    assert_eq!(side_of(&me, &human, &None), None);
    assert_eq!(side_of(&me, &None, &None), None);
}

#[test]
fn kept_evaluations_serve_shallower_searches() {
    let board = Position::initial();
    let mut kept = new_evaluated_positions();
    assert_eq!(kept_evaluation(&kept, board.hash(), 0), None);
    assert_eq!(keep_evaluation(&mut kept, board, 3, 5, 40), 40);
    assert_eq!(kept_evaluation(&kept, board.hash(), 3), Some(40));
    assert_eq!(kept_evaluation(&kept, board.hash(), 2), Some(40));
    assert_eq!(kept_evaluation(&kept, board.hash(), 4), None);
    assert_eq!(kept_evaluation(&kept, board.hash() ^ 1, 0), None);
    // a mate found three moves below the root of a search five deep
    assert_eq!(keep_evaluation(&mut kept, board, 2, 5, 1_000_000), 999_997);
    assert_eq!(kept_evaluation(&kept, board.hash(), 2), Some(999_997));
    assert_eq!(kept_evaluation(&kept, board.hash(), 3), None);
}

#[test]
fn mates_are_adjusted_by_their_distance() {
    assert_eq!(mate_distance_adjusted(1_000_000, 6, 6), 1_000_000);
    assert_eq!(mate_distance_adjusted(1_000_000, 6, 4), 999_998);
    assert_eq!(mate_distance_adjusted(-1_000_000, 6, 4), -999_998);
    assert_eq!(mate_distance_adjusted(-1_000_000, 6, 0), -999_994);
    assert_eq!(mate_distance_adjusted(999_999, 6, 0), 999_999);
    assert_eq!(mate_distance_adjusted(17, 6, 0), 17);
    assert_eq!(mate_distance_adjusted(1_000_000, 2, 5), 1_000_003);
    assert!(mate_distance_adjusted(1_000_000, 6, 5) > mate_distance_adjusted(1_000_000, 6, 3));
}

#[test]
fn evaluations_compare_by_depth() {
    let board = Position::initial();
    let shallow = EvaluatedPosition { board, evaluation: 100, depth: 1 };
    let deep = EvaluatedPosition { board, evaluation: -100, depth: 4 };
    let other = EvaluatedPosition { board, evaluation: 0, depth: 4 };
    assert!(shallow < deep);
    assert!(deep > shallow);
    assert!(deep == other);
    assert!(shallow != deep);
    assert!(deep <= other && deep >= other);
}

#[test]
fn evaluations_are_calculated_once_for_a_depth() {
    let board = Position::initial();
    let mut kept = new_evaluated_positions();
    assert_eq!(get_or_calculate_evaluation(&mut kept, board, 3, 5, || 40), 40);
    // what is kept serves: the new calculation is not asked
    assert_eq!(get_or_calculate_evaluation(&mut kept, board, 3, 5, || 50), 40);
    assert_eq!(get_or_calculate_evaluation(&mut kept, board, 2, 5, || 50), 40);
    // a deeper search calculates anew, and a mate is adjusted by its distance
    assert_eq!(get_or_calculate_evaluation(&mut kept, board, 4, 5, || 1_000_000), 999_999);
    assert_eq!(kept_evaluation(&kept, board.hash(), 4), Some(999_999));
    assert_eq!(get_or_calculate_evaluation(&mut kept, board, 5, 5, || -1_000_000), -1_000_000);
}

#[test]
fn move_texts_are_read_as_the_move_generator_reads_them() {
    let texts = [
        "e2e4", "e7e8q", "e7e8r", "e7e8n", "e7e8b", "e7e8k", "e7e8Q", "a1h8", "h8a1", "e2", "",
        "e2e", "i2e4", "e9e4", "e2e4zz", "e2e4q1", "E2E4", "e2 e4", " e2e4", "a0a1", "e2e4\u{e9}",
        "\u{e9}2e4", "e\u{e9}e4", "e2\u{e9}4", "h1h1",
    ];
    for text in texts {
        let ours = Move::from_text(text);
        let theirs = <chess::ChessMove as std::str::FromStr>::from_str(text).ok().map(|m| {
            (m.get_source().to_int(), m.get_dest().to_int(), m.get_promotion().map(|p| p.to_index()))
        });
        assert_eq!(ours.map(|m| (m.source, m.dest, m.promotion.map(|p| p.index()))), theirs);
        if let Some(m) = ours {
            let written = m.to_text().unwrap();
            assert_eq!(Move::from_text(&written), Some(m));
        }
    }
    assert_eq!(Move::from_text("e2e4zz"), Some(Move { source: 12, dest: 28, promotion: None }));
    assert_eq!(
        Move { source: 8, dest: 0, promotion: Some(Piece::King) }.to_text(),
        Some("a2a1k".to_string())
    );
    assert_eq!(
        Move { source: 63, dest: 7, promotion: Some(Piece::Pawn) }.to_text(),
        Some("h8h1p".to_string())
    );
}
