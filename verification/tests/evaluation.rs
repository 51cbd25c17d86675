use engine::evaluation::evaluate::{
    blend_scores, color_on, mobility_counts, piece_on, score_board, score_with_mobility,
};
use engine::evaluation::mobility::{mobility_bonus, piece_mobility, piece_mobility_count};
use engine::evaluation::pawn::connectivity::{connected_bonus, opposed, phalanx, supporter};
use engine::evaluation::pawn::isolated::{double_isolated, isolated};
use engine::evaluation::{eg_value, evaluate, game_phase_inc, mg_value, MATE_SCORE};
use engine::position::{BoardStatus, Color, Move, Piece, Placement, Position};

fn pawns_of(pl: &Placement, color: Color) -> u64 {
    match color {
        Color::White => pl.pawns & pl.white,
        Color::Black => pl.pawns & pl.black,
    }
}

fn other(color: Color) -> Color {
    match color {
        Color::White => Color::Black,
        Color::Black => Color::White,
    }
}

#[test]
fn test_supporter() {
    let board =
        Position::from_fen("rnbqkbnr/1p2p1pp/p4p2/8/3P4/2P1p3/PP4PP/RNBQKBNR w KQkq - 0 4").unwrap();
    let pl = board.placement();

    let mut w_score = 0;
    let mut b_score = 0;

    for i in 0..64u8 {
        if let Some(piece) = piece_on(&pl, i) {
            if piece != Piece::Pawn {
                continue;
            }
            let color = color_on(&pl, i).unwrap();
            let all_pawns = pawns_of(&pl, color);
            if color == Color::White {
                w_score += supporter(all_pawns, i, color);
            } else {
                b_score += supporter(all_pawns, i, color);
            }
        }
    }

    assert_eq!(w_score, 2);
    assert_eq!(b_score, 3);
}

#[test]
fn test_phalanx() {
    let board =
        Position::from_fen("rnbqkbnr/1p2p1pp/p4p2/8/3P4/4p1P1/PPP4P/RNBQKBNR b KQkq - 0 4").unwrap();
    let pl = board.placement();

    let mut w_score = 0;
    let mut b_score = 0;

    for i in 0..64u8 {
        if let Some(piece) = piece_on(&pl, i) {
            if piece != Piece::Pawn {
                continue;
            }
            let color = color_on(&pl, i).unwrap();
            let all_pawns = pawns_of(&pl, color);
            if color == Color::White {
                w_score += phalanx(all_pawns, i);
            } else {
                b_score += phalanx(all_pawns, i);
            }
        }
    }

    assert_eq!(w_score, 3);
    assert_eq!(b_score, 2);
}

#[test]
fn test_opposed() {
    let board =
        Position::from_fen("rnb1kbnr/1p2pp1p/p5p1/8/8/P1P5/P2PP1PP/RNBQKBNR w KQkq - 0 2").unwrap();
    let pl = board.placement();

    let mut w_score = 0;
    let mut b_score = 0;

    for i in 0..64u8 {
        if let Some(piece) = piece_on(&pl, i) {
            if piece != Piece::Pawn {
                continue;
            }
            let color = color_on(&pl, i).unwrap();
            let all_pawns = pawns_of(&pl, other(color));
            if color == Color::White {
                w_score += opposed(all_pawns, i, color);
            } else {
                b_score += opposed(all_pawns, i, color);
            }
        }
    }

    assert_eq!(w_score, 5);
    assert_eq!(b_score, 4);
}

#[test]
fn test_bonus() {
    let board =
        Position::from_fen("rnb1kbnr/2P1pp1p/1P1P2p1/1p6/2p5/8/3P1PPP/RNBQKBNR b KQkq - 0 2").unwrap();
    let pl = board.placement();

    let mut w_score = 0;
    let mut b_score = 0;

    for i in 0..64u8 {
        if let Some(piece) = piece_on(&pl, i) {
            if piece != Piece::Pawn {
                continue;
            }
            let color = color_on(&pl, i).unwrap();
            let all_other_pawns = pawns_of(&pl, other(color));
            let all_my_pawns = pawns_of(&pl, color);
            if color == Color::White {
                w_score += connected_bonus(all_my_pawns, all_other_pawns, i, color);
            } else {
                b_score += connected_bonus(all_my_pawns, all_other_pawns, i, color);
            }
        }
    }

    assert_eq!(w_score, 256);
    assert_eq!(b_score, 164);
}

#[test]
fn test_isolated() {
    let board =
        Position::from_fen("rnb1kbnr/2P1pp1p/1P1P2p1/p7/2p5/8/3P1PPP/RNBQKBNR b KQkq - 0 2").unwrap();
    let pl = board.placement();

    let white_pawns = pawns_of(&pl, Color::White);
    let black_pawns = pawns_of(&pl, Color::Black);

    // a5, c4 and c7
    assert!(isolated(black_pawns, 32));
    assert!(isolated(black_pawns, 26));

    assert!(!isolated(white_pawns, 50));
}

#[test]
fn test_mate() {
    let board = Position::from_fen("7k/1R6/R7/8/8/8/8/K7 w - - 0 1").unwrap();
    let board = board.make_move(Move::from_text("a6a8").unwrap());

    assert_eq!(evaluate(&board), MATE_SCORE);
}

#[test]
fn mate_against_white_scores_for_black() {
    let board = Position::from_fen("k7/8/8/8/8/r7/1r6/7K b - - 0 1").unwrap();
    let board = board.try_move(Move::from_text("a3a1").unwrap()).unwrap();
    assert_eq!(board.status(), BoardStatus::Checkmate);
    assert_eq!(evaluate(&board), -MATE_SCORE);
}

#[test]
fn stalemate_scores_zero() {
    let board = Position::from_fen("7k/5Q2/6K1/8/8/8/8/8 b - - 0 1").unwrap();
    assert_eq!(board.status(), BoardStatus::Stalemate);
    assert_eq!(evaluate(&board), 0);
    let board = Position::from_fen("k7/2Q5/1K6/8/8/8/8/8 b - - 0 1").unwrap();
    assert_eq!(board.status(), BoardStatus::Stalemate);
    assert_eq!(evaluate(&board), 0);
}

#[test]
fn starting_position_is_balanced() {
    let board = Position::initial();
    assert_eq!(board.status(), BoardStatus::Ongoing);
    assert_eq!(evaluate(&board), 0);
}

#[test]
fn score_changes_sign_with_the_sides() {
    let fens = [
        "rnbqkbnr/1p2p1pp/p4p2/8/3P4/4p1P1/PPP4P/RNBQKBNR b KQkq - 0 4",
        "3q1rk1/5ppp/2n2n2/p1pNb3/3pP3/3P3N/PPbB2PP/R3KB1R b KQ - 1 16",
        "rnb1kbnr/2P1pp1p/1P1P2p1/1p6/2p5/8/3P1PPP/RNBQKBNR b KQkq - 0 2",
        "8/5k2/8/3P4/2P5/8/8/4K3 w - - 0 1",
    ];
    for fen in fens {
        let pl = Position::from_fen(fen).unwrap().placement();
        let mirrored = pl.mirrored();
        assert_eq!(score_board(&mirrored), -score_board(&pl));
        let mobility = mobility_counts(&pl);
        let mut swapped = vec![0u32; 64];
        for sq in 0..64usize {
            swapped[sq ^ 56] = mobility[sq];
        }
        assert_eq!(mobility_counts(&mirrored), swapped);
        assert_eq!(score_with_mobility(&mirrored, &swapped), -score_with_mobility(&pl, &mobility));
    }
}

#[test]
fn lone_pieces_score_by_the_tables() {
    // kings on e1 and e8 and a white knight on b1
    let pl = Position::from_fen("4k3/8/8/8/8/8/8/1N2K3 w - - 0 1").unwrap().placement();
    assert_eq!(piece_on(&pl, 1), Some(Piece::Knight));
    assert_eq!(color_on(&pl, 1), Some(Color::White));
    assert_eq!(mg_value(&Piece::Knight, Color::White, 1), 337 - 21);
    assert_eq!(eg_value(&Piece::Knight, Color::White, 1), 281 - 51);
    assert_eq!(mg_value(&Piece::Knight, Color::Black, 57), -(337 - 21));
    assert_eq!(mg_value(&Piece::King, Color::White, 4), 8);
    assert_eq!(mg_value(&Piece::King, Color::Black, 60), -8);
    assert_eq!(eg_value(&Piece::King, Color::White, 4), -28);
    // the knight on b1 attacks a3, c3 and d2, all free
    let occupied = pl.white | pl.black;
    assert_eq!(piece_mobility_count(&Piece::Knight, occupied, 1), 3);
    assert_eq!(piece_mobility(&Piece::Knight, occupied, 1), (-4, -16));
    assert_eq!(game_phase_inc(&Piece::Knight), 1);
    // phase 1 of 24: one part middle game, 23 parts end game
    let mg = 337 - 21 - 4;
    let eg = 281 - 51 - 16;
    assert_eq!(score_board(&pl), (mg * 1 + eg * 23) / 24);
}

#[test]
fn mobility_counts_free_squares_only() {
    let pl = Position::initial().placement();
    let occupied = pl.white | pl.black;
    // at the start only the knights can move
    assert_eq!(piece_mobility_count(&Piece::Knight, occupied, 1), 2);
    assert_eq!(piece_mobility_count(&Piece::Bishop, occupied, 2), 0);
    assert_eq!(piece_mobility_count(&Piece::Rook, occupied, 0), 0);
    assert_eq!(piece_mobility_count(&Piece::Queen, occupied, 3), 0);
    assert_eq!(piece_mobility_count(&Piece::King, occupied, 4), 0);
    assert_eq!(piece_mobility_count(&Piece::Pawn, occupied, 8), 0);
    // on an empty board
    assert_eq!(piece_mobility_count(&Piece::Rook, 1 << 27, 27), 14);
    assert_eq!(piece_mobility_count(&Piece::Bishop, 1 << 27, 27), 13);
    assert_eq!(piece_mobility_count(&Piece::Queen, 1 << 27, 27), 27);
    assert_eq!(piece_mobility_count(&Piece::Knight, 1 << 27, 27), 8);
}

#[test]
fn mobility_bonus_reads_the_tables() {
    assert_eq!(mobility_bonus(&Piece::Knight, 0), (-62, -81));
    assert_eq!(mobility_bonus(&Piece::Knight, 8), (33, 25));
    assert_eq!(mobility_bonus(&Piece::Knight, 40), (33, 25));
    assert_eq!(mobility_bonus(&Piece::Bishop, 13), (98, 97));
    assert_eq!(mobility_bonus(&Piece::Rook, 14), (62, 172));
    assert_eq!(mobility_bonus(&Piece::Queen, 27), (116, 219));
    assert_eq!(mobility_bonus(&Piece::Pawn, 3), (0, 0));
    assert_eq!(mobility_bonus(&Piece::King, 3), (0, 0));
}

#[test]
fn blend_weighs_by_phase() {
    assert_eq!(blend_scores(240, 480, 24), 240);
    assert_eq!(blend_scores(240, 480, 30), 240);
    assert_eq!(blend_scores(240, 480, 0), 480);
    assert_eq!(blend_scores(240, 480, 12), 360);
    assert_eq!(blend_scores(-7, -7, 5), -7);
    assert_eq!(blend_scores(-10, 0, 1), 0);
    assert_eq!(blend_scores(10, 0, 1), 0);
}

#[test]
fn doubled_isolated_pawns_are_counted() {
    // white pawns on a2 and a3, black pawns on h7, g7
    let pl = Position::from_fen("4k3/6pp/8/8/8/P7/P7/4K3 w - - 0 1").unwrap().placement();
    let white_pawns = pl.pawns & pl.white;
    let black_pawns = pl.pawns & pl.black;
    assert_eq!(double_isolated(white_pawns, 8), 2);
    assert_eq!(double_isolated(white_pawns, 16), 2);
    assert_eq!(double_isolated(black_pawns, 55), 0);
    assert_eq!(double_isolated(1 << 28, 28), 1);
}

fn knight_leaps(sq: u8) -> u64 {
    let b = 1u64 << sq;
    ((b << 17) & 0xfefe_fefe_fefe_fefe)
        | ((b << 15) & 0x7f7f_7f7f_7f7f_7f7f)
        | ((b << 10) & 0xfcfc_fcfc_fcfc_fcfc)
        | ((b << 6) & 0x3f3f_3f3f_3f3f_3f3f)
        | ((b >> 17) & 0x7f7f_7f7f_7f7f_7f7f)
        | ((b >> 15) & 0xfefe_fefe_fefe_fefe)
        | ((b >> 10) & 0x3f3f_3f3f_3f3f_3f3f)
        | ((b >> 6) & 0xfcfc_fcfc_fcfc_fcfc)
}

#[test]
fn knights_attack_by_their_leaps() {
    for sq in 0..64u8 {
        let leaps = knight_leaps(sq);
        assert_eq!(chess::get_knight_moves(chess::ALL_SQUARES[sq as usize]).0, leaps);
        assert_eq!(piece_mobility_count(&Piece::Knight, 0, sq), leaps.count_ones());
        for d in 0..64u8 {
            // with every square but `d` taken, the knight's mobility tells whether it reaches `d`
            let free_at_d = piece_mobility_count(&Piece::Knight, !(1u64 << d), sq);
            let ranks = (d / 8).abs_diff(sq / 8);
            let files = (d % 8).abs_diff(sq % 8);
            let reaches = (ranks == 2 && files == 1) || (ranks == 1 && files == 2);
            assert_eq!(free_at_d == 1, reaches);
            assert_eq!(free_at_d, ((leaps >> d) & 1) as u32);
        }
    }
}

#[test]
fn boards_without_sliding_pieces_score_with_changed_sign() {
    let fens = [
        "4k3/pp3ppp/2n5/3N4/2P1n3/5N2/PP3PPP/4K3 w - - 0 1",
        "1n2k1n1/pppppppp/8/8/8/8/PPPPPPPP/1N2K1N1 w - - 0 1",
        "8/5k2/3n4/3P4/2P2N2/8/8/4K3 b - - 0 1",
    ];
    for fen in fens {
        let pl = Position::from_fen(fen).unwrap().placement();
        assert_eq!(pl.bishops | pl.rooks | pl.queens, 0);
        assert_eq!(score_board(&pl.mirrored()), -score_board(&pl));
    }
}
