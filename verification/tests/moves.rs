use shogi_engine::bitboards::BitboardBoard;
use shogi_engine::moves::MoveGenerator;
use shogi_engine::types::{Move, Piece, PieceType, Player, Position};

#[test]
fn test_quiescence_move_sorting_total_order() {
    let move_generator = MoveGenerator::new();

    let mut test_moves = vec![
        Move {
            from: Some(Position { row: 1, col: 1 }),
            to: Position { row: 2, col: 1 },
            piece_type: PieceType::Pawn,
            player: Player::Black,
            is_capture: false,
            is_promotion: false,
            gives_check: false,
            is_recapture: false,
            captured_piece: None,
        },
        Move {
            from: Some(Position { row: 1, col: 2 }),
            to: Position { row: 2, col: 2 },
            piece_type: PieceType::Pawn,
            player: Player::Black,
            is_capture: true,
            is_promotion: false,
            gives_check: false,
            is_recapture: false,
            captured_piece: Some(Piece { piece_type: PieceType::Pawn, player: Player::White }),
        },
        Move {
            from: Some(Position { row: 1, col: 3 }),
            to: Position { row: 2, col: 3 },
            piece_type: PieceType::Pawn,
            player: Player::Black,
            is_capture: false,
            is_promotion: false,
            gives_check: true,
            is_recapture: false,
            captured_piece: None,
        },
    ];

    test_moves.sort_by(|a, b| move_generator.compare_quiescence_moves_simple(a, b));

    assert!(test_moves[0].gives_check, "Check move should be first");
    assert!(test_moves[1].is_capture, "Capture move should be second");
    assert!(!test_moves[2].is_capture && !test_moves[2].gives_check, "Non-capture move should be last");

    for i in 0..test_moves.len() {
        for j in 0..test_moves.len() {
            let cmp_ij = move_generator.compare_quiescence_moves_simple(&test_moves[i], &test_moves[j]);
            let cmp_ji = move_generator.compare_quiescence_moves_simple(&test_moves[j], &test_moves[i]);
            match (cmp_ij, cmp_ji) {
                (std::cmp::Ordering::Less, std::cmp::Ordering::Greater) => {}
                (std::cmp::Ordering::Greater, std::cmp::Ordering::Less) => {}
                (std::cmp::Ordering::Equal, std::cmp::Ordering::Equal) => {}
                _ => panic!("Comparison is not antisymmetric: {} vs {}", i, j),
            }
        }
    }
}

#[test]
fn test_white_pawn_promotion() {
    let fen = "lnsgkgsnl/1r5b1/ppppppppp/9/9/9/PPPPPP1PP/1B5R1/LNSGKGSNL w - 1";
    let (board, player, captured_pieces) = BitboardBoard::from_fen(fen).unwrap();
    let move_generator = MoveGenerator::new();
    let moves = move_generator.generate_legal_moves(&board, player, &captured_pieces);
    for m in &moves {
        if m.to_usi_string().contains("+") {
            assert!(m.to.is_in_promotion_zone(player) || m.from.unwrap().is_in_promotion_zone(player));
        }
    }
}

#[test]
fn sfen_start_position_matches_new_board() {
    let fen = "lnsgkgsnl/1r5b1/ppppppppp/9/9/9/PPPPPPPPP/1B5R1/LNSGKGSNL b - 1";
    let (board, player, captured) = BitboardBoard::from_fen(fen).unwrap();
    assert!(board == BitboardBoard::new());
    assert_eq!(player, Player::Black);
    assert!(captured.black.is_empty() && captured.white.is_empty());
}

#[test]
fn sfen_promoted_pieces_and_hands() {
    let fen = "8k/9/9/9/4+B4/9/9/9/K8 w 2Pr 10";
    let (board, player, captured) = BitboardBoard::from_fen(fen).unwrap();
    assert_eq!(player, Player::White);
    assert_eq!(board.get_piece(Position::new(4, 4)), Some(Piece::new(PieceType::PromotedBishop, Player::Black)));
    assert_eq!(board.get_piece(Position::new(0, 8)), Some(Piece::new(PieceType::King, Player::White)));
    assert_eq!(board.get_piece(Position::new(8, 0)), Some(Piece::new(PieceType::King, Player::Black)));
    assert_eq!(captured.black, vec![PieceType::Pawn, PieceType::Pawn]);
    assert_eq!(captured.white, vec![PieceType::Rook]);
}

#[test]
fn sfen_rejects_malformed_positions() {
    assert!(BitboardBoard::from_fen("9/9/9/9/9/9/9/9 b -").is_err());
    assert!(BitboardBoard::from_fen("9/9/9/9/9/9/9/9/8 b -").is_err());
    assert!(BitboardBoard::from_fen("9/9/9/9/9/9/9/9/9 x -").is_err());
    assert!(BitboardBoard::from_fen("9/9/9/9/9/9/9/9/9 b 3").is_err());
    assert!(BitboardBoard::from_fen("9/9/9/9/9/9/9/9/+G8 b -").is_err());
    assert!(BitboardBoard::from_fen("9/9/9/9/9/9/9/9/9 b").is_err());
    assert!(BitboardBoard::from_fen("9/9/9/9/9/9/9/9/9 b -").is_ok());
}

#[test]
fn move_usi_text() {
    let m = Move::new_move(Position::new(6, 2), Position::new(5, 2), PieceType::Pawn, Player::Black, false);
    assert_eq!(m.to_usi_string(), "7g7f");
    let p = Move::new_move(Position::new(2, 1), Position::new(1, 1), PieceType::Pawn, Player::Black, true);
    assert_eq!(p.to_usi_string(), "8c8b+");
    let d = Move::new_drop(PieceType::Silver, Position::new(4, 4), Player::White);
    assert_eq!(d.to_usi_string(), "S*5e");
}

#[test]
fn piece_moves_follow_rays_for_sliding_pieces() {
    let board = BitboardBoard::new();
    let moves = MoveGenerator::new().generate_all_piece_moves(&board, Player::Black);
    let rook_targets: Vec<(u8, u8)> = moves
        .iter()
        .filter(|m| m.piece_type == PieceType::Rook)
        .map(|m| (m.to.row, m.to.col))
        .collect();
    assert_eq!(rook_targets, vec![(7, 8), (7, 6), (7, 5), (7, 4), (7, 3), (7, 2)]);
    let origins: Vec<u8> = moves.iter().map(|m| m.from.unwrap().row * 9 + m.from.unwrap().col).collect();
    let mut sorted = origins.clone();
    sorted.sort();
    assert_eq!(origins, sorted);
    assert_eq!(moves.len(), 30);
}

#[test]
fn promoting_moves_touch_the_promotion_zone() {
    let fen = "4k4/9/9/9/9/4p4/9/9/4K4 w - 1";
    let (board, player, captured) = BitboardBoard::from_fen(fen).unwrap();
    let moves = MoveGenerator::new().generate_legal_moves(&board, player, &captured);
    let promoting: Vec<&Move> = moves.iter().filter(|m| m.is_promotion).collect();
    assert_eq!(promoting.len(), 1);
    for m in moves.iter() {
        assert_eq!(m.player, Player::White);
        if m.to_usi_string().contains("+") {
            let zone = player.opposite();
            assert!(m.to.is_in_promotion_zone(zone) || m.from.unwrap().is_in_promotion_zone(zone));
        }
    }
}
