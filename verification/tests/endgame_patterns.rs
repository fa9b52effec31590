use shogi_engine::bitboards::BitboardBoard;
use shogi_engine::evaluation::endgame_patterns::{EndgamePatternConfig, EndgamePatternEvaluator};
use shogi_engine::types::{CapturedPieces, Piece, PieceType, Player, Position};

fn put(board: &mut BitboardBoard, pt: PieceType, player: Player, row: u8, col: u8) {
    board.place_piece(Piece::new(pt, player), Position::new(row, col));
}

#[test]
fn test_endgame_evaluator_creation() {
    let evaluator = EndgamePatternEvaluator::new();
    assert!(evaluator.config().enable_king_activity);
}

#[test]
fn test_king_activity() {
    let mut evaluator = EndgamePatternEvaluator::new();
    let board = BitboardBoard::new();
    let score = evaluator.evaluate_king_activity(&board, Player::Black);
    assert!(score.eg >= 0);
}

#[test]
fn test_opposition_with_pawn_count() {
    let mut evaluator = EndgamePatternEvaluator::new();
    let board = BitboardBoard::new();
    let score = evaluator.evaluate_opposition(&board, Player::Black);
    assert!(score.eg >= 0 && score.eg <= 40);
}

#[test]
fn test_triangulation_opponent_mobility() {
    let mut evaluator = EndgamePatternEvaluator::new();
    let board = BitboardBoard::empty();
    let score = evaluator.evaluate_triangulation(&board, Player::Black);
    assert!(score.eg >= 0 && score.eg <= 25);
}

#[test]
fn test_king_activity_safety_check() {
    let mut evaluator = EndgamePatternEvaluator::new();
    let board = BitboardBoard::new();
    let score = evaluator.evaluate_king_activity(&board, Player::Black);
    assert!(score.mg >= -100 && score.mg <= 100);
    assert!(score.eg >= -100 && score.eg <= 100);
}

#[test]
fn test_count_pawns_on_board() {
    let evaluator = EndgamePatternEvaluator::new();
    let board = BitboardBoard::new();
    assert_eq!(evaluator.count_pawns_on_board(&board), 18);
}

#[test]
fn test_king_activity_bonus_scaling() {
    let mut config = EndgamePatternConfig::default();
    config.king_activity_centralization_scale = 500;
    config.king_activity_activity_scale = 500;
    config.king_activity_advancement_scale = 500;
    let mut evaluator = EndgamePatternEvaluator::with_config(config);
    let board = BitboardBoard::new();
    let score = evaluator.evaluate_king_activity(&board, Player::Black);
    assert!(score.eg >= -100 && score.eg <= 100);
}

#[test]
fn test_pattern_detection_statistics() {
    let mut evaluator = EndgamePatternEvaluator::new();
    let board = BitboardBoard::new();
    assert_eq!(evaluator.stats().opposition_detections, 0);
    assert_eq!(evaluator.stats().triangulation_detections, 0);
    assert_eq!(evaluator.stats().unsafe_king_penalties, 0);
    evaluator.evaluate_opposition(&board, Player::Black);
    evaluator.evaluate_triangulation(&board, Player::Black);
    evaluator.evaluate_king_activity(&board, Player::Black);
    // The starting position shows none of these patterns.
    assert_eq!(evaluator.stats().opposition_detections, 0);
    assert_eq!(evaluator.stats().triangulation_detections, 0);
    assert_eq!(evaluator.stats().unsafe_king_penalties, 0);
}

#[test]
fn test_distance_to_center() {
    let evaluator = EndgamePatternEvaluator::new();
    assert_eq!(evaluator.distance_to_center(Position::new(4, 4)), 0);
    assert_eq!(evaluator.distance_to_center(Position::new(0, 0)), 8);
    assert_eq!(evaluator.distance_to_center(Position::new(4, 0)), 4);
}

#[test]
fn test_manhattan_distance() {
    let evaluator = EndgamePatternEvaluator::new();
    assert_eq!(evaluator.manhattan_distance(Position::new(0, 0), Position::new(3, 4)), 7);
}

#[test]
fn test_passed_pawn_endgame() {
    let evaluator = EndgamePatternEvaluator::new();
    let board = BitboardBoard::empty();
    let score = evaluator.evaluate_passed_pawns_endgame(&board, Player::Black);
    assert_eq!(score.mg, 0);
    assert_eq!(score.eg, 0);
}

#[test]
fn test_piece_coordination() {
    let evaluator = EndgamePatternEvaluator::new();
    let board = BitboardBoard::new();
    let score = evaluator.evaluate_piece_coordination(&board, Player::Black);
    assert!(score.mg >= 0);
}

#[test]
fn test_mating_patterns() {
    let evaluator = EndgamePatternEvaluator::new();
    let board = BitboardBoard::new();
    let captured_pieces = CapturedPieces::new();
    let score = evaluator.evaluate_mating_patterns(&board, Player::Black, &captured_pieces);
    assert_eq!(score.mg, 0);
}

#[test]
fn endgame_major_piece_activity_values() {
    let evaluator = EndgamePatternEvaluator::new();
    // In the starting position the bishop of Black stands on a long diagonal.
    let score = evaluator.evaluate_major_piece_activity(&BitboardBoard::new(), Player::Black);
    assert_eq!((score.mg, score.eg), (20, 40));
    let mut board = BitboardBoard::empty();
    put(&mut board, PieceType::Rook, Player::Black, 1, 3);
    put(&mut board, PieceType::PromotedBishop, Player::Black, 4, 5);
    let score = evaluator.evaluate_major_piece_activity(&board, Player::Black);
    assert_eq!((score.mg, score.eg), (25 + 15, 50 + 30));
}

#[test]
fn test_find_pieces() {
    let evaluator = EndgamePatternEvaluator::new();
    let board = BitboardBoard::new();
    assert_eq!(evaluator.find_pieces(&board, Player::Black, PieceType::Rook).len(), 1);
    assert_eq!(evaluator.find_pieces(&board, Player::Black, PieceType::Bishop).len(), 1);
}

#[test]
fn test_is_centralized() {
    let evaluator = EndgamePatternEvaluator::new();
    assert!(evaluator.is_centralized(Position::new(4, 4)));
    assert!(evaluator.is_centralized(Position::new(3, 5)));
    assert!(!evaluator.is_centralized(Position::new(0, 0)));
    assert!(!evaluator.is_centralized(Position::new(8, 8)));
}

#[test]
fn test_statistics() {
    let mut evaluator = EndgamePatternEvaluator::new();
    let board = BitboardBoard::new();
    let captured_pieces = CapturedPieces::new();
    assert_eq!(evaluator.stats().evaluations, 0);
    evaluator.evaluate_endgame(&board, Player::Black, &captured_pieces);
    assert_eq!(evaluator.stats().evaluations, 1);
}

#[test]
fn test_config_options() {
    let config = EndgamePatternConfig {
        enable_king_activity: true,
        enable_passed_pawns: false,
        enable_piece_coordination: true,
        enable_mating_patterns: false,
        enable_major_piece_activity: true,
        ..EndgamePatternConfig::default()
    };
    let evaluator = EndgamePatternEvaluator::with_config(config);
    assert!(evaluator.config().enable_king_activity);
    assert!(!evaluator.config().enable_passed_pawns);
}

#[test]
fn test_endgame_evaluation_consistency() {
    let mut evaluator = EndgamePatternEvaluator::new();
    let board = BitboardBoard::new();
    let captured_pieces = CapturedPieces::new();
    let score1 = evaluator.evaluate_endgame(&board, Player::Black, &captured_pieces);
    let score2 = evaluator.evaluate_endgame(&board, Player::Black, &captured_pieces);
    assert_eq!(score1.mg, score2.mg);
    assert_eq!(score1.eg, score2.eg);
}

#[test]
fn test_escape_squares() {
    let evaluator = EndgamePatternEvaluator::new();
    let board = BitboardBoard::empty();
    assert_eq!(evaluator.count_escape_squares(&board, Position::new(4, 4), Player::Black), 8);
    assert_eq!(evaluator.count_escape_squares(&board, Position::new(0, 0), Player::Black), 3);
}

#[test]
fn test_count_safe_moves_basic() {
    let evaluator = EndgamePatternEvaluator::new();
    let board = BitboardBoard::new();
    let captured_pieces = CapturedPieces::new();
    let (regular, drops) = evaluator.count_safe_moves(&board, Player::Black, &captured_pieces);
    assert!(regular > 0, "Starting position should have regular moves");
    assert_eq!(drops, 0, "Starting position should have no drop moves (no captured pieces)");
}

#[test]
fn test_count_safe_moves_with_drops() {
    let evaluator = EndgamePatternEvaluator::new();
    let board = BitboardBoard::empty();
    let mut captured_pieces = CapturedPieces::new();
    captured_pieces.add_piece(PieceType::Pawn, Player::Black);
    captured_pieces.add_piece(PieceType::Rook, Player::Black);
    let (_regular, drops) = evaluator.count_safe_moves(&board, Player::Black, &captured_pieces);
    assert!(drops > 0, "Should have drop moves when pieces are captured");
}

#[test]
fn test_zugzwang_detection_known_positions() {
    let mut evaluator = EndgamePatternEvaluator::new();
    let board = BitboardBoard::new();
    let captured_pieces = CapturedPieces::new();
    let score = evaluator.evaluate_zugzwang(&board, Player::Black, &captured_pieces);
    assert_eq!(score.mg, 0);
}

#[test]
fn test_zugzwang_drop_consideration() {
    let mut config = EndgamePatternConfig::default();
    config.enable_zugzwang_drop_consideration = false;
    let mut evaluator = EndgamePatternEvaluator::with_config(config);
    let board = BitboardBoard::new();
    let captured_pieces = CapturedPieces::new();
    let score = evaluator.evaluate_zugzwang(&board, Player::Black, &captured_pieces);
    assert!(score.eg >= -60 && score.eg <= 80);
}

#[test]
fn test_zugzwang_statistics() {
    let mut evaluator = EndgamePatternEvaluator::new();
    let board = BitboardBoard::new();
    let captured_pieces = CapturedPieces::new();
    assert_eq!(evaluator.stats().zugzwang_detections, 0);
    assert_eq!(evaluator.stats().zugzwang_benefits, 0);
    assert_eq!(evaluator.stats().zugzwang_penalties, 0);
    evaluator.evaluate_zugzwang(&board, Player::Black, &captured_pieces);
    // Both sides have many moves in the starting position.
    assert_eq!(evaluator.stats().zugzwang_detections, 0);
}

#[test]
fn endgame_king_activity_exact_values() {
    let mut board = BitboardBoard::empty();
    put(&mut board, PieceType::King, Player::Black, 4, 4);
    let mut evaluator = EndgamePatternEvaluator::new();
    let score = evaluator.evaluate_king_activity(&board, Player::Black);
    assert_eq!((score.mg, score.eg), (25, 120));

    let mut config = EndgamePatternConfig::default();
    config.king_activity_centralization_scale = 500;
    config.king_activity_activity_scale = 500;
    config.king_activity_advancement_scale = 500;
    let mut halved = EndgamePatternEvaluator::with_config(config);
    let score = halved.evaluate_king_activity(&board, Player::Black);
    assert_eq!((score.mg, score.eg), (17, 59));

    // An attacked advanced king: advancement bonus halved and a penalty of 20.
    put(&mut board, PieceType::Rook, Player::White, 4, 0);
    let score = evaluator.evaluate_king_activity(&board, Player::Black);
    assert_eq!((score.mg, score.eg), (25, 60 + 25 + 17 - 20));
    assert_eq!(evaluator.stats().unsafe_king_penalties, 1);
}

#[test]
fn endgame_passed_pawn_exact_values() {
    let mut board = BitboardBoard::empty();
    put(&mut board, PieceType::Pawn, Player::Black, 3, 4);
    put(&mut board, PieceType::King, Player::Black, 4, 4);
    put(&mut board, PieceType::King, Player::White, 0, 0);
    let evaluator = EndgamePatternEvaluator::new();
    let score = evaluator.evaluate_passed_pawns_endgame(&board, Player::Black);
    assert_eq!((score.mg, score.eg), (200, 590));
    // An opposing pawn ahead on a neighbouring file stops it being passed.
    put(&mut board, PieceType::Pawn, Player::White, 1, 5);
    assert!(!evaluator.is_passed_pawn(&board, Position::new(3, 4), Player::Black));
    let score = evaluator.evaluate_passed_pawns_endgame(&board, Player::Black);
    assert_eq!((score.mg, score.eg), (0, 0));
}

#[test]
fn endgame_opposition_and_fortress_values() {
    let mut board = BitboardBoard::empty();
    put(&mut board, PieceType::King, Player::Black, 4, 4);
    put(&mut board, PieceType::King, Player::White, 2, 4);
    let mut evaluator = EndgamePatternEvaluator::new();
    let score = evaluator.evaluate_opposition(&board, Player::Black);
    assert_eq!((score.mg, score.eg), (0, 40));
    assert_eq!(evaluator.stats().opposition_detections, 1);

    let mut fort = BitboardBoard::empty();
    put(&mut fort, PieceType::King, Player::Black, 8, 8);
    put(&mut fort, PieceType::Gold, Player::Black, 8, 7);
    put(&mut fort, PieceType::Silver, Player::Black, 7, 8);
    put(&mut fort, PieceType::King, Player::White, 0, 0);
    put(&mut fort, PieceType::Rook, Player::White, 0, 1);
    put(&mut fort, PieceType::Bishop, Player::White, 0, 2);
    assert_eq!(evaluator.count_defenders_near_king(&fort, Position::new(8, 8), Player::Black), 4);
    assert_eq!(evaluator.get_material_difference(&fort, Player::Black), -850);
    assert_eq!(evaluator.evaluate_fortress(&fort, Player::Black).eg, 120);
}

#[test]
fn endgame_piece_vs_pawns_and_mating_values() {
    let mut board = BitboardBoard::empty();
    put(&mut board, PieceType::Rook, Player::Black, 5, 4);
    put(&mut board, PieceType::Pawn, Player::White, 2, 0);
    put(&mut board, PieceType::King, Player::White, 0, 4);
    let evaluator = EndgamePatternEvaluator::new();
    assert_eq!(evaluator.evaluate_piece_vs_pawns(&board, Player::Black).eg, 100);
    assert!(evaluator.detect_ladder_mate_pattern(&board, Player::Black));
    assert!(!evaluator.detect_back_rank_mate_threat(&board, Player::White));
    assert!(!evaluator.detect_bishop_rook_mating_net(&board, Player::Black));
    let captured_pieces = CapturedPieces::new();
    let score = evaluator.evaluate_mating_patterns(&board, Player::Black, &captured_pieces);
    assert_eq!((score.mg, score.eg), (0, 80));
}

#[test]
fn endgame_all_patterns_disabled_scores_nothing() {
    let config = EndgamePatternConfig {
        enable_king_activity: false,
        enable_passed_pawns: false,
        enable_piece_coordination: false,
        enable_mating_patterns: false,
        enable_major_piece_activity: false,
        enable_zugzwang: false,
        enable_opposition: false,
        enable_triangulation: false,
        enable_piece_vs_pawns: false,
        enable_fortress: false,
        ..EndgamePatternConfig::default()
    };
    let mut evaluator = EndgamePatternEvaluator::with_config(config);
    let board = BitboardBoard::new();
    let score = evaluator.evaluate_endgame(&board, Player::Black, &CapturedPieces::new());
    assert_eq!((score.mg, score.eg), (0, 0));
    assert_eq!(evaluator.stats().evaluations, 1);
}
