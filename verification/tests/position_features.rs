use shogi_engine::bitboards::BitboardBoard;
use shogi_engine::evaluation::position_features::{PositionFeatureConfig, PositionFeatureEvaluator};
use shogi_engine::types::{CapturedPieces, Piece, PieceType, Player, Position};

#[test]
fn test_position_feature_evaluator_creation() {
    let evaluator = PositionFeatureEvaluator::new();
    assert!(evaluator.config().enable_king_safety);
}

#[test]
fn test_king_safety_evaluation() {
    let mut evaluator = PositionFeatureEvaluator::new();
    let board = BitboardBoard::new();
    let score = evaluator.evaluate_king_safety(&board, Player::Black);
    assert!(score.mg > 0 || score.eg > 0);
}

#[test]
fn test_pawn_structure_evaluation() {
    let mut evaluator = PositionFeatureEvaluator::new();
    let board = BitboardBoard::new();
    let score = evaluator.evaluate_pawn_structure(&board, Player::Black);
    assert!(score.mg >= 0);
}

#[test]
fn test_mobility_evaluation() {
    let mut evaluator = PositionFeatureEvaluator::new();
    let board = BitboardBoard::new();
    let captured_pieces = CapturedPieces::new();
    let score = evaluator.evaluate_mobility(&board, Player::Black, &captured_pieces);
    assert!(score.mg > 0);
    assert!(score.eg > 0);
    assert!(score.eg > score.mg);
}

#[test]
fn position_features_test_center_control_evaluation() {
    let mut evaluator = PositionFeatureEvaluator::new();
    let board = BitboardBoard::new();
    let score = evaluator.evaluate_center_control(&board, Player::Black);
    assert!(score.mg.abs() < 50);
}

#[test]
fn position_features_test_development_evaluation() {
    let mut evaluator = PositionFeatureEvaluator::new();
    let board = BitboardBoard::new();
    let score = evaluator.evaluate_development(&board, Player::Black);
    assert_eq!(score.mg, 0);
    assert_eq!(score.eg, 0);
}

#[test]
fn test_pawn_chain_detection() {
    let evaluator = PositionFeatureEvaluator::new();
    let pawns = vec![Position::new(3, 3), Position::new(3, 4)];
    let chains = evaluator.evaluate_pawn_chains(&pawns);
    assert_eq!(chains.mg, 18);
    assert_eq!(chains.eg, 12);
}

#[test]
fn test_pawn_advancement() {
    let evaluator = PositionFeatureEvaluator::new();
    let pawns = vec![Position::new(1, 4)];
    let advancement = evaluator.evaluate_pawn_advancement(&pawns, Player::Black);
    assert!(advancement.mg > 0);
    assert!(advancement.eg > advancement.mg);
}

#[test]
fn test_isolated_pawn_detection() {
    let board = BitboardBoard::empty();
    let evaluator = PositionFeatureEvaluator::new();
    let pawn_pos = Position::new(4, 4);
    assert!(evaluator.is_pawn_isolated(&board, pawn_pos, Player::Black));
}

#[test]
fn test_passed_pawn_detection() {
    let board = BitboardBoard::empty();
    let evaluator = PositionFeatureEvaluator::new();
    let pawn_pos = Position::new(4, 4);
    assert!(evaluator.is_passed_pawn(&board, pawn_pos, Player::Black));
}

#[test]
fn test_king_shield_evaluation() {
    let evaluator = PositionFeatureEvaluator::new();
    let board = BitboardBoard::new();
    let king_pos = evaluator.find_king_position(&board, Player::Black).unwrap();
    let shield = evaluator.evaluate_king_shield(&board, king_pos, Player::Black);
    assert!(shield.mg > 0);
}

#[test]
fn position_features_test_statistics_tracking() {
    let mut evaluator = PositionFeatureEvaluator::new();
    let board = BitboardBoard::new();
    let captured_pieces = CapturedPieces::new();
    assert_eq!(evaluator.stats().king_safety_evals, 0);
    assert_eq!(evaluator.stats().mobility_evals, 0);
    evaluator.evaluate_king_safety(&board, Player::Black);
    assert_eq!(evaluator.stats().king_safety_evals, 1);
    evaluator.evaluate_mobility(&board, Player::Black, &captured_pieces);
    assert_eq!(evaluator.stats().mobility_evals, 1);
}

#[test]
fn position_features_test_reset_statistics() {
    let mut evaluator = PositionFeatureEvaluator::new();
    let board = BitboardBoard::new();
    evaluator.evaluate_king_safety(&board, Player::Black);
    assert_eq!(evaluator.stats().king_safety_evals, 1);
    evaluator.reset_stats();
    assert_eq!(evaluator.stats().king_safety_evals, 0);
}

#[test]
fn position_features_test_config_options() {
    let config = PositionFeatureConfig {
        enable_king_safety: true,
        enable_pawn_structure: false,
        enable_mobility: true,
        enable_center_control: false,
        enable_development: true,
    };
    let evaluator = PositionFeatureEvaluator::with_config(config);
    assert!(evaluator.config().enable_king_safety);
    assert!(!evaluator.config().enable_pawn_structure);
}

#[test]
fn position_features_test_evaluation_consistency() {
    let mut evaluator = PositionFeatureEvaluator::new();
    let board = BitboardBoard::new();
    let captured_pieces = CapturedPieces::new();
    let score1 = evaluator.evaluate_mobility(&board, Player::Black, &captured_pieces);
    let score2 = evaluator.evaluate_mobility(&board, Player::Black, &captured_pieces);
    assert_eq!(score1.mg, score2.mg);
    assert_eq!(score1.eg, score2.eg);
}

#[test]
fn test_phase_differences() {
    let mut evaluator = PositionFeatureEvaluator::new();
    let board = BitboardBoard::new();
    let captured_pieces = CapturedPieces::new();
    let mobility = evaluator.evaluate_mobility(&board, Player::Black, &captured_pieces);
    assert!(mobility.eg > mobility.mg);
    let _center = evaluator.evaluate_center_control(&board, Player::Black);
    let _development = evaluator.evaluate_development(&board, Player::Black);
}

#[test]
fn test_doubled_pawns_penalty() {
    let evaluator = PositionFeatureEvaluator::new();
    let pawns = vec![Position::new(3, 4), Position::new(5, 4)];
    let doubled = evaluator.evaluate_doubled_pawns(&pawns);
    assert!(doubled.mg < 0);
    assert!(doubled.eg < 0);
    assert!(doubled.eg < doubled.mg);
}

#[test]
fn test_center_control_symmetry() {
    let mut evaluator = PositionFeatureEvaluator::new();
    let board = BitboardBoard::new();
    let black_score = evaluator.evaluate_center_control(&board, Player::Black);
    let white_score = evaluator.evaluate_center_control(&board, Player::White);
    assert_eq!(black_score.mg, -white_score.mg);
    assert_eq!(black_score.eg, -white_score.eg);
}

#[test]
fn test_king_position_finding() {
    let evaluator = PositionFeatureEvaluator::new();
    let board = BitboardBoard::new();
    let black_king = evaluator.find_king_position(&board, Player::Black);
    assert!(black_king.is_some());
    let white_king = evaluator.find_king_position(&board, Player::White);
    assert!(white_king.is_some());
}

#[test]
fn test_mobility_exact_start_position() {
    let mut evaluator = PositionFeatureEvaluator::new();
    let board = BitboardBoard::new();
    let captured_pieces = CapturedPieces::new();
    // Thirty legal moves in the starting position, none a capture.
    let score = evaluator.evaluate_mobility(&board, Player::Black, &captured_pieces);
    assert_eq!(score.mg, 60);
    assert_eq!(score.eg, 120);
}

#[test]
fn test_king_safety_exact_start_position() {
    let mut evaluator = PositionFeatureEvaluator::new();
    let board = BitboardBoard::new();
    // King on (8, 4): golds on both sides (40 each), three empty squares in front
    // (3 * 20 penalty), no pawn directly in front, no enemy piece within two squares.
    let score = evaluator.evaluate_king_safety(&board, Player::Black);
    assert_eq!(score.mg, 80 - 60);
    assert_eq!(score.eg, 40 - 30);
}

#[test]
fn test_pawn_structure_exact_values() {
    let evaluator = PositionFeatureEvaluator::new();
    let mut board = BitboardBoard::empty();
    board.place_piece(Piece::new(PieceType::Pawn, Player::Black), Position::new(4, 4));
    board.place_piece(Piece::new(PieceType::Pawn, Player::White), Position::new(2, 3));
    // The white pawn on an adjacent file ahead blocks: not passed.
    assert!(!evaluator.is_passed_pawn(&board, Position::new(4, 4), Player::Black));
    // A pawn already beyond the white pawn is not blocked by it.
    assert!(evaluator.is_passed_pawn(&board, Position::new(1, 4), Player::Black));
    let passed = evaluator.evaluate_passed_pawns(&board, &vec![Position::new(6, 0)], Player::Black);
    // Distance 8 - 6 = 2 from the back rank: 4 * 5 and 4 * 12.
    assert_eq!(passed.mg, 20);
    assert_eq!(passed.eg, 48);
}

#[test]
fn mobility_counts_each_legal_move() {
    let mut evaluator = PositionFeatureEvaluator::new();
    let board = BitboardBoard::new();
    let captured = CapturedPieces::new();
    let moves = shogi_engine::moves::MoveGenerator::new().generate_legal_moves(&board, Player::Black, &captured);
    let captures = moves.iter().filter(|m| m.is_capture).count() as i32;
    let score = evaluator.evaluate_mobility(&board, Player::Black, &captured);
    assert_eq!(score.mg, 2 * moves.len() as i32 + 3 * captures);
    assert_eq!(score.eg, 4 * moves.len() as i32 + 2 * captures);
    assert_eq!(moves.len(), 30);
}
