use shogi_engine::bitboards::BitboardBoard;
use shogi_engine::evaluation::opening_principles::{OpeningPrincipleConfig, OpeningPrincipleEvaluator};
use shogi_engine::types::{Piece, PieceType, Player, Position};

#[test]
fn test_opening_evaluator_creation() {
    let evaluator = OpeningPrincipleEvaluator::new();
    assert!(evaluator.config.enable_development);
}

#[test]
fn opening_principles_test_development_evaluation() {
    let evaluator = OpeningPrincipleEvaluator::new();
    let board = BitboardBoard::new();
    let score = evaluator.evaluate_development(&board, Player::Black, 5);
    assert_eq!(score.mg, 0);
}

#[test]
fn test_center_control_opening() {
    let evaluator = OpeningPrincipleEvaluator::new();
    let board = BitboardBoard::new();
    let score = evaluator.evaluate_center_control_opening(&board, Player::Black);
    assert!(score.mg.abs() < 50);
}

#[test]
fn test_castle_formation() {
    let evaluator = OpeningPrincipleEvaluator::new();
    let board = BitboardBoard::new();
    let score = evaluator.evaluate_castle_formation(&board, Player::Black);
    assert!(score.mg > 0);
}

#[test]
fn test_tempo_evaluation() {
    let evaluator = OpeningPrincipleEvaluator::new();
    let board = BitboardBoard::new();
    let score = evaluator.evaluate_tempo(&board, Player::Black, 5);
    assert!(score.mg >= 10);
}

#[test]
fn test_opening_penalties() {
    let evaluator = OpeningPrincipleEvaluator::new();
    let board = BitboardBoard::new();
    let score = evaluator.evaluate_opening_penalties(&board, Player::Black, 5);
    assert!(score.mg >= -50);
}

#[test]
fn test_count_developed_pieces() {
    let evaluator = OpeningPrincipleEvaluator::new();
    let board = BitboardBoard::new();
    let count = evaluator.count_developed_pieces(&board, Player::Black);
    assert_eq!(count, 0);
}

#[test]
fn test_is_castle_position() {
    let evaluator = OpeningPrincipleEvaluator::new();
    assert!(evaluator.is_castle_position(Position::new(8, 1), Player::Black));
    assert!(evaluator.is_castle_position(Position::new(7, 7), Player::Black));
    assert!(!evaluator.is_castle_position(Position::new(4, 4), Player::Black));
}

#[test]
fn test_opening_center_values() {
    let evaluator = OpeningPrincipleEvaluator::new();
    assert_eq!(evaluator.get_opening_center_value(PieceType::Bishop), 40);
    assert_eq!(evaluator.get_opening_center_value(PieceType::Knight), 35);
    assert_eq!(evaluator.get_opening_center_value(PieceType::Pawn), 20);
}

#[test]
fn test_complete_opening_evaluation() {
    let mut evaluator = OpeningPrincipleEvaluator::new();
    let board = BitboardBoard::new();
    let score = evaluator.evaluate_opening(&board, Player::Black, 5);
    assert!(score.mg > 0);
}

#[test]
fn opening_principles_test_statistics() {
    let mut evaluator = OpeningPrincipleEvaluator::new();
    let board = BitboardBoard::new();
    assert_eq!(evaluator.stats().evaluations, 0);
    evaluator.evaluate_opening(&board, Player::Black, 5);
    assert_eq!(evaluator.stats().evaluations, 1);
}

#[test]
fn opening_principles_test_config_options() {
    let config = OpeningPrincipleConfig {
        enable_development: true,
        enable_center_control: false,
        enable_castle_formation: true,
        enable_tempo: false,
        enable_opening_penalties: true,
    };
    let evaluator = OpeningPrincipleEvaluator::with_config(config);
    assert!(evaluator.config.enable_development);
    assert!(!evaluator.config.enable_center_control);
}

#[test]
fn opening_principles_test_evaluation_consistency() {
    let mut evaluator = OpeningPrincipleEvaluator::new();
    let board = BitboardBoard::new();
    let score1 = evaluator.evaluate_opening(&board, Player::Black, 5);
    let score2 = evaluator.evaluate_opening(&board, Player::Black, 5);
    assert_eq!(score1.mg, score2.mg);
    assert_eq!(score1.eg, score2.eg);
}

#[test]
fn test_move_count_effects() {
    let mut evaluator = OpeningPrincipleEvaluator::new();
    let board = BitboardBoard::new();
    let early_score = evaluator.evaluate_opening(&board, Player::Black, 5);
    let late_score = evaluator.evaluate_opening(&board, Player::Black, 20);
    assert!(early_score.mg >= 0);
    assert!(late_score.mg >= 0);
}

#[test]
fn test_major_vs_minor_development() {
    let evaluator = OpeningPrincipleEvaluator::new();
    let board = BitboardBoard::new();
    let major = evaluator.evaluate_major_piece_development(&board, Player::Black);
    let minor = evaluator.evaluate_minor_piece_development(&board, Player::Black);
    assert_eq!(major.mg, 0);
    assert_eq!(minor.mg, 0);
}

#[test]
fn test_opening_exact_start_position_values() {
    let mut evaluator = OpeningPrincipleEvaluator::new();
    let board = BitboardBoard::new();
    // Castle: golds 2 * 25 + silvers 2 * 22, no pawn directly in front of the king.
    let castle = evaluator.evaluate_castle_formation(&board, Player::Black);
    assert_eq!(castle.mg, 94);
    assert_eq!(castle.eg, 23);
    // Tempo: the base bonus only.
    let tempo = evaluator.evaluate_tempo(&board, Player::Black, 5);
    assert_eq!(tempo.mg, 10);
    assert_eq!(tempo.eg, 2);
    // Whole evaluation at move 5: 0 + 0 + 94 + 10 + 0.
    let total = evaluator.evaluate_opening(&board, Player::Black, 5);
    assert_eq!(total.mg, 104);
    assert_eq!(total.eg, 25);
}

#[test]
fn test_opening_developed_pieces_and_penalties() {
    let evaluator = OpeningPrincipleEvaluator::new();
    let mut board = BitboardBoard::new();
    // Move Black's rook from (7, 7) up to (5, 7).
    board.remove_piece(Position::new(7, 7));
    board.place_piece(Piece::new(PieceType::Rook, Player::Black), Position::new(5, 7));
    assert_eq!(evaluator.count_developed_pieces(&board, Player::Black), 1);
    let major = evaluator.evaluate_major_piece_development(&board, Player::Black);
    assert_eq!(major.mg, 35);
    assert_eq!(major.eg, 8);
    // Undeveloped bishop at move 6 costs 25.
    let penalties = evaluator.evaluate_opening_penalties(&board, Player::Black, 6);
    assert_eq!(penalties.mg, -25);
    assert_eq!(penalties.eg, -5);
    // King stepping forward out of the corner costs 40 more.
    board.remove_piece(Position::new(8, 4));
    board.place_piece(Piece::new(PieceType::King, Player::Black), Position::new(7, 4));
    let penalties = evaluator.evaluate_opening_penalties(&board, Player::Black, 6);
    assert_eq!(penalties.mg, -65);
    assert_eq!(penalties.eg, -13);
}

#[test]
fn test_opening_center_control_signs() {
    let evaluator = OpeningPrincipleEvaluator::new();
    let mut board = BitboardBoard::empty();
    board.place_piece(Piece::new(PieceType::Bishop, Player::Black), Position::new(4, 4));
    board.place_piece(Piece::new(PieceType::Knight, Player::White), Position::new(3, 3));
    let score = evaluator.evaluate_center_control_opening(&board, Player::Black);
    // 40 for the bishop in the middle, minus 35 * 2 / 3 = 23 for the knight next to it.
    assert_eq!(score.mg, 40 - 23);
    assert_eq!(score.eg, 13 - 7);
}
