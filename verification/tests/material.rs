use shogi_engine::bitboards::BitboardBoard;
use shogi_engine::evaluation::material::{MaterialEvaluationConfig, MaterialEvaluator};
use shogi_engine::types::{CapturedPieces, Piece, PieceType, Player, Position};

#[test]
fn test_material_evaluator_creation() {
    let evaluator = MaterialEvaluator::new();
    assert!(evaluator.config().include_hand_pieces);
}

#[test]
fn test_material_evaluator_with_config() {
    let config = MaterialEvaluationConfig { include_hand_pieces: false, use_research_values: false };
    let evaluator = MaterialEvaluator::with_config(config);
    assert!(!evaluator.config().include_hand_pieces);
    assert_eq!(evaluator.value_set().id, "classic");
}

#[test]
fn test_piece_values_basic() {
    let evaluator = MaterialEvaluator::new();
    let pawn = evaluator.get_piece_value(PieceType::Pawn);
    assert_eq!(pawn.mg, 100);
    assert_eq!(pawn.eg, 120);
    let rook = evaluator.get_piece_value(PieceType::Rook);
    assert_eq!(rook.mg, 1000);
    assert_eq!(rook.eg, 1100);
    let king = evaluator.get_piece_value(PieceType::King);
    assert_eq!(king.mg, 20000);
    assert_eq!(king.eg, 20000);
}

#[test]
fn test_piece_values_promoted() {
    let evaluator = MaterialEvaluator::new();
    let promoted_pawn = evaluator.get_piece_value(PieceType::PromotedPawn);
    assert_eq!(promoted_pawn.mg, 500);
    assert_eq!(promoted_pawn.eg, 550);
    let promoted_rook = evaluator.get_piece_value(PieceType::PromotedRook);
    assert_eq!(promoted_rook.mg, 1400);
    assert_eq!(promoted_rook.eg, 1550);
}

#[test]
fn test_hand_piece_values() {
    let evaluator = MaterialEvaluator::new();
    let board_pawn = evaluator.get_piece_value(PieceType::Pawn);
    let hand_pawn = evaluator.get_hand_piece_value(PieceType::Pawn);
    assert!(hand_pawn.mg > board_pawn.mg);
    assert!(hand_pawn.eg > board_pawn.eg);
    let hand_promoted = evaluator.get_hand_piece_value(PieceType::PromotedPawn);
    let board_promoted = evaluator.get_piece_value(PieceType::PromotedPawn);
    assert_eq!(hand_promoted, board_promoted);
}

#[test]
fn test_evaluate_starting_position() {
    let mut evaluator = MaterialEvaluator::new();
    let board = BitboardBoard::new();
    let captured_pieces = CapturedPieces::new();
    let black_score = evaluator.evaluate_material(&board, Player::Black, &captured_pieces);
    assert_eq!(black_score.mg, 0);
    assert_eq!(black_score.eg, 0);
    let white_score = evaluator.evaluate_material(&board, Player::White, &captured_pieces);
    assert_eq!(white_score.mg, 0);
    assert_eq!(white_score.eg, 0);
}

#[test]
fn test_evaluate_with_captures() {
    let mut evaluator = MaterialEvaluator::new();
    let board = BitboardBoard::new();
    let mut captured_pieces = CapturedPieces::new();
    captured_pieces.add_piece(PieceType::Pawn, Player::Black);
    let score = evaluator.evaluate_material(&board, Player::Black, &captured_pieces);
    let hand_pawn_value = evaluator.get_hand_piece_value(PieceType::Pawn);
    assert_eq!(score.mg, hand_pawn_value.mg);
    assert_eq!(score.eg, hand_pawn_value.eg);
}

#[test]
fn test_evaluate_without_hand_pieces() {
    let config = MaterialEvaluationConfig { include_hand_pieces: false, use_research_values: true };
    let mut evaluator = MaterialEvaluator::with_config(config);
    let board = BitboardBoard::new();
    let mut captured_pieces = CapturedPieces::new();
    captured_pieces.add_piece(PieceType::Pawn, Player::Black);
    let score = evaluator.evaluate_material(&board, Player::Black, &captured_pieces);
    assert_eq!(score.mg, 0);
    assert_eq!(score.eg, 0);
}

#[test]
fn test_material_balance() {
    let mut evaluator = MaterialEvaluator::new();
    let board = BitboardBoard::new();
    let captured_pieces = CapturedPieces::new();
    let balance = evaluator.calculate_material_balance(&board, &captured_pieces, Player::Black);
    assert_eq!(balance.mg, 0);
    assert_eq!(balance.eg, 0);
}

#[test]
fn test_value_sets_change_piece_values() {
    let research_eval = MaterialEvaluator::new();
    let classic_eval = MaterialEvaluator::with_config(MaterialEvaluationConfig {
        include_hand_pieces: true,
        use_research_values: false,
    });
    let research_rook = research_eval.get_piece_value(PieceType::Rook);
    let classic_rook = classic_eval.get_piece_value(PieceType::Rook);
    assert_ne!((research_rook.mg, research_rook.eg), (classic_rook.mg, classic_rook.eg));
}

#[test]
fn test_value_set_toggle_affects_evaluation() {
    let mut board = BitboardBoard::empty();
    let position = Position::new(4, 4);
    board.place_piece(Piece::new(PieceType::Rook, Player::Black), position);
    let config_research = MaterialEvaluationConfig { include_hand_pieces: true, use_research_values: true };
    let config_classic = MaterialEvaluationConfig { include_hand_pieces: true, use_research_values: false };
    let mut research_eval = MaterialEvaluator::with_config(config_research);
    let mut classic_eval = MaterialEvaluator::with_config(config_classic);
    let captured = CapturedPieces::new();
    let research_score = research_eval.evaluate_material(&board, Player::Black, &captured);
    let classic_score = classic_eval.evaluate_material(&board, Player::Black, &captured);
    assert_ne!((research_score.mg, research_score.eg), (classic_score.mg, classic_score.eg));
}

#[test]
fn test_count_total_material() {
    let evaluator = MaterialEvaluator::new();
    let board = BitboardBoard::new();
    let total = evaluator.count_total_material(&board);
    assert!(total > 10000);
}

#[test]
fn test_count_material_by_type() {
    let evaluator = MaterialEvaluator::new();
    let board = BitboardBoard::new();
    let pawn_count = evaluator.count_material_by_type(&board, PieceType::Pawn, Player::Black);
    assert_eq!(pawn_count, 9);
    let king_count = evaluator.count_material_by_type(&board, PieceType::King, Player::Black);
    assert_eq!(king_count, 1);
    let rook_count = evaluator.count_material_by_type(&board, PieceType::Rook, Player::Black);
    assert_eq!(rook_count, 1);
}

#[test]
fn test_endgame_values_higher() {
    let evaluator = MaterialEvaluator::new();
    let rook = evaluator.get_piece_value(PieceType::Rook);
    assert!(rook.eg > rook.mg, "Rook should be more valuable in endgame");
    let bishop = evaluator.get_piece_value(PieceType::Bishop);
    assert!(bishop.eg > bishop.mg, "Bishop should be more valuable in endgame");
    let pawn = evaluator.get_piece_value(PieceType::Pawn);
    assert!(pawn.eg > pawn.mg, "Pawn should be more valuable in endgame");
}

#[test]
fn test_promoted_pieces_more_valuable() {
    let evaluator = MaterialEvaluator::new();
    let pawn = evaluator.get_piece_value(PieceType::Pawn);
    let promoted_pawn = evaluator.get_piece_value(PieceType::PromotedPawn);
    assert!(promoted_pawn.mg > pawn.mg);
    assert!(promoted_pawn.eg > pawn.eg);
    let rook = evaluator.get_piece_value(PieceType::Rook);
    let promoted_rook = evaluator.get_piece_value(PieceType::PromotedRook);
    assert!(promoted_rook.mg > rook.mg);
    assert!(promoted_rook.eg > rook.eg);
}

#[test]
fn material_test_statistics_tracking() {
    let mut evaluator = MaterialEvaluator::new();
    let board = BitboardBoard::new();
    let captured_pieces = CapturedPieces::new();
    assert_eq!(evaluator.stats().evaluations, 0);
    evaluator.evaluate_material(&board, Player::Black, &captured_pieces);
    assert_eq!(evaluator.stats().evaluations, 1);
    evaluator.evaluate_material(&board, Player::White, &captured_pieces);
    assert_eq!(evaluator.stats().evaluations, 2);
}

#[test]
fn material_test_reset_statistics() {
    let mut evaluator = MaterialEvaluator::new();
    let board = BitboardBoard::new();
    let captured_pieces = CapturedPieces::new();
    evaluator.evaluate_material(&board, Player::Black, &captured_pieces);
    assert_eq!(evaluator.stats().evaluations, 1);
    evaluator.reset_stats();
    assert_eq!(evaluator.stats().evaluations, 0);
}

#[test]
fn material_test_evaluation_consistency() {
    let mut evaluator = MaterialEvaluator::new();
    let board = BitboardBoard::new();
    let captured_pieces = CapturedPieces::new();
    let score1 = evaluator.evaluate_material(&board, Player::Black, &captured_pieces);
    let score2 = evaluator.evaluate_material(&board, Player::Black, &captured_pieces);
    assert_eq!(score1.mg, score2.mg);
    assert_eq!(score1.eg, score2.eg);
}

#[test]
fn test_symmetry() {
    let mut evaluator = MaterialEvaluator::new();
    let board = BitboardBoard::new();
    let captured_pieces = CapturedPieces::new();
    let black_score = evaluator.evaluate_material(&board, Player::Black, &captured_pieces);
    let white_score = evaluator.evaluate_material(&board, Player::White, &captured_pieces);
    assert_eq!(black_score.mg, -white_score.mg);
    assert_eq!(black_score.eg, -white_score.eg);
}

// Symmetry law on an uneven position: a rook and a hand pawn for Black.
#[test]
fn material_symmetry_on_uneven_position() {
    let mut evaluator = MaterialEvaluator::new();
    let mut board = BitboardBoard::empty();
    board.place_piece(Piece::new(PieceType::Rook, Player::Black), Position::new(4, 4));
    board.place_piece(Piece::new(PieceType::Gold, Player::White), Position::new(0, 3));
    let mut captured = CapturedPieces::new();
    captured.add_piece(PieceType::Pawn, Player::Black);
    let b = evaluator.evaluate_material(&board, Player::Black, &captured);
    let w = evaluator.evaluate_material(&board, Player::White, &captured);
    assert_eq!(b.mg, 1000 - 500 + 110);
    assert_eq!(b.eg, 1100 - 520 + 130);
    assert_eq!(b.mg, -w.mg);
    assert_eq!(b.eg, -w.eg);
}

#[test]
fn material_classic_hand_value() {
    let evaluator = MaterialEvaluator::with_config(MaterialEvaluationConfig {
        include_hand_pieces: true,
        use_research_values: false,
    });
    let v = evaluator.get_hand_piece_value(PieceType::Rook);
    assert_eq!((v.mg, v.eg), (990, 1080));
    let k = evaluator.get_hand_piece_value(PieceType::King);
    assert_eq!((k.mg, k.eg), (20000, 20000));
}
