use shogi_engine::bitboards::BitboardBoard;
use shogi_engine::evaluation::tapered_eval::{TaperedEvaluation, TaperedEvaluationConfig};
use shogi_engine::types::{Piece, PieceType, Player, Position, TaperedScore, GAME_PHASE_MAX};

#[test]
fn test_tapered_evaluation_creation() {
    let evaluator = TaperedEvaluation::new();
    assert!(evaluator.config().enabled);
}

#[test]
fn test_tapered_evaluation_with_config() {
    let config = TaperedEvaluationConfig::disabled();
    let evaluator = TaperedEvaluation::with_config(config);
    assert!(!evaluator.config().enabled);
}

#[test]
fn test_calculate_game_phase_starting_position() {
    let mut evaluator = TaperedEvaluation::new();
    let board = BitboardBoard::new();
    let phase = evaluator.calculate_game_phase(&board);
    assert_eq!(phase, GAME_PHASE_MAX, "Starting position should have maximum phase");
}

#[test]
fn test_calculate_game_phase_consistency() {
    let mut evaluator = TaperedEvaluation::new();
    let board = BitboardBoard::new();
    let phase1 = evaluator.calculate_game_phase(&board);
    let phase2 = evaluator.calculate_game_phase(&board);
    assert_eq!(phase1, phase2, "Phase calculation should be consistent");
}

#[test]
fn test_calculate_game_phase_caching() {
    let mut evaluator = TaperedEvaluation::with_config(TaperedEvaluationConfig {
        cache_game_phase: true,
        ..Default::default()
    });
    let board = BitboardBoard::new();
    evaluator.calculate_game_phase(&board);
    assert_eq!(evaluator.stats().cache_hits, 0);
    evaluator.calculate_game_phase(&board);
    assert_eq!(evaluator.stats().cache_hits, 1);
}

#[test]
fn test_interpolate_pure_middlegame() {
    let mut evaluator = TaperedEvaluation::new();
    let score = TaperedScore::new_tapered(100, 200);
    let result = evaluator.interpolate(score, GAME_PHASE_MAX);
    assert_eq!(result, 100, "Phase MAX should return mg value");
}

#[test]
fn test_interpolate_pure_endgame() {
    let mut evaluator = TaperedEvaluation::new();
    let score = TaperedScore::new_tapered(100, 200);
    let result = evaluator.interpolate(score, 0);
    assert_eq!(result, 200, "Phase 0 should return eg value");
}

#[test]
fn test_interpolate_middlegame() {
    let mut evaluator = TaperedEvaluation::new();
    let score = TaperedScore::new_tapered(100, 200);
    let result = evaluator.interpolate(score, GAME_PHASE_MAX / 2);
    assert_eq!(result, 150, "Phase 128 should return average value");
}

#[test]
fn test_smooth_interpolation() {
    let mut evaluator = TaperedEvaluation::new();
    let score = TaperedScore::new_tapered(100, 200);
    let mut prev_value = evaluator.interpolate(score, 0);
    for phase in 1..=GAME_PHASE_MAX {
        let value = evaluator.interpolate(score, phase);
        let diff = (value - prev_value).abs();
        assert!(diff <= 1, "Interpolation should be smooth at phase {}: diff = {}", phase, diff);
        prev_value = value;
    }
}

#[test]
fn test_create_score() {
    let evaluator = TaperedEvaluation::new();
    let score = evaluator.create_score(50);
    assert_eq!(score.mg, 50);
    assert_eq!(score.eg, 50);
}

#[test]
fn test_create_tapered_score() {
    let evaluator = TaperedEvaluation::new();
    let score = evaluator.create_tapered_score(100, 200);
    assert_eq!(score.mg, 100);
    assert_eq!(score.eg, 200);
}

#[test]
fn test_stats_tracking() {
    let mut evaluator = TaperedEvaluation::new();
    let board = BitboardBoard::new();
    assert_eq!(evaluator.stats().phase_calculations, 0);
    evaluator.calculate_game_phase(&board);
    assert_eq!(evaluator.stats().phase_calculations, 1);
    evaluator.calculate_game_phase(&board);
    assert_eq!(evaluator.stats().phase_calculations, 2);
}

#[test]
fn test_clear_cache() {
    let mut evaluator = TaperedEvaluation::with_config(TaperedEvaluationConfig {
        cache_game_phase: true,
        ..Default::default()
    });
    let board = BitboardBoard::new();
    evaluator.calculate_game_phase(&board);
    assert!(evaluator.cached_phase.is_some());
    evaluator.clear_cache();
    assert!(evaluator.cached_phase.is_none());
}

#[test]
fn test_reset_stats() {
    let mut evaluator = TaperedEvaluation::new();
    let board = BitboardBoard::new();
    evaluator.calculate_game_phase(&board);
    assert_eq!(evaluator.stats().phase_calculations, 1);
    evaluator.reset_stats();
    assert_eq!(evaluator.stats().phase_calculations, 0);
}

#[test]
fn test_config_update_clears_cache() {
    let mut evaluator = TaperedEvaluation::with_config(TaperedEvaluationConfig {
        cache_game_phase: true,
        ..Default::default()
    });
    let board = BitboardBoard::new();
    evaluator.calculate_game_phase(&board);
    assert!(evaluator.cached_phase.is_some());
    let new_config = TaperedEvaluationConfig::default();
    evaluator.set_config(new_config);
    assert!(evaluator.cached_phase.is_none());
}

#[test]
fn test_game_phase_range() {
    let mut evaluator = TaperedEvaluation::new();
    let board = BitboardBoard::new();
    let phase = evaluator.calculate_game_phase(&board);
    assert!(phase >= 0, "Phase should be non-negative");
    assert!(phase <= GAME_PHASE_MAX, "Phase should not exceed maximum");
}

#[test]
fn test_piece_phase_values() {
    let evaluator = TaperedEvaluation::new();
    assert_eq!(evaluator.get_piece_phase_value(PieceType::Knight), Some(1));
    assert_eq!(evaluator.get_piece_phase_value(PieceType::Silver), Some(1));
    assert_eq!(evaluator.get_piece_phase_value(PieceType::Gold), Some(2));
    assert_eq!(evaluator.get_piece_phase_value(PieceType::Bishop), Some(2));
    assert_eq!(evaluator.get_piece_phase_value(PieceType::Rook), Some(3));
    assert_eq!(evaluator.get_piece_phase_value(PieceType::Lance), Some(1));
    assert_eq!(evaluator.get_piece_phase_value(PieceType::Pawn), None);
    assert_eq!(evaluator.get_piece_phase_value(PieceType::King), None);
}

#[test]
fn test_performance_optimized_config() {
    let config = TaperedEvaluationConfig::performance_optimized();
    let evaluator = TaperedEvaluation::with_config(config);
    assert!(evaluator.config().enabled);
    assert!(evaluator.config().cache_game_phase);
    assert!(evaluator.config().enable_performance_monitoring);
}

#[test]
fn test_memory_optimized_config() {
    let config = TaperedEvaluationConfig::memory_optimized();
    let evaluator = TaperedEvaluation::with_config(config);
    assert!(evaluator.config().enabled);
    assert!(!evaluator.config().cache_game_phase);
    assert_eq!(evaluator.config().memory_pool_size, 100);
}

// Phase formula on a sparse board: a rook and a gold give 5 * 256 / 30 = 42.
#[test]
fn tapered_phase_of_sparse_board() {
    let mut evaluator = TaperedEvaluation::with_config(TaperedEvaluationConfig::disabled());
    let mut board = BitboardBoard::empty();
    board.place_piece(Piece::new(PieceType::Rook, Player::Black), Position::new(4, 4));
    board.place_piece(Piece::new(PieceType::Gold, Player::White), Position::new(0, 3));
    board.place_piece(Piece::new(PieceType::Pawn, Player::White), Position::new(2, 3));
    assert_eq!(evaluator.calculate_game_phase(&board), 42);
    assert!(evaluator.cached_phase.is_none());
    assert_eq!(evaluator.calculate_game_phase(&BitboardBoard::empty()), 0);
}

// Interpolation truncates towards zero for negative numerators.
#[test]
fn tapered_interpolation_truncates_towards_zero() {
    let score = TaperedScore::new_tapered(-1, -1);
    assert_eq!(score.interpolate(100), -1);
    let score = TaperedScore::new_tapered(-3, 0);
    assert_eq!(score.interpolate(1), 0);
    let score = TaperedScore::new_tapered(7, 3);
    assert_eq!(score.interpolate(100), (7 * 100 + 3 * 156) / 256);
}

#[test]
fn tapered_interpolation_counter() {
    let mut evaluator = TaperedEvaluation::new();
    evaluator.interpolate(TaperedScore::new(5), 10);
    evaluator.interpolate(TaperedScore::new(5), 20);
    assert_eq!(evaluator.stats().total_interpolations(), 2);
}
