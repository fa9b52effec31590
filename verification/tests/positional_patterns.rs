use shogi_engine::bitboards::BitboardBoard;
use shogi_engine::evaluation::positional_patterns::{PositionalConfig, PositionalPatternAnalyzer};
use shogi_engine::types::{Piece, PieceType, Player, Position};

#[test]
fn test_positional_analyzer_creation() {
    let analyzer = PositionalPatternAnalyzer::new();
    assert!(analyzer.config.enable_center_control);
    assert!(analyzer.config.enable_outposts);
}

#[test]
fn positional_patterns_test_center_control_evaluation() {
    let mut analyzer = PositionalPatternAnalyzer::new();
    let board = BitboardBoard::new();
    let _score = analyzer.evaluate_center_control(&board, Player::Black);
    assert_eq!(analyzer.stats().center_control_checks, 1);
}

#[test]
fn test_outpost_detection() {
    let mut analyzer = PositionalPatternAnalyzer::new();
    let board = BitboardBoard::new();
    let score = analyzer.evaluate_outposts(&board, Player::Black);
    assert!(score.mg >= 0);
}

#[test]
fn test_evaluate_position() {
    let mut analyzer = PositionalPatternAnalyzer::new();
    let board = BitboardBoard::new();
    let _score = analyzer.evaluate_position(&board, Player::Black);
    assert_eq!(analyzer.stats().evaluations, 1);
}

#[test]
fn positional_patterns_test_statistics_tracking() {
    let mut analyzer = PositionalPatternAnalyzer::new();
    let board = BitboardBoard::new();
    analyzer.evaluate_position(&board, Player::Black);
    let stats = analyzer.stats();
    assert!(stats.center_control_checks >= 1);
    assert!(stats.outpost_checks >= 1);
}

#[test]
fn test_positional_outpost_values() {
    let mut analyzer = PositionalPatternAnalyzer::new();
    let mut board = BitboardBoard::empty();
    // A black knight on (4, 4) supported by a black pawn on (5, 3).
    board.place_piece(Piece::new(PieceType::Knight, Player::Black), Position::new(4, 4));
    board.place_piece(Piece::new(PieceType::Pawn, Player::Black), Position::new(5, 3));
    let score = analyzer.evaluate_outposts(&board, Player::Black);
    // Base 60 / 40 plus depth 4 times 5 / 3.
    assert_eq!(score.mg, 80);
    assert_eq!(score.eg, 52);
    assert_eq!(analyzer.stats().outposts_found, 1);
    // An enemy pawn diagonally in front removes the outpost.
    board.place_piece(Piece::new(PieceType::Pawn, Player::White), Position::new(3, 5));
    let score = analyzer.evaluate_outposts(&board, Player::Black);
    assert_eq!(score.mg, 0);
}

#[test]
fn test_positional_center_and_tempo_start_position() {
    let mut analyzer = PositionalPatternAnalyzer::new();
    let board = BitboardBoard::new();
    // Symmetric occupation of the centre ring by the pawns on rows 2 and 6.
    let center = analyzer.evaluate_center_control(&board, Player::Black);
    assert_eq!(center.mg, 0);
    assert_eq!(center.eg, 0);
    let tempo = analyzer.evaluate_tempo(&board, Player::Black);
    assert_eq!(tempo.mg, 0);
    assert_eq!(tempo.eg, 0);
    let black_space = analyzer.count_controlled_squares(&board, Player::Black);
    let white_space = analyzer.count_controlled_squares(&board, Player::White);
    assert_eq!(black_space, white_space);
}

#[test]
fn positional_disabled_patterns_count_only_the_evaluation() {
    let mut config = PositionalConfig::default();
    config.enable_center_control = false;
    config.enable_outposts = false;
    config.enable_weak_squares = false;
    config.enable_piece_activity = false;
    config.enable_space_advantage = false;
    config.enable_tempo = false;
    config.pawn_center_bonus = i32::MAX;
    config.weak_square_penalty = i32::MIN;
    config.space_advantage_bonus = i32::MAX;
    config.tempo_bonus = i32::MAX;
    let mut analyzer = PositionalPatternAnalyzer::with_config(config);
    let score = analyzer.evaluate_position(&BitboardBoard::new(), Player::Black);
    assert_eq!((score.mg, score.eg), (0, 0));
    let s = analyzer.stats().clone();
    assert_eq!(s.evaluations, 1);
    assert_eq!(
        (s.center_control_checks, s.outpost_checks, s.weak_square_checks, s.activity_checks, s.space_checks, s.tempo_checks),
        (0, 0, 0, 0, 0, 0)
    );
    assert_eq!((s.outposts_found, s.weak_squares_found), (0, 0));
}

#[test]
fn positional_enabled_patterns_each_count_a_check() {
    let mut analyzer = PositionalPatternAnalyzer::new();
    analyzer.evaluate_position(&BitboardBoard::new(), Player::Black);
    let s = analyzer.stats().clone();
    assert_eq!(
        (s.evaluations, s.center_control_checks, s.outpost_checks, s.weak_square_checks, s.activity_checks, s.space_checks, s.tempo_checks),
        (1, 1, 1, 1, 1, 1, 1)
    );
}

#[test]
fn center_control_of_an_empty_centre_is_zero_for_any_weight() {
    let mut config = PositionalConfig::default();
    config.pawn_center_bonus = i32::MAX;
    let mut analyzer = PositionalPatternAnalyzer::with_config(config);
    let score = analyzer.evaluate_center_control(&BitboardBoard::empty(), Player::Black);
    assert_eq!((score.mg, score.eg), (0, 0));
    assert_eq!(analyzer.stats().center_control_checks, 1);
}
