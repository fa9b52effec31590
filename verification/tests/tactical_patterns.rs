use shogi_engine::bitboards::BitboardBoard;
use shogi_engine::evaluation::tactical_patterns::{TacticalConfig, TacticalPatternRecognizer};
use shogi_engine::types::{Piece, PieceType, Player, Position};

#[test]
fn test_tactical_recognizer_creation() {
    let recognizer = TacticalPatternRecognizer::new();
    assert!(recognizer.config.enable_forks);
    assert!(recognizer.config.enable_pins);
}

#[test]
fn test_tactical_config_default() {
    let config = TacticalConfig::default();
    assert_eq!(config.fork_bonus_factor, 50);
    assert_eq!(config.king_fork_bonus, 100);
}

#[test]
fn test_fork_detection() {
    let mut recognizer = TacticalPatternRecognizer::new();
    let board = BitboardBoard::new();

    let score = recognizer.evaluate_tactics(&board, Player::Black);
    assert!(score.mg >= 0);
    assert!(score.eg >= 0);
}

#[test]
fn test_pin_detection() {
    let mut recognizer = TacticalPatternRecognizer::new();
    let board = BitboardBoard::new();

    let score = recognizer.evaluate_tactics(&board, Player::Black);
    assert!(score.mg >= 0);
    assert!(score.eg >= 0);
}

#[test]
fn test_knight_fork_detection() {
    let mut recognizer = TacticalPatternRecognizer::new();
    let board = BitboardBoard::new();

    let score = recognizer.evaluate_tactics(&board, Player::Black);
    assert!(score.mg >= 0);
}

#[test]
fn test_evaluate_tactics() {
    let mut recognizer = TacticalPatternRecognizer::new();
    let board = BitboardBoard::new();

    let _score = recognizer.evaluate_tactics(&board, Player::Black);
    assert_eq!(recognizer.stats().evaluations, 1);
}

#[test]
fn tactical_patterns_test_statistics_tracking() {
    let mut recognizer = TacticalPatternRecognizer::new();
    let board = BitboardBoard::new();

    recognizer.evaluate_tactics(&board, Player::Black);

    let stats = recognizer.stats();
    assert!(stats.fork_checks >= 1);
    assert!(stats.pin_checks >= 1);
}

#[test]
fn tactical_patterns_test_reset_statistics() {
    let mut recognizer = TacticalPatternRecognizer::new();
    let board = BitboardBoard::new();

    recognizer.evaluate_tactics(&board, Player::Black);
    recognizer.reset_stats();

    assert_eq!(recognizer.stats().evaluations, 0);
}

fn knight_fork_board() -> BitboardBoard {
    let mut board = BitboardBoard::empty();
    board.place_piece(Piece::new(PieceType::Knight, Player::Black), Position::new(5, 4));
    board.place_piece(Piece::new(PieceType::Gold, Player::White), Position::new(3, 3));
    board.place_piece(Piece::new(PieceType::Silver, Player::White), Position::new(3, 5));
    board
}

#[test]
fn tactical_knight_fork_exact_values() {
    let board = knight_fork_board();
    let mut recognizer = TacticalPatternRecognizer::new();
    // Gold and silver are worth 5 + 4 hundreds: 50% gives 4, 60% gives 5.
    let forks = recognizer.detect_forks(&board, Player::Black);
    assert_eq!((forks.mg, forks.eg), (4, 2));
    let knights = recognizer.detect_knight_forks(&board, Player::Black);
    assert_eq!((knights.mg, knights.eg), (5, 2));
    assert_eq!(recognizer.stats().forks_found, 1);
    assert_eq!(recognizer.stats().knight_forks_found, 1);
}

#[test]
fn tactical_evaluate_sums_the_parts() {
    let board = knight_fork_board();
    let mut recognizer = TacticalPatternRecognizer::new();
    let score = recognizer.evaluate_tactics(&board, Player::Black);
    assert_eq!((score.mg, score.eg), (9, 4));
    assert_eq!(recognizer.stats().evaluations, 1);
    assert_eq!(recognizer.stats().skewer_checks, 1);
}

#[test]
fn tactical_disabled_patterns_are_skipped() {
    let board = knight_fork_board();
    let mut config = TacticalConfig::default();
    config.enable_forks = false;
    config.enable_knight_forks = false;
    let mut recognizer = TacticalPatternRecognizer::with_config(config);
    let score = recognizer.evaluate_tactics(&board, Player::Black);
    assert_eq!((score.mg, score.eg), (0, 0));
    assert_eq!(recognizer.stats().fork_checks, 0);
}

#[test]
fn tactical_pin_exact_value() {
    let mut board = BitboardBoard::empty();
    board.place_piece(Piece::new(PieceType::King, Player::Black), Position::new(8, 4));
    board.place_piece(Piece::new(PieceType::Gold, Player::Black), Position::new(6, 4));
    board.place_piece(Piece::new(PieceType::Rook, Player::White), Position::new(2, 4));
    let mut recognizer = TacticalPatternRecognizer::new();
    let pins = recognizer.detect_pins(&board, Player::Black);
    assert_eq!((pins.mg, pins.eg), (2, 1));
    assert_eq!(recognizer.stats().pins_found, 1);
}

#[test]
fn tactical_back_rank_exact_value() {
    let mut board = BitboardBoard::empty();
    board.place_piece(Piece::new(PieceType::King, Player::Black), Position::new(8, 4));
    board.place_piece(Piece::new(PieceType::Gold, Player::Black), Position::new(7, 3));
    board.place_piece(Piece::new(PieceType::Gold, Player::Black), Position::new(7, 4));
    board.place_piece(Piece::new(PieceType::Gold, Player::Black), Position::new(7, 5));
    board.place_piece(Piece::new(PieceType::Gold, Player::Black), Position::new(8, 3));
    board.place_piece(Piece::new(PieceType::Rook, Player::White), Position::new(8, 8));
    let mut recognizer = TacticalPatternRecognizer::new();
    let back = recognizer.detect_back_rank_threats(&board, Player::Black);
    assert_eq!((back.mg, back.eg), (-75, -37));
    assert_eq!(recognizer.stats().back_rank_threats_found, 1);
}

#[test]
fn tactics_disabled_patterns_count_nothing_but_the_evaluation() {
    let mut config = TacticalConfig::default();
    config.enable_forks = false;
    config.enable_pins = false;
    config.enable_skewers = false;
    config.enable_discovered_attacks = false;
    config.enable_knight_forks = false;
    config.enable_back_rank_threats = false;
    config.fork_bonus_factor = i32::MAX;
    config.king_fork_bonus = i32::MIN;
    config.pin_penalty_factor = i32::MAX;
    config.skewer_bonus_factor = i32::MAX;
    config.discovered_attack_bonus = i32::MAX;
    config.back_rank_threat_penalty = i32::MAX;
    config.knight_fork_bonus_factor = i32::MAX;
    let mut recognizer = TacticalPatternRecognizer::with_config(config);
    let before = recognizer.stats().clone();
    let score = recognizer.evaluate_tactics(&BitboardBoard::new(), Player::Black);
    assert_eq!((score.mg, score.eg), (0, 0));
    let after = recognizer.stats().clone();
    assert_eq!(after.evaluations, before.evaluations + 1);
    assert_eq!(after.fork_checks, before.fork_checks);
    assert_eq!(after.pin_checks, before.pin_checks);
    assert_eq!(after.skewer_checks, before.skewer_checks);
    assert_eq!(after.discovered_checks, before.discovered_checks);
    assert_eq!(after.knight_fork_checks, before.knight_fork_checks);
    assert_eq!(after.back_rank_checks, before.back_rank_checks);
}

#[test]
fn tactics_enabled_patterns_each_count_a_check() {
    let mut recognizer = TacticalPatternRecognizer::new();
    recognizer.evaluate_tactics(&BitboardBoard::new(), Player::Black);
    let s = recognizer.stats().clone();
    assert_eq!(
        (s.evaluations, s.fork_checks, s.pin_checks, s.skewer_checks, s.discovered_checks, s.knight_fork_checks, s.back_rank_checks),
        (1, 1, 1, 1, 1, 1, 1)
    );
}
