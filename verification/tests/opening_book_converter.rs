use shogi_engine::opening_book::OpeningBookError;
use shogi_engine::opening_book_converter::{JsonMove, MigrationStats, OpeningBookConverter, WeightDistribution};
use shogi_engine::types::{PieceType, Position};

fn json(from: &str, to: &str, promote: bool, piece_type: &str) -> JsonMove {
    JsonMove { from: from.to_string(), to: to.to_string(), promote, piece_type: piece_type.to_string() }
}

#[test]
fn test_coordinate_conversion() {
    let converter = OpeningBookConverter::new();

    assert_eq!(converter.position_to_usi("27"), "2g");
    assert_eq!(converter.position_to_usi("11"), "1a");
    assert_eq!(converter.position_to_usi("99"), "9i");
}

#[test]
fn test_move_classification() {
    let converter = OpeningBookConverter::new();

    let json_move = JsonMove {
        from: "27".to_string(),
        to: "26".to_string(),
        promote: false,
        piece_type: "".to_string(),
    };

    let move_type = converter.classify_move_type(&json_move, "Aggressive Rook");
    assert_eq!(move_type, "development");
}

#[test]
fn test_weight_calculation() {
    let converter = OpeningBookConverter::new();

    let json_move = JsonMove {
        from: "27".to_string(),
        to: "26".to_string(),
        promote: false,
        piece_type: "".to_string(),
    };

    let weight = converter.calculate_weight(&json_move, "Aggressive Rook");
    assert!(weight >= 850);
}

#[test]
fn converter_weights_exact() {
    let converter = OpeningBookConverter::new();
    assert_eq!(converter.calculate_weight(&json("27", "26", false, ""), "Aggressive Rook"), 900);
    assert_eq!(converter.calculate_weight(&json("77", "76", false, ""), "Yagura"), 850);
    assert_eq!(converter.calculate_weight(&json("drop", "55", true, "pawn"), "Aggressive Rook"), 1000);
    assert_eq!(converter.calculate_weight(&json("33", "34", false, ""), "Unknown"), 500);
}

#[test]
fn converter_classification_and_evaluation() {
    let converter = OpeningBookConverter::new();
    assert_eq!(converter.classify_move_type(&json("drop", "55", false, ""), "Yagura"), "tactical");
    assert_eq!(converter.classify_move_type(&json("56", "55", false, ""), "Other"), "central_control");
    assert_eq!(converter.classify_move_type(&json("79", "78", false, ""), "Other"), "king_safety");
    assert_eq!(converter.classify_move_type(&json("33", "34", false, ""), "Other"), "positional");
    // a promotion is tactical: 30 + bishop exchange 10 + promotion 15
    assert_eq!(converter.calculate_evaluation(&json("56", "55", true, ""), "Kakugawari (Bishop Exchange)"), 55);
    // development 15 + Yagura 5
    assert_eq!(converter.calculate_evaluation(&json("33", "34", false, ""), "Yagura"), 20);
}

#[test]
fn converter_piece_guess_and_notation() {
    let converter = OpeningBookConverter::new();
    assert_eq!(converter.determine_piece_type(&json("28", "58", false, ""), "Shikenbisya (Fourth File Rook)", ""), Ok(PieceType::Rook));
    assert_eq!(converter.determine_piece_type(&json("69", "78", false, ""), "Yagura", ""), Ok(PieceType::Gold));
    assert_eq!(converter.determine_piece_type(&json("77", "76", false, ""), "Other", ""), Ok(PieceType::Pawn));
    assert_eq!(converter.generate_move_notation(&json("drop", "55", false, ""), &PieceType::Silver), "S*5e");
    assert_eq!(converter.generate_move_notation(&json("27", "23", true, ""), &PieceType::Pawn), "2g2c+");
    assert_eq!(converter.position_to_usi("123"), "");
}

#[test]
fn converter_convert_move() {
    let converter = OpeningBookConverter::new();
    let bm = converter.convert_move(&json("7g", "7f", false, ""), "Yagura", "", 0).unwrap();
    assert_eq!(bm.from, Some(Position::new(6, 2)));
    assert_eq!(bm.to, Position::new(5, 2));
    assert_eq!(bm.piece_type, PieceType::Pawn);
    assert_eq!(bm.weight, 800);
    assert_eq!(bm.evaluation, 20);
    assert_eq!(bm.opening_name, Some("Yagura".to_string()));
    let drop = converter.convert_move(&json("drop", "5e", false, "gold"), "Other", "", 1).unwrap();
    assert!(drop.is_drop);
    assert_eq!(drop.piece_type, PieceType::Gold);
    assert_eq!(drop.weight, 550);
    assert!(matches!(converter.convert_move(&json("27", "26", false, ""), "Yagura", "", 0), Err(OpeningBookError::InvalidMove(_))));
    assert!(matches!(converter.convert_move(&json("7g", "7f", false, "dragon"), "Yagura", "", 0), Err(OpeningBookError::InvalidMove(_))));
    let all = converter.convert_moves(&vec![json("7g", "7f", false, ""), json("3c", "3d", false, "")], "Yagura", "");
    assert_eq!(all.unwrap().len(), 2);
}

#[test]
fn converter_report() {
    let converter = OpeningBookConverter::new();
    let stats = MigrationStats {
        total_positions: 2,
        total_moves: 3,
        opening_counts: vec![("Yagura".to_string(), 1), ("Aggressive Rook".to_string(), 2)],
        piece_type_counts: vec![("Pawn".to_string(), 3)],
        weight_distribution: WeightDistribution { high: 2, medium: 1, low: 0 },
    };
    let report = converter.generate_report(&stats);
    let expected = "=== Opening Book Migration Report ===\nTotal Positions: 2\nTotal Moves: 3\n\nOpening Distribution:\n  Aggressive Rook: 2 moves\n  Yagura: 1 moves\n\nPiece Type Distribution:\n  Pawn: 3 moves\n\nWeight Distribution:\n  High (800+): 2 moves\n  Medium (500-799): 1 moves\n  Low (<500): 0 moves";
    assert_eq!(report, expected);
}
