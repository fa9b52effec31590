use shogi_engine::evaluation::castles::{CastlePattern, CastlePiece};
use shogi_engine::evaluation::integration::ComponentFlags;
use shogi_engine::evaluation::patterns::anaguma::get_anaguma_castle;
use shogi_engine::evaluation::patterns::mino::get_mino_castle;
use shogi_engine::evaluation::patterns::yagura::get_yagura_castle;
use shogi_engine::types::{PieceType, TaperedScore};

#[test]
fn test_mino_castle_pattern() {
    let mino_castle = get_mino_castle();
    assert_eq!(mino_castle.name, "Mino");
    assert_eq!(mino_castle.pieces.len(), 5);
    assert_eq!(mino_castle.flexibility, 2);
    assert_eq!(mino_castle.score.mg, 180);
    assert_eq!(mino_castle.score.eg, 60);
}

#[test]
fn test_mino_castle_required_pieces() {
    let mino_castle = get_mino_castle();
    let required_pieces: Vec<&CastlePiece> = mino_castle.pieces.iter().filter(|p| p.required).collect();
    assert_eq!(required_pieces.len(), 2);
    let gold_piece = required_pieces.iter().find(|p| p.piece_type == PieceType::Gold);
    let silver_piece = required_pieces.iter().find(|p| p.piece_type == PieceType::Silver);
    assert!(gold_piece.is_some());
    assert!(silver_piece.is_some());
    assert_eq!(gold_piece.unwrap().weight, 10);
    assert_eq!(silver_piece.unwrap().weight, 9);
}

#[test]
fn test_mino_castle_optional_pieces() {
    let mino_castle = get_mino_castle();
    let optional_pieces: Vec<&CastlePiece> = mino_castle.pieces.iter().filter(|p| !p.required).collect();
    assert_eq!(optional_pieces.len(), 3);
    for piece in optional_pieces {
        assert_eq!(piece.piece_type, PieceType::Pawn);
        assert_eq!(piece.weight, 6);
    }
}

#[test]
fn test_anaguma_castle_pattern() {
    let anaguma_castle = get_anaguma_castle();
    assert_eq!(anaguma_castle.name, "Anaguma");
    assert_eq!(anaguma_castle.pieces.len(), 6);
    assert_eq!(anaguma_castle.flexibility, 3);
    assert_eq!(anaguma_castle.score.mg, 220);
    assert_eq!(anaguma_castle.score.eg, 40);
}

#[test]
fn test_anaguma_castle_required_pieces() {
    let anaguma_castle = get_anaguma_castle();
    let required_pieces: Vec<&CastlePiece> = anaguma_castle.pieces.iter().filter(|p| p.required).collect();
    assert_eq!(required_pieces.len(), 2);
    let gold_piece = required_pieces.iter().find(|p| p.piece_type == PieceType::Gold);
    let silver_piece = required_pieces.iter().find(|p| p.piece_type == PieceType::Silver);
    assert!(gold_piece.is_some());
    assert!(silver_piece.is_some());
    assert_eq!(gold_piece.unwrap().weight, 10);
    assert_eq!(silver_piece.unwrap().weight, 9);
}

#[test]
fn test_anaguma_castle_optional_pieces() {
    let anaguma_castle = get_anaguma_castle();
    let optional_pieces: Vec<&CastlePiece> = anaguma_castle.pieces.iter().filter(|p| !p.required).collect();
    assert_eq!(optional_pieces.len(), 4);
    for piece in optional_pieces {
        assert_eq!(piece.piece_type, PieceType::Pawn);
        assert!(piece.weight >= 6 && piece.weight <= 7);
    }
}

#[test]
fn test_yagura_castle_pattern() {
    let yagura_castle = get_yagura_castle();
    assert_eq!(yagura_castle.name, "Yagura");
    assert_eq!(yagura_castle.pieces.len(), 5);
    assert_eq!(yagura_castle.flexibility, 2);
    assert_eq!(yagura_castle.score.mg, 160);
    assert_eq!(yagura_castle.score.eg, 80);
}

#[test]
fn test_yagura_castle_required_pieces() {
    let yagura_castle = get_yagura_castle();
    let required_pieces: Vec<&CastlePiece> = yagura_castle.pieces.iter().filter(|p| p.required).collect();
    assert_eq!(required_pieces.len(), 2);
    let gold_piece = required_pieces.iter().find(|p| p.piece_type == PieceType::Gold);
    let silver_piece = required_pieces.iter().find(|p| p.piece_type == PieceType::Silver);
    assert!(gold_piece.is_some());
    assert!(silver_piece.is_some());
    assert_eq!(gold_piece.unwrap().weight, 10);
    assert_eq!(silver_piece.unwrap().weight, 9);
}

#[test]
fn test_yagura_castle_optional_pieces() {
    let yagura_castle = get_yagura_castle();
    let optional_pieces: Vec<&CastlePiece> = yagura_castle.pieces.iter().filter(|p| !p.required).collect();
    assert_eq!(optional_pieces.len(), 3);
    let lance_piece = optional_pieces.iter().find(|p| p.piece_type == PieceType::Lance);
    let pawn_pieces: Vec<&CastlePiece> =
        optional_pieces.iter().filter(|p| p.piece_type == PieceType::Pawn).cloned().collect();
    assert!(lance_piece.is_some());
    assert_eq!(pawn_pieces.len(), 2);
    assert_eq!(lance_piece.unwrap().weight, 5);
    for pawn in pawn_pieces {
        assert_eq!(pawn.weight, 6);
    }
}

#[test]
fn castle_pattern_literal() {
    let pattern = CastlePattern {
        name: "Test",
        pieces: vec![get_mino_castle().pieces[0]],
        score: TaperedScore::new_tapered(100, 60),
        flexibility: 1,
    };
    assert_eq!(pattern.name, "Test");
    assert_eq!(pattern.pieces[0].relative_pos, (-1, -1));
    assert_eq!(pattern.score.mg, 100);
}

#[test]
fn test_component_flags() {
    let all_enabled = ComponentFlags::all_enabled();
    assert!(all_enabled.material);
    assert!(all_enabled.piece_square_tables);
    assert!(all_enabled.castle_patterns);
    let all_disabled = ComponentFlags::all_disabled();
    assert!(!all_disabled.material);
    assert!(!all_disabled.piece_square_tables);
    assert!(!all_disabled.castle_patterns);
    let minimal = ComponentFlags::minimal();
    assert!(minimal.material);
    assert!(!minimal.opening_principles);
    assert!(!minimal.castle_patterns);
}
