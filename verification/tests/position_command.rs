use shogi_engine::position_command::{apply_position_command, parse_usi_move, PositionCommandError};
use shogi_engine::bitboards::BitboardBoard;
use shogi_engine::types::{Piece, PieceType, Player, Position};

fn words(text: &str) -> Vec<String> {
    text.split_whitespace().map(|w| w.to_string()).collect()
}

#[test]
fn position_startpos_without_moves() {
    let (board, player, captured) = apply_position_command(&words("startpos")).unwrap();
    assert_eq!(player, Player::Black);
    assert_eq!(board.get_piece(Position::new(6, 2)), Some(Piece::new(PieceType::Pawn, Player::Black)));
    assert!(captured.black.is_empty() && captured.white.is_empty());
}

#[test]
fn position_startpos_with_moves() {
    let (board, player, _) = apply_position_command(&words("startpos moves 7g7f 3c3d")).unwrap();
    assert_eq!(player, Player::Black);
    assert_eq!(board.get_piece(Position::new(6, 2)), None);
    assert_eq!(board.get_piece(Position::new(5, 2)), Some(Piece::new(PieceType::Pawn, Player::Black)));
    assert_eq!(board.get_piece(Position::new(3, 6)), Some(Piece::new(PieceType::Pawn, Player::White)));
}

#[test]
fn position_capture_goes_to_hand() {
    let (board, player, captured) = apply_position_command(&words("startpos moves 7g7f 3c3d 8h2b+")).unwrap();
    assert_eq!(player, Player::White);
    assert_eq!(captured.black, vec![PieceType::Bishop]);
    assert!(captured.white.is_empty());
    assert_eq!(board.get_piece(Position::new(1, 7)), Some(Piece::new(PieceType::PromotedBishop, Player::Black)));
}

#[test]
fn position_sfen_with_moves() {
    let cmd = "sfen lnsgkgsnl/1r5b1/ppppppppp/9/9/9/PPPPPPPPP/1B5R1/LNSGKGSNL w - 1 moves 3c3d";
    let (board, player, _) = apply_position_command(&words(cmd)).unwrap();
    assert_eq!(player, Player::Black);
    assert_eq!(board.get_piece(Position::new(3, 6)), Some(Piece::new(PieceType::Pawn, Player::White)));
}

#[test]
fn position_drop_move() {
    let cmd = "sfen 4k4/9/9/9/9/9/9/9/4K4 b P 1 moves P*5e";
    let (board, player, captured) = apply_position_command(&words(cmd)).unwrap();
    assert_eq!(player, Player::White);
    assert_eq!(board.get_piece(Position::new(4, 4)), Some(Piece::new(PieceType::Pawn, Player::Black)));
    assert_eq!(captured.black, vec![PieceType::Pawn]);
}

#[test]
fn position_errors() {
    assert!(matches!(apply_position_command(&Vec::new()), Err(PositionCommandError::NoArguments)));
    assert!(matches!(apply_position_command(&words("board")), Err(PositionCommandError::UnknownStart)));
    assert!(matches!(apply_position_command(&words("sfen bad")), Err(PositionCommandError::BadSfen(_))));
    match apply_position_command(&words("startpos moves 7g7f 9z9y")) {
        Err(PositionCommandError::BadMove(m)) => assert_eq!(m, "9z9y"),
        _ => panic!("expected a rejected move"),
    }
    match apply_position_command(&words("startpos moves 5e5d")) {
        Err(PositionCommandError::BadMove(m)) => assert_eq!(m, "5e5d"),
        _ => panic!("expected a rejected move"),
    }
}

#[test]
fn position_startpos_ignores_words_other_than_moves() {
    let (board, player, _) = apply_position_command(&words("startpos 7g7f")).unwrap();
    assert_eq!(player, Player::Black);
    assert_eq!(board.get_piece(Position::new(6, 2)), Some(Piece::new(PieceType::Pawn, Player::Black)));
}

#[test]
fn parse_usi_move_reads_board_and_drop_moves() {
    let board = BitboardBoard::new();
    let m = parse_usi_move("7g7f", &board, Player::Black).unwrap();
    assert_eq!(m.from, Some(Position::new(6, 2)));
    assert_eq!(m.to, Position::new(5, 2));
    assert_eq!(m.piece_type, PieceType::Pawn);
    assert!(!m.is_promotion);
    let d = parse_usi_move("G*5e", &board, Player::White).unwrap();
    assert_eq!(d.from, None);
    assert_eq!(d.piece_type, PieceType::Gold);
    assert!(parse_usi_move("K*5e", &board, Player::Black).is_none());
    assert!(parse_usi_move("7g7f=", &board, Player::Black).is_none());
}
