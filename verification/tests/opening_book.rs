use shogi_engine::bitboards::BitboardBoard;
use shogi_engine::opening_book::binary_format::BinaryWriter;
use shogi_engine::opening_book::{BookMove, OpeningBook, OpeningBookBuilder, OpeningBookError, PositionEntry};
use shogi_engine::opening_book_converter::{JsonMove, JsonOpening, OpeningBookConverter};
use shogi_engine::types::{PieceType, Player, Position};

const START: &str = "lnsgkgsnl/1r5b1/ppppppppp/9/9/9/PPPPPPPPP/1B5R1/LNSGKGSNL b - 1";
const WHITE_TO_MOVE: &str = "lnsgkgsnl/1r5b1/ppppppppp/9/9/2P6/PP1PPPPPP/1B5R1/LNSGKGSNL w - 2";

fn pawn_move(weight: u32, evaluation: i32) -> BookMove {
    BookMove::new(Some(Position::new(6, 2)), Position::new(5, 2), PieceType::Pawn, false, false, weight, evaluation)
}

fn rook_move(weight: u32, evaluation: i32) -> BookMove {
    BookMove::new(Some(Position::new(7, 7)), Position::new(7, 4), PieceType::Rook, false, false, weight, evaluation)
}

#[test]
fn book_get_moves_after_add() {
    let mut book = OpeningBook::new();
    book.add_position(START.to_string(), vec![pawn_move(800, 20), rook_move(500, 10)]);
    let moves = book.get_moves(START).unwrap();
    assert_eq!(moves, vec![pawn_move(800, 20), rook_move(500, 10)]);
    assert_eq!(book.get_stats().position_count, 1);
    assert_eq!(book.get_stats().move_count, 2);
    assert_eq!(book.get_cache_stats(), (1, 100));
    assert!(book.get_moves("9/9/9/9/9/9/9/9/9 b - 1").is_none());
}

#[test]
fn book_best_and_random_moves() {
    let mut book = OpeningBook::new();
    book.add_position(START.to_string(), vec![pawn_move(500, 20), rook_move(800, 10), pawn_move(0, 90)]);
    let best = book.get_best_move(START).unwrap();
    assert_eq!(best.piece_type, PieceType::Rook);
    assert_eq!(best.player, Player::Black);
    assert_eq!(book.get_move(START).unwrap().piece_type, PieceType::Rook);
    for _ in 0..20 {
        let m = book.get_random_move(START).unwrap();
        assert!(m.piece_type == PieceType::Pawn || m.piece_type == PieceType::Rook);
    }
    // The side to move is read from the side-to-move field.
    book.add_position(WHITE_TO_MOVE.to_string(), vec![pawn_move(100, 0)]);
    assert_eq!(book.get_best_move(WHITE_TO_MOVE).unwrap().player, Player::White);
    let with_meta = book.get_moves_with_metadata(START).unwrap();
    assert_eq!(with_meta.len(), 3);
    assert_eq!(with_meta[1].1.piece_type, PieceType::Rook);
}

#[test]
fn book_empty_position_has_no_best_move() {
    let mut book = OpeningBook::new();
    book.add_position(START.to_string(), vec![]);
    assert!(book.get_best_move(START).is_none());
    assert_eq!(book.get_moves(START), Some(vec![]));
}

#[test]
fn book_lazy_positions_load_on_lookup() {
    let mut book = OpeningBook::new();
    book.add_lazy_position(START.to_string(), vec![pawn_move(700, 5)]).unwrap();
    assert_eq!(book.get_streaming_stats(), (0, 1, 0));
    assert_eq!(book.get_stats().position_count, 1);
    let moves = book.get_moves(START).unwrap();
    assert_eq!(moves, vec![pawn_move(700, 5)]);
    assert_eq!(book.get_streaming_stats(), (1, 0, 1));
}

#[test]
fn book_determine_player_from_fen() {
    assert_eq!(OpeningBook::determine_player_from_fen(START), Player::Black);
    assert_eq!(OpeningBook::determine_player_from_fen(WHITE_TO_MOVE), Player::White);
    assert_eq!(OpeningBook::determine_player_from_fen("board W - 3"), Player::White);
    assert_eq!(OpeningBook::determine_player_from_fen("board b - 3"), Player::Black);
    assert_eq!(OpeningBook::determine_player_from_fen("board"), Player::Black);
    assert_eq!(OpeningBook::determine_player_from_fen("board x - 3"), Player::Black);
}

#[test]
fn book_hash_functions() {
    let book = OpeningBook::new();
    assert_eq!(book.hash_fen_fnv1a(""), 0xcbf29ce484222325);
    assert_eq!(book.hash_fen_fnv1a("a"), 0xaf63dc4c8601ec8c);
    assert_eq!(book.hash_fen_simple("a"), 5381 * 33 + 97);
    assert_eq!(book.hash_fen_bitwise("ab"), 97 ^ (98 << 1));
}

#[test]
fn book_validate() {
    let book = OpeningBook::new();
    match book.validate() {
        Err(OpeningBookError::BinaryFormatError(m)) => assert_eq!(m, "Opening book not loaded"),
        other => panic!("unexpected {:?}", other),
    }
    let mut book = OpeningBook::new();
    book.add_position(START.to_string(), vec![pawn_move(800, 20)]);
    let book = book.mark_loaded();
    assert!(book.is_loaded());
    assert!(book.validate().is_ok());

    let mut bad = OpeningBook::new();
    bad.add_position(START.to_string(), vec![pawn_move(800, 20), pawn_move(20000, 0)]);
    let bad = bad.mark_loaded();
    match bad.validate() {
        Err(OpeningBookError::InvalidMove(m)) => assert_eq!(m, "Weight too high in move 1: 20000"),
        other => panic!("unexpected {:?}", other),
    }

    let mut empty_fen = OpeningBook::new();
    empty_fen.add_position(String::new(), vec![]);
    let empty_fen = empty_fen.mark_loaded();
    assert!(matches!(empty_fen.validate(), Err(OpeningBookError::InvalidFen(_))));
}

#[test]
fn book_builder() {
    let book = OpeningBookBuilder::new()
        .add_move_to_position(START.to_string(), pawn_move(800, 20))
        .add_move_to_position(START.to_string(), rook_move(600, 10))
        .with_metadata(2, Some("today".to_string()), None)
        .mark_loaded()
        .build();
    assert!(book.is_loaded());
    assert_eq!(book.get_stats().version, 2);
    assert_eq!(book.get_stats().position_count, 1);
    assert_eq!(book.get_stats().move_count, 2);
    let mut book = book;
    assert_eq!(book.get_moves(START).unwrap().len(), 2);
}

#[test]
fn book_streaming_chunks() {
    let writer = BinaryWriter::new();
    let mut chunk: Vec<u8> = Vec::new();
    chunk.extend_from_slice(&1u32.to_le_bytes());
    chunk.extend_from_slice(&0u64.to_le_bytes());
    chunk.extend_from_slice(&0u32.to_le_bytes());
    chunk.extend_from_slice(&(START.len() as u32).to_le_bytes());
    chunk.extend_from_slice(START.as_bytes());
    chunk.extend_from_slice(&1u32.to_le_bytes());
    chunk.extend_from_slice(&writer.write_book_move(&pawn_move(300, 1)).unwrap());

    let mut book = OpeningBook::new();
    book.add_position(START.to_string(), vec![rook_move(1, 1)]);
    book.enable_streaming_mode(4096);
    assert!(book.get_stats().streaming_enabled);
    assert_eq!(book.get_stats().chunk_size, 4096);
    assert_eq!(book.get_streaming_stats(), (0, 0, 0));
    assert_eq!(book.load_chunk(&chunk, 0), Ok(1));
    assert_eq!(book.get_streaming_stats(), (0, 1, 0));
    assert_eq!(book.get_moves(START).unwrap(), vec![pawn_move(300, 1)]);
    assert!(book.load_chunk(&chunk[0..10], 0).is_err());
}

#[test]
fn book_prefill_and_cache() {
    let mut book = OpeningBook::new();
    book.add_position(START.to_string(), vec![pawn_move(800, 20), rook_move(900, 0)]);
    book.add_lazy_position(WHITE_TO_MOVE.to_string(), vec![pawn_move(100, 0)]).unwrap();
    book.add_position("empty".to_string(), vec![]);
    let entries = book.collect_prefill_entries();
    assert_eq!(entries.len(), 2);
    for e in &entries {
        if e.fen == START {
            assert_eq!(e.book_move, rook_move(900, 0));
            assert_eq!(e.player, Player::Black);
        } else {
            assert_eq!(e.fen, WHITE_TO_MOVE);
            assert_eq!(e.player, Player::White);
        }
    }
    book.get_moves(START);
    assert_eq!(book.get_cache_stats().0, 1);
    book.clear_cache();
    assert_eq!(book.get_cache_stats(), (0, 100));
    let buffer = book.get_temp_buffer();
    assert!(buffer.is_empty());
}

#[test]
fn book_engine_move_on_board() {
    let book = OpeningBook::new();
    let board = BitboardBoard::new();
    let capture = BookMove::new(Some(Position::new(7, 1)), Position::new(2, 7), PieceType::Bishop, false, true, 1, 0);
    let m = book.convert_book_move_to_engine_move(&capture, Player::Black, &board);
    assert!(m.is_capture);
    assert_eq!(m.captured_piece.unwrap().piece_type, PieceType::Pawn);
    assert!(m.is_promotion);
    let quiet = book.convert_book_move_to_engine_move(&pawn_move(1, 0), Player::Black, &board);
    assert!(!quiet.is_capture);
    assert!(!quiet.gives_check);
}

fn json(from: &str, to: &str) -> JsonMove {
    JsonMove { from: from.to_string(), to: to.to_string(), promote: false, piece_type: String::new() }
}

#[test]
fn converter_convert_openings() {
    let converter = OpeningBookConverter::new();
    let openings = vec![
        JsonOpening {
            name: "Yagura".to_string(),
            moves: vec![
                (START.to_string(), vec![json("7g", "7f"), json("6i", "7h")]),
                (WHITE_TO_MOVE.to_string(), vec![]),
            ],
        },
        JsonOpening { name: "Aggressive Rook".to_string(), moves: vec![(WHITE_TO_MOVE.to_string(), vec![json("2h", "2f")])] },
    ];
    let (mut book, stats) = converter.convert_openings(&openings).unwrap();
    assert!(book.is_loaded());
    assert_eq!(stats.total_positions, 2);
    assert_eq!(stats.total_moves, 3);
    assert_eq!(stats.opening_counts, vec![("Yagura".to_string(), 2), ("Aggressive Rook".to_string(), 1)]);
    assert_eq!(stats.piece_type_counts, vec![("Pawn".to_string(), 2), ("Rook".to_string(), 1)]);
    assert_eq!(stats.weight_distribution.high, 3);
    assert_eq!(book.get_moves(START).unwrap().len(), 2);
    assert_eq!(book.get_best_move(WHITE_TO_MOVE).unwrap().piece_type, PieceType::Rook);

    let broken = vec![JsonOpening { name: "Yagura".to_string(), moves: vec![(START.to_string(), vec![json("77", "76")])] }];
    assert!(matches!(converter.convert_openings(&broken), Err(OpeningBookError::InvalidMove(_))));
}

#[test]
fn book_binary_round_trip() {
    let mut book = OpeningBook::new();
    let mut named = pawn_move(800, 20);
    named.opening_name = Some("Yagura".to_string());
    named.move_notation = Some("7g7f".to_string());
    book.add_position(START.to_string(), vec![named.clone(), rook_move(500, -10)]);
    book.add_position(WHITE_TO_MOVE.to_string(), vec![rook_move(300, 5)]);
    let bytes = book.to_binary().unwrap();
    // Header, a four-slot table, and the two records.
    assert_eq!(&bytes[0..4], b"SBOB");
    assert_eq!(u64::from_le_bytes(bytes[16..24].try_into().unwrap()), 2);
    let mut read = OpeningBook::from_binary(&bytes).unwrap();
    assert!(read.is_loaded());
    assert_eq!(read.get_stats().position_count, 2);
    assert_eq!(read.get_stats().move_count, 3);
    assert_eq!(read.get_moves(START).unwrap(), vec![named, rook_move(500, -10)]);
    assert_eq!(read.get_moves(WHITE_TO_MOVE).unwrap(), vec![rook_move(300, 5)]);
    let mut boxed = OpeningBook::from_binary_boxed(bytes.clone()).unwrap();
    assert_eq!(boxed.get_moves(WHITE_TO_MOVE).unwrap(), vec![rook_move(300, 5)]);
}

#[test]
fn book_binary_empty_and_errors() {
    let empty = OpeningBook::new().to_binary().unwrap();
    assert_eq!(empty.len(), 48);
    let read = OpeningBook::from_binary(&empty).unwrap();
    assert!(!read.is_loaded());
    assert_eq!(read.get_stats().position_count, 0);

    let mut bad_magic = empty.clone();
    bad_magic[0] = b'X';
    match OpeningBook::from_binary(&bad_magic) {
        Err(OpeningBookError::BinaryFormatError(m)) => assert_eq!(m, "Invalid magic number"),
        _ => panic!("expected a format error"),
    }
    let mut bad_version = empty.clone();
    bad_version[4] = 7;
    match OpeningBook::from_binary(&bad_version) {
        Err(OpeningBookError::BinaryFormatError(m)) => assert_eq!(m, "Unsupported version: 7"),
        _ => panic!("expected a format error"),
    }

    // A table that runs past the data.
    let mut book = OpeningBook::new();
    book.add_position(START.to_string(), vec![pawn_move(1, 1)]);
    let bytes = book.to_binary().unwrap();
    assert!(OpeningBook::from_binary(&bytes[0..60]).is_err());

    // Loading replaces the positions; a failed load leaves the book as it was.
    let mut target = OpeningBook::new();
    target.add_position(WHITE_TO_MOVE.to_string(), vec![rook_move(2, 2)]);
    assert!(target.load_from_binary(&bad_magic).is_err());
    assert_eq!(target.get_stats().position_count, 1);
    target.load_from_binary(&bytes).unwrap();
    assert_eq!(target.get_moves(START).unwrap(), vec![pawn_move(1, 1)]);
    assert!(target.get_moves(WHITE_TO_MOVE).is_none());
    assert_eq!(target.get_stats().position_count, 1);
}

#[test]
fn book_random_move_checked_refuses_overweight_entries() {
    let mut book = OpeningBook::new();
    book.add_position(START.to_string(), vec![pawn_move(u32::MAX, 0), rook_move(1, 0)]);
    assert!(book.get_random_move_checked(START).is_none());
    book.add_position(WHITE_TO_MOVE.to_string(), vec![pawn_move(u32::MAX, 0)]);
    let m = book.get_random_move_checked(WHITE_TO_MOVE).unwrap();
    assert_eq!(m.piece_type, PieceType::Pawn);
    assert_eq!(m.player, Player::White);
    assert!(book.get_random_move_checked("9/9/9/9/9/9/9/9/9 b - 1").is_none());
}

#[test]
fn position_entry_weights_fit() {
    let entry = PositionEntry::new(START.to_string(), vec![pawn_move(u32::MAX, 0), rook_move(1, 0)]);
    assert!(!entry.weights_fit());
    let entry = PositionEntry::new(START.to_string(), vec![pawn_move(u32::MAX - 1, 0), rook_move(1, 0)]);
    assert!(entry.weights_fit());
}

#[test]
fn ranking_keeps_equal_weights_in_order() {
    let first = BookMove::new(Some(Position::new(6, 0)), Position::new(5, 0), PieceType::Pawn, false, false, 300, 1);
    let second = BookMove::new(Some(Position::new(6, 1)), Position::new(5, 1), PieceType::Pawn, false, false, 500, 2);
    let third = BookMove::new(Some(Position::new(6, 2)), Position::new(5, 2), PieceType::Pawn, false, false, 300, 3);
    let entry = PositionEntry::new(START.to_string(), vec![first.clone(), second.clone(), third.clone()]);
    let ranked = entry.get_moves_by_weight();
    assert_eq!(ranked, vec![&second, &first, &third]);
}

#[test]
fn book_side_to_move_after_any_white_space() {
    assert_eq!(OpeningBook::determine_player_from_fen("board\tw\u{3000}- 1"), Player::White);
    assert_eq!(OpeningBook::determine_player_from_fen("board\u{00a0}w - 1"), Player::White);
    assert_eq!(OpeningBook::determine_player_from_fen("boardw - 1"), Player::Black);
}
