use shogi_engine::kif_parser::KifGame;

#[test]
fn test_parse_move_line() {
    let line = "   1 ７六歩(77)";
    let kif_move = KifGame::parse_move_line(line);

    assert!(kif_move.is_some());
    let kif_move = kif_move.unwrap();
    assert_eq!(kif_move.move_number, 1);
    assert_eq!(kif_move.move_text, "７六歩");
}

#[test]
fn test_kif_to_usi() {
    let result = KifGame::kif_to_usi("７六歩");
    assert!(result.is_some());
}

#[test]
fn kif_move_line_details() {
    let m = KifGame::parse_move_line("  12 ２四飛(28)   ( 0:05/00:01:10)").unwrap();
    assert_eq!(m.move_number, 12);
    assert_eq!(m.move_text, "２四飛");
    assert_eq!(m.usi_move, Some("2d".to_string()));
    assert_eq!(m.comment, Some("28".to_string()));
}

#[test]
fn kif_move_line_rejects() {
    assert!(KifGame::parse_move_line("1").is_none());
    assert!(KifGame::parse_move_line("x ７六歩").is_none());
    assert!(KifGame::parse_move_line("1 ７六歩(77").is_none());
    let plain = KifGame::parse_move_line("3 投了").unwrap();
    assert_eq!(plain.comment, None);
    assert_eq!(plain.usi_move, None);
}

#[test]
fn kif_to_usi_ranks_and_files() {
    assert_eq!(KifGame::kif_to_usi("１一香"), Some("1a".to_string()));
    assert_eq!(KifGame::kif_to_usi("９九玉"), Some("9i".to_string()));
    assert_eq!(KifGame::kif_to_usi("55角"), Some("5e".to_string()));
    assert_eq!(KifGame::kif_to_usi("同　歩"), None);
    assert_eq!(KifGame::kif_to_usi("７"), None);
    assert_eq!(KifGame::kif_to_usi("70歩"), None);
}

#[test]
fn kif_from_string_reads_header_and_moves() {
    let content = "開始日時：2024/01/01\n持ち時間：10分\n先手：Alice\n後手：Bob\n手合割：平手\n\n1 ７六歩(77)\n手数----指手---------消費時間--\n   1 ７六歩(77)\n   2 ３四歩(33)\r\n   3 投了\n";
    let game = KifGame::from_string(content).unwrap();
    assert_eq!(game.metadata.date, Some("2024/01/01".to_string()));
    assert_eq!(game.metadata.time_control, Some("10分".to_string()));
    assert_eq!(game.metadata.player1_name, Some("Alice".to_string()));
    assert_eq!(game.metadata.player2_name, Some("Bob".to_string()));
    assert_eq!(game.metadata.game_type, Some("平手".to_string()));
    assert_eq!(game.moves.len(), 3);
    assert_eq!(game.moves[0].move_number, 1);
    assert_eq!(game.moves[1].move_text, "３四歩");
    assert_eq!(game.moves[1].usi_move, Some("3d".to_string()));
    assert_eq!(game.moves[2].move_text, "投了");
}

#[test]
fn kif_from_string_empty() {
    let game = KifGame::from_string("").unwrap();
    assert!(game.moves.is_empty());
    assert_eq!(game.metadata.date, None);
}
