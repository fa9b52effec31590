//! Endgame patterns: king activity, passed pawns, piece coordination, mating nets, major
//! piece activity, zugzwang, opposition, triangulation, a lone piece against pawns and
//! fortresses, each scored as a tapered score weighted towards the endgame.

use vstd::prelude::*;
use crate::bitboards::{BitboardBoard, abs_int, attacker_of_terms, board_sum, king_square, lemma_board_sum_bounds, square_of};
use crate::moves::{MoveGenerator, legal};
use crate::types::{CapturedPieces, Move, Piece, PieceType, Player, Position, TaperedScore, nominal_value};

verus! {

/// Counters of endgame pattern evaluation.
#[derive(Clone, Copy, Debug, Default, PartialEq, Eq, Structural)]
pub struct EndgamePatternStats {
    pub evaluations: u64,
    pub zugzwang_detections: u64,
    pub zugzwang_benefits: u64,
    pub zugzwang_penalties: u64,
    pub opposition_detections: u64,
    pub triangulation_detections: u64,
    pub unsafe_king_penalties: u64,
}

/// Which endgame patterns are evaluated, and the scaling of the king activity bonuses in
/// thousandths (1000 leaves a bonus as it is, 500 halves it).
#[derive(Clone, Copy, Debug, PartialEq, Eq, Structural)]
pub struct EndgamePatternConfig {
    pub enable_king_activity: bool,
    pub enable_passed_pawns: bool,
    pub enable_piece_coordination: bool,
    pub enable_mating_patterns: bool,
    pub enable_major_piece_activity: bool,
    pub enable_zugzwang: bool,
    pub enable_opposition: bool,
    pub enable_triangulation: bool,
    pub enable_piece_vs_pawns: bool,
    pub enable_fortress: bool,
    /// Whether drops count as moves in zugzwang detection (drops often break zugzwang).
    pub enable_zugzwang_drop_consideration: bool,
    pub king_activity_centralization_scale: u32,
    pub king_activity_activity_scale: u32,
    pub king_activity_advancement_scale: u32,
}

/// Every pattern on, bonuses unscaled.
pub open spec fn default_endgame_config() -> EndgamePatternConfig {
    EndgamePatternConfig {
        enable_king_activity: true,
        enable_passed_pawns: true,
        enable_piece_coordination: true,
        enable_mating_patterns: true,
        enable_major_piece_activity: true,
        enable_zugzwang: true,
        enable_opposition: true,
        enable_triangulation: true,
        enable_piece_vs_pawns: true,
        enable_fortress: true,
        enable_zugzwang_drop_consideration: true,
        king_activity_centralization_scale: 1000,
        king_activity_activity_scale: 1000,
        king_activity_advancement_scale: 1000,
    }
}

impl Default for EndgamePatternConfig {
    fn default() -> (r: Self)
        ensures
            r == default_endgame_config(),
    {
        EndgamePatternConfig {
            enable_king_activity: true,
            enable_passed_pawns: true,
            enable_piece_coordination: true,
            enable_mating_patterns: true,
            enable_major_piece_activity: true,
            enable_zugzwang: true,
            enable_opposition: true,
            enable_triangulation: true,
            enable_piece_vs_pawns: true,
            enable_fortress: true,
            enable_zugzwang_drop_consideration: true,
            king_activity_centralization_scale: 1000,
            king_activity_activity_scale: 1000,
            king_activity_advancement_scale: 1000,
        }
    }
}

// ----- squares and pieces -----

/// Whether `s` is a piece of `player` of kind `pt`.
pub open spec fn owns(s: Option<Piece>, player: Player, pt: PieceType) -> bool {
    s == Some(Piece { piece_type: pt, player })
}

/// The Manhattan distance between two squares.
pub open spec fn manhattan(a: Position, b: Position) -> int {
    abs_int(a.row - b.row) + abs_int(a.col - b.col)
}

/// The Manhattan distance of a square to the central square (4, 4).
pub open spec fn center_distance(p: Position) -> int {
    abs_int(p.row - 4) + abs_int(p.col - 4)
}

/// The back rank of `player`.
pub open spec fn back_row(player: Player) -> int {
    match player {
        Player::Black => 8,
        Player::White => 0,
    }
}

/// How far a pawn of `player` on `row` has advanced from its back rank.
pub open spec fn advancement(player: Player, row: int) -> int {
    match player {
        Player::Black => 8 - row,
        Player::White => row,
    }
}

/// Whether a square lies in the central 3x3 block.
pub open spec fn centralized(p: Position) -> bool {
    3 <= p.row <= 5 && 3 <= p.col <= 5
}

/// A rook, bishop, dragon or horse.
pub open spec fn major_kind(pt: PieceType) -> bool {
    pt == PieceType::Rook || pt == PieceType::Bishop || pt == PieceType::PromotedRook || pt
        == PieceType::PromotedBishop
}

/// `base` scaled by `scale` thousandths, rounded down.
pub open spec fn scaled(base: int, scale: u32) -> int {
    base * scale / 1000
}

/// Whether a piece of the opponent of `player` reaches `target`.
pub open spec fn attacked(b: Seq<Option<Piece>>, target: Position, player: Player) -> bool {
    board_sum(b, attacker_of_terms(b, player, target), 81) > 0
}

/// 1 when square `i` holds a piece of `player` of kind `pt`.
pub open spec fn kind_count_at(player: Player, pt: PieceType, i: int, s: Option<Piece>) -> int {
    if owns(s, player, pt) {
        1
    } else {
        0
    }
}

pub open spec fn kind_count_terms(player: Player, pt: PieceType) -> spec_fn(int, Option<Piece>) -> int {
    |i: int, s: Option<Piece>| kind_count_at(player, pt, i, s)
}

/// The number of pieces of `player` of kind `pt`.
pub open spec fn kind_count(b: Seq<Option<Piece>>, player: Player, pt: PieceType) -> int {
    board_sum(b, kind_count_terms(player, pt), 81)
}

/// 1 when square `i` holds a piece of `player`.
pub open spec fn owned_at(player: Player, i: int, s: Option<Piece>) -> int {
    if s matches Some(p) && p.player == player {
        1
    } else {
        0
    }
}

pub open spec fn owned_terms(player: Player) -> spec_fn(int, Option<Piece>) -> int {
    |i: int, s: Option<Piece>| owned_at(player, i, s)
}

/// 1 when square `i` holds a piece.
pub open spec fn occupied_at(i: int, s: Option<Piece>) -> int {
    if s is Some {
        1
    } else {
        0
    }
}

pub open spec fn occupied_terms() -> spec_fn(int, Option<Piece>) -> int {
    |i: int, s: Option<Piece>| occupied_at(i, s)
}

/// 1 when square `i` holds a pawn of either side.
pub open spec fn pawn_at(i: int, s: Option<Piece>) -> int {
    if s matches Some(p) && p.piece_type == PieceType::Pawn {
        1
    } else {
        0
    }
}

pub open spec fn pawn_terms() -> spec_fn(int, Option<Piece>) -> int {
    |i: int, s: Option<Piece>| pawn_at(i, s)
}

/// The material of `player` on the board: the nominal values of its pieces.
pub open spec fn material_at(player: Player, i: int, s: Option<Piece>) -> int {
    match s {
        Some(p) => if p.player == player {
            nominal_value(p.piece_type)
        } else {
            0
        },
        None => 0,
    }
}

pub open spec fn material_terms(player: Player) -> spec_fn(int, Option<Piece>) -> int {
    |i: int, s: Option<Piece>| material_at(player, i, s)
}

pub open spec fn material(b: Seq<Option<Piece>>, player: Player) -> int {
    board_sum(b, material_terms(player), 81)
}

/// The material of `player` minus that of its opponent.
pub open spec fn material_difference(b: Seq<Option<Piece>>, player: Player) -> int {
    material(b, player) - material(b, player.opposite_spec())
}

/// 1 when square `i` is a neighbour of `k` that is free or holds a piece of the opponent of
/// `player`: a square the king of `player` on `k` could step to.
pub open spec fn free_neighbour_at(k: Position, player: Player, i: int, s: Option<Piece>) -> int {
    let p = square_of(i);
    if abs_int(p.row - k.row) <= 1 && abs_int(p.col - k.col) <= 1 && i != k.index_spec() && !(s matches Some(
        q,
    ) && q.player == player) {
        1
    } else {
        0
    }
}

pub open spec fn free_neighbour_terms(k: Position, player: Player) -> spec_fn(int, Option<Piece>) -> int {
    |i: int, s: Option<Piece>| free_neighbour_at(k, player, i, s)
}

/// The number of squares around `k` the king of `player` there could step to.
pub open spec fn escape_squares(b: Seq<Option<Piece>>, k: Position, player: Player) -> int {
    board_sum(b, free_neighbour_terms(k, player), 81)
}

/// The weight of square `i` as a defender of the king of `player` on `k`: within two
/// squares (other than `k`), 2 for a gold or silver of `player`, 1 for another piece of it.
pub open spec fn defender_at(k: Position, player: Player, i: int, s: Option<Piece>) -> int {
    let p = square_of(i);
    if abs_int(p.row - k.row) <= 2 && abs_int(p.col - k.col) <= 2 && i != k.index_spec() {
        match s {
            Some(q) => if q.player == player {
                if q.piece_type == PieceType::Gold || q.piece_type == PieceType::Silver {
                    2
                } else {
                    1
                }
            } else {
                0
            },
            None => 0,
        }
    } else {
        0
    }
}

pub open spec fn defender_terms(k: Position, player: Player) -> spec_fn(int, Option<Piece>) -> int {
    |i: int, s: Option<Piece>| defender_at(k, player, i, s)
}

/// The squares of the pieces of `player` of kind `pt` among the first `n`, in row-major
/// order.
pub open spec fn piece_squares(b: Seq<Option<Piece>>, player: Player, pt: PieceType, n: int) -> Seq<Position>
    decreases n,
{
    if n <= 0 {
        Seq::empty()
    } else if owns(b[n - 1], player, pt) {
        piece_squares(b, player, pt, n - 1).push(square_of(n - 1))
    } else {
        piece_squares(b, player, pt, n - 1)
    }
}

/// Whether square `i` holds a pawn of the opponent of `player` on a file next to or on that
/// of `pawn`, further ahead than `pawn`.
pub open spec fn blocks_pawn(b: Seq<Option<Piece>>, pawn: Position, player: Player, i: int) -> bool {
    let p = square_of(i);
    &&& abs_int(p.col - pawn.col) <= 1
    &&& match player {
        Player::Black => p.row < pawn.row,
        Player::White => p.row > pawn.row,
    }
    &&& owns(b[i], player.opposite_spec(), PieceType::Pawn)
}

/// A passed pawn: no opposing pawn ahead of it on its file or the neighbouring ones.
pub open spec fn passed(b: Seq<Option<Piece>>, pawn: Position, player: Player) -> bool {
    forall|i: int| 0 <= i < 81 ==> !#[trigger] blocks_pawn(b, pawn, player, i)
}

/// The largest advancement of a pawn of `player` among the first `n` squares (0 without).
pub open spec fn max_pawn_advancement(b: Seq<Option<Piece>>, player: Player, n: int) -> int
    decreases n,
{
    if n <= 0 {
        0
    } else {
        let rest = max_pawn_advancement(b, player, n - 1);
        let here = if owns(b[n - 1], player, PieceType::Pawn) {
            advancement(player, (n - 1) / 9)
        } else {
            0
        };
        if here > rest {
            here
        } else {
            rest
        }
    }
}


// ----- the patterns -----

/// King activity (the king of `player` on `k`): a centralization bonus of 15 per step
/// closer to the centre than four (a quarter of it in the middlegame), 5 and 25 for
/// leaving the back rank, and 5 and 35 for crossing into the far half; the endgame bonuses
/// scaled by the configuration, the advancement one halved and followed by a penalty of
/// 20 when an opposing piece reaches the king.
pub open spec fn king_activity(b: Seq<Option<Piece>>, player: Player, c: EndgamePatternConfig) -> (int, int) {
    match king_square(b, player) {
        None => (0, 0),
        Some(k) => {
            let d = center_distance(k);
            let cent = scaled((4 - if d < 4 { d } else { 4 }) * 15, c.king_activity_centralization_scale);
            let active = k.row != back_row(player);
            let advanced = match player {
                Player::Black => k.row <= 4,
                Player::White => k.row >= 4,
            };
            let adv = scaled(35, c.king_activity_advancement_scale);
            (
                cent / 4 + (if active { 5int } else { 0 }) + (if advanced { 5int } else { 0 }),
                cent + (if active { scaled(25, c.king_activity_activity_scale) } else { 0 }) + (if advanced {
                    if attacked(b, k, player) {
                        adv / 2 - 20
                    } else {
                        adv
                    }
                } else {
                    0
                }),
            )
        },
    }
}

/// Whether the king of `player` has crossed into the far half while an opposing piece
/// reaches it.
pub open spec fn king_exposed(b: Seq<Option<Piece>>, player: Player) -> bool {
    match king_square(b, player) {
        None => false,
        Some(k) => (match player {
            Player::Black => k.row <= 4,
            Player::White => k.row >= 4,
        }) && attacked(b, k, player),
    }
}

/// The bonuses of the king of `player` and of the opposing king for a passed pawn on `p`:
/// 40 when the own king is within two steps, 50 when the opposing king is four or more
/// away.
pub open spec fn pawn_support(b: Seq<Option<Piece>>, player: Player, p: Position) -> int {
    (match king_square(b, player) {
        Some(k) => if manhattan(k, p) <= 2 {
            40int
        } else {
            0
        },
        None => 0,
    }) + (match king_square(b, player.opposite_spec()) {
        Some(k) => if manhattan(k, p) >= 4 {
            50int
        } else {
            0
        },
        None => 0,
    })
}

/// Middlegame value of square `i` as a passed pawn of `player`: 8 times the square of its
/// advancement.
pub open spec fn passed_mg_at(b: Seq<Option<Piece>>, player: Player, i: int, s: Option<Piece>) -> int {
    if owns(s, player, PieceType::Pawn) && passed(b, square_of(i), player) {
        advancement(player, i / 9) * advancement(player, i / 9) * 8
    } else {
        0
    }
}

pub open spec fn passed_mg_terms(b: Seq<Option<Piece>>, player: Player) -> spec_fn(int, Option<Piece>) -> int {
    |i: int, s: Option<Piece>| passed_mg_at(b, player, i, s)
}

/// Endgame value of square `i` as a passed pawn of `player`: 20 times the square of its
/// advancement, plus the king bonuses.
pub open spec fn passed_eg_at(b: Seq<Option<Piece>>, player: Player, i: int, s: Option<Piece>) -> int {
    if owns(s, player, PieceType::Pawn) && passed(b, square_of(i), player) {
        advancement(player, i / 9) * advancement(player, i / 9) * 20 + pawn_support(b, player, square_of(i))
    } else {
        0
    }
}

pub open spec fn passed_eg_terms(b: Seq<Option<Piece>>, player: Player) -> spec_fn(int, Option<Piece>) -> int {
    |i: int, s: Option<Piece>| passed_eg_at(b, player, i, s)
}

/// 1 when square `i` holds a bishop of `player` within four steps of `from`.
pub open spec fn near_bishop_at(player: Player, from: Position, i: int, s: Option<Piece>) -> int {
    if owns(s, player, PieceType::Bishop) && manhattan(from, square_of(i)) <= 4 {
        1
    } else {
        0
    }
}

pub open spec fn near_bishop_terms(player: Player, from: Position) -> spec_fn(int, Option<Piece>) -> int {
    |i: int, s: Option<Piece>| near_bishop_at(player, from, i, s)
}

/// For a rook of `player` on square `i`: the number of its bishops within four steps.
pub open spec fn rook_pairs_at(b: Seq<Option<Piece>>, player: Player, i: int, s: Option<Piece>) -> int {
    if owns(s, player, PieceType::Rook) {
        board_sum(b, near_bishop_terms(player, square_of(i)), 81)
    } else {
        0
    }
}

pub open spec fn rook_pairs_terms(b: Seq<Option<Piece>>, player: Player) -> spec_fn(int, Option<Piece>) -> int {
    |i: int, s: Option<Piece>| rook_pairs_at(b, player, i, s)
}

/// The number of (rook, bishop) pairs of `player` within four steps of each other.
pub open spec fn rook_bishop_pairs(b: Seq<Option<Piece>>, player: Player) -> int {
    board_sum(b, rook_pairs_terms(b, player), 81)
}

/// Squares `i` and `j` share a rank or a file.
pub open spec fn same_line(i: int, j: int) -> bool {
    i / 9 == j / 9 || i % 9 == j % 9
}

/// Whether the rook of `player` on square `i` has another rook of `player` after it in
/// row-major order on its rank or file.
pub open spec fn rook_partner(b: Seq<Option<Piece>>, player: Player, i: int) -> bool {
    exists|j: int| i < j < 81 && owns(b[j], player, PieceType::Rook) && #[trigger] same_line(i, j)
}

/// Whether two rooks of `player` share a rank or a file.
pub open spec fn rooks_share_line(b: Seq<Option<Piece>>, player: Player) -> bool {
    exists|i: int| 0 <= i < 81 && owns(b[i], player, PieceType::Rook) && #[trigger] rook_partner(b, player, i)
}

/// The proximity value of square `i` for `player`: for a rook, bishop, dragon or horse of
/// `player` within three steps of the opposing king on `k`, 20 per step closer than four.
pub open spec fn proximity_at(k: Position, player: Player, i: int, s: Option<Piece>) -> int {
    match s {
        Some(q) => if q.player == player && major_kind(q.piece_type) && manhattan(square_of(i), k) <= 3 {
            (4 - manhattan(square_of(i), k)) * 20
        } else {
            0
        },
        None => 0,
    }
}

pub open spec fn proximity_terms(k: Position, player: Player) -> spec_fn(int, Option<Piece>) -> int {
    |i: int, s: Option<Piece>| proximity_at(k, player, i, s)
}

pub open spec fn proximity_mg_terms(k: Position, player: Player) -> spec_fn(int, Option<Piece>) -> int {
    |i: int, s: Option<Piece>| proximity_at(k, player, i, s) / 2
}

/// Piece coordination: 15 and 35 per close (rook, bishop) pair, 30 and 60 for two rooks on
/// a line, and the proximity of the major pieces to the opposing king (half of it in the
/// middlegame).
pub open spec fn coordination(b: Seq<Option<Piece>>, player: Player) -> (int, int) {
    let pairs = rook_bishop_pairs(b, player);
    let line = rooks_share_line(b, player);
    let (pmg, peg) = match king_square(b, player.opposite_spec()) {
        Some(k) => (board_sum(b, proximity_mg_terms(k, player), 81), board_sum(b, proximity_terms(k, player), 81)),
        None => (0, 0),
    };
    (
        pairs * 15 + (if line { 30int } else { 0 }) + pmg,
        pairs * 35 + (if line { 60int } else { 0 }) + peg,
    )
}

/// Whether square `i` holds a piece of `player` of kind `pt` within `dist` steps of `k`.
pub open spec fn near_piece(b: Seq<Option<Piece>>, player: Player, pt: PieceType, k: Position, dist: int, i: int) -> bool {
    owns(b[i], player, pt) && manhattan(square_of(i), k) <= dist
}

/// Whether the king of `player` stands on its back rank with at most two squares to step to.
pub open spec fn back_rank_threat(b: Seq<Option<Piece>>, player: Player) -> bool {
    match king_square(b, player) {
        Some(k) => k.row == back_row(player) && escape_squares(b, k, player) <= 2,
        None => false,
    }
}

/// Whether square `i` holds a rook of `player` on the file of `k`, or a lance of `player`
/// on that file behind `k` as seen from `player`.
pub open spec fn ladder_piece(b: Seq<Option<Piece>>, player: Player, k: Position, i: int) -> bool {
    i % 9 == k.col && (owns(b[i], player, PieceType::Rook) || (owns(b[i], player, PieceType::Lance) && match player {
        Player::Black => i / 9 > k.row,
        Player::White => i / 9 < k.row,
    }))
}

/// A ladder mate: the opposing king on the first or last rank, with a rook or a lance of
/// `player` on its file.
pub open spec fn ladder_mate(b: Seq<Option<Piece>>, player: Player) -> bool {
    match king_square(b, player.opposite_spec()) {
        Some(k) => (k.row == 0 || k.row == 8) && exists|i: int| 0 <= i < 81 && #[trigger] ladder_piece(b, player, k, i),
        None => false,
    }
}

/// A mating net: the opposing king on an edge, with a rook and a bishop of `player` within
/// three steps of it.
pub open spec fn mating_net(b: Seq<Option<Piece>>, player: Player) -> bool {
    match king_square(b, player.opposite_spec()) {
        Some(k) => (k.row == 0 || k.row == 8 || k.col == 0 || k.col == 8) && (exists|i: int|
            0 <= i < 81 && #[trigger] near_piece(b, player, PieceType::Rook, k, 3, i)) && (exists|i: int|
            0 <= i < 81 && #[trigger] near_piece(b, player, PieceType::Bishop, k, 3, i)),
        None => false,
    }
}

/// Mating patterns: 50 and 100 for a back-rank threat against the opposing king, 80 in the
/// endgame for a ladder mate, 90 for a mating net.
pub open spec fn mating_patterns(b: Seq<Option<Piece>>, player: Player) -> (int, int) {
    let threat = back_rank_threat(b, player.opposite_spec());
    (
        if threat { 50int } else { 0 },
        (if threat { 100int } else { 0 }) + (if ladder_mate(b, player) { 80int } else { 0 }) + (if mating_net(b, player) {
            90int
        } else {
            0
        }),
    )
}

/// 1 when square `i` holds a piece of `player` of kind `pt` on rank `rank`.
pub open spec fn on_rank_at(player: Player, pt: PieceType, rank: int, i: int, s: Option<Piece>) -> int {
    if owns(s, player, pt) && i / 9 == rank {
        1
    } else {
        0
    }
}

pub open spec fn on_rank_terms(player: Player, pt: PieceType, rank: int) -> spec_fn(int, Option<Piece>) -> int {
    |i: int, s: Option<Piece>| on_rank_at(player, pt, rank, i, s)
}

/// 1 when square `i` holds a bishop of `player` on one of the two long diagonals.
pub open spec fn long_diagonal_at(player: Player, i: int, s: Option<Piece>) -> int {
    if owns(s, player, PieceType::Bishop) && (i / 9 == i % 9 || i / 9 + i % 9 == 8) {
        1
    } else {
        0
    }
}

pub open spec fn long_diagonal_terms(player: Player) -> spec_fn(int, Option<Piece>) -> int {
    |i: int, s: Option<Piece>| long_diagonal_at(player, i, s)
}

/// 1 when square `i` holds a rook, bishop, dragon or horse of `player` in the centre.
pub open spec fn central_major_at(player: Player, i: int, s: Option<Piece>) -> int {
    match s {
        Some(q) => if q.player == player && major_kind(q.piece_type) && centralized(square_of(i)) {
            1
        } else {
            0
        },
        None => 0,
    }
}

pub open spec fn central_major_terms(player: Player) -> spec_fn(int, Option<Piece>) -> int {
    |i: int, s: Option<Piece>| central_major_at(player, i, s)
}

/// The rank in front of the opposing back rank.
pub open spec fn seventh_rank(player: Player) -> int {
    match player {
        Player::Black => 1,
        Player::White => 7,
    }
}

/// Major piece activity: 25 and 50 per rook on the seventh rank, 20 and 40 per bishop on a
/// long diagonal, 15 and 30 per centralized rook, bishop, dragon or horse.
pub open spec fn major_activity(b: Seq<Option<Piece>>, player: Player) -> (int, int) {
    let r7 = board_sum(b, on_rank_terms(player, PieceType::Rook, seventh_rank(player)), 81);
    let bd = board_sum(b, long_diagonal_terms(player), 81);
    let cm = board_sum(b, central_major_terms(player), 81);
    (r7 * 25 + bd * 20 + cm * 15, r7 * 50 + bd * 40 + cm * 30)
}

/// The legal moves of `player` that are drops (`drops`) or board moves (`!drops`).
pub open spec fn legal_moves_of_kind(b: Seq<Option<Piece>>, hand: Seq<PieceType>, player: Player, drops: bool) -> Set<
    Move,
> {
    Set::new(|m: Move| legal(b, hand, player, m) && (m.from is None) == drops)
}

/// The number of moves of `player` counted for zugzwang: its legal board moves, plus its
/// legal drops when drops are considered.
pub open spec fn zugzwang_moves(b: Seq<Option<Piece>>, cp: CapturedPieces, player: Player, with_drops: bool) -> int {
    legal_moves_of_kind(b, cp.hand(player), player, false).len() + if with_drops {
        legal_moves_of_kind(b, cp.hand(player), player, true).len() as int
    } else {
        0
    }
}

/// The zugzwang outcome for `player`: 1 when the opponent has at most two moves and
/// `player` more than five, -1 in the reverse case, 0 otherwise.
pub open spec fn zugzwang_outcome(b: Seq<Option<Piece>>, cp: CapturedPieces, player: Player, with_drops: bool) -> int {
    let mine = zugzwang_moves(b, cp, player, with_drops);
    let theirs = zugzwang_moves(b, cp, player.opposite_spec(), with_drops);
    if theirs <= 2 && mine > 5 {
        1
    } else if mine <= 2 && theirs > 5 {
        -1
    } else {
        0
    }
}

/// The opposition value of the kings on `k` and `o` with `pawns` pawns on the board: 40 for
/// direct opposition, 20 for distant opposition on a file, 15 for diagonal opposition,
/// scaled to 75% with three or four pawns and 50% with five or six; none with more pawns.
pub open spec fn opposition_value(k: Position, o: Position, pawns: int) -> int {
    let fd = abs_int(k.col - o.col);
    let rd = abs_int(k.row - o.row);
    let base = if (fd == 0 && rd == 2) || (rd == 0 && fd == 2) {
        40int
    } else if fd == 0 && rd % 2 == 0 && rd > 2 {
        20
    } else if fd == rd && fd % 2 == 0 && fd > 1 {
        15
    } else {
        0
    };
    if pawns > 6 {
        0
    } else {
        base * (if pawns <= 2 { 100int } else if pawns <= 4 { 75 } else { 50 }) / 100
    }
}

/// What the opposition of two kings is worth in the endgame: kings two squares apart on a
/// file or a rank (direct opposition) 40, kings an even number of ranks more than two apart
/// on a file (distant opposition) 20, kings an even number of squares apart on a diagonal
/// 15; all at full value with at most two pawns on the board, three quarters with three or
/// four, half with five or six, and nothing with more.
pub proof fn law_opposition_values(k: Position, o: Position, pawns: int)
    requires
        0 <= pawns,
    ensures
        ({
            let full = if pawns <= 2 {
                4int
            } else if pawns <= 4 {
                3int
            } else if pawns <= 6 {
                2int
            } else {
                0int
            };
            let fd = abs_int(k.col - o.col);
            let rd = abs_int(k.row - o.row);
            &&& (fd == 0 && rd == 2) || (rd == 0 && fd == 2) ==> opposition_value(k, o, pawns) == 10 * full
            &&& fd == 0 && rd > 2 && rd % 2 == 0 ==> opposition_value(k, o, pawns) == 5 * full
            &&& fd == rd && fd >= 2 && fd % 2 == 0 ==> opposition_value(k, o, pawns) == 15 * full / 4
            &&& pawns > 6 ==> opposition_value(k, o, pawns) == 0
            &&& fd % 2 == 1 || rd % 2 == 1 ==> opposition_value(k, o, pawns) == 0
        }),
{
}

/// Opposition of the two kings (0 without both kings).
pub open spec fn opposition(b: Seq<Option<Piece>>, player: Player) -> int {
    match (king_square(b, player), king_square(b, player.opposite_spec())) {
        (Some(k), Some(o)) => opposition_value(k, o, board_sum(b, pawn_terms(), 81)),
        _ => 0,
    }
}

/// Whether `player` can triangulate: at most ten pieces on the board, its king free to
/// step to four squares or more and not attacked, the opposing king to at most three, and
/// `player` not behind in material.
pub open spec fn triangulation(b: Seq<Option<Piece>>, player: Player) -> bool {
    match (king_square(b, player), king_square(b, player.opposite_spec())) {
        (Some(k), Some(o)) => board_sum(b, occupied_terms(), 81) <= 10 && escape_squares(b, k, player) >= 4
            && escape_squares(b, o, player.opposite_spec()) <= 3 && !attacked(b, k, player) && material_difference(
            b,
            player,
        ) >= 0,
        _ => false,
    }
}

/// A lone piece against pawns: when `player` has a single piece and no pawn and the
/// opponent has pawns, 100 (30 once an opposing pawn has advanced five ranks) when that
/// piece is a rook, 60 (10 from four ranks) when it is a bishop.
pub open spec fn piece_vs_pawns(b: Seq<Option<Piece>>, player: Player) -> int {
    let opp = player.opposite_spec();
    let adv = max_pawn_advancement(b, opp, 81);
    if board_sum(b, owned_terms(player), 81) == 1 && kind_count(b, player, PieceType::Pawn) == 0 && kind_count(
        b,
        opp,
        PieceType::Pawn,
    ) >= 1 {
        if kind_count(b, player, PieceType::Rook) > 0 {
            if adv < 5 {
                100
            } else {
                30
            }
        } else if kind_count(b, player, PieceType::Bishop) > 0 {
            if adv < 4 {
                60
            } else {
                10
            }
        } else {
            0
        }
    } else {
        0
    }
}

/// A fortress: the king of `player` on the first or last rank with defenders worth two or
/// more, valued 120 when `player` is more than 500 behind in material and 60 when behind.
pub open spec fn fortress(b: Seq<Option<Piece>>, player: Player) -> int {
    match king_square(b, player) {
        Some(k) => if (k.row == 0 || k.row == 8) && board_sum(b, defender_terms(k, player), 81) >= 2 {
            if material_difference(b, player) < -500 {
                120
            } else if material_difference(b, player) < 0 {
                60
            } else {
                0
            }
        } else {
            0
        },
        None => 0,
    }
}

/// The endgame evaluator: configuration, counters and the move generator used for
/// zugzwang detection.
pub struct EndgamePatternEvaluator {
    config: EndgamePatternConfig,
    stats: EndgamePatternStats,
    move_generator: MoveGenerator,
}

impl EndgamePatternEvaluator {
    /// The counters.
    pub closed spec fn stats_spec(&self) -> EndgamePatternStats {
        self.stats
    }

    /// The configuration.
    pub closed spec fn config_spec(&self) -> EndgamePatternConfig {
        self.config
    }

    /// The move generator used for zugzwang detection.
    pub closed spec fn generator_spec(&self) -> MoveGenerator {
        self.move_generator
    }

    /// An evaluator with the default configuration and zeroed counters.
    pub fn new() -> (r: Self)
        ensures
            r.config_spec() == default_endgame_config(),
            r.stats_spec() == EndgamePatternStats::zero(),
            r.generator_spec().fresh(),
            r.generator_spec().magic_bitboard_enabled_spec() && r.generator_spec().batch_processing_enabled_spec(),
    {
        EndgamePatternEvaluator {
            config: EndgamePatternConfig::default(),
            stats: EndgamePatternStats::new_zero(),
            move_generator: MoveGenerator::new(),
        }
    }

    /// An evaluator with the given configuration and zeroed counters.
    pub fn with_config(config: EndgamePatternConfig) -> (r: Self)
        ensures
            r.config_spec() == config,
            r.stats_spec() == EndgamePatternStats::zero(),
            r.generator_spec().fresh(),
            r.generator_spec().magic_bitboard_enabled_spec() && r.generator_spec().batch_processing_enabled_spec(),
    {
        EndgamePatternEvaluator {
            config,
            stats: EndgamePatternStats::new_zero(),
            move_generator: MoveGenerator::new(),
        }
    }

    /// The configuration.
    pub fn config(&self) -> (r: &EndgamePatternConfig)
        ensures
            *r == self.config_spec(),
    {
        &self.config
    }

    /// The counters.
    pub fn stats(&self) -> (r: &EndgamePatternStats)
        ensures
            *r == self.stats_spec(),
    {
        &self.stats
    }

    /// Zeroes the counters.
    pub fn reset_stats(&mut self)
        ensures
            final(self).stats_spec() == EndgamePatternStats::zero(),
            final(self).config_spec() == old(self).config_spec(),
    {
        self.stats = EndgamePatternStats::new_zero();
    }

    /// The Manhattan distance of a square to the centre.
    pub fn distance_to_center(&self, pos: Position) -> (r: i32)
        ensures
            r == center_distance(pos),
    {
        let dr = pos.row as i32 - 4;
        let dc = pos.col as i32 - 4;
        (if dr < 0 { -dr } else { dr }) + (if dc < 0 { -dc } else { dc })
    }

    /// The Manhattan distance between two squares.
    pub fn manhattan_distance(&self, pos1: Position, pos2: Position) -> (r: i32)
        ensures
            r == manhattan(pos1, pos2),
    {
        let dr = pos1.row as i32 - pos2.row as i32;
        let dc = pos1.col as i32 - pos2.col as i32;
        (if dr < 0 { -dr } else { dr }) + (if dc < 0 { -dc } else { dc })
    }

    /// Whether a square lies in the central 3x3 block.
    pub fn is_centralized(&self, pos: Position) -> (r: bool)
        ensures
            r == centralized(pos),
    {
        pos.row >= 3 && pos.row <= 5 && pos.col >= 3 && pos.col <= 5
    }

    /// The square of the king of `player`, the first in row-major order.
    pub fn find_king_position(&self, board: &BitboardBoard, player: Player) -> (r: Option<Position>)
        requires
            board.wf(),
        ensures
            r == king_square(board@, player),
            r matches Some(p) ==> p.valid(),
    {
        board.find_king(player)
    }

    /// Whether a piece of the opponent of `player` reaches `king_pos`.
    pub fn is_king_under_attack(&self, board: &BitboardBoard, king_pos: Position, player: Player) -> (r: bool)
        requires
            board.wf(),
            king_pos.valid(),
        ensures
            r == attacked(board@, king_pos, player),
    {
        board.count_attackers(player, king_pos) > 0
    }

    /// The squares of the pieces of `player` of kind `piece_type`, in row-major order.
    pub fn find_pieces(&self, board: &BitboardBoard, player: Player, piece_type: PieceType) -> (r: Vec<Position>)
        requires
            board.wf(),
        ensures
            r@ == piece_squares(board@, player, piece_type, 81),
    {
        let mut out: Vec<Position> = Vec::new();
        let mut i: usize = 0;
        while i < 81
            invariant
                board.wf(),
                i <= 81,
                out@ == piece_squares(board@, player, piece_type, i as int),
            decreases 81 - i,
        {
            match board.get_piece_at_index(i) {
                Some(p) => {
                    if p.player == player && p.piece_type == piece_type {
                        out.push(Position::from_index(i as u8));
                    }
                },
                None => {},
            }
            i = i + 1;
        }
        out
    }

    /// The pawns of `player`, in row-major order.
    pub fn collect_pawns(&self, board: &BitboardBoard, player: Player) -> (r: Vec<Position>)
        requires
            board.wf(),
        ensures
            r@ == piece_squares(board@, player, PieceType::Pawn, 81),
    {
        self.find_pieces(board, player, PieceType::Pawn)
    }

    /// The number of pieces of `player` of kind `piece_type`.
    pub fn count_piece_type(&self, board: &BitboardBoard, player: Player, piece_type: PieceType) -> (r: i32)
        requires
            board.wf(),
        ensures
            r == kind_count(board@, player, piece_type),
            0 <= r <= 81,
    {
        let mut total: i32 = 0;
        let mut i: usize = 0;
        while i < 81
            invariant
                board.wf(),
                i <= 81,
                total == board_sum(board@, kind_count_terms(player, piece_type), i as int),
                0 <= total <= i,
            decreases 81 - i,
        {
            let v: i32 = match board.get_piece_at_index(i) {
                Some(p) => if p.player == player && p.piece_type == piece_type {
                    1
                } else {
                    0
                },
                None => 0,
            };
            assert(v == kind_count_at(player, piece_type, i as int, board@[i as int]));
            total = total + v;
            i = i + 1;
        }
        total
    }

    /// Whether `player` has a piece of kind `piece_type`.
    pub fn has_piece_type(&self, board: &BitboardBoard, player: Player, piece_type: PieceType) -> (r: bool)
        requires
            board.wf(),
        ensures
            r == (kind_count(board@, player, piece_type) > 0),
    {
        self.count_piece_type(board, player, piece_type) > 0
    }

    /// The number of pieces of `player`.
    pub fn count_pieces(&self, board: &BitboardBoard, player: Player) -> (r: i32)
        requires
            board.wf(),
        ensures
            r == board_sum(board@, owned_terms(player), 81),
            0 <= r <= 81,
    {
        let mut total: i32 = 0;
        let mut i: usize = 0;
        while i < 81
            invariant
                board.wf(),
                i <= 81,
                total == board_sum(board@, owned_terms(player), i as int),
                0 <= total <= i,
            decreases 81 - i,
        {
            let v: i32 = match board.get_piece_at_index(i) {
                Some(p) => if p.player == player {
                    1
                } else {
                    0
                },
                None => 0,
            };
            assert(v == owned_at(player, i as int, board@[i as int]));
            total = total + v;
            i = i + 1;
        }
        total
    }

    /// The number of pieces on the board.
    pub fn count_total_pieces(&self, board: &BitboardBoard) -> (r: i32)
        requires
            board.wf(),
        ensures
            r == board_sum(board@, occupied_terms(), 81),
            0 <= r <= 81,
    {
        let mut total: i32 = 0;
        let mut i: usize = 0;
        while i < 81
            invariant
                board.wf(),
                i <= 81,
                total == board_sum(board@, occupied_terms(), i as int),
                0 <= total <= i,
            decreases 81 - i,
        {
            let v: i32 = if board.get_piece_at_index(i).is_some() {
                1
            } else {
                0
            };
            assert(v == occupied_at(i as int, board@[i as int]));
            total = total + v;
            i = i + 1;
        }
        total
    }

    /// The number of pawns of both sides on the board.
    pub fn count_pawns_on_board(&self, board: &BitboardBoard) -> (r: i32)
        requires
            board.wf(),
        ensures
            r == board_sum(board@, pawn_terms(), 81),
            0 <= r <= 81,
    {
        let mut total: i32 = 0;
        let mut i: usize = 0;
        while i < 81
            invariant
                board.wf(),
                i <= 81,
                total == board_sum(board@, pawn_terms(), i as int),
                0 <= total <= i,
            decreases 81 - i,
        {
            let v: i32 = match board.get_piece_at_index(i) {
                Some(p) => if p.piece_type == PieceType::Pawn {
                    1
                } else {
                    0
                },
                None => 0,
            };
            assert(v == pawn_at(i as int, board@[i as int]));
            total = total + v;
            i = i + 1;
        }
        total
    }

    /// The material of `player` on the board.
    pub fn calculate_material(&self, board: &BitboardBoard, player: Player) -> (r: i32)
        requires
            board.wf(),
        ensures
            r == material(board@, player),
            0 <= r <= 81 * 20000,
    {
        let mut total: i32 = 0;
        let mut i: usize = 0;
        while i < 81
            invariant
                board.wf(),
                i <= 81,
                total == board_sum(board@, material_terms(player), i as int),
                0 <= total <= i * 20000,
            decreases 81 - i,
        {
            let v: i32 = match board.get_piece_at_index(i) {
                Some(p) => if p.player == player {
                    p.piece_type.base_value()
                } else {
                    0
                },
                None => 0,
            };
            assert(v == material_at(player, i as int, board@[i as int]));
            total = total + v;
            i = i + 1;
        }
        total
    }

    /// The material of `player` minus that of its opponent.
    pub fn get_material_difference(&self, board: &BitboardBoard, player: Player) -> (r: i32)
        requires
            board.wf(),
        ensures
            r == material_difference(board@, player),
    {
        let own = self.calculate_material(board, player);
        let theirs = self.calculate_material(board, player.opposite());
        own - theirs
    }

    /// The number of squares around `king_pos` the king of `player` there could step to:
    /// free or held by an opposing piece.
    pub fn count_escape_squares(&self, board: &BitboardBoard, king_pos: Position, player: Player) -> (r: i32)
        requires
            board.wf(),
            king_pos.valid(),
        ensures
            r == escape_squares(board@, king_pos, player),
            0 <= r <= 81,
    {
        let kr = king_pos.row as i32;
        let kc = king_pos.col as i32;
        let ki = king_pos.to_index() as usize;
        let mut total: i32 = 0;
        let mut i: usize = 0;
        while i < 81
            invariant
                board.wf(),
                i <= 81,
                kr == king_pos.row,
                kc == king_pos.col,
                ki == king_pos.index_spec(),
                total == board_sum(board@, free_neighbour_terms(king_pos, player), i as int),
                0 <= total <= i,
            decreases 81 - i,
        {
            let dr = (i / 9) as i32 - kr;
            let dc = (i % 9) as i32 - kc;
            let near = -1 <= dr && dr <= 1 && -1 <= dc && dc <= 1 && i != ki;
            let v: i32 = if near {
                match board.get_piece_at_index(i) {
                    Some(p) => if p.player != player {
                        1
                    } else {
                        0
                    },
                    None => 1,
                }
            } else {
                0
            };
            assert(v == free_neighbour_at(king_pos, player, i as int, board@[i as int]));
            total = total + v;
            i = i + 1;
        }
        total
    }

    /// The number of squares the king of `player` on `king_pos` could step to.
    pub fn count_king_safe_squares(&self, board: &BitboardBoard, king_pos: Position, player: Player) -> (r: i32)
        requires
            board.wf(),
            king_pos.valid(),
        ensures
            r == escape_squares(board@, king_pos, player),
            0 <= r <= 81,
    {
        self.count_escape_squares(board, king_pos, player)
    }

    /// The mobility of the opposing king: the squares it could step to.
    pub fn count_opponent_king_mobility(&self, board: &BitboardBoard, king_pos: Position, player: Player) -> (r:
        i32)
        requires
            board.wf(),
            king_pos.valid(),
        ensures
            r == escape_squares(board@, king_pos, player),
            0 <= r <= 81,
    {
        self.count_king_safe_squares(board, king_pos, player)
    }

    /// The defenders within two squares of the king of `player` on `king_pos`: 2 for each
    /// gold or silver, 1 for each other piece of `player`.
    pub fn count_defenders_near_king(&self, board: &BitboardBoard, king_pos: Position, player: Player) -> (r: i32)
        requires
            board.wf(),
            king_pos.valid(),
        ensures
            r == board_sum(board@, defender_terms(king_pos, player), 81),
            0 <= r <= 162,
    {
        let kr = king_pos.row as i32;
        let kc = king_pos.col as i32;
        let ki = king_pos.to_index() as usize;
        let mut total: i32 = 0;
        let mut i: usize = 0;
        while i < 81
            invariant
                board.wf(),
                i <= 81,
                kr == king_pos.row,
                kc == king_pos.col,
                ki == king_pos.index_spec(),
                total == board_sum(board@, defender_terms(king_pos, player), i as int),
                0 <= total <= 2 * i,
            decreases 81 - i,
        {
            let dr = (i / 9) as i32 - kr;
            let dc = (i % 9) as i32 - kc;
            let near = -2 <= dr && dr <= 2 && -2 <= dc && dc <= 2 && i != ki;
            let v: i32 = if near {
                match board.get_piece_at_index(i) {
                    Some(p) => if p.player == player {
                        if p.piece_type == PieceType::Gold || p.piece_type == PieceType::Silver {
                            2
                        } else {
                            1
                        }
                    } else {
                        0
                    },
                    None => 0,
                }
            } else {
                0
            };
            assert(v == defender_at(king_pos, player, i as int, board@[i as int]));
            total = total + v;
            i = i + 1;
        }
        total
    }

    /// Whether no opposing pawn stands ahead of `pawn_pos` on its file or the neighbouring
    /// ones.
    pub fn is_passed_pawn(&self, board: &BitboardBoard, pawn_pos: Position, player: Player) -> (r: bool)
        requires
            board.wf(),
            pawn_pos.valid(),
        ensures
            r == passed(board@, pawn_pos, player),
    {
        let opp = player.opposite();
        let mut i: usize = 0;
        while i < 81
            invariant
                board.wf(),
                i <= 81,
                opp == player.opposite_spec(),
                forall|j: int| 0 <= j < i ==> !#[trigger] blocks_pawn(board@, pawn_pos, player, j),
            decreases 81 - i,
        {
            let row = (i / 9) as u8;
            let col = (i % 9) as u8;
            let dc: i32 = col as i32 - pawn_pos.col as i32;
            let ahead = match player {
                Player::Black => row < pawn_pos.row,
                Player::White => row > pawn_pos.row,
            };
            let block = -1 <= dc && dc <= 1 && ahead && match board.get_piece_at_index(i) {
                Some(p) => p.player == opp && p.piece_type == PieceType::Pawn,
                None => false,
            };
            assert(block == blocks_pawn(board@, pawn_pos, player, i as int));
            if block {
                return false;
            }
            i = i + 1;
        }
        true
    }

    /// The largest advancement of a pawn of `player` (0 without pawns).
    pub fn evaluate_pawn_advancement(&self, board: &BitboardBoard, player: Player) -> (r: u8)
        requires
            board.wf(),
        ensures
            r == max_pawn_advancement(board@, player, 81),
    {
        let mut best: u8 = 0;
        let mut i: usize = 0;
        while i < 81
            invariant
                board.wf(),
                i <= 81,
                best == max_pawn_advancement(board@, player, i as int),
                best <= 8,
            decreases 81 - i,
        {
            let row = (i / 9) as u8;
            let here: u8 = match board.get_piece_at_index(i) {
                Some(p) => if p.player == player && p.piece_type == PieceType::Pawn {
                    match player {
                        Player::Black => 8 - row,
                        Player::White => row,
                    }
                } else {
                    0
                },
                None => 0,
            };
            if here > best {
                best = here;
            }
            i = i + 1;
        }
        best
    }
}


/// The value of `base` (at most 60) scaled by `scale` thousandths.
fn scale_bonus(base: i32, scale: u32) -> (r: i32)
    requires
        0 <= base <= 60,
    ensures
        r == scaled(base as int, scale),
        0 <= r <= 60 * 4294967295 / 1000,
{
    assert((base as u64) * (scale as u64) <= 60 * 4294967295) by (nonlinear_arith)
        requires
            0 <= base <= 60,
            scale <= 4294967295,
    ;
    let product: u64 = base as u64 * scale as u64;
    assert(product / 1000 <= 60 * 4294967295 / 1000) by (nonlinear_arith)
        requires
            product <= 60 * 4294967295,
    ;
    (product / 1000) as i32
}

impl EndgamePatternEvaluator {
    /// King activity (see `king_activity`); counts an exposed advanced king.
    pub fn evaluate_king_activity(&mut self, board: &BitboardBoard, player: Player) -> (r: TaperedScore)
        requires
            board.wf(),
            old(self).stats_spec().unsafe_king_penalties < u64::MAX,
        ensures
            r.mg == king_activity(board@, player, old(self).config_spec()).0,
            r.eg == king_activity(board@, player, old(self).config_spec()).1,
            0 <= r.mg <= 64424519,
            -20 <= r.eg <= 515396074,
            final(self).config_spec() == old(self).config_spec(),
            final(self).stats_spec() == (EndgamePatternStats {
                unsafe_king_penalties: (old(self).stats_spec().unsafe_king_penalties + if king_exposed(board@, player) {
                    1int
                } else {
                    0
                }) as u64,
                ..old(self).stats_spec()
            }),
    {
        let king_pos = match self.find_king_position(board, player) {
            Some(p) => p,
            None => {
                return TaperedScore::new_tapered(0, 0);
            },
        };
        let is_unsafe = self.is_king_under_attack(board, king_pos, player);
        let cd = self.distance_to_center(king_pos);
        let capped = if cd < 4 {
            cd
        } else {
            4
        };
        let cent = scale_bonus((4 - capped) * 15, self.config.king_activity_centralization_scale);
        let mut mg = cent / 4;
        let mut eg = cent;
        let back: u8 = match player {
            Player::Black => 8,
            Player::White => 0,
        };
        if king_pos.row != back {
            let activity = scale_bonus(25, self.config.king_activity_activity_scale);
            mg = mg + 5;
            eg = eg + activity;
        }
        let advanced = match player {
            Player::Black => king_pos.row <= 4,
            Player::White => king_pos.row >= 4,
        };
        if advanced {
            let mut advancement = scale_bonus(35, self.config.king_activity_advancement_scale);
            if is_unsafe {
                advancement = advancement / 2;
                self.stats.unsafe_king_penalties = self.stats.unsafe_king_penalties + 1;
                eg = eg - 20;
            }
            mg = mg + 5;
            eg = eg + advancement;
        }
        TaperedScore::new_tapered(mg, eg)
    }

    /// Passed pawns of `player`: 8 and 20 times the square of each one's advancement, with
    /// the king bonuses of `pawn_support` in the endgame.
    pub fn evaluate_passed_pawns_endgame(&self, board: &BitboardBoard, player: Player) -> (r: TaperedScore)
        requires
            board.wf(),
        ensures
            r.mg == board_sum(board@, passed_mg_terms(board@, player), 81),
            r.eg == board_sum(board@, passed_eg_terms(board@, player), 81),
            0 <= r.mg <= 81 * 512,
            0 <= r.eg <= 81 * 1370,
    {
        let own_king = self.find_king_position(board, player);
        let opp_king = self.find_king_position(board, player.opposite());
        let mut mg: i32 = 0;
        let mut eg: i32 = 0;
        let mut i: usize = 0;
        while i < 81
            invariant
                board.wf(),
                i <= 81,
                own_king == king_square(board@, player),
                opp_king == king_square(board@, player.opposite_spec()),
                mg == board_sum(board@, passed_mg_terms(board@, player), i as int),
                eg == board_sum(board@, passed_eg_terms(board@, player), i as int),
                0 <= mg <= 512 * i,
                0 <= eg <= 1370 * i,
            decreases 81 - i,
        {
            let (vm, ve) = self.passed_pawn_values(board, player, i, own_king, opp_king);
            mg = mg + vm;
            eg = eg + ve;
            i = i + 1;
        }
        TaperedScore::new_tapered(mg, eg)
    }

    fn passed_pawn_values(
        &self,
        board: &BitboardBoard,
        player: Player,
        i: usize,
        own_king: Option<Position>,
        opp_king: Option<Position>,
    ) -> (r: (i32, i32))
        requires
            board.wf(),
            i < 81,
            own_king == king_square(board@, player),
            opp_king == king_square(board@, player.opposite_spec()),
        ensures
            r.0 == passed_mg_at(board@, player, i as int, board@[i as int]),
            r.1 == passed_eg_at(board@, player, i as int, board@[i as int]),
            0 <= r.0 <= 512,
            0 <= r.1 <= 1370,
    {
        let is_own_pawn = match board.get_piece_at_index(i) {
            Some(p) => p.player == player && p.piece_type == PieceType::Pawn,
            None => false,
        };
        if !is_own_pawn {
            return (0, 0);
        }
        let pos = Position::from_index(i as u8);
        if !self.is_passed_pawn(board, pos, player) {
            return (0, 0);
        }
        let a: i32 = match player {
            Player::Black => 8 - pos.row as i32,
            Player::White => pos.row as i32,
        };
        assert(pos == square_of(i as int));
        assert(0 <= a * a <= 64) by (nonlinear_arith)
            requires
                0 <= a <= 8,
        ;
        let mut support: i32 = 0;
        match own_king {
            Some(k) => {
                if self.manhattan_distance(k, pos) <= 2 {
                    support = support + 40;
                }
            },
            None => {},
        }
        match opp_king {
            Some(k) => {
                if self.manhattan_distance(k, pos) >= 4 {
                    support = support + 50;
                }
            },
            None => {},
        }
        (a * a * 8, a * a * 20 + support)
    }

    /// The number of bishops of `player` within four steps of `from`.
    fn count_bishops_near(&self, board: &BitboardBoard, player: Player, from: Position) -> (r: i32)
        requires
            board.wf(),
        ensures
            r == board_sum(board@, near_bishop_terms(player, from), 81),
            0 <= r <= 81,
    {
        let mut total: i32 = 0;
        let mut i: usize = 0;
        while i < 81
            invariant
                board.wf(),
                i <= 81,
                total == board_sum(board@, near_bishop_terms(player, from), i as int),
                0 <= total <= i,
            decreases 81 - i,
        {
            let pos = Position::from_index(i as u8);
            assert(pos == square_of(i as int));
            let v: i32 = match board.get_piece_at_index(i) {
                Some(p) => if p.player == player && p.piece_type == PieceType::Bishop && self.manhattan_distance(
                    from,
                    pos,
                ) <= 4 {
                    1
                } else {
                    0
                },
                None => 0,
            };
            assert(v == near_bishop_at(player, from, i as int, board@[i as int]));
            total = total + v;
            i = i + 1;
        }
        total
    }

    /// 15 and 35 per pair of a rook and a bishop of `player` within four steps.
    pub fn evaluate_rook_bishop_coordination(&self, board: &BitboardBoard, player: Player) -> (r: TaperedScore)
        requires
            board.wf(),
        ensures
            r.mg == rook_bishop_pairs(board@, player) * 15,
            r.eg == rook_bishop_pairs(board@, player) * 35,
            0 <= rook_bishop_pairs(board@, player) <= 6561,
    {
        let mut total: i32 = 0;
        let mut i: usize = 0;
        while i < 81
            invariant
                board.wf(),
                i <= 81,
                total == board_sum(board@, rook_pairs_terms(board@, player), i as int),
                0 <= total <= 81 * i,
            decreases 81 - i,
        {
            let v: i32 = match board.get_piece_at_index(i) {
                Some(p) => if p.player == player && p.piece_type == PieceType::Rook {
                    let pos = Position::from_index(i as u8);
                    assert(pos == square_of(i as int));
                    self.count_bishops_near(board, player, pos)
                } else {
                    0
                },
                None => 0,
            };
            assert(v == rook_pairs_at(board@, player, i as int, board@[i as int]));
            total = total + v;
            i = i + 1;
        }
        TaperedScore::new_tapered(total * 15, total * 35)
    }

    /// Whether the rook of `player` on square `i` has another rook of `player` after it on
    /// its rank or file.
    fn rook_has_partner(&self, board: &BitboardBoard, player: Player, i: usize) -> (r: bool)
        requires
            board.wf(),
            i < 81,
        ensures
            r == rook_partner(board@, player, i as int),
    {
        let mut j: usize = i + 1;
        while j < 81
            invariant
                board.wf(),
                i < j <= 81,
                forall|k: int| i < k < j ==> !(owns(board@[k], player, PieceType::Rook) && #[trigger] same_line(i as int, k)),
            decreases 81 - j,
        {
            let hit = match board.get_piece_at_index(j) {
                Some(p) => p.player == player && p.piece_type == PieceType::Rook && (i / 9 == j / 9 || i % 9 == j % 9),
                None => false,
            };
            if hit {
                assert(owns(board@[j as int], player, PieceType::Rook) && same_line(i as int, j as int));
                return true;
            }
            j = j + 1;
        }
        false
    }

    /// 30 and 60 when two rooks of `player` share a rank or a file.
    pub fn evaluate_double_rook_coordination(&self, board: &BitboardBoard, player: Player) -> (r: TaperedScore)
        requires
            board.wf(),
        ensures
            r.mg == (if rooks_share_line(board@, player) { 30int } else { 0 }),
            r.eg == (if rooks_share_line(board@, player) { 60int } else { 0 }),
    {
        let mut i: usize = 0;
        while i < 81
            invariant
                board.wf(),
                i <= 81,
                forall|k: int| 0 <= k < i ==> !(owns(board@[k], player, PieceType::Rook) && #[trigger] rook_partner(board@, player, k)),
            decreases 81 - i,
        {
            let is_rook = match board.get_piece_at_index(i) {
                Some(p) => p.player == player && p.piece_type == PieceType::Rook,
                None => false,
            };
            if is_rook && self.rook_has_partner(board, player, i) {
                assert(owns(board@[i as int], player, PieceType::Rook) && rook_partner(board@, player, i as int));
                return TaperedScore::new_tapered(30, 60);
            }
            i = i + 1;
        }
        TaperedScore::new_tapered(0, 0)
    }

    /// The proximity of the rooks, bishops, dragons and horses of `player` to the opposing
    /// king (see `proximity_at`), half of it in the middlegame; nothing without that king.
    pub fn evaluate_piece_proximity_to_opponent_king(&self, board: &BitboardBoard, player: Player) -> (r: TaperedScore)
        requires
            board.wf(),
        ensures
            match king_square(board@, player.opposite_spec()) {
                Some(k) => r.mg == board_sum(board@, proximity_mg_terms(k, player), 81) && r.eg == board_sum(
                    board@,
                    proximity_terms(k, player),
                    81,
                ),
                None => r.mg == 0 && r.eg == 0,
            },
            0 <= r.mg <= 81 * 40,
            0 <= r.eg <= 81 * 80,
    {
        let k = match self.find_king_position(board, player.opposite()) {
            Some(p) => p,
            None => {
                return TaperedScore::new_tapered(0, 0);
            },
        };
        let mut mg: i32 = 0;
        let mut eg: i32 = 0;
        let mut i: usize = 0;
        while i < 81
            invariant
                board.wf(),
                i <= 81,
                mg == board_sum(board@, proximity_mg_terms(k, player), i as int),
                eg == board_sum(board@, proximity_terms(k, player), i as int),
                0 <= mg <= 40 * i,
                0 <= eg <= 80 * i,
            decreases 81 - i,
        {
            let pos = Position::from_index(i as u8);
            assert(pos == square_of(i as int));
            let v: i32 = match board.get_piece_at_index(i) {
                Some(p) => {
                    let major = match p.piece_type {
                        PieceType::Rook | PieceType::Bishop | PieceType::PromotedRook | PieceType::PromotedBishop => true,
                        _ => false,
                    };
                    let d = self.manhattan_distance(pos, k);
                    if p.player == player && major && d <= 3 {
                        (4 - d) * 20
                    } else {
                        0
                    }
                },
                None => 0,
            };
            assert(v == proximity_at(k, player, i as int, board@[i as int]));
            mg = mg + v / 2;
            eg = eg + v;
            i = i + 1;
        }
        TaperedScore::new_tapered(mg, eg)
    }

    /// Piece coordination (see `coordination`).
    pub fn evaluate_piece_coordination(&self, board: &BitboardBoard, player: Player) -> (r: TaperedScore)
        requires
            board.wf(),
        ensures
            r.mg == coordination(board@, player).0,
            r.eg == coordination(board@, player).1,
            0 <= r.mg <= 120000,
            0 <= r.eg <= 250000,
    {
        let rb = self.evaluate_rook_bishop_coordination(board, player);
        let dr = self.evaluate_double_rook_coordination(board, player);
        let kp = self.evaluate_piece_proximity_to_opponent_king(board, player);
        TaperedScore::new_tapered(rb.mg + dr.mg + kp.mg, rb.eg + dr.eg + kp.eg)
    }
}


/// The moves of `l` that are drops (`drops`) or board moves (`!drops`), in order.
pub open spec fn moves_of_kind(l: Seq<Move>, drops: bool) -> Seq<Move>
    decreases l.len(),
{
    if l.len() == 0 {
        Seq::empty()
    } else if (l.last().from is None) == drops {
        moves_of_kind(l.drop_last(), drops).push(l.last())
    } else {
        moves_of_kind(l.drop_last(), drops)
    }
}

proof fn lemma_moves_of_kind(l: Seq<Move>, drops: bool)
    requires
        l.no_duplicates(),
    ensures
        moves_of_kind(l, drops).no_duplicates(),
        forall|m: Move| #[trigger] moves_of_kind(l, drops).contains(m) <==> (l.contains(m) && (m.from is None) == drops),
        moves_of_kind(l, drops).len() <= l.len(),
    decreases l.len(),
{
    if l.len() > 0 {
        let init = l.drop_last();
        let x = l.last();
        assert(l =~= init.push(x));
        assert(init.no_duplicates());
        lemma_moves_of_kind(init, drops);
        let r = moves_of_kind(init, drops);
        assert(!init.contains(x)) by {
            if init.contains(x) {
                let k = choose|k: int| 0 <= k < init.len() && init[k] == x;
                assert(l[k] == l[l.len() - 1]);
            }
        }
        assert forall|m: Move| l.contains(m) <==> (init.contains(m) || m == x) by {
            if l.contains(m) {
                let k = choose|k: int| 0 <= k < l.len() && l[k] == m;
                if k < l.len() - 1 {
                    assert(init[k] == m);
                }
            }
            if init.contains(m) {
                let k = choose|k: int| 0 <= k < init.len() && init[k] == m;
                assert(l[k] == m);
            }
            if m == x {
                assert(l[l.len() - 1] == m);
            }
        }
        if (x.from is None) == drops {
            assert(moves_of_kind(l, drops) == r.push(x));
            assert forall|m: Move| r.push(x).contains(m) <==> (r.contains(m) || m == x) by {
                if r.push(x).contains(m) {
                    let k = choose|k: int| 0 <= k < r.len() + 1 && r.push(x)[k] == m;
                    if k < r.len() {
                        assert(r[k] == m);
                    }
                }
                if r.contains(m) {
                    let k = choose|k: int| 0 <= k < r.len() && r[k] == m;
                    assert(r.push(x)[k] == m);
                }
                if m == x {
                    assert(r.push(x)[r.len() as int] == m);
                }
            }
            assert(r.push(x).no_duplicates()) by {
                assert forall|a: int, c: int| 0 <= a < c < r.len() + 1 implies r.push(x)[a] != r.push(x)[c] by {
                    if c == r.len() {
                        assert(r.contains(r[a]));
                    }
                }
            }
            assert forall|m: Move| #[trigger] moves_of_kind(l, drops).contains(m) <==> (l.contains(m) && (m.from is None)
                == drops) by {
                assert(r.push(x).contains(m) <==> (r.contains(m) || m == x));
                assert(r.contains(m) <==> (init.contains(m) && (m.from is None) == drops));
            }
        } else {
            assert(moves_of_kind(l, drops) == r);
            assert forall|m: Move| #[trigger] moves_of_kind(l, drops).contains(m) <==> (l.contains(m) && (m.from is None)
                == drops) by {
                assert(r.contains(m) <==> (init.contains(m) && (m.from is None) == drops));
            }
        }
    } else {
        assert forall|m: Move| #[trigger] moves_of_kind(l, drops).contains(m) <==> (l.contains(m) && (m.from is None)
            == drops) by {
            assert(!l.contains(m));
        }
    }
}

/// A list of the legal moves of `player` holds as many moves of a kind as there are legal
/// moves of that kind.
proof fn lemma_kind_count(l: Seq<Move>, b: Seq<Option<Piece>>, hand: Seq<PieceType>, player: Player, drops: bool)
    requires
        l.no_duplicates(),
        forall|m: Move| l.contains(m) <==> legal(b, hand, player, m),
    ensures
        moves_of_kind(l, drops).len() == legal_moves_of_kind(b, hand, player, drops).len(),
{
    let f = moves_of_kind(l, drops);
    lemma_moves_of_kind(l, drops);
    assert(f.to_set() =~= legal_moves_of_kind(b, hand, player, drops));
    f.unique_seq_to_set();
}

impl EndgamePatternEvaluator {
    /// Whether square `i` holds a piece of `player` of kind `pt` within `dist` steps of `k`,
    /// for some square.
    fn any_piece_near(&self, board: &BitboardBoard, player: Player, pt: PieceType, k: Position, dist: i32) -> (r: bool)
        requires
            board.wf(),
        ensures
            r == exists|i: int| 0 <= i < 81 && #[trigger] near_piece(board@, player, pt, k, dist as int, i),
    {
        let mut i: usize = 0;
        while i < 81
            invariant
                board.wf(),
                i <= 81,
                forall|j: int| 0 <= j < i ==> !#[trigger] near_piece(board@, player, pt, k, dist as int, j),
            decreases 81 - i,
        {
            let pos = Position::from_index(i as u8);
            assert(pos == square_of(i as int));
            let hit = match board.get_piece_at_index(i) {
                Some(p) => p.player == player && p.piece_type == pt && self.manhattan_distance(pos, k) <= dist,
                None => false,
            };
            assert(hit == near_piece(board@, player, pt, k, dist as int, i as int));
            if hit {
                return true;
            }
            i = i + 1;
        }
        false
    }

    /// Whether the king of `player` stands on its back rank with at most two squares to
    /// step to.
    pub fn detect_back_rank_mate_threat(&self, board: &BitboardBoard, player: Player) -> (r: bool)
        requires
            board.wf(),
        ensures
            r == back_rank_threat(board@, player),
    {
        let king_pos = match self.find_king_position(board, player) {
            Some(p) => p,
            None => {
                return false;
            },
        };
        let back: u8 = match player {
            Player::Black => 8,
            Player::White => 0,
        };
        if king_pos.row != back {
            return false;
        }
        self.count_escape_squares(board, king_pos, player) <= 2
    }

    /// Whether a rook or a lance of `player` stands on the file of the opposing king on the
    /// first or last rank (see `ladder_mate`).
    pub fn detect_ladder_mate_pattern(&self, board: &BitboardBoard, player: Player) -> (r: bool)
        requires
            board.wf(),
        ensures
            r == ladder_mate(board@, player),
    {
        let k = match self.find_king_position(board, player.opposite()) {
            Some(p) => p,
            None => {
                return false;
            },
        };
        if !(k.row == 0 || k.row == 8) {
            return false;
        }
        let mut i: usize = 0;
        while i < 81
            invariant
                board.wf(),
                i <= 81,
                forall|j: int| 0 <= j < i ==> !#[trigger] ladder_piece(board@, player, k, j),
                king_square(board@, player.opposite_spec()) == Some(k),
                k.row == 0 || k.row == 8,
            decreases 81 - i,
        {
            let row = (i / 9) as u8;
            let col = (i % 9) as u8;
            let hit = col == k.col && match board.get_piece_at_index(i) {
                Some(p) => p.player == player && (p.piece_type == PieceType::Rook || (p.piece_type == PieceType::Lance
                    && match player {
                    Player::Black => row > k.row,
                    Player::White => row < k.row,
                })),
                None => false,
            };
            assert(hit == ladder_piece(board@, player, k, i as int));
            if hit {
                assert(exists|j: int| 0 <= j < 81 && #[trigger] ladder_piece(board@, player, k, j));
                assert(king_square(board@, player.opposite_spec())->0 == k);
                return true;
            }
            i = i + 1;
        }
        false
    }

    /// Whether the opposing king stands on an edge with a rook and a bishop of `player`
    /// within three steps.
    pub fn detect_bishop_rook_mating_net(&self, board: &BitboardBoard, player: Player) -> (r: bool)
        requires
            board.wf(),
        ensures
            r == mating_net(board@, player),
    {
        let k = match self.find_king_position(board, player.opposite()) {
            Some(p) => p,
            None => {
                return false;
            },
        };
        let is_edge = k.row == 0 || k.row == 8 || k.col == 0 || k.col == 8;
        if !is_edge {
            return false;
        }
        self.any_piece_near(board, player, PieceType::Rook, k, 3) && self.any_piece_near(
            board,
            player,
            PieceType::Bishop,
            k,
            3,
        )
    }

    /// Mating patterns (see `mating_patterns`).
    pub fn evaluate_mating_patterns(&self, board: &BitboardBoard, player: Player, captured_pieces: &CapturedPieces) -> (r:
        TaperedScore)
        requires
            board.wf(),
        ensures
            r.mg == mating_patterns(board@, player).0,
            r.eg == mating_patterns(board@, player).1,
            0 <= r.mg <= 50,
            0 <= r.eg <= 270,
    {
        let mut mg: i32 = 0;
        let mut eg: i32 = 0;
        if self.detect_back_rank_mate_threat(board, player.opposite()) {
            mg = mg + 50;
            eg = eg + 100;
        }
        if self.detect_ladder_mate_pattern(board, player) {
            eg = eg + 80;
        }
        if self.detect_bishop_rook_mating_net(board, player) {
            eg = eg + 90;
        }
        TaperedScore::new_tapered(mg, eg)
    }

    /// The number of pieces of `player` of kind `piece_type` on rank `rank`.
    pub fn count_pieces_on_rank(&self, board: &BitboardBoard, player: Player, piece_type: PieceType, rank: u8) -> (r:
        i32)
        requires
            board.wf(),
        ensures
            r == board_sum(board@, on_rank_terms(player, piece_type, rank as int), 81),
            0 <= r <= 81,
    {
        let mut total: i32 = 0;
        let mut i: usize = 0;
        while i < 81
            invariant
                board.wf(),
                i <= 81,
                total == board_sum(board@, on_rank_terms(player, piece_type, rank as int), i as int),
                0 <= total <= i,
            decreases 81 - i,
        {
            let v: i32 = match board.get_piece_at_index(i) {
                Some(p) => if p.player == player && p.piece_type == piece_type && (i / 9) as u8 == rank {
                    1
                } else {
                    0
                },
                None => 0,
            };
            assert(v == on_rank_at(player, piece_type, rank as int, i as int, board@[i as int]));
            total = total + v;
            i = i + 1;
        }
        total
    }

    /// The number of bishops of `player` on one of the two long diagonals.
    pub fn count_bishops_on_long_diagonal(&self, board: &BitboardBoard, player: Player) -> (r: i32)
        requires
            board.wf(),
        ensures
            r == board_sum(board@, long_diagonal_terms(player), 81),
            0 <= r <= 81,
    {
        let mut total: i32 = 0;
        let mut i: usize = 0;
        while i < 81
            invariant
                board.wf(),
                i <= 81,
                total == board_sum(board@, long_diagonal_terms(player), i as int),
                0 <= total <= i,
            decreases 81 - i,
        {
            let row = i / 9;
            let col = i % 9;
            let v: i32 = match board.get_piece_at_index(i) {
                Some(p) => if p.player == player && p.piece_type == PieceType::Bishop && (row == col || row + col == 8) {
                    1
                } else {
                    0
                },
                None => 0,
            };
            assert(v == long_diagonal_at(player, i as int, board@[i as int]));
            total = total + v;
            i = i + 1;
        }
        total
    }

    /// The number of rooks, bishops, dragons and horses of `player` in the centre.
    fn count_central_majors(&self, board: &BitboardBoard, player: Player) -> (r: i32)
        requires
            board.wf(),
        ensures
            r == board_sum(board@, central_major_terms(player), 81),
            0 <= r <= 81,
    {
        let mut total: i32 = 0;
        let mut i: usize = 0;
        while i < 81
            invariant
                board.wf(),
                i <= 81,
                total == board_sum(board@, central_major_terms(player), i as int),
                0 <= total <= i,
            decreases 81 - i,
        {
            let pos = Position::from_index(i as u8);
            assert(pos == square_of(i as int));
            let v: i32 = match board.get_piece_at_index(i) {
                Some(p) => {
                    let major = match p.piece_type {
                        PieceType::Rook | PieceType::Bishop | PieceType::PromotedRook | PieceType::PromotedBishop => true,
                        _ => false,
                    };
                    if p.player == player && major && self.is_centralized(pos) {
                        1
                    } else {
                        0
                    }
                },
                None => 0,
            };
            assert(v == central_major_at(player, i as int, board@[i as int]));
            total = total + v;
            i = i + 1;
        }
        total
    }

    /// Major piece activity (see `major_activity`).
    pub fn evaluate_major_piece_activity(&self, board: &BitboardBoard, player: Player) -> (r: TaperedScore)
        requires
            board.wf(),
        ensures
            r.mg == major_activity(board@, player).0,
            r.eg == major_activity(board@, player).1,
            0 <= r.mg <= 81 * 60,
            0 <= r.eg <= 81 * 120,
    {
        let seventh: u8 = match player {
            Player::Black => 1,
            Player::White => 7,
        };
        let rooks = self.count_pieces_on_rank(board, player, PieceType::Rook, seventh);
        let bishops = self.count_bishops_on_long_diagonal(board, player);
        let central = self.count_central_majors(board, player);
        TaperedScore::new_tapered(rooks * 25 + bishops * 20 + central * 15, rooks * 50 + bishops * 40 + central * 30)
    }

    /// The legal board moves and the legal drops of `player`.
    pub fn count_safe_moves(&self, board: &BitboardBoard, player: Player, captured_pieces: &CapturedPieces) -> (r: (
        i32,
        i32,
    ))
        requires
            board.wf(),
        ensures
            r.0 == legal_moves_of_kind(board@, captured_pieces.hand(player), player, false).len(),
            r.1 == legal_moves_of_kind(board@, captured_pieces.hand(player), player, true).len(),
            0 <= r.0 <= 14256,
            0 <= r.1 <= 14256,
    {
        let moves = self.move_generator.generate_legal_moves(board, player, captured_pieces);
        let mut regular: i32 = 0;
        let mut drops: i32 = 0;
        let mut i: usize = 0;
        while i < moves.len()
            invariant
                i <= moves@.len(),
                moves@.len() <= 14256,
                regular == moves_of_kind(moves@.take(i as int), false).len(),
                drops == moves_of_kind(moves@.take(i as int), true).len(),
                regular + drops == i,
            decreases moves@.len() - i,
        {
            assert(moves@.take(i + 1).drop_last() =~= moves@.take(i as int));
            if moves[i].from.is_none() {
                drops = drops + 1;
            } else {
                regular = regular + 1;
            }
            i = i + 1;
        }
        assert(moves@.take(moves@.len() as int) =~= moves@);
        proof {
            lemma_kind_count(moves@, board@, captured_pieces.hand(player), player, false);
            lemma_kind_count(moves@, board@, captured_pieces.hand(player), player, true);
        }
        (regular, drops)
    }
}


/// The endgame value of the zugzwang outcome `o`: 80 for a benefit, -60 for a penalty.
pub open spec fn zugzwang_value(o: int) -> int {
    if o == 1 {
        80
    } else if o == -1 {
        -60
    } else {
        0
    }
}

/// The counters after one zugzwang evaluation with outcome `o`.
pub open spec fn after_zugzwang(st: EndgamePatternStats, o: int) -> EndgamePatternStats {
    EndgamePatternStats {
        zugzwang_detections: (st.zugzwang_detections + if o != 0 { 1int } else { 0 }) as u64,
        zugzwang_benefits: (st.zugzwang_benefits + if o == 1 { 1int } else { 0 }) as u64,
        zugzwang_penalties: (st.zugzwang_penalties + if o == -1 { 1int } else { 0 }) as u64,
        ..st
    }
}

impl EndgamePatternEvaluator {
    /// Zugzwang: 80 in the endgame when the opponent has at most two moves and `player`
    /// more than five, -60 in the reverse case (see `zugzwang_outcome`); counts detections.
    pub fn evaluate_zugzwang(&mut self, board: &BitboardBoard, player: Player, captured_pieces: &CapturedPieces) -> (r:
        TaperedScore)
        requires
            board.wf(),
            old(self).stats_spec().zugzwang_detections < u64::MAX,
            old(self).stats_spec().zugzwang_benefits < u64::MAX,
            old(self).stats_spec().zugzwang_penalties < u64::MAX,
        ensures
            r.mg == 0,
            r.eg == zugzwang_value(
                zugzwang_outcome(board@, *captured_pieces, player, old(self).config_spec().enable_zugzwang_drop_consideration),
            ),
            final(self).config_spec() == old(self).config_spec(),
            final(self).stats_spec() == after_zugzwang(
                old(self).stats_spec(),
                zugzwang_outcome(board@, *captured_pieces, player, old(self).config_spec().enable_zugzwang_drop_consideration),
            ),
            -60 <= r.eg <= 80,
    {
        let opponent = player.opposite();
        let (player_moves, player_drops) = self.count_safe_moves(board, player, captured_pieces);
        let (opponent_moves, opponent_drops) = self.count_safe_moves(board, opponent, captured_pieces);
        let player_total = if self.config.enable_zugzwang_drop_consideration {
            player_moves + player_drops
        } else {
            player_moves
        };
        let opponent_total = if self.config.enable_zugzwang_drop_consideration {
            opponent_moves + opponent_drops
        } else {
            opponent_moves
        };
        if opponent_total <= 2 && player_total > 5 {
            self.stats.zugzwang_detections = self.stats.zugzwang_detections + 1;
            self.stats.zugzwang_benefits = self.stats.zugzwang_benefits + 1;
            return TaperedScore::new_tapered(0, 80);
        }
        if player_total <= 2 && opponent_total > 5 {
            self.stats.zugzwang_detections = self.stats.zugzwang_detections + 1;
            self.stats.zugzwang_penalties = self.stats.zugzwang_penalties + 1;
            return TaperedScore::new_tapered(0, -60);
        }
        TaperedScore::new_tapered(0, 0)
    }

    /// Opposition of the kings (see `opposition`); counts detections.
    pub fn evaluate_opposition(&mut self, board: &BitboardBoard, player: Player) -> (r: TaperedScore)
        requires
            board.wf(),
            old(self).stats_spec().opposition_detections < u64::MAX,
        ensures
            r.mg == 0,
            r.eg == opposition(board@, player),
            0 <= r.eg <= 40,
            final(self).config_spec() == old(self).config_spec(),
            final(self).stats_spec() == (EndgamePatternStats {
                opposition_detections: (old(self).stats_spec().opposition_detections + if opposition(board@, player) > 0 {
                    1int
                } else {
                    0
                }) as u64,
                ..old(self).stats_spec()
            }),
    {
        let king_pos = match self.find_king_position(board, player) {
            Some(p) => p,
            None => {
                return TaperedScore::new_tapered(0, 0);
            },
        };
        let opp_king_pos = match self.find_king_position(board, player.opposite()) {
            Some(p) => p,
            None => {
                return TaperedScore::new_tapered(0, 0);
            },
        };
        let pawn_count = self.count_pawns_on_board(board);
        if pawn_count > 6 {
            return TaperedScore::new_tapered(0, 0);
        }
        let fdi = king_pos.col as i32 - opp_king_pos.col as i32;
        let rdi = king_pos.row as i32 - opp_king_pos.row as i32;
        let file_diff = if fdi < 0 {
            -fdi
        } else {
            fdi
        };
        let rank_diff = if rdi < 0 {
            -rdi
        } else {
            rdi
        };
        let base_score: i32 = if (file_diff == 0 && rank_diff == 2) || (rank_diff == 0 && file_diff == 2) {
            40
        } else if file_diff == 0 && rank_diff % 2 == 0 && rank_diff > 2 {
            20
        } else if file_diff == rank_diff && file_diff % 2 == 0 && file_diff > 1 {
            15
        } else {
            0
        };
        if base_score > 0 {
            let scale_factor: i32 = if pawn_count <= 2 {
                100
            } else if pawn_count <= 4 {
                75
            } else {
                50
            };
            let scaled_score = (base_score * scale_factor) / 100;
            self.stats.opposition_detections = self.stats.opposition_detections + 1;
            return TaperedScore::new_tapered(0, scaled_score);
        }
        TaperedScore::new_tapered(0, 0)
    }

    /// Triangulation (see `triangulation`): 25 in the endgame; counts detections.
    pub fn evaluate_triangulation(&mut self, board: &BitboardBoard, player: Player) -> (r: TaperedScore)
        requires
            board.wf(),
            old(self).stats_spec().triangulation_detections < u64::MAX,
        ensures
            r.mg == 0,
            r.eg == (if triangulation(board@, player) { 25int } else { 0 }),
            0 <= r.eg <= 25,
            final(self).config_spec() == old(self).config_spec(),
            final(self).stats_spec() == (EndgamePatternStats {
                triangulation_detections: (old(self).stats_spec().triangulation_detections + if triangulation(
                    board@,
                    player,
                ) {
                    1int
                } else {
                    0
                }) as u64,
                ..old(self).stats_spec()
            }),
    {
        let king_pos = match self.find_king_position(board, player) {
            Some(p) => p,
            None => {
                return TaperedScore::new_tapered(0, 0);
            },
        };
        let piece_count = self.count_total_pieces(board);
        if piece_count > 10 {
            return TaperedScore::new_tapered(0, 0);
        }
        let king_mobility = self.count_king_safe_squares(board, king_pos, player);
        if king_mobility < 4 {
            return TaperedScore::new_tapered(0, 0);
        }
        let opponent = player.opposite();
        let opponent_king_pos = match self.find_king_position(board, opponent) {
            Some(p) => p,
            None => {
                return TaperedScore::new_tapered(0, 0);
            },
        };
        let opponent_mobility = self.count_opponent_king_mobility(board, opponent_king_pos, opponent);
        if opponent_mobility > 3 {
            return TaperedScore::new_tapered(0, 0);
        }
        if self.is_king_under_attack(board, king_pos, player) {
            return TaperedScore::new_tapered(0, 0);
        }
        let material_diff = self.get_material_difference(board, player);
        if material_diff < 0 {
            return TaperedScore::new_tapered(0, 0);
        }
        self.stats.triangulation_detections = self.stats.triangulation_detections + 1;
        TaperedScore::new_tapered(0, 25)
    }

    /// A lone piece against pawns (see `piece_vs_pawns`).
    pub fn evaluate_piece_vs_pawns(&self, board: &BitboardBoard, player: Player) -> (r: TaperedScore)
        requires
            board.wf(),
        ensures
            r.mg == 0,
            r.eg == piece_vs_pawns(board@, player),
            0 <= r.eg <= 100,
    {
        let player_pieces = self.count_pieces(board, player);
        let player_pawns = self.count_piece_type(board, player, PieceType::Pawn);
        let opp_pawns = self.count_piece_type(board, player.opposite(), PieceType::Pawn);
        if player_pieces == 1 && player_pawns == 0 && opp_pawns >= 1 {
            if self.has_piece_type(board, player, PieceType::Rook) {
                let pawn_advancement = self.evaluate_pawn_advancement(board, player.opposite());
                if pawn_advancement < 5 {
                    return TaperedScore::new_tapered(0, 100);
                } else {
                    return TaperedScore::new_tapered(0, 30);
                }
            }
            if self.has_piece_type(board, player, PieceType::Bishop) {
                let pawn_advancement = self.evaluate_pawn_advancement(board, player.opposite());
                if pawn_advancement < 4 {
                    return TaperedScore::new_tapered(0, 60);
                } else {
                    return TaperedScore::new_tapered(0, 10);
                }
            }
        }
        TaperedScore::new_tapered(0, 0)
    }

    /// A fortress (see `fortress`).
    pub fn evaluate_fortress(&self, board: &BitboardBoard, player: Player) -> (r: TaperedScore)
        requires
            board.wf(),
        ensures
            r.mg == 0,
            r.eg == fortress(board@, player),
            0 <= r.eg <= 120,
    {
        let king_pos = match self.find_king_position(board, player) {
            Some(p) => p,
            None => {
                return TaperedScore::new_tapered(0, 0);
            },
        };
        let is_corner = (king_pos.row == 0 || king_pos.row == 8) && (king_pos.col == 0 || king_pos.col == 8);
        if !is_corner && king_pos.row != 0 && king_pos.row != 8 {
            return TaperedScore::new_tapered(0, 0);
        }
        let defenders = self.count_defenders_near_king(board, king_pos, player);
        if defenders >= 2 {
            let material_diff = self.get_material_difference(board, player);
            if material_diff < -500 {
                return TaperedScore::new_tapered(0, 120);
            } else if material_diff < 0 {
                return TaperedScore::new_tapered(0, 60);
            }
        }
        TaperedScore::new_tapered(0, 0)
    }
}


/// The patterns with a middlegame part that the configuration enables, summed: king
/// activity, passed pawns, coordination, mating patterns and major piece activity.
pub open spec fn board_patterns(b: Seq<Option<Piece>>, player: Player, c: EndgamePatternConfig) -> (int, int) {
    let ka = if c.enable_king_activity { king_activity(b, player, c) } else { (0, 0) };
    let pp = if c.enable_passed_pawns {
        (board_sum(b, passed_mg_terms(b, player), 81), board_sum(b, passed_eg_terms(b, player), 81))
    } else {
        (0, 0)
    };
    let co = if c.enable_piece_coordination { coordination(b, player) } else { (0, 0) };
    let mp = if c.enable_mating_patterns { mating_patterns(b, player) } else { (0, 0) };
    let ma = if c.enable_major_piece_activity { major_activity(b, player) } else { (0, 0) };
    (ka.0 + pp.0 + co.0 + mp.0 + ma.0, ka.1 + pp.1 + co.1 + mp.1 + ma.1)
}

/// The endgame-only patterns that the configuration enables, summed: zugzwang,
/// opposition, triangulation, a lone piece against pawns and fortresses.
pub open spec fn endgame_only_patterns(b: Seq<Option<Piece>>, cp: CapturedPieces, player: Player, c: EndgamePatternConfig) -> int {
    let zz = if c.enable_zugzwang {
        zugzwang_value(zugzwang_outcome(b, cp, player, c.enable_zugzwang_drop_consideration))
    } else {
        0
    };
    let op = if c.enable_opposition { opposition(b, player) } else { 0 };
    let tr = if c.enable_triangulation && triangulation(b, player) { 25int } else { 0 };
    let pv = if c.enable_piece_vs_pawns { piece_vs_pawns(b, player) } else { 0 };
    let fo = if c.enable_fortress { fortress(b, player) } else { 0 };
    zz + op + tr + pv + fo
}

/// The endgame patterns of `player` that the configuration enables, summed.
pub open spec fn endgame_score(b: Seq<Option<Piece>>, cp: CapturedPieces, player: Player, c: EndgamePatternConfig) -> (
    int,
    int,
) {
    (board_patterns(b, player, c).0, board_patterns(b, player, c).1 + endgame_only_patterns(b, cp, player, c))
}

/// The counters after evaluating the endgame-only patterns of `player`.
pub open spec fn endgame_only_stats(
    st: EndgamePatternStats,
    b: Seq<Option<Piece>>,
    cp: CapturedPieces,
    player: Player,
    c: EndgamePatternConfig,
) -> EndgamePatternStats {
    let o = if c.enable_zugzwang {
        zugzwang_outcome(b, cp, player, c.enable_zugzwang_drop_consideration)
    } else {
        0
    };
    EndgamePatternStats {
        zugzwang_detections: (st.zugzwang_detections + if o != 0 { 1int } else { 0 }) as u64,
        zugzwang_benefits: (st.zugzwang_benefits + if o == 1 { 1int } else { 0 }) as u64,
        zugzwang_penalties: (st.zugzwang_penalties + if o == -1 { 1int } else { 0 }) as u64,
        opposition_detections: (st.opposition_detections + if c.enable_opposition && opposition(b, player) > 0 {
            1int
        } else {
            0
        }) as u64,
        triangulation_detections: (st.triangulation_detections + if c.enable_triangulation && triangulation(
            b,
            player,
        ) {
            1int
        } else {
            0
        }) as u64,
        ..st
    }
}

/// The counters after one evaluation of the endgame patterns of `player`: one more
/// evaluation, an exposed king when king activity is evaluated, and the detections of
/// the endgame-only patterns.
pub open spec fn endgame_stats(
    st: EndgamePatternStats,
    b: Seq<Option<Piece>>,
    cp: CapturedPieces,
    player: Player,
    c: EndgamePatternConfig,
) -> EndgamePatternStats {
    endgame_only_stats(
        EndgamePatternStats {
            evaluations: (st.evaluations + 1) as u64,
            unsafe_king_penalties: (st.unsafe_king_penalties + if c.enable_king_activity && king_exposed(b, player) {
                1int
            } else {
                0
            }) as u64,
            ..st
        },
        b,
        cp,
        player,
        c,
    )
}

/// None of the counters is at its limit.
pub open spec fn stats_below_limit(st: EndgamePatternStats) -> bool {
    &&& st.evaluations < u64::MAX
    &&& st.zugzwang_detections < u64::MAX
    &&& st.zugzwang_benefits < u64::MAX
    &&& st.zugzwang_penalties < u64::MAX
    &&& st.opposition_detections < u64::MAX
    &&& st.triangulation_detections < u64::MAX
    &&& st.unsafe_king_penalties < u64::MAX
}

impl EndgamePatternEvaluator {
    /// The endgame patterns of `player` that the configuration enables (see
    /// `endgame_score`), counting the evaluation and the detections.
    pub fn evaluate_endgame(&mut self, board: &BitboardBoard, player: Player, captured_pieces: &CapturedPieces) -> (r:
        TaperedScore)
        requires
            board.wf(),
            stats_below_limit(old(self).stats_spec()),
        ensures
            r.mg == endgame_score(board@, *captured_pieces, player, old(self).config_spec()).0,
            r.eg == endgame_score(board@, *captured_pieces, player, old(self).config_spec()).1,
            final(self).config_spec() == old(self).config_spec(),
            final(self).stats_spec() == endgame_stats(
                old(self).stats_spec(),
                board@,
                *captured_pieces,
                player,
                old(self).config_spec(),
            ),
    {
        self.stats.evaluations = self.stats.evaluations + 1;
        let board_part = self.evaluate_board_patterns(board, player, captured_pieces);
        let endgame_part = self.evaluate_endgame_only_patterns(board, player, captured_pieces);
        TaperedScore::new_tapered(board_part.mg, board_part.eg + endgame_part)
    }

    #[verifier::spinoff_prover]
    #[verifier::rlimit(40)]
    fn evaluate_board_patterns(&mut self, board: &BitboardBoard, player: Player, captured_pieces: &CapturedPieces) -> (r:
        TaperedScore)
        requires
            board.wf(),
            old(self).stats_spec().unsafe_king_penalties < u64::MAX,
        ensures
            r.mg == board_patterns(board@, player, old(self).config_spec()).0,
            r.eg == board_patterns(board@, player, old(self).config_spec()).1,
            0 <= r.mg <= 64424519 + 41472 + 120000 + 50 + 4860,
            -20 <= r.eg <= 515396074 + 110970 + 250000 + 270 + 9720,
            final(self).config_spec() == old(self).config_spec(),
            final(self).stats_spec() == (EndgamePatternStats {
                unsafe_king_penalties: (old(self).stats_spec().unsafe_king_penalties + if old(
                    self,
                ).config_spec().enable_king_activity && king_exposed(board@, player) {
                    1int
                } else {
                    0
                }) as u64,
                ..old(self).stats_spec()
            }),
    {
        let mut mg: i32 = 0;
        let mut eg: i32 = 0;
        if self.config.enable_king_activity {
            let s = self.evaluate_king_activity(board, player);
            mg = mg + s.mg;
            eg = eg + s.eg;
        }
        if self.config.enable_passed_pawns {
            let s = self.evaluate_passed_pawns_endgame(board, player);
            mg = mg + s.mg;
            eg = eg + s.eg;
        }
        if self.config.enable_piece_coordination {
            let s = self.evaluate_piece_coordination(board, player);
            mg = mg + s.mg;
            eg = eg + s.eg;
        }
        if self.config.enable_mating_patterns {
            let s = self.evaluate_mating_patterns(board, player, captured_pieces);
            mg = mg + s.mg;
            eg = eg + s.eg;
        }
        if self.config.enable_major_piece_activity {
            let s = self.evaluate_major_piece_activity(board, player);
            mg = mg + s.mg;
            eg = eg + s.eg;
        }
        TaperedScore::new_tapered(mg, eg)
    }

    fn evaluate_endgame_only_patterns(&mut self, board: &BitboardBoard, player: Player, captured_pieces: &CapturedPieces) -> (r: i32)
        requires
            board.wf(),
            old(self).stats_spec().zugzwang_detections < u64::MAX,
            old(self).stats_spec().zugzwang_benefits < u64::MAX,
            old(self).stats_spec().zugzwang_penalties < u64::MAX,
            old(self).stats_spec().opposition_detections < u64::MAX,
            old(self).stats_spec().triangulation_detections < u64::MAX,
        ensures
            r == endgame_only_patterns(board@, *captured_pieces, player, old(self).config_spec()),
            -60 <= r <= 365,
            final(self).config_spec() == old(self).config_spec(),
            final(self).stats_spec() == endgame_only_stats(
                old(self).stats_spec(),
                board@,
                *captured_pieces,
                player,
                old(self).config_spec(),
            ),
    {
        let mut eg: i32 = 0;
        if self.config.enable_zugzwang {
            let s = self.evaluate_zugzwang(board, player, captured_pieces);
            eg = eg + s.eg;
        }
        if self.config.enable_opposition {
            let s = self.evaluate_opposition(board, player);
            eg = eg + s.eg;
        }
        if self.config.enable_triangulation {
            let s = self.evaluate_triangulation(board, player);
            eg = eg + s.eg;
        }
        if self.config.enable_piece_vs_pawns {
            let s = self.evaluate_piece_vs_pawns(board, player);
            eg = eg + s.eg;
        }
        if self.config.enable_fortress {
            let s = self.evaluate_fortress(board, player);
            eg = eg + s.eg;
        }
        eg
    }
}

impl Default for EndgamePatternEvaluator {
    fn default() -> (r: Self)
        ensures
            r.config_spec() == default_endgame_config(),
            r.stats_spec() == EndgamePatternStats::zero(),
            r.generator_spec().fresh(),
            r.generator_spec().magic_bitboard_enabled_spec() && r.generator_spec().batch_processing_enabled_spec(),
    {
        Self::new()
    }
}

impl EndgamePatternStats {
    /// All counters at zero.
    pub open spec fn zero() -> EndgamePatternStats {
        EndgamePatternStats {
            evaluations: 0,
            zugzwang_detections: 0,
            zugzwang_benefits: 0,
            zugzwang_penalties: 0,
            opposition_detections: 0,
            triangulation_detections: 0,
            unsafe_king_penalties: 0,
        }
    }

    /// All counters at zero.
    pub fn new_zero() -> (r: Self)
        ensures
            r == Self::zero(),
    {
        EndgamePatternStats {
            evaluations: 0,
            zugzwang_detections: 0,
            zugzwang_benefits: 0,
            zugzwang_penalties: 0,
            opposition_detections: 0,
            triangulation_detections: 0,
            unsafe_king_penalties: 0,
        }
    }
}

} // verus!
