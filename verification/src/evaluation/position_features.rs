//! Positional features with separate middlegame and endgame weights: king safety, pawn
//! structure, mobility, control of the centre and development.

use vstd::prelude::*;
use crate::bitboards::{BitboardBoard, board_sum, king_square, square_of};
use crate::moves::{MoveGenerator, capture_count, legal};
use crate::types::{CapturedPieces, Move, Piece, PieceType, Player, Position, TaperedScore};

verus! {

// ----- squares around the king -----

/// Whether square `i` is one of the eight neighbours of `k`.
pub open spec fn neighbour(k: Position, i: int) -> bool {
    let dr = i / 9 - k.row;
    let dc = i % 9 - k.col;
    -1 <= dr <= 1 && -1 <= dc <= 1 && !(dr == 0 && dc == 0)
}

/// Shield value of an own piece next to the king, middlegame or endgame.
pub open spec fn shield_value(pt: PieceType, endgame: bool) -> int {
    match pt {
        PieceType::Gold => if endgame { 20 } else { 40 },
        PieceType::Silver => if endgame { 18 } else { 30 },
        PieceType::Pawn => if endgame { 12 } else { 20 },
        PieceType::Knight | PieceType::Lance => if endgame { 8 } else { 15 },
        _ => if endgame { 5 } else { 10 },
    }
}

pub open spec fn shield_at(k: Position, player: Player, endgame: bool, i: int, s: Option<Piece>) -> int {
    match s {
        Some(p) => if neighbour(k, i) && p.player == player {
            shield_value(p.piece_type, endgame)
        } else {
            0
        },
        None => 0,
    }
}

pub open spec fn shield_terms(k: Position, player: Player, endgame: bool) -> spec_fn(
    int,
    Option<Piece>,
) -> int {
    |i: int, s: Option<Piece>| shield_at(k, player, endgame, i, s)
}

/// The row in front of a king of `player` on row `r`.
pub open spec fn ahead_row(player: Player, r: int) -> int {
    match player {
        Player::Black => r - 1,
        Player::White => r + 1,
    }
}

/// 1 when square `i` holds an own pawn on one of the three squares in front of `k`.
pub open spec fn cover_at(k: Position, player: Player, i: int, s: Option<Piece>) -> int {
    if i / 9 == ahead_row(player, k.row as int) && -1 <= i % 9 - k.col <= 1 && s == Some(
        Piece { piece_type: PieceType::Pawn, player },
    ) {
        1
    } else {
        0
    }
}

pub open spec fn cover_terms(k: Position, player: Player) -> spec_fn(int, Option<Piece>) -> int {
    |i: int, s: Option<Piece>| cover_at(k, player, i, s)
}

/// Threat value of an enemy piece within two squares of the king.
pub open spec fn threat_value(pt: PieceType, endgame: bool) -> int {
    match pt {
        PieceType::Rook | PieceType::PromotedRook => if endgame { 30 } else { 50 },
        PieceType::Bishop | PieceType::PromotedBishop => if endgame { 28 } else { 45 },
        PieceType::Gold => if endgame { 20 } else { 30 },
        PieceType::Silver => if endgame { 18 } else { 25 },
        _ => if endgame { 10 } else { 15 },
    }
}

pub open spec fn attacker_at(k: Position, player: Player, endgame: bool, i: int, s: Option<Piece>) -> int {
    let dr = i / 9 - k.row;
    let dc = i % 9 - k.col;
    match s {
        Some(p) => if -2 <= dr <= 2 && -2 <= dc <= 2 && p.player != player {
            threat_value(p.piece_type, endgame)
        } else {
            0
        },
        None => 0,
    }
}

pub open spec fn attacker_terms(k: Position, player: Player, endgame: bool) -> spec_fn(
    int,
    Option<Piece>,
) -> int {
    |i: int, s: Option<Piece>| attacker_at(k, player, endgame, i, s)
}

/// 1 when square `i` is an empty neighbour of `k`.
pub open spec fn open_at(k: Position, i: int, s: Option<Piece>) -> int {
    if neighbour(k, i) && s is None {
        1
    } else {
        0
    }
}

pub open spec fn open_terms(k: Position) -> spec_fn(int, Option<Piece>) -> int {
    |i: int, s: Option<Piece>| open_at(k, i, s)
}

/// King safety of `player` with its king on `k`: shield plus pawn cover, minus enemy
/// pieces near the king and empty squares next to it.
pub open spec fn king_safety_at(b: Seq<Option<Piece>>, k: Position, player: Player, endgame: bool) -> int {
    board_sum(b, shield_terms(k, player, endgame), 81) + (if endgame {
        10int
    } else {
        25int
    }) * board_sum(b, cover_terms(k, player), 81) - board_sum(b, attacker_terms(k, player, endgame), 81)
        - (if endgame {
        10int
    } else {
        20int
    }) * board_sum(b, open_terms(k), 81)
}

/// King safety of `player` (0 without a king).
pub open spec fn king_safety(b: Seq<Option<Piece>>, player: Player, endgame: bool) -> int {
    match king_square(b, player) {
        Some(k) => king_safety_at(b, k, player, endgame),
        None => 0,
    }
}

// ----- pawns -----

pub open spec fn own_pawn(player: Player, s: Option<Piece>) -> bool {
    s == Some(Piece { piece_type: PieceType::Pawn, player })
}

/// The squares of the pawns of `player` among the first `n` squares, in row-major order.
pub open spec fn pawn_list(b: Seq<Option<Piece>>, player: Player, n: int) -> Seq<Position>
    decreases n,
{
    if n <= 0 {
        Seq::empty()
    } else if own_pawn(player, b[n - 1]) {
        pawn_list(b, player, n - 1).push(square_of(n - 1))
    } else {
        pawn_list(b, player, n - 1)
    }
}

/// The sum of `f` over the first `n` entries of `ps`.
pub open spec fn list_sum(ps: Seq<Position>, f: spec_fn(Position) -> int, n: int) -> int
    decreases n,
{
    if n <= 0 {
        0
    } else {
        list_sum(ps, f, n - 1) + f(ps[n - 1])
    }
}

/// Whether two squares are orthogonally adjacent.
pub open spec fn adjacent(p: Position, q: Position) -> bool {
    (p.col == q.col && (p.row == q.row + 1 || q.row == p.row + 1)) || (p.row == q.row && (p.col
        == q.col + 1 || q.col == p.col + 1))
}

/// The number of entries before index `m` adjacent to entry `j`.
pub open spec fn adjacent_before(ps: Seq<Position>, j: int, m: int) -> int
    decreases m,
{
    if m <= 0 {
        0
    } else {
        adjacent_before(ps, j, m - 1) + if adjacent(ps[m - 1], ps[j]) {
            1int
        } else {
            0int
        }
    }
}

/// The number of adjacent pairs among the first `n` entries.
pub open spec fn adjacent_pairs(ps: Seq<Position>, n: int) -> int
    decreases n,
{
    if n <= 0 {
        0
    } else {
        adjacent_pairs(ps, n - 1) + adjacent_before(ps, n - 1, n - 1)
    }
}

/// How far a pawn of `player` stands inside the rows nearest promotion.
pub open spec fn advancement(p: Position, player: Player) -> int {
    match player {
        Player::Black => if p.row < 2 { 2 - p.row } else { 0 },
        Player::White => if p.row > 6 { p.row - 6 } else { 0 },
    }
}

pub open spec fn advancement_terms(player: Player) -> spec_fn(Position) -> int {
    |p: Position| advancement(p, player)
}

/// 1 when square `i` holds a pawn of `player` next to `p`.
pub open spec fn neighbour_pawn_at(p: Position, player: Player, i: int, s: Option<Piece>) -> int {
    if neighbour(p, i) && own_pawn(player, s) {
        1
    } else {
        0
    }
}

pub open spec fn neighbour_pawn_terms(p: Position, player: Player) -> spec_fn(int, Option<Piece>) -> int {
    |i: int, s: Option<Piece>| neighbour_pawn_at(p, player, i, s)
}

/// A pawn with no pawn of its own side on any of the eight squares around it.
pub open spec fn isolated(b: Seq<Option<Piece>>, p: Position, player: Player) -> bool {
    board_sum(b, neighbour_pawn_terms(p, player), 81) == 0
}

pub open spec fn isolated_terms(b: Seq<Option<Piece>>, player: Player) -> spec_fn(Position) -> int {
    |p: Position| if isolated(b, p, player) { 1int } else { 0int }
}

/// Whether row `r` lies ahead of row `from` for `player`.
pub open spec fn ahead_of(player: Player, r: int, from: int) -> bool {
    match player {
        Player::Black => r < from,
        Player::White => r > from,
    }
}

/// 1 when square `i` holds an enemy pawn ahead of `p` on its file or an adjacent one.
pub open spec fn blocker_at(p: Position, player: Player, i: int, s: Option<Piece>) -> int {
    match s {
        Some(q) => if q.piece_type == PieceType::Pawn && q.player != player && ahead_of(
            player,
            i / 9,
            p.row as int,
        ) && -1 <= i % 9 - p.col <= 1 {
            1
        } else {
            0
        },
        None => 0,
    }
}

pub open spec fn blocker_terms(p: Position, player: Player) -> spec_fn(int, Option<Piece>) -> int {
    |i: int, s: Option<Piece>| blocker_at(p, player, i, s)
}

/// A pawn with no enemy pawn ahead of it on its own or an adjacent file.
pub open spec fn passed(b: Seq<Option<Piece>>, p: Position, player: Player) -> bool {
    board_sum(b, blocker_terms(p, player), 81) == 0
}

/// Squared distance travelled by a pawn of `player` from its own back rank.
pub open spec fn passed_weight(p: Position, player: Player) -> int {
    let a = match player {
        Player::Black => 8 - p.row,
        Player::White => p.row as int,
    };
    a * a
}

pub open spec fn passed_terms(b: Seq<Option<Piece>>, player: Player) -> spec_fn(Position) -> int {
    |p: Position| if passed(b, p, player) { passed_weight(p, player) } else { 0int }
}

/// The number of entries on file `c`.
pub open spec fn file_count(ps: Seq<Position>, c: int, n: int) -> int
    decreases n,
{
    if n <= 0 {
        0
    } else {
        file_count(ps, c, n - 1) + if ps[n - 1].col == c {
            1int
        } else {
            0int
        }
    }
}

/// Extra pawns on files `0..c`: each file with k >= 2 pawns counts k - 1.
pub open spec fn doubled_upto(ps: Seq<Position>, c: int) -> int
    decreases c,
{
    if c <= 0 {
        0
    } else {
        doubled_upto(ps, c - 1) + if file_count(ps, c - 1, ps.len() as int) >= 2 {
            file_count(ps, c - 1, ps.len() as int) - 1
        } else {
            0
        }
    }
}

/// The pawn-structure score of `player`: chains, advancement, isolation, passed and
/// doubled pawns (0 without pawns).
pub open spec fn pawn_structure(b: Seq<Option<Piece>>, player: Player, endgame: bool) -> int {
    let ps = pawn_list(b, player, 81);
    let n = ps.len() as int;
    if n == 0 {
        0
    } else {
        (if endgame { 12int } else { 18int }) * adjacent_pairs(ps, n) + (if endgame {
            20int
        } else {
            10int
        }) * list_sum(ps, advancement_terms(player), n) - (if endgame {
            30int
        } else {
            18int
        }) * list_sum(ps, isolated_terms(b, player), n) + (if endgame {
            12int
        } else {
            5int
        }) * list_sum(ps, passed_terms(b, player), n) - (if endgame {
            18int
        } else {
            12int
        }) * doubled_upto(ps, 9)
    }
}

/// A list of pawn squares of one board.
pub open spec fn pawn_squares(ps: Seq<Position>) -> bool {
    ps.len() <= 81 && forall|i: int| 0 <= i < ps.len() ==> (#[trigger] ps[i]).valid()
}

// ----- centre and development -----

/// Centre value of a piece type (middlegame, endgame).
pub open spec fn center_value(pt: PieceType, endgame: bool) -> int {
    match pt {
        PieceType::Pawn => if endgame { 8 } else { 15 },
        PieceType::Knight => if endgame { 15 } else { 25 },
        PieceType::Silver => if endgame { 18 } else { 22 },
        PieceType::Gold => if endgame { 16 } else { 20 },
        PieceType::Bishop => if endgame { 20 } else { 30 },
        PieceType::Rook => if endgame { 22 } else { 28 },
        PieceType::PromotedPawn => if endgame { 20 } else { 25 },
        PieceType::PromotedBishop => if endgame { 28 } else { 35 },
        PieceType::PromotedRook => if endgame { 26 } else { 32 },
        _ => 0,
    }
}

/// Signed centre contribution of square `i`: the full value on rows and columns 3 to 5,
/// half of it on the ring of rows and columns 2 to 6 around them.
pub open spec fn center_control_at(player: Player, endgame: bool, i: int, s: Option<Piece>) -> int {
    let row = i / 9;
    let col = i % 9;
    match s {
        Some(p) => {
            let v = if 3 <= row <= 5 && 3 <= col <= 5 {
                center_value(p.piece_type, endgame)
            } else if 2 <= row <= 6 && 2 <= col <= 6 {
                center_value(p.piece_type, endgame) / 2
            } else {
                0
            };
            if p.player == player {
                v
            } else {
                -v
            }
        },
        None => 0,
    }
}

pub open spec fn center_control_terms(player: Player, endgame: bool) -> spec_fn(
    int,
    Option<Piece>,
) -> int {
    |i: int, s: Option<Piece>| center_control_at(player, endgame, i, s)
}

/// The back rank of `player`.
pub open spec fn back_row(player: Player) -> int {
    match player {
        Player::Black => 8,
        Player::White => 0,
    }
}

/// Development bonus of a piece off its back rank (middlegame, endgame).
pub open spec fn development_value(pt: PieceType, endgame: bool) -> int {
    match pt {
        PieceType::Rook => if endgame { 8 } else { 30 },
        PieceType::Bishop => if endgame { 10 } else { 28 },
        PieceType::Silver => if endgame { 5 } else { 20 },
        PieceType::Gold => if endgame { 5 } else { 15 },
        _ => 0,
    }
}

/// The rank a piece of kind `pt` of `player` starts on: in front of the back rank for the
/// rook and the bishop, the back rank for the others.
pub open spec fn start_rank(pt: PieceType, player: Player) -> int {
    if pt == PieceType::Rook || pt == PieceType::Bishop {
        match player {
            Player::Black => 7,
            Player::White => 1,
        }
    } else {
        back_row(player)
    }
}

pub open spec fn development_at(player: Player, endgame: bool, i: int, s: Option<Piece>) -> int {
    match s {
        Some(p) => if p.player == player && i / 9 != start_rank(p.piece_type, player) {
            development_value(p.piece_type, endgame)
        } else {
            0
        },
        None => 0,
    }
}

pub open spec fn development_terms(player: Player, endgame: bool) -> spec_fn(
    int,
    Option<Piece>,
) -> int {
    |i: int, s: Option<Piece>| development_at(player, endgame, i, s)
}

/// `l` lists the legal moves of `player` without repetition.
pub open spec fn legal_move_list(b: Seq<Option<Piece>>, hand: Seq<PieceType>, player: Player, l: Seq<Move>) -> bool {
    l.no_duplicates() && forall|m: Move| l.contains(m) <==> legal(b, hand, player, m)
}

/// Which features are evaluated.
#[derive(Clone, Debug, PartialEq, Eq, Structural)]
pub struct PositionFeatureConfig {
    pub enable_king_safety: bool,
    pub enable_pawn_structure: bool,
    pub enable_mobility: bool,
    pub enable_center_control: bool,
    pub enable_development: bool,
}

impl Default for PositionFeatureConfig {
    /// Every feature enabled.
    fn default() -> (r: Self)
        ensures
            r.enable_king_safety && r.enable_pawn_structure && r.enable_mobility
                && r.enable_center_control && r.enable_development,
    {
        PositionFeatureConfig {
            enable_king_safety: true,
            enable_pawn_structure: true,
            enable_mobility: true,
            enable_center_control: true,
            enable_development: true,
        }
    }
}

/// Counters of the feature evaluations.
#[derive(Clone, Debug)]
pub struct PositionFeatureStats {
    pub king_safety_evals: u64,
    pub pawn_structure_evals: u64,
    pub mobility_evals: u64,
    pub center_control_evals: u64,
    pub development_evals: u64,
}

impl Default for PositionFeatureStats {
    fn default() -> (r: Self)
        ensures
            r.king_safety_evals == 0 && r.pawn_structure_evals == 0 && r.mobility_evals == 0
                && r.center_control_evals == 0 && r.development_evals == 0,
    {
        PositionFeatureStats {
            king_safety_evals: 0,
            pawn_structure_evals: 0,
            mobility_evals: 0,
            center_control_evals: 0,
            development_evals: 0,
        }
    }
}

/// Evaluates positional features.
pub struct PositionFeatureEvaluator {
    pub config: PositionFeatureConfig,
    pub stats: PositionFeatureStats,
}

fn shield_value_exec(pt: PieceType) -> (r: (i32, i32))
    ensures
        r.0 == shield_value(pt, false),
        r.1 == shield_value(pt, true),
{
    match pt {
        PieceType::Gold => (40, 20),
        PieceType::Silver => (30, 18),
        PieceType::Pawn => (20, 12),
        PieceType::Knight | PieceType::Lance => (15, 8),
        _ => (10, 5),
    }
}

fn threat_value_exec(pt: PieceType) -> (r: (i32, i32))
    ensures
        r.0 == threat_value(pt, false),
        r.1 == threat_value(pt, true),
{
    match pt {
        PieceType::Rook | PieceType::PromotedRook => (50, 30),
        PieceType::Bishop | PieceType::PromotedBishop => (45, 28),
        PieceType::Gold => (30, 20),
        PieceType::Silver => (25, 18),
        _ => (15, 10),
    }
}

fn center_value_exec(pt: PieceType) -> (r: (i32, i32))
    ensures
        r.0 == center_value(pt, false),
        r.1 == center_value(pt, true),
{
    match pt {
        PieceType::Pawn => (15, 8),
        PieceType::Knight => (25, 15),
        PieceType::Silver => (22, 18),
        PieceType::Gold => (20, 16),
        PieceType::Bishop => (30, 20),
        PieceType::Rook => (28, 22),
        PieceType::PromotedPawn => (25, 20),
        PieceType::PromotedBishop => (35, 28),
        PieceType::PromotedRook => (32, 26),
        _ => (0, 0),
    }
}

fn is_neighbour(k: Position, i: usize) -> (r: bool)
    requires
        k.valid(),
        i < 81,
    ensures
        r == neighbour(k, i as int),
{
    let dr = (i / 9) as i32 - k.row as i32;
    let dc = (i % 9) as i32 - k.col as i32;
    -1 <= dr && dr <= 1 && -1 <= dc && dc <= 1 && !(dr == 0 && dc == 0)
}

impl PositionFeatureEvaluator {
    /// An evaluator with every feature enabled.
    pub fn new() -> (r: Self)
        ensures
            r.config.enable_king_safety && r.config.enable_pawn_structure
                && r.config.enable_mobility && r.config.enable_center_control
                && r.config.enable_development,
            r.stats.king_safety_evals == 0 && r.stats.pawn_structure_evals == 0
                && r.stats.mobility_evals == 0 && r.stats.center_control_evals == 0
                && r.stats.development_evals == 0,
    {
        PositionFeatureEvaluator {
            config: PositionFeatureConfig::default(),
            stats: PositionFeatureStats::default(),
        }
    }

    /// An evaluator with the given configuration.
    pub fn with_config(config: PositionFeatureConfig) -> (r: Self)
        ensures
            r.config == config,
            r.stats.king_safety_evals == 0 && r.stats.pawn_structure_evals == 0
                && r.stats.mobility_evals == 0 && r.stats.center_control_evals == 0
                && r.stats.development_evals == 0,
    {
        PositionFeatureEvaluator { config, stats: PositionFeatureStats::default() }
    }

    /// The configuration.
    pub fn config(&self) -> (r: &PositionFeatureConfig)
        ensures
            r == &self.config,
    {
        &self.config
    }

    /// The counters.
    pub fn stats(&self) -> (r: &PositionFeatureStats)
        ensures
            r == &self.stats,
    {
        &self.stats
    }

    /// Zero the counters.
    pub fn reset_stats(&mut self)
        ensures
            final(self).config == old(self).config,
            final(self).stats.king_safety_evals == 0 && final(self).stats.pawn_structure_evals == 0
                && final(self).stats.mobility_evals == 0 && final(self).stats.center_control_evals
                == 0 && final(self).stats.development_evals == 0,
    {
        self.stats = PositionFeatureStats::default();
    }

    /// The square of the king of `player` (the first in row-major order).
    pub fn find_king_position(&self, board: &BitboardBoard, player: Player) -> (r: Option<Position>)
        requires
            board.wf(),
        ensures
            r == king_square(board@, player),
    {
        board.find_king(player)
    }

    /// Own pieces on the eight squares around the king, by kind.
    pub fn evaluate_king_shield(&self, board: &BitboardBoard, king_pos: Position, player: Player) -> (r:
        TaperedScore)
        requires
            board.wf(),
            king_pos.valid(),
        ensures
            r.mg == board_sum(board@, shield_terms(king_pos, player, false), 81),
            r.eg == board_sum(board@, shield_terms(king_pos, player, true), 81),
            0 <= r.mg <= 3240 && 0 <= r.eg <= 3240,
    {
        let mut mg: i32 = 0;
        let mut eg: i32 = 0;
        let mut i: usize = 0;
        while i < 81
            invariant
                board.wf(),
                king_pos.valid(),
                i <= 81,
                mg == board_sum(board@, shield_terms(king_pos, player, false), i as int),
                eg == board_sum(board@, shield_terms(king_pos, player, true), i as int),
                0 <= mg <= 40 * i,
                0 <= eg <= 40 * i,
            decreases 81 - i,
        {
            let mut v: (i32, i32) = (0, 0);
            match board.get_piece_at_index(i) {
                Some(p) => {
                    if is_neighbour(king_pos, i) && p.player == player {
                        v = shield_value_exec(p.piece_type);
                    }
                },
                None => {},
            }
            assert(v.0 == shield_at(king_pos, player, false, i as int, board@[i as int]));
            assert(v.1 == shield_at(king_pos, player, true, i as int, board@[i as int]));
            mg = mg + v.0;
            eg = eg + v.1;
            i = i + 1;
        }
        TaperedScore::new_tapered(mg, eg)
    }

    /// Own pawns on the three squares in front of the king: 25 each (10 in the endgame).
    pub fn evaluate_pawn_cover(&self, board: &BitboardBoard, king_pos: Position, player: Player) -> (r:
        TaperedScore)
        requires
            board.wf(),
            king_pos.valid(),
        ensures
            r.mg == 25 * board_sum(board@, cover_terms(king_pos, player), 81),
            r.eg == 10 * board_sum(board@, cover_terms(king_pos, player), 81),
            0 <= board_sum(board@, cover_terms(king_pos, player), 81) <= 81,
    {
        let front: i32 = match player {
            Player::Black => king_pos.row as i32 - 1,
            Player::White => king_pos.row as i32 + 1,
        };
        let mut count: i32 = 0;
        let mut i: usize = 0;
        while i < 81
            invariant
                board.wf(),
                king_pos.valid(),
                i <= 81,
                front == ahead_row(player, king_pos.row as int),
                count == board_sum(board@, cover_terms(king_pos, player), i as int),
                0 <= count <= i,
            decreases 81 - i,
        {
            let dc = (i % 9) as i32 - king_pos.col as i32;
            let v: i32 = match board.get_piece_at_index(i) {
                Some(p) => if (i / 9) as i32 == front && -1 <= dc && dc <= 1 && p.player == player
                    && p.piece_type == PieceType::Pawn {
                    1
                } else {
                    0
                },
                None => 0,
            };
            assert(v == cover_at(king_pos, player, i as int, board@[i as int]));
            count = count + v;
            i = i + 1;
        }
        TaperedScore::new_tapered(count * 25, count * 10)
    }

    /// Enemy pieces within two squares of the king, by kind.
    pub fn evaluate_enemy_attackers(&self, board: &BitboardBoard, king_pos: Position, player: Player) -> (r:
        TaperedScore)
        requires
            board.wf(),
            king_pos.valid(),
        ensures
            r.mg == board_sum(board@, attacker_terms(king_pos, player, false), 81),
            r.eg == board_sum(board@, attacker_terms(king_pos, player, true), 81),
            0 <= r.mg <= 4050 && 0 <= r.eg <= 4050,
    {
        let mut mg: i32 = 0;
        let mut eg: i32 = 0;
        let mut i: usize = 0;
        while i < 81
            invariant
                board.wf(),
                king_pos.valid(),
                i <= 81,
                mg == board_sum(board@, attacker_terms(king_pos, player, false), i as int),
                eg == board_sum(board@, attacker_terms(king_pos, player, true), i as int),
                0 <= mg <= 50 * i,
                0 <= eg <= 50 * i,
            decreases 81 - i,
        {
            let dr = (i / 9) as i32 - king_pos.row as i32;
            let dc = (i % 9) as i32 - king_pos.col as i32;
            let mut v: (i32, i32) = (0, 0);
            match board.get_piece_at_index(i) {
                Some(p) => {
                    if -2 <= dr && dr <= 2 && -2 <= dc && dc <= 2 && p.player != player {
                        v = threat_value_exec(p.piece_type);
                    }
                },
                None => {},
            }
            assert(v.0 == attacker_at(king_pos, player, false, i as int, board@[i as int]));
            assert(v.1 == attacker_at(king_pos, player, true, i as int, board@[i as int]));
            mg = mg + v.0;
            eg = eg + v.1;
            i = i + 1;
        }
        TaperedScore::new_tapered(mg, eg)
    }

    /// Empty squares next to the king: 20 each (10 in the endgame).
    pub fn evaluate_king_exposure(&self, board: &BitboardBoard, king_pos: Position, player: Player) -> (r:
        TaperedScore)
        requires
            board.wf(),
            king_pos.valid(),
        ensures
            r.mg == 20 * board_sum(board@, open_terms(king_pos), 81),
            r.eg == 10 * board_sum(board@, open_terms(king_pos), 81),
            0 <= board_sum(board@, open_terms(king_pos), 81) <= 81,
    {
        let mut count: i32 = 0;
        let mut i: usize = 0;
        while i < 81
            invariant
                board.wf(),
                king_pos.valid(),
                i <= 81,
                count == board_sum(board@, open_terms(king_pos), i as int),
                0 <= count <= i,
            decreases 81 - i,
        {
            let v: i32 = if is_neighbour(king_pos, i) && board.get_piece_at_index(i).is_none() {
                1
            } else {
                0
            };
            assert(v == open_at(king_pos, i as int, board@[i as int]));
            count = count + v;
            i = i + 1;
        }
        TaperedScore::new_tapered(count * 20, count * 10)
    }

    /// King safety: shield and pawn cover, less enemy pieces near the king and empty
    /// squares next to it; nothing without a king. Counts the evaluation.
    pub fn evaluate_king_safety(&mut self, board: &BitboardBoard, player: Player) -> (r: TaperedScore)
        requires
            board.wf(),
            old(self).stats.king_safety_evals < u64::MAX,
        ensures
            r.mg == king_safety(board@, player, false),
            r.eg == king_safety(board@, player, true),
            final(self).config == old(self).config,
            final(self).stats == (PositionFeatureStats {
                king_safety_evals: (old(self).stats.king_safety_evals + 1) as u64,
                ..old(self).stats
            }),
    {
        self.stats.king_safety_evals = self.stats.king_safety_evals + 1;
        let king_pos = match board.find_king(player) {
            Some(k) => k,
            None => {
                return TaperedScore::new_tapered(0, 0);
            },
        };
        let shield = self.evaluate_king_shield(board, king_pos, player);
        let cover = self.evaluate_pawn_cover(board, king_pos, player);
        let attackers = self.evaluate_enemy_attackers(board, king_pos, player);
        let exposure = self.evaluate_king_exposure(board, king_pos, player);
        let mg = shield.mg + cover.mg - attackers.mg - exposure.mg;
        let eg = shield.eg + cover.eg - attackers.eg - exposure.eg;
        TaperedScore::new_tapered(mg, eg)
    }

    /// The squares of the pawns of `player`, in row-major order.
    pub fn collect_pawns(&self, board: &BitboardBoard, player: Player) -> (r: Vec<Position>)
        requires
            board.wf(),
        ensures
            r@ == pawn_list(board@, player, 81),
            pawn_squares(r@),
    {
        let mut pawns: Vec<Position> = Vec::new();
        let mut i: usize = 0;
        while i < 81
            invariant
                board.wf(),
                i <= 81,
                pawns@ == pawn_list(board@, player, i as int),
                pawns@.len() <= i,
                forall|k: int| 0 <= k < pawns@.len() ==> (#[trigger] pawns@[k]).valid(),
            decreases 81 - i,
        {
            match board.get_piece_at_index(i) {
                Some(p) => {
                    if p.piece_type == PieceType::Pawn && p.player == player {
                        pawns.push(Position::from_index(i as u8));
                    }
                },
                None => {},
            }
            i = i + 1;
        }
        pawns
    }

    /// Orthogonally adjacent pairs among the pawns: 18 each (12 in the endgame).
    pub fn evaluate_pawn_chains(&self, pawns: &[Position]) -> (r: TaperedScore)
        requires
            pawn_squares(pawns@),
        ensures
            r.mg == 18 * adjacent_pairs(pawns@, pawns@.len() as int),
            r.eg == 12 * adjacent_pairs(pawns@, pawns@.len() as int),
            0 <= adjacent_pairs(pawns@, pawns@.len() as int) <= 6561,
    {
        let n = pawns.len();
        let mut count: i32 = 0;
        let mut j: usize = 0;
        while j < n
            invariant
                n == pawns@.len(),
                pawn_squares(pawns@),
                n <= 81,
                j <= n,
                count == adjacent_pairs(pawns@, j as int),
                0 <= count <= 81 * j,
            decreases n - j,
        {
            let mut i: usize = 0;
            let mut c: i32 = 0;
            while i < j
                invariant
                    n == pawns@.len(),
                    pawn_squares(pawns@),
                    j < n,
                    i <= j,
                    c == adjacent_before(pawns@, j as int, i as int),
                    0 <= c <= i,
                decreases j - i,
            {
                let a = pawns[i];
                let b = pawns[j];
                assert(a.valid() && b.valid());
                if (a.col == b.col && (a.row == b.row + 1 || b.row == a.row + 1)) || (a.row == b.row
                    && (a.col == b.col + 1 || b.col == a.col + 1)) {
                    c = c + 1;
                }
                i = i + 1;
            }
            count = count + c;
            j = j + 1;
        }
        TaperedScore::new_tapered(count * 18, count * 12)
    }

    /// Pawns inside the rows nearest promotion: 10 per row of advancement (20 in the
    /// endgame).
    pub fn evaluate_pawn_advancement(&self, pawns: &[Position], player: Player) -> (r: TaperedScore)
        requires
            pawn_squares(pawns@),
        ensures
            r.mg == 10 * list_sum(pawns@, advancement_terms(player), pawns@.len() as int),
            r.eg == 20 * list_sum(pawns@, advancement_terms(player), pawns@.len() as int),
            0 <= list_sum(pawns@, advancement_terms(player), pawns@.len() as int) <= 162,
    {
        let n = pawns.len();
        let mut total: i32 = 0;
        let mut i: usize = 0;
        while i < n
            invariant
                n == pawns@.len(),
                pawn_squares(pawns@),
                i <= n,
                total == list_sum(pawns@, advancement_terms(player), i as int),
                0 <= total <= 2 * i,
            decreases n - i,
        {
            let p = pawns[i];
            assert(p.valid());
            let a: i32 = match player {
                Player::Black => if p.row < 2 {
                    2 - p.row as i32
                } else {
                    0
                },
                Player::White => if p.row > 6 {
                    p.row as i32 - 6
                } else {
                    0
                },
            };
            total = total + a;
            i = i + 1;
        }
        TaperedScore::new_tapered(total * 10, total * 20)
    }

    /// Whether the pawn of `player` on `pawn_pos` has no pawn of its own side around it.
    pub fn is_pawn_isolated(&self, board: &BitboardBoard, pawn_pos: Position, player: Player) -> (r:
        bool)
        requires
            board.wf(),
            pawn_pos.valid(),
        ensures
            r == isolated(board@, pawn_pos, player),
    {
        let mut count: i32 = 0;
        let mut i: usize = 0;
        while i < 81
            invariant
                board.wf(),
                pawn_pos.valid(),
                i <= 81,
                count == board_sum(board@, neighbour_pawn_terms(pawn_pos, player), i as int),
                0 <= count <= i,
            decreases 81 - i,
        {
            let v: i32 = match board.get_piece_at_index(i) {
                Some(p) => if is_neighbour(pawn_pos, i) && p.piece_type == PieceType::Pawn
                    && p.player == player {
                    1
                } else {
                    0
                },
                None => 0,
            };
            assert(v == neighbour_pawn_at(pawn_pos, player, i as int, board@[i as int]));
            count = count + v;
            i = i + 1;
        }
        count == 0
    }

    /// Isolated pawns: -18 each (-30 in the endgame).
    pub fn evaluate_pawn_isolation(&self, board: &BitboardBoard, pawns: &[Position], player: Player) -> (r:
        TaperedScore)
        requires
            board.wf(),
            pawn_squares(pawns@),
        ensures
            r.mg == -18 * list_sum(pawns@, isolated_terms(board@, player), pawns@.len() as int),
            r.eg == -30 * list_sum(pawns@, isolated_terms(board@, player), pawns@.len() as int),
            0 <= list_sum(pawns@, isolated_terms(board@, player), pawns@.len() as int) <= 81,
    {
        let n = pawns.len();
        let mut count: i32 = 0;
        let mut i: usize = 0;
        while i < n
            invariant
                board.wf(),
                n == pawns@.len(),
                pawn_squares(pawns@),
                i <= n,
                count == list_sum(pawns@, isolated_terms(board@, player), i as int),
                0 <= count <= i,
            decreases n - i,
        {
            let p = pawns[i];
            if self.is_pawn_isolated(board, p, player) {
                count = count + 1;
            }
            i = i + 1;
        }
        TaperedScore::new_tapered(-(count * 18), -(count * 30))
    }

    /// Whether no enemy pawn stands ahead of the pawn of `player` on `pawn_pos`, on its own
    /// file or an adjacent one.
    pub fn is_passed_pawn(&self, board: &BitboardBoard, pawn_pos: Position, player: Player) -> (r:
        bool)
        requires
            board.wf(),
            pawn_pos.valid(),
        ensures
            r == passed(board@, pawn_pos, player),
    {
        let mut count: i32 = 0;
        let mut i: usize = 0;
        while i < 81
            invariant
                board.wf(),
                pawn_pos.valid(),
                i <= 81,
                count == board_sum(board@, blocker_terms(pawn_pos, player), i as int),
                0 <= count <= i,
            decreases 81 - i,
        {
            let row = (i / 9) as u8;
            let dc = (i % 9) as i32 - pawn_pos.col as i32;
            let ahead = match player {
                Player::Black => row < pawn_pos.row,
                Player::White => row > pawn_pos.row,
            };
            let v: i32 = match board.get_piece_at_index(i) {
                Some(p) => if p.piece_type == PieceType::Pawn && p.player != player && ahead && -1
                    <= dc && dc <= 1 {
                    1
                } else {
                    0
                },
                None => 0,
            };
            assert(v == blocker_at(pawn_pos, player, i as int, board@[i as int]));
            count = count + v;
            i = i + 1;
        }
        count == 0
    }

    /// Passed pawns: the square of their distance from the own back rank, times 5 (12 in
    /// the endgame).
    pub fn evaluate_passed_pawns(&self, board: &BitboardBoard, pawns: &[Position], player: Player) -> (r:
        TaperedScore)
        requires
            board.wf(),
            pawn_squares(pawns@),
        ensures
            r.mg == 5 * list_sum(pawns@, passed_terms(board@, player), pawns@.len() as int),
            r.eg == 12 * list_sum(pawns@, passed_terms(board@, player), pawns@.len() as int),
            0 <= list_sum(pawns@, passed_terms(board@, player), pawns@.len() as int) <= 64 * 81,
    {
        let n = pawns.len();
        let mut total: i32 = 0;
        let mut i: usize = 0;
        while i < n
            invariant
                board.wf(),
                n == pawns@.len(),
                pawn_squares(pawns@),
                i <= n,
                total == list_sum(pawns@, passed_terms(board@, player), i as int),
                0 <= total <= 64 * i,
            decreases n - i,
        {
            let p = pawns[i];
            assert(p.valid());
            if self.is_passed_pawn(board, p, player) {
                let a: i32 = match player {
                    Player::Black => 8 - p.row as i32,
                    Player::White => p.row as i32,
                };
                assert(a * a <= 64) by (nonlinear_arith)
                    requires
                        0 <= a <= 8,
                ;
                assert(a * a >= 0) by (nonlinear_arith);
                total = total + a * a;
            }
            i = i + 1;
        }
        TaperedScore::new_tapered(total * 5, total * 12)
    }

    /// Doubled pawns: each pawn beyond the first on a file, -12 (-18 in the endgame).
    pub fn evaluate_doubled_pawns(&self, pawns: &[Position]) -> (r: TaperedScore)
        requires
            pawn_squares(pawns@),
        ensures
            r.mg == -12 * doubled_upto(pawns@, 9),
            r.eg == -18 * doubled_upto(pawns@, 9),
            0 <= doubled_upto(pawns@, 9) <= 81,
    {
        let n = pawns.len();
        let mut counts: Vec<i32> = vec![0, 0, 0, 0, 0, 0, 0, 0, 0];
        let mut i: usize = 0;
        while i < n
            invariant
                n == pawns@.len(),
                pawn_squares(pawns@),
                i <= n,
                counts@.len() == 9,
                forall|c: int| 0 <= c < 9 ==> #[trigger] counts@[c] == file_count(pawns@, c, i as int),
                forall|c: int| 0 <= c < 9 ==> 0 <= #[trigger] counts@[c] <= i,
            decreases n - i,
        {
            let p = pawns[i];
            assert(p.valid());
            let c = p.col as usize;
            counts.set(c, counts[c] + 1);
            assert forall|d: int| 0 <= d < 9 implies #[trigger] counts@[d] == file_count(
                pawns@,
                d,
                i + 1,
            ) by {
                assert(file_count(pawns@, d, i + 1) == file_count(pawns@, d, i as int) + if pawns@[i as int].col
                    == d {
                    1int
                } else {
                    0int
                });
            }
            i = i + 1;
        }
        let mut doubled: i32 = 0;
        let mut c: usize = 0;
        while c < 9
            invariant
                n == pawns@.len(),
                n <= 81,
                c <= 9,
                counts@.len() == 9,
                forall|d: int| 0 <= d < 9 ==> #[trigger] counts@[d] == file_count(pawns@, d, n as int),
                forall|d: int| 0 <= d < 9 ==> 0 <= #[trigger] counts@[d] <= n,
                doubled == doubled_upto(pawns@, c as int),
                0 <= doubled <= 81 * c,
            decreases 9 - c,
        {
            let k = counts[c];
            if k >= 2 {
                doubled = doubled + (k - 1);
            }
            c = c + 1;
        }
        proof {
            lemma_doubled_bound(pawns@);
        }
        TaperedScore::new_tapered(-(doubled * 12), -(doubled * 18))
    }

    /// Pawn structure: chains, advancement, isolated, passed and doubled pawns; nothing
    /// without pawns. Counts the evaluation.
    pub fn evaluate_pawn_structure(&mut self, board: &BitboardBoard, player: Player) -> (r:
        TaperedScore)
        requires
            board.wf(),
            old(self).stats.pawn_structure_evals < u64::MAX,
        ensures
            r.mg == pawn_structure(board@, player, false),
            r.eg == pawn_structure(board@, player, true),
            final(self).config == old(self).config,
            final(self).stats == (PositionFeatureStats {
                pawn_structure_evals: (old(self).stats.pawn_structure_evals + 1) as u64,
                ..old(self).stats
            }),
    {
        self.stats.pawn_structure_evals = self.stats.pawn_structure_evals + 1;
        let pawns = self.collect_pawns(board, player);
        if pawns.len() == 0 {
            return TaperedScore::new_tapered(0, 0);
        }
        let chains = self.evaluate_pawn_chains(pawns.as_slice());
        let advancement = self.evaluate_pawn_advancement(pawns.as_slice(), player);
        let isolation = self.evaluate_pawn_isolation(board, pawns.as_slice(), player);
        let passed = self.evaluate_passed_pawns(board, pawns.as_slice(), player);
        let doubled = self.evaluate_doubled_pawns(pawns.as_slice());
        let mg = chains.mg + advancement.mg + isolation.mg + passed.mg + doubled.mg;
        let eg = chains.eg + advancement.eg + isolation.eg + passed.eg + doubled.eg;
        TaperedScore::new_tapered(mg, eg)
    }

    /// Centre value of a piece type (middlegame, endgame).
    pub fn get_center_control_value(&self, piece_type: PieceType) -> (r: TaperedScore)
        ensures
            r.mg == center_value(piece_type, false),
            r.eg == center_value(piece_type, true),
    {
        let v = center_value_exec(piece_type);
        TaperedScore::new_tapered(v.0, v.1)
    }

    /// Control of the centre: the full centre value of pieces on rows and columns 3 to 5,
    /// half of it on the ring around them, positive for own pieces. Counts the evaluation.
    pub fn evaluate_center_control(&mut self, board: &BitboardBoard, player: Player) -> (r:
        TaperedScore)
        requires
            board.wf(),
            old(self).stats.center_control_evals < u64::MAX,
        ensures
            r.mg == board_sum(board@, center_control_terms(player, false), 81),
            r.eg == board_sum(board@, center_control_terms(player, true), 81),
            final(self).config == old(self).config,
            final(self).stats == (PositionFeatureStats {
                center_control_evals: (old(self).stats.center_control_evals + 1) as u64,
                ..old(self).stats
            }),
    {
        self.stats.center_control_evals = self.stats.center_control_evals + 1;
        let mut mg: i32 = 0;
        let mut eg: i32 = 0;
        let mut i: usize = 0;
        while i < 81
            invariant
                board.wf(),
                i <= 81,
                mg == board_sum(board@, center_control_terms(player, false), i as int),
                eg == board_sum(board@, center_control_terms(player, true), i as int),
                -35 * i <= mg <= 35 * i,
                -35 * i <= eg <= 35 * i,
            decreases 81 - i,
        {
            let row = i / 9;
            let col = i % 9;
            let mut v: (i32, i32) = (0, 0);
            match board.get_piece_at_index(i) {
                Some(p) => {
                    let base = center_value_exec(p.piece_type);
                    let w: (i32, i32) = if 3 <= row && row <= 5 && 3 <= col && col <= 5 {
                        base
                    } else if 2 <= row && row <= 6 && 2 <= col && col <= 6 {
                        (base.0 / 2, base.1 / 2)
                    } else {
                        (0, 0)
                    };
                    if p.player == player {
                        v = w;
                    } else {
                        v = (-w.0, -w.1);
                    }
                },
                None => {},
            }
            assert(v.0 == center_control_at(player, false, i as int, board@[i as int]));
            assert(v.1 == center_control_at(player, true, i as int, board@[i as int]));
            mg = mg + v.0;
            eg = eg + v.1;
            i = i + 1;
        }
        TaperedScore::new_tapered(mg, eg)
    }

    /// The development bonus of a rook, bishop, silver or gold of `player` on `pos` off the
    /// rank it starts on; none for other kinds or on the starting rank.
    pub fn get_development_bonus(&self, piece_type: PieceType, pos: Position, player: Player) -> (r: Option<TaperedScore>)
        ensures
            match r {
                Some(t) => pos.row != start_rank(piece_type, player) && t.mg == development_value(piece_type, false)
                    && t.eg == development_value(piece_type, true) && development_value(piece_type, false) != 0,
                None => pos.row == start_rank(piece_type, player) || development_value(piece_type, false) == 0,
            },
    {
        let start: u8 = match piece_type {
            PieceType::Rook | PieceType::Bishop => match player {
                Player::Black => 7,
                Player::White => 1,
            },
            _ => match player {
                Player::Black => 8,
                Player::White => 0,
            },
        };
        if pos.row == start {
            return None;
        }
        match piece_type {
            PieceType::Rook => Some(TaperedScore::new_tapered(30, 8)),
            PieceType::Bishop => Some(TaperedScore::new_tapered(28, 10)),
            PieceType::Silver => Some(TaperedScore::new_tapered(20, 5)),
            PieceType::Gold => Some(TaperedScore::new_tapered(15, 5)),
            _ => None,
        }
    }

    /// Development: rooks, bishops, silvers and golds of `player` off their back rank.
    /// Counts the evaluation.
    pub fn evaluate_development(&mut self, board: &BitboardBoard, player: Player) -> (r:
        TaperedScore)
        requires
            board.wf(),
            old(self).stats.development_evals < u64::MAX,
        ensures
            r.mg == board_sum(board@, development_terms(player, false), 81),
            r.eg == board_sum(board@, development_terms(player, true), 81),
            final(self).config == old(self).config,
            final(self).stats == (PositionFeatureStats {
                development_evals: (old(self).stats.development_evals + 1) as u64,
                ..old(self).stats
            }),
    {
        self.stats.development_evals = self.stats.development_evals + 1;
        let mut mg: i32 = 0;
        let mut eg: i32 = 0;
        let mut i: usize = 0;
        while i < 81
            invariant
                board.wf(),
                i <= 81,
                mg == board_sum(board@, development_terms(player, false), i as int),
                eg == board_sum(board@, development_terms(player, true), i as int),
                0 <= mg <= 30 * i,
                0 <= eg <= 30 * i,
            decreases 81 - i,
        {
            let mut v: (i32, i32) = (0, 0);
            match board.get_piece_at_index(i) {
                Some(p) => {
                    if p.player == player {
                        let pos = Position::from_index(i as u8);
                        match self.get_development_bonus(p.piece_type, pos, player) {
                            Some(bonus) => {
                                v = (bonus.mg, bonus.eg);
                            },
                            None => {},
                        }
                    }
                },
                None => {},
            }
            assert(v.0 == development_at(player, false, i as int, board@[i as int]));
            assert(v.1 == development_at(player, true, i as int, board@[i as int]));
            mg = mg + v.0;
            eg = eg + v.1;
            i = i + 1;
        }
        TaperedScore::new_tapered(mg, eg)
    }

    /// Mobility: 2 per legal move and 3 per legal capture (4 and 2 in the endgame).
    /// Counts the evaluation.
    pub fn evaluate_mobility(&mut self, board: &BitboardBoard, player: Player, captured_pieces: &CapturedPieces) -> (r:
        TaperedScore)
        requires
            board.wf(),
            old(self).stats.mobility_evals < u64::MAX,
        ensures
            exists|l: Seq<Move>| legal_move_list(board@, captured_pieces.hand(player), player, l)
                && r.mg == 2 * l.len() + 3 * capture_count(l) && r.eg == 4 * l.len() + 2 * capture_count(l),
            final(self).config == old(self).config,
            final(self).stats == (PositionFeatureStats {
                mobility_evals: (old(self).stats.mobility_evals + 1) as u64,
                ..old(self).stats
            }),
    {
        self.stats.mobility_evals = self.stats.mobility_evals + 1;
        let generator = MoveGenerator::new();
        let moves = generator.generate_legal_moves(board, player, captured_pieces);
        let count = moves.len() as i32;
        let mut attacks: i32 = 0;
        let mut i: usize = 0;
        while i < moves.len()
            invariant
                i <= moves@.len(),
                moves@.len() <= 14256,
                attacks == capture_count(moves@.take(i as int)),
                0 <= attacks <= i,
            decreases moves@.len() - i,
        {
            assert(moves@.take(i + 1).drop_last() =~= moves@.take(i as int));
            if moves[i].is_capture {
                attacks = attacks + 1;
            }
            i = i + 1;
        }
        assert(moves@.take(moves@.len() as int) =~= moves@);
        assert(legal_move_list(board@, captured_pieces.hand(player), player, moves@));
        TaperedScore::new_tapered(count * 2 + attacks * 3, count * 4 + attacks * 2)
    }
}

/// Centre control is colour-symmetric: on every board the score for Black is the negation
/// of the score for White, in both phases.
pub proof fn law_center_control_symmetry(b: Seq<Option<Piece>>, endgame: bool)
    ensures
        board_sum(b, center_control_terms(Player::Black, endgame), 81) == -board_sum(
            b,
            center_control_terms(Player::White, endgame),
            81,
        ),
{
    lemma_center_control_antisymmetric(b, endgame, 81);
}

proof fn lemma_center_control_antisymmetric(b: Seq<Option<Piece>>, endgame: bool, n: int)
    ensures
        board_sum(b, center_control_terms(Player::Black, endgame), n) == -board_sum(
            b,
            center_control_terms(Player::White, endgame),
            n,
        ),
    decreases n,
{
    if n > 0 {
        lemma_center_control_antisymmetric(b, endgame, n - 1);
        let s = b[n - 1];
        assert(center_control_at(Player::Black, endgame, n - 1, s) == -center_control_at(Player::White, endgame, n - 1, s));
    }
}

/// The legal moves of `player`, as a set.
pub open spec fn legal_moves(b: Seq<Option<Piece>>, hand: Seq<PieceType>, player: Player) -> Set<Move> {
    Set::new(|m: Move| legal(b, hand, player, m))
}

/// The moves of `s` that capture.
pub open spec fn captures_of(s: Set<Move>) -> Set<Move> {
    s.filter(|m: Move| m.is_capture)
}

/// Mobility counts each legal move once: a list of the legal moves without repetition
/// (what `evaluate_mobility` scores) has exactly as many entries as there are legal moves,
/// and exactly as many captures as there are legal captures.
pub proof fn law_mobility_counts_legal_moves(
    b: Seq<Option<Piece>>,
    hand: Seq<PieceType>,
    player: Player,
    l: Seq<Move>,
)
    requires
        legal_move_list(b, hand, player, l),
    ensures
        legal_moves(b, hand, player).finite(),
        l.len() == legal_moves(b, hand, player).len(),
        capture_count(l) == captures_of(legal_moves(b, hand, player)).len(),
{
    broadcast use vstd::seq_lib::seq_to_set_is_finite;

    assert(l.to_set() =~= legal_moves(b, hand, player));
    l.unique_seq_to_set();
    lemma_capture_count_set(l);
}

/// The captures of a list without repetition are as many as the captures in its set.
proof fn lemma_capture_count_set(l: Seq<Move>)
    requires
        l.no_duplicates(),
    ensures
        capture_count(l) == captures_of(l.to_set()).len(),
        captures_of(l.to_set()).finite(),
    decreases l.len(),
{
    broadcast use {vstd::set::group_set_axioms, vstd::seq_lib::seq_to_set_is_finite};

    if l.len() == 0 {
        assert(captures_of(l.to_set()) =~= Set::<Move>::empty());
    } else {
        let r = l.drop_last();
        let x = l.last();
        assert(r.no_duplicates()) by {
            assert forall|i: int, j: int| 0 <= i < r.len() && 0 <= j < r.len() && i != j implies r[i] != r[j] by {
                assert(r[i] == l[i] && r[j] == l[j]);
            }
        }
        lemma_capture_count_set(r);
        assert(l.to_set() =~= r.to_set().insert(x)) by {
            assert forall|m: Move| l.to_set().contains(m) <==> r.to_set().insert(x).contains(m) by {
                if l.contains(m) {
                    let i = choose|i: int| 0 <= i < l.len() && l[i] == m;
                    if i < l.len() - 1 {
                        assert(r[i] == m);
                    }
                }
                if r.contains(m) {
                    let i = choose|i: int| 0 <= i < r.len() && r[i] == m;
                    assert(l[i] == m);
                }
            }
        }
        assert(!r.to_set().contains(x)) by {
            if r.contains(x) {
                let i = choose|i: int| 0 <= i < r.len() && r[i] == x;
                assert(l[i] == l[l.len() - 1]);
            }
        }
        if x.is_capture {
            assert(captures_of(l.to_set()) =~= captures_of(r.to_set()).insert(x));
        } else {
            assert(captures_of(l.to_set()) =~= captures_of(r.to_set()));
        }
    }
}

proof fn lemma_file_counts_total(ps: Seq<Position>, c: int, n: int)
    requires
        0 <= n <= ps.len(),
        0 <= c <= 9,
        forall|i: int| 0 <= i < ps.len() ==> (#[trigger] ps[i]).valid(),
    ensures
        0 <= file_count(ps, c, n) <= n,
    decreases n,
{
    if n > 0 {
        lemma_file_counts_total(ps, c, n - 1);
    }
}

spec fn files_total(ps: Seq<Position>, c: int) -> int
    decreases c,
{
    if c <= 0 {
        0
    } else {
        files_total(ps, c - 1) + file_count(ps, c - 1, ps.len() as int)
    }
}

spec fn below_file(ps: Seq<Position>, c: int, n: int) -> int
    decreases n,
{
    if n <= 0 {
        0
    } else {
        below_file(ps, c, n - 1) + if ps[n - 1].col < c {
            1int
        } else {
            0int
        }
    }
}

proof fn lemma_files_total(ps: Seq<Position>, c: int)
    requires
        0 <= c <= 9,
    ensures
        files_total(ps, c) == below_file(ps, c, ps.len() as int),
    decreases c,
{
    if c > 0 {
        lemma_files_total(ps, c - 1);
        lemma_below_file_step(ps, c, ps.len() as int);
    } else {
        lemma_below_file_zero(ps, ps.len() as int);
    }
}

proof fn lemma_below_file_zero(ps: Seq<Position>, n: int)
    ensures
        below_file(ps, 0, n) == 0,
    decreases n,
{
    if n > 0 {
        lemma_below_file_zero(ps, n - 1);
    }
}

proof fn lemma_below_file_step(ps: Seq<Position>, c: int, n: int)
    requires
        0 <= n <= ps.len(),
        c > 0,
    ensures
        below_file(ps, c, n) == below_file(ps, c - 1, n) + file_count(ps, c - 1, n),
    decreases n,
{
    if n > 0 {
        lemma_below_file_step(ps, c, n - 1);
    }
}

proof fn lemma_below_file_bound(ps: Seq<Position>, c: int, n: int)
    requires
        0 <= n <= ps.len(),
    ensures
        0 <= below_file(ps, c, n) <= n,
    decreases n,
{
    if n > 0 {
        lemma_below_file_bound(ps, c, n - 1);
    }
}

proof fn lemma_doubled_le_total(ps: Seq<Position>, c: int)
    requires
        0 <= c <= 9,
    ensures
        0 <= doubled_upto(ps, c) <= files_total(ps, c),
    decreases c,
{
    if c > 0 {
        lemma_doubled_le_total(ps, c - 1);
        lemma_file_count_nonneg(ps, c - 1, ps.len() as int);
    }
}

proof fn lemma_file_count_nonneg(ps: Seq<Position>, c: int, n: int)
    ensures
        0 <= file_count(ps, c, n),
    decreases n,
{
    if n > 0 {
        lemma_file_count_nonneg(ps, c, n - 1);
    }
}

proof fn lemma_doubled_bound(ps: Seq<Position>)
    requires
        pawn_squares(ps),
    ensures
        0 <= doubled_upto(ps, 9) <= 81,
{
    lemma_doubled_le_total(ps, 9);
    lemma_files_total(ps, 9);
    lemma_below_file_bound(ps, 9, ps.len() as int);
}

} // verus!
