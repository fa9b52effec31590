//! Opening principles: piece development, control of the centre, castle formation,
//! tempo and the usual opening mistakes, each scored as a tapered score.

use vstd::prelude::*;
use crate::bitboards::{BitboardBoard, board_sum, king_square};
use crate::types::{Piece, PieceType, Player, Position, TaperedScore, div_trunc};

verus! {

/// The back rank of `player`.
pub open spec fn home_row(player: Player) -> int {
    match player {
        Player::Black => 8,
        Player::White => 0,
    }
}

/// The rank a piece of kind `pt` of `player` starts on: the rank in front of the back rank
/// for the rook and the bishop, the back rank for the others.
pub open spec fn home_rank(pt: PieceType, player: Player) -> int {
    if pt == PieceType::Rook || pt == PieceType::Bishop {
        match player {
            Player::Black => 7,
            Player::White => 1,
        }
    } else {
        home_row(player)
    }
}

/// The file the rook of `player` starts on.
pub open spec fn rook_home_file(player: Player) -> int {
    match player {
        Player::Black => 7,
        Player::White => 1,
    }
}

/// Whether square `i` holds a piece of `player` of kind `pt` away from its starting rank.
pub open spec fn developed(player: Player, pt: PieceType, i: int, s: Option<Piece>) -> bool {
    s == Some(Piece { piece_type: pt, player }) && i / 9 != home_rank(pt, player)
}

/// Development value of the major pieces (rook, bishop) on square `i`.
pub open spec fn major_development_at(player: Player, i: int, s: Option<Piece>) -> int {
    if s == Some(Piece { piece_type: PieceType::Rook, player }) {
        if i / 9 != home_rank(PieceType::Rook, player) {
            35
        } else if i % 9 != rook_home_file(player) {
            10
        } else {
            0
        }
    } else if developed(player, PieceType::Bishop, i, s) {
        32
    } else {
        0
    }
}

pub open spec fn major_development_terms(player: Player) -> spec_fn(int, Option<Piece>) -> int {
    |i: int, s: Option<Piece>| major_development_at(player, i, s)
}

/// Development value of the minor pieces (silver, gold, knight) on square `i`.
pub open spec fn minor_development_at(player: Player, i: int, s: Option<Piece>) -> int {
    if developed(player, PieceType::Silver, i, s) {
        22
    } else if developed(player, PieceType::Gold, i, s) {
        18
    } else if developed(player, PieceType::Knight, i, s) {
        20
    } else {
        0
    }
}

pub open spec fn minor_development_terms(player: Player) -> spec_fn(int, Option<Piece>) -> int {
    |i: int, s: Option<Piece>| minor_development_at(player, i, s)
}

/// 1 when square `i` holds a developed rook, bishop, silver, gold or knight of `player`.
pub open spec fn developed_count_at(player: Player, i: int, s: Option<Piece>) -> int {
    if developed(player, PieceType::Rook, i, s) || developed(player, PieceType::Bishop, i, s)
        || developed(player, PieceType::Silver, i, s) || developed(player, PieceType::Gold, i, s)
        || developed(player, PieceType::Knight, i, s) {
        1
    } else {
        0
    }
}

pub open spec fn developed_count_terms(player: Player) -> spec_fn(int, Option<Piece>) -> int {
    |i: int, s: Option<Piece>| developed_count_at(player, i, s)
}

/// The number of developed pieces of `player`.
pub open spec fn developed_pieces(b: Seq<Option<Piece>>, player: Player) -> int {
    board_sum(b, developed_count_terms(player), 81)
}

/// Middlegame development value of `player`.
pub open spec fn development_mg(b: Seq<Option<Piece>>, player: Player, move_count: u32) -> int {
    board_sum(b, major_development_terms(player), 81) + board_sum(b, minor_development_terms(player), 81)
        + (if move_count <= 10 {
        developed_pieces(b, player) * 15
    } else {
        0
    })
}

/// Endgame development value of `player`.
pub open spec fn development_eg(b: Seq<Option<Piece>>, player: Player, move_count: u32) -> int {
    board_sum(b, major_development_terms(player), 81) / 4 + board_sum(
        b,
        minor_development_terms(player),
        81,
    ) / 4 + (if move_count <= 10 {
        developed_pieces(b, player) * 15 / 3
    } else {
        0
    })
}

/// Opening value of a piece standing in the centre.
pub open spec fn opening_center_value(pt: PieceType) -> int {
    match pt {
        PieceType::Pawn => 20,
        PieceType::Knight => 35,
        PieceType::Silver => 30,
        PieceType::Gold => 28,
        PieceType::Bishop => 40,
        PieceType::Rook => 38,
        _ => 15,
    }
}

/// The signed centre value of square `i` for `player` and its endgame share:
/// the full value on the central square, two thirds on the eight squares around it.
pub open spec fn center_at(player: Player, i: int, s: Option<Piece>, endgame: bool) -> int {
    let row = i / 9;
    let col = i % 9;
    match s {
        Some(p) => if 3 <= row <= 5 && 3 <= col <= 5 {
            let v = if row == 4 && col == 4 {
                opening_center_value(p.piece_type)
            } else {
                opening_center_value(p.piece_type) * 2 / 3
            };
            let w = if endgame {
                v / 3
            } else {
                v
            };
            if p.player == player {
                w
            } else {
                -w
            }
        } else {
            0
        },
        None => 0,
    }
}

pub open spec fn center_terms(player: Player, endgame: bool) -> spec_fn(int, Option<Piece>) -> int {
    |i: int, s: Option<Piece>| center_at(player, i, s, endgame)
}

/// Whether a king of `player` on `k` stands in a castle corner.
pub open spec fn castle_corner(k: Position, player: Player) -> bool {
    match player {
        Player::Black => k.row >= 7 && (k.col <= 2 || k.col >= 6),
        Player::White => k.row <= 1 && (k.col <= 2 || k.col >= 6),
    }
}

/// 1 when square `i` holds a piece of `player` of kind `pt` within two squares of `k`.
pub open spec fn near_king_at(k: Position, player: Player, pt: PieceType, i: int, s: Option<Piece>) -> int {
    let dr = i / 9 - k.row;
    let dc = i % 9 - k.col;
    if -2 <= dr <= 2 && -2 <= dc <= 2 && s == Some(Piece { piece_type: pt, player }) {
        1
    } else {
        0
    }
}

pub open spec fn near_king_terms(k: Position, player: Player, pt: PieceType) -> spec_fn(
    int,
    Option<Piece>,
) -> int {
    |i: int, s: Option<Piece>| near_king_at(k, player, pt, i, s)
}

/// The row in front of a king of `player` on row `r`.
pub open spec fn forward_row(player: Player, r: int) -> int {
    match player {
        Player::Black => r - 1,
        Player::White => r + 1,
    }
}

/// 1 when square `i` holds a pawn of `player` on one of the three squares in front of `k`.
pub open spec fn shield_pawn_at(k: Position, player: Player, i: int, s: Option<Piece>) -> int {
    let dc = i % 9 - k.col;
    if i / 9 == forward_row(player, k.row as int) && -1 <= dc <= 1 && s == Some(
        Piece { piece_type: PieceType::Pawn, player },
    ) {
        1
    } else {
        0
    }
}

pub open spec fn shield_pawn_terms(k: Position, player: Player) -> spec_fn(int, Option<Piece>) -> int {
    |i: int, s: Option<Piece>| shield_pawn_at(k, player, i, s)
}

/// 1 when (`row`, `col`) lies on the board and holds a pawn of `player`.
pub open spec fn pawn_on(b: Seq<Option<Piece>>, player: Player, row: int, col: int) -> int {
    if 0 <= row < 9 && 0 <= col < 9 && b[row * 9 + col] == Some(Piece { piece_type: PieceType::Pawn, player }) {
        1
    } else {
        0
    }
}

/// The pawn shield of a king on `k` counts the pawns of `player` on the three squares
/// directly in front of it, on the row towards the opponent: the row above it (row - 1)
/// for Black, the row below it (row + 1) for White.
pub proof fn law_pawn_shield_in_front(b: Seq<Option<Piece>>, k: Position, player: Player)
    requires
        b.len() == 81,
        k.valid(),
    ensures
        ({
            let front = match player {
                Player::Black => k.row - 1,
                Player::White => k.row + 1,
            };
            board_sum(b, shield_pawn_terms(k, player), 81) == pawn_on(b, player, front, k.col - 1) + pawn_on(
                b,
                player,
                front,
                k.col as int,
            ) + pawn_on(b, player, front, k.col + 1)
        }),
{
    lemma_shield_upto(b, k, player, 81);
}

/// The shield pawns on squares before index `n`.
spec fn shield_upto(b: Seq<Option<Piece>>, k: Position, player: Player, n: int) -> int {
    let front = match player {
        Player::Black => k.row - 1,
        Player::White => k.row + 1,
    };
    (if front * 9 + k.col - 1 < n { pawn_on(b, player, front, k.col - 1) } else { 0 }) + (if front * 9 + k.col < n {
        pawn_on(b, player, front, k.col as int)
    } else {
        0
    }) + (if front * 9 + k.col + 1 < n { pawn_on(b, player, front, k.col + 1) } else { 0 })
}

proof fn lemma_shield_upto(b: Seq<Option<Piece>>, k: Position, player: Player, n: int)
    requires
        b.len() == 81,
        k.valid(),
        0 <= n <= 81,
    ensures
        board_sum(b, shield_pawn_terms(k, player), n) == shield_upto(b, k, player, n),
    decreases n,
{
    if n > 0 {
        lemma_shield_upto(b, k, player, n - 1);
        let i = n - 1;
        let row = i / 9;
        let col = i % 9;
        assert(i == row * 9 + col && 0 <= col < 9 && 0 <= row < 9);
    }
}

/// The middlegame value of the castle formation of `player`.
pub open spec fn castle_formation_mg(b: Seq<Option<Piece>>, player: Player) -> int {
    match king_square(b, player) {
        None => 0,
        Some(k) => (if castle_corner(k, player) {
            40int
        } else {
            0int
        }) + 25 * board_sum(b, near_king_terms(k, player, PieceType::Gold), 81) + 22 * board_sum(
            b,
            near_king_terms(k, player, PieceType::Silver),
            81,
        ) + 20 * board_sum(b, shield_pawn_terms(k, player), 81),
    }
}

/// 1 when square `i` holds a piece of `player` other than its king that is off its
/// back rank or in the middle rows.
pub open spec fn active_at(player: Player, i: int, s: Option<Piece>) -> int {
    match s {
        Some(p) => if p.player == player && p.piece_type != PieceType::King && (i / 9 != home_row(
            player,
        ) || (3 <= i / 9 <= 5)) {
            1
        } else {
            0
        },
        None => 0,
    }
}

pub open spec fn active_terms(player: Player) -> spec_fn(int, Option<Piece>) -> int {
    |i: int, s: Option<Piece>| active_at(player, i, s)
}

/// The middlegame tempo value of `player`.
pub open spec fn tempo_mg(b: Seq<Option<Piece>>, player: Player, move_count: u32) -> int {
    let ours = developed_pieces(b, player);
    let theirs = developed_pieces(b, player.opposite_spec());
    let our_active = board_sum(b, active_terms(player), 81);
    let their_active = board_sum(b, active_terms(player.opposite_spec()), 81);
    10 + (if move_count <= 15 && ours > theirs {
        (ours - theirs) * 20
    } else {
        0
    }) + (if our_active > their_active {
        (our_active - their_active) * 12
    } else {
        0
    })
}

/// 1 when square `i` holds a piece of `player` of kind `pt` off its back rank.
pub open spec fn developed_kind_at(player: Player, pt: PieceType, i: int, s: Option<Piece>) -> int {
    if developed(player, pt, i, s) {
        1
    } else {
        0
    }
}

pub open spec fn developed_kind_terms(player: Player, pt: PieceType) -> spec_fn(
    int,
    Option<Piece>,
) -> int {
    |i: int, s: Option<Piece>| developed_kind_at(player, pt, i, s)
}

/// The opening penalty of `player` (a non-negative amount).
pub open spec fn opening_penalty(b: Seq<Option<Piece>>, player: Player, move_count: u32) -> int {
    if move_count <= 10 {
        (if board_sum(b, developed_kind_terms(player, PieceType::Rook), 81) == 0 && move_count >= 8 {
            30int
        } else {
            0int
        }) + (if board_sum(b, developed_kind_terms(player, PieceType::Bishop), 81) == 0
            && move_count >= 6 {
            25int
        } else {
            0int
        }) + (match king_square(b, player) {
            Some(k) => if k.row != home_row(player) && !castle_corner(k, player) {
                40int
            } else {
                0int
            },
            None => 0int,
        })
    } else {
        0
    }
}

/// The middlegame opening score of `player` under `config`.
pub open spec fn opening_mg(
    config: OpeningPrincipleConfig,
    b: Seq<Option<Piece>>,
    player: Player,
    move_count: u32,
) -> int {
    (if config.enable_development {
        development_mg(b, player, move_count)
    } else {
        0
    }) + (if config.enable_center_control {
        board_sum(b, center_terms(player, false), 81)
    } else {
        0
    }) + (if config.enable_castle_formation {
        castle_formation_mg(b, player)
    } else {
        0
    }) + (if config.enable_tempo {
        tempo_mg(b, player, move_count)
    } else {
        0
    }) + (if config.enable_opening_penalties {
        -opening_penalty(b, player, move_count)
    } else {
        0
    })
}

/// The endgame opening score of `player` under `config`.
pub open spec fn opening_eg(
    config: OpeningPrincipleConfig,
    b: Seq<Option<Piece>>,
    player: Player,
    move_count: u32,
) -> int {
    (if config.enable_development {
        development_eg(b, player, move_count)
    } else {
        0
    }) + (if config.enable_center_control {
        board_sum(b, center_terms(player, true), 81)
    } else {
        0
    }) + (if config.enable_castle_formation {
        castle_formation_mg(b, player) / 4
    } else {
        0
    }) + (if config.enable_tempo {
        tempo_mg(b, player, move_count) / 5
    } else {
        0
    }) + (if config.enable_opening_penalties {
        div_trunc(-opening_penalty(b, player, move_count), 5)
    } else {
        0
    })
}

/// Which components the opening evaluation includes.
#[derive(Clone, Debug, PartialEq, Eq, Structural)]
pub struct OpeningPrincipleConfig {
    pub enable_development: bool,
    pub enable_center_control: bool,
    pub enable_castle_formation: bool,
    pub enable_tempo: bool,
    pub enable_opening_penalties: bool,
}

impl Default for OpeningPrincipleConfig {
    /// Every component enabled.
    fn default() -> (r: Self)
        ensures
            r.enable_development && r.enable_center_control && r.enable_castle_formation
                && r.enable_tempo && r.enable_opening_penalties,
    {
        OpeningPrincipleConfig {
            enable_development: true,
            enable_center_control: true,
            enable_castle_formation: true,
            enable_tempo: true,
            enable_opening_penalties: true,
        }
    }
}

/// Counters of the opening evaluation.
#[derive(Clone, Debug)]
pub struct OpeningPrincipleStats {
    /// Number of opening evaluations performed.
    pub evaluations: u64,
}

impl Default for OpeningPrincipleStats {
    fn default() -> (r: Self)
        ensures
            r.evaluations == 0,
    {
        OpeningPrincipleStats { evaluations: 0 }
    }
}

/// Evaluates opening principles.
pub struct OpeningPrincipleEvaluator {
    pub config: OpeningPrincipleConfig,
    pub stats: OpeningPrincipleStats,
}

fn home_row_exec(player: Player) -> (r: u8)
    ensures
        r == home_row(player),
{
    match player {
        Player::Black => 8,
        Player::White => 0,
    }
}

fn home_rank_exec(pt: PieceType, player: Player) -> (r: u8)
    ensures
        r == home_rank(pt, player),
{
    match pt {
        PieceType::Rook | PieceType::Bishop => match player {
            Player::Black => 7,
            Player::White => 1,
        },
        _ => home_row_exec(player),
    }
}

fn center_value_exec(pt: PieceType) -> (r: i32)
    ensures
        r == opening_center_value(pt),
{
    match pt {
        PieceType::Pawn => 20,
        PieceType::Knight => 35,
        PieceType::Silver => 30,
        PieceType::Gold => 28,
        PieceType::Bishop => 40,
        PieceType::Rook => 38,
        _ => 15,
    }
}

impl OpeningPrincipleEvaluator {
    /// An evaluator with every component enabled.
    pub fn new() -> (r: Self)
        ensures
            r.config.enable_development && r.config.enable_center_control
                && r.config.enable_castle_formation && r.config.enable_tempo
                && r.config.enable_opening_penalties,
            r.stats.evaluations == 0,
    {
        OpeningPrincipleEvaluator {
            config: OpeningPrincipleConfig::default(),
            stats: OpeningPrincipleStats::default(),
        }
    }

    /// An evaluator with the given configuration.
    pub fn with_config(config: OpeningPrincipleConfig) -> (r: Self)
        ensures
            r.config == config,
            r.stats.evaluations == 0,
    {
        OpeningPrincipleEvaluator { config, stats: OpeningPrincipleStats::default() }
    }

    /// The counters.
    pub fn stats(&self) -> (r: &OpeningPrincipleStats)
        ensures
            r == &self.stats,
    {
        &self.stats
    }

    /// Zero the counters.
    pub fn reset_stats(&mut self)
        ensures
            final(self).stats.evaluations == 0,
            final(self).config == old(self).config,
    {
        self.stats = OpeningPrincipleStats::default();
    }

    /// Development of rooks and bishops: 35 for a rook off its back rank (10 for one
    /// moved along it), 32 for a bishop off its back rank; endgame a quarter.
    pub fn evaluate_major_piece_development(&self, board: &BitboardBoard, player: Player) -> (r:
        TaperedScore)
        requires
            board.wf(),
        ensures
            r.mg == board_sum(board@, major_development_terms(player), 81),
            r.eg == r.mg / 4,
            0 <= r.mg <= 35 * 81,
    {
        let start = home_rank_exec(PieceType::Rook, player);
        let start_file: u8 = match player {
            Player::Black => 7,
            Player::White => 1,
        };
        let mut total: i32 = 0;
        let mut i: usize = 0;
        while i < 81
            invariant
                board.wf(),
                i <= 81,
                start == home_rank(PieceType::Rook, player),
                start_file == rook_home_file(player),
                total == board_sum(board@, major_development_terms(player), i as int),
                0 <= total <= 35 * i,
            decreases 81 - i,
        {
            let s = board.get_piece_at_index(i);
            let row = (i / 9) as u8;
            let col = (i % 9) as u8;
            let v: i32 = match s {
                Some(p) => if p.player == player && p.piece_type == PieceType::Rook {
                    if row != start {
                        35
                    } else if col != start_file {
                        10
                    } else {
                        0
                    }
                } else if p.player == player && p.piece_type == PieceType::Bishop && row != start {
                    32
                } else {
                    0
                },
                None => 0,
            };
            assert(v == major_development_at(player, i as int, board@[i as int]));
            total = total + v;
            i = i + 1;
        }
        TaperedScore::new_tapered(total, total / 4)
    }

    /// Development of silvers (22), golds (18) and knights (20) off their back rank;
    /// endgame a quarter.
    pub fn evaluate_minor_piece_development(&self, board: &BitboardBoard, player: Player) -> (r:
        TaperedScore)
        requires
            board.wf(),
        ensures
            r.mg == board_sum(board@, minor_development_terms(player), 81),
            r.eg == r.mg / 4,
            0 <= r.mg <= 22 * 81,
    {
        let start = home_row_exec(player);
        let mut total: i32 = 0;
        let mut i: usize = 0;
        while i < 81
            invariant
                board.wf(),
                i <= 81,
                start == home_row(player),
                total == board_sum(board@, minor_development_terms(player), i as int),
                0 <= total <= 22 * i,
            decreases 81 - i,
        {
            let s = board.get_piece_at_index(i);
            let row = (i / 9) as u8;
            let v: i32 = match s {
                Some(p) => if p.player == player && row != start {
                    match p.piece_type {
                        PieceType::Silver => 22,
                        PieceType::Gold => 18,
                        PieceType::Knight => 20,
                        _ => 0,
                    }
                } else {
                    0
                },
                None => 0,
            };
            assert(v == minor_development_at(player, i as int, board@[i as int]));
            total = total + v;
            i = i + 1;
        }
        TaperedScore::new_tapered(total, total / 4)
    }

    /// The number of rooks, bishops, silvers, golds and knights of `player` off their
    /// back rank.
    pub fn count_developed_pieces(&self, board: &BitboardBoard, player: Player) -> (r: i32)
        requires
            board.wf(),
        ensures
            r == developed_pieces(board@, player),
            0 <= r <= 81,
    {
        let mut total: i32 = 0;
        let mut i: usize = 0;
        while i < 81
            invariant
                board.wf(),
                i <= 81,
                total == board_sum(board@, developed_count_terms(player), i as int),
                0 <= total <= i,
            decreases 81 - i,
        {
            let s = board.get_piece_at_index(i);
            let row = (i / 9) as u8;
            let v: i32 = match s {
                Some(p) => if p.player == player && row != home_rank_exec(p.piece_type, player) {
                    match p.piece_type {
                        PieceType::Rook | PieceType::Bishop | PieceType::Silver | PieceType::Gold
                        | PieceType::Knight => 1,
                        _ => 0,
                    }
                } else {
                    0
                },
                None => 0,
            };
            assert(v == developed_count_at(player, i as int, board@[i as int]));
            total = total + v;
            i = i + 1;
        }
        total
    }

    /// Development: major and minor pieces, plus 15 per developed piece (a third of that
    /// in the endgame) within the first ten moves.
    pub fn evaluate_development(&self, board: &BitboardBoard, player: Player, move_count: u32) -> (r:
        TaperedScore)
        requires
            board.wf(),
        ensures
            r.mg == development_mg(board@, player, move_count),
            r.eg == development_eg(board@, player, move_count),
            0 <= r.mg <= 6000,
            0 <= r.eg <= 6000,
    {
        let major = self.evaluate_major_piece_development(board, player);
        let minor = self.evaluate_minor_piece_development(board, player);
        let mut mg = major.mg + minor.mg;
        let mut eg = major.eg + minor.eg;
        if move_count <= 10 {
            let developed_count = self.count_developed_pieces(board, player);
            let bonus = developed_count * 15;
            mg = mg + bonus;
            eg = eg + bonus / 3;
        }
        TaperedScore::new_tapered(mg, eg)
    }

    /// Centre value of a piece type in the opening.
    pub fn get_opening_center_value(&self, piece_type: PieceType) -> (r: i32)
        ensures
            r == opening_center_value(piece_type),
    {
        center_value_exec(piece_type)
    }

    /// Control of the nine central squares: the full centre value of a piece on the middle
    /// square, two thirds of it around, positive for own pieces and negative for the
    /// opponent's; endgame a third of each.
    pub fn evaluate_center_control_opening(&self, board: &BitboardBoard, player: Player) -> (r:
        TaperedScore)
        requires
            board.wf(),
        ensures
            r.mg == board_sum(board@, center_terms(player, false), 81),
            r.eg == board_sum(board@, center_terms(player, true), 81),
            -3240 <= r.mg <= 3240,
            -3240 <= r.eg <= 3240,
    {
        let mut mg: i32 = 0;
        let mut eg: i32 = 0;
        let mut i: usize = 0;
        while i < 81
            invariant
                board.wf(),
                i <= 81,
                mg == board_sum(board@, center_terms(player, false), i as int),
                eg == board_sum(board@, center_terms(player, true), i as int),
                -40 * i <= mg <= 40 * i,
                -40 * i <= eg <= 40 * i,
            decreases 81 - i,
        {
            let row = i / 9;
            let col = i % 9;
            let s = board.get_piece_at_index(i);
            let mut v: i32 = 0;
            let mut w: i32 = 0;
            match s {
                Some(p) => {
                    if 3 <= row && row <= 5 && 3 <= col && col <= 5 {
                        let base = center_value_exec(p.piece_type);
                        let value = if row == 4 && col == 4 {
                            base
                        } else {
                            base * 2 / 3
                        };
                        if p.player == player {
                            v = value;
                            w = value / 3;
                        } else {
                            v = -value;
                            w = -(value / 3);
                        }
                    }
                },
                None => {},
            }
            assert(v == center_at(player, i as int, board@[i as int], false));
            assert(w == center_at(player, i as int, board@[i as int], true));
            mg = mg + v;
            eg = eg + w;
            i = i + 1;
        }
        TaperedScore::new_tapered(mg, eg)
    }

    /// Whether a king of `player` on `king_pos` stands in a castle corner.
    pub fn is_castle_position(&self, king_pos: Position, player: Player) -> (r: bool)
        ensures
            r == castle_corner(king_pos, player),
    {
        match player {
            Player::Black => king_pos.row >= 7 && (king_pos.col <= 2 || king_pos.col >= 6),
            Player::White => king_pos.row <= 1 && (king_pos.col <= 2 || king_pos.col >= 6),
        }
    }

    /// The number of pieces of `player` of kind `piece_type` within two squares of
    /// `king_pos`.
    pub fn count_pieces_near_king(
        &self,
        board: &BitboardBoard,
        king_pos: Position,
        player: Player,
        piece_type: PieceType,
    ) -> (r: i32)
        requires
            board.wf(),
            king_pos.valid(),
        ensures
            r == board_sum(board@, near_king_terms(king_pos, player, piece_type), 81),
            0 <= r <= 81,
    {
        let kr = king_pos.row as i32;
        let kc = king_pos.col as i32;
        let mut total: i32 = 0;
        let mut i: usize = 0;
        while i < 81
            invariant
                board.wf(),
                i <= 81,
                kr == king_pos.row,
                kc == king_pos.col,
                total == board_sum(board@, near_king_terms(king_pos, player, piece_type), i as int),
                0 <= total <= i,
            decreases 81 - i,
        {
            let dr = (i / 9) as i32 - kr;
            let dc = (i % 9) as i32 - kc;
            let s = board.get_piece_at_index(i);
            let v: i32 = match s {
                Some(p) => if -2 <= dr && dr <= 2 && -2 <= dc && dc <= 2 && p.player == player
                    && p.piece_type == piece_type {
                    1
                } else {
                    0
                },
                None => 0,
            };
            assert(v == near_king_at(king_pos, player, piece_type, i as int, board@[i as int]));
            total = total + v;
            i = i + 1;
        }
        total
    }

    /// The number of own pawns on the three squares in front of `king_pos`.
    pub fn count_pawn_shield(&self, board: &BitboardBoard, king_pos: Position, player: Player) -> (r:
        i32)
        requires
            board.wf(),
            king_pos.valid(),
        ensures
            r == board_sum(board@, shield_pawn_terms(king_pos, player), 81),
            0 <= r <= 81,
    {
        let front: i32 = match player {
            Player::Black => king_pos.row as i32 - 1,
            Player::White => king_pos.row as i32 + 1,
        };
        let kc = king_pos.col as i32;
        let mut total: i32 = 0;
        let mut i: usize = 0;
        while i < 81
            invariant
                board.wf(),
                i <= 81,
                front == forward_row(player, king_pos.row as int),
                kc == king_pos.col,
                total == board_sum(board@, shield_pawn_terms(king_pos, player), i as int),
                0 <= total <= i,
            decreases 81 - i,
        {
            let dc = (i % 9) as i32 - kc;
            let s = board.get_piece_at_index(i);
            let v: i32 = match s {
                Some(p) => if (i / 9) as i32 == front && -1 <= dc && dc <= 1 && p.player == player
                    && p.piece_type == PieceType::Pawn {
                    1
                } else {
                    0
                },
                None => 0,
            };
            assert(v == shield_pawn_at(king_pos, player, i as int, board@[i as int]));
            total = total + v;
            i = i + 1;
        }
        total
    }

    /// Castle formation: 40 for a king in a castle corner, 25 per gold and 22 per silver
    /// within two squares of it, 20 per pawn in front of it; endgame a quarter; nothing
    /// without a king.
    pub fn evaluate_castle_formation(&self, board: &BitboardBoard, player: Player) -> (r:
        TaperedScore)
        requires
            board.wf(),
        ensures
            r.mg == castle_formation_mg(board@, player),
            r.eg == castle_formation_mg(board@, player) / 4,
            0 <= r.mg <= 6000,
            0 <= r.eg <= 6000,
    {
        let king_pos = match board.find_king(player) {
            Some(k) => k,
            None => {
                return TaperedScore::new_tapered(0, 0);
            },
        };
        let mut mg: i32 = 0;
        if self.is_castle_position(king_pos, player) {
            mg = 40;
        }
        let golds = self.count_pieces_near_king(board, king_pos, player, PieceType::Gold);
        let silvers = self.count_pieces_near_king(board, king_pos, player, PieceType::Silver);
        mg = mg + golds * 25 + silvers * 22;
        let shield = self.count_pawn_shield(board, king_pos, player);
        mg = mg + shield * 20;
        TaperedScore::new_tapered(mg, mg / 4)
    }

    /// The number of pieces of `player` other than its king that are off the back rank or
    /// in the middle rows.
    pub fn count_active_pieces(&self, board: &BitboardBoard, player: Player) -> (r: i32)
        requires
            board.wf(),
        ensures
            r == board_sum(board@, active_terms(player), 81),
            0 <= r <= 81,
    {
        let start = home_row_exec(player);
        let mut total: i32 = 0;
        let mut i: usize = 0;
        while i < 81
            invariant
                board.wf(),
                i <= 81,
                start == home_row(player),
                total == board_sum(board@, active_terms(player), i as int),
                0 <= total <= i,
            decreases 81 - i,
        {
            let row = (i / 9) as u8;
            let s = board.get_piece_at_index(i);
            let v: i32 = match s {
                Some(p) => if p.player == player && p.piece_type != PieceType::King && (row != start
                    || (3 <= row && row <= 5)) {
                    1
                } else {
                    0
                },
                None => 0,
            };
            assert(v == active_at(player, i as int, board@[i as int]));
            total = total + v;
            i = i + 1;
        }
        total
    }

    /// Tempo: 10, plus 20 per piece of development lead within the first fifteen moves,
    /// plus 12 per active piece of lead; endgame a fifth.
    pub fn evaluate_tempo(&self, board: &BitboardBoard, player: Player, move_count: u32) -> (r:
        TaperedScore)
        requires
            board.wf(),
        ensures
            r.mg == tempo_mg(board@, player, move_count),
            r.eg == tempo_mg(board@, player, move_count) / 5,
            0 <= r.mg <= 3000,
            0 <= r.eg <= 3000,
    {
        let mut mg: i32 = 10;
        if move_count <= 15 {
            let ours = self.count_developed_pieces(board, player);
            let theirs = self.count_developed_pieces(board, player.opposite());
            if ours > theirs {
                mg = mg + (ours - theirs) * 20;
            }
        }
        let our_active = self.count_active_pieces(board, player);
        let their_active = self.count_active_pieces(board, player.opposite());
        if our_active > their_active {
            mg = mg + (our_active - their_active) * 12;
        }
        TaperedScore::new_tapered(mg, mg / 5)
    }

    fn count_developed_kind(&self, board: &BitboardBoard, player: Player, piece_type: PieceType) -> (r:
        i32)
        requires
            board.wf(),
        ensures
            r == board_sum(board@, developed_kind_terms(player, piece_type), 81),
    {
        let start = home_rank_exec(piece_type, player);
        let mut total: i32 = 0;
        let mut i: usize = 0;
        while i < 81
            invariant
                board.wf(),
                i <= 81,
                start == home_rank(piece_type, player),
                total == board_sum(board@, developed_kind_terms(player, piece_type), i as int),
                0 <= total <= i,
            decreases 81 - i,
        {
            let row = (i / 9) as u8;
            let s = board.get_piece_at_index(i);
            let v: i32 = match s {
                Some(p) => if p.player == player && p.piece_type == piece_type && row != start {
                    1
                } else {
                    0
                },
                None => 0,
            };
            assert(v == developed_kind_at(player, piece_type, i as int, board@[i as int]));
            total = total + v;
            i = i + 1;
        }
        total
    }

    /// Opening mistakes within the first ten moves: 30 when no rook is developed from move
    /// 8, 25 when no bishop is developed from move 6, 40 for a king off its back rank outside
    /// a castle corner; endgame a fifth; both negative.
    pub fn evaluate_opening_penalties(&self, board: &BitboardBoard, player: Player, move_count: u32) -> (r:
        TaperedScore)
        requires
            board.wf(),
        ensures
            r.mg == -opening_penalty(board@, player, move_count),
            r.eg == div_trunc(-opening_penalty(board@, player, move_count), 5),
            -100 <= r.mg <= 0,
            -100 <= r.eg <= 0,
    {
        let mut penalty: i32 = 0;
        if move_count <= 10 {
            let rooks = self.count_developed_kind(board, player, PieceType::Rook);
            let bishops = self.count_developed_kind(board, player, PieceType::Bishop);
            if rooks == 0 && move_count >= 8 {
                penalty = penalty + 30;
            }
            if bishops == 0 && move_count >= 6 {
                penalty = penalty + 25;
            }
            match board.find_king(player) {
                Some(k) => {
                    if k.row != home_row_exec(player) && !self.is_castle_position(k, player) {
                        penalty = penalty + 40;
                    }
                },
                None => {},
            }
        }
        TaperedScore::new_tapered(-penalty, -penalty / 5)
    }

    /// The opening score of `player` after `move_count` moves: the sum of the enabled
    /// components; counts the evaluation.
    pub fn evaluate_opening(&mut self, board: &BitboardBoard, player: Player, move_count: u32) -> (r:
        TaperedScore)
        requires
            board.wf(),
            old(self).stats.evaluations < u64::MAX,
        ensures
            r.mg == opening_mg(old(self).config, board@, player, move_count),
            r.eg == opening_eg(old(self).config, board@, player, move_count),
            final(self).config == old(self).config,
            final(self).stats.evaluations == old(self).stats.evaluations + 1,
    {
        self.stats.evaluations = self.stats.evaluations + 1;
        let mut mg: i32 = 0;
        let mut eg: i32 = 0;
        if self.config.enable_development {
            let s = self.evaluate_development(board, player, move_count);
            mg = mg + s.mg;
            eg = eg + s.eg;
        }
        if self.config.enable_center_control {
            let s = self.evaluate_center_control_opening(board, player);
            mg = mg + s.mg;
            eg = eg + s.eg;
        }
        if self.config.enable_castle_formation {
            let s = self.evaluate_castle_formation(board, player);
            mg = mg + s.mg;
            eg = eg + s.eg;
        }
        if self.config.enable_tempo {
            let s = self.evaluate_tempo(board, player, move_count);
            mg = mg + s.mg;
            eg = eg + s.eg;
        }
        if self.config.enable_opening_penalties {
            let s = self.evaluate_opening_penalties(board, player, move_count);
            mg = mg + s.mg;
            eg = eg + s.eg;
        }
        TaperedScore::new_tapered(mg, eg)
    }
}

} // verus!
