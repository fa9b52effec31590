//! Positional patterns: control of the centre, outposts, weak squares, piece activity,
//! space and tempo.

use vstd::prelude::*;
use crate::bitboards::{BitboardBoard, board_sum, square_of};
use crate::types::{Piece, PieceType, Player, Position, TaperedScore, div_trunc};

verus! {

/// Value of a piece on a central square (middlegame, endgame).
pub open spec fn center_piece_value(pt: PieceType, endgame: bool) -> int {
    match pt {
        PieceType::Knight => if endgame { 15 } else { 30 },
        PieceType::Silver => if endgame { 20 } else { 25 },
        PieceType::Gold => if endgame { 18 } else { 20 },
        PieceType::Bishop | PieceType::PromotedBishop => if endgame { 25 } else { 35 },
        PieceType::Rook | PieceType::PromotedRook => if endgame { 28 } else { 32 },
        PieceType::Pawn => if endgame { 10 } else { 15 },
        _ => if endgame { 8 } else { 10 },
    }
}

/// Whether square `i` lies in the 3x3 core of the board.
pub open spec fn in_core(i: int) -> bool {
    3 <= i / 9 <= 5 && 3 <= i % 9 <= 5
}

/// Whether square `i` lies on the ring of rows and columns 2 to 6 around the core.
pub open spec fn in_ring(i: int) -> bool {
    2 <= i / 9 <= 6 && 2 <= i % 9 <= 6 && !in_core(i)
}

/// Signed central occupation value of square `i`: full value in the core, half on the ring.
pub open spec fn occupation_at(player: Player, endgame: bool, i: int, s: Option<Piece>) -> int {
    match s {
        Some(p) => {
            let v = if in_core(i) {
                center_piece_value(p.piece_type, endgame)
            } else if in_ring(i) {
                center_piece_value(p.piece_type, endgame) / 2
            } else {
                0
            };
            if p.player == player {
                v
            } else {
                -v
            }
        },
        None => 0,
    }
}

pub open spec fn occupation_terms(player: Player, endgame: bool) -> spec_fn(int, Option<Piece>) -> int {
    |i: int, s: Option<Piece>| occupation_at(player, endgame, i, s)
}

/// 1 when square `i` is a core square holding a pawn of `player`.
pub open spec fn core_pawn_at(player: Player, i: int, s: Option<Piece>) -> int {
    if in_core(i) && s == Some(Piece { piece_type: PieceType::Pawn, player }) {
        1
    } else {
        0
    }
}

pub open spec fn core_pawn_terms(player: Player) -> spec_fn(int, Option<Piece>) -> int {
    |i: int, s: Option<Piece>| core_pawn_at(player, i, s)
}

/// Whether a piece of kind `pt` owned by `player` on `from` is counted as controlling
/// `to`: pawns one step forward, knights two rows and one column away, kings, golds and
/// silvers within one square (their own square included), rooks along their row or column
/// and bishops along their diagonals, whatever stands in between.
pub open spec fn simple_control(pt: PieceType, player: Player, from: Position, to: Position) -> bool {
    let dr = if to.row >= from.row {
        to.row - from.row
    } else {
        from.row - to.row
    };
    let dc = if to.col >= from.col {
        to.col - from.col
    } else {
        from.col - to.col
    };
    match pt {
        PieceType::Pawn => from.col == to.col && match player {
            Player::Black => from.row - 1 == to.row,
            Player::White => from.row + 1 == to.row,
        },
        PieceType::Knight => dr == 2 && dc == 1,
        PieceType::King | PieceType::Gold | PieceType::Silver => dr <= 1 && dc <= 1,
        PieceType::Rook | PieceType::PromotedRook => from.row == to.row || from.col == to.col,
        PieceType::Bishop | PieceType::PromotedBishop => dr == dc,
        _ => false,
    }
}

/// 1 when square `i` holds a piece of `player` counted as controlling `target`.
pub open spec fn controller_at(player: Player, target: Position, i: int, s: Option<Piece>) -> int {
    match s {
        Some(p) => if p.player == player && simple_control(p.piece_type, player, square_of(i), target) {
            1
        } else {
            0
        },
        None => 0,
    }
}

pub open spec fn controller_terms(player: Player, target: Position) -> spec_fn(int, Option<Piece>) -> int {
    |i: int, s: Option<Piece>| controller_at(player, target, i, s)
}

/// Whether `player` controls `target` with some piece.
pub open spec fn controlled(b: Seq<Option<Piece>>, player: Player, target: Position) -> bool {
    board_sum(b, controller_terms(player, target), 81) > 0
}

pub open spec fn controlled_terms(b: Seq<Option<Piece>>, player: Player) -> spec_fn(int, Option<Piece>) -> int {
    |i: int, s: Option<Piece>| if controlled(b, player, square_of(i)) {
        1int
    } else {
        0int
    }
}

/// The number of squares `player` controls.
pub open spec fn controlled_squares(b: Seq<Option<Piece>>, player: Player) -> int {
    board_sum(b, controlled_terms(b, player), 81)
}

/// Whether a piece of `player` on `p` has an own pawn diagonally behind it.
pub open spec fn pawn_support(b: Seq<Option<Piece>>, p: Position, player: Player) -> bool {
    let r = match player {
        Player::Black => p.row + 1,
        Player::White => p.row - 1,
    };
    0 <= r < 9 && ((p.col >= 1 && b[r * 9 + p.col - 1] == Some(Piece { piece_type: PieceType::Pawn, player }))
        || (p.col + 1 < 9 && b[r * 9 + p.col + 1] == Some(Piece { piece_type: PieceType::Pawn, player })))
}

/// Whether an enemy pawn stands diagonally in front of a piece of `player` on `p`.
pub open spec fn pawn_threat(b: Seq<Option<Piece>>, p: Position, player: Player) -> bool {
    let r = match player {
        Player::Black => p.row - 1,
        Player::White => p.row + 1,
    };
    let enemy = Some(Piece { piece_type: PieceType::Pawn, player: player.opposite_spec() });
    0 <= r < 9 && ((p.col >= 1 && b[r * 9 + p.col - 1] == enemy) || (p.col + 1 < 9 && b[r * 9
        + p.col + 1] == enemy))
}

/// Whether a piece of kind `pt` of `player` on `p` is an outpost: advanced, supported by a
/// pawn, not threatened by an enemy pawn, and a knight, silver or gold.
pub open spec fn outpost(b: Seq<Option<Piece>>, p: Position, pt: PieceType, player: Player) -> bool {
    &&& match player {
        Player::Black => p.row <= 5,
        Player::White => p.row >= 3,
    }
    &&& pawn_support(b, p, player)
    &&& !pawn_threat(b, p, player)
    &&& (pt == PieceType::Knight || pt == PieceType::Silver || pt == PieceType::Gold)
}

/// Distance of `p` from the back rank of `player`.
pub open spec fn depth(p: Position, player: Player) -> int {
    match player {
        Player::Black => 8 - p.row,
        Player::White => p.row as int,
    }
}

/// Value of an outpost: base by kind plus 5 (3 in the endgame) per row of depth.
pub open spec fn outpost_value(pt: PieceType, p: Position, player: Player, endgame: bool) -> int {
    let base = match pt {
        PieceType::Knight => if endgame { 40int } else { 60int },
        PieceType::Silver => if endgame { 45int } else { 50int },
        PieceType::Gold => if endgame { 40int } else { 45int },
        _ => if endgame { 25int } else { 30int },
    };
    base + depth(p, player) * if endgame { 3int } else { 5int }
}

pub open spec fn outpost_at(b: Seq<Option<Piece>>, player: Player, endgame: bool, i: int, s: Option<Piece>) -> int {
    match s {
        Some(p) => if p.player == player && outpost(b, square_of(i), p.piece_type, player) {
            outpost_value(p.piece_type, square_of(i), player, endgame)
        } else {
            0
        },
        None => 0,
    }
}

pub open spec fn outpost_terms(b: Seq<Option<Piece>>, player: Player, endgame: bool) -> spec_fn(int, Option<Piece>) -> int {
    |i: int, s: Option<Piece>| outpost_at(b, player, endgame, i, s)
}

pub open spec fn outpost_count_terms(b: Seq<Option<Piece>>, player: Player) -> spec_fn(int, Option<Piece>) -> int {
    |i: int, s: Option<Piece>| match s {
        Some(p) => if p.player == player && outpost(b, square_of(i), p.piece_type, player) {
            1int
        } else {
            0int
        },
        None => 0int,
    }
}

/// Whether `p` is one of the nine key squares of `player`: the central files of its camp.
pub open spec fn key_square(player: Player, i: int) -> bool {
    3 <= i % 9 <= 5 && match player {
        Player::Black => 6 <= i / 9 <= 8,
        Player::White => 0 <= i / 9 <= 2,
    }
}

/// 1 when square `i` holds a pawn of `player` on a file next to or equal to `col`.
pub open spec fn defender_at(player: Player, col: int, i: int, s: Option<Piece>) -> int {
    if -1 <= i % 9 - col <= 1 && s == Some(Piece { piece_type: PieceType::Pawn, player }) {
        1
    } else {
        0
    }
}

pub open spec fn defender_terms(player: Player, col: int) -> spec_fn(int, Option<Piece>) -> int {
    |i: int, s: Option<Piece>| defender_at(player, col, i, s)
}

/// A weak key square: no own pawn on its file or the adjacent ones, and controlled by the
/// opponent.
pub open spec fn weak_key_square(b: Seq<Option<Piece>>, player: Player, i: int) -> bool {
    key_square(player, i) && board_sum(b, defender_terms(player, i % 9), 81) == 0 && controlled(
        b,
        player.opposite_spec(),
        square_of(i),
    )
}

pub open spec fn weak_terms(b: Seq<Option<Piece>>, player: Player) -> spec_fn(int, Option<Piece>) -> int {
    |i: int, s: Option<Piece>| if weak_key_square(b, player, i) {
        1int
    } else {
        0int
    }
}

/// Only rooks, bishops and their promotions control squares from afar: any other piece
/// controls only squares at most two rows and one column away from it.
pub proof fn law_short_range_control(pt: PieceType, player: Player, from: Position, to: Position)
    requires
        pt != PieceType::Rook && pt != PieceType::PromotedRook && pt != PieceType::Bishop && pt
            != PieceType::PromotedBishop,
        simple_control(pt, player, from, to),
    ensures
        -2 <= to.row - from.row <= 2,
        -1 <= to.col - from.col <= 1,
{
}

/// Whether square `i` holds a piece of `player` that controls `target`.
pub open spec fn piece_controls(b: Seq<Option<Piece>>, player: Player, i: int, target: Position) -> bool {
    match b[i] {
        Some(q) => q.player == player && simple_control(q.piece_type, player, square_of(i), target),
        None => false,
    }
}

/// `player` controls `target` exactly when one of its pieces on the board controls it.
pub proof fn law_controlled_by_a_piece(b: Seq<Option<Piece>>, player: Player, target: Position)
    requires
        b.len() == 81,
    ensures
        controlled(b, player, target) <==> exists|i: int|
            0 <= i < 81 && #[trigger] piece_controls(b, player, i, target),
{
    lemma_controllers(b, player, target, 81);
}

proof fn lemma_controllers(b: Seq<Option<Piece>>, player: Player, target: Position, n: int)
    requires
        0 <= n <= b.len(),
    ensures
        board_sum(b, controller_terms(player, target), n) >= 0,
        board_sum(b, controller_terms(player, target), n) > 0 <==> exists|i: int|
            0 <= i < n && #[trigger] piece_controls(b, player, i, target),
    decreases n,
{
    if n > 0 {
        lemma_controllers(b, player, target, n - 1);
        let t = controller_terms(player, target)(n - 1, b[n - 1]);
        assert(t == if piece_controls(b, player, n - 1, target) { 1int } else { 0int });
        if exists|i: int| 0 <= i < n && #[trigger] piece_controls(b, player, i, target) {
            let i = choose|i: int| 0 <= i < n && #[trigger] piece_controls(b, player, i, target);
            if i < n - 1 {
                assert(0 <= i < n - 1 && piece_controls(b, player, i, target));
            }
        }
        if board_sum(b, controller_terms(player, target), n - 1) > 0 {
            let i = choose|i: int| 0 <= i < n - 1 && #[trigger] piece_controls(b, player, i, target);
            assert(0 <= i < n && piece_controls(b, player, i, target));
        }
        if piece_controls(b, player, n - 1, target) {
            assert(0 <= n - 1 < n && piece_controls(b, player, n - 1, target));
        }
    }
}

/// A key square is weak only when the opponent controls it (and no own pawn stands on its
/// file or the files beside it); so when the opponent controls none of the key squares of
/// `player`, `player` has no weak square and the weak-square score is 0.
pub proof fn law_weak_squares_need_enemy_control(b: Seq<Option<Piece>>, player: Player)
    requires
        b.len() == 81,
    ensures
        forall|i: int| #[trigger] weak_key_square(b, player, i) ==> key_square(player, i) && controlled(
            b,
            player.opposite_spec(),
            square_of(i),
        ),
        (forall|i: int| 0 <= i < 81 && key_square(player, i) ==> !#[trigger] controlled(
            b,
            player.opposite_spec(),
            square_of(i),
        )) ==> board_sum(b, weak_terms(b, player), 81) == 0,
{
    if forall|i: int| 0 <= i < 81 && key_square(player, i) ==> !#[trigger] controlled(
        b,
        player.opposite_spec(),
        square_of(i),
    ) {
        lemma_no_weak(b, player, 81);
    }
}

proof fn lemma_no_weak(b: Seq<Option<Piece>>, player: Player, n: int)
    requires
        0 <= n <= 81,
        forall|i: int| 0 <= i < 81 && key_square(player, i) ==> !#[trigger] controlled(
            b,
            player.opposite_spec(),
            square_of(i),
        ),
    ensures
        board_sum(b, weak_terms(b, player), n) == 0,
    decreases n,
{
    if n > 0 {
        lemma_no_weak(b, player, n - 1);
        if key_square(player, n - 1) {
            assert(!controlled(b, player.opposite_spec(), square_of(n - 1)));
        }
    }
}

/// Activity of a piece of `player` on `p` (middlegame, endgame), by how far it stands from
/// its back rank.
pub open spec fn activity(pt: PieceType, p: Position, player: Player, endgame: bool) -> int {
    let a = depth(p, player);
    match pt {
        PieceType::Rook | PieceType::PromotedRook => a * if endgame { 4int } else { 3int },
        PieceType::Bishop | PieceType::PromotedBishop => a * if endgame { 3int } else { 2int },
        PieceType::Silver => a * 2,
        PieceType::Gold => a * if endgame { 2int } else { 1int },
        _ => 0,
    }
}

pub open spec fn activity_terms(player: Player, endgame: bool) -> spec_fn(int, Option<Piece>) -> int {
    |i: int, s: Option<Piece>| match s {
        Some(p) => if p.player == player {
            activity(p.piece_type, square_of(i), player, endgame)
        } else {
            0int
        },
        None => 0int,
    }
}

/// The rank a piece of kind `pt` of `player` starts on: in front of the back rank for the
/// rook and the bishop, the back rank for the others.
pub open spec fn starting_rank(pt: PieceType, player: Player) -> int {
    if pt == PieceType::Rook || pt == PieceType::Bishop {
        match player {
            Player::Black => 7,
            Player::White => 1,
        }
    } else {
        match player {
            Player::Black => 8,
            Player::White => 0,
        }
    }
}

/// 1 when square `i` holds a rook, bishop, gold or silver of `player` off its starting rank.
pub open spec fn developed_at(player: Player, i: int, s: Option<Piece>) -> int {
    match s {
        Some(p) => if p.player == player && (p.piece_type == PieceType::Rook || p.piece_type
            == PieceType::Bishop || p.piece_type == PieceType::Gold || p.piece_type
            == PieceType::Silver) && i / 9 != starting_rank(p.piece_type, player) {
            1
        } else {
            0
        },
        None => 0,
    }
}

pub open spec fn developed_terms(player: Player) -> spec_fn(int, Option<Piece>) -> int {
    |i: int, s: Option<Piece>| developed_at(player, i, s)
}

/// The positional score of `player` under `config`, middlegame or endgame.
pub open spec fn positional_score(c: PositionalConfig, b: Seq<Option<Piece>>, player: Player, endgame: bool) -> int {
    let pawns = board_sum(b, core_pawn_terms(player), 81);
    let weak = board_sum(b, weak_terms(b, player), 81);
    let adv = controlled_squares(b, player) - controlled_squares(b, player.opposite_spec());
    let tempo = board_sum(b, developed_terms(player), 81) - board_sum(b, developed_terms(player.opposite_spec()), 81);
    (if c.enable_center_control {
        board_sum(b, occupation_terms(player, endgame), 81) + if endgame {
            div_trunc(pawns * c.pawn_center_bonus, 2)
        } else {
            pawns * c.pawn_center_bonus
        }
    } else {
        0
    }) + (if c.enable_outposts {
        board_sum(b, outpost_terms(b, player, endgame), 81)
    } else {
        0
    }) + (if c.enable_weak_squares {
        if endgame {
            div_trunc(-(weak * c.weak_square_penalty), 2)
        } else {
            -(weak * c.weak_square_penalty)
        }
    } else {
        0
    }) + (if c.enable_piece_activity {
        board_sum(b, activity_terms(player, endgame), 81)
    } else {
        0
    }) + (if c.enable_space_advantage {
        if endgame {
            div_trunc(adv * c.space_advantage_bonus, 3)
        } else {
            adv * c.space_advantage_bonus
        }
    } else {
        0
    }) + (if c.enable_tempo && !endgame {
        tempo * c.tempo_bonus
    } else {
        0
    })
}

/// Which patterns are evaluated and their weights.
#[derive(Clone, Debug, PartialEq, Eq, Structural)]
pub struct PositionalConfig {
    pub enable_center_control: bool,
    pub enable_outposts: bool,
    pub enable_weak_squares: bool,
    pub enable_piece_activity: bool,
    pub enable_space_advantage: bool,
    pub enable_tempo: bool,
    pub pawn_center_bonus: i32,
    pub weak_square_penalty: i32,
    pub space_advantage_bonus: i32,
    pub tempo_bonus: i32,
}

impl PositionalConfig {
    /// The pawn bonus of centre control lies within +-1000000.
    pub open spec fn center_weight_ok(&self) -> bool {
        -1_000_000 <= self.pawn_center_bonus <= 1_000_000
    }

    /// The weak-square penalty lies within +-1000000.
    pub open spec fn weak_squares_weight_ok(&self) -> bool {
        -1_000_000 <= self.weak_square_penalty <= 1_000_000
    }

    /// The space bonus lies within +-1000000.
    pub open spec fn space_weight_ok(&self) -> bool {
        -1_000_000 <= self.space_advantage_bonus <= 1_000_000
    }

    /// The tempo bonus lies within +-1000000.
    pub open spec fn tempo_weight_ok(&self) -> bool {
        -1_000_000 <= self.tempo_bonus <= 1_000_000
    }

    /// The weight of every enabled pattern is in range; those of disabled patterns are
    /// never read.
    pub open spec fn enabled_weights_ok(&self) -> bool {
        &&& self.enable_center_control ==> self.center_weight_ok()
        &&& self.enable_weak_squares ==> self.weak_squares_weight_ok()
        &&& self.enable_space_advantage ==> self.space_weight_ok()
        &&& self.enable_tempo ==> self.tempo_weight_ok()
    }
}

/// Every pattern enabled; weights 25, 40, 2 and 15.
pub open spec fn default_positional_config() -> PositionalConfig {
    PositionalConfig {
        enable_center_control: true,
        enable_outposts: true,
        enable_weak_squares: true,
        enable_piece_activity: true,
        enable_space_advantage: true,
        enable_tempo: true,
        pawn_center_bonus: 25,
        weak_square_penalty: 40,
        space_advantage_bonus: 2,
        tempo_bonus: 15,
    }
}

impl Default for PositionalConfig {
    /// Every pattern enabled; weights 25, 40, 2 and 15.
    fn default() -> (r: Self)
        ensures
            r == default_positional_config(),
    {
        PositionalConfig {
            enable_center_control: true,
            enable_outposts: true,
            enable_weak_squares: true,
            enable_piece_activity: true,
            enable_space_advantage: true,
            enable_tempo: true,
            pawn_center_bonus: 25,
            weak_square_penalty: 40,
            space_advantage_bonus: 2,
            tempo_bonus: 15,
        }
    }
}

/// Counters of the positional evaluation.
#[derive(Clone, Debug, PartialEq, Eq, Structural)]
pub struct PositionalStats {
    pub evaluations: u64,
    pub center_control_checks: u64,
    pub outpost_checks: u64,
    pub weak_square_checks: u64,
    pub activity_checks: u64,
    pub space_checks: u64,
    pub tempo_checks: u64,
    pub outposts_found: u64,
    pub weak_squares_found: u64,
}

/// `x` raised by `by` when `on` holds, else `x`.
pub open spec fn raised(on: bool, x: u64, by: int) -> u64 {
    if on {
        (x + by) as u64
    } else {
        x
    }
}

/// The centre-control sums fit in `i32`: the pawn bonus times the number of own pawns in
/// the core, and that added to the occupation score.
pub open spec fn center_fits(b: Seq<Option<Piece>>, p: Player, bonus: i32) -> bool {
    let k = board_sum(b, core_pawn_terms(p), 81);
    &&& i32::MIN <= k * bonus <= i32::MAX
    &&& i32::MIN <= board_sum(b, occupation_terms(p, false), 81) + k * bonus <= i32::MAX
}

/// Weights within the configured range make the centre-control sums fit.
proof fn lemma_center_fits(b: Seq<Option<Piece>>, p: Player, bonus: i32)
    requires
        -1_000_000 <= bonus <= 1_000_000,
    ensures
        center_fits(b, p, bonus),
{
    assert forall|i: int| 0 <= i < 81 implies 0 <= #[trigger] core_pawn_terms(p)(i, b[i]) <= 1 by {}
    assert forall|i: int| 0 <= i < 81 implies -35 <= #[trigger] occupation_terms(p, false)(i, b[i]) <= 35 by {}
    crate::bitboards::lemma_board_sum_bounds(b, core_pawn_terms(p), 81, 0, 1);
    crate::bitboards::lemma_board_sum_bounds(b, occupation_terms(p, false), 81, -35, 35);
    let k = board_sum(b, core_pawn_terms(p), 81);
    assert(-81_000_000 <= k * bonus <= 81_000_000) by (nonlinear_arith)
        requires
            0 <= k <= 81,
            -1_000_000 <= bonus <= 1_000_000,
    ;
}

/// The counters after one evaluation: one more evaluation, one more check of each
/// enabled pattern, and the outposts and weak squares found when those are enabled.
pub open spec fn positional_stats(c: PositionalConfig, s: PositionalStats, b: Seq<Option<Piece>>, p: Player) -> PositionalStats {
    PositionalStats {
        evaluations: (s.evaluations + 1) as u64,
        center_control_checks: raised(c.enable_center_control, s.center_control_checks, 1),
        outpost_checks: raised(c.enable_outposts, s.outpost_checks, 1),
        weak_square_checks: raised(c.enable_weak_squares, s.weak_square_checks, 1),
        activity_checks: raised(c.enable_piece_activity, s.activity_checks, 1),
        space_checks: raised(c.enable_space_advantage, s.space_checks, 1),
        tempo_checks: raised(c.enable_tempo, s.tempo_checks, 1),
        outposts_found: raised(c.enable_outposts, s.outposts_found, board_sum(b, outpost_count_terms(b, p), 81)),
        weak_squares_found: raised(c.enable_weak_squares, s.weak_squares_found, board_sum(b, weak_terms(b, p), 81)),
    }
}

impl PositionalStats {
    /// Every counter can still grow by a full board's worth.
    pub open spec fn has_room(&self) -> bool {
        self.evaluations < u64::MAX && self.center_control_checks < u64::MAX && self.outpost_checks
            < u64::MAX && self.weak_square_checks < u64::MAX && self.activity_checks < u64::MAX
            && self.space_checks < u64::MAX && self.tempo_checks < u64::MAX && self.outposts_found
            <= u64::MAX - 81 && self.weak_squares_found <= u64::MAX - 81
    }
}

impl Default for PositionalStats {
    fn default() -> (r: Self)
        ensures
            r == (PositionalStats {
                evaluations: 0,
                center_control_checks: 0,
                outpost_checks: 0,
                weak_square_checks: 0,
                activity_checks: 0,
                space_checks: 0,
                tempo_checks: 0,
                outposts_found: 0,
                weak_squares_found: 0,
            }),
    {
        PositionalStats {
            evaluations: 0,
            center_control_checks: 0,
            outpost_checks: 0,
            weak_square_checks: 0,
            activity_checks: 0,
            space_checks: 0,
            tempo_checks: 0,
            outposts_found: 0,
            weak_squares_found: 0,
        }
    }
}

/// Analyses positional patterns.
pub struct PositionalPatternAnalyzer {
    pub config: PositionalConfig,
    pub stats: PositionalStats,
}

fn center_piece_value_exec(pt: PieceType) -> (r: (i32, i32))
    ensures
        r.0 == center_piece_value(pt, false),
        r.1 == center_piece_value(pt, true),
{
    match pt {
        PieceType::Knight => (30, 15),
        PieceType::Silver => (25, 20),
        PieceType::Gold => (20, 18),
        PieceType::Bishop | PieceType::PromotedBishop => (35, 25),
        PieceType::Rook | PieceType::PromotedRook => (32, 28),
        PieceType::Pawn => (15, 10),
        _ => (10, 8),
    }
}

fn depth_exec(p: Position, player: Player) -> (r: i32)
    requires
        p.valid(),
    ensures
        r == depth(p, player),
        0 <= r <= 8,
{
    match player {
        Player::Black => 8 - p.row as i32,
        Player::White => p.row as i32,
    }
}

fn pawn_at(board: &BitboardBoard, row: i32, col: i32, player: Player) -> (r: bool)
    requires
        board.wf(),
    ensures
        r == (0 <= row < 9 && 0 <= col < 9 && board@[row * 9 + col] == Some(
            Piece { piece_type: PieceType::Pawn, player },
        )),
{
    if 0 <= row && row < 9 && 0 <= col && col < 9 {
        match board.get_piece_at_index((row * 9 + col) as usize) {
            Some(p) => p.piece_type == PieceType::Pawn && p.player == player,
            None => false,
        }
    } else {
        false
    }
}

impl PositionalPatternAnalyzer {
    /// An analyzer with the default configuration and zeroed counters.
    pub fn new() -> (r: Self)
        ensures
            r.config == default_positional_config(),
            r.stats.evaluations == 0 && r.stats.center_control_checks == 0 && r.stats.outpost_checks == 0
                && r.stats.weak_square_checks == 0 && r.stats.activity_checks == 0 && r.stats.space_checks == 0
                && r.stats.tempo_checks == 0 && r.stats.outposts_found == 0 && r.stats.weak_squares_found == 0,
    {
        PositionalPatternAnalyzer { config: PositionalConfig::default(), stats: PositionalStats::default() }
    }

    /// An analyzer with the given configuration and zeroed counters.
    pub fn with_config(config: PositionalConfig) -> (r: Self)
        ensures
            r.config == config,
            r.stats.evaluations == 0 && r.stats.center_control_checks == 0 && r.stats.outpost_checks == 0
                && r.stats.weak_square_checks == 0 && r.stats.activity_checks == 0 && r.stats.space_checks == 0
                && r.stats.tempo_checks == 0 && r.stats.outposts_found == 0 && r.stats.weak_squares_found == 0,
    {
        PositionalPatternAnalyzer { config, stats: PositionalStats::default() }
    }

    /// The counters.
    pub fn stats(&self) -> (r: &PositionalStats)
        ensures
            r == &self.stats,
    {
        &self.stats
    }

    /// Zero the counters.
    pub fn reset_stats(&mut self)
        ensures
            final(self).config == old(self).config,
            final(self).stats.evaluations == 0 && final(self).stats.center_control_checks == 0
                && final(self).stats.outpost_checks == 0 && final(self).stats.weak_square_checks == 0
                && final(self).stats.activity_checks == 0 && final(self).stats.space_checks == 0
                && final(self).stats.tempo_checks == 0 && final(self).stats.outposts_found == 0
                && final(self).stats.weak_squares_found == 0,
    {
        self.stats = PositionalStats::default();
    }

    /// Value of a piece on a central square (the same on core and ring squares).
    pub fn get_center_piece_value(&self, piece_type: PieceType, is_core: bool) -> (r: (i32, i32))
        ensures
            r.0 == center_piece_value(piece_type, false),
            r.1 == center_piece_value(piece_type, true),
    {
        center_piece_value_exec(piece_type)
    }

    /// The number of own pawns on the core squares.
    pub fn count_pawn_center_control(&self, board: &BitboardBoard, player: Player) -> (r: i32)
        requires
            board.wf(),
        ensures
            r == board_sum(board@, core_pawn_terms(player), 81),
            0 <= r <= 81,
    {
        let mut count: i32 = 0;
        let mut i: usize = 0;
        while i < 81
            invariant
                board.wf(),
                i <= 81,
                count == board_sum(board@, core_pawn_terms(player), i as int),
                0 <= count <= i,
            decreases 81 - i,
        {
            let row = i / 9;
            let col = i % 9;
            match board.get_piece_at_index(i) {
                Some(p) => {
                    if 3 <= row && row <= 5 && 3 <= col && col <= 5 && p.piece_type == PieceType::Pawn
                        && p.player == player {
                        count = count + 1;
                    }
                },
                None => {},
            }
            i = i + 1;
        }
        count
    }

    /// Control of the centre: occupation of the core (full value) and of the ring around it
    /// (half), signed by owner, plus the pawn bonus per own pawn in the core (half of it in
    /// the endgame). Counts the check.
    pub fn evaluate_center_control(&mut self, board: &BitboardBoard, player: Player) -> (r: TaperedScore)
        requires
            board.wf(),
            center_fits(board@, player, old(self).config.pawn_center_bonus),
            old(self).stats.center_control_checks < u64::MAX,
        ensures
            r.mg == board_sum(board@, occupation_terms(player, false), 81) + board_sum(board@, core_pawn_terms(player), 81)
                * old(self).config.pawn_center_bonus,
            r.eg == board_sum(board@, occupation_terms(player, true), 81) + div_trunc(board_sum(board@, core_pawn_terms(player), 81)
                * old(self).config.pawn_center_bonus, 2),
            -3000 <= board_sum(board@, occupation_terms(player, false), 81) <= 3000,
            -3000 <= board_sum(board@, occupation_terms(player, true), 81) <= 3000,
            old(self).config.center_weight_ok() ==> -81_003_000 <= r.mg <= 81_003_000,
            old(self).config.center_weight_ok() ==> -81_003_000 <= r.eg <= 81_003_000,
            final(self).config == old(self).config,
            final(self).stats == (PositionalStats {
                center_control_checks: (old(self).stats.center_control_checks + 1) as u64,
                ..old(self).stats
            }),
    {
        self.stats.center_control_checks = self.stats.center_control_checks + 1;
        let mut mg: i32 = 0;
        let mut eg: i32 = 0;
        let mut i: usize = 0;
        while i < 81
            invariant
                board.wf(),
                i <= 81,
                mg == board_sum(board@, occupation_terms(player, false), i as int),
                eg == board_sum(board@, occupation_terms(player, true), i as int),
                -35 * i <= mg <= 35 * i,
                -35 * i <= eg <= 35 * i,
            decreases 81 - i,
        {
            let row = i / 9;
            let col = i % 9;
            let mut v: (i32, i32) = (0, 0);
            match board.get_piece_at_index(i) {
                Some(p) => {
                    let base = center_piece_value_exec(p.piece_type);
                    let w: (i32, i32) = if 3 <= row && row <= 5 && 3 <= col && col <= 5 {
                        base
                    } else if 2 <= row && row <= 6 && 2 <= col && col <= 6 {
                        (base.0 / 2, base.1 / 2)
                    } else {
                        (0, 0)
                    };
                    if p.player == player {
                        v = w;
                    } else {
                        v = (-w.0, -w.1);
                    }
                },
                None => {},
            }
            assert(v.0 == occupation_at(player, false, i as int, board@[i as int]));
            assert(v.1 == occupation_at(player, true, i as int, board@[i as int]));
            mg = mg + v.0;
            eg = eg + v.1;
            i = i + 1;
        }
        let pawns = self.count_pawn_center_control(board, player);
        let bonus = self.config.pawn_center_bonus;
        proof {
            if self.config.center_weight_ok() {
                assert(-81_000_000 <= pawns * bonus <= 81_000_000) by (nonlinear_arith)
                    requires
                        0 <= pawns <= 81,
                        -1_000_000 <= bonus <= 1_000_000,
                ;
            }
        }
        let pb = pawns * bonus;
        TaperedScore::new_tapered(mg + pb, eg + pb / 2)
    }

    /// Whether a pawn of `player` stands diagonally behind `pos`.
    pub fn has_pawn_support(&self, board: &BitboardBoard, pos: Position, player: Player) -> (r: bool)
        requires
            board.wf(),
            pos.valid(),
        ensures
            r == pawn_support(board@, pos, player),
    {
        let r: i32 = match player {
            Player::Black => pos.row as i32 + 1,
            Player::White => pos.row as i32 - 1,
        };
        pawn_at(board, r, pos.col as i32 - 1, player) || pawn_at(board, r, pos.col as i32 + 1, player)
    }

    /// Whether an enemy pawn stands diagonally in front of `pos`.
    pub fn is_under_enemy_pawn_threat(&self, board: &BitboardBoard, pos: Position, player: Player) -> (r: bool)
        requires
            board.wf(),
            pos.valid(),
        ensures
            r == pawn_threat(board@, pos, player),
    {
        let r: i32 = match player {
            Player::Black => pos.row as i32 - 1,
            Player::White => pos.row as i32 + 1,
        };
        let opponent = player.opposite();
        pawn_at(board, r, pos.col as i32 - 1, opponent) || pawn_at(board, r, pos.col as i32 + 1, opponent)
    }

    /// Whether a piece of kind `piece_type` of `player` on `pos` is an outpost.
    pub fn is_outpost(&self, board: &BitboardBoard, pos: Position, piece_type: PieceType, player: Player) -> (r: bool)
        requires
            board.wf(),
            pos.valid(),
        ensures
            r == outpost(board@, pos, piece_type, player),
    {
        let advanced = match player {
            Player::Black => pos.row <= 5,
            Player::White => pos.row >= 3,
        };
        if !advanced {
            return false;
        }
        let support = self.has_pawn_support(board, pos, player);
        let threat = self.is_under_enemy_pawn_threat(board, pos, player);
        let good = match piece_type {
            PieceType::Knight | PieceType::Silver | PieceType::Gold => true,
            _ => false,
        };
        support && !threat && good
    }

    /// Value of an outpost (middlegame, endgame).
    pub fn get_outpost_value(&self, piece_type: PieceType, pos: Position, player: Player) -> (r: (i32, i32))
        requires
            pos.valid(),
        ensures
            r.0 == outpost_value(piece_type, pos, player, false),
            r.1 == outpost_value(piece_type, pos, player, true),
            0 <= r.0 <= 100 && 0 <= r.1 <= 100,
    {
        let base: (i32, i32) = match piece_type {
            PieceType::Knight => (60, 40),
            PieceType::Silver => (50, 45),
            PieceType::Gold => (45, 40),
            _ => (30, 25),
        };
        let d = depth_exec(pos, player);
        (base.0 + d * 5, base.1 + d * 3)
    }

    /// Outposts of `player`; counts the check and the outposts found.
    pub fn evaluate_outposts(&mut self, board: &BitboardBoard, player: Player) -> (r: TaperedScore)
        requires
            board.wf(),
            old(self).stats.outpost_checks < u64::MAX,
            old(self).stats.outposts_found <= u64::MAX - 81,
        ensures
            r.mg == board_sum(board@, outpost_terms(board@, player, false), 81),
            r.eg == board_sum(board@, outpost_terms(board@, player, true), 81),
            0 <= r.mg <= 8100 && 0 <= r.eg <= 8100,
            final(self).config == old(self).config,
            final(self).stats == (PositionalStats {
                outpost_checks: (old(self).stats.outpost_checks + 1) as u64,
                outposts_found: (old(self).stats.outposts_found + board_sum(board@, outpost_count_terms(board@, player), 81)) as u64,
                ..old(self).stats
            }),
    {
        self.stats.outpost_checks = self.stats.outpost_checks + 1;
        let ghost found0 = self.stats.outposts_found;
        let mut mg: i32 = 0;
        let mut eg: i32 = 0;
        let mut i: usize = 0;
        while i < 81
            invariant
                board.wf(),
                i <= 81,
                mg == board_sum(board@, outpost_terms(board@, player, false), i as int),
                eg == board_sum(board@, outpost_terms(board@, player, true), i as int),
                0 <= mg <= 100 * i,
                0 <= eg <= 100 * i,
                found0 <= u64::MAX - 81,
                self.stats.outposts_found == found0 + board_sum(board@, outpost_count_terms(board@, player), i as int),
                0 <= board_sum(board@, outpost_count_terms(board@, player), i as int) <= i,
                self.stats == (PositionalStats { outposts_found: self.stats.outposts_found, ..self.stats }),
                self.config == old(self).config,
                self.stats.outpost_checks == old(self).stats.outpost_checks + 1,
                self.stats.evaluations == old(self).stats.evaluations,
                self.stats.center_control_checks == old(self).stats.center_control_checks,
                self.stats.weak_square_checks == old(self).stats.weak_square_checks,
                self.stats.activity_checks == old(self).stats.activity_checks,
                self.stats.space_checks == old(self).stats.space_checks,
                self.stats.tempo_checks == old(self).stats.tempo_checks,
                self.stats.weak_squares_found == old(self).stats.weak_squares_found,
            decreases 81 - i,
        {
            let pos = Position::from_index(i as u8);
            let mut v: (i32, i32) = (0, 0);
            match board.get_piece_at_index(i) {
                Some(p) => {
                    if p.player == player && self.is_outpost(board, pos, p.piece_type, player) {
                        v = self.get_outpost_value(p.piece_type, pos, player);
                        self.stats.outposts_found = self.stats.outposts_found + 1;
                    }
                },
                None => {},
            }
            assert(v.0 == outpost_at(board@, player, false, i as int, board@[i as int]));
            assert(v.1 == outpost_at(board@, player, true, i as int, board@[i as int]));
            mg = mg + v.0;
            eg = eg + v.1;
            i = i + 1;
        }
        TaperedScore::new_tapered(mg, eg)
    }

    /// Whether `player` controls `pos` with some piece (see `simple_control`).
    #[verifier::rlimit(30)]
    pub fn is_controlled_by_opponent(&self, board: &BitboardBoard, pos: Position, opponent: Player) -> (r: bool)
        requires
            board.wf(),
            pos.valid(),
        ensures
            r == controlled(board@, opponent, pos),
    {
        let mut count: u32 = 0;
        let mut i: usize = 0;
        while i < 81
            invariant
                board.wf(),
                pos.valid(),
                i <= 81,
                count == board_sum(board@, controller_terms(opponent, pos), i as int),
                count <= i,
            decreases 81 - i,
        {
            let from = Position::from_index(i as u8);
            let hit: bool = match board.get_piece_at_index(i) {
                Some(p) => p.player == opponent && self.piece_attacks_square(board, from, pos, p.piece_type, opponent),
                None => false,
            };
            assert(hit == (controller_at(opponent, pos, i as int, board@[i as int]) == 1));
            assert(board_sum(board@, controller_terms(opponent, pos), i as int + 1) == board_sum(
                board@,
                controller_terms(opponent, pos),
                i as int,
            ) + controller_at(opponent, pos, i as int, board@[i as int]));
            if hit {
                count = count + 1;
            }
            i = i + 1;
        }
        count > 0
    }

    /// Whether a piece of kind `piece_type` of `player` on `from_pos` is counted as
    /// controlling `to_pos` (see `simple_control`).
    pub fn piece_attacks_square(&self, board: &BitboardBoard, from_pos: Position, to_pos: Position, piece_type: PieceType, player: Player) -> (r: bool)
        requires
            from_pos.valid(),
            to_pos.valid(),
        ensures
            r == simple_control(piece_type, player, from_pos, to_pos),
    {
        let dr: i32 = if to_pos.row >= from_pos.row {
            (to_pos.row - from_pos.row) as i32
        } else {
            (from_pos.row - to_pos.row) as i32
        };
        let dc: i32 = if to_pos.col >= from_pos.col {
            (to_pos.col - from_pos.col) as i32
        } else {
            (from_pos.col - to_pos.col) as i32
        };
        match piece_type {
            PieceType::Pawn => from_pos.col == to_pos.col && match player {
                Player::Black => from_pos.row as i32 - 1 == to_pos.row as i32,
                Player::White => from_pos.row as i32 + 1 == to_pos.row as i32,
            },
            PieceType::Knight => dr == 2 && dc == 1,
            PieceType::King | PieceType::Gold | PieceType::Silver => dr <= 1 && dc <= 1,
            PieceType::Rook | PieceType::PromotedRook => from_pos.row == to_pos.row || from_pos.col == to_pos.col,
            PieceType::Bishop | PieceType::PromotedBishop => dr == dc,
            _ => false,
        }
    }

    /// The nine key squares of `player`: the central files of its camp, row by row.
    pub fn get_key_squares(&self, player: Player) -> (r: Vec<Position>)
        ensures
            r@.len() == 9,
            forall|k: int| 0 <= k < 9 ==> #[trigger] r@[k] == (Position {
                row: ((match player {
                    Player::Black => 6int,
                    Player::White => 0int,
                }) + k / 3) as u8,
                col: (3 + k % 3) as u8,
            }),
    {
        let first: u8 = match player {
            Player::Black => 6,
            Player::White => 0,
        };
        let mut squares: Vec<Position> = Vec::new();
        let mut k: u8 = 0;
        while k < 9
            invariant
                k <= 9,
                first == (match player {
                    Player::Black => 6int,
                    Player::White => 0int,
                }),
                squares@.len() == k,
                forall|j: int| 0 <= j < k ==> #[trigger] squares@[j] == (Position {
                    row: (first + j / 3) as u8,
                    col: (3 + j % 3) as u8,
                }),
            decreases 9 - k,
        {
            squares.push(Position::new(first + k / 3, 3 + k % 3));
            k = k + 1;
        }
        squares
    }

    /// Whether no pawn of `player` stands on the file of `pos` or an adjacent one.
    pub fn is_weak_square(&self, board: &BitboardBoard, pos: Position, player: Player) -> (r: bool)
        requires
            board.wf(),
            pos.valid(),
        ensures
            r == (board_sum(board@, defender_terms(player, pos.col as int), 81) == 0),
    {
        !self.can_be_defended_by_pawn(board, pos, player)
    }

    /// Whether a pawn of `player` stands on the file of `pos` or an adjacent one.
    pub fn can_be_defended_by_pawn(&self, board: &BitboardBoard, pos: Position, player: Player) -> (r: bool)
        requires
            board.wf(),
            pos.valid(),
        ensures
            r == (board_sum(board@, defender_terms(player, pos.col as int), 81) > 0),
            board_sum(board@, defender_terms(player, pos.col as int), 81) >= 0,
    {
        let mut count: u32 = 0;
        let mut i: usize = 0;
        while i < 81
            invariant
                board.wf(),
                pos.valid(),
                i <= 81,
                count == board_sum(board@, defender_terms(player, pos.col as int), i as int),
                count <= i,
            decreases 81 - i,
        {
            let dc = (i % 9) as i32 - pos.col as i32;
            match board.get_piece_at_index(i) {
                Some(p) => {
                    if -1 <= dc && dc <= 1 && p.piece_type == PieceType::Pawn && p.player == player {
                        count = count + 1;
                    }
                },
                None => {},
            }
            i = i + 1;
        }
        count > 0
    }

    /// Weak key squares of `player` controlled by the opponent: each costs the weak-square
    /// penalty (half in the endgame). Counts the check and the weak squares found.
    pub fn evaluate_weak_squares(&mut self, board: &BitboardBoard, player: Player) -> (r: TaperedScore)
        requires
            board.wf(),
            old(self).config.weak_squares_weight_ok(),
            old(self).stats.weak_square_checks < u64::MAX,
            old(self).stats.weak_squares_found <= u64::MAX - 81,
        ensures
            r.mg == -(board_sum(board@, weak_terms(board@, player), 81) * old(self).config.weak_square_penalty),
            r.eg == div_trunc(-(board_sum(board@, weak_terms(board@, player), 81) * old(self).config.weak_square_penalty), 2),
            -81_000_000 <= r.mg <= 81_000_000,
            -81_000_000 <= r.eg <= 81_000_000,
            0 <= board_sum(board@, weak_terms(board@, player), 81) <= 81,
            final(self).config == old(self).config,
            final(self).stats == (PositionalStats {
                weak_square_checks: (old(self).stats.weak_square_checks + 1) as u64,
                weak_squares_found: (old(self).stats.weak_squares_found + board_sum(board@, weak_terms(board@, player), 81)) as u64,
                ..old(self).stats
            }),
    {
        self.stats.weak_square_checks = self.stats.weak_square_checks + 1;
        let opponent = player.opposite();
        let ghost found0 = self.stats.weak_squares_found;
        let mut count: i32 = 0;
        let mut i: usize = 0;
        while i < 81
            invariant
                board.wf(),
                opponent == player.opposite_spec(),
                i <= 81,
                count == board_sum(board@, weak_terms(board@, player), i as int),
                0 <= count <= i,
                found0 <= u64::MAX - 81,
                self.stats.weak_squares_found == found0 + count,
                self.config == old(self).config,
                self.stats == (PositionalStats {
                    weak_square_checks: (old(self).stats.weak_square_checks + 1) as u64,
                    weak_squares_found: self.stats.weak_squares_found,
                    ..old(self).stats
                }),
            decreases 81 - i,
        {
            let row = i / 9;
            let col = i % 9;
            let key = 3 <= col && col <= 5 && match player {
                Player::Black => 6 <= row && row <= 8,
                Player::White => row <= 2,
            };
            if key {
                let pos = Position::from_index(i as u8);
                if self.is_weak_square(board, pos, player) && self.is_controlled_by_opponent(board, pos, opponent) {
                    count = count + 1;
                    self.stats.weak_squares_found = self.stats.weak_squares_found + 1;
                }
            }
            i = i + 1;
        }
        let w = self.config.weak_square_penalty;
        assert(-81_000_000 <= count * w <= 81_000_000) by (nonlinear_arith)
            requires
                0 <= count <= 81,
                -1_000_000 <= w <= 1_000_000,
        ;
        let penalty = count * w;
        TaperedScore::new_tapered(-penalty, -penalty / 2)
    }

    /// Activity of a piece (middlegame, endgame) by how far it stands from its back rank.
    pub fn get_piece_activity_score(&self, pos: Position, piece_type: PieceType, player: Player) -> (r: (i32, i32))
        requires
            pos.valid(),
        ensures
            r.0 == activity(piece_type, pos, player, false),
            r.1 == activity(piece_type, pos, player, true),
            0 <= r.0 <= 32 && 0 <= r.1 <= 32,
    {
        let a = depth_exec(pos, player);
        match piece_type {
            PieceType::Rook | PieceType::PromotedRook => (a * 3, a * 4),
            PieceType::Bishop | PieceType::PromotedBishop => (a * 2, a * 3),
            PieceType::Silver => (a * 2, a * 2),
            PieceType::Gold => (a, a * 2),
            _ => (0, 0),
        }
    }

    /// Activity of the pieces of `player`. Counts the check.
    pub fn evaluate_piece_activity(&mut self, board: &BitboardBoard, player: Player) -> (r: TaperedScore)
        requires
            board.wf(),
            old(self).stats.activity_checks < u64::MAX,
        ensures
            r.mg == board_sum(board@, activity_terms(player, false), 81),
            r.eg == board_sum(board@, activity_terms(player, true), 81),
            0 <= r.mg <= 2592 && 0 <= r.eg <= 2592,
            final(self).config == old(self).config,
            final(self).stats == (PositionalStats {
                activity_checks: (old(self).stats.activity_checks + 1) as u64,
                ..old(self).stats
            }),
    {
        self.stats.activity_checks = self.stats.activity_checks + 1;
        let mut mg: i32 = 0;
        let mut eg: i32 = 0;
        let mut i: usize = 0;
        while i < 81
            invariant
                board.wf(),
                i <= 81,
                mg == board_sum(board@, activity_terms(player, false), i as int),
                eg == board_sum(board@, activity_terms(player, true), i as int),
                0 <= mg <= 32 * i,
                0 <= eg <= 32 * i,
            decreases 81 - i,
        {
            let mut v: (i32, i32) = (0, 0);
            match board.get_piece_at_index(i) {
                Some(p) => {
                    if p.player == player {
                        v = self.get_piece_activity_score(Position::from_index(i as u8), p.piece_type, player);
                    }
                },
                None => {},
            }
            mg = mg + v.0;
            eg = eg + v.1;
            i = i + 1;
        }
        TaperedScore::new_tapered(mg, eg)
    }

    /// The number of squares `player` controls.
    pub fn count_controlled_squares(&self, board: &BitboardBoard, player: Player) -> (r: i32)
        requires
            board.wf(),
        ensures
            r == controlled_squares(board@, player),
            0 <= r <= 81,
    {
        let mut count: i32 = 0;
        let mut i: usize = 0;
        while i < 81
            invariant
                board.wf(),
                i <= 81,
                count == board_sum(board@, controlled_terms(board@, player), i as int),
                0 <= count <= i,
            decreases 81 - i,
        {
            if self.is_controlled_by_opponent(board, Position::from_index(i as u8), player) {
                count = count + 1;
            }
            i = i + 1;
        }
        count
    }

    /// Space: squares controlled minus squares the opponent controls, times the space bonus
    /// (a third in the endgame). Counts the check.
    pub fn evaluate_space_advantage(&mut self, board: &BitboardBoard, player: Player) -> (r: TaperedScore)
        requires
            board.wf(),
            old(self).config.space_weight_ok(),
            old(self).stats.space_checks < u64::MAX,
        ensures
            r.mg == (controlled_squares(board@, player) - controlled_squares(board@, player.opposite_spec()))
                * old(self).config.space_advantage_bonus,
            r.eg == div_trunc((controlled_squares(board@, player) - controlled_squares(board@, player.opposite_spec()))
                * old(self).config.space_advantage_bonus, 3),
            -81_000_000 <= r.mg <= 81_000_000,
            -81_000_000 <= r.eg <= 81_000_000,
            final(self).config == old(self).config,
            final(self).stats == (PositionalStats {
                space_checks: (old(self).stats.space_checks + 1) as u64,
                ..old(self).stats
            }),
    {
        self.stats.space_checks = self.stats.space_checks + 1;
        let ours = self.count_controlled_squares(board, player);
        let theirs = self.count_controlled_squares(board, player.opposite());
        let adv = ours - theirs;
        let bonus = self.config.space_advantage_bonus;
        assert(-81_000_000 <= adv * bonus <= 81_000_000) by (nonlinear_arith)
            requires
                -81 <= adv <= 81,
                -1_000_000 <= bonus <= 1_000_000,
        ;
        TaperedScore::new_tapered(adv * bonus, adv * bonus / 3)
    }

    /// The number of rooks, bishops, golds and silvers of `player` off their starting rank.
    pub fn count_developed_pieces(&self, board: &BitboardBoard, player: Player) -> (r: i32)
        requires
            board.wf(),
        ensures
            r == board_sum(board@, developed_terms(player), 81),
            0 <= r <= 81,
    {
        let mut count: i32 = 0;
        let mut i: usize = 0;
        while i < 81
            invariant
                board.wf(),
                i <= 81,
                count == board_sum(board@, developed_terms(player), i as int),
                0 <= count <= i,
            decreases 81 - i,
        {
            let row = (i / 9) as u8;
            match board.get_piece_at_index(i) {
                Some(p) => {
                    if p.player == player {
                        let start: u8 = match p.piece_type {
                            PieceType::Rook | PieceType::Bishop => match player {
                                Player::Black => 7,
                                Player::White => 1,
                            },
                            _ => match player {
                                Player::Black => 8,
                                Player::White => 0,
                            },
                        };
                        match p.piece_type {
                            PieceType::Rook | PieceType::Bishop | PieceType::Gold | PieceType::Silver => {
                                if row != start {
                                    count = count + 1;
                                }
                            },
                            _ => {},
                        }
                    }
                },
                None => {},
            }
            i = i + 1;
        }
        count
    }

    /// Tempo: developed pieces minus the opponent's, times the tempo bonus; nothing in the
    /// endgame. Counts the check.
    pub fn evaluate_tempo(&mut self, board: &BitboardBoard, player: Player) -> (r: TaperedScore)
        requires
            board.wf(),
            old(self).config.tempo_weight_ok(),
            old(self).stats.tempo_checks < u64::MAX,
        ensures
            r.mg == (board_sum(board@, developed_terms(player), 81) - board_sum(board@, developed_terms(player.opposite_spec()), 81))
                * old(self).config.tempo_bonus,
            r.eg == 0,
            -81_000_000 <= r.mg <= 81_000_000,
            final(self).config == old(self).config,
            final(self).stats == (PositionalStats {
                tempo_checks: (old(self).stats.tempo_checks + 1) as u64,
                ..old(self).stats
            }),
    {
        self.stats.tempo_checks = self.stats.tempo_checks + 1;
        let ours = self.count_developed_pieces(board, player);
        let theirs = self.count_developed_pieces(board, player.opposite());
        let adv = ours - theirs;
        let bonus = self.config.tempo_bonus;
        assert(-81_000_000 <= adv * bonus <= 81_000_000) by (nonlinear_arith)
            requires
                -81 <= adv <= 81,
                -1_000_000 <= bonus <= 1_000_000,
        ;
        TaperedScore::new_tapered(adv * bonus, 0)
    }

    /// The positional score of `player`: the sum of the enabled patterns. Counts the
    /// evaluation and every check made.
    #[verifier::rlimit(100)]
    pub fn evaluate_position(&mut self, board: &BitboardBoard, player: Player) -> (r: TaperedScore)
        requires
            board.wf(),
            old(self).config.enabled_weights_ok(),
            old(self).stats.has_room(),
        ensures
            r.mg == positional_score(old(self).config, board@, player, false),
            r.eg == positional_score(old(self).config, board@, player, true),
            final(self).config == old(self).config,
            final(self).stats == positional_stats(old(self).config, old(self).stats, board@, player),
    {
        self.stats.evaluations = self.stats.evaluations + 1;
        let mut mg: i32 = 0;
        let mut eg: i32 = 0;
        if self.config.enable_center_control {
            proof {
                lemma_center_fits(board@, player, self.config.pawn_center_bonus);
            }
            let v = self.evaluate_center_control(board, player);
            mg = mg + v.mg;
            eg = eg + v.eg;
        }
        if self.config.enable_outposts {
            let v = self.evaluate_outposts(board, player);
            mg = mg + v.mg;
            eg = eg + v.eg;
        }
        if self.config.enable_weak_squares {
            let v = self.evaluate_weak_squares(board, player);
            mg = mg + v.mg;
            eg = eg + v.eg;
        }
        if self.config.enable_piece_activity {
            let v = self.evaluate_piece_activity(board, player);
            mg = mg + v.mg;
            eg = eg + v.eg;
        }
        if self.config.enable_space_advantage {
            let v = self.evaluate_space_advantage(board, player);
            mg = mg + v.mg;
            eg = eg + v.eg;
        }
        if self.config.enable_tempo {
            let v = self.evaluate_tempo(board, player);
            mg = mg + v.mg;
            eg = eg + v.eg;
        }
        TaperedScore::new_tapered(mg, eg)
    }
}

} // verus!
