//! Tactical patterns: forks, pins, skewers, discovered attacks, knight forks and back-rank
//! threats.

use vstd::prelude::*;
use crate::bitboards::{BitboardBoard, board_sum, king_square, on_board, path_clear, reaches, sign, abs_int, sq, square_of};
use crate::types::{Piece, PieceType, Player, Position, TaperedScore, div_trunc, nominal_value};

verus! {

// ----- pieces along a ray -----

/// The pieces met along the ray from `from` in direction (dr, dc), from step `t` on.
pub open spec fn ray_pieces(b: Seq<Option<Piece>>, from: Position, dr: int, dc: int, t: int) -> Seq<Piece>
    decreases 10 - t,
{
    if t > 9 || t < 1 || !on_board(from.row + t * dr, from.col + t * dc) {
        Seq::empty()
    } else {
        match b[sq(from.row + t * dr, from.col + t * dc)] {
            Some(p) => seq![p] + ray_pieces(b, from, dr, dc, t + 1),
            None => ray_pieces(b, from, dr, dc, t + 1),
        }
    }
}

/// Whether a piece of kind `pt` pins along direction (dr, dc): rooks, dragons and lances
/// along ranks and files, bishops and horses along diagonals.
pub open spec fn pins_along(pt: PieceType, dr: int, dc: int) -> bool {
    match pt {
        PieceType::Rook | PieceType::PromotedRook | PieceType::Lance => dr == 0 || dc == 0,
        PieceType::Bishop | PieceType::PromotedBishop => abs_int(dr) == abs_int(dc),
        _ => false,
    }
}

/// Value of a piece in hundreds of centipawns.
pub open spec fn hundreds(pt: PieceType) -> int {
    nominal_value(pt) / 100
}

// ----- attacks -----

/// 1 when square `i` holds an enemy of `player` reached by a piece of kind `pt` on `from`.
pub open spec fn target_at(b: Seq<Option<Piece>>, pt: PieceType, player: Player, from: Position, i: int, s: Option<Piece>) -> int {
    match s {
        Some(q) => if q.player != player && reaches(b, pt, player, from, square_of(i)) {
            1
        } else {
            0
        },
        None => 0,
    }
}

pub open spec fn target_terms(b: Seq<Option<Piece>>, pt: PieceType, player: Player, from: Position) -> spec_fn(int, Option<Piece>) -> int {
    |i: int, s: Option<Piece>| target_at(b, pt, player, from, i, s)
}

/// The value (in hundreds) of the enemy piece on square `i` when it is reached.
pub open spec fn target_value_at(b: Seq<Option<Piece>>, pt: PieceType, player: Player, from: Position, i: int, s: Option<Piece>) -> int {
    match s {
        Some(q) => if q.player != player && reaches(b, pt, player, from, square_of(i)) {
            hundreds(q.piece_type)
        } else {
            0
        },
        None => 0,
    }
}

pub open spec fn target_value_terms(b: Seq<Option<Piece>>, pt: PieceType, player: Player, from: Position) -> spec_fn(int, Option<Piece>) -> int {
    |i: int, s: Option<Piece>| target_value_at(b, pt, player, from, i, s)
}

/// 1 when square `i` holds the enemy king and it is reached.
pub open spec fn king_target_at(b: Seq<Option<Piece>>, pt: PieceType, player: Player, from: Position, i: int, s: Option<Piece>) -> int {
    match s {
        Some(q) => if q.player != player && q.piece_type == PieceType::King && reaches(b, pt, player, from, square_of(i)) {
            1
        } else {
            0
        },
        None => 0,
    }
}

pub open spec fn king_target_terms(b: Seq<Option<Piece>>, pt: PieceType, player: Player, from: Position) -> spec_fn(int, Option<Piece>) -> int {
    |i: int, s: Option<Piece>| king_target_at(b, pt, player, from, i, s)
}

/// The fork value of a piece of kind `pt` of `player` on `from` (before halving for the
/// endgame): with two or more enemy pieces reached, `factor` percent of their total value,
/// plus `king_bonus` when the enemy king is among them.
pub open spec fn fork_amount(b: Seq<Option<Piece>>, pt: PieceType, player: Player, from: Position, factor: int, king_bonus: int) -> int {
    if board_sum(b, target_terms(b, pt, player, from), 81) >= 2 {
        div_trunc(board_sum(b, target_value_terms(b, pt, player, from), 81) * factor, 100) + if board_sum(
            b,
            king_target_terms(b, pt, player, from),
            81,
        ) > 0 {
            king_bonus
        } else {
            0
        }
    } else {
        0
    }
}

// ----- configuration and counters -----

/// Which patterns are recognised and their weights.
#[derive(Clone, Debug, PartialEq, Eq, Structural)]
pub struct TacticalConfig {
    pub enable_forks: bool,
    pub enable_pins: bool,
    pub enable_skewers: bool,
    pub enable_discovered_attacks: bool,
    pub enable_knight_forks: bool,
    pub enable_back_rank_threats: bool,
    /// Percent of the forked material.
    pub fork_bonus_factor: i32,
    /// Percent of the material forked by a knight.
    pub knight_fork_bonus_factor: i32,
    pub king_fork_bonus: i32,
    /// Percent of the pinned piece's value.
    pub pin_penalty_factor: i32,
    /// Ten-thousandths of the value gained by a skewer.
    pub skewer_bonus_factor: i32,
    pub discovered_attack_bonus: i32,
    pub back_rank_threat_penalty: i32,
}

/// Every pattern enabled with the standard weights.
pub open spec fn default_tactical_config() -> TacticalConfig {
    TacticalConfig {
        enable_forks: true,
        enable_pins: true,
        enable_skewers: true,
        enable_discovered_attacks: true,
        enable_knight_forks: true,
        enable_back_rank_threats: true,
        fork_bonus_factor: 50,
        knight_fork_bonus_factor: 60,
        king_fork_bonus: 100,
        pin_penalty_factor: 40,
        skewer_bonus_factor: 30,
        discovered_attack_bonus: 80,
        back_rank_threat_penalty: 150,
    }
}

impl TacticalConfig {
    /// The weights of the fork check lie within +-10000.
    pub open spec fn forks_weights_ok(&self) -> bool {
        -10000 <= self.fork_bonus_factor <= 10000 && -10000 <= self.king_fork_bonus <= 10000
    }

    /// The weights of the knight-fork check lie within +-10000.
    pub open spec fn knight_forks_weights_ok(&self) -> bool {
        -10000 <= self.knight_fork_bonus_factor <= 10000 && -10000 <= self.king_fork_bonus <= 10000
    }

    /// The weight of the pin check lies within +-10000.
    pub open spec fn pins_weights_ok(&self) -> bool {
        -10000 <= self.pin_penalty_factor <= 10000
    }

    /// The weight of the skewer check lies within +-10000.
    pub open spec fn skewers_weights_ok(&self) -> bool {
        -10000 <= self.skewer_bonus_factor <= 10000
    }

    /// The weight of the discovered-attack check lies within +-10000.
    pub open spec fn discovered_weights_ok(&self) -> bool {
        -10000 <= self.discovered_attack_bonus <= 10000
    }

    /// The weight of the back-rank check lies within +-10000.
    pub open spec fn back_rank_weights_ok(&self) -> bool {
        -10000 <= self.back_rank_threat_penalty <= 10000
    }

    /// The weights of the enabled fork, pin and skewer checks are in range.
    pub open spec fn first_weights_ok(&self) -> bool {
        &&& self.enable_forks ==> self.forks_weights_ok()
        &&& self.enable_pins ==> self.pins_weights_ok()
        &&& self.enable_skewers ==> self.skewers_weights_ok()
    }

    /// The weights of the enabled discovered-attack, knight-fork and back-rank checks are in
    /// range.
    pub open spec fn second_weights_ok(&self) -> bool {
        &&& self.enable_discovered_attacks ==> self.discovered_weights_ok()
        &&& self.enable_knight_forks ==> self.knight_forks_weights_ok()
        &&& self.enable_back_rank_threats ==> self.back_rank_weights_ok()
    }

    /// The weights of every enabled check lie within +-10000; those of disabled checks
    /// are never read.
    pub open spec fn enabled_weights_ok(&self) -> bool {
        self.first_weights_ok() && self.second_weights_ok()
    }
}

impl Default for TacticalConfig {
    fn default() -> (r: Self)
        ensures
            r == default_tactical_config(),
    {
        TacticalConfig {
            enable_forks: true,
            enable_pins: true,
            enable_skewers: true,
            enable_discovered_attacks: true,
            enable_knight_forks: true,
            enable_back_rank_threats: true,
            fork_bonus_factor: 50,
            knight_fork_bonus_factor: 60,
            king_fork_bonus: 100,
            pin_penalty_factor: 40,
            skewer_bonus_factor: 30,
            discovered_attack_bonus: 80,
            back_rank_threat_penalty: 150,
        }
    }
}

/// Counters of the tactical recognition: checks made and patterns found.
#[derive(Clone, Debug, PartialEq, Eq, Structural)]
pub struct TacticalStats {
    pub evaluations: u64,
    pub fork_checks: u64,
    pub pin_checks: u64,
    pub skewer_checks: u64,
    pub discovered_checks: u64,
    pub knight_fork_checks: u64,
    pub back_rank_checks: u64,
    pub forks_found: u64,
    pub pins_found: u64,
    pub skewers_found: u64,
    pub discovered_attacks_found: u64,
    pub knight_forks_found: u64,
    pub back_rank_threats_found: u64,
}

/// All counters zero.
pub open spec fn zero_tactical_stats() -> TacticalStats {
    TacticalStats {
        evaluations: 0,
        fork_checks: 0,
        pin_checks: 0,
        skewer_checks: 0,
        discovered_checks: 0,
        knight_fork_checks: 0,
        back_rank_checks: 0,
        forks_found: 0,
        pins_found: 0,
        skewers_found: 0,
        discovered_attacks_found: 0,
        knight_forks_found: 0,
        back_rank_threats_found: 0,
    }
}

/// `x` raised by `by` when `on` holds, else `x`.
pub open spec fn bumped(on: bool, x: u64, by: int) -> u64 {
    if on {
        (x + by) as u64
    } else {
        x
    }
}

/// The counters after the fork, pin and skewer checks that `c` enables.
pub open spec fn first_stats(c: TacticalConfig, s: TacticalStats, b: Seq<Option<Piece>>, p: Player) -> TacticalStats {
    TacticalStats {
        fork_checks: bumped(c.enable_forks, s.fork_checks, 1),
        forks_found: bumped(c.enable_forks, s.forks_found, forks_count(b, p)),
        pin_checks: bumped(c.enable_pins, s.pin_checks, 1),
        pins_found: bumped(c.enable_pins, s.pins_found, pins_count(b, p)),
        skewer_checks: bumped(c.enable_skewers, s.skewer_checks, 1),
        skewers_found: bumped(c.enable_skewers, s.skewers_found, skewers_count(b, p)),
        ..s
    }
}

/// The counters after the discovered-attack, knight-fork and back-rank checks that `c`
/// enables.
pub open spec fn second_stats(c: TacticalConfig, s: TacticalStats, b: Seq<Option<Piece>>, p: Player) -> TacticalStats {
    TacticalStats {
        discovered_checks: bumped(c.enable_discovered_attacks, s.discovered_checks, 1),
        discovered_attacks_found: bumped(c.enable_discovered_attacks, s.discovered_attacks_found, discovered_count(b, p)),
        knight_fork_checks: bumped(c.enable_knight_forks, s.knight_fork_checks, 1),
        knight_forks_found: bumped(c.enable_knight_forks, s.knight_forks_found, knight_forks_count(b, p)),
        back_rank_checks: bumped(c.enable_back_rank_threats, s.back_rank_checks, 1),
        back_rank_threats_found: bumped(
            c.enable_back_rank_threats && back_rank_penalty(b, p, c.back_rank_threat_penalty as int) != 0,
            s.back_rank_threats_found,
            1,
        ),
        ..s
    }
}

/// The counters after one evaluation: one more evaluation, and each enabled check
/// counted with what it found.
pub open spec fn tactics_stats(c: TacticalConfig, s: TacticalStats, b: Seq<Option<Piece>>, p: Player) -> TacticalStats {
    second_stats(c, first_stats(c, TacticalStats { evaluations: (s.evaluations + 1) as u64, ..s }, b, p), b, p)
}

impl TacticalStats {
    /// Every counter can still grow by what one evaluation adds.
    pub open spec fn has_room(&self) -> bool {
        &&& self.evaluations < u64::MAX
        &&& self.fork_checks < u64::MAX
        &&& self.pin_checks < u64::MAX
        &&& self.skewer_checks < u64::MAX
        &&& self.discovered_checks < u64::MAX
        &&& self.knight_fork_checks < u64::MAX
        &&& self.back_rank_checks < u64::MAX
        &&& self.forks_found <= u64::MAX - 81
        &&& self.pins_found <= u64::MAX - 8
        &&& self.skewers_found <= u64::MAX - 324
        &&& self.discovered_attacks_found <= u64::MAX - 81
        &&& self.knight_forks_found <= u64::MAX - 81
        &&& self.back_rank_threats_found < u64::MAX
    }
}

impl Default for TacticalStats {
    fn default() -> (r: Self)
        ensures
            r == zero_tactical_stats(),
    {
        TacticalStats {
            evaluations: 0,
            fork_checks: 0,
            pin_checks: 0,
            skewer_checks: 0,
            discovered_checks: 0,
            knight_fork_checks: 0,
            back_rank_checks: 0,
            forks_found: 0,
            pins_found: 0,
            skewers_found: 0,
            discovered_attacks_found: 0,
            knight_forks_found: 0,
            back_rank_threats_found: 0,
        }
    }
}

/// Fork value (middlegame) of the piece on square `i` if it belongs to `player`.
pub open spec fn fork_at(c: TacticalConfig, b: Seq<Option<Piece>>, player: Player, endgame: bool, i: int, s: Option<Piece>) -> int {
    match s {
        Some(p) => if p.player == player {
            let v = fork_amount(b, p.piece_type, player, square_of(i), c.fork_bonus_factor as int, c.king_fork_bonus as int);
            if endgame {
                div_trunc(v, 2)
            } else {
                v
            }
        } else {
            0
        },
        None => 0,
    }
}

pub open spec fn fork_terms(c: TacticalConfig, b: Seq<Option<Piece>>, player: Player, endgame: bool) -> spec_fn(int, Option<Piece>) -> int {
    |i: int, s: Option<Piece>| fork_at(c, b, player, endgame, i, s)
}

/// 1 when the piece of `player` on square `i` forks two or more enemy pieces.
pub open spec fn forking_at(b: Seq<Option<Piece>>, player: Player, i: int, s: Option<Piece>) -> int {
    match s {
        Some(p) => if p.player == player && board_sum(b, target_terms(b, p.piece_type, player, square_of(i)), 81) >= 2 {
            1
        } else {
            0
        },
        None => 0,
    }
}

pub open spec fn forking_terms(b: Seq<Option<Piece>>, player: Player) -> spec_fn(int, Option<Piece>) -> int {
    |i: int, s: Option<Piece>| forking_at(b, player, i, s)
}

/// The pin value along direction (dr, dc) from the king on `k`: when the first piece met is
/// an own piece and the next one an enemy piece that pins along that line, `factor` percent
/// of the pinned piece's value.
#[verifier::opaque]
pub open spec fn pin_value(b: Seq<Option<Piece>>, k: Position, player: Player, dr: int, dc: int, factor: int) -> int {
    let ps = ray_pieces(b, k, dr, dc, 1);
    if ps.len() >= 2 && ps[0].player == player && ps[1].player != player && pins_along(ps[1].piece_type, dr, dc) {
        div_trunc(hundreds(ps[0].piece_type) * factor, 100)
    } else {
        0
    }
}

/// 1 when there is a pin along direction (dr, dc) from the king on `k`.
#[verifier::opaque]
pub open spec fn pin_found(b: Seq<Option<Piece>>, k: Position, player: Player, dr: int, dc: int) -> int {
    let ps = ray_pieces(b, k, dr, dc, 1);
    if ps.len() >= 2 && ps[0].player == player && ps[1].player != player && pins_along(ps[1].piece_type, dr, dc) {
        1
    } else {
        0
    }
}

/// The pin value around the king of `player` on `k`: ranks and files, then diagonals.
pub open spec fn pins_around(b: Seq<Option<Piece>>, k: Position, player: Player, factor: int) -> int {
    pin_value(b, k, player, 1, 0, factor) + pin_value(b, k, player, -1, 0, factor) + pin_value(b, k, player, 0, 1, factor)
        + pin_value(b, k, player, 0, -1, factor) + pin_value(b, k, player, 1, 1, factor) + pin_value(b, k, player, -1, 1, factor)
        + pin_value(b, k, player, 1, -1, factor) + pin_value(b, k, player, -1, -1, factor)
}

/// The number of pins around the king of `player` on `k`.
pub open spec fn pins_counted(b: Seq<Option<Piece>>, k: Position, player: Player) -> int {
    pin_found(b, k, player, 1, 0) + pin_found(b, k, player, -1, 0) + pin_found(b, k, player, 0, 1) + pin_found(b, k, player, 0, -1)
        + pin_found(b, k, player, 1, 1) + pin_found(b, k, player, -1, 1) + pin_found(b, k, player, 1, -1) + pin_found(b, k, player, -1, -1)
}

/// The skewer value along direction (dr, dc) from an enemy slider on `from`: when the first
/// two pieces met belong to `player` and the second is worth more, `factor` ten-thousandths
/// of the difference.
pub open spec fn skewer_value(b: Seq<Option<Piece>>, from: Position, player: Player, dr: int, dc: int, factor: int) -> int {
    let ps = ray_pieces(b, from, dr, dc, 1);
    if ps.len() >= 2 && ps[0].player == player && ps[1].player == player && nominal_value(ps[1].piece_type) > nominal_value(ps[0].piece_type) {
        div_trunc((nominal_value(ps[1].piece_type) - nominal_value(ps[0].piece_type)) * factor, 10000)
    } else {
        0
    }
}

pub open spec fn skewer_found(b: Seq<Option<Piece>>, from: Position, player: Player, dr: int, dc: int) -> int {
    let ps = ray_pieces(b, from, dr, dc, 1);
    if ps.len() >= 2 && ps[0].player == player && ps[1].player == player && nominal_value(ps[1].piece_type) > nominal_value(ps[0].piece_type) {
        1
    } else {
        0
    }
}

/// Whether the square `u` steps from `from` along (`dr`, `dc`) lies on the board.
pub open spec fn ray_on_board(from: Position, dr: int, dc: int, u: int) -> bool {
    on_board(from.row + u * dr, from.col + u * dc)
}

/// The square `t` steps from `from` along (`dr`, `dc`) lies on the board for every `t`
/// from 0 to `k` when the square `k` steps away does.
proof fn lemma_ray_on_board(from: Position, dr: int, dc: int, k: int, t: int)
    requires
        from.valid(),
        -1 <= dr <= 1,
        -1 <= dc <= 1,
        0 <= t <= k,
        on_board(from.row + k * dr, from.col + k * dc),
    ensures
        ray_on_board(from, dr, dc, t),
{
    assert(dr == 1 ==> t * dr == t && k * dr == k) by (nonlinear_arith);
    assert(dr == -1 ==> t * dr == -t && k * dr == -k) by (nonlinear_arith);
    assert(dr == 0 ==> t * dr == 0) by (nonlinear_arith);
    assert(dc == 1 ==> t * dc == t && k * dc == k) by (nonlinear_arith);
    assert(dc == -1 ==> t * dc == -t && k * dc == -k) by (nonlinear_arith);
    assert(dc == 0 ==> t * dc == 0) by (nonlinear_arith);
}

/// Empty squares are passed over: the pieces met from step `t` on are those met from step
/// `k` on when the squares in between are empty.
proof fn lemma_ray_skips_empty(b: Seq<Option<Piece>>, from: Position, dr: int, dc: int, t: int, k: int)
    requires
        1 <= t <= k <= 9,
        forall|u: int| t <= u < k ==> #[trigger] ray_on_board(from, dr, dc, u),
        forall|u: int| t <= u < k ==> #[trigger] b[sq(from.row + u * dr, from.col + u * dc)] is None,
    ensures
        ray_pieces(b, from, dr, dc, t) == ray_pieces(b, from, dr, dc, k),
    decreases k - t,
{
    if t < k {
        assert(ray_on_board(from, dr, dc, t));
        assert(b[sq(from.row + t * dr, from.col + t * dc)] is None);
        lemma_ray_skips_empty(b, from, dr, dc, t + 1, k);
    }
}

/// Skewers along one ray from an enemy piece on `from` in direction (`dr`, `dc`): when the
/// first piece met (`k1` squares away) and the second (`k2` squares away) both belong to
/// `player` and the second is worth more than the first, the ray scores the difference of
/// their values times `factor` / 10000 (truncated towards zero) and counts one skewer; when
/// the first is worth at least as much as the second, it scores and counts nothing.
pub proof fn law_skewer_front_and_back(
    b: Seq<Option<Piece>>,
    from: Position,
    player: Player,
    dr: int,
    dc: int,
    factor: int,
    k1: int,
    k2: int,
)
    requires
        from.valid(),
        -1 <= dr <= 1,
        -1 <= dc <= 1,
        !(dr == 0 && dc == 0),
        1 <= k1 < k2,
        on_board(from.row + k2 * dr, from.col + k2 * dc),
        forall|t: int| 1 <= t < k2 && t != k1 ==> #[trigger] b[sq(from.row + t * dr, from.col + t * dc)] is None,
        b[sq(from.row + k1 * dr, from.col + k1 * dc)] matches Some(p) && p.player == player,
        b[sq(from.row + k2 * dr, from.col + k2 * dc)] matches Some(p) && p.player == player,
    ensures
        ({
            let v1 = nominal_value(b[sq(from.row + k1 * dr, from.col + k1 * dc)]->0.piece_type);
            let v2 = nominal_value(b[sq(from.row + k2 * dr, from.col + k2 * dc)]->0.piece_type);
            &&& v2 > v1 ==> skewer_value(b, from, player, dr, dc, factor) == div_trunc((v2 - v1) * factor, 10000)
                && skewer_found(b, from, player, dr, dc) == 1
            &&& v2 <= v1 ==> skewer_value(b, from, player, dr, dc, factor) == 0 && skewer_found(
                b,
                from,
                player,
                dr,
                dc,
            ) == 0
        }),
{
    assert(dr == 1 ==> k2 * dr == k2) by (nonlinear_arith);
    assert(dr == -1 ==> k2 * dr == -k2) by (nonlinear_arith);
    assert(dc == 1 ==> k2 * dc == k2) by (nonlinear_arith);
    assert(dc == -1 ==> k2 * dc == -k2) by (nonlinear_arith);
    assert(k2 <= 8);
    assert forall|u: int| 1 <= u <= k2 implies #[trigger] ray_on_board(from, dr, dc, u) by {
        lemma_ray_on_board(from, dr, dc, k2, u);
    }
    let p1 = b[sq(from.row + k1 * dr, from.col + k1 * dc)]->0;
    let p2 = b[sq(from.row + k2 * dr, from.col + k2 * dc)]->0;
    lemma_ray_skips_empty(b, from, dr, dc, 1, k1);
    lemma_ray_skips_empty(b, from, dr, dc, k1 + 1, k2);
    let rest = ray_pieces(b, from, dr, dc, k2 + 1);
    assert(ray_on_board(from, dr, dc, k1) && ray_on_board(from, dr, dc, k2));
    assert(b[sq(from.row + k1 * dr, from.col + k1 * dc)] == Some(p1));
    assert(b[sq(from.row + k2 * dr, from.col + k2 * dc)] == Some(p2));
    assert(ray_pieces(b, from, dr, dc, k2) == seq![p2] + rest);
    assert(ray_pieces(b, from, dr, dc, k1) == seq![p1] + (seq![p2] + rest));
    let ps = ray_pieces(b, from, dr, dc, 1);
    assert(ps.len() >= 2 && ps[0] == p1 && ps[1] == p2);
}

/// The skewer value (or, with `count`, the number of skewers) of the piece on square `i`
/// when it is an enemy rook, dragon, bishop or horse.
pub open spec fn skewer_at(b: Seq<Option<Piece>>, player: Player, factor: int, count: bool, i: int, s: Option<Piece>) -> int {
    let f = square_of(i);
    match s {
        Some(p) => if p.player != player && (p.piece_type == PieceType::Rook || p.piece_type == PieceType::PromotedRook) {
            if count {
                skewer_found(b, f, player, 1, 0) + skewer_found(b, f, player, -1, 0) + skewer_found(b, f, player, 0, 1)
                    + skewer_found(b, f, player, 0, -1)
            } else {
                skewer_value(b, f, player, 1, 0, factor) + skewer_value(b, f, player, -1, 0, factor) + skewer_value(b, f, player, 0, 1, factor)
                    + skewer_value(b, f, player, 0, -1, factor)
            }
        } else if p.player != player && (p.piece_type == PieceType::Bishop || p.piece_type == PieceType::PromotedBishop) {
            if count {
                skewer_found(b, f, player, 1, 1) + skewer_found(b, f, player, -1, 1) + skewer_found(b, f, player, 1, -1)
                    + skewer_found(b, f, player, -1, -1)
            } else {
                skewer_value(b, f, player, 1, 1, factor) + skewer_value(b, f, player, -1, 1, factor) + skewer_value(b, f, player, 1, -1, factor)
                    + skewer_value(b, f, player, -1, -1, factor)
            }
        } else {
            0
        },
        None => 0,
    }
}

pub open spec fn skewer_terms(b: Seq<Option<Piece>>, player: Player, factor: int, count: bool) -> spec_fn(int, Option<Piece>) -> int {
    |i: int, s: Option<Piece>| skewer_at(b, player, factor, count, i, s)
}

/// The direction from `from` towards `to` along a rank, file or diagonal, if they share one.
pub open spec fn towards(from: Position, to: Position) -> Option<(int, int)> {
    let dr = to.row - from.row;
    let dc = to.col - from.col;
    if dr == 0 && dc == 0 {
        None
    } else if dr == 0 || dc == 0 || abs_int(dr) == abs_int(dc) {
        Some((sign(dr), sign(dc)))
    } else {
        None
    }
}

/// Whether moving the piece of `player` on `p` would uncover an attack on `target`: the line
/// from `p` to `target` is open and the first piece behind `p` is an own piece that pins
/// along it.
#[verifier::opaque]
pub open spec fn uncovers(b: Seq<Option<Piece>>, player: Player, p: Position, target: Position) -> bool {
    match towards(p, target) {
        None => false,
        Some(d) => {
            let dist = if abs_int(target.row - p.row) > abs_int(target.col - p.col) {
                abs_int(target.row - p.row)
            } else {
                abs_int(target.col - p.col)
            };
            let behind = ray_pieces(b, p, -d.0, -d.1, 1);
            path_clear(b, p, d.0, d.1, dist) && behind.len() > 0 && behind[0].player == player && pins_along(behind[0].piece_type, d.0, d.1)
        },
    }
}

pub open spec fn uncover_terms(b: Seq<Option<Piece>>, player: Player, target: Position) -> spec_fn(int, Option<Piece>) -> int {
    |i: int, s: Option<Piece>| match s {
        Some(p) => if p.player == player && uncovers(b, player, square_of(i), target) {
            1int
        } else {
            0int
        },
        None => 0int,
    }
}

/// Knight fork value of the piece on square `i` if it is a knight of `player`.
pub open spec fn knight_fork_at(c: TacticalConfig, b: Seq<Option<Piece>>, player: Player, endgame: bool, i: int, s: Option<Piece>) -> int {
    if s == Some(Piece { piece_type: PieceType::Knight, player }) {
        let v = fork_amount(b, PieceType::Knight, player, square_of(i), c.knight_fork_bonus_factor as int, 2 * c.king_fork_bonus);
        if endgame {
            div_trunc(v, 2)
        } else {
            v
        }
    } else {
        0
    }
}

pub open spec fn knight_fork_terms(c: TacticalConfig, b: Seq<Option<Piece>>, player: Player, endgame: bool) -> spec_fn(int, Option<Piece>) -> int {
    |i: int, s: Option<Piece>| knight_fork_at(c, b, player, endgame, i, s)
}

pub open spec fn knight_forking_terms(b: Seq<Option<Piece>>, player: Player) -> spec_fn(int, Option<Piece>) -> int {
    |i: int, s: Option<Piece>| if s == Some(Piece { piece_type: PieceType::Knight, player }) && board_sum(
        b,
        target_terms(b, PieceType::Knight, player, square_of(i)),
        81,
    ) >= 2 {
        1int
    } else {
        0int
    }
}

/// 1 when square `i` is a neighbour of `k` that is empty or holds an enemy piece.
pub open spec fn escape_at(k: Position, player: Player, i: int, s: Option<Piece>) -> int {
    let dr = i / 9 - k.row;
    let dc = i % 9 - k.col;
    if -1 <= dr <= 1 && -1 <= dc <= 1 && !(dr == 0 && dc == 0) && (s is None || s->0.player != player) {
        1
    } else {
        0
    }
}

pub open spec fn escape_terms(k: Position, player: Player) -> spec_fn(int, Option<Piece>) -> int {
    |i: int, s: Option<Piece>| escape_at(k, player, i, s)
}

/// 1 when square `i` holds an enemy rook or dragon on the king's rank with an open line to it.
pub open spec fn rank_threat_at(b: Seq<Option<Piece>>, k: Position, player: Player, i: int, s: Option<Piece>) -> int {
    match s {
        Some(p) => if p.player != player && (p.piece_type == PieceType::Rook || p.piece_type == PieceType::PromotedRook)
            && i / 9 == k.row && i % 9 != k.col && path_clear(b, square_of(i), 0, sign(k.col - i % 9), abs_int(k.col - i % 9)) {
            1
        } else {
            0
        },
        None => 0,
    }
}

pub open spec fn rank_threat_terms(b: Seq<Option<Piece>>, k: Position, player: Player) -> spec_fn(int, Option<Piece>) -> int {
    |i: int, s: Option<Piece>| rank_threat_at(b, k, player, i, s)
}

/// The back-rank penalty of `player` (0 when none): with its king on its back rank and at
/// most one escape square, the penalty per open enemy rook or dragon on that rank divided by
/// one more than the escape squares.
#[verifier::opaque]
pub open spec fn back_rank_penalty(b: Seq<Option<Piece>>, player: Player, penalty: int) -> int {
    match king_square(b, player) {
        None => 0,
        Some(k) => {
            let escapes = board_sum(b, escape_terms(k, player), 81);
            let threats = board_sum(b, rank_threat_terms(b, k, player), 81);
            if k.row == (match player {
                Player::Black => 8int,
                Player::White => 0int,
            }) && escapes <= 1 && threats > 0 {
                div_trunc(threats * penalty, escapes + 1)
            } else {
                0
            }
        },
    }
}

/// The discovered-attack value of `player`: the bonus per own piece that would uncover an
/// attack on the enemy king (0 without an enemy king).
#[verifier::opaque]
pub open spec fn discovered_value(b: Seq<Option<Piece>>, player: Player, bonus: int) -> int {
    match king_square(b, player.opposite_spec()) {
        Some(k) => board_sum(b, uncover_terms(b, player, k), 81) * bonus,
        None => 0,
    }
}

/// The fork value of the pieces of `player`.
#[verifier::opaque]
pub open spec fn forks_total(c: TacticalConfig, b: Seq<Option<Piece>>, player: Player, endgame: bool) -> int {
    board_sum(b, fork_terms(c, b, player, endgame), 81)
}

/// The number of pieces of `player` that fork.
#[verifier::opaque]
pub open spec fn forks_count(b: Seq<Option<Piece>>, player: Player) -> int {
    board_sum(b, forking_terms(b, player), 81)
}

/// The skewer value against `player`.
#[verifier::opaque]
pub open spec fn skewers_total(b: Seq<Option<Piece>>, player: Player, factor: int) -> int {
    board_sum(b, skewer_terms(b, player, factor, false), 81)
}

/// The number of skewers against `player`.
#[verifier::opaque]
pub open spec fn skewers_count(b: Seq<Option<Piece>>, player: Player) -> int {
    board_sum(b, skewer_terms(b, player, 0, true), 81)
}

/// The knight fork value of `player`.
#[verifier::opaque]
pub open spec fn knight_forks_total(c: TacticalConfig, b: Seq<Option<Piece>>, player: Player, endgame: bool) -> int {
    board_sum(b, knight_fork_terms(c, b, player, endgame), 81)
}

/// The number of knights of `player` that fork.
#[verifier::opaque]
pub open spec fn knight_forks_count(b: Seq<Option<Piece>>, player: Player) -> int {
    board_sum(b, knight_forking_terms(b, player), 81)
}

/// The number of pieces of `player` that would uncover an attack on the enemy king.
#[verifier::opaque]
pub open spec fn discovered_count(b: Seq<Option<Piece>>, player: Player) -> int {
    match king_square(b, player.opposite_spec()) {
        Some(k) => board_sum(b, uncover_terms(b, player, k), 81),
        None => 0,
    }
}

/// The number of pins against the king of `player`.
#[verifier::opaque]
pub open spec fn pins_count(b: Seq<Option<Piece>>, player: Player) -> int {
    match king_square(b, player) {
        Some(k) => pins_counted(b, k, player),
        None => 0,
    }
}

/// The pin value of `player` (0 without a king).
#[verifier::opaque]
pub open spec fn pins_value(b: Seq<Option<Piece>>, player: Player, factor: int) -> int {
    match king_square(b, player) {
        Some(k) => pins_around(b, k, player, factor),
        None => 0,
    }
}

/// The fork part of the tactical score.
pub open spec fn forks_part(c: TacticalConfig, b: Seq<Option<Piece>>, player: Player, endgame: bool) -> int {
    if c.enable_forks {
        forks_total(c, b, player, endgame)
    } else {
        0
    }
}

/// The pin part of the tactical score.
pub open spec fn pins_part(c: TacticalConfig, b: Seq<Option<Piece>>, player: Player, endgame: bool) -> int {
    if c.enable_pins {
        if endgame {
            div_trunc(pins_value(b, player, c.pin_penalty_factor as int), 2)
        } else {
            pins_value(b, player, c.pin_penalty_factor as int)
        }
    } else {
        0
    }
}

/// The skewer part of the tactical score.
pub open spec fn skewers_part(c: TacticalConfig, b: Seq<Option<Piece>>, player: Player, endgame: bool) -> int {
    if c.enable_skewers {
        if endgame {
            div_trunc(skewers_total(b, player, c.skewer_bonus_factor as int), 2)
        } else {
            skewers_total(b, player, c.skewer_bonus_factor as int)
        }
    } else {
        0
    }
}

/// The discovered-attack part of the tactical score.
pub open spec fn discovered_part(c: TacticalConfig, b: Seq<Option<Piece>>, player: Player, endgame: bool) -> int {
    if c.enable_discovered_attacks {
        if endgame {
            div_trunc(discovered_value(b, player, c.discovered_attack_bonus as int), 2)
        } else {
            discovered_value(b, player, c.discovered_attack_bonus as int)
        }
    } else {
        0
    }
}

/// The knight-fork part of the tactical score.
pub open spec fn knight_forks_part(c: TacticalConfig, b: Seq<Option<Piece>>, player: Player, endgame: bool) -> int {
    if c.enable_knight_forks {
        knight_forks_total(c, b, player, endgame)
    } else {
        0
    }
}

/// The back-rank part of the tactical score.
pub open spec fn back_rank_part(c: TacticalConfig, b: Seq<Option<Piece>>, player: Player, endgame: bool) -> int {
    if c.enable_back_rank_threats {
        if endgame {
            div_trunc(-back_rank_penalty(b, player, c.back_rank_threat_penalty as int), 2)
        } else {
            -back_rank_penalty(b, player, c.back_rank_threat_penalty as int)
        }
    } else {
        0
    }
}

/// The tactical score of `player` under `c`, middlegame or endgame: forks, pins, skewers,
/// discovered attacks, knight forks and back-rank threats.
pub open spec fn tactics_score(c: TacticalConfig, b: Seq<Option<Piece>>, player: Player, endgame: bool) -> int {
    forks_part(c, b, player, endgame) + pins_part(c, b, player, endgame) + skewers_part(c, b, player, endgame)
        + discovered_part(c, b, player, endgame) + knight_forks_part(c, b, player, endgame) + back_rank_part(c, b, player, endgame)
}

/// Recognises tactical patterns.
pub struct TacticalPatternRecognizer {
    pub config: TacticalConfig,
    pub stats: TacticalStats,
}

fn hundreds_exec(pt: PieceType) -> (r: i32)
    ensures
        r == hundreds(pt),
        1 <= r <= 200,
{
    pt.base_value() / 100
}

/// The pieces met along the ray from `from` in direction (dr, dc).
fn ray_scan(board: &BitboardBoard, from: Position, dr: i32, dc: i32) -> (r: Vec<Piece>)
    requires
        board.wf(),
        from.valid(),
        -1 <= dr <= 1,
        -1 <= dc <= 1,
    ensures
        r@ == ray_pieces(board@, from, dr as int, dc as int, 1),
        r@.len() <= 9,
{
    let mut out: Vec<Piece> = Vec::new();
    let mut t: i32 = 1;
    let mut row: i32 = from.row as i32 + dr;
    let mut col: i32 = from.col as i32 + dc;
    while t <= 9 && 0 <= row && row < 9 && 0 <= col && col < 9
        invariant
            board.wf(),
            from.valid(),
            -1 <= dr <= 1,
            -1 <= dc <= 1,
            1 <= t <= 10,
            row == from.row + t * dr,
            col == from.col + t * dc,
            out@.len() < t,
            ray_pieces(board@, from, dr as int, dc as int, 1) == out@ + ray_pieces(board@, from, dr as int, dc as int, t as int),
        decreases 10 - t,
    {
        match board.get_piece_at_index((row * 9 + col) as usize) {
            Some(p) => {
                let ghost before = out@;
                out.push(p);
                assert(before + ray_pieces(board@, from, dr as int, dc as int, t as int) == out@ + ray_pieces(board@, from, dr as int, dc as int, t + 1));
            },
            None => {},
        }
        assert((t + 1) * dr == t * dr + dr && (t + 1) * dc == t * dc + dc) by (nonlinear_arith);
        t = t + 1;
        row = row + dr;
        col = col + dc;
    }
    assert(ray_pieces(board@, from, dr as int, dc as int, t as int) == Seq::<Piece>::empty());
    assert(out@ + Seq::<Piece>::empty() == out@);
    out
}

/// The number, total value (in hundreds) and number of kings of the enemy pieces reached by
/// a piece of kind `pt` of `player` on `from`.
fn attack_summary(board: &BitboardBoard, from: Position, pt: PieceType, player: Player) -> (r: (i32, i32, i32))
    requires
        board.wf(),
        from.valid(),
    ensures
        r.0 == board_sum(board@, target_terms(board@, pt, player, from), 81),
        r.1 == board_sum(board@, target_value_terms(board@, pt, player, from), 81),
        r.2 == board_sum(board@, king_target_terms(board@, pt, player, from), 81),
        0 <= r.0 <= 81,
        0 <= r.1 <= 16200,
        0 <= r.2 <= 81,
{
    let mut count: i32 = 0;
    let mut total: i32 = 0;
    let mut kings: i32 = 0;
    let mut i: usize = 0;
    while i < 81
        invariant
            board.wf(),
            from.valid(),
            i <= 81,
            count == board_sum(board@, target_terms(board@, pt, player, from), i as int),
            total == board_sum(board@, target_value_terms(board@, pt, player, from), i as int),
            kings == board_sum(board@, king_target_terms(board@, pt, player, from), i as int),
            0 <= count <= i,
            0 <= total <= 200 * i,
            0 <= kings <= i,
        decreases 81 - i,
    {
        match board.get_piece_at_index(i) {
            Some(q) => {
                if q.player != player && board.piece_reaches(pt, player, from, Position::from_index(i as u8)) {
                    count = count + 1;
                    total = total + hundreds_exec(q.piece_type);
                    if q.piece_type == PieceType::King {
                        kings = kings + 1;
                    }
                }
            },
            None => {},
        }
        i = i + 1;
    }
    (count, total, kings)
}

impl TacticalPatternRecognizer {
    /// A recognizer with the standard configuration and zeroed counters.
    pub fn new() -> (r: Self)
        ensures
            r.config == default_tactical_config(),
            r.stats == zero_tactical_stats(),
    {
        TacticalPatternRecognizer { config: TacticalConfig::default(), stats: TacticalStats::default() }
    }

    /// A recognizer with the given configuration and zeroed counters.
    pub fn with_config(config: TacticalConfig) -> (r: Self)
        ensures
            r.config == config,
            r.stats == zero_tactical_stats(),
    {
        TacticalPatternRecognizer { config, stats: TacticalStats::default() }
    }

    /// The counters.
    pub fn stats(&self) -> (r: &TacticalStats)
        ensures
            r == &self.stats,
    {
        &self.stats
    }

    /// Zero the counters.
    pub fn reset_stats(&mut self)
        ensures
            final(self).config == old(self).config,
            final(self).stats == zero_tactical_stats(),
    {
        self.stats = TacticalStats::default();
    }

    /// The fork value of a piece of kind `piece_type` of `player` on `pos` (middlegame,
    /// endgame); counts a fork found.
    pub fn check_piece_for_forks(&mut self, board: &BitboardBoard, pos: Position, piece_type: PieceType, player: Player) -> (r: (i32, i32))
        requires
            board.wf(),
            pos.valid(),
            old(self).config.forks_weights_ok(),
            old(self).stats.forks_found < u64::MAX,
        ensures
            r.0 == fork_amount(board@, piece_type, player, pos, old(self).config.fork_bonus_factor as int, old(self).config.king_fork_bonus as int),
            r.1 == div_trunc(r.0 as int, 2),
            -1_700_000 <= r.0 <= 1_700_000,
            final(self).config == old(self).config,
            final(self).stats == (TacticalStats {
                forks_found: if board_sum(board@, target_terms(board@, piece_type, player, pos), 81) >= 2 {
                    (old(self).stats.forks_found + 1) as u64
                } else {
                    old(self).stats.forks_found
                },
                ..old(self).stats
            }),
    {
        let summary = attack_summary(board, pos, piece_type, player);
        if summary.0 >= 2 {
            let factor = self.config.fork_bonus_factor;
            assert(-162_000_000 <= summary.1 * factor <= 162_000_000) by (nonlinear_arith)
                requires
                    0 <= summary.1 <= 16200,
                    -10000 <= factor <= 10000,
            ;
            let fork_bonus = summary.1 * factor / 100;
            let king_bonus = if summary.2 > 0 {
                self.config.king_fork_bonus
            } else {
                0
            };
            self.stats.forks_found = self.stats.forks_found + 1;
            let v = fork_bonus + king_bonus;
            (v, v / 2)
        } else {
            (0, 0)
        }
    }

    /// Forks by every piece of `player`. Counts the check and the forks found.
    pub fn detect_forks(&mut self, board: &BitboardBoard, player: Player) -> (r: TaperedScore)
        requires
            board.wf(),
            old(self).config.forks_weights_ok(),
            old(self).stats.fork_checks < u64::MAX,
            old(self).stats.forks_found <= u64::MAX - 81,
        ensures
            r.mg == forks_total(old(self).config, board@, player, false),
            r.eg == forks_total(old(self).config, board@, player, true),
            -140_000_000 <= r.mg <= 140_000_000,
            -140_000_000 <= r.eg <= 140_000_000,
            final(self).config == old(self).config,
            final(self).stats == (TacticalStats {
                fork_checks: (old(self).stats.fork_checks + 1) as u64,
                forks_found: (old(self).stats.forks_found + forks_count(board@, player)) as u64,
                ..old(self).stats
            }),
    {
        reveal(forks_total);
        reveal(forks_count);
        self.stats.fork_checks = self.stats.fork_checks + 1;
        let ghost found0 = self.stats.forks_found;
        let ghost stats1 = self.stats;
        let mut mg: i32 = 0;
        let mut eg: i32 = 0;
        let mut i: usize = 0;
        while i < 81
            invariant
                board.wf(),
                i <= 81,
                self.config == old(self).config,
                self.config.forks_weights_ok(),
                stats1 == (TacticalStats { fork_checks: (old(self).stats.fork_checks + 1) as u64, ..old(self).stats }),
                found0 == old(self).stats.forks_found,
                found0 <= u64::MAX - 81,
                self.stats == (TacticalStats { forks_found: self.stats.forks_found, ..stats1 }),
                self.stats.forks_found == found0 + board_sum(board@, forking_terms(board@, player), i as int),
                0 <= board_sum(board@, forking_terms(board@, player), i as int) <= i,
                mg == board_sum(board@, fork_terms(old(self).config, board@, player, false), i as int),
                eg == board_sum(board@, fork_terms(old(self).config, board@, player, true), i as int),
                -1_700_000 * i <= mg <= 1_700_000 * i,
                -1_700_000 * i <= eg <= 1_700_000 * i,
            decreases 81 - i,
        {
            match board.get_piece_at_index(i) {
                Some(p) => {
                    if p.player == player {
                        let v = self.check_piece_for_forks(board, Position::from_index(i as u8), p.piece_type, player);
                        mg = mg + v.0;
                        eg = eg + v.1;
                    }
                },
                None => {},
            }
            i = i + 1;
        }
        TaperedScore::new_tapered(mg, eg)
    }

    /// Whether a piece of kind `piece_type` pins along direction (dr, dc).
    pub fn can_pin_along_line(&self, piece_type: PieceType, dr: i32, dc: i32) -> (r: bool)
        requires
            -9 <= dr <= 9,
            -9 <= dc <= 9,
        ensures
            r == pins_along(piece_type, dr as int, dc as int),
    {
        match piece_type {
            PieceType::Rook | PieceType::PromotedRook | PieceType::Lance => dr == 0 || dc == 0,
            PieceType::Bishop | PieceType::PromotedBishop => {
                let a = if dr < 0 { -dr } else { dr };
                let c = if dc < 0 { -dc } else { dc };
                a == c
            },
            _ => false,
        }
    }

    fn pin_in_direction(&mut self, board: &BitboardBoard, king_pos: Position, player: Player, dr: i32, dc: i32) -> (r: i32)
        requires
            board.wf(),
            king_pos.valid(),
            -1 <= dr <= 1,
            -1 <= dc <= 1,
            old(self).config.pins_weights_ok(),
            old(self).stats.pins_found < u64::MAX,
        ensures
            r == pin_value(board@, king_pos, player, dr as int, dc as int, old(self).config.pin_penalty_factor as int),
            -20000 <= r <= 20000,
            0 <= pin_found(board@, king_pos, player, dr as int, dc as int) <= 1,
            final(self).config == old(self).config,
            final(self).stats == (TacticalStats {
                pins_found: (old(self).stats.pins_found + pin_found(board@, king_pos, player, dr as int, dc as int)) as u64,
                ..old(self).stats
            }),
    {
        proof {
            reveal(pin_value);
            reveal(pin_found);
        }
        let ps = ray_scan(board, king_pos, dr, dc);
        if ps.len() >= 2 && ps[0].player == player && ps[1].player != player && self.can_pin_along_line(ps[1].piece_type, dr, dc) {
            let factor = self.config.pin_penalty_factor;
            let h = hundreds_exec(ps[0].piece_type);
            assert(-2_000_000 <= h * factor <= 2_000_000) by (nonlinear_arith)
                requires
                    1 <= h <= 200,
                    -10000 <= factor <= 10000,
            ;
            self.stats.pins_found = self.stats.pins_found + 1;
            h * factor / 100
        } else {
            0
        }
    }

    /// Pins against the king of `player` (the value grows with the pinned pieces); endgame
    /// half. Counts the check and the pins found.
    #[verifier::rlimit(80)]
    pub fn detect_pins(&mut self, board: &BitboardBoard, player: Player) -> (r: TaperedScore)
        requires
            board.wf(),
            old(self).config.pins_weights_ok(),
            old(self).stats.pin_checks < u64::MAX,
            old(self).stats.pins_found <= u64::MAX - 8,
        ensures
            r.mg == pins_value(board@, player, old(self).config.pin_penalty_factor as int),
            r.eg == div_trunc(r.mg as int, 2),
            -160000 <= r.mg <= 160000,
            final(self).config == old(self).config,
            final(self).stats == (TacticalStats {
                pin_checks: (old(self).stats.pin_checks + 1) as u64,
                pins_found: (old(self).stats.pins_found + pins_count(board@, player)) as u64,
                ..old(self).stats
            }),
    {
        reveal(pins_value);
        reveal(pins_count);
        self.stats.pin_checks = self.stats.pin_checks + 1;
        let king_pos = match board.find_king(player) {
            Some(k) => k,
            None => {
                return TaperedScore::new_tapered(0, 0);
            },
        };
        let mut mg: i32 = 0;
        mg = mg + self.pin_in_direction(board, king_pos, player, 1, 0);
        mg = mg + self.pin_in_direction(board, king_pos, player, -1, 0);
        mg = mg + self.pin_in_direction(board, king_pos, player, 0, 1);
        mg = mg + self.pin_in_direction(board, king_pos, player, 0, -1);
        mg = mg + self.pin_in_direction(board, king_pos, player, 1, 1);
        mg = mg + self.pin_in_direction(board, king_pos, player, -1, 1);
        mg = mg + self.pin_in_direction(board, king_pos, player, 1, -1);
        mg = mg + self.pin_in_direction(board, king_pos, player, -1, -1);
        TaperedScore::new_tapered(mg, mg / 2)
    }

    fn skewer_in_direction(&mut self, board: &BitboardBoard, pos: Position, player: Player, dr: i32, dc: i32) -> (r: i32)
        requires
            board.wf(),
            pos.valid(),
            -1 <= dr <= 1,
            -1 <= dc <= 1,
            old(self).config.skewers_weights_ok(),
            old(self).stats.skewers_found < u64::MAX,
        ensures
            r == skewer_value(board@, pos, player, dr as int, dc as int, old(self).config.skewer_bonus_factor as int),
            -20000 <= r <= 20000,
            final(self).config == old(self).config,
            final(self).stats == (TacticalStats {
                skewers_found: (old(self).stats.skewers_found + skewer_found(board@, pos, player, dr as int, dc as int)) as u64,
                ..old(self).stats
            }),
    {
        let ps = ray_scan(board, pos, dr, dc);
        if ps.len() >= 2 && ps[0].player == player && ps[1].player == player {
            let v1 = ps[0].piece_type.base_value();
            let v2 = ps[1].piece_type.base_value();
            if v2 > v1 {
                let factor = self.config.skewer_bonus_factor;
                assert(-200_000_000 <= (v2 - v1) * factor <= 200_000_000) by (nonlinear_arith)
                    requires
                        0 < v2 - v1 <= 20000,
                        -10000 <= factor <= 10000,
                ;
                self.stats.skewers_found = self.stats.skewers_found + 1;
                return (v2 - v1) * factor / 10000;
            }
        }
        0
    }

    /// Skewers by the enemy rooks, dragons, bishops and horses against pieces of `player`;
    /// endgame half. Counts the check and the skewers found.
    pub fn detect_skewers(&mut self, board: &BitboardBoard, player: Player) -> (r: TaperedScore)
        requires
            board.wf(),
            old(self).config.skewers_weights_ok(),
            old(self).stats.skewer_checks < u64::MAX,
            old(self).stats.skewers_found <= u64::MAX - 324,
        ensures
            r.mg == skewers_total(board@, player, old(self).config.skewer_bonus_factor as int),
            r.eg == div_trunc(r.mg as int, 2),
            -7_000_000 <= r.mg <= 7_000_000,
            final(self).config == old(self).config,
            final(self).stats == (TacticalStats {
                skewer_checks: (old(self).stats.skewer_checks + 1) as u64,
                skewers_found: (old(self).stats.skewers_found + skewers_count(board@, player)) as u64,
                ..old(self).stats
            }),
    {
        reveal(skewers_total);
        reveal(skewers_count);
        self.stats.skewer_checks = self.stats.skewer_checks + 1;
        let ghost stats1 = self.stats;
        let ghost factor = self.config.skewer_bonus_factor as int;
        let mut mg: i32 = 0;
        let mut i: usize = 0;
        while i < 81
            invariant
                board.wf(),
                i <= 81,
                self.config == old(self).config,
                self.config.skewers_weights_ok(),
                factor == old(self).config.skewer_bonus_factor,
                stats1 == (TacticalStats { skewer_checks: (old(self).stats.skewer_checks + 1) as u64, ..old(self).stats }),
                stats1.skewers_found <= u64::MAX - 324,
                self.stats == (TacticalStats { skewers_found: self.stats.skewers_found, ..stats1 }),
                self.stats.skewers_found == stats1.skewers_found + board_sum(board@, skewer_terms(board@, player, 0, true), i as int),
                0 <= board_sum(board@, skewer_terms(board@, player, 0, true), i as int) <= 4 * i,
                mg == board_sum(board@, skewer_terms(board@, player, factor, false), i as int),
                -80000 * i <= mg <= 80000 * i,
            decreases 81 - i,
        {
            let f = Position::from_index(i as u8);
            let ghost found_before = self.stats.skewers_found;
            match board.get_piece_at_index(i) {
                Some(p) => {
                    if p.player != player && (p.piece_type == PieceType::Rook || p.piece_type == PieceType::PromotedRook) {
                        let a = self.skewer_in_direction(board, f, player, 1, 0);
                        let b = self.skewer_in_direction(board, f, player, -1, 0);
                        let c = self.skewer_in_direction(board, f, player, 0, 1);
                        let d = self.skewer_in_direction(board, f, player, 0, -1);
                        mg = mg + a + b + c + d;
                    } else if p.player != player && (p.piece_type == PieceType::Bishop || p.piece_type == PieceType::PromotedBishop) {
                        let a = self.skewer_in_direction(board, f, player, 1, 1);
                        let b = self.skewer_in_direction(board, f, player, -1, 1);
                        let c = self.skewer_in_direction(board, f, player, 1, -1);
                        let d = self.skewer_in_direction(board, f, player, -1, -1);
                        mg = mg + a + b + c + d;
                    }
                },
                None => {},
            }
            i = i + 1;
        }
        TaperedScore::new_tapered(mg, mg / 2)
    }

    /// The direction from `from` towards `to` along a rank, file or diagonal, if any.
    pub fn direction_towards(from: Position, to: Position) -> (r: Option<(i32, i32)>)
        requires
            from.valid(),
            to.valid(),
        ensures
            match towards(from, to) {
                Some(d) => r == Some((d.0 as i32, d.1 as i32)),
                None => r is None,
            },
    {
        let dr = to.row as i32 - from.row as i32;
        let dc = to.col as i32 - from.col as i32;
        let sr: i32 = if dr > 0 { 1 } else if dr < 0 { -1 } else { 0 };
        let sc: i32 = if dc > 0 { 1 } else if dc < 0 { -1 } else { 0 };
        if dr == 0 && dc == 0 {
            return None;
        }
        let a = if dr < 0 { -dr } else { dr };
        let c = if dc < 0 { -dc } else { dc };
        if dr == 0 || dc == 0 || a == c {
            Some((sr, sc))
        } else {
            None
        }
    }

    /// Whether moving the piece of `player` on `piece_pos` would uncover an attack on
    /// `target_pos`.
    pub fn can_create_discovered_attack(&self, board: &BitboardBoard, player: Player, piece_pos: Position, target_pos: Position) -> (r: bool)
        requires
            board.wf(),
            piece_pos.valid(),
            target_pos.valid(),
        ensures
            r == uncovers(board@, player, piece_pos, target_pos),
    {
        reveal(uncovers);
        let d = match Self::direction_towards(piece_pos, target_pos) {
            Some(d) => d,
            None => {
                return false;
            },
        };
        let dr = target_pos.row as i32 - piece_pos.row as i32;
        let dc = target_pos.col as i32 - piece_pos.col as i32;
        let a = if dr < 0 { -dr } else { dr };
        let c = if dc < 0 { -dc } else { dc };
        let dist = if a > c { a } else { c };
        proof {
            assert(towards(piece_pos, target_pos) == Some((d.0 as int, d.1 as int)));
            if d.0 == 1 {
                assert(dr == d.0 * dist);
            } else if d.0 == -1 {
                assert(dr == d.0 * dist);
            } else {
                assert(dr == d.0 * dist);
            }
            if d.1 == 1 {
                assert(dc == d.1 * dist);
            } else if d.1 == -1 {
                assert(dc == d.1 * dist);
            } else {
                assert(dc == d.1 * dist);
            }
        }
        if !board.ray_is_clear(piece_pos, d.0, d.1, dist) {
            return false;
        }
        let behind = ray_scan(board, piece_pos, -d.0, -d.1);
        behind.len() > 0 && behind[0].player == player && self.can_pin_along_line(behind[0].piece_type, d.0, d.1)
    }

    /// The square of the king of `player` (the first in row-major order).
    pub fn find_king_position(&self, board: &BitboardBoard, player: Player) -> (r: Option<Position>)
        requires
            board.wf(),
        ensures
            r == king_square(board@, player),
    {
        board.find_king(player)
    }

    /// Discovered attacks on the enemy king: the bonus per own piece whose move would uncover
    /// one; endgame half. Counts the check and the discovered attacks found.
    pub fn detect_discovered_attacks(&mut self, board: &BitboardBoard, player: Player) -> (r: TaperedScore)
        requires
            board.wf(),
            old(self).config.discovered_weights_ok(),
            old(self).stats.discovered_checks < u64::MAX,
            old(self).stats.discovered_attacks_found <= u64::MAX - 81,
        ensures
            r.mg == discovered_value(board@, player, old(self).config.discovered_attack_bonus as int),
            r.eg == div_trunc(r.mg as int, 2),
            -810000 <= r.mg <= 810000,
            final(self).config == old(self).config,
            final(self).stats == (TacticalStats {
                discovered_checks: (old(self).stats.discovered_checks + 1) as u64,
                discovered_attacks_found: (old(self).stats.discovered_attacks_found + discovered_count(board@, player)) as u64,
                ..old(self).stats
            }),
    {
        reveal(discovered_value);
        reveal(discovered_count);
        self.stats.discovered_checks = self.stats.discovered_checks + 1;
        let target = match board.find_king(player.opposite()) {
            Some(k) => k,
            None => {
                return TaperedScore::new_tapered(0, 0);
            },
        };
        let bonus = self.config.discovered_attack_bonus;
        let ghost stats1 = self.stats;
        let mut count: i32 = 0;
        let mut i: usize = 0;
        while i < 81
            invariant
                board.wf(),
                target.valid(),
                i <= 81,
                self.config == old(self).config,
                bonus == old(self).config.discovered_attack_bonus,
                stats1.discovered_attacks_found <= u64::MAX - 81,
                self.stats == (TacticalStats { discovered_attacks_found: self.stats.discovered_attacks_found, ..stats1 }),
                self.stats.discovered_attacks_found == stats1.discovered_attacks_found + count,
                count == board_sum(board@, uncover_terms(board@, player, target), i as int),
                0 <= count <= i,
            decreases 81 - i,
        {
            match board.get_piece_at_index(i) {
                Some(p) => {
                    if p.player == player && self.can_create_discovered_attack(board, player, Position::from_index(i as u8), target) {
                        count = count + 1;
                        self.stats.discovered_attacks_found = self.stats.discovered_attacks_found + 1;
                    }
                },
                None => {},
            }
            i = i + 1;
        }
        assert(-810000 <= count * bonus <= 810000) by (nonlinear_arith)
            requires
                0 <= count <= 81,
                -10000 <= bonus <= 10000,
        ;
        let mg = count * bonus;
        TaperedScore::new_tapered(mg, mg / 2)
    }

    /// The knight fork value of a knight of `player` on `pos`; counts a knight fork found.
    pub fn check_knight_for_forks(&mut self, board: &BitboardBoard, pos: Position, player: Player) -> (r: i32)
        requires
            board.wf(),
            pos.valid(),
            old(self).config.knight_forks_weights_ok(),
            old(self).stats.knight_forks_found < u64::MAX,
        ensures
            r == fork_amount(board@, PieceType::Knight, player, pos, old(self).config.knight_fork_bonus_factor as int, 2 * old(self).config.king_fork_bonus),
            -1_700_000 <= r <= 1_700_000,
            final(self).config == old(self).config,
            final(self).stats == (TacticalStats {
                knight_forks_found: if board_sum(board@, target_terms(board@, PieceType::Knight, player, pos), 81) >= 2 {
                    (old(self).stats.knight_forks_found + 1) as u64
                } else {
                    old(self).stats.knight_forks_found
                },
                ..old(self).stats
            }),
    {
        let summary = attack_summary(board, pos, PieceType::Knight, player);
        if summary.0 >= 2 {
            let factor = self.config.knight_fork_bonus_factor;
            assert(-162_000_000 <= summary.1 * factor <= 162_000_000) by (nonlinear_arith)
                requires
                    0 <= summary.1 <= 16200,
                    -10000 <= factor <= 10000,
            ;
            let base = summary.1 * factor / 100;
            let king_bonus = if summary.2 > 0 {
                self.config.king_fork_bonus * 2
            } else {
                0
            };
            self.stats.knight_forks_found = self.stats.knight_forks_found + 1;
            base + king_bonus
        } else {
            0
        }
    }

    /// Forks by the knights of `player`. Counts the check and the knight forks found.
    pub fn detect_knight_forks(&mut self, board: &BitboardBoard, player: Player) -> (r: TaperedScore)
        requires
            board.wf(),
            old(self).config.knight_forks_weights_ok(),
            old(self).stats.knight_fork_checks < u64::MAX,
            old(self).stats.knight_forks_found <= u64::MAX - 81,
        ensures
            r.mg == knight_forks_total(old(self).config, board@, player, false),
            r.eg == knight_forks_total(old(self).config, board@, player, true),
            -140_000_000 <= r.mg <= 140_000_000,
            -140_000_000 <= r.eg <= 140_000_000,
            final(self).config == old(self).config,
            final(self).stats == (TacticalStats {
                knight_fork_checks: (old(self).stats.knight_fork_checks + 1) as u64,
                knight_forks_found: (old(self).stats.knight_forks_found + knight_forks_count(board@, player)) as u64,
                ..old(self).stats
            }),
    {
        reveal(knight_forks_total);
        reveal(knight_forks_count);
        self.stats.knight_fork_checks = self.stats.knight_fork_checks + 1;
        let ghost stats1 = self.stats;
        let mut mg: i32 = 0;
        let mut eg: i32 = 0;
        let mut i: usize = 0;
        while i < 81
            invariant
                board.wf(),
                i <= 81,
                self.config == old(self).config,
                self.config.knight_forks_weights_ok(),
                stats1 == (TacticalStats { knight_fork_checks: (old(self).stats.knight_fork_checks + 1) as u64, ..old(self).stats }),
                stats1.knight_forks_found <= u64::MAX - 81,
                self.stats == (TacticalStats { knight_forks_found: self.stats.knight_forks_found, ..stats1 }),
                self.stats.knight_forks_found == stats1.knight_forks_found + board_sum(board@, knight_forking_terms(board@, player), i as int),
                0 <= board_sum(board@, knight_forking_terms(board@, player), i as int) <= i,
                mg == board_sum(board@, knight_fork_terms(old(self).config, board@, player, false), i as int),
                eg == board_sum(board@, knight_fork_terms(old(self).config, board@, player, true), i as int),
                -1_700_000 * i <= mg <= 1_700_000 * i,
                -1_700_000 * i <= eg <= 1_700_000 * i,
            decreases 81 - i,
        {
            match board.get_piece_at_index(i) {
                Some(p) => {
                    if p.player == player && p.piece_type == PieceType::Knight {
                        let v = self.check_knight_for_forks(board, Position::from_index(i as u8), player);
                        mg = mg + v;
                        eg = eg + v / 2;
                    }
                },
                None => {},
            }
            i = i + 1;
        }
        TaperedScore::new_tapered(mg, eg)
    }

    /// The number of neighbours of `king_pos` that are empty or hold an enemy piece.
    pub fn count_king_escape_squares(&self, board: &BitboardBoard, king_pos: Position, player: Player) -> (r: i32)
        requires
            board.wf(),
            king_pos.valid(),
        ensures
            r == board_sum(board@, escape_terms(king_pos, player), 81),
            0 <= r <= 81,
    {
        let mut count: i32 = 0;
        let mut i: usize = 0;
        while i < 81
            invariant
                board.wf(),
                king_pos.valid(),
                i <= 81,
                count == board_sum(board@, escape_terms(king_pos, player), i as int),
                0 <= count <= i,
            decreases 81 - i,
        {
            let dr = (i / 9) as i32 - king_pos.row as i32;
            let dc = (i % 9) as i32 - king_pos.col as i32;
            if -1 <= dr && dr <= 1 && -1 <= dc && dc <= 1 && !(dr == 0 && dc == 0) {
                let open = match board.get_piece_at_index(i) {
                    Some(p) => p.player != player,
                    None => true,
                };
                if open {
                    count = count + 1;
                }
            }
            i = i + 1;
        }
        count
    }

    /// The number of enemy rooks and dragons on the rank of `king_pos` with an open line to it.
    pub fn count_back_rank_threats(&self, board: &BitboardBoard, king_pos: Position, player: Player) -> (r: i32)
        requires
            board.wf(),
            king_pos.valid(),
        ensures
            r == board_sum(board@, rank_threat_terms(board@, king_pos, player), 81),
            0 <= r <= 81,
    {
        let mut count: i32 = 0;
        let mut i: usize = 0;
        while i < 81
            invariant
                board.wf(),
                king_pos.valid(),
                i <= 81,
                count == board_sum(board@, rank_threat_terms(board@, king_pos, player), i as int),
                0 <= count <= i,
            decreases 81 - i,
        {
            let row = (i / 9) as u8;
            let col = (i % 9) as u8;
            match board.get_piece_at_index(i) {
                Some(p) => {
                    if p.player != player && (p.piece_type == PieceType::Rook || p.piece_type == PieceType::PromotedRook)
                        && row == king_pos.row && col != king_pos.col {
                        let diff = king_pos.col as i32 - col as i32;
                        let step: i32 = if diff > 0 { 1 } else { -1 };
                        let dist: i32 = if diff > 0 { diff } else { -diff };
                        let from = Position::from_index(i as u8);
                        if board.ray_is_clear(from, 0, step, dist) {
                            count = count + 1;
                        }
                    }
                },
                None => {},
            }
            i = i + 1;
        }
        count
    }

    /// Back-rank threats against the king of `player` (a negative score); endgame half.
    /// Counts the check and the threats found.
    pub fn detect_back_rank_threats(&mut self, board: &BitboardBoard, player: Player) -> (r: TaperedScore)
        requires
            board.wf(),
            old(self).config.back_rank_weights_ok(),
            old(self).stats.back_rank_checks < u64::MAX,
            old(self).stats.back_rank_threats_found < u64::MAX,
        ensures
            r.mg == -back_rank_penalty(board@, player, old(self).config.back_rank_threat_penalty as int),
            r.eg == div_trunc(r.mg as int, 2),
            -810000 <= r.mg <= 810000,
            final(self).config == old(self).config,
            final(self).stats == (TacticalStats {
                back_rank_checks: (old(self).stats.back_rank_checks + 1) as u64,
                back_rank_threats_found: if back_rank_penalty(board@, player, old(self).config.back_rank_threat_penalty as int) != 0 {
                    (old(self).stats.back_rank_threats_found + 1) as u64
                } else {
                    old(self).stats.back_rank_threats_found
                },
                ..old(self).stats
            }),
    {
        reveal(back_rank_penalty);
        self.stats.back_rank_checks = self.stats.back_rank_checks + 1;
        let king_pos = match board.find_king(player) {
            Some(k) => k,
            None => {
                return TaperedScore::new_tapered(0, 0);
            },
        };
        let back: u8 = match player {
            Player::Black => 8,
            Player::White => 0,
        };
        if king_pos.row != back {
            return TaperedScore::new_tapered(0, 0);
        }
        let escapes = self.count_king_escape_squares(board, king_pos, player);
        if escapes <= 1 {
            let threats = self.count_back_rank_threats(board, king_pos, player);
            if threats > 0 {
                let pen = self.config.back_rank_threat_penalty;
                assert(-810000 <= threats * pen <= 810000) by (nonlinear_arith)
                    requires
                        0 < threats <= 81,
                        -10000 <= pen <= 10000,
                ;
                let penalty = threats * pen / (escapes + 1);
                assert(-810000 <= penalty <= 810000) by (nonlinear_arith)
                    requires
                        penalty == div_trunc(threats * pen, escapes + 1),
                        -810000 <= threats * pen <= 810000,
                        1 <= escapes + 1 <= 2,
                ;
                if penalty != 0 {
                    self.stats.back_rank_threats_found = self.stats.back_rank_threats_found + 1;
                    return TaperedScore::new_tapered(-penalty, -penalty / 2);
                }
            }
        }
        TaperedScore::new_tapered(0, 0)
    }

    /// Forks, pins and skewers, each where enabled.
    fn first_parts(&mut self, board: &BitboardBoard, player: Player) -> (r: TaperedScore)
        requires
            board.wf(),
            old(self).config.first_weights_ok(),
            old(self).stats.fork_checks < u64::MAX,
            old(self).stats.forks_found <= u64::MAX - 81,
            old(self).stats.pin_checks < u64::MAX,
            old(self).stats.pins_found <= u64::MAX - 8,
            old(self).stats.skewer_checks < u64::MAX,
            old(self).stats.skewers_found <= u64::MAX - 324,
        ensures
            r.mg == forks_part(old(self).config, board@, player, false) + pins_part(old(self).config, board@, player, false)
                + skewers_part(old(self).config, board@, player, false),
            r.eg == forks_part(old(self).config, board@, player, true) + pins_part(old(self).config, board@, player, true)
                + skewers_part(old(self).config, board@, player, true),
            -150_000_000 <= r.mg <= 150_000_000,
            -150_000_000 <= r.eg <= 150_000_000,
            final(self).config == old(self).config,
            final(self).stats == first_stats(old(self).config, old(self).stats, board@, player),
    {
        let forks = if self.config.enable_forks {
            self.detect_forks(board, player)
        } else {
            TaperedScore::new_tapered(0, 0)
        };
        let pins = if self.config.enable_pins {
            self.detect_pins(board, player)
        } else {
            TaperedScore::new_tapered(0, 0)
        };
        let skewers = if self.config.enable_skewers {
            self.detect_skewers(board, player)
        } else {
            TaperedScore::new_tapered(0, 0)
        };
        TaperedScore::new_tapered(forks.mg + pins.mg + skewers.mg, forks.eg + pins.eg + skewers.eg)
    }

    /// Discovered attacks, knight forks and back-rank threats, each where enabled.
    fn second_parts(&mut self, board: &BitboardBoard, player: Player) -> (r: TaperedScore)
        requires
            board.wf(),
            old(self).config.second_weights_ok(),
            old(self).stats.discovered_checks < u64::MAX,
            old(self).stats.discovered_attacks_found <= u64::MAX - 81,
            old(self).stats.knight_fork_checks < u64::MAX,
            old(self).stats.knight_forks_found <= u64::MAX - 81,
            old(self).stats.back_rank_checks < u64::MAX,
            old(self).stats.back_rank_threats_found < u64::MAX,
        ensures
            r.mg == discovered_part(old(self).config, board@, player, false) + knight_forks_part(old(self).config, board@, player, false)
                + back_rank_part(old(self).config, board@, player, false),
            r.eg == discovered_part(old(self).config, board@, player, true) + knight_forks_part(old(self).config, board@, player, true)
                + back_rank_part(old(self).config, board@, player, true),
            -150_000_000 <= r.mg <= 150_000_000,
            -150_000_000 <= r.eg <= 150_000_000,
            final(self).config == old(self).config,
            final(self).stats == second_stats(old(self).config, old(self).stats, board@, player),
    {
        let discovered = if self.config.enable_discovered_attacks {
            self.detect_discovered_attacks(board, player)
        } else {
            TaperedScore::new_tapered(0, 0)
        };
        let knights = if self.config.enable_knight_forks {
            self.detect_knight_forks(board, player)
        } else {
            TaperedScore::new_tapered(0, 0)
        };
        let back = if self.config.enable_back_rank_threats {
            self.detect_back_rank_threats(board, player)
        } else {
            TaperedScore::new_tapered(0, 0)
        };
        TaperedScore::new_tapered(discovered.mg + knights.mg + back.mg, discovered.eg + knights.eg + back.eg)
    }

    /// The tactical score of `player`: the sum of the enabled patterns. Counts the
    /// evaluation and the checks made.
    pub fn evaluate_tactics(&mut self, board: &BitboardBoard, player: Player) -> (r: TaperedScore)
        requires
            board.wf(),
            old(self).config.enabled_weights_ok(),
            old(self).stats.has_room(),
        ensures
            r.mg == tactics_score(old(self).config, board@, player, false),
            r.eg == tactics_score(old(self).config, board@, player, true),
            final(self).config == old(self).config,
            final(self).stats == tactics_stats(old(self).config, old(self).stats, board@, player),
    {
        self.stats.evaluations = self.stats.evaluations + 1;
        let first = self.first_parts(board, player);
        let second = self.second_parts(board, player);
        TaperedScore::new_tapered(first.mg + second.mg, first.eg + second.eg)
    }
}

} // verus!
