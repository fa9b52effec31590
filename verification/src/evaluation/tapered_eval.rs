//! Tapered evaluation: game phase from the material on the board, and interpolation of
//! middlegame/endgame scores by phase.

use vstd::prelude::*;
use crate::types::{
    interp_fits, interp_numerator, interp_spec, div_trunc, piece_index, Piece, PieceType, TaperedScore,
    GAME_PHASE_MAX,
};
use crate::bitboards::BitboardBoard;

verus! {

/// Contribution of a piece type to the game phase; pawns, kings and promoted pieces have none.
pub open spec fn piece_phase_value(pt: PieceType) -> Option<i32> {
    match pt {
        PieceType::Knight => Some(1i32),
        PieceType::Silver => Some(1i32),
        PieceType::Gold => Some(2i32),
        PieceType::Bishop => Some(2i32),
        PieceType::Rook => Some(3i32),
        PieceType::Lance => Some(1i32),
        _ => None,
    }
}

/// Sum of the phase contributions of the pieces on the squares `s`.
pub open spec fn phase_material(s: Seq<Option<Piece>>) -> int
    decreases s.len(),
{
    if s.len() == 0 {
        0
    } else {
        phase_material(s.drop_last()) + match s.last() {
            Some(pc) => match piece_phase_value(pc.piece_type) {
                Some(v) => v as int,
                None => 0,
            },
            None => 0,
        }
    }
}

/// The game phase of a board: phase material scaled so that 30 maps to 256, clamped to 0..=256.
pub open spec fn game_phase(s: Seq<Option<Piece>>) -> int {
    let scaled = (phase_material(s) * GAME_PHASE_MAX) / 30;
    if scaled > GAME_PHASE_MAX {
        GAME_PHASE_MAX as int
    } else if scaled < 0 {
        0
    } else {
        scaled
    }
}

/// The code a piece contributes to the phase-cache hash.
pub open spec fn piece_code(pc: Piece) -> u64 {
    (piece_index(pc.piece_type) * 100 + pc.player.code()) as u64
}

/// The phase-cache hash of the squares `s`: `h = h * 31 + code` over occupied squares,
/// with wrapping 64-bit arithmetic.
pub open spec fn phase_hash(s: Seq<Option<Piece>>) -> u64
    decreases s.len(),
{
    if s.len() == 0 {
        0
    } else {
        let h = phase_hash(s.drop_last());
        match s.last() {
            Some(pc) => vstd::wrapping::u64_specs::wrapping_add(
                vstd::wrapping::u64_specs::wrapping_mul(h, 31),
                piece_code(pc),
            ),
            None => h,
        }
    }
}

/// Hash of a cache entry (0 when empty).
pub open spec fn cache_key(c: Option<(u64, i32)>) -> u64 {
    match c {
        Some((h, _)) => h,
        None => 0,
    }
}

/// Phase of a cache entry (0 when empty).
pub open spec fn cache_value(c: Option<(u64, i32)>) -> i32 {
    match c {
        Some((_, p)) => p,
        None => 0,
    }
}

/// Configuration of tapered evaluation.
#[derive(Clone, Copy, Debug, PartialEq, Eq, Structural)]
pub struct TaperedEvaluationConfig {
    /// Whether tapered evaluation is used.
    pub enabled: bool,
    /// Whether the last computed game phase is cached.
    pub cache_game_phase: bool,
    /// Whether performance monitoring is on.
    pub enable_performance_monitoring: bool,
    /// Size of the memory pool, in entries.
    pub memory_pool_size: usize,
}

impl TaperedEvaluationConfig {
    /// Tapered evaluation turned off.
    pub fn disabled() -> (r: Self)
        ensures
            r == (TaperedEvaluationConfig {
                enabled: false,
                cache_game_phase: false,
                enable_performance_monitoring: false,
                memory_pool_size: 1000,
            }),
    {
        TaperedEvaluationConfig {
            enabled: false,
            cache_game_phase: false,
            enable_performance_monitoring: false,
            memory_pool_size: 1000,
        }
    }

    /// Caching and monitoring on.
    pub fn performance_optimized() -> (r: Self)
        ensures
            r == (TaperedEvaluationConfig {
                enabled: true,
                cache_game_phase: true,
                enable_performance_monitoring: true,
                memory_pool_size: 1000,
            }),
    {
        TaperedEvaluationConfig {
            enabled: true,
            cache_game_phase: true,
            enable_performance_monitoring: true,
            memory_pool_size: 1000,
        }
    }

    /// No phase cache and a small memory pool.
    pub fn memory_optimized() -> (r: Self)
        ensures
            r == (TaperedEvaluationConfig {
                enabled: true,
                cache_game_phase: false,
                enable_performance_monitoring: false,
                memory_pool_size: 100,
            }),
    {
        TaperedEvaluationConfig {
            enabled: true,
            cache_game_phase: false,
            enable_performance_monitoring: false,
            memory_pool_size: 100,
        }
    }
}

impl Default for TaperedEvaluationConfig {
    fn default() -> (r: Self)
        ensures
            r == (TaperedEvaluationConfig {
                enabled: true,
                cache_game_phase: true,
                enable_performance_monitoring: false,
                memory_pool_size: 1000,
            }),
    {
        TaperedEvaluationConfig {
            enabled: true,
            cache_game_phase: true,
            enable_performance_monitoring: false,
            memory_pool_size: 1000,
        }
    }
}

/// Counters of tapered evaluation.
#[derive(Clone, Copy, Debug, Default, PartialEq, Eq, Structural)]
pub struct TaperedEvaluationStats {
    /// Number of phase calculations.
    pub phase_calculations: u64,
    /// Number of phase calculations answered from the cache.
    pub cache_hits: u64,
    /// Number of interpolations.
    pub interpolations: u64,
}

impl TaperedEvaluationStats {
    /// Number of interpolations performed.
    pub fn total_interpolations(&self) -> (r: u64)
        ensures
            r == self.interpolations,
    {
        self.interpolations
    }
}

/// Coordinates phase calculation (with a one-entry cache) and interpolation.
pub struct TaperedEvaluation {
    config: TaperedEvaluationConfig,
    /// The last computed (hash, phase), when caching is on.
    pub cached_phase: Option<(u64, i32)>,
    stats: TaperedEvaluationStats,
}

impl TaperedEvaluation {
    pub closed spec fn config_spec(&self) -> TaperedEvaluationConfig {
        self.config
    }

    pub closed spec fn stats_spec(&self) -> TaperedEvaluationStats {
        self.stats
    }

    pub closed spec fn cached_spec(&self) -> Option<(u64, i32)> {
        self.cached_phase
    }

    /// Default configuration, empty cache, zero counters.
    pub fn new() -> (r: Self)
        ensures
            r.config_spec() == (TaperedEvaluationConfig {
                enabled: true,
                cache_game_phase: true,
                enable_performance_monitoring: false,
                memory_pool_size: 1000,
            }),
            r.cached_spec() is None,
            r.stats_spec() == (TaperedEvaluationStats { phase_calculations: 0, cache_hits: 0, interpolations: 0 }),
    {
        Self::with_config(TaperedEvaluationConfig::default())
    }

    /// The given configuration, empty cache, zero counters.
    pub fn with_config(config: TaperedEvaluationConfig) -> (r: Self)
        ensures
            r.config_spec() == config,
            r.cached_spec() is None,
            r.stats_spec() == (TaperedEvaluationStats { phase_calculations: 0, cache_hits: 0, interpolations: 0 }),
    {
        Self {
            config,
            cached_phase: None,
            stats: TaperedEvaluationStats { phase_calculations: 0, cache_hits: 0, interpolations: 0 },
        }
    }

    pub fn config(&self) -> (r: &TaperedEvaluationConfig)
        ensures
            *r == self.config_spec(),
    {
        &self.config
    }

    /// Replace the configuration and empty the phase cache.
    pub fn set_config(&mut self, config: TaperedEvaluationConfig)
        ensures
            final(self).config_spec() == config,
            final(self).cached_spec() is None,
            final(self).stats_spec() == old(self).stats_spec(),
    {
        self.config = config;
        self.cached_phase = None;
    }

    pub fn stats(&self) -> (r: &TaperedEvaluationStats)
        ensures
            *r == self.stats_spec(),
    {
        &self.stats
    }

    /// Zero the counters.
    pub fn reset_stats(&mut self)
        ensures
            final(self).stats_spec() == (TaperedEvaluationStats { phase_calculations: 0, cache_hits: 0, interpolations: 0 }),
            final(self).config_spec() == old(self).config_spec(),
            final(self).cached_spec() == old(self).cached_spec(),
    {
        self.stats = TaperedEvaluationStats { phase_calculations: 0, cache_hits: 0, interpolations: 0 };
    }

    /// Empty the phase cache.
    pub fn clear_cache(&mut self)
        ensures
            final(self).cached_spec() is None,
            final(self).config_spec() == old(self).config_spec(),
            final(self).stats_spec() == old(self).stats_spec(),
    {
        self.cached_phase = None;
    }

    /// Phase contribution of a piece type.
    pub fn get_piece_phase_value(&self, piece_type: PieceType) -> (r: Option<i32>)
        ensures
            r == piece_phase_value(piece_type),
    {
        match piece_type {
            PieceType::Knight => Some(1),
            PieceType::Silver => Some(1),
            PieceType::Gold => Some(2),
            PieceType::Bishop => Some(2),
            PieceType::Rook => Some(3),
            PieceType::Lance => Some(1),
            _ => None,
        }
    }

    /// The game phase of a board computed from its material.
    fn calculate_phase_from_material(&self, board: &BitboardBoard) -> (r: i32)
        requires
            board.wf(),
        ensures
            r == game_phase(board@),
            0 <= r <= GAME_PHASE_MAX,
    {
        let mut phase: i32 = 0;
        let mut i: usize = 0;
        while i < 81
            invariant
                board.wf(),
                i <= 81,
                phase == phase_material(board@.subrange(0, i as int)),
                0 <= phase <= 3 * i,
            decreases 81 - i,
        {
            assert(board@.subrange(0, i + 1).drop_last() == board@.subrange(0, i as int));
            if let Some(piece) = board.get_piece_at_index(i) {
                if let Some(v) = self.get_piece_phase_value(piece.piece_type) {
                    phase = phase + v;
                }
            }
            i = i + 1;
        }
        assert(board@.subrange(0, 81) == board@);
        let scaled = (phase * GAME_PHASE_MAX) / 30;
        if scaled > GAME_PHASE_MAX {
            GAME_PHASE_MAX
        } else if scaled < 0 {
            0
        } else {
            scaled
        }
    }

    /// The phase-cache hash of a board.
    fn get_position_hash(&self, board: &BitboardBoard) -> (r: u64)
        requires
            board.wf(),
        ensures
            r == phase_hash(board@),
    {
        let mut hash: u64 = 0;
        let mut i: usize = 0;
        while i < 81
            invariant
                board.wf(),
                i <= 81,
                hash == phase_hash(board@.subrange(0, i as int)),
            decreases 81 - i,
        {
            assert(board@.subrange(0, i + 1).drop_last() == board@.subrange(0, i as int));
            if let Some(piece) = board.get_piece_at_index(i) {
                let code = (piece.piece_type.to_u8() as u64) * 100 + (piece.player.to_u8() as u64);
                hash = hash.wrapping_mul(31).wrapping_add(code);
            }
            i = i + 1;
        }
        assert(board@.subrange(0, 81) == board@);
        hash
    }

    /// The game phase of a board (0 = endgame, 256 = opening). When caching is on and the
    /// cached hash equals the board's hash, the cached phase is returned and counted as a
    /// hit; otherwise the phase is computed from material and, with caching on, cached.
    pub fn calculate_game_phase(&mut self, board: &BitboardBoard) -> (r: i32)
        requires
            board.wf(),
            old(self).stats_spec().phase_calculations < u64::MAX,
            old(self).stats_spec().cache_hits < u64::MAX,
        ensures
            final(self).config_spec() == old(self).config_spec(),
            final(self).stats_spec().phase_calculations == old(self).stats_spec().phase_calculations + 1,
            final(self).stats_spec().interpolations == old(self).stats_spec().interpolations,
            ({
                let hit = old(self).config_spec().cache_game_phase && old(self).cached_spec() is Some
                    && cache_key(old(self).cached_spec()) == phase_hash(board@);
                &&& hit ==> r == cache_value(old(self).cached_spec()) && final(self).cached_spec()
                    == old(self).cached_spec() && final(self).stats_spec().cache_hits
                    == old(self).stats_spec().cache_hits + 1
                &&& !hit ==> r == game_phase(board@) && final(self).stats_spec().cache_hits
                    == old(self).stats_spec().cache_hits && final(self).cached_spec() == (if old(
                    self,
                ).config_spec().cache_game_phase {
                    Some((phase_hash(board@), r))
                } else {
                    old(self).cached_spec()
                })
            }),
    {
        self.stats.phase_calculations = self.stats.phase_calculations + 1;
        if self.config.cache_game_phase {
            let position_hash = self.get_position_hash(board);
            if let Some((cached_hash, cached_phase)) = self.cached_phase {
                if cached_hash == position_hash {
                    self.stats.cache_hits = self.stats.cache_hits + 1;
                    return cached_phase;
                }
            }
        }
        let phase = self.calculate_phase_from_material(board);
        if self.config.cache_game_phase {
            let position_hash = self.get_position_hash(board);
            self.cached_phase = Some((position_hash, phase));
        }
        phase
    }

    /// Interpolate a tapered score at `phase`; counts one interpolation.
    pub fn interpolate(&mut self, score: TaperedScore, phase: i32) -> (r: i32)
        requires
            interp_fits(score.mg as int, score.eg as int, phase as int),
            old(self).stats_spec().interpolations < u64::MAX,
        ensures
            r == interp_spec(score.mg as int, score.eg as int, phase as int),
            final(self).stats_spec().interpolations == old(self).stats_spec().interpolations + 1,
            final(self).stats_spec().phase_calculations == old(self).stats_spec().phase_calculations,
            final(self).stats_spec().cache_hits == old(self).stats_spec().cache_hits,
            final(self).config_spec() == old(self).config_spec(),
            final(self).cached_spec() == old(self).cached_spec(),
    {
        self.stats.interpolations = self.stats.interpolations + 1;
        score.interpolate(phase)
    }

    /// A score with equal middlegame and endgame values.
    pub fn create_score(&self, value: i32) -> (r: TaperedScore)
        ensures
            r.mg == value,
            r.eg == value,
    {
        TaperedScore::new(value)
    }

    /// A score with the given middlegame and endgame values.
    pub fn create_tapered_score(&self, mg: i32, eg: i32) -> (r: TaperedScore)
        ensures
            r.mg == mg,
            r.eg == eg,
    {
        TaperedScore::new_tapered(mg, eg)
    }
}

/// The game phase of every board lies between 0 and 256.
pub proof fn law_game_phase_range(s: Seq<Option<Piece>>)
    ensures
        0 <= game_phase(s) <= GAME_PHASE_MAX,
{
}

/// Interpolation at the extreme phases: phase 256 gives the middlegame value and phase 0
/// gives the endgame value.
pub proof fn law_interpolate_endpoints(mg: int, eg: int)
    ensures
        interp_spec(mg, eg, GAME_PHASE_MAX as int) == mg,
        interp_spec(mg, eg, 0) == eg,
{
    assert(interp_numerator(mg, eg, 256) == mg * 256) by (nonlinear_arith);
    assert(interp_numerator(mg, eg, 0) == eg * 256) by (nonlinear_arith);
    if mg >= 0 {
        assert((mg * 256) / 256 == mg) by (nonlinear_arith);
    } else {
        assert((-(mg * 256)) / 256 == -mg) by (nonlinear_arith);
    }
    if eg >= 0 {
        assert((eg * 256) / 256 == eg) by (nonlinear_arith);
    } else {
        assert((-(eg * 256)) / 256 == -eg) by (nonlinear_arith);
    }
}

/// Truncating division by 256 moves by at most one when its argument moves by at most 256.
proof fn lemma_div_trunc_step(a: int, d: int)
    requires
        -256 <= d <= 256,
    ensures
        -1 <= div_trunc(a + d, 256) - div_trunc(a, 256) <= 1,
{
    if a >= 0 && a + d >= 0 {
        assert(-1 <= (a + d) / 256 - a / 256 <= 1) by (nonlinear_arith)
            requires
                a >= 0,
                a + d >= 0,
                -256 <= d <= 256,
        ;
    } else if a < 0 && a + d < 0 {
        assert(-1 <= (-a) / 256 - (-(a + d)) / 256 <= 1) by (nonlinear_arith)
            requires
                a < 0,
                a + d < 0,
                -256 <= d <= 256,
        ;
    } else if a >= 0 {
        assert(a / 256 == 0 && 0 <= (-(a + d)) / 256 <= 1) by (nonlinear_arith)
            requires
                a >= 0,
                a + d < 0,
                -256 <= d <= 256,
        ;
    } else {
        assert((a + d) / 256 == 0 && 0 <= (-a) / 256 <= 1) by (nonlinear_arith)
            requires
                a < 0,
                a + d >= 0,
                -256 <= d <= 256,
        ;
    }
}

/// Smooth interpolation: when middlegame and endgame values differ by at most 256, raising
/// the phase by one changes the interpolated value by at most one.
pub proof fn law_interpolate_smooth(mg: int, eg: int, phase: int)
    requires
        -256 <= mg - eg <= 256,
    ensures
        -1 <= interp_spec(mg, eg, phase + 1) - interp_spec(mg, eg, phase) <= 1,
{
    assert(interp_numerator(mg, eg, phase + 1) == interp_numerator(mg, eg, phase) + (mg - eg))
        by (nonlinear_arith);
    lemma_div_trunc_step(interp_numerator(mg, eg, phase), mg - eg);
}

} // verus!
