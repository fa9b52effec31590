//! Component switches of the integrated evaluator.

use vstd::prelude::*;

verus! {

/// Which evaluation components are enabled.
#[derive(Clone, Copy, Debug, PartialEq, Eq, Structural)]
pub struct ComponentFlags {
    pub material: bool,
    pub piece_square_tables: bool,
    pub position_features: bool,
    pub opening_principles: bool,
    pub endgame_patterns: bool,
    pub tactical_patterns: bool,
    pub positional_patterns: bool,
    pub castle_patterns: bool,
}

impl ComponentFlags {
    /// Every component on.
    pub fn all_enabled() -> (r: Self)
        ensures
            r == (ComponentFlags {
                material: true,
                piece_square_tables: true,
                position_features: true,
                opening_principles: true,
                endgame_patterns: true,
                tactical_patterns: true,
                positional_patterns: true,
                castle_patterns: true,
            }),
    {
        ComponentFlags {
            material: true,
            piece_square_tables: true,
            position_features: true,
            opening_principles: true,
            endgame_patterns: true,
            tactical_patterns: true,
            positional_patterns: true,
            castle_patterns: true,
        }
    }

    /// Every component off.
    pub fn all_disabled() -> (r: Self)
        ensures
            r == (ComponentFlags {
                material: false,
                piece_square_tables: false,
                position_features: false,
                opening_principles: false,
                endgame_patterns: false,
                tactical_patterns: false,
                positional_patterns: false,
                castle_patterns: false,
            }),
    {
        ComponentFlags {
            material: false,
            piece_square_tables: false,
            position_features: false,
            opening_principles: false,
            endgame_patterns: false,
            tactical_patterns: false,
            positional_patterns: false,
            castle_patterns: false,
        }
    }

    /// Material and piece-square tables only.
    pub fn minimal() -> (r: Self)
        ensures
            r == (ComponentFlags {
                material: true,
                piece_square_tables: true,
                position_features: false,
                opening_principles: false,
                endgame_patterns: false,
                tactical_patterns: false,
                positional_patterns: false,
                castle_patterns: false,
            }),
    {
        ComponentFlags {
            material: true,
            piece_square_tables: true,
            position_features: false,
            opening_principles: false,
            endgame_patterns: false,
            tactical_patterns: false,
            positional_patterns: false,
            castle_patterns: false,
        }
    }
}

/// Sizes and switches of the evaluator's caches.
#[derive(Clone, Copy, Debug, PartialEq, Eq, Structural)]
pub struct CacheStatistics {
    pub phase_cache_size: usize,
    pub eval_cache_size: usize,
    pub phase_cache_enabled: bool,
    pub eval_cache_enabled: bool,
}

} // verus!
