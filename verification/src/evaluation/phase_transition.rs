//! Interpolation methods for phase transitions.

use vstd::prelude::*;

verus! {

/// How middlegame and endgame scores are blended.
#[derive(Clone, Copy, Debug, PartialEq, Eq, Hash, Structural)]
pub enum InterpolationMethod {
    Linear,
    Cubic,
    Sigmoid,
}

/// Counters of phase transitions.
#[derive(Clone, Copy, Debug, Default, PartialEq, Eq, Structural)]
pub struct PhaseTransitionStats {
    pub interpolations: u64,
}

} // verus!
