//! Evaluation components.

pub mod material;
pub mod tapered_eval;
pub mod eval_cache;
pub mod castles;
pub mod patterns;
pub mod integration;
pub mod performance;
pub mod statistics;
pub mod config;
pub mod endgame_patterns;
pub mod phase_transition;
pub mod wasm_compatibility;
pub mod opening_principles;
pub mod position_features;
pub mod positional_patterns;
pub mod tactical_patterns;
