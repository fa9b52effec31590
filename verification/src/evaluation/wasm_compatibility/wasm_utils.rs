//! Sizing helpers for WebAssembly targets.

use vstd::prelude::*;
use crate::evaluation::integration::ComponentFlags;
use crate::evaluation::wasm_compatibility::{binary_estimate, wasm_optimized_spec, WasmEvaluatorConfig};
use crate::text::str_eq;

verus! {

/// Entries of 32 bytes that fit in `available_memory_mb` megabytes, capped at 5000.
pub fn get_optimal_wasm_cache_size(available_memory_mb: u32) -> (r: usize)
    ensures
        r == (if (available_memory_mb * 1048576) / 32 < 5000 {
            (available_memory_mb * 1048576) / 32
        } else {
            5000
        }),
{
    let max_entries: u64 = (available_memory_mb as u64 * 1048576) / 32;
    if max_entries < 5000 {
        max_entries as usize
    } else {
        5000
    }
}

/// The minimal components when memory is constrained; otherwise material, piece-square
/// tables and position features.
pub fn get_wasm_components(memory_constrained: bool) -> (r: ComponentFlags)
    ensures
        r == (ComponentFlags {
            material: true,
            piece_square_tables: true,
            position_features: !memory_constrained,
            opening_principles: false,
            endgame_patterns: false,
            tactical_patterns: false,
            positional_patterns: false,
            castle_patterns: false,
        }),
{
    if memory_constrained {
        ComponentFlags::minimal()
    } else {
        ComponentFlags {
            material: true,
            piece_square_tables: true,
            position_features: true,
            opening_principles: false,
            endgame_patterns: false,
            tactical_patterns: false,
            positional_patterns: false,
            castle_patterns: false,
        }
    }
}

/// Whether a named feature is enabled on WebAssembly: material and tables yes; position
/// features only when `is_wasm` is false; the listed heavy features no; unknown names yes.
pub fn should_enable_feature_wasm(feature: &str, is_wasm: bool) -> (r: bool)
    ensures
        feature@ == "material"@ ==> r,
        feature@ == "piece_square_tables"@ ==> r,
        feature@ == "opening_principles"@ ==> !r,
        feature@ == "endgame_patterns"@ ==> !r,
        feature@ == "statistics"@ ==> !r,
        feature@ == "advanced_interpolation"@ ==> !r,
        feature@ == "position_features"@ ==> r == !is_wasm,
        !(feature@ == "material"@ || feature@ == "piece_square_tables"@ || feature@ == "position_features"@
            || feature@ == "opening_principles"@ || feature@ == "endgame_patterns"@ || feature@ == "statistics"@
            || feature@ == "advanced_interpolation"@) ==> r,
{
    proof {
        reveal_strlit("material");
        reveal_strlit("piece_square_tables");
        reveal_strlit("position_features");
        reveal_strlit("opening_principles");
        reveal_strlit("endgame_patterns");
        reveal_strlit("statistics");
        reveal_strlit("advanced_interpolation");
        assert("material"@.len() == 8);
        assert("piece_square_tables"@.len() == 19);
        assert("position_features"@.len() == 17);
        assert("opening_principles"@.len() == 18);
        assert("endgame_patterns"@.len() == 16);
        assert("statistics"@.len() == 10);
        assert("advanced_interpolation"@.len() == 22);
    }
    if str_eq(feature, "material") {
        true
    } else if str_eq(feature, "piece_square_tables") {
        true
    } else if str_eq(feature, "position_features") {
        !is_wasm
    } else if str_eq(feature, "opening_principles") {
        false
    } else if str_eq(feature, "endgame_patterns") {
        false
    } else if str_eq(feature, "statistics") {
        false
    } else if str_eq(feature, "advanced_interpolation") {
        false
    } else {
        true
    }
}

/// Binary-size estimate of the WebAssembly-optimised settings.
pub fn estimate_total_binary_impact() -> (r: u32)
    ensures
        r == binary_estimate(wasm_optimized_spec()),
{
    let config = WasmEvaluatorConfig::wasm_optimized();
    config.estimate_binary_size_impact()
}

} // verus!
