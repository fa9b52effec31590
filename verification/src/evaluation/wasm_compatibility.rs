//! Configuration of the evaluator for WebAssembly and native targets: memory and
//! binary-size estimates and their validation.

use vstd::prelude::*;
use crate::text::{chars_to_string, decimal, err_text, push_decimal, push_str};

pub mod wasm_utils;

verus! {

/// Evaluator settings for constrained (WebAssembly) and native targets.
#[derive(Clone, Copy, Debug, PartialEq, Eq, Structural)]
pub struct WasmEvaluatorConfig {
    pub enable_wasm_optimizations: bool,
    /// Memory limit in bytes.
    pub max_wasm_memory: usize,
    pub use_compact_structures: bool,
    pub disable_heavy_features: bool,
    pub reduce_cache_sizes: bool,
    /// Phase cache entries.
    pub wasm_phase_cache_size: usize,
    /// Evaluation cache entries.
    pub wasm_eval_cache_size: usize,
    pub disable_statistics_wasm: bool,
}

/// Estimated memory use in bytes: 1 KiB base, 16 bytes per phase-cache entry, 32 per
/// evaluation-cache entry, and 3 KiB of statistics unless disabled.
pub open spec fn memory_estimate(c: WasmEvaluatorConfig) -> int {
    1024 + c.wasm_phase_cache_size * 16 + c.wasm_eval_cache_size * 32 + if c.disable_statistics_wasm {
        0int
    } else {
        3072
    }
}

/// Estimated binary size in KiB: 73 for the core, 60 for the heavy features unless
/// disabled, and 12 for statistics unless disabled.
pub open spec fn binary_estimate(c: WasmEvaluatorConfig) -> int {
    40 + 10 + 15 + 8 + (if c.disable_heavy_features { 0int } else { 60int }) + if c.disable_statistics_wasm {
        0int
    } else {
        12
    }
}

/// The WebAssembly-optimised settings.
pub open spec fn wasm_optimized_spec() -> WasmEvaluatorConfig {
    WasmEvaluatorConfig {
        enable_wasm_optimizations: true,
        max_wasm_memory: 16777216,
        use_compact_structures: true,
        disable_heavy_features: false,
        reduce_cache_sizes: true,
        wasm_phase_cache_size: 1000,
        wasm_eval_cache_size: 2000,
        disable_statistics_wasm: true,
    }
}

/// The native-optimised settings.
pub open spec fn native_optimized_spec() -> WasmEvaluatorConfig {
    WasmEvaluatorConfig {
        enable_wasm_optimizations: false,
        max_wasm_memory: 104857600,
        use_compact_structures: false,
        disable_heavy_features: false,
        reduce_cache_sizes: false,
        wasm_phase_cache_size: 10000,
        wasm_eval_cache_size: 10000,
        disable_statistics_wasm: false,
    }
}

impl WasmEvaluatorConfig {
    /// 16 MiB limit, compact structures, small caches, no statistics.
    pub fn wasm_optimized() -> (r: Self)
        ensures
            r == wasm_optimized_spec(),
    {
        WasmEvaluatorConfig {
            enable_wasm_optimizations: true,
            max_wasm_memory: 16777216,
            use_compact_structures: true,
            disable_heavy_features: false,
            reduce_cache_sizes: true,
            wasm_phase_cache_size: 1000,
            wasm_eval_cache_size: 2000,
            disable_statistics_wasm: true,
        }
    }

    /// 4 MiB limit, heavy features off, smaller caches.
    pub fn wasm_memory_constrained() -> (r: Self)
        ensures
            r == (WasmEvaluatorConfig {
                enable_wasm_optimizations: true,
                max_wasm_memory: 4194304,
                use_compact_structures: true,
                disable_heavy_features: true,
                reduce_cache_sizes: true,
                wasm_phase_cache_size: 500,
                wasm_eval_cache_size: 1000,
                disable_statistics_wasm: true,
            }),
    {
        WasmEvaluatorConfig {
            enable_wasm_optimizations: true,
            max_wasm_memory: 4194304,
            use_compact_structures: true,
            disable_heavy_features: true,
            reduce_cache_sizes: true,
            wasm_phase_cache_size: 500,
            wasm_eval_cache_size: 1000,
            disable_statistics_wasm: true,
        }
    }

    /// 100 MiB limit, large caches, statistics on.
    pub fn native_optimized() -> (r: Self)
        ensures
            r == native_optimized_spec(),
    {
        WasmEvaluatorConfig {
            enable_wasm_optimizations: false,
            max_wasm_memory: 104857600,
            use_compact_structures: false,
            disable_heavy_features: false,
            reduce_cache_sizes: false,
            wasm_phase_cache_size: 10000,
            wasm_eval_cache_size: 10000,
            disable_statistics_wasm: false,
        }
    }

    /// The WebAssembly settings for a WebAssembly target, the native settings otherwise.
    pub fn for_platform(is_wasm: bool) -> (r: Self)
        ensures
            r == (if is_wasm { wasm_optimized_spec() } else { native_optimized_spec() }),
    {
        if is_wasm {
            Self::wasm_optimized()
        } else {
            Self::native_optimized()
        }
    }

    /// Estimated memory use in bytes.
    pub fn estimate_memory_usage(&self) -> (r: usize)
        requires
            memory_estimate(*self) <= usize::MAX,
        ensures
            r == memory_estimate(*self),
    {
        let base_evaluator: usize = 1024;
        let phase_cache = self.wasm_phase_cache_size * 16;
        let eval_cache = self.wasm_eval_cache_size * 32;
        let statistics: usize = if self.disable_statistics_wasm { 0 } else { 3 * 1024 };
        base_evaluator + phase_cache + eval_cache + statistics
    }

    /// Estimated binary size in KiB.
    pub fn estimate_binary_size_impact(&self) -> (r: u32)
        ensures
            r == binary_estimate(*self),
    {
        let base_tapered: u32 = 40;
        let material: u32 = 10;
        let pst: u32 = 15;
        let phase_transition: u32 = 8;
        let position_features: u32 = if self.disable_heavy_features { 0 } else { 20 };
        let opening_principles: u32 = if self.disable_heavy_features { 0 } else { 15 };
        let endgame_patterns: u32 = if self.disable_heavy_features { 0 } else { 15 };
        let statistics: u32 = if self.disable_statistics_wasm { 0 } else { 12 };
        let advanced: u32 = if self.disable_heavy_features { 0 } else { 10 };
        base_tapered + material + pst + phase_transition + position_features + opening_principles
            + endgame_patterns + statistics + advanced
    }

    /// Ok when the limit is positive, at most 1 GiB, and not exceeded by the estimate.
    pub fn validate(&self) -> (r: Result<(), String>)
        requires
            memory_estimate(*self) <= usize::MAX,
        ensures
            r is Ok <==> (0 < self.max_wasm_memory <= 1073741824 && memory_estimate(*self) <= self.max_wasm_memory),
            self.max_wasm_memory == 0 ==> err_text(r) == "Max WASM memory must be greater than 0"@,
            self.max_wasm_memory > 1073741824 ==> err_text(r) == "Max WASM memory should not exceed 1GB"@,
            0 < self.max_wasm_memory <= 1073741824 && memory_estimate(*self) > self.max_wasm_memory ==> err_text(r)
                == "Estimated memory usage ("@ + decimal(memory_estimate(*self) as nat) + " bytes) exceeds limit ("@
                + decimal(self.max_wasm_memory as nat) + " bytes)"@,
    {
        if self.max_wasm_memory == 0 {
            return Err(crate::text::string_of("Max WASM memory must be greater than 0"));
        }
        if self.max_wasm_memory > 1073741824 {
            return Err(crate::text::string_of("Max WASM memory should not exceed 1GB"));
        }
        let estimated = self.estimate_memory_usage();
        if estimated > self.max_wasm_memory {
            let mut v: Vec<char> = Vec::new();
            push_str(&mut v, "Estimated memory usage (");
            push_decimal(&mut v, estimated as u128);
            push_str(&mut v, " bytes) exceeds limit (");
            push_decimal(&mut v, self.max_wasm_memory as u128);
            push_str(&mut v, " bytes)");
            return Err(chars_to_string(&v));
        }
        Ok(())
    }
}

} // verus!
