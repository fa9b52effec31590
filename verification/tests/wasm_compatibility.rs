use shogi_engine::evaluation::wasm_compatibility::wasm_utils;
use shogi_engine::evaluation::wasm_compatibility::WasmEvaluatorConfig;

#[test]
fn test_wasm_config_creation() {
    let config = WasmEvaluatorConfig::wasm_optimized();
    assert!(config.enable_wasm_optimizations);
    assert_eq!(config.max_wasm_memory, 16 * 1024 * 1024);
}

#[test]
fn test_memory_constrained_config() {
    let config = WasmEvaluatorConfig::wasm_memory_constrained();
    assert_eq!(config.max_wasm_memory, 4 * 1024 * 1024);
    assert!(config.disable_heavy_features);
}

#[test]
fn test_native_config() {
    let config = WasmEvaluatorConfig::native_optimized();
    assert!(!config.enable_wasm_optimizations);
    assert_eq!(config.max_wasm_memory, 100 * 1024 * 1024);
}

#[test]
fn test_memory_estimation() {
    let config = WasmEvaluatorConfig::wasm_optimized();
    let memory = config.estimate_memory_usage();
    assert!(memory <= config.max_wasm_memory);
}

#[test]
fn test_binary_size_estimation() {
    let config = WasmEvaluatorConfig::wasm_optimized();
    let size = config.estimate_binary_size_impact();
    assert!(size < 150);
}

#[test]
fn test_config_validation() {
    let config = WasmEvaluatorConfig::wasm_optimized();
    assert!(config.validate().is_ok());
}

#[test]
fn test_invalid_config() {
    let mut config = WasmEvaluatorConfig::wasm_optimized();
    config.max_wasm_memory = 0;
    assert!(config.validate().is_err());
}

#[test]
fn test_wasm_utils_cache_size() {
    let cache_size = wasm_utils::get_optimal_wasm_cache_size(8);
    assert!(cache_size <= 5000);
}

#[test]
fn test_wasm_components() {
    let minimal = wasm_utils::get_wasm_components(true);
    assert!(minimal.material);
    assert!(!minimal.opening_principles);
    let full = wasm_utils::get_wasm_components(false);
    assert!(full.position_features);
}

#[test]
fn test_feature_enablement() {
    assert!(wasm_utils::should_enable_feature_wasm("material", false));
    assert!(wasm_utils::should_enable_feature_wasm("piece_square_tables", false));
}

#[test]
fn test_memory_constrained_validation() {
    let config = WasmEvaluatorConfig::wasm_memory_constrained();
    assert!(config.validate().is_ok());
    let memory = config.estimate_memory_usage();
    assert!(memory <= config.max_wasm_memory);
}

#[test]
fn test_binary_size_with_heavy_features() {
    let mut config = WasmEvaluatorConfig::wasm_optimized();
    config.disable_heavy_features = false;
    let size_with = config.estimate_binary_size_impact();
    config.disable_heavy_features = true;
    let size_without = config.estimate_binary_size_impact();
    assert!(size_without < size_with);
}

#[test]
fn wasm_exact_estimates() {
    let config = WasmEvaluatorConfig::wasm_optimized();
    assert_eq!(config.estimate_memory_usage(), 1024 + 16000 + 64000);
    assert_eq!(config.estimate_binary_size_impact(), 133);
    assert_eq!(wasm_utils::estimate_total_binary_impact(), 133);
    assert_eq!(wasm_utils::get_optimal_wasm_cache_size(0), 0);
    assert_eq!(wasm_utils::get_optimal_wasm_cache_size(8), 5000);
    assert!(!wasm_utils::should_enable_feature_wasm("position_features", true));
    assert!(wasm_utils::should_enable_feature_wasm("something_else", true));
    let mut c = WasmEvaluatorConfig::native_optimized();
    c.max_wasm_memory = 2048;
    assert_eq!(
        c.validate(),
        Err("Estimated memory usage (484096 bytes) exceeds limit (2048 bytes)".to_string())
    );
    c.max_wasm_memory = 2 * 1024 * 1024 * 1024;
    assert_eq!(c.validate(), Err("Max WASM memory should not exceed 1GB".to_string()));
    assert_eq!(WasmEvaluatorConfig::for_platform(false), WasmEvaluatorConfig::native_optimized());
}
