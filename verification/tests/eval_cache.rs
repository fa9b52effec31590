use shogi_engine::bitboards::BitboardBoard;
use shogi_engine::evaluation::eval_cache::{
    next_power_of_two, CacheAdvice, CacheStatistics, EvaluationCache, EvaluationCacheConfig,
    EvaluationEntry, ReplacementPolicy,
};
use shogi_engine::types::{CapturedPieces, Piece, PieceType, Player, Position};

#[test]
fn test_cache_creation() {
    let cache = EvaluationCache::new();
    assert_eq!(cache.get_config().size, 1024 * 1024);
    assert!(cache.get_config().enable_statistics);
}

#[test]
fn test_cache_config_validation() {
    let mut config = EvaluationCacheConfig::default();
    assert!(config.validate().is_ok());
    config.size = 1000;
    assert!(config.validate().is_err());
    config.size = 512;
    assert!(config.validate().is_err());
    config.size = 1024;
    assert!(config.validate().is_ok());
    config.size = 2048;
    assert!(config.validate().is_ok());
}

#[test]
fn test_cache_store_and_probe() {
    let mut cache = EvaluationCache::new();
    let board = BitboardBoard::new();
    let captured_pieces = CapturedPieces::new();
    assert_eq!(cache.probe(&board, Player::Black, &captured_pieces), None);
    cache.store(&board, Player::Black, &captured_pieces, 150, 5);
    assert_eq!(cache.probe(&board, Player::Black, &captured_pieces), Some(150));
}

#[test]
fn test_cache_statistics() {
    let mut cache = EvaluationCache::new();
    let board = BitboardBoard::new();
    let captured_pieces = CapturedPieces::new();
    let stats = cache.get_statistics();
    assert_eq!(stats.hits, 0);
    assert_eq!(stats.misses, 0);
    assert_eq!(stats.probes, 0);
    cache.probe(&board, Player::Black, &captured_pieces);
    let stats = cache.get_statistics();
    assert_eq!(stats.misses, 1);
    assert_eq!(stats.probes, 1);
    cache.store(&board, Player::Black, &captured_pieces, 100, 3);
    let stats = cache.get_statistics();
    assert_eq!(stats.stores, 1);
    cache.probe(&board, Player::Black, &captured_pieces);
    let stats = cache.get_statistics();
    assert_eq!(stats.hits, 1);
    assert_eq!(stats.probes, 2);
}

#[test]
fn test_replacement_policy_always_replace() {
    let mut config = EvaluationCacheConfig::default();
    config.replacement_policy = ReplacementPolicy::AlwaysReplace;
    let mut cache = EvaluationCache::with_config(config);
    let board = BitboardBoard::new();
    let captured_pieces = CapturedPieces::new();
    cache.store(&board, Player::Black, &captured_pieces, 100, 5);
    assert_eq!(cache.probe(&board, Player::Black, &captured_pieces), Some(100));
    cache.store(&board, Player::Black, &captured_pieces, 200, 3);
    assert_eq!(cache.probe(&board, Player::Black, &captured_pieces), Some(200));
}

#[test]
fn test_replacement_policy_depth_preferred() {
    let mut config = EvaluationCacheConfig::default();
    config.replacement_policy = ReplacementPolicy::DepthPreferred;
    let mut cache = EvaluationCache::with_config(config);
    let board = BitboardBoard::new();
    let captured_pieces = CapturedPieces::new();
    cache.store(&board, Player::Black, &captured_pieces, 100, 5);
    assert_eq!(cache.probe(&board, Player::Black, &captured_pieces), Some(100));
    cache.store(&board, Player::Black, &captured_pieces, 200, 3);
    assert_eq!(cache.probe(&board, Player::Black, &captured_pieces), Some(100));
    cache.store(&board, Player::Black, &captured_pieces, 300, 5);
    assert_eq!(cache.probe(&board, Player::Black, &captured_pieces), Some(300));
    cache.store(&board, Player::Black, &captured_pieces, 400, 7);
    assert_eq!(cache.probe(&board, Player::Black, &captured_pieces), Some(400));
}

#[test]
fn test_cache_clear() {
    let mut cache = EvaluationCache::new();
    let board = BitboardBoard::new();
    let captured_pieces = CapturedPieces::new();
    cache.store(&board, Player::Black, &captured_pieces, 100, 5);
    assert_eq!(cache.probe(&board, Player::Black, &captured_pieces), Some(100));
    cache.clear();
    assert_eq!(cache.probe(&board, Player::Black, &captured_pieces), None);
    let stats = cache.get_statistics();
    assert_eq!(stats.hits, 0);
    assert_eq!(stats.misses, 0);
    assert_eq!(stats.probes, 0);
}

#[test]
fn test_entry_verification() {
    let key = 0x123456789ABCDEF0;
    let entry = EvaluationEntry::new(key, 100, 5);
    assert!(entry.is_valid());
    assert!(entry.verify(key));
    assert!(!entry.verify(0xFFFFFFFFFFFFFFFF));
    assert_eq!(entry.verification, (key >> 48) as u16);
}

#[test]
fn test_entry_age_management() {
    let mut entry = EvaluationEntry::new(0x123, 100, 5);
    assert_eq!(entry.age, 0);
    entry.increment_age();
    assert_eq!(entry.age, 1);
    entry.increment_age();
    assert_eq!(entry.age, 2);
    entry.reset_age();
    assert_eq!(entry.age, 0);
    for _ in 0..300 {
        entry.increment_age();
    }
    assert_eq!(entry.age, 255);
}

#[test]
fn test_different_positions() {
    let mut cache = EvaluationCache::new();
    let board1 = BitboardBoard::new();
    let captured_pieces = CapturedPieces::new();
    cache.store(&board1, Player::Black, &captured_pieces, 100, 5);
    assert_eq!(cache.probe(&board1, Player::Black, &captured_pieces), Some(100));
    cache.store(&board1, Player::White, &captured_pieces, 200, 5);
    assert_eq!(cache.probe(&board1, Player::White, &captured_pieces), Some(200));
    assert_eq!(cache.probe(&board1, Player::Black, &captured_pieces), Some(100));
}

#[test]
fn test_replacement_priority() {
    let entry1 = EvaluationEntry { key: 1, score: 100, depth: 5, age: 0, verification: 0 };
    let entry2 = EvaluationEntry { key: 2, score: 200, depth: 3, age: 0, verification: 0 };
    assert!(entry1.replacement_priority() > entry2.replacement_priority());
    let entry3 = EvaluationEntry { key: 3, score: 150, depth: 5, age: 10, verification: 0 };
    assert!(entry1.replacement_priority() > entry3.replacement_priority());
}

#[test]
fn test_statistics_performance_check() {
    let mut stats = CacheStatistics::default();
    assert!(!stats.is_performing_well());
    stats.probes = 200;
    stats.hits = 150;
    stats.misses = 50;
    stats.collisions = 5;
    assert!(stats.is_performing_well());
    stats.hits = 50;
    stats.misses = 150;
    assert!(!stats.is_performing_well());
}

#[test]
fn eval_cache_test_performance_metrics() {
    let mut cache = EvaluationCache::new();
    let board = BitboardBoard::new();
    let captured_pieces = CapturedPieces::new();
    for i in 0..10 {
        cache.store(&board, Player::Black, &captured_pieces, i * 10, 5);
    }
    let metrics = cache.get_performance_metrics();
    assert!(metrics.filled_entries > 0);
    assert_eq!(metrics.total_capacity, cache.get_config().size);
    assert!(metrics.current_memory_bytes > 0);
}

#[test]
fn test_monitoring_data() {
    let mut cache = EvaluationCache::new();
    let board = BitboardBoard::new();
    let captured_pieces = CapturedPieces::new();
    cache.store(&board, Player::Black, &captured_pieces, 100, 5);
    cache.probe(&board, Player::Black, &captured_pieces);
    let monitoring = cache.get_monitoring_data();
    assert!(monitoring.statistics.probes > 0);
    assert!(!monitoring.timestamp.is_empty());
    assert_eq!(monitoring.config_size, cache.get_config().size);
}

#[test]
fn test_config_summary() {
    let config = EvaluationCacheConfig::default();
    let summary = config.summary();
    assert!(summary.contains("Cache Configuration"));
    assert!(summary.contains("Size:"));
    assert!(summary.contains("Replacement Policy:"));
}

#[test]
fn test_runtime_policy_update() {
    let mut cache = EvaluationCache::new();
    assert_eq!(cache.get_config().replacement_policy, ReplacementPolicy::DepthPreferred);
    cache.update_replacement_policy(ReplacementPolicy::AlwaysReplace);
    assert_eq!(cache.get_config().replacement_policy, ReplacementPolicy::AlwaysReplace);
    cache.update_replacement_policy(ReplacementPolicy::AgingBased);
    assert_eq!(cache.get_config().replacement_policy, ReplacementPolicy::AgingBased);
}

#[test]
fn test_runtime_statistics_toggle() {
    let mut cache = EvaluationCache::new();
    assert!(cache.get_config().enable_statistics);
    cache.set_statistics_enabled(false);
    assert!(!cache.get_config().enable_statistics);
    cache.set_statistics_enabled(true);
    assert!(cache.get_config().enable_statistics);
}

#[test]
fn test_runtime_verification_toggle() {
    let mut cache = EvaluationCache::new();
    assert!(cache.get_config().enable_verification);
    cache.set_verification_enabled(false);
    assert!(!cache.get_config().enable_verification);
    cache.set_verification_enabled(true);
    assert!(cache.get_config().enable_verification);
}

#[test]
fn test_cache_needs_maintenance() {
    let cache = EvaluationCache::new();
    assert!(!cache.needs_maintenance());
}

#[test]
fn test_performance_recommendations() {
    let mut cache = EvaluationCache::new();
    let board = BitboardBoard::new();
    let captured_pieces = CapturedPieces::new();
    for i in 0..10 {
        cache.store(&board, Player::Black, &captured_pieces, i * 10, 5);
        cache.probe(&board, Player::Black, &captured_pieces);
    }
    let recommendations = cache.performance_advice();
    assert!(!recommendations.is_empty());
    assert!(recommendations.len() > 0);
}

// Exact texts of the configuration helpers.
#[test]
fn eval_cache_exact_texts() {
    let config = EvaluationCacheConfig::default();
    assert_eq!(
        config.summary(),
        "Cache Configuration:\n- Size: 1048576 entries (~32.00 MB)\n- Replacement Policy: DepthPreferred\n- Statistics Enabled: true\n- Verification Enabled: true"
    );
    let mut bad = EvaluationCacheConfig::default();
    bad.size = 1000;
    assert_eq!(bad.validate(), Err("Cache size must be a power of 2, got 1000".to_string()));
    bad.size = 512;
    assert_eq!(bad.validate(), Err("Cache size too small (minimum 1024 entries), got 512".to_string()));
    bad.size = 1 << 28;
    assert_eq!(bad.validate(), Err("Cache size too large (maximum 128M entries), got 268435456".to_string()));
}

#[test]
fn eval_cache_with_size_mb_rounds_to_power_of_two() {
    let config = EvaluationCacheConfig::with_size_mb(16);
    assert_eq!(config.size, 524288);
    assert_eq!(next_power_of_two(1000), 1024);
    assert_eq!(next_power_of_two(0), 1);
    assert_eq!(next_power_of_two(1024), 1024);
}

#[test]
fn eval_cache_aging_policy_and_age() {
    let mut config = EvaluationCacheConfig::default();
    config.size = 1024;
    config.replacement_policy = ReplacementPolicy::AgingBased;
    let mut cache = EvaluationCache::with_config(config);
    let mut board = BitboardBoard::empty();
    board.place_piece(Piece::new(PieceType::King, Player::Black), Position::new(8, 4));
    let captured = CapturedPieces::new();
    cache.store(&board, Player::Black, &captured, 10, 5);
    cache.store(&board, Player::Black, &captured, 20, 7);
    assert_eq!(cache.probe(&board, Player::Black, &captured), Some(10));
    cache.store(&board, Player::Black, &captured, 30, 8);
    assert_eq!(cache.probe(&board, Player::Black, &captured), Some(30));
    cache.increment_age();
    assert_eq!(cache.get_statistics().replacements, 1);
}

fn small_cache() -> EvaluationCache {
    let mut config = EvaluationCacheConfig::default();
    config.size = 1024;
    EvaluationCache::with_config(config)
}

#[test]
fn eval_cache_advice_not_enough_data() {
    let mut cache = small_cache();
    let board = BitboardBoard::new();
    let captured = CapturedPieces::new();
    for _ in 0..99 {
        cache.probe(&board, Player::Black, &captured);
    }
    assert_eq!(cache.performance_advice(), vec![CacheAdvice::NotEnoughData]);
}

#[test]
fn eval_cache_advice_low_hit_rate() {
    let mut cache = small_cache();
    let board = BitboardBoard::new();
    let captured = CapturedPieces::new();
    for _ in 0..100 {
        cache.probe(&board, Player::Black, &captured);
    }
    assert_eq!(cache.performance_advice(), vec![CacheAdvice::LowHitRate]);
}

#[test]
fn eval_cache_advice_looks_good() {
    let mut cache = small_cache();
    let board = BitboardBoard::new();
    let captured = CapturedPieces::new();
    cache.store(&board, Player::Black, &captured, 5, 3);
    for _ in 0..100 {
        cache.probe(&board, Player::Black, &captured);
    }
    assert_eq!(cache.performance_advice(), vec![CacheAdvice::LooksGood]);
}

#[test]
fn eval_cache_advice_high_replacement_rate() {
    let mut cache = small_cache();
    let board = BitboardBoard::new();
    let captured = CapturedPieces::new();
    for i in 0..100 {
        cache.store(&board, Player::Black, &captured, i, 3);
        cache.probe(&board, Player::Black, &captured);
    }
    let stats = cache.get_statistics();
    assert_eq!(stats.replacements, 99);
    assert_eq!(cache.performance_advice(), vec![CacheAdvice::HighReplacementRate]);
}

#[test]
fn eval_cache_probe_without_statistics_counts_nothing() {
    let mut cache = small_cache();
    cache.set_statistics_enabled(false);
    let board = BitboardBoard::new();
    let captured = CapturedPieces::new();
    cache.store(&board, Player::Black, &captured, 7, 3);
    assert_eq!(cache.probe(&board, Player::Black, &captured), Some(7));
    assert_eq!(cache.get_statistics(), CacheStatistics::default());
}

#[test]
fn eval_cache_monitoring_metrics_match_performance_metrics() {
    let mut cache = small_cache();
    let board = BitboardBoard::new();
    let captured = CapturedPieces::new();
    cache.store(&board, Player::Black, &captured, 9, 2);
    let monitoring = cache.get_monitoring_data();
    assert_eq!(monitoring.metrics, cache.get_performance_metrics());
    assert_eq!(monitoring.metrics.filled_entries, 1);
    assert_eq!(monitoring.statistics, cache.get_statistics());
}

#[test]
fn eval_cache_config_summary_rounds_megabytes_half_to_even() {
    let mut config = EvaluationCacheConfig::default();
    config.size = 4096;
    assert!(config.summary().contains("(~0.12 MB)"));
    config.size = 12288;
    assert!(config.summary().contains("(~0.38 MB)"));
    config.size = 1024;
    assert!(config.summary().contains("(~0.03 MB)"));
}

#[test]
fn eval_cache_probes_count_again_after_a_store() {
    let mut cache = small_cache();
    let board = BitboardBoard::new();
    let captured = CapturedPieces::new();
    cache.clear();
    cache.probe(&board, Player::Black, &captured);
    assert_eq!(cache.get_statistics(), CacheStatistics::default());
    cache.store(&board, Player::Black, &captured, 4, 1);
    assert_eq!(cache.probe(&board, Player::Black, &captured), Some(4));
    let stats = cache.get_statistics();
    assert_eq!((stats.probes, stats.hits, stats.stores), (1, 1, 1));
}

#[test]
fn eval_cache_monitoring_data_at_stamps_the_time() {
    let cache = small_cache();
    let data = cache.monitoring_data_at(1700000000);
    assert_eq!(data.timestamp, "1700000000");
    assert_eq!(data.config_size, 1024);
    assert_eq!(data.config_policy, "DepthPreferred");
    assert_eq!(cache.monitoring_data_at(0).timestamp, "0");
}
