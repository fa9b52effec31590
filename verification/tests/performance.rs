use shogi_engine::evaluation::performance::{PerformanceProfiler, MAX_SAMPLES};
use shogi_engine::evaluation::statistics::{PerformanceMetrics, PhaseStatistics, ScoreStatistics};

#[test]
fn test_profiler_disabled_by_default() {
    let profiler = PerformanceProfiler::new();
    assert!(!profiler.enabled);
}

#[test]
fn test_profiler_enable_disable() {
    let mut profiler = PerformanceProfiler::new();
    assert!(!profiler.enabled);
    profiler.enable();
    assert!(profiler.enabled);
    profiler.disable();
    assert!(!profiler.enabled);
}

#[test]
fn test_profiler_reset() {
    let mut profiler = PerformanceProfiler::new();
    profiler.enable();
    profiler.record_evaluation(1000);
    assert_eq!(profiler.sample_count(), 1);
    profiler.reset();
    assert_eq!(profiler.sample_count(), 0);
}

#[test]
fn test_max_samples_limit() {
    let mut profiler = PerformanceProfiler::new();
    profiler.enable();
    for i in 0..11000 {
        profiler.record_evaluation(i);
    }
    assert_eq!(profiler.sample_count(), MAX_SAMPLES);
    assert_eq!(MAX_SAMPLES, 10000);
}

#[test]
fn profiler_ignores_samples_while_disabled() {
    let mut profiler = PerformanceProfiler::new();
    profiler.record_evaluation(5);
    profiler.record_phase_calculation(5);
    assert_eq!(profiler.sample_count(), 0);
    profiler.enable();
    profiler.record_phase_calculation(200);
    profiler.record_pst_lookup(300);
    profiler.record_interpolation(100);
    assert_eq!(profiler.phase_calc_times, vec![200]);
    assert_eq!(profiler.pst_lookup_times, vec![300]);
    assert_eq!(profiler.interpolation_times, vec![100]);
}

#[test]
fn statistics_records() {
    let mut s = ScoreStatistics::new();
    s.record(150);
    s.record(-12000);
    s.record(9999);
    assert_eq!(s.sum, 150 - 12000 + 9999);
    assert_eq!((s.min, s.max, s.count), (-12000, 9999, 3));
    assert_eq!(s.distribution, vec![1, 0, 0, 0, 0, 1, 0, 0, 0, 1]);
    let mut p = PhaseStatistics::default();
    p.record(200);
    p.record(100);
    p.record(10);
    assert_eq!((p.opening_count, p.middlegame_count, p.endgame_count, p.sum), (1, 1, 1, 310));
    let mut m = PerformanceMetrics::default();
    m.record_timing(50);
    m.record_timing(20);
    m.record_timing(70);
    assert_eq!((m.total_time_ns, m.timing_count, m.min_time_ns, m.max_time_ns), (140, 3, 20, 70));
}
