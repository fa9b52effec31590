//! Running statistics of evaluation scores, phases and timings.

use vstd::prelude::*;

verus! {

/// The distribution bucket of a score: 2000-wide buckets from -10000, clamped to 0..=9.
pub open spec fn score_bucket(score: int) -> int {
    let b = crate::types::div_trunc(score + 10000, 2000);
    if b < 0 {
        0
    } else if b > 9 {
        9
    } else {
        b
    }
}

/// Sum, extremes, count and bucketed distribution of scores.
#[derive(Clone, Debug)]
pub struct ScoreStatistics {
    pub sum: i64,
    pub min: i32,
    pub max: i32,
    pub count: u64,
    /// Counts per 2000-point bucket from -10000 to +10000.
    pub distribution: Vec<u64>,
}

impl ScoreStatistics {
    /// No scores recorded.
    pub fn new() -> (r: Self)
        ensures
            r.sum == 0,
            r.count == 0,
            r.distribution@ == Seq::new(10, |i: int| 0u64),
    {
        let mut distribution: Vec<u64> = Vec::new();
        let mut i: usize = 0;
        while i < 10
            invariant
                i <= 10,
                distribution@ == Seq::new(i as nat, |j: int| 0u64),
            decreases 10 - i,
        {
            distribution.push(0);
            i = i + 1;
        }
        ScoreStatistics { sum: 0, min: 0, max: 0, count: 0, distribution }
    }

    /// Record one score.
    pub fn record(&mut self, score: i32)
        requires
            old(self).distribution@.len() == 10,
            i64::MIN <= old(self).sum + score <= i64::MAX,
            old(self).count < u64::MAX,
            forall|i: int| 0 <= i < 10 ==> old(self).distribution@[i] < u64::MAX,
        ensures
            final(self).sum == old(self).sum + score,
            final(self).min == (if old(self).count == 0 || score < old(self).min { score } else { old(self).min }),
            final(self).max == (if old(self).count == 0 || score > old(self).max { score } else { old(self).max }),
            final(self).count == old(self).count + 1,
            final(self).distribution@ == old(self).distribution@.update(
                score_bucket(score as int),
                (old(self).distribution@[score_bucket(score as int)] + 1) as u64,
            ),
    {
        self.sum = self.sum + score as i64;
        self.min = if self.count == 0 || score < self.min { score } else { self.min };
        self.max = if self.count == 0 || score > self.max { score } else { self.max };
        self.count = self.count + 1;
        let shifted: i64 = score as i64 + 10000;
        let q: i64 = if shifted >= 0 { shifted / 2000 } else { -((-shifted) / 2000) };
        let bucket: usize = if q < 0 { 0 } else if q > 9 { 9 } else { q as usize };
        let old_count = self.distribution[bucket];
        self.distribution.set(bucket, old_count + 1);
    }
}

impl Default for ScoreStatistics {
    fn default() -> (r: Self)
        ensures
            r.sum == 0,
            r.count == 0,
            r.distribution@ == Seq::new(10, |i: int| 0u64),
    {
        Self::new()
    }
}

/// Sum and opening/middlegame/endgame counts of recorded phases.
#[derive(Clone, Debug, Default)]
pub struct PhaseStatistics {
    pub sum: i64,
    /// Phases of 192 and above.
    pub opening_count: u64,
    /// Phases from 64 to 191.
    pub middlegame_count: u64,
    /// Phases below 64.
    pub endgame_count: u64,
    /// Counts per 10-unit phase bucket.
    pub distribution: Vec<u64>,
}

impl PhaseStatistics {
    /// Record one phase.
    pub fn record(&mut self, phase: i32)
        requires
            i64::MIN <= old(self).sum + phase <= i64::MAX,
            old(self).opening_count < u64::MAX,
            old(self).middlegame_count < u64::MAX,
            old(self).endgame_count < u64::MAX,
        ensures
            final(self).sum == old(self).sum + phase,
            final(self).opening_count == old(self).opening_count + (if phase >= 192 { 1int } else { 0 }),
            final(self).middlegame_count == old(self).middlegame_count + (if 64 <= phase < 192 { 1int } else { 0 }),
            final(self).endgame_count == old(self).endgame_count + (if phase < 64 { 1int } else { 0 }),
            final(self).distribution@ == old(self).distribution@,
    {
        self.sum = self.sum + phase as i64;
        if phase >= 192 {
            self.opening_count = self.opening_count + 1;
        } else if phase >= 64 {
            self.middlegame_count = self.middlegame_count + 1;
        } else {
            self.endgame_count = self.endgame_count + 1;
        }
    }
}

/// Total, count and extremes of timing measurements (nanoseconds).
#[derive(Clone, Copy, Debug, Default, PartialEq, Eq, Structural)]
pub struct PerformanceMetrics {
    pub total_time_ns: u64,
    pub timing_count: u64,
    pub min_time_ns: u64,
    pub max_time_ns: u64,
}

impl PerformanceMetrics {
    /// Record one timing.
    pub fn record_timing(&mut self, duration_ns: u64)
        requires
            old(self).total_time_ns + duration_ns <= u64::MAX,
            old(self).timing_count < u64::MAX,
        ensures
            final(self).total_time_ns == old(self).total_time_ns + duration_ns,
            final(self).timing_count == old(self).timing_count + 1,
            old(self).timing_count == 0 ==> final(self).min_time_ns == duration_ns && final(self).max_time_ns == duration_ns,
            old(self).timing_count > 0 ==> final(self).min_time_ns == (if duration_ns < old(self).min_time_ns { duration_ns } else { old(self).min_time_ns })
                && final(self).max_time_ns == (if duration_ns > old(self).max_time_ns { duration_ns } else { old(self).max_time_ns }),
    {
        self.total_time_ns = self.total_time_ns + duration_ns;
        self.timing_count = self.timing_count + 1;
        if self.timing_count == 1 {
            self.min_time_ns = duration_ns;
            self.max_time_ns = duration_ns;
        } else {
            if duration_ns < self.min_time_ns {
                self.min_time_ns = duration_ns;
            }
            if duration_ns > self.max_time_ns {
                self.max_time_ns = duration_ns;
            }
        }
    }
}

} // verus!
