//! A profiler that keeps bounded samples of evaluation timings.

use vstd::prelude::*;

verus! {

/// Timing samples (nanoseconds) of evaluation stages, recorded while enabled.
#[derive(Clone, Debug)]
pub struct PerformanceProfiler {
    pub enabled: bool,
    pub evaluation_times: Vec<u64>,
    pub phase_calc_times: Vec<u64>,
    pub pst_lookup_times: Vec<u64>,
    pub interpolation_times: Vec<u64>,
}

/// Maximum number of samples that recording keeps per stage.
pub const MAX_SAMPLES: usize = 10000;

/// The samples after recording `nanos` into `v`: appended when the profiler is enabled
/// and fewer than `MAX_SAMPLES` samples are kept, else unchanged.
pub open spec fn recorded(v: Seq<u64>, enabled: bool, nanos: u64) -> Seq<u64> {
    if enabled && v.len() < MAX_SAMPLES {
        v.push(nanos)
    } else {
        v
    }
}

impl PerformanceProfiler {
    /// A disabled profiler with no samples.
    pub fn new() -> (r: Self)
        ensures
            !r.enabled,
            r.evaluation_times@.len() == 0,
            r.phase_calc_times@.len() == 0,
            r.pst_lookup_times@.len() == 0,
            r.interpolation_times@.len() == 0,
    {
        PerformanceProfiler {
            enabled: false,
            evaluation_times: Vec::new(),
            phase_calc_times: Vec::new(),
            pst_lookup_times: Vec::new(),
            interpolation_times: Vec::new(),
        }
    }

    pub fn enable(&mut self)
        ensures
            *final(self) == (PerformanceProfiler { enabled: true, ..*old(self) }),
    {
        self.enabled = true;
    }

    pub fn disable(&mut self)
        ensures
            *final(self) == (PerformanceProfiler { enabled: false, ..*old(self) }),
    {
        self.enabled = false;
    }

    /// Record an evaluation time.
    pub fn record_evaluation(&mut self, nanos: u64)
        ensures
            final(self).evaluation_times@ == recorded(old(self).evaluation_times@, old(self).enabled, nanos),
            final(self).phase_calc_times@ == old(self).phase_calc_times@,
            final(self).pst_lookup_times@ == old(self).pst_lookup_times@,
            final(self).interpolation_times@ == old(self).interpolation_times@,
            final(self).enabled == old(self).enabled,
    {
        if self.enabled && self.evaluation_times.len() < MAX_SAMPLES {
            self.evaluation_times.push(nanos);
        }
    }

    /// Record a phase-calculation time.
    pub fn record_phase_calculation(&mut self, nanos: u64)
        ensures
            final(self).phase_calc_times@ == recorded(old(self).phase_calc_times@, old(self).enabled, nanos),
            final(self).evaluation_times@ == old(self).evaluation_times@,
            final(self).pst_lookup_times@ == old(self).pst_lookup_times@,
            final(self).interpolation_times@ == old(self).interpolation_times@,
            final(self).enabled == old(self).enabled,
    {
        if self.enabled && self.phase_calc_times.len() < MAX_SAMPLES {
            self.phase_calc_times.push(nanos);
        }
    }

    /// Record a piece-square-table lookup time.
    pub fn record_pst_lookup(&mut self, nanos: u64)
        ensures
            final(self).pst_lookup_times@ == recorded(old(self).pst_lookup_times@, old(self).enabled, nanos),
            final(self).evaluation_times@ == old(self).evaluation_times@,
            final(self).phase_calc_times@ == old(self).phase_calc_times@,
            final(self).interpolation_times@ == old(self).interpolation_times@,
            final(self).enabled == old(self).enabled,
    {
        if self.enabled && self.pst_lookup_times.len() < MAX_SAMPLES {
            self.pst_lookup_times.push(nanos);
        }
    }

    /// Record an interpolation time.
    pub fn record_interpolation(&mut self, nanos: u64)
        ensures
            final(self).interpolation_times@ == recorded(old(self).interpolation_times@, old(self).enabled, nanos),
            final(self).evaluation_times@ == old(self).evaluation_times@,
            final(self).phase_calc_times@ == old(self).phase_calc_times@,
            final(self).pst_lookup_times@ == old(self).pst_lookup_times@,
            final(self).enabled == old(self).enabled,
    {
        if self.enabled && self.interpolation_times.len() < MAX_SAMPLES {
            self.interpolation_times.push(nanos);
        }
    }

    /// Drop all samples.
    pub fn reset(&mut self)
        ensures
            final(self).evaluation_times@.len() == 0,
            final(self).phase_calc_times@.len() == 0,
            final(self).pst_lookup_times@.len() == 0,
            final(self).interpolation_times@.len() == 0,
            final(self).enabled == old(self).enabled,
    {
        self.evaluation_times.clear();
        self.phase_calc_times.clear();
        self.pst_lookup_times.clear();
        self.interpolation_times.clear();
    }

    /// Number of evaluation samples.
    pub fn sample_count(&self) -> (r: usize)
        ensures
            r == self.evaluation_times@.len(),
    {
        self.evaluation_times.len()
    }
}

/// Samples never exceed the limit: if a stage holds at most `MAX_SAMPLES` samples, it
/// still does after any recording.
pub proof fn law_samples_bounded(v: Seq<u64>, enabled: bool, nanos: u64)
    requires
        v.len() <= MAX_SAMPLES,
    ensures
        recorded(v, enabled, nanos).len() <= MAX_SAMPLES,
{
}

} // verus!
