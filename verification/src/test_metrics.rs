//! Benchmark metrics: multi-sample timing with percentile statistics,
//! operation counting by category, custom metric recording, memory
//! tracking, and error/warning counting, with a text summary.
//!
//! This is the single-owner flavour of the statistical accumulator; the
//! timing statistics are an exact function of the recorded samples.

use crate::clock;
use crate::fixed::{milli_to_string_4, spec_milli_4, MilliValue};
use crate::hires_timing::sat64;
use crate::kv::{
    distinct_keys, find_key, has_key, lemma_key_index_at, lemma_key_index_bounds,
    lemma_key_index_push, lemma_key_index_same_keys, spec_get, spec_key_index,
};
use crate::stats::{isqrt_u128, max_of, min_of, sort_u64_vec, sorted_of, spec_isqrt, sum_of};
use crate::telemetry::sat128;
use crate::text::{spec_dec, spec_us_2dec, u64_string, u64_us_2dec};
use vstd::prelude::*;
use vstd::string::*;

verus! {

/// Sum of squared deviations from `mean`.
pub open spec fn sq_dev_sum(s: Seq<u64>, mean: u64) -> nat
    decreases s.len(),
{
    if s.len() == 0 {
        0
    } else {
        let d = if s.last() >= mean {
            (s.last() - mean) as nat
        } else {
            (mean - s.last()) as nat
        };
        sq_dev_sum(s.drop_last(), mean) + d * d
    }
}

/// A count clamped to the machine-word range.
pub open spec fn sat_usize(n: nat) -> nat {
    if n > usize::MAX {
        usize::MAX as nat
    } else {
        n
    }
}

/// Maximum of a sequence of byte counts; zero when empty.
pub open spec fn mem_max(s: Seq<usize>) -> nat
    decreases s.len(),
{
    if s.len() == 0 {
        0
    } else if s.last() as nat > mem_max(s.drop_last()) {
        s.last() as nat
    } else {
        mem_max(s.drop_last())
    }
}

/// Sum of a sequence of byte counts.
pub open spec fn mem_sum(s: Seq<usize>) -> nat
    decreases s.len(),
{
    if s.len() == 0 {
        0
    } else {
        mem_sum(s.drop_last()) + s.last() as nat
    }
}

/// Timing statistics over a set of samples.
#[derive(Clone, Copy, Debug, Default, PartialEq, Eq, Structural)]
pub struct TimingStats {
    /// Number of samples.
    pub count: usize,
    /// Minimum sample (nanoseconds).
    pub min_ns: u64,
    /// Maximum sample (nanoseconds).
    pub max_ns: u64,
    /// Floored mean (nanoseconds).
    pub mean_ns: u64,
    /// Floored standard deviation (nanoseconds).
    pub std_dev_ns: u64,
    /// Median sample.
    pub p50_ns: u64,
    /// 95th-percentile sample.
    pub p95_ns: u64,
    /// 99th-percentile sample.
    pub p99_ns: u64,
    /// Total of all samples, saturating.
    pub total_ns: u64,
}

/// The statistics a sample sequence yields: count, extrema, floored mean,
/// the floored root of the mean squared deviation, and order statistics
/// of the sorted arrangement.  An empty sequence yields all zeros.
pub open spec fn spec_timing_stats(s: Seq<u64>) -> TimingStats {
    if s.len() == 0 {
        TimingStats {
            count: 0usize,
            min_ns: 0u64,
            max_ns: 0u64,
            mean_ns: 0u64,
            std_dev_ns: 0u64,
            p50_ns: 0u64,
            p95_ns: 0u64,
            p99_ns: 0u64,
            total_ns: 0u64,
        }
    } else {
        let n = s.len();
        let sorted = sorted_of(s);
        let total = sat64(sum_of(s));
        let mean = total / n;
        let var = sat128(sq_dev_sum(s, mean as u64)) / n;
        TimingStats {
            count: n as usize,
            min_ns: min_of(s) as u64,
            max_ns: max_of(s) as u64,
            mean_ns: mean as u64,
            std_dev_ns: spec_isqrt(var) as u64,
            p50_ns: sorted[(n / 2) as int],
            p95_ns: sorted[(n * 95 / 100) as int],
            p99_ns: sorted[
                if n * 99 / 100 > n - 1 {
                    (n - 1) as int
                } else {
                    (n * 99 / 100) as int
                }
            ],
            total_ns: total as u64,
        }
    }
}

/// The category counters joined as `name=value` pairs, first `i` entries.
pub open spec fn counts_prefix(s: Seq<(String, u64)>, i: int) -> Seq<char>
    decreases i,
{
    if i <= 0 {
        Seq::empty()
    } else {
        counts_prefix(s, i - 1) + (if i - 1 > 0 {
            ", "@
        } else {
            Seq::<char>::empty()
        }) + s[i - 1].0@ + "="@ + spec_dec(s[i - 1].1 as nat)
    }
}

/// The custom metrics joined as `name=value` pairs, first `i` entries.
pub open spec fn metrics_prefix(s: Seq<(String, MilliValue)>, i: int) -> Seq<char>
    decreases i,
{
    if i <= 0 {
        Seq::empty()
    } else {
        metrics_prefix(s, i - 1) + (if i - 1 > 0 {
            ", "@
        } else {
            Seq::<char>::empty()
        }) + s[i - 1].0@ + "="@ + spec_milli_4(s[i - 1].1.thousandths as int)
    }
}

/// Granular performance metrics for one named operation under test.
pub struct TestMetrics {
    /// Operation name for reporting.
    pub name: String,
    /// Individual timing samples (nanoseconds).
    pub timings_ns: Vec<u64>,
    /// Start reading of the measurement under way, if one is.
    pub start: Option<std::time::Instant>,
    /// Operation counts by category.
    pub op_counts: Vec<(String, u64)>,
    /// Custom numeric metrics.
    pub custom_metrics: Vec<(String, MilliValue)>,
    /// Memory snapshots (bytes).
    pub memory_samples: Vec<usize>,
    /// Errors observed.
    pub error_count: u64,
    /// Warnings observed.
    pub warning_count: u64,
}

impl TestMetrics {
    /// A measurement is under way.
    pub open spec fn timing_started(self) -> bool {
        self.start is Some
    }

    /// Keys are unique in both named registries.
    pub open spec fn wf(self) -> bool {
        &&& distinct_keys(self.op_counts@)
        &&& distinct_keys(self.custom_metrics@)
    }

    /// Fresh collector for the named operation.
    pub fn new(name: &str) -> (r: Self)
        ensures
            r.wf(),
            r.name@ == name@,
            r.timings_ns@.len() == 0,
            !r.timing_started(),
            r.op_counts@.len() == 0,
            r.custom_metrics@.len() == 0,
            r.memory_samples@.len() == 0,
            r.error_count == 0,
            r.warning_count == 0,
    {
        TestMetrics {
            name: name.to_owned(),
            timings_ns: Vec::new(),
            start: None,
            op_counts: Vec::new(),
            custom_metrics: Vec::new(),
            memory_samples: Vec::new(),
            error_count: 0,
            warning_count: 0,
        }
    }

    /// Begin a timing measurement.
    pub fn start_timing(&mut self)
        ensures
            final(self).timing_started(),
            final(self).name == old(self).name,
            final(self).timings_ns == old(self).timings_ns,
            final(self).op_counts == old(self).op_counts,
            final(self).custom_metrics == old(self).custom_metrics,
            final(self).memory_samples == old(self).memory_samples,
            final(self).error_count == old(self).error_count,
            final(self).warning_count == old(self).warning_count,
    {
        self.start = Some(clock::instant_now());
    }

    /// End the measurement under way, recording one sample; without one
    /// under way nothing happens.
    pub fn stop_timing(&mut self)
        ensures
            !final(self).timing_started(),
            old(self).timing_started() ==> final(self).timings_ns@.len() == old(
                self,
            ).timings_ns@.len() + 1 && final(self).timings_ns@.drop_last() == old(
                self,
            ).timings_ns@,
            !old(self).timing_started() ==> final(self).timings_ns == old(self).timings_ns,
            final(self).name == old(self).name,
            final(self).op_counts == old(self).op_counts,
            final(self).custom_metrics == old(self).custom_metrics,
            final(self).memory_samples == old(self).memory_samples,
            final(self).error_count == old(self).error_count,
            final(self).warning_count == old(self).warning_count,
    {
        let started = self.start.is_some();
        if started {
            let ghost t_old = self.timings_ns@;
            let origin = match &self.start {
                Some(o) => clock::nanos_since(o),
                None => 0,
            };
            self.timings_ns.push(origin);
            self.start = None;
            proof {
                assert(self.timings_ns@.drop_last() =~= t_old);
            }
        } else {
            self.start = None;
        }
    }

    /// Run a closure, recording how long it took as one sample.
    pub fn time_operation<R, F: FnOnce() -> R>(&mut self, f: F) -> (r: R)
        requires
            call_requires(f, ()),
        ensures
            call_ensures(f, (), r),
            final(self).timings_ns@.len() == old(self).timings_ns@.len() + 1,
            !final(self).timing_started(),
            final(self).name == old(self).name,
            final(self).op_counts == old(self).op_counts,
            final(self).custom_metrics == old(self).custom_metrics,
            final(self).memory_samples == old(self).memory_samples,
            final(self).error_count == old(self).error_count,
            final(self).warning_count == old(self).warning_count,
    {
        self.start_timing();
        let result = f();
        self.stop_timing();
        result
    }

    /// Count one operation in the given category.
    pub fn inc_op(&mut self, category: &str)
        requires
            old(self).wf(),
        ensures
            final(self).wf(),
            has_key(final(self).op_counts@, category@),
            spec_get(final(self).op_counts@, category@) == Some(
                (if has_key(old(self).op_counts@, category@) {
                    spec_get(old(self).op_counts@, category@)->0
                } else {
                    0u64
                }).saturating_add(1),
            ),
            forall|k: Seq<char>|
                k != category@ ==> #[trigger] spec_get(final(self).op_counts@, k) == spec_get(
                    old(self).op_counts@,
                    k,
                ),
            final(self).name == old(self).name,
            final(self).timings_ns == old(self).timings_ns,
            final(self).custom_metrics == old(self).custom_metrics,
            final(self).memory_samples == old(self).memory_samples,
            final(self).error_count == old(self).error_count,
            final(self).warning_count == old(self).warning_count,
    {
        self.add_op_count(category, 1);
    }

    /// Count `count` operations in the general category.
    pub fn record_operation(&mut self, count: u64)
        requires
            old(self).wf(),
        ensures
            final(self).wf(),
            has_key(final(self).op_counts@, "operations"@),
            spec_get(final(self).op_counts@, "operations"@) == Some(
                (if has_key(old(self).op_counts@, "operations"@) {
                    spec_get(old(self).op_counts@, "operations"@)->0
                } else {
                    0u64
                }).saturating_add(count),
            ),
            forall|k: Seq<char>|
                k != "operations"@ ==> #[trigger] spec_get(final(self).op_counts@, k) == spec_get(
                    old(self).op_counts@,
                    k,
                ),
            final(self).name == old(self).name,
            final(self).timings_ns == old(self).timings_ns,
            final(self).custom_metrics == old(self).custom_metrics,
            final(self).memory_samples == old(self).memory_samples,
            final(self).error_count == old(self).error_count,
            final(self).warning_count == old(self).warning_count,
    {
        self.add_op_count("operations", count);
    }

    /// Add to a category counter, creating it at zero on first use.
    fn add_op_count(&mut self, category: &str, count: u64)
        requires
            old(self).wf(),
        ensures
            final(self).wf(),
            has_key(final(self).op_counts@, category@),
            spec_get(final(self).op_counts@, category@) == Some(
                (if has_key(old(self).op_counts@, category@) {
                    spec_get(old(self).op_counts@, category@)->0
                } else {
                    0u64
                }).saturating_add(count),
            ),
            forall|k: Seq<char>|
                k != category@ ==> #[trigger] spec_get(final(self).op_counts@, k) == spec_get(
                    old(self).op_counts@,
                    k,
                ),
            final(self).name == old(self).name,
            final(self).timings_ns == old(self).timings_ns,
            final(self).custom_metrics == old(self).custom_metrics,
            final(self).memory_samples == old(self).memory_samples,
            final(self).error_count == old(self).error_count,
            final(self).warning_count == old(self).warning_count,
    {
        let k = category.to_owned();
        let ghost s_old = self.op_counts@;
        match find_key(&self.op_counts, &k) {
            Some(i) => {
                proof {
                    lemma_key_index_bounds(s_old, k@);
                }
                let cur = self.op_counts[i].1;
                self.op_counts[i] = (k, cur.saturating_add(count));
                proof {
                    let s_new = self.op_counts@;
                    assert(forall|j: int|
                        0 <= j < s_old.len() ==> (#[trigger] s_new[j]).0@ == (
                        #[trigger] s_old[j]).0@);
                    assert forall|kk: Seq<char>| true implies #[trigger] spec_key_index(
                        s_new,
                        kk,
                    ) == spec_key_index(s_old, kk) by {
                        lemma_key_index_same_keys(s_old, s_new, kk);
                    }
                    assert(distinct_keys(s_new));
                    assert forall|kk: Seq<char>| kk != category@ implies #[trigger] spec_get(
                        s_new,
                        kk,
                    ) == spec_get(s_old, kk) by {
                        if spec_key_index(s_old, kk) is Some {
                            let j = spec_key_index(s_old, kk)->0;
                            lemma_key_index_bounds(s_old, kk);
                            assert(s_new[j] == s_old[j]);
                        }
                    }
                }
            },
            None => {
                self.op_counts.push((k, count));
                proof {
                    let s_new = self.op_counts@;
                    let e = s_new.last();
                    assert(s_new =~= s_old.push(e));
                    lemma_key_index_push(s_old, category@, e);
                    assert(e.1 == 0u64.saturating_add(count));
                    assert forall|kk: Seq<char>| kk != category@ implies #[trigger] spec_get(
                        s_new,
                        kk,
                    ) == spec_get(s_old, kk) by {
                        lemma_key_index_push(s_old, kk, e);
                        if spec_key_index(s_old, kk) is Some {
                            lemma_key_index_bounds(s_old, kk);
                        }
                    }
                    assert forall|a: int, b: int|
                        0 <= a < b < s_new.len() implies (#[trigger] s_new[a]).0@ != (
                        #[trigger] s_new[b]).0@ by {
                        if b == s_new.len() - 1 {
                            if s_new[a].0@ == category@ {
                                lemma_key_index_at(s_old, category@, a);
                            }
                        }
                    }
                }
            },
        }
    }

    /// Record a custom metric; a name written twice keeps the last value.
    pub fn record_metric(&mut self, name: &str, value: MilliValue)
        requires
            old(self).wf(),
        ensures
            final(self).wf(),
            has_key(final(self).custom_metrics@, name@),
            spec_get(final(self).custom_metrics@, name@) == Some(value),
            forall|k: Seq<char>|
                k != name@ ==> #[trigger] spec_get(final(self).custom_metrics@, k) == spec_get(
                    old(self).custom_metrics@,
                    k,
                ),
            final(self).name == old(self).name,
            final(self).timings_ns == old(self).timings_ns,
            final(self).op_counts == old(self).op_counts,
            final(self).memory_samples == old(self).memory_samples,
            final(self).error_count == old(self).error_count,
            final(self).warning_count == old(self).warning_count,
    {
        let k = name.to_owned();
        let ghost s_old = self.custom_metrics@;
        match find_key(&self.custom_metrics, &k) {
            Some(i) => {
                proof {
                    lemma_key_index_bounds(s_old, k@);
                }
                self.custom_metrics[i] = (k, value);
                proof {
                    let s_new = self.custom_metrics@;
                    assert(forall|j: int|
                        0 <= j < s_old.len() ==> (#[trigger] s_new[j]).0@ == (
                        #[trigger] s_old[j]).0@);
                    assert forall|kk: Seq<char>| true implies #[trigger] spec_key_index(
                        s_new,
                        kk,
                    ) == spec_key_index(s_old, kk) by {
                        lemma_key_index_same_keys(s_old, s_new, kk);
                    }
                    assert(distinct_keys(s_new));
                    assert forall|kk: Seq<char>| kk != name@ implies #[trigger] spec_get(
                        s_new,
                        kk,
                    ) == spec_get(s_old, kk) by {
                        if spec_key_index(s_old, kk) is Some {
                            let j = spec_key_index(s_old, kk)->0;
                            lemma_key_index_bounds(s_old, kk);
                            assert(s_new[j] == s_old[j]);
                        }
                    }
                }
            },
            None => {
                self.custom_metrics.push((k, value));
                proof {
                    let s_new = self.custom_metrics@;
                    let e = s_new.last();
                    assert(s_new =~= s_old.push(e));
                    lemma_key_index_push(s_old, name@, e);
                    assert forall|kk: Seq<char>| kk != name@ implies #[trigger] spec_get(
                        s_new,
                        kk,
                    ) == spec_get(s_old, kk) by {
                        lemma_key_index_push(s_old, kk, e);
                        if spec_key_index(s_old, kk) is Some {
                            lemma_key_index_bounds(s_old, kk);
                        }
                    }
                    assert forall|a: int, b: int|
                        0 <= a < b < s_new.len() implies (#[trigger] s_new[a]).0@ != (
                        #[trigger] s_new[b]).0@ by {
                        if b == s_new.len() - 1 {
                            if s_new[a].0@ == name@ {
                                lemma_key_index_at(s_old, name@, a);
                            }
                        }
                    }
                }
            },
        }
    }

    /// Record one memory usage reading in bytes.
    pub fn record_memory(&mut self, bytes: usize)
        ensures
            final(self).memory_samples@ == old(self).memory_samples@.push(bytes),
            final(self).name == old(self).name,
            final(self).timings_ns == old(self).timings_ns,
            final(self).op_counts == old(self).op_counts,
            final(self).custom_metrics == old(self).custom_metrics,
            final(self).error_count == old(self).error_count,
            final(self).warning_count == old(self).warning_count,
    {
        self.memory_samples.push(bytes);
    }

    /// Record one error.
    pub fn record_error(&mut self)
        ensures
            final(self).error_count == old(self).error_count.saturating_add(1),
            final(self).name == old(self).name,
            final(self).timings_ns == old(self).timings_ns,
            final(self).op_counts == old(self).op_counts,
            final(self).custom_metrics == old(self).custom_metrics,
            final(self).memory_samples == old(self).memory_samples,
            final(self).warning_count == old(self).warning_count,
    {
        self.error_count = self.error_count.saturating_add(1);
    }

    /// Record one warning.
    pub fn record_warning(&mut self)
        ensures
            final(self).warning_count == old(self).warning_count.saturating_add(1),
            final(self).name == old(self).name,
            final(self).timings_ns == old(self).timings_ns,
            final(self).op_counts == old(self).op_counts,
            final(self).custom_metrics == old(self).custom_metrics,
            final(self).memory_samples == old(self).memory_samples,
            final(self).error_count == old(self).error_count,
    {
        self.warning_count = self.warning_count.saturating_add(1);
    }

    /// The timing statistics of the recorded samples.
    pub fn timing_stats(&self) -> (r: TimingStats)
        ensures
            r == spec_timing_stats(self.timings_ns@),
    {
        let ghost s = self.timings_ns@;
        let n = self.timings_ns.len();
        if n == 0 {
            return TimingStats {
                count: 0,
                min_ns: 0,
                max_ns: 0,
                mean_ns: 0,
                std_dev_ns: 0,
                p50_ns: 0,
                p95_ns: 0,
                p99_ns: 0,
                total_ns: 0,
            };
        }
        // One pass for the extrema and the saturating total.
        let mut min_v: u64 = u64::MAX;
        let mut max_v: u64 = 0;
        let mut total: u64 = 0;
        let mut i: usize = 0;
        proof {
            assert(s.subrange(0, 0) =~= Seq::<u64>::empty());
        }
        while i < n
            invariant
                0 <= i <= n,
                n == s.len(),
                s == self.timings_ns@,
                min_v as nat == min_of(s.subrange(0, i as int)),
                max_v as nat == max_of(s.subrange(0, i as int)),
                total as nat == sat64(sum_of(s.subrange(0, i as int))),
            decreases n - i,
        {
            let v = self.timings_ns[i];
            proof {
                assert(s.subrange(0, (i + 1) as int).drop_last() =~= s.subrange(0, i as int));
                assert(s.subrange(0, (i + 1) as int).last() == s[i as int]);
            }
            if v < min_v {
                min_v = v;
            }
            if v > max_v {
                max_v = v;
            }
            total = total.saturating_add(v);
            i = i + 1;
        }
        proof {
            assert(s.subrange(0, n as int) =~= s);
        }
        let count64: u64 = if n as u64 > 0 {
            n as u64
        } else {
            1
        };
        let mean: u64 = total / count64;
        // Second pass for the squared deviations.
        let mut dev: u128 = 0;
        let mut j: usize = 0;
        while j < n
            invariant
                0 <= j <= n,
                n == s.len(),
                s == self.timings_ns@,
                dev as nat == sat128(sq_dev_sum(s.subrange(0, j as int), mean)),
            decreases n - j,
        {
            let v = self.timings_ns[j];
            proof {
                assert(s.subrange(0, (j + 1) as int).drop_last() =~= s.subrange(0, j as int));
                assert(s.subrange(0, (j + 1) as int).last() == s[j as int]);
            }
            let d: u64 = if v >= mean {
                v - mean
            } else {
                mean - v
            };
            proof {
                assert((d as nat) * (d as nat) <= u128::MAX) by (nonlinear_arith)
                    requires
                        d <= u64::MAX,
                ;
            }
            let sq: u128 = (d as u128) * (d as u128);
            dev = if dev > u128::MAX - sq {
                u128::MAX
            } else {
                dev + sq
            };
            j = j + 1;
        }
        proof {
            assert(s.subrange(0, n as int) =~= s);
        }
        let var: u128 = dev / (count64 as u128);
        let std_dev = isqrt_u128(var);
        let sorted = sort_u64_vec(&self.timings_ns);
        proof {
            assert((n as nat) * 95 <= u128::MAX && (n as nat) * 99 <= u128::MAX)
                by (nonlinear_arith)
                requires
                    n <= usize::MAX,
            ;
            assert((n as nat) * 95 / 100 < n as nat) by (nonlinear_arith)
                requires
                    n >= 1,
            ;
            assert((n as nat) * 99 / 100 < usize::MAX as nat) by (nonlinear_arith)
                requires
                    1 <= n <= usize::MAX,
            ;
        }
        let p95_idx: usize = ((n as u128) * 95 / 100) as usize;
        let p99_raw: usize = ((n as u128) * 99 / 100) as usize;
        let p99_idx: usize = if p99_raw > n - 1 {
            n - 1
        } else {
            p99_raw
        };
        proof {
            assert(n / 2 < n);
            assert(p95_idx as nat == (n as nat) * 95 / 100);
            assert(p95_idx < n);
        }
        TimingStats {
            count: n,
            min_ns: min_v,
            max_ns: max_v,
            mean_ns: mean,
            std_dev_ns: std_dev,
            p50_ns: sorted[n / 2],
            p95_ns: sorted[p95_idx],
            p99_ns: sorted[p99_idx],
            total_ns: total,
        }
    }

    /// The text `summary` renders: a header naming the operation, then a
    /// timing section when samples exist, the category counters, the
    /// custom metrics, the memory peak and average, and the issue counts.
    pub open spec fn spec_summary(self) -> Seq<char> {
        self.spec_summary_text(spec_timing_stats(self.timings_ns@))
    }

    /// The summary text, given the timing statistics already computed.
    pub open spec fn spec_summary_text(self, st: TimingStats) -> Seq<char> {
        let header = "=== "@ + self.name@ + " Metrics ===\n"@;
        let timing = if st.count > 0 {
            "Timing: "@ + spec_dec(st.count as nat) + " ops, mean="@ + spec_us_2dec(
                st.mean_ns as nat,
            ) + "µs, p50="@ + spec_us_2dec(st.p50_ns as nat) + "µs, p95="@ + spec_us_2dec(
                st.p95_ns as nat,
            ) + "µs, p99="@ + spec_us_2dec(st.p99_ns as nat) + "µs\n"@ + "        min="@
                + spec_us_2dec(st.min_ns as nat) + "µs, max="@ + spec_us_2dec(st.max_ns as nat)
                + "µs, stddev="@ + spec_us_2dec(st.std_dev_ns as nat) + "µs\n"@
        } else {
            Seq::<char>::empty()
        };
        let ops = if self.op_counts@.len() > 0 {
            "Operations: "@ + counts_prefix(self.op_counts@, self.op_counts@.len() as int)
                + "\n"@
        } else {
            Seq::<char>::empty()
        };
        let mets = if self.custom_metrics@.len() > 0 {
            "Metrics: "@ + metrics_prefix(
                self.custom_metrics@,
                self.custom_metrics@.len() as int,
            ) + "\n"@
        } else {
            Seq::<char>::empty()
        };
        let mem = if self.memory_samples@.len() > 0 {
            "Memory: peak="@ + spec_dec(mem_max(self.memory_samples@) / 1024) + "KB, avg="@
                + spec_dec(
                (sat_usize(mem_sum(self.memory_samples@)) / self.memory_samples@.len()) / 1024,
            ) + "KB\n"@
        } else {
            Seq::<char>::empty()
        };
        let issues = if self.error_count > 0 || self.warning_count > 0 {
            "Issues: errors="@ + spec_dec(self.error_count as nat) + ", warnings="@ + spec_dec(
                self.warning_count as nat,
            ) + "\n"@
        } else {
            Seq::<char>::empty()
        };
        header + timing + ops + mets + mem + issues
    }

    /// Generate the summary report.
    #[verifier::rlimit(100)]
    #[verifier::spinoff_prover]
    pub fn summary(&self) -> (s: String)
        ensures
            s@ == self.spec_summary(),
    {
        let stats = self.timing_stats();
        let mut out = String::from_str("=== ");
        out.append(self.name.as_str());
        out.append(" Metrics ===\n");
        if stats.count > 0 {
            let mut sect = String::from_str("Timing: ");
            let c = u64_string(stats.count as u64);
            sect.append(c.as_str());
            sect.append(" ops, mean=");
            let m = u64_us_2dec(stats.mean_ns);
            sect.append(m.as_str());
            sect.append("µs, p50=");
            let p50 = u64_us_2dec(stats.p50_ns);
            sect.append(p50.as_str());
            sect.append("µs, p95=");
            let p95 = u64_us_2dec(stats.p95_ns);
            sect.append(p95.as_str());
            sect.append("µs, p99=");
            let p99 = u64_us_2dec(stats.p99_ns);
            sect.append(p99.as_str());
            sect.append("µs\n");
            sect.append("        min=");
            let mn = u64_us_2dec(stats.min_ns);
            sect.append(mn.as_str());
            sect.append("µs, max=");
            let mx = u64_us_2dec(stats.max_ns);
            sect.append(mx.as_str());
            sect.append("µs, stddev=");
            let sd = u64_us_2dec(stats.std_dev_ns);
            sect.append(sd.as_str());
            sect.append("µs\n");
            proof {
                assert(sect@ =~= "Timing: "@ + spec_dec(stats.count as nat) + " ops, mean="@
                    + spec_us_2dec(stats.mean_ns as nat) + "µs, p50="@ + spec_us_2dec(
                    stats.p50_ns as nat,
                ) + "µs, p95="@ + spec_us_2dec(stats.p95_ns as nat) + "µs, p99="@
                    + spec_us_2dec(stats.p99_ns as nat) + "µs\n"@ + "        min="@
                    + spec_us_2dec(stats.min_ns as nat) + "µs, max="@ + spec_us_2dec(
                    stats.max_ns as nat,
                ) + "µs, stddev="@ + spec_us_2dec(stats.std_dev_ns as nat) + "µs\n"@);
            }
            out.append(sect.as_str());
        } else {
            proof {
                assert(out@ + Seq::<char>::empty() =~= out@);
            }
        }
        if self.op_counts.len() > 0 {
            let mut joined = String::new();
            let mut i: usize = 0;
            while i < self.op_counts.len()
                invariant
                    0 <= i <= self.op_counts@.len(),
                    joined@ == counts_prefix(self.op_counts@, i as int),
                decreases self.op_counts@.len() - i,
            {
                if i > 0 {
                    joined.append(", ");
                }
                joined.append(self.op_counts[i].0.as_str());
                joined.append("=");
                let v = u64_string(self.op_counts[i].1);
                joined.append(v.as_str());
                i = i + 1;
                proof {
                    assert(joined@ =~= counts_prefix(self.op_counts@, i as int));
                }
            }
            let mut sect = String::from_str("Operations: ");
            sect.append(joined.as_str());
            sect.append("\n");
            out.append(sect.as_str());
        } else {
            proof {
                assert(out@ + Seq::<char>::empty() =~= out@);
            }
        }
        if self.custom_metrics.len() > 0 {
            let mut joined = String::new();
            let mut i: usize = 0;
            while i < self.custom_metrics.len()
                invariant
                    0 <= i <= self.custom_metrics@.len(),
                    joined@ == metrics_prefix(self.custom_metrics@, i as int),
                decreases self.custom_metrics@.len() - i,
            {
                if i > 0 {
                    joined.append(", ");
                }
                joined.append(self.custom_metrics[i].0.as_str());
                joined.append("=");
                let v = milli_to_string_4(self.custom_metrics[i].1);
                joined.append(v.as_str());
                i = i + 1;
                proof {
                    assert(joined@ =~= metrics_prefix(self.custom_metrics@, i as int));
                }
            }
            let mut sect = String::from_str("Metrics: ");
            sect.append(joined.as_str());
            sect.append("\n");
            out.append(sect.as_str());
        } else {
            proof {
                assert(out@ + Seq::<char>::empty() =~= out@);
            }
        }
        if self.memory_samples.len() > 0 {
            let ghost mems = self.memory_samples@;
            let mut peak: usize = 0;
            let mut total: usize = 0;
            let mut i: usize = 0;
            proof {
                assert(mems.subrange(0, 0) =~= Seq::<usize>::empty());
            }
            while i < self.memory_samples.len()
                invariant
                    0 <= i <= mems.len(),
                    mems == self.memory_samples@,
                    peak as nat == mem_max(mems.subrange(0, i as int)),
                    total as nat == sat_usize(mem_sum(mems.subrange(0, i as int))),
                decreases mems.len() - i,
            {
                let v = self.memory_samples[i];
                proof {
                    assert(mems.subrange(0, (i + 1) as int).drop_last() =~= mems.subrange(
                        0,
                        i as int,
                    ));
                    assert(mems.subrange(0, (i + 1) as int).last() == mems[i as int]);
                }
                if v > peak {
                    peak = v;
                }
                total = total.saturating_add(v);
                i = i + 1;
            }
            proof {
                assert(mems.subrange(0, mems.len() as int) =~= mems);
            }
            let avg = total / self.memory_samples.len();
            let mut sect = String::from_str("Memory: peak=");
            let p = u64_string((peak / 1024) as u64);
            sect.append(p.as_str());
            sect.append("KB, avg=");
            let a = u64_string((avg / 1024) as u64);
            sect.append(a.as_str());
            sect.append("KB\n");
            out.append(sect.as_str());
        } else {
            proof {
                assert(out@ + Seq::<char>::empty() =~= out@);
            }
        }
        if self.error_count > 0 || self.warning_count > 0 {
            let mut sect = String::from_str("Issues: errors=");
            let e = u64_string(self.error_count);
            sect.append(e.as_str());
            sect.append(", warnings=");
            let w = u64_string(self.warning_count);
            sect.append(w.as_str());
            sect.append("\n");
            out.append(sect.as_str());
        } else {
            proof {
                assert(out@ + Seq::<char>::empty() =~= out@);
            }
        }
        proof {
            assert(out@ == self.spec_summary_text(stats));
            assert(self.spec_summary_text(stats) == self.spec_summary());
        }
        out
    }

    /// Clear everything; the collector can be reused.
    pub fn reset(&mut self)
        ensures
            final(self).wf(),
            final(self).name == old(self).name,
            final(self).timings_ns@.len() == 0,
            !final(self).timing_started(),
            final(self).op_counts@.len() == 0,
            final(self).custom_metrics@.len() == 0,
            final(self).memory_samples@.len() == 0,
            final(self).error_count == 0,
            final(self).warning_count == 0,
    {
        self.timings_ns.clear();
        self.start = None;
        self.op_counts.clear();
        self.custom_metrics.clear();
        self.memory_samples.clear();
        self.error_count = 0;
        self.warning_count = 0;
    }
}

impl TimingStats {
    /// Total recorded time in nanoseconds.
    pub fn total_duration_ns(&self) -> (r: u64)
        ensures
            r == self.total_ns,
    {
        self.total_ns
    }

    /// Throughput in operations per second, floored.
    pub fn ops_per_sec(&self) -> (r: u64)
        ensures
            r as nat == if self.total_ns == 0 {
                0nat
            } else {
                sat64((self.count as nat) * 1_000_000_000 / (self.total_ns as nat))
            },
    {
        if self.total_ns == 0 {
            return 0;
        }
        proof {
            assert((self.count as nat) * 1_000_000_000 <= u128::MAX) by (nonlinear_arith)
                requires
                    self.count <= usize::MAX,
            ;
        }
        let wide: u128 = (self.count as u128) * 1_000_000_000 / (self.total_ns as u128);
        if wide > u64::MAX as u128 {
            u64::MAX
        } else {
            wide as u64
        }
    }

    /// Average latency in thousandths of a microsecond (one thousandth of
    /// a microsecond is a nanosecond).
    pub fn avg_latency_us(&self) -> (r: MilliValue)
        ensures
            r.thousandths as nat == if self.mean_ns > i64::MAX as u64 {
                i64::MAX as nat
            } else {
                self.mean_ns as nat
            },
    {
        if self.mean_ns > i64::MAX as u64 {
            MilliValue { thousandths: i64::MAX }
        } else {
            MilliValue { thousandths: self.mean_ns as i64 }
        }
    }

    /// Median latency in thousandths of a microsecond.
    pub fn p50_latency_us(&self) -> (r: MilliValue)
        ensures
            r.thousandths as nat == if self.p50_ns > i64::MAX as u64 {
                i64::MAX as nat
            } else {
                self.p50_ns as nat
            },
    {
        if self.p50_ns > i64::MAX as u64 {
            MilliValue { thousandths: i64::MAX }
        } else {
            MilliValue { thousandths: self.p50_ns as i64 }
        }
    }

    /// 95th-percentile latency in thousandths of a microsecond.
    pub fn p95_latency_us(&self) -> (r: MilliValue)
        ensures
            r.thousandths as nat == if self.p95_ns > i64::MAX as u64 {
                i64::MAX as nat
            } else {
                self.p95_ns as nat
            },
    {
        if self.p95_ns > i64::MAX as u64 {
            MilliValue { thousandths: i64::MAX }
        } else {
            MilliValue { thousandths: self.p95_ns as i64 }
        }
    }

    /// 99th-percentile latency in thousandths of a microsecond.
    pub fn p99_latency_us(&self) -> (r: MilliValue)
        ensures
            r.thousandths as nat == if self.p99_ns > i64::MAX as u64 {
                i64::MAX as nat
            } else {
                self.p99_ns as nat
            },
    {
        if self.p99_ns > i64::MAX as u64 {
            MilliValue { thousandths: i64::MAX }
        } else {
            MilliValue { thousandths: self.p99_ns as i64 }
        }
    }
}

} // verus!
