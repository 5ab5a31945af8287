//! Telemetry aggregation: a registry of named statistical accumulators,
//! named counters and named gauges, producing immutable snapshots.
//!
//! The single-owner accumulator keeps a capped buffer of raw samples for
//! percentile extraction; a ghost sequence records every sample ever fed,
//! and well-formedness ties each stored statistic to that sequence.  A
//! disabled aggregator turns every mutating operation into a no-op, checked
//! on each call.

use crate::clock;
use crate::fixed::{milli_to_string_4, spec_milli_4, MilliValue};
use crate::hires_timing::sat64;
use crate::kv::{
    distinct_keys, find_key, has_key, lemma_key_index_at, lemma_key_index_bounds,
    lemma_key_index_push, lemma_key_index_same_keys, spec_get, spec_key_index,
};
use crate::metrics::{zero_metrics_snapshot, Metrics, MetricsSnapshot};
use crate::stats::{
    clone_vec_u64, count_below_u64, count_lt, isqrt_u128, lemma_mean_bounds, max_of, min_of,
    sort_u64_vec, sorted_of, sum_of,
};
use crate::text::{spec_dec, spec_us_2dec, u64_string, u64_us_2dec};
use vstd::prelude::*;
use vstd::string::*;

verus! {

/// A sum clamped to the 128-bit range.
pub open spec fn sat128(n: nat) -> nat {
    if n > u128::MAX {
        u128::MAX as nat
    } else {
        n
    }
}

/// Sum of squared samples (microseconds squared).
pub open spec fn sum_sq_us(s: Seq<u64>) -> nat
    decreases s.len(),
{
    if s.len() == 0 {
        0
    } else {
        sum_sq_us(s.drop_last()) + (s.last() as nat) * (s.last() as nat)
    }
}

/// How many raw samples an accumulator retains for percentile extraction.
pub const SAMPLE_CAP: usize = 10000;

/// Aggregation configuration.
#[derive(Debug, Clone)]
pub struct TelemetryConfig {
    /// Whether collection is enabled; when false, every mutating
    /// operation is a no-op.
    pub enabled: bool,
    /// Sample rate in thousandths (1000 = keep everything).
    pub sample_rate: MilliValue,
    /// Snapshot interval in seconds.
    pub snapshot_interval_secs: u64,
    /// Maximum history to retain.
    pub max_history_entries: usize,
}

impl Default for TelemetryConfig {
    /// Collection on, full sampling, one-minute snapshots.
    fn default() -> (r: Self)
        ensures
            r.enabled == true,
            r.sample_rate.thousandths == 1000,
            r.snapshot_interval_secs == 60,
            r.max_history_entries == 100,
    {
        TelemetryConfig {
            enabled: true,
            sample_rate: MilliValue { thousandths: 1000 },
            snapshot_interval_secs: 60,
            max_history_entries: 100,
        }
    }
}

/// Statistics for one operation name: count, sum, extrema, the last
/// sample, a capped raw-sample buffer, and a sum of squares.
pub struct OperationStats {
    /// Number of samples, saturating.
    pub count: u64,
    /// Sum of all samples (microseconds), saturating.
    pub total_us: u64,
    /// Minimum sample; the largest representable value while empty.
    pub min_us: u64,
    /// Maximum sample; zero while empty.
    pub max_us: u64,
    /// The most recent sample; zero while empty.
    pub last_us: u64,
    /// The first `SAMPLE_CAP` samples, kept for percentile extraction.
    pub histogram: Vec<u64>,
    /// Sum of squared samples, saturating in 128 bits.
    pub sum_sq_us2: u128,
    /// Every sample ever fed, in order.
    pub samples: Ghost<Seq<u64>>,
}

impl OperationStats {
    /// The retained prefix of the sample history.
    pub open spec fn retained(self) -> Seq<u64> {
        self.samples@.take(
            if self.samples@.len() > SAMPLE_CAP as nat {
                SAMPLE_CAP as int
            } else {
                self.samples@.len() as int
            },
        )
    }

    /// Every field is exactly the statistic of the sample history.
    pub open spec fn wf(self) -> bool {
        &&& self.count as nat == sat64(self.samples@.len() as nat)
        &&& self.total_us as nat == sat64(sum_of(self.samples@))
        &&& self.min_us as nat == min_of(self.samples@)
        &&& self.max_us as nat == max_of(self.samples@)
        &&& self.last_us as nat == if self.samples@.len() == 0 {
            0nat
        } else {
            self.samples@.last() as nat
        }
        &&& self.histogram@ == self.retained()
        &&& self.sum_sq_us2 as nat == sat128(sum_sq_us(self.samples@))
    }

    /// Fresh accumulator with identity statistics.
    pub fn new() -> (r: Self)
        ensures
            r.wf(),
            r.samples@ == Seq::<u64>::empty(),
    {
        let r = OperationStats {
            count: 0,
            total_us: 0,
            min_us: u64::MAX,
            max_us: 0,
            last_us: 0,
            histogram: Vec::new(),
            sum_sq_us2: 0,
            samples: Ghost(Seq::empty()),
        };
        proof {
            assert(r.retained() =~= Seq::<u64>::empty());
        }
        r
    }

    /// Record one sample.  Beyond the retention cap further samples are
    /// still counted and summed but not retained.
    pub fn record(&mut self, duration_us: u64)
        requires
            old(self).wf(),
        ensures
            final(self).wf(),
            final(self).samples@ == old(self).samples@.push(duration_us),
    {
        let ghost s_old = self.samples@;
        let ghost s_new = s_old.push(duration_us);
        proof {
            assert(s_new.drop_last() =~= s_old);
            assert(s_new.last() == duration_us);
        }
        self.count = self.count.saturating_add(1);
        self.total_us = self.total_us.saturating_add(duration_us);
        if duration_us < self.min_us {
            self.min_us = duration_us;
        }
        if duration_us > self.max_us {
            self.max_us = duration_us;
        }
        self.last_us = duration_us;
        if self.histogram.len() < SAMPLE_CAP {
            self.histogram.push(duration_us);
        }
        proof {
            assert((duration_us as nat) * (duration_us as nat) <= u128::MAX)
                by (nonlinear_arith)
                requires
                    duration_us <= u64::MAX,
            ;
        }
        let sq: u128 = (duration_us as u128) * (duration_us as u128);
        self.sum_sq_us2 = if self.sum_sq_us2 > u128::MAX - sq {
            u128::MAX
        } else {
            self.sum_sq_us2 + sq
        };
        self.samples = Ghost(s_new);
        proof {
            assert(self.histogram@ =~= self.retained());
        }
    }

    /// Mean in thousandths of a microsecond, zero while empty, clamped to
    /// the representable range.
    pub open spec fn spec_avg_milli(self) -> int {
        if self.count == 0 {
            0
        } else {
            let m = (self.total_us as nat) * 1000 / (self.count as nat);
            if m > i64::MAX {
                i64::MAX as int
            } else {
                m as int
            }
        }
    }

    /// Average duration, in thousandths of a microsecond.
    pub fn avg_us(&self) -> (r: MilliValue)
        ensures
            r.thousandths == self.spec_avg_milli(),
    {
        if self.count == 0 {
            return MilliValue { thousandths: 0 };
        }
        proof {
            assert((self.total_us as nat) * 1000 <= u128::MAX) by (nonlinear_arith)
                requires
                    self.total_us <= u64::MAX,
            ;
        }
        let wide: u128 = (self.total_us as u128) * 1000 / (self.count as u128);
        if wide > i64::MAX as u128 {
            MilliValue { thousandths: i64::MAX }
        } else {
            MilliValue { thousandths: wide as i64 }
        }
    }

    /// Operations per second, estimated from the total recorded time.
    pub fn ops_per_sec(&self) -> (r: u64)
        ensures
            r as nat == if self.total_us == 0 {
                0nat
            } else {
                sat64((self.count as nat) * 1_000_000 / (self.total_us as nat))
            },
    {
        if self.total_us == 0 {
            return 0;
        }
        proof {
            assert((self.count as nat) * 1_000_000 <= u128::MAX) by (nonlinear_arith)
                requires
                    self.count <= u64::MAX,
            ;
        }
        let wide: u128 = (self.count as u128) * 1_000_000 / (self.total_us as u128);
        if wide > u64::MAX as u128 {
            u64::MAX
        } else {
            wide as u64
        }
    }

    /// Sample variance estimate in microseconds squared: E[x^2] minus the
    /// squared mean, clamped at zero; zero below two samples.
    pub open spec fn spec_variance_us2(self) -> nat {
        if self.count < 2 {
            0
        } else {
            let mean = (self.total_us as nat) / (self.count as nat);
            let ex2 = (self.sum_sq_us2 as nat) / (self.count as nat);
            if ex2 > mean * mean {
                (ex2 - mean * mean) as nat
            } else {
                0
            }
        }
    }

    /// Standard deviation in microseconds: the floored square root of the
    /// variance estimate.
    pub fn std_dev_us(&self) -> (r: u64)
        ensures
            (r as nat) * (r as nat) <= self.spec_variance_us2(),
            ((r as nat) + 1) * ((r as nat) + 1) > self.spec_variance_us2(),
    {
        if self.count < 2 {
            let r: u64 = 0;
            proof {
                assert(self.spec_variance_us2() == 0);
                assert(((r as nat) + 1) * ((r as nat) + 1) == 1) by (nonlinear_arith)
                    requires
                        r == 0u64,
                ;
            }
            return r;
        }
        let mean = self.total_us / self.count;
        proof {
            assert((mean as nat) * (mean as nat) <= u128::MAX) by (nonlinear_arith)
                requires
                    mean <= u64::MAX,
            ;
        }
        let m2: u128 = (mean as u128) * (mean as u128);
        let ex2: u128 = self.sum_sq_us2 / (self.count as u128);
        let variance: u128 = if ex2 > m2 {
            ex2 - m2
        } else {
            0
        };
        isqrt_u128(variance)
    }

    /// The nearest-rank index for percentile `p` over `n` samples:
    /// `round(p/100 * (n-1))`, clamped to the sample range.
    pub open spec fn rank_index(p: u64, n: nat) -> int {
        let raw = ((p as nat) * (n - 1) + 50) as int / 100;
        if raw > n - 1 {
            n as int - 1
        } else {
            raw
        }
    }

    /// Nearest-rank percentile over the retained samples: the element of
    /// the sorted buffer at the rank index.  Zero while no sample is
    /// retained; a percentile beyond one hundred reads the maximum.
    pub fn percentile(&self, p: u64) -> (r: u64)
        requires
            self.wf(),
        ensures
            r as nat == if self.retained().len() == 0 {
                0nat
            } else {
                sorted_of(self.retained())[Self::rank_index(p, self.retained().len())] as nat
            },
    {
        let n = self.histogram.len();
        if n == 0 {
            return 0;
        }
        let sorted = sort_u64_vec(&self.histogram);
        proof {
            assert(self.histogram@.len() <= SAMPLE_CAP as nat);
            assert((p as nat) * ((n - 1) as nat) + 50 <= u128::MAX) by (nonlinear_arith)
                requires
                    p <= u64::MAX,
                    1 <= n <= 10001,
            ;
        }
        let raw: u128 = ((p as u128) * ((n - 1) as u128) + 50) / 100;
        let idx: usize = if raw > (n - 1) as u128 {
            n - 1
        } else {
            raw as usize
        };
        proof {
            assert(idx as int == Self::rank_index(p, self.retained().len()));
            assert(idx < n);
        }
        sorted[idx]
    }

    /// Median (the 50th percentile).
    pub fn median_us(&self) -> (r: u64)
        requires
            self.wf(),
        ensures
            r as nat == if self.retained().len() == 0 {
                0nat
            } else {
                sorted_of(self.retained())[Self::rank_index(50, self.retained().len())] as nat
            },
    {
        self.percentile(50)
    }

    /// The 95th percentile.
    pub fn p95_us(&self) -> (r: u64)
        requires
            self.wf(),
        ensures
            r as nat == if self.retained().len() == 0 {
                0nat
            } else {
                sorted_of(self.retained())[Self::rank_index(95, self.retained().len())] as nat
            },
    {
        self.percentile(95)
    }

    /// The 99th percentile.
    pub fn p99_us(&self) -> (r: u64)
        requires
            self.wf(),
        ensures
            r as nat == if self.retained().len() == 0 {
                0nat
            } else {
                sorted_of(self.retained())[Self::rank_index(99, self.retained().len())] as nat
            },
    {
        self.percentile(99)
    }

    /// How many retained samples lie strictly below the threshold; the
    /// cumulative histogram readout.
    pub fn count_below(&self, threshold_us: u64) -> (r: u64)
        requires
            self.wf(),
        ensures
            r as nat == count_lt(self.retained(), threshold_us),
            r <= SAMPLE_CAP as u64,
    {
        proof {
            assert(self.retained().len() <= SAMPLE_CAP as nat);
        }
        count_below_u64(&self.histogram, threshold_us)
    }

    /// Deep copy.
    pub fn duplicate(&self) -> (r: Self)
        ensures
            r.count == self.count,
            r.total_us == self.total_us,
            r.min_us == self.min_us,
            r.max_us == self.max_us,
            r.last_us == self.last_us,
            r.histogram@ == self.histogram@,
            r.sum_sq_us2 == self.sum_sq_us2,
            r.samples@ == self.samples@,
            self.wf() ==> r.wf(),
    {
        OperationStats {
            count: self.count,
            total_us: self.total_us,
            min_us: self.min_us,
            max_us: self.max_us,
            last_us: self.last_us,
            histogram: clone_vec_u64(&self.histogram),
            sum_sq_us2: self.sum_sq_us2,
            samples: Ghost(self.samples@),
        }
    }
}

/// After any sample sequence, the count equals the number of samples
/// while that number is representable, and, while the sum is representable
/// too, the floored mean lies between the minimum and the maximum.
pub proof fn lemma_operation_stats_sound(s: OperationStats)
    requires
        s.wf(),
    ensures
        s.samples@.len() <= u64::MAX ==> s.count as nat == s.samples@.len(),
        0 < s.samples@.len() <= u64::MAX && sum_of(s.samples@) <= u64::MAX
            ==> s.min_us as nat <= (s.total_us as nat) / (s.count as nat)
            <= s.max_us as nat,
{
    if 0 < s.samples@.len() <= u64::MAX && sum_of(s.samples@) <= u64::MAX {
        lemma_mean_bounds(s.samples@);
    }
}

/// The telemetry aggregator.
pub struct Telemetry {
    config: TelemetryConfig,
    start_time: std::time::Instant,
    operation_timings: Vec<(String, OperationStats)>,
    counters: Vec<(String, u64)>,
    gauges: Vec<(String, MilliValue)>,
    last_snapshot: std::time::Instant,
}

impl Telemetry {
    /// Whether collection is enabled.
    pub closed spec fn enabled(self) -> bool {
        self.config.enabled
    }

    /// The named accumulators.
    pub closed spec fn ops(self) -> Seq<(String, OperationStats)> {
        self.operation_timings@
    }

    /// The named counters.
    pub closed spec fn counter_entries(self) -> Seq<(String, u64)> {
        self.counters@
    }

    /// The named gauges.
    pub closed spec fn gauge_entries(self) -> Seq<(String, MilliValue)> {
        self.gauges@
    }

    /// Keys are unique in each registry and every accumulator is sound.
    pub open spec fn wf(self) -> bool {
        &&& distinct_keys(self.ops())
        &&& distinct_keys(self.counter_entries())
        &&& distinct_keys(self.gauge_entries())
        &&& forall|i: int| 0 <= i < self.ops().len() ==> (#[trigger] self.ops()[i]).1.wf()
    }

    /// New collector under the given configuration.
    pub fn new(config: TelemetryConfig) -> (r: Self)
        ensures
            r.wf(),
            r.enabled() == config.enabled,
            r.ops().len() == 0,
            r.counter_entries().len() == 0,
            r.gauge_entries().len() == 0,
    {
        let enabled = config.enabled;
        let r = Telemetry {
            config,
            start_time: clock::instant_now(),
            operation_timings: Vec::new(),
            counters: Vec::new(),
            gauges: Vec::new(),
            last_snapshot: clock::instant_now(),
        };
        r
    }

    /// New collector under the default configuration.
    pub fn default_config() -> (r: Self)
        ensures
            r.wf(),
            r.enabled(),
            r.ops().len() == 0,
            r.counter_entries().len() == 0,
            r.gauge_entries().len() == 0,
    {
        Telemetry::new(TelemetryConfig::default())
    }

    /// Record an operation timing in microseconds: create-or-update the
    /// named accumulator.  With collection disabled this is a no-op.
    pub fn record_operation(&mut self, name: &str, duration_us: u64)
        requires
            old(self).wf(),
        ensures
            final(self).wf(),
            final(self).enabled() == old(self).enabled(),
            !old(self).enabled() ==> *final(self) == *old(self),
            old(self).enabled() ==> {
                &&& final(self).counter_entries() == old(self).counter_entries()
                &&& final(self).gauge_entries() == old(self).gauge_entries()
                &&& has_key(final(self).ops(), name@)
                &&& spec_get(final(self).ops(), name@)->0.samples@ == (
                    if has_key(old(self).ops(), name@) {
                        spec_get(old(self).ops(), name@)->0.samples@.push(duration_us)
                    } else {
                        seq![duration_us]
                    })
                &&& forall|k: Seq<char>|
                    k != name@ ==> #[trigger] spec_get(final(self).ops(), k) == spec_get(
                        old(self).ops(),
                        k,
                    )
            },
    {
        if !self.config.enabled {
            return;
        }
        let k = name.to_owned();
        let ghost s_old = self.operation_timings@;
        match find_key(&self.operation_timings, &k) {
            Some(i) => {
                proof {
                    lemma_key_index_bounds(s_old, k@);
                }
                let mut entry = self.operation_timings.remove(i);
                entry.1.record(duration_us);
                self.operation_timings.insert(i, entry);
                proof {
                    let s_new = self.operation_timings@;
                    assert(s_new =~= s_old.update(i as int, s_new[i as int]));
                    assert(forall|j: int|
                        0 <= j < s_old.len() ==> (#[trigger] s_new[j]).0@ == (
                        #[trigger] s_old[j]).0@);
                    assert forall|kk: Seq<char>| true implies #[trigger] spec_key_index(
                        s_new,
                        kk,
                    ) == spec_key_index(s_old, kk) by {
                        lemma_key_index_same_keys(s_old, s_new, kk);
                    }
                    assert(distinct_keys(s_new));
                    assert(spec_key_index(s_new, name@) == Some(i as int));
                    assert forall|kk: Seq<char>| kk != name@ implies #[trigger] spec_get(
                        s_new,
                        kk,
                    ) == spec_get(s_old, kk) by {
                        if spec_key_index(s_old, kk) is Some {
                            let j = spec_key_index(s_old, kk)->0;
                            lemma_key_index_bounds(s_old, kk);
                            assert(j != i as int);
                            assert(s_new[j] == s_old[j]);
                        }
                    }
                }
            },
            None => {
                let mut stats = OperationStats::new();
                stats.record(duration_us);
                proof {
                    assert(stats.samples@ =~= seq![duration_us]);
                }
                self.operation_timings.push((k, stats));
                proof {
                    let s_new = self.operation_timings@;
                    let e = s_new.last();
                    assert(s_new =~= s_old.push(e));
                    lemma_key_index_push(s_old, name@, e);
                    assert(spec_key_index(s_new, name@) == Some(s_old.len() as int));
                    assert forall|kk: Seq<char>| kk != name@ implies #[trigger] spec_get(
                        s_new,
                        kk,
                    ) == spec_get(s_old, kk) by {
                        lemma_key_index_push(s_old, kk, e);
                        if spec_key_index(s_old, kk) is Some {
                            lemma_key_index_bounds(s_old, kk);
                        }
                    }
                    assert forall|a: int, b: int|
                        0 <= a < b < s_new.len() implies (#[trigger] s_new[a]).0@ != (
                        #[trigger] s_new[b]).0@ by {
                        if b == s_new.len() - 1 {
                            if s_new[a].0@ == name@ {
                                lemma_key_index_at(s_old, name@, a);
                            }
                        }
                    }
                }
            },
        }
    }

    /// Add to the named counter, creating it at zero on first use.  With
    /// collection disabled this is a no-op.
    pub fn add_to_counter(&mut self, name: &str, value: u64)
        requires
            old(self).wf(),
        ensures
            final(self).wf(),
            final(self).enabled() == old(self).enabled(),
            !old(self).enabled() ==> *final(self) == *old(self),
            old(self).enabled() ==> {
                &&& final(self).ops() == old(self).ops()
                &&& final(self).gauge_entries() == old(self).gauge_entries()
                &&& has_key(final(self).counter_entries(), name@)
                &&& spec_get(final(self).counter_entries(), name@) == Some(
                    (if has_key(old(self).counter_entries(), name@) {
                        spec_get(old(self).counter_entries(), name@)->0
                    } else {
                        0u64
                    }).saturating_add(value),
                )
                &&& forall|k: Seq<char>|
                    k != name@ ==> #[trigger] spec_get(final(self).counter_entries(), k)
                        == spec_get(old(self).counter_entries(), k)
            },
    {
        if !self.config.enabled {
            return;
        }
        let k = name.to_owned();
        let ghost s_old = self.counters@;
        match find_key(&self.counters, &k) {
            Some(i) => {
                proof {
                    lemma_key_index_bounds(s_old, k@);
                }
                let cur = self.counters[i].1;
                self.counters[i] = (k, cur.saturating_add(value));
                proof {
                    let s_new = self.counters@;
                    assert(forall|j: int|
                        0 <= j < s_old.len() ==> (#[trigger] s_new[j]).0@ == (
                        #[trigger] s_old[j]).0@);
                    assert forall|kk: Seq<char>| true implies #[trigger] spec_key_index(
                        s_new,
                        kk,
                    ) == spec_key_index(s_old, kk) by {
                        lemma_key_index_same_keys(s_old, s_new, kk);
                    }
                    assert(distinct_keys(s_new));
                    assert forall|kk: Seq<char>| kk != name@ implies #[trigger] spec_get(
                        s_new,
                        kk,
                    ) == spec_get(s_old, kk) by {
                        if spec_key_index(s_old, kk) is Some {
                            let j = spec_key_index(s_old, kk)->0;
                            lemma_key_index_bounds(s_old, kk);
                            assert(s_new[j] == s_old[j]);
                        }
                    }
                }
            },
            None => {
                self.counters.push((k, value));
                proof {
                    let s_new = self.counters@;
                    let e = s_new.last();
                    assert(s_new =~= s_old.push(e));
                    lemma_key_index_push(s_old, name@, e);
                    assert(e.1 == 0u64.saturating_add(value));
                    assert forall|kk: Seq<char>| kk != name@ implies #[trigger] spec_get(
                        s_new,
                        kk,
                    ) == spec_get(s_old, kk) by {
                        lemma_key_index_push(s_old, kk, e);
                        if spec_key_index(s_old, kk) is Some {
                            lemma_key_index_bounds(s_old, kk);
                        }
                    }
                    assert forall|a: int, b: int|
                        0 <= a < b < s_new.len() implies (#[trigger] s_new[a]).0@ != (
                        #[trigger] s_new[b]).0@ by {
                        if b == s_new.len() - 1 {
                            if s_new[a].0@ == name@ {
                                lemma_key_index_at(s_old, name@, a);
                            }
                        }
                    }
                }
            },
        }
    }

    /// Increment the named counter by one.
    pub fn increment_counter(&mut self, name: &str)
        requires
            old(self).wf(),
        ensures
            final(self).wf(),
            final(self).enabled() == old(self).enabled(),
            !old(self).enabled() ==> *final(self) == *old(self),
            old(self).enabled() ==> {
                &&& final(self).ops() == old(self).ops()
                &&& final(self).gauge_entries() == old(self).gauge_entries()
                &&& has_key(final(self).counter_entries(), name@)
                &&& spec_get(final(self).counter_entries(), name@) == Some(
                    (if has_key(old(self).counter_entries(), name@) {
                        spec_get(old(self).counter_entries(), name@)->0
                    } else {
                        0u64
                    }).saturating_add(1),
                )
                &&& forall|k: Seq<char>|
                    k != name@ ==> #[trigger] spec_get(final(self).counter_entries(), k)
                        == spec_get(old(self).counter_entries(), k)
            },
    {
        self.add_to_counter(name, 1);
    }

    /// Set the named gauge, creating it on first use; a later write
    /// replaces the value.  With collection disabled this is a no-op.
    pub fn set_gauge(&mut self, name: &str, value: MilliValue)
        requires
            old(self).wf(),
        ensures
            final(self).wf(),
            final(self).enabled() == old(self).enabled(),
            !old(self).enabled() ==> *final(self) == *old(self),
            old(self).enabled() ==> {
                &&& final(self).ops() == old(self).ops()
                &&& final(self).counter_entries() == old(self).counter_entries()
                &&& has_key(final(self).gauge_entries(), name@)
                &&& spec_get(final(self).gauge_entries(), name@) == Some(value)
                &&& forall|k: Seq<char>|
                    k != name@ ==> #[trigger] spec_get(final(self).gauge_entries(), k)
                        == spec_get(old(self).gauge_entries(), k)
            },
    {
        if !self.config.enabled {
            return;
        }
        let k = name.to_owned();
        let ghost s_old = self.gauges@;
        match find_key(&self.gauges, &k) {
            Some(i) => {
                proof {
                    lemma_key_index_bounds(s_old, k@);
                }
                self.gauges[i] = (k, value);
                proof {
                    let s_new = self.gauges@;
                    assert(forall|j: int|
                        0 <= j < s_old.len() ==> (#[trigger] s_new[j]).0@ == (
                        #[trigger] s_old[j]).0@);
                    assert forall|kk: Seq<char>| true implies #[trigger] spec_key_index(
                        s_new,
                        kk,
                    ) == spec_key_index(s_old, kk) by {
                        lemma_key_index_same_keys(s_old, s_new, kk);
                    }
                    assert(distinct_keys(s_new));
                    assert forall|kk: Seq<char>| kk != name@ implies #[trigger] spec_get(
                        s_new,
                        kk,
                    ) == spec_get(s_old, kk) by {
                        if spec_key_index(s_old, kk) is Some {
                            let j = spec_key_index(s_old, kk)->0;
                            lemma_key_index_bounds(s_old, kk);
                            assert(s_new[j] == s_old[j]);
                        }
                    }
                }
            },
            None => {
                self.gauges.push((k, value));
                proof {
                    let s_new = self.gauges@;
                    let e = s_new.last();
                    assert(s_new =~= s_old.push(e));
                    lemma_key_index_push(s_old, name@, e);
                    assert forall|kk: Seq<char>| kk != name@ implies #[trigger] spec_get(
                        s_new,
                        kk,
                    ) == spec_get(s_old, kk) by {
                        lemma_key_index_push(s_old, kk, e);
                        if spec_key_index(s_old, kk) is Some {
                            lemma_key_index_bounds(s_old, kk);
                        }
                    }
                    assert forall|a: int, b: int|
                        0 <= a < b < s_new.len() implies (#[trigger] s_new[a]).0@ != (
                        #[trigger] s_new[b]).0@ by {
                        if b == s_new.len() - 1 {
                            if s_new[a].0@ == name@ {
                                lemma_key_index_at(s_old, name@, a);
                            }
                        }
                    }
                }
            },
        }
    }

    /// Take an immutable snapshot: copies of every registry plus elapsed
    /// times.  The aggregator itself does not change.
    pub fn snapshot(&self) -> (snap: TelemetrySnapshot)
        requires
            self.wf(),
        ensures
            snap.wf(),
            snap.operation_stats@.len() == self.ops().len(),
            forall|i: int|
                0 <= i < self.ops().len() ==> (#[trigger] snap.operation_stats@[i]).0@
                    == self.ops()[i].0@ && snap.operation_stats@[i].1.samples@
                    == self.ops()[i].1.samples@ && snap.operation_stats@[i].1.wf(),
            snap.counters@.len() == self.counter_entries().len(),
            forall|i: int|
                0 <= i < self.counter_entries().len() ==> (#[trigger] snap.counters@[i]).0@
                    == self.counter_entries()[i].0@ && snap.counters@[i].1
                    == self.counter_entries()[i].1,
            snap.gauges@.len() == self.gauge_entries().len(),
            forall|i: int|
                0 <= i < self.gauge_entries().len() ==> (#[trigger] snap.gauges@[i]).0@
                    == self.gauge_entries()[i].0@ && snap.gauges@[i].1
                    == self.gauge_entries()[i].1,
            snap.metrics == zero_metrics_snapshot(),
    {
        let uptime_secs = clock::nanos_since(&self.start_time) / 1_000_000_000;
        let since_last = clock::nanos_since(&self.last_snapshot) / 1_000_000_000;
        let mut ops: Vec<(String, OperationStats)> = Vec::new();
        let mut i: usize = 0;
        while i < self.operation_timings.len()
            invariant
                0 <= i <= self.operation_timings@.len(),
                ops@.len() == i,
                forall|j: int|
                    0 <= j < i ==> (#[trigger] ops@[j]).0@ == self.operation_timings@[j].0@
                        && ops@[j].1.samples@ == self.operation_timings@[j].1.samples@ && (
                    self.operation_timings@[j].1.wf() ==> ops@[j].1.wf()),
            decreases self.operation_timings@.len() - i,
        {
            let name = self.operation_timings[i].0.clone();
            let stats = self.operation_timings[i].1.duplicate();
            ops.push((name, stats));
            i = i + 1;
        }
        let mut counters: Vec<(String, u64)> = Vec::new();
        let mut j: usize = 0;
        while j < self.counters.len()
            invariant
                0 <= j <= self.counters@.len(),
                counters@.len() == j,
                forall|q: int|
                    0 <= q < j ==> (#[trigger] counters@[q]).0@ == self.counters@[q].0@
                        && counters@[q].1 == self.counters@[q].1,
            decreases self.counters@.len() - j,
        {
            let name = self.counters[j].0.clone();
            let value = self.counters[j].1;
            counters.push((name, value));
            j = j + 1;
        }
        let mut gauges: Vec<(String, MilliValue)> = Vec::new();
        let mut q: usize = 0;
        while q < self.gauges.len()
            invariant
                0 <= q <= self.gauges@.len(),
                gauges@.len() == q,
                forall|t: int|
                    0 <= t < q ==> (#[trigger] gauges@[t]).0@ == self.gauges@[t].0@
                        && gauges@[t].1 == self.gauges@[t].1,
            decreases self.gauges@.len() - q,
        {
            let name = self.gauges[q].0.clone();
            let value = self.gauges[q].1;
            gauges.push((name, value));
            q = q + 1;
        }
        let snap = TelemetrySnapshot {
            timestamp_secs: uptime_secs,
            uptime_secs,
            since_last_snapshot_secs: since_last,
            operation_stats: ops,
            counters,
            gauges,
            metrics: Metrics::new().snapshot(),
        };
        proof {
            assert forall|a: int, b: int|
                0 <= a < b < snap.operation_stats@.len() implies (
            #[trigger] snap.operation_stats@[a]).0@ != (#[trigger] snap.operation_stats@[b]).0@ by {
                assert(self.ops()[a].0@ != self.ops()[b].0@);
            }
            assert forall|a: int, b: int|
                0 <= a < b < snap.counters@.len() implies (#[trigger] snap.counters@[a]).0@ != (
            #[trigger] snap.counters@[b]).0@ by {
                assert(self.counter_entries()[a].0@ != self.counter_entries()[b].0@);
            }
            assert forall|a: int, b: int|
                0 <= a < b < snap.gauges@.len() implies (#[trigger] snap.gauges@[a]).0@ != (
            #[trigger] snap.gauges@[b]).0@ by {
                assert(self.gauge_entries()[a].0@ != self.gauge_entries()[b].0@);
            }
        }
        snap
    }

    /// Clear every registry and restart the since-last-snapshot clock.
    /// The configuration, including the enabled flag, stays.
    pub fn reset(&mut self)
        ensures
            final(self).wf(),
            final(self).enabled() == old(self).enabled(),
            final(self).ops().len() == 0,
            final(self).counter_entries().len() == 0,
            final(self).gauge_entries().len() == 0,
    {
        self.operation_timings.clear();
        self.counters.clear();
        self.gauges.clear();
        self.last_snapshot = clock::instant_now();
    }

    /// Seconds since the collector was created.
    pub fn uptime_secs(&self) -> u64 {
        clock::nanos_since(&self.start_time) / 1_000_000_000
    }
}

/// The operations object of the JSON export, first `i` entries.
pub open spec fn ops_json_prefix(s: Seq<(String, OperationStats)>, i: int) -> Seq<char>
    decreases i,
{
    if i <= 0 {
        Seq::empty()
    } else {
        ops_json_prefix(s, i - 1) + "    \""@ + s[i - 1].0@
            + "\": {\n      \"count\": "@ + spec_dec(s[i - 1].1.count as nat)
            + ",\n      \"avg_us\": "@ + spec_us_2dec(s[i - 1].1.spec_avg_milli() as nat)
            + ",\n      \"min_us\": "@ + spec_dec(s[i - 1].1.min_us as nat)
            + ",\n      \"max_us\": "@ + spec_dec(s[i - 1].1.max_us as nat) + "\n    }"@ + (
        if i < s.len() {
            ","@
        } else {
            Seq::<char>::empty()
        }) + "\n"@
    }
}

/// The counters object of the JSON export, first `i` entries.
pub open spec fn counters_json_prefix(s: Seq<(String, u64)>, i: int) -> Seq<char>
    decreases i,
{
    if i <= 0 {
        Seq::empty()
    } else {
        counters_json_prefix(s, i - 1) + "    \""@ + s[i - 1].0@ + "\": "@ + spec_dec(
            s[i - 1].1 as nat,
        ) + (if i < s.len() {
            ","@
        } else {
            Seq::<char>::empty()
        }) + "\n"@
    }
}

/// The gauges object of the JSON export, first `i` entries.
pub open spec fn gauges_json_prefix(s: Seq<(String, MilliValue)>, i: int) -> Seq<char>
    decreases i,
{
    if i <= 0 {
        Seq::empty()
    } else {
        gauges_json_prefix(s, i - 1) + "    \""@ + s[i - 1].0@ + "\": "@ + spec_milli_4(
            s[i - 1].1.thousandths as int,
        ) + (if i < s.len() {
            ","@
        } else {
            Seq::<char>::empty()
        }) + "\n"@
    }
}

/// The operations section of the text summary, first `i` entries.
pub open spec fn ops_summary_prefix(s: Seq<(String, OperationStats)>, i: int) -> Seq<char>
    decreases i,
{
    if i <= 0 {
        Seq::empty()
    } else {
        ops_summary_prefix(s, i - 1) + "  "@ + s[i - 1].0@ + ": count="@ + spec_dec(
            s[i - 1].1.count as nat,
        ) + ", avg="@ + spec_us_2dec(s[i - 1].1.spec_avg_milli() as nat) + "µs, min="@
            + spec_dec(s[i - 1].1.min_us as nat) + "µs, max="@ + spec_dec(
            s[i - 1].1.max_us as nat,
        ) + "µs\n"@
    }
}

/// The counters section of the text summary, first `i` entries.
pub open spec fn counters_summary_prefix(s: Seq<(String, u64)>, i: int) -> Seq<char>
    decreases i,
{
    if i <= 0 {
        Seq::empty()
    } else {
        counters_summary_prefix(s, i - 1) + "  "@ + s[i - 1].0@ + ": "@ + spec_dec(
            s[i - 1].1 as nat,
        ) + "\n"@
    }
}

/// The gauges section of the text summary, first `i` entries.
pub open spec fn gauges_summary_prefix(s: Seq<(String, MilliValue)>, i: int) -> Seq<char>
    decreases i,
{
    if i <= 0 {
        Seq::empty()
    } else {
        gauges_summary_prefix(s, i - 1) + "  "@ + s[i - 1].0@ + ": "@ + spec_milli_4(
            s[i - 1].1.thousandths as int,
        ) + "\n"@
    }
}

/// Point-in-time snapshot of a telemetry collector.
pub struct TelemetrySnapshot {
    /// Seconds since the collector started, at snapshot time.
    pub timestamp_secs: u64,
    /// Seconds since the collector started.
    pub uptime_secs: u64,
    /// Seconds since the previous snapshot or reset.
    pub since_last_snapshot_secs: u64,
    /// Per-operation statistics.
    pub operation_stats: Vec<(String, OperationStats)>,
    /// Named counters.
    pub counters: Vec<(String, u64)>,
    /// Named gauges.
    pub gauges: Vec<(String, MilliValue)>,
    /// The fixed-counter registry's values, zero unless the embedding
    /// application fills them in from its own registry.
    pub metrics: MetricsSnapshot,
}

impl TelemetrySnapshot {
    /// Keys unique and accumulators sound.
    pub open spec fn wf(self) -> bool {
        &&& distinct_keys(self.operation_stats@)
        &&& distinct_keys(self.counters@)
        &&& distinct_keys(self.gauges@)
        &&& forall|i: int|
            0 <= i < self.operation_stats@.len() ==> (#[trigger] self.operation_stats@[i]).1.wf()
    }

    /// The statistics recorded under `name`, if any.
    pub fn operation(&self, name: &str) -> (r: Option<&OperationStats>)
        ensures
            match r {
                Some(s) => spec_get(self.operation_stats@, name@) == Some(*s),
                None => spec_get(self.operation_stats@, name@) is None,
            },
    {
        let k = name.to_owned();
        match find_key(&self.operation_stats, &k) {
            Some(i) => {
                proof {
                    lemma_key_index_bounds(self.operation_stats@, k@);
                }
                Some(&self.operation_stats[i].1)
            },
            None => None,
        }
    }

    /// The counter recorded under `name`, if any.
    pub fn counter(&self, name: &str) -> (r: Option<u64>)
        ensures
            r == spec_get(self.counters@, name@),
    {
        let k = name.to_owned();
        match find_key(&self.counters, &k) {
            Some(i) => {
                proof {
                    lemma_key_index_bounds(self.counters@, k@);
                }
                Some(self.counters[i].1)
            },
            None => None,
        }
    }

    /// The text `to_json` renders: header timing fields, then the
    /// operations, counters and gauges objects with their entries in
    /// order, commas between entries.
    pub open spec fn spec_json(self) -> Seq<char> {
        "{\n"@ + "  \"timestamp_secs\": "@ + spec_dec(self.timestamp_secs as nat) + ",\n"@
            + "  \"uptime_secs\": "@ + spec_dec(self.uptime_secs as nat) + ",\n"@
            + "  \"since_last_snapshot_secs\": "@ + spec_dec(
            self.since_last_snapshot_secs as nat,
        ) + ",\n"@ + "  \"operations\": {\n"@ + ops_json_prefix(
            self.operation_stats@,
            self.operation_stats@.len() as int,
        ) + "  },\n"@ + "  \"counters\": {\n"@ + counters_json_prefix(
            self.counters@,
            self.counters@.len() as int,
        ) + "  },\n"@ + "  \"gauges\": {\n"@ + gauges_json_prefix(
            self.gauges@,
            self.gauges@.len() as int,
        ) + "  }\n"@ + "}\n"@
    }

    /// Export the snapshot as a JSON text.
    #[verifier::rlimit(100)]
    #[verifier::spinoff_prover]
    pub fn to_json(&self) -> (s: String)
        ensures
            s@ == self.spec_json(),
    {
        let mut out = String::from_str("{\n");
        out.append("  \"timestamp_secs\": ");
        let t = u64_string(self.timestamp_secs);
        out.append(t.as_str());
        out.append(",\n");
        out.append("  \"uptime_secs\": ");
        let u = u64_string(self.uptime_secs);
        out.append(u.as_str());
        out.append(",\n");
        out.append("  \"since_last_snapshot_secs\": ");
        let sl = u64_string(self.since_last_snapshot_secs);
        out.append(sl.as_str());
        out.append(",\n");
        out.append("  \"operations\": {\n");
        let mut ops = String::new();
        let mut i: usize = 0;
        while i < self.operation_stats.len()
            invariant
                0 <= i <= self.operation_stats@.len(),
                ops@ == ops_json_prefix(self.operation_stats@, i as int),
            decreases self.operation_stats@.len() - i,
        {
            let mut e = String::from_str("    \"");
            e.append(self.operation_stats[i].0.as_str());
            e.append("\": {\n      \"count\": ");
            let c = u64_string(self.operation_stats[i].1.count);
            e.append(c.as_str());
            e.append(",\n      \"avg_us\": ");
            let avg = self.operation_stats[i].1.avg_us();
            proof {
                assert(avg.thousandths >= 0);
            }
            let a = u64_us_2dec(avg.thousandths as u64);
            e.append(a.as_str());
            e.append(",\n      \"min_us\": ");
            let mn = u64_string(self.operation_stats[i].1.min_us);
            e.append(mn.as_str());
            e.append(",\n      \"max_us\": ");
            let mx = u64_string(self.operation_stats[i].1.max_us);
            e.append(mx.as_str());
            e.append("\n    }");
            if i + 1 < self.operation_stats.len() {
                e.append(",");
            }
            e.append("\n");
            ops.append(e.as_str());
            i = i + 1;
            proof {
                assert(ops@ =~= ops_json_prefix(self.operation_stats@, i as int));
            }
        }
        out.append(ops.as_str());
        out.append("  },\n");
        out.append("  \"counters\": {\n");
        let mut cs = String::new();
        let mut j: usize = 0;
        while j < self.counters.len()
            invariant
                0 <= j <= self.counters@.len(),
                cs@ == counters_json_prefix(self.counters@, j as int),
            decreases self.counters@.len() - j,
        {
            let mut e = String::from_str("    \"");
            e.append(self.counters[j].0.as_str());
            e.append("\": ");
            let v = u64_string(self.counters[j].1);
            e.append(v.as_str());
            if j + 1 < self.counters.len() {
                e.append(",");
            }
            e.append("\n");
            cs.append(e.as_str());
            j = j + 1;
            proof {
                assert(cs@ =~= counters_json_prefix(self.counters@, j as int));
            }
        }
        out.append(cs.as_str());
        out.append("  },\n");
        out.append("  \"gauges\": {\n");
        let mut gs = String::new();
        let mut q: usize = 0;
        while q < self.gauges.len()
            invariant
                0 <= q <= self.gauges@.len(),
                gs@ == gauges_json_prefix(self.gauges@, q as int),
            decreases self.gauges@.len() - q,
        {
            let mut e = String::from_str("    \"");
            e.append(self.gauges[q].0.as_str());
            e.append("\": ");
            let v = milli_to_string_4(self.gauges[q].1);
            e.append(v.as_str());
            if q + 1 < self.gauges.len() {
                e.append(",");
            }
            e.append("\n");
            gs.append(e.as_str());
            q = q + 1;
            proof {
                assert(gs@ =~= gauges_json_prefix(self.gauges@, q as int));
            }
        }
        out.append(gs.as_str());
        out.append("  }\n");
        out.append("}\n");
        proof {
            assert(out@ =~= self.spec_json());
        }
        out
    }

    /// The text `summary` renders: an uptime header and one section per
    /// nonempty registry.
    pub open spec fn spec_summary(self) -> Seq<char> {
        "=== Telemetry Snapshot (uptime: "@ + spec_dec(self.uptime_secs as nat) + "s) ===\n"@
            + (if self.operation_stats@.len() > 0 {
            "\nOperations:\n"@ + ops_summary_prefix(
                self.operation_stats@,
                self.operation_stats@.len() as int,
            )
        } else {
            Seq::<char>::empty()
        }) + (if self.counters@.len() > 0 {
            "\nCounters:\n"@ + counters_summary_prefix(
                self.counters@,
                self.counters@.len() as int,
            )
        } else {
            Seq::<char>::empty()
        }) + (if self.gauges@.len() > 0 {
            "\nGauges:\n"@ + gauges_summary_prefix(self.gauges@, self.gauges@.len() as int)
        } else {
            Seq::<char>::empty()
        })
    }

    /// Format a human-readable summary.
    #[verifier::rlimit(100)]
    #[verifier::spinoff_prover]
    pub fn summary(&self) -> (s: String)
        ensures
            s@ == self.spec_summary(),
    {
        let mut out = String::from_str("=== Telemetry Snapshot (uptime: ");
        let u = u64_string(self.uptime_secs);
        out.append(u.as_str());
        out.append("s) ===\n");
        if self.operation_stats.len() > 0 {
            let mut sect = String::from_str("\nOperations:\n");
            let mut body = String::new();
            let mut i: usize = 0;
            while i < self.operation_stats.len()
                invariant
                    0 <= i <= self.operation_stats@.len(),
                    body@ == ops_summary_prefix(self.operation_stats@, i as int),
                decreases self.operation_stats@.len() - i,
            {
                let mut e = String::from_str("  ");
                e.append(self.operation_stats[i].0.as_str());
                e.append(": count=");
                let c = u64_string(self.operation_stats[i].1.count);
                e.append(c.as_str());
                e.append(", avg=");
                let avg = self.operation_stats[i].1.avg_us();
                proof {
                    assert(avg.thousandths >= 0);
                }
                let a = u64_us_2dec(avg.thousandths as u64);
                e.append(a.as_str());
                e.append("µs, min=");
                let mn = u64_string(self.operation_stats[i].1.min_us);
                e.append(mn.as_str());
                e.append("µs, max=");
                let mx = u64_string(self.operation_stats[i].1.max_us);
                e.append(mx.as_str());
                e.append("µs\n");
                body.append(e.as_str());
                i = i + 1;
                proof {
                    assert(body@ =~= ops_summary_prefix(self.operation_stats@, i as int));
                }
            }
            sect.append(body.as_str());
            out.append(sect.as_str());
        } else {
            proof {
                assert(out@ + Seq::<char>::empty() =~= out@);
            }
        }
        if self.counters.len() > 0 {
            let mut sect = String::from_str("\nCounters:\n");
            let mut body = String::new();
            let mut j: usize = 0;
            while j < self.counters.len()
                invariant
                    0 <= j <= self.counters@.len(),
                    body@ == counters_summary_prefix(self.counters@, j as int),
                decreases self.counters@.len() - j,
            {
                let mut e = String::from_str("  ");
                e.append(self.counters[j].0.as_str());
                e.append(": ");
                let v = u64_string(self.counters[j].1);
                e.append(v.as_str());
                e.append("\n");
                body.append(e.as_str());
                j = j + 1;
                proof {
                    assert(body@ =~= counters_summary_prefix(self.counters@, j as int));
                }
            }
            sect.append(body.as_str());
            out.append(sect.as_str());
        } else {
            proof {
                assert(out@ + Seq::<char>::empty() =~= out@);
            }
        }
        if self.gauges.len() > 0 {
            let mut sect = String::from_str("\nGauges:\n");
            let mut body = String::new();
            let mut q: usize = 0;
            while q < self.gauges.len()
                invariant
                    0 <= q <= self.gauges@.len(),
                    body@ == gauges_summary_prefix(self.gauges@, q as int),
                decreases self.gauges@.len() - q,
            {
                let mut e = String::from_str("  ");
                e.append(self.gauges[q].0.as_str());
                e.append(": ");
                let v = milli_to_string_4(self.gauges[q].1);
                e.append(v.as_str());
                e.append("\n");
                body.append(e.as_str());
                q = q + 1;
                proof {
                    assert(body@ =~= gauges_summary_prefix(self.gauges@, q as int));
                }
            }
            sect.append(body.as_str());
            out.append(sect.as_str());
        } else {
            proof {
                assert(out@ + Seq::<char>::empty() =~= out@);
            }
        }
        proof {
            assert(out@ =~= self.spec_summary());
        }
        out
    }

    /// The gauge recorded under `name`, if any.
    pub fn gauge(&self, name: &str) -> (r: Option<MilliValue>)
        ensures
            r == spec_get(self.gauges@, name@),
    {
        let k = name.to_owned();
        match find_key(&self.gauges, &k) {
            Some(i) => {
                proof {
                    lemma_key_index_bounds(self.gauges@, k@);
                }
                Some(self.gauges[i].1)
            },
            None => None,
        }
    }
}

} // verus!
