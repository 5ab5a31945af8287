//! High-resolution timing: picosecond timestamps with uncertainty bounds, a
//! monotonic-clock timer, and a statistical accumulator over timing samples.
//!
//! A timestamp counts picoseconds, so sub-nanosecond estimates need no
//! floating point.  Arithmetic on timestamps saturates and never panics.
//! The accumulator carries a ghost sequence of every sample it has seen;
//! its fields are proved to be exactly the count, sum and extrema of that
//! sequence, up to saturation at the 64-bit limit.

use crate::clock;
use crate::stats::{isqrt_u64, lemma_mean_bounds, max_of, min_of, sum_of};
use crate::text::{spec_dec, spec_dec_fixed, u64_dec_fixed, u64_string};
use vstd::prelude::*;
use vstd::string::*;

verus! {

/// Picosecond count (1 ps = 10^-12 s).
pub type Picoseconds = u64;

/// Nanosecond count.
pub type Nanoseconds = u64;

pub const PS_PER_NS: u64 = 1_000;

pub const PS_PER_US: u64 = 1_000_000;

pub const PS_PER_MS: u64 = 1_000_000_000;

pub const PS_PER_SEC: u64 = 1_000_000_000_000;

/// A product clamped to the 64-bit range.
pub open spec fn sat64(n: nat) -> nat {
    if n > u64::MAX {
        u64::MAX as nat
    } else {
        n
    }
}

/// High-resolution timing result with uncertainty bounds.
#[derive(Clone, Copy, Debug, PartialEq, Eq, Structural)]
pub struct HiResTimestamp {
    /// Measured time in picoseconds.
    pub picoseconds: Picoseconds,
    /// Lower uncertainty bound (picoseconds).
    pub uncertainty_low: Picoseconds,
    /// Upper uncertainty bound (picoseconds).
    pub uncertainty_high: Picoseconds,
    /// Whether this is a sub-nanosecond statistical estimate rather than a
    /// direct measurement.
    pub is_estimated: bool,
}

impl HiResTimestamp {
    /// The timestamp `from_nanos` constructs.
    pub open spec fn spec_from_nanos(ns: u64) -> HiResTimestamp {
        HiResTimestamp {
            picoseconds: sat64(ns as nat * PS_PER_NS as nat) as u64,
            uncertainty_low: 500,
            uncertainty_high: 500,
            is_estimated: false,
        }
    }

    /// Create from nanoseconds; a nanosecond-resolution reading carries a
    /// fixed half-nanosecond uncertainty band.
    pub fn from_nanos(ns: u64) -> (r: Self)
        ensures
            r == Self::spec_from_nanos(ns),
    {
        let ps = if ns > u64::MAX / PS_PER_NS {
            u64::MAX
        } else {
            ns * PS_PER_NS
        };
        proof {
            if ns > u64::MAX / PS_PER_NS {
                assert(ns as nat * 1000 > u64::MAX) by (nonlinear_arith)
                    requires
                        ns > u64::MAX / 1000,
                        ns <= u64::MAX,
                ;
            }
        }
        HiResTimestamp { picoseconds: ps, uncertainty_low: 500, uncertainty_high: 500, is_estimated: false }
    }

    /// Create from a direct picosecond measurement with symmetric
    /// uncertainty; such a value is a sub-nanosecond estimate.
    pub fn from_picos(ps: Picoseconds, uncertainty: Picoseconds) -> (r: Self)
        ensures
            r == (HiResTimestamp {
                picoseconds: ps,
                uncertainty_low: uncertainty,
                uncertainty_high: uncertainty,
                is_estimated: true,
            }),
    {
        HiResTimestamp {
            picoseconds: ps,
            uncertainty_low: uncertainty,
            uncertainty_high: uncertainty,
            is_estimated: true,
        }
    }

    /// Convert to nanoseconds (lossy).
    pub fn as_nanos(&self) -> (r: u64)
        ensures
            r == self.picoseconds / PS_PER_NS,
    {
        self.picoseconds / PS_PER_NS
    }

    /// Convert to microseconds (lossy).
    pub fn as_micros(&self) -> (r: u64)
        ensures
            r == self.picoseconds / PS_PER_US,
    {
        self.picoseconds / PS_PER_US
    }

    /// Convert to milliseconds (lossy).
    pub fn as_millis(&self) -> (r: u64)
        ensures
            r == self.picoseconds / PS_PER_MS,
    {
        self.picoseconds / PS_PER_MS
    }

    /// Subtract, saturating at zero and summing the uncertainty bounds of
    /// both operands; never panics on underflow.
    pub fn saturating_sub(self, rhs: Self) -> (r: Self)
        ensures
            r.picoseconds as nat == if self.picoseconds >= rhs.picoseconds {
                (self.picoseconds - rhs.picoseconds) as nat
            } else {
                0
            },
            r.uncertainty_low as nat == sat64(
                self.uncertainty_low as nat + rhs.uncertainty_low as nat,
            ),
            r.uncertainty_high as nat == sat64(
                self.uncertainty_high as nat + rhs.uncertainty_high as nat,
            ),
            r.is_estimated == (self.is_estimated || rhs.is_estimated),
    {
        HiResTimestamp {
            picoseconds: self.picoseconds.saturating_sub(rhs.picoseconds),
            uncertainty_low: self.uncertainty_low.saturating_add(rhs.uncertainty_low),
            uncertainty_high: self.uncertainty_high.saturating_add(rhs.uncertainty_high),
            is_estimated: self.is_estimated || rhs.is_estimated,
        }
    }

    /// Format with the coarsest unit whose value is at least one.
    pub fn format(&self) -> (s: String)
        ensures
            s@ == spec_format_ps(self.picoseconds as nat),
    {
        let ps = self.picoseconds;
        if ps < PS_PER_NS {
            let mut s = u64_string(ps);
            s.append("ps");
            s
        } else if ps < PS_PER_US {
            let mut s = scaled_milli(ps, PS_PER_NS);
            s.append("ns");
            s
        } else if ps < PS_PER_MS {
            let mut s = scaled_milli(ps, PS_PER_US);
            s.append("µs");
            s
        } else if ps < PS_PER_SEC {
            let mut s = scaled_milli(ps, PS_PER_MS);
            s.append("ms");
            s
        } else {
            let mut s = scaled_milli(ps, PS_PER_SEC);
            s.append("s");
            s
        }
    }

    /// Format with the uncertainty bounds appended.
    pub fn format_with_uncertainty(&self) -> (s: String)
        ensures
            s@ == spec_format_ps(self.picoseconds as nat) + " ("@ + spec_uncertainty(
                self.uncertainty_low,
                self.uncertainty_high,
            ) + ")"@,
    {
        let mut s = self.format();
        s.append(" (");
        if self.uncertainty_high == self.uncertainty_low {
            s.append("±");
            let d = u64_string(self.uncertainty_low);
            s.append(d.as_str());
            s.append("ps");
        } else {
            s.append("+");
            let h = u64_string(self.uncertainty_high);
            s.append(h.as_str());
            s.append("/-");
            let l = u64_string(self.uncertainty_low);
            s.append(l.as_str());
            s.append("ps");
        }
        s.append(")");
        s
    }
}

/// "x.yyy" rendering of `ps / div`, rounded half-up to three decimals.
pub open spec fn spec_scaled_milli(ps: nat, div: nat) -> Seq<char> {
    let m = (ps * 1000 + div / 2) / div;
    spec_dec(m / 1000) + "."@ + spec_dec_fixed(m % 1000, 3)
}

/// The text `format` produces for a picosecond value: the coarsest unit in
/// which the value is at least one, with three decimals below that unit.
pub open spec fn spec_format_ps(ps: nat) -> Seq<char> {
    if ps < PS_PER_NS {
        spec_dec(ps) + "ps"@
    } else if ps < PS_PER_US {
        spec_scaled_milli(ps, PS_PER_NS as nat) + "ns"@
    } else if ps < PS_PER_MS {
        spec_scaled_milli(ps, PS_PER_US as nat) + "µs"@
    } else if ps < PS_PER_SEC {
        spec_scaled_milli(ps, PS_PER_MS as nat) + "ms"@
    } else {
        spec_scaled_milli(ps, PS_PER_SEC as nat) + "s"@
    }
}

/// The uncertainty annotation: symmetric bounds collapse to one figure.
pub open spec fn spec_uncertainty(low: u64, high: u64) -> Seq<char> {
    if low == high {
        "±"@ + spec_dec(low as nat) + "ps"@
    } else {
        "+"@ + spec_dec(high as nat) + "/-"@ + spec_dec(low as nat) + "ps"@
    }
}

/// Render `ps / div` with three decimals, rounding half-up.
fn scaled_milli(ps: u64, div: u64) -> (s: String)
    requires
        1000 <= div,
    ensures
        s@ == spec_scaled_milli(ps as nat, div as nat),
{
    let num: u128 = (ps as u128) * 1000 + (div / 2) as u128;
    let m128: u128 = num / (div as u128);
    proof {
        assert((ps as nat) * 1000 + (div / 2) as nat <= u128::MAX) by (nonlinear_arith)
            requires
                ps <= u64::MAX,
                div <= u64::MAX,
        ;
        assert(m128 as nat == ((ps as nat) * 1000 + (div as nat) / 2) / (div as nat));
        let q = m128 as nat;
        let x = (ps as nat) * 1000 + (div as nat) / 2;
        assert(q <= u64::MAX) by (nonlinear_arith)
            requires
                q == x / (div as nat),
                x <= (u64::MAX as nat) * 1000 + (div as nat) / 2,
                1000 <= div as nat,
                div as nat <= u64::MAX,
        ;
    }
    let m: u64 = m128 as u64;
    let mut s = u64_string(m / 1000);
    s.append(".");
    let frac = u64_dec_fixed(m % 1000, 3);
    s.append(frac.as_str());
    s
}

/// High-resolution timer over the best clock source available.  Portable
/// builds read the monotonic wall clock at nanosecond resolution; the
/// cycle-counter conversion path is exposed through the calibration
/// functions, which operate on plain cycle and frequency values.
pub struct HiResTimer {
    start_instant: std::time::Instant,
}

impl HiResTimer {
    /// Create and start a new timer by taking a clock origin.
    pub fn start() -> Self {
        HiResTimer { start_instant: clock::instant_now() }
    }

    /// Elapsed time since the origin.  Every reading is a nanosecond
    /// measurement widened to picoseconds with the fixed half-nanosecond
    /// uncertainty band; the precision tier never changes over a timer's
    /// life.
    pub fn elapsed(&self) -> (r: HiResTimestamp)
        ensures
            exists|ns: u64| r == HiResTimestamp::spec_from_nanos(ns),
    {
        let ns = clock::nanos_since(&self.start_instant);
        let r = HiResTimestamp::from_nanos(ns);
        proof {
            assert(r == HiResTimestamp::spec_from_nanos(ns));
        }
        r
    }

    /// Elapsed nanoseconds.
    pub fn elapsed_nanos(&self) -> u64 {
        self.elapsed().as_nanos()
    }

    /// Elapsed picoseconds.
    pub fn elapsed_picos(&self) -> Picoseconds {
        self.elapsed().picoseconds
    }
}

impl Default for HiResMetrics {
    /// A fresh accumulator.
    fn default() -> (r: Self)
        ensures
            r.wf(),
            r.samples@ == Seq::<u64>::empty(),
    {
        HiResMetrics::new()
    }
}

/// Timer readings converted from a monotonic clock never decrease: a later
/// (larger) nanosecond reading never yields a smaller picosecond value.
pub proof fn lemma_elapsed_monotonic(ns1: u64, ns2: u64)
    requires
        ns1 <= ns2,
    ensures
        HiResTimestamp::spec_from_nanos(ns1).picoseconds <= HiResTimestamp::spec_from_nanos(
            ns2,
        ).picoseconds,
{
    assert(ns1 as nat * 1000 <= ns2 as nat * 1000) by (nonlinear_arith)
        requires
            ns1 <= ns2,
    ;
}

/// Sum of squared nanosecond values of picosecond samples; the reduced
/// (nanosecond-squared) unit bounds the magnitude of the running total.
pub open spec fn sum_sq_ns(s: Seq<u64>) -> nat
    decreases s.len(),
{
    if s.len() == 0 {
        0
    } else {
        sum_sq_ns(s.drop_last()) + sat64(
            (s.last() / 1000) as nat * (s.last() / 1000) as nat,
        )
    }
}

/// Statistical accumulator over timing samples: count, sum, extrema and
/// sum of squares.  The ghost `samples` field records every sample; the
/// well-formedness predicate ties each field to it exactly, so the
/// aggregate is correct after any sequence of recordings.  Sharing across
/// threads is the embedding application's concern: the contract covers
/// every interleaving of calls made through whatever exclusion it puts
/// around the accumulator.
pub struct HiResMetrics {
    /// Number of samples, saturating.
    pub count: u64,
    /// Sum of all measurements (picoseconds), saturating.
    pub total_ps: u64,
    /// Minimum measurement; the largest representable value while empty.
    pub min_ps: u64,
    /// Maximum measurement; zero while empty.
    pub max_ps: u64,
    /// Sum of squares in ns^2, saturating.
    pub sum_sq_ns2: u64,
    /// Every sample recorded so far, in order.
    pub samples: Ghost<Seq<u64>>,
}

impl HiResMetrics {
    /// The fields are exactly the statistics of the recorded samples.
    pub open spec fn wf(self) -> bool {
        &&& self.count as nat == sat64(self.samples@.len() as nat)
        &&& self.total_ps as nat == sat64(sum_of(self.samples@))
        &&& self.min_ps as nat == min_of(self.samples@)
        &&& self.max_ps as nat == max_of(self.samples@)
        &&& self.sum_sq_ns2 as nat == sat64(sum_sq_ns(self.samples@))
    }

    /// Fresh accumulator with identity statistics.
    pub fn new() -> (r: Self)
        ensures
            r.wf(),
            r.samples@ == Seq::<u64>::empty(),
    {
        HiResMetrics {
            count: 0,
            total_ps: 0,
            min_ps: u64::MAX,
            max_ps: 0,
            sum_sq_ns2: 0,
            samples: Ghost(Seq::empty()),
        }
    }

    /// Record one measurement: the sample joins the ghost history and every
    /// field is updated to the statistics of the extended history.
    pub fn record(&mut self, timestamp: HiResTimestamp)
        requires
            old(self).wf(),
        ensures
            final(self).wf(),
            final(self).samples@ == old(self).samples@.push(timestamp.picoseconds),
    {
        let ps = timestamp.picoseconds;
        let ns = timestamp.as_nanos();
        let ghost s_old = self.samples@;
        let ghost s_new = s_old.push(ps);
        proof {
            assert(s_new.drop_last() =~= s_old);
            assert(s_new.last() == ps);
        }
        self.count = self.count.saturating_add(1);
        self.total_ps = self.total_ps.saturating_add(ps);
        if ps < self.min_ps {
            self.min_ps = ps;
        }
        if ps > self.max_ps {
            self.max_ps = ps;
        }
        proof {
            assert((ns as nat) * (ns as nat) <= u128::MAX) by (nonlinear_arith)
                requires
                    ns <= u64::MAX,
            ;
        }
        let sq128: u128 = (ns as u128) * (ns as u128);
        let sq: u64 = if sq128 > u64::MAX as u128 {
            u64::MAX
        } else {
            sq128 as u64
        };
        self.sum_sq_ns2 = self.sum_sq_ns2.saturating_add(sq);
        self.samples = Ghost(s_new);
    }

    /// Record the current elapsed time of a running timer.
    pub fn record_timer(&mut self, timer: &HiResTimer)
        requires
            old(self).wf(),
        ensures
            final(self).wf(),
            final(self).samples@.len() == old(self).samples@.len() + 1,
    {
        let ghost n = self.samples@.len();
        self.record(timer.elapsed());
    }

    /// Mean of the recorded samples, zero while empty.
    pub open spec fn spec_mean_ps(self) -> nat {
        if self.count == 0 {
            0
        } else {
            (self.total_ps as nat) / (self.count as nat)
        }
    }

    /// Sample variance estimate in ns^2: E[x^2] - E[x]^2, clamped at zero,
    /// defined as zero below two samples.
    pub open spec fn spec_variance_ns2(self) -> nat {
        if self.count <= 1 {
            0
        } else {
            let mean_ns = self.spec_mean_ps() / 1000;
            let e_x2 = (self.sum_sq_ns2 as nat) / (self.count as nat);
            let m2 = sat64(mean_ns * mean_ns);
            if e_x2 > m2 {
                (e_x2 - m2) as nat
            } else {
                0
            }
        }
    }

    /// Variance rescaled to picoseconds squared, saturating.
    pub open spec fn spec_variance_ps2(self) -> nat {
        sat64(self.spec_variance_ns2() * 1000000)
    }

    /// Take an immutable snapshot of the derived statistics.
    pub fn snapshot(&self) -> (snap: HiResMetricsSnapshot)
        requires
            self.wf(),
        ensures
            snap.count == self.count,
            snap.total_ps == self.total_ps,
            snap.min_ps as nat == if self.min_ps == u64::MAX {
                0nat
            } else {
                self.min_ps as nat
            },
            snap.max_ps == self.max_ps,
            snap.mean_ps as nat == self.spec_mean_ps(),
            (snap.stddev_ps as nat) * (snap.stddev_ps as nat) <= self.spec_variance_ps2(),
            ((snap.stddev_ps + 1) as nat) * ((snap.stddev_ps + 1) as nat)
                > self.spec_variance_ps2(),
    {
        let count = self.count;
        let mean_ps = if count > 0 {
            self.total_ps / count
        } else {
            0
        };
        let mean_ns = mean_ps / PS_PER_NS;
        let variance_ns2: u64 = if count > 1 {
            proof {
                assert((mean_ns as nat) * (mean_ns as nat) <= u128::MAX) by (nonlinear_arith)
                    requires
                        mean_ns <= u64::MAX,
                ;
            }
            let m128: u128 = (mean_ns as u128) * (mean_ns as u128);
            let m2: u64 = if m128 > u64::MAX as u128 {
                u64::MAX
            } else {
                m128 as u64
            };
            let e_x2 = self.sum_sq_ns2 / count;
            e_x2.saturating_sub(m2)
        } else {
            0
        };
        let v128: u128 = (variance_ns2 as u128) * 1000000;
        let variance_ps: u64 = if v128 > u64::MAX as u128 {
            u64::MAX
        } else {
            v128 as u64
        };
        let stddev_ps = isqrt_u64(variance_ps);
        HiResMetricsSnapshot {
            count,
            total_ps: self.total_ps,
            min_ps: if self.min_ps == u64::MAX {
                0
            } else {
                self.min_ps
            },
            max_ps: self.max_ps,
            mean_ps,
            stddev_ps,
        }
    }

    /// Reset all statistics to their identity values.
    pub fn reset(&mut self)
        ensures
            final(self).wf(),
            final(self).samples@ == Seq::<u64>::empty(),
    {
        self.count = 0;
        self.total_ps = 0;
        self.min_ps = u64::MAX;
        self.max_ps = 0;
        self.sum_sq_ns2 = 0;
        self.samples = Ghost(Seq::empty());
    }
}

/// After any sequence of recordings, the count equals the number of
/// recordings while that number is representable, and, while the sum is
/// representable too, the floored mean lies between the minimum and the
/// maximum.
pub proof fn lemma_accumulator_sound(m: HiResMetrics)
    requires
        m.wf(),
    ensures
        m.samples@.len() <= u64::MAX ==> m.count as nat == m.samples@.len(),
        0 < m.samples@.len() <= u64::MAX && sum_of(m.samples@) <= u64::MAX
            ==> m.min_ps as nat <= (m.total_ps as nat) / (m.count as nat)
            <= m.max_ps as nat,
{
    if 0 < m.samples@.len() <= u64::MAX && sum_of(m.samples@) <= u64::MAX {
        lemma_mean_bounds(m.samples@);
    }
}

/// Snapshot of the accumulator's derived statistics.
#[derive(Clone, Copy, Debug, Default, PartialEq, Eq, Structural)]
pub struct HiResMetricsSnapshot {
    /// Number of samples.
    pub count: u64,
    /// Total time (picoseconds).
    pub total_ps: Picoseconds,
    /// Minimum time (picoseconds).
    pub min_ps: Picoseconds,
    /// Maximum time (picoseconds).
    pub max_ps: Picoseconds,
    /// Mean time (picoseconds).
    pub mean_ps: Picoseconds,
    /// Standard deviation (picoseconds).
    pub stddev_ps: Picoseconds,
}

/// The text a snapshot summary renders to.
pub open spec fn spec_snapshot_format(s: HiResMetricsSnapshot) -> Seq<char> {
    if s.count == 0 {
        "no samples"@
    } else {
        "n="@ + spec_dec(s.count as nat) + " mean="@ + spec_format_ps(s.mean_ps as nat)
            + " min="@ + spec_format_ps(s.min_ps as nat) + " max="@ + spec_format_ps(
            s.max_ps as nat,
        ) + " stddev="@ + spec_format_ps(s.stddev_ps as nat)
    }
}

impl HiResMetricsSnapshot {
    /// Format a one-line summary of the statistics.
    pub fn format(&self) -> (s: String)
        ensures
            s@ == spec_snapshot_format(*self),
    {
        if self.count == 0 {
            return String::from_str("no samples");
        }
        let mut s = String::from_str("n=");
        let c = u64_string(self.count);
        s.append(c.as_str());
        s.append(" mean=");
        let m = HiResTimestamp::from_picos(self.mean_ps, 0).format();
        s.append(m.as_str());
        s.append(" min=");
        let mn = HiResTimestamp::from_picos(self.min_ps, 0).format();
        s.append(mn.as_str());
        s.append(" max=");
        let mx = HiResTimestamp::from_picos(self.max_ps, 0).format();
        s.append(mx.as_str());
        s.append(" stddev=");
        let sd = HiResTimestamp::from_picos(self.stddev_ps, 0).format();
        s.append(sd.as_str());
        s
    }
}

/// Run a closure once and measure how long it took.
pub fn measure<R, F: FnOnce() -> R>(f: F) -> (r: (R, HiResTimestamp))
    requires
        call_requires(f, ()),
    ensures
        call_ensures(f, (), r.0),
        exists|ns: u64| r.1 == HiResTimestamp::spec_from_nanos(ns),
{
    let timer = HiResTimer::start();
    let result = f();
    (result, timer.elapsed())
}

/// Run a closure `n` times, feed each elapsed duration into a fresh
/// accumulator, and return the results with the statistics snapshot.
pub fn measure_n<R, F: Fn() -> R>(n: usize, f: F) -> (r: (Vec<R>, HiResMetricsSnapshot))
    requires
        call_requires(f, ()),
    ensures
        r.0@.len() == n,
        forall|i: int| 0 <= i < n ==> call_ensures(f, (), #[trigger] r.0@[i]),
        n <= u64::MAX ==> r.1.count as nat == n as nat,
{
    let metrics_start = HiResMetrics::new();
    let mut metrics = metrics_start;
    let mut results: Vec<R> = Vec::with_capacity(n);
    let mut i: usize = 0;
    while i < n
        invariant
            0 <= i <= n,
            call_requires(f, ()),
            metrics.wf(),
            metrics.samples@.len() == i,
            results@.len() == i,
            forall|j: int| 0 <= j < i ==> call_ensures(f, (), #[trigger] results@[j]),
        decreases n - i,
    {
        let timer = HiResTimer::start();
        results.push(f());
        metrics.record_timer(&timer);
        i = i + 1;
    }
    let snap = metrics.snapshot();
    (results, snap)
}

} // verus!
