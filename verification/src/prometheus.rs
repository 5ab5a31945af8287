//! Prometheus text rendering of telemetry snapshots: counters, gauges, and
//! per-operation cumulative histograms over a fixed bucket ladder.
//!
//! Rendering is pure formatting over the snapshot; every line the exporter
//! emits is pinned by a specification of the produced text.

use crate::fixed::{milli_to_string_4, spec_milli_4, MilliValue};
use crate::stats::count_lt;
use crate::telemetry::{OperationStats, TelemetrySnapshot};
use crate::text::{push_char, spec_dec, u64_string};
use vstd::prelude::*;
use vstd::string::*;

verus! {

/// A metric-name character: ASCII letters, digits and underscores stay,
/// anything else becomes an underscore.
pub open spec fn sanitize_char(c: char) -> char {
    if ('a' <= c && c <= 'z') || ('A' <= c && c <= 'Z') || ('0' <= c && c <= '9') || c
        == '_' {
        c
    } else {
        '_'
    }
}

/// The sanitized form of a metric name.
pub open spec fn spec_sanitize(s: Seq<char>) -> Seq<char> {
    Seq::new(s.len(), |i: int| sanitize_char(s[i]))
}

/// Sanitize a metric name: replace every character that is not an ASCII
/// letter, digit or underscore with an underscore.
pub fn sanitize_name(name: &str) -> (r: String)
    ensures
        r@ == spec_sanitize(name@),
{
    let n = name.unicode_len();
    let mut out = String::new();
    let mut i: usize = 0;
    proof {
        assert(out@ =~= Seq::new(0, |q: int| sanitize_char(name@[q])));
    }
    while i < n
        invariant
            0 <= i <= n,
            n == name@.len(),
            out@ == Seq::new(i as nat, |q: int| sanitize_char(name@[q])),
        decreases n - i,
    {
        let c = name.get_char(i);
        let keep = ('a' <= c && c <= 'z') || ('A' <= c && c <= 'Z') || ('0' <= c && c <= '9')
            || c == '_';
        if keep {
            push_char(&mut out, c);
        } else {
            push_char(&mut out, '_');
        }
        i = i + 1;
        proof {
            assert(out@ =~= Seq::new(i as nat, |q: int| sanitize_char(name@[q])));
        }
    }
    proof {
        assert(out@ =~= spec_sanitize(name@));
    }
    out
}

/// The full metric name: prefix, underscore, sanitized name.
pub open spec fn spec_metric_name(prefix: Seq<char>, name: Seq<char>) -> Seq<char> {
    prefix + "_"@ + spec_sanitize(name)
}

/// The text of one counter: optional help and type comments, then the
/// value line.
pub open spec fn spec_counter_text(
    prefix: Seq<char>,
    name: Seq<char>,
    value: u64,
    help: bool,
    typ: bool,
) -> Seq<char> {
    let metric = spec_metric_name(prefix, name);
    (if help {
        "# HELP "@ + metric + " Counter metric\n"@
    } else {
        Seq::<char>::empty()
    }) + (if typ {
        "# TYPE "@ + metric + " counter\n"@
    } else {
        Seq::<char>::empty()
    }) + metric + " "@ + spec_dec(value as nat) + "\n"@
}

/// The text of one gauge.
pub open spec fn spec_gauge_text(
    prefix: Seq<char>,
    name: Seq<char>,
    value: MilliValue,
    help: bool,
    typ: bool,
) -> Seq<char> {
    let metric = spec_metric_name(prefix, name);
    (if help {
        "# HELP "@ + metric + " Gauge metric\n"@
    } else {
        Seq::<char>::empty()
    }) + (if typ {
        "# TYPE "@ + metric + " gauge\n"@
    } else {
        Seq::<char>::empty()
    }) + metric + " "@ + spec_milli_4(value.thousandths as int) + "\n"@
}

/// One histogram bucket line.
pub open spec fn spec_bucket_line(metric: Seq<char>, bound: u64, cum: nat) -> Seq<char> {
    metric + "_bucket{le=\""@ + spec_dec(bound as nat) + "\"} "@ + spec_dec(cum) + "\n"@
}

/// The text of one operation's histogram: optional comments, the running
/// totals of the bucket ladder, the infinity bucket, the sum and the
/// count.
pub open spec fn spec_histogram_text(
    prefix: Seq<char>,
    name: Seq<char>,
    st: OperationStats,
    help: bool,
    typ: bool,
) -> Seq<char> {
    let metric = spec_metric_name(prefix, name) + "_duration_us"@;
    let r = st.retained();
    let c1 = count_lt(r, 100);
    let c2 = c1 + count_lt(r, 500);
    let c3 = c2 + count_lt(r, 1000);
    let c4 = c3 + count_lt(r, 5000);
    let c5 = c4 + count_lt(r, 10000);
    let c6 = c5 + count_lt(r, 50000);
    let c7 = c6 + count_lt(r, 100000);
    (if help {
        "# HELP "@ + metric + " Operation duration histogram\n"@
    } else {
        Seq::<char>::empty()
    }) + (if typ {
        "# TYPE "@ + metric + " histogram\n"@
    } else {
        Seq::<char>::empty()
    }) + spec_bucket_line(metric, 100, c1) + spec_bucket_line(metric, 500, c2)
        + spec_bucket_line(metric, 1000, c3) + spec_bucket_line(metric, 5000, c4)
        + spec_bucket_line(metric, 10000, c5) + spec_bucket_line(metric, 50000, c6)
        + spec_bucket_line(metric, 100000, c7) + metric + "_bucket{le=\"+Inf\"} "@ + spec_dec(
        st.count as nat,
    ) + "\n"@ + metric + "_sum "@ + spec_dec(st.total_us as nat) + "\n"@ + metric + "_count "@
        + spec_dec(st.count as nat) + "\n"@
}

/// The counters section of an export: the first `i` counters rendered in
/// order.
pub open spec fn counters_prefix(
    prefix: Seq<char>,
    s: Seq<(String, u64)>,
    i: int,
    help: bool,
    typ: bool,
) -> Seq<char>
    decreases i,
{
    if i <= 0 {
        Seq::empty()
    } else {
        counters_prefix(prefix, s, i - 1, help, typ) + spec_counter_text(
            prefix,
            s[i - 1].0@,
            s[i - 1].1,
            help,
            typ,
        )
    }
}

/// The gauges section of an export.
pub open spec fn gauges_prefix(
    prefix: Seq<char>,
    s: Seq<(String, MilliValue)>,
    i: int,
    help: bool,
    typ: bool,
) -> Seq<char>
    decreases i,
{
    if i <= 0 {
        Seq::empty()
    } else {
        gauges_prefix(prefix, s, i - 1, help, typ) + spec_gauge_text(
            prefix,
            s[i - 1].0@,
            s[i - 1].1,
            help,
            typ,
        )
    }
}

/// The histograms section of an export.
pub open spec fn histograms_prefix(
    prefix: Seq<char>,
    s: Seq<(String, OperationStats)>,
    i: int,
    help: bool,
    typ: bool,
) -> Seq<char>
    decreases i,
{
    if i <= 0 {
        Seq::empty()
    } else {
        histograms_prefix(prefix, s, i - 1, help, typ) + spec_histogram_text(
            prefix,
            s[i - 1].0@,
            s[i - 1].1,
            help,
            typ,
        )
    }
}

/// Prometheus text exporter.
pub struct PrometheusExporter {
    /// Metric name prefix.
    pub prefix: String,
    /// Whether help comments are emitted.
    pub include_help: bool,
    /// Whether type comments are emitted.
    pub include_type: bool,
}

impl PrometheusExporter {
    /// New exporter with the given metric prefix, emitting help and type
    /// comments.
    pub fn new(prefix: &str) -> (r: Self)
        ensures
            r.prefix@ == prefix@,
            r.include_help,
            r.include_type,
    {
        PrometheusExporter { prefix: prefix.to_owned(), include_help: true, include_type: true }
    }

    /// Disable the help comments.
    pub fn without_help(self) -> (r: Self)
        ensures
            r.prefix == self.prefix,
            !r.include_help,
            r.include_type == self.include_type,
    {
        PrometheusExporter { include_help: false, ..self }
    }

    /// Disable the type comments.
    pub fn without_type(self) -> (r: Self)
        ensures
            r.prefix == self.prefix,
            r.include_help == self.include_help,
            !r.include_type,
    {
        PrometheusExporter { include_type: false, ..self }
    }

    /// What a whole export renders to: every counter, every gauge, every
    /// operation histogram, the built-in cache and recovery counters, and
    /// the uptime gauge.
    pub open spec fn spec_export(self, snap: TelemetrySnapshot) -> Seq<char> {
        let p = self.prefix@;
        let h = self.include_help;
        let t = self.include_type;
        counters_prefix(p, snap.counters@, snap.counters@.len() as int, h, t) + gauges_prefix(
            p,
            snap.gauges@,
            snap.gauges@.len() as int,
            h,
            t,
        ) + histograms_prefix(
            p,
            snap.operation_stats@,
            snap.operation_stats@.len() as int,
            h,
            t,
        ) + spec_counter_text(p, "sub_cache_hits"@, snap.metrics.sub_cache_hits, h, t)
            + spec_counter_text(p, "sub_cache_misses"@, snap.metrics.sub_cache_misses, h, t)
            + spec_counter_text(
            p,
            "index_cache_evictions"@,
            snap.metrics.index_cache_evictions,
            h,
            t,
        ) + spec_counter_text(
            p,
            "poison_recoveries_total"@,
            snap.metrics.poison_recoveries_total,
            h,
            t,
        ) + spec_gauge_text(p, "uptime_seconds"@, uptime_gauge(snap.uptime_secs), h, t)
    }

    /// Render one counter into a fresh string.
    fn counter_text(&self, name: &str, value: u64) -> (s: String)
        ensures
            s@ == spec_counter_text(
                self.prefix@,
                name@,
                value,
                self.include_help,
                self.include_type,
            ),
    {
        let mut metric = self.prefix.clone();
        metric.append("_");
        let sane = sanitize_name(name);
        metric.append(sane.as_str());
        let mut out = String::new();
        if self.include_help {
            let mut line = String::from_str("# HELP ");
            line.append(metric.as_str());
            line.append(" Counter metric\n");
            out.append(line.as_str());
            proof {
                assert(out@ =~= ("# HELP "@ + metric@ + " Counter metric\n"@));
            }
        } else {
            proof {
                assert(out@ =~= Seq::<char>::empty() + Seq::<char>::empty());
            }
        }
        if self.include_type {
            let mut line = String::from_str("# TYPE ");
            line.append(metric.as_str());
            line.append(" counter\n");
            out.append(line.as_str());
        }
        let mut tail = metric;
        tail.append(" ");
        let v = u64_string(value);
        tail.append(v.as_str());
        tail.append("\n");
        out.append(tail.as_str());
        proof {
            assert(out@ =~= spec_counter_text(
                self.prefix@,
                name@,
                value,
                self.include_help,
                self.include_type,
            ));
        }
        out
    }

    /// Render one gauge into a fresh string.
    fn gauge_text(&self, name: &str, value: MilliValue) -> (s: String)
        ensures
            s@ == spec_gauge_text(
                self.prefix@,
                name@,
                value,
                self.include_help,
                self.include_type,
            ),
    {
        let mut metric = self.prefix.clone();
        metric.append("_");
        let sane = sanitize_name(name);
        metric.append(sane.as_str());
        let mut out = String::new();
        if self.include_help {
            let mut line = String::from_str("# HELP ");
            line.append(metric.as_str());
            line.append(" Gauge metric\n");
            out.append(line.as_str());
        }
        if self.include_type {
            let mut line = String::from_str("# TYPE ");
            line.append(metric.as_str());
            line.append(" gauge\n");
            out.append(line.as_str());
        }
        let mut tail = metric;
        tail.append(" ");
        let v = milli_to_string_4(value);
        tail.append(v.as_str());
        tail.append("\n");
        out.append(tail.as_str());
        proof {
            assert(out@ =~= spec_gauge_text(
                self.prefix@,
                name@,
                value,
                self.include_help,
                self.include_type,
            ));
        }
        out
    }

    /// Render one operation histogram into a fresh string.
    #[verifier::rlimit(100)]
    #[verifier::spinoff_prover]
    fn histogram_text(&self, name: &str, stats: &OperationStats) -> (s: String)
        requires
            stats.wf(),
        ensures
            s@ == spec_histogram_text(
                self.prefix@,
                name@,
                *stats,
                self.include_help,
                self.include_type,
            ),
    {
        let mut metric = self.prefix.clone();
        metric.append("_");
        let sane = sanitize_name(name);
        metric.append(sane.as_str());
        metric.append("_duration_us");
        let mut out = String::new();
        if self.include_help {
            let mut line = String::from_str("# HELP ");
            line.append(metric.as_str());
            line.append(" Operation duration histogram\n");
            out.append(line.as_str());
        }
        if self.include_type {
            let mut line = String::from_str("# TYPE ");
            line.append(metric.as_str());
            line.append(" histogram\n");
            out.append(line.as_str());
        }
        let mut cum: u64 = 0;
        let b1 = stats.count_below(100);
        cum = cum + b1;
        let l1 = bucket_line(&metric, 100, cum);
        out.append(l1.as_str());
        let b2 = stats.count_below(500);
        cum = cum + b2;
        let l2 = bucket_line(&metric, 500, cum);
        out.append(l2.as_str());
        let b3 = stats.count_below(1000);
        cum = cum + b3;
        let l3 = bucket_line(&metric, 1000, cum);
        out.append(l3.as_str());
        let b4 = stats.count_below(5000);
        cum = cum + b4;
        let l4 = bucket_line(&metric, 5000, cum);
        out.append(l4.as_str());
        let b5 = stats.count_below(10000);
        cum = cum + b5;
        let l5 = bucket_line(&metric, 10000, cum);
        out.append(l5.as_str());
        let b6 = stats.count_below(50000);
        cum = cum + b6;
        let l6 = bucket_line(&metric, 50000, cum);
        out.append(l6.as_str());
        let b7 = stats.count_below(100000);
        cum = cum + b7;
        let l7 = bucket_line(&metric, 100000, cum);
        out.append(l7.as_str());
        let mut inf = metric.clone();
        inf.append("_bucket{le=\"+Inf\"} ");
        let cinf = u64_string(stats.count);
        inf.append(cinf.as_str());
        inf.append("\n");
        out.append(inf.as_str());
        let mut sum_line = metric.clone();
        sum_line.append("_sum ");
        let tv = u64_string(stats.total_us);
        sum_line.append(tv.as_str());
        sum_line.append("\n");
        out.append(sum_line.as_str());
        let mut count_line = metric;
        count_line.append("_count ");
        let cv = u64_string(stats.count);
        count_line.append(cv.as_str());
        count_line.append("\n");
        out.append(count_line.as_str());
        proof {
            assert(out@ =~= spec_histogram_text(
                self.prefix@,
                name@,
                *stats,
                self.include_help,
                self.include_type,
            ));
        }
        out
    }

    /// Export a snapshot to the Prometheus text format.
    pub fn export(&self, snapshot: &TelemetrySnapshot) -> (s: String)
        requires
            snapshot.wf(),
        ensures
            s@ == self.spec_export(*snapshot),
    {
        let mut out = String::new();
        let mut i: usize = 0;
        proof {
            assert(out@ =~= Seq::<char>::empty());
        }
        while i < snapshot.counters.len()
            invariant
                0 <= i <= snapshot.counters@.len(),
                out@ == counters_prefix(
                    self.prefix@,
                    snapshot.counters@,
                    i as int,
                    self.include_help,
                    self.include_type,
                ),
            decreases snapshot.counters@.len() - i,
        {
            let line = self.counter_text(snapshot.counters[i].0.as_str(), snapshot.counters[i].1);
            out.append(line.as_str());
            i = i + 1;
        }
        let ghost counters_done = out@;
        let mut g = String::new();
        let mut j: usize = 0;
        while j < snapshot.gauges.len()
            invariant
                0 <= j <= snapshot.gauges@.len(),
                g@ == gauges_prefix(
                    self.prefix@,
                    snapshot.gauges@,
                    j as int,
                    self.include_help,
                    self.include_type,
                ),
            decreases snapshot.gauges@.len() - j,
        {
            let line = self.gauge_text(snapshot.gauges[j].0.as_str(), snapshot.gauges[j].1);
            g.append(line.as_str());
            j = j + 1;
        }
        out.append(g.as_str());
        let mut hist = String::new();
        let mut q: usize = 0;
        while q < snapshot.operation_stats.len()
            invariant
                0 <= q <= snapshot.operation_stats@.len(),
                snapshot.wf(),
                hist@ == histograms_prefix(
                    self.prefix@,
                    snapshot.operation_stats@,
                    q as int,
                    self.include_help,
                    self.include_type,
                ),
            decreases snapshot.operation_stats@.len() - q,
        {
            let line = self.histogram_text(
                snapshot.operation_stats[q].0.as_str(),
                &snapshot.operation_stats[q].1,
            );
            hist.append(line.as_str());
            q = q + 1;
        }
        out.append(hist.as_str());
        let c1 = self.counter_text("sub_cache_hits", snapshot.metrics.sub_cache_hits);
        out.append(c1.as_str());
        let c2 = self.counter_text("sub_cache_misses", snapshot.metrics.sub_cache_misses);
        out.append(c2.as_str());
        let c3 = self.counter_text("index_cache_evictions", snapshot.metrics.index_cache_evictions);
        out.append(c3.as_str());
        let c4 = self.counter_text(
            "poison_recoveries_total",
            snapshot.metrics.poison_recoveries_total,
        );
        out.append(c4.as_str());
        let up = uptime_gauge_value(snapshot.uptime_secs);
        let g1 = self.gauge_text("uptime_seconds", up);
        out.append(g1.as_str());
        proof {
            assert(out@ == self.spec_export(*snapshot));
        }
        out
    }
}

impl Default for PrometheusExporter {
    /// An exporter under the default metric prefix.
    fn default() -> (r: Self)
        ensures
            r.prefix@ == "embeddenator"@,
            r.include_help,
            r.include_type,
    {
        PrometheusExporter::new("embeddenator")
    }
}

/// The uptime reading as a gauge value, clamped to the representable
/// range.
pub open spec fn uptime_gauge(secs: u64) -> MilliValue {
    MilliValue {
        thousandths: if secs as nat * 1000 > i64::MAX {
            i64::MAX
        } else {
            (secs * 1000) as i64
        },
    }
}

/// Compute the uptime gauge value.
fn uptime_gauge_value(secs: u64) -> (r: MilliValue)
    ensures
        r == uptime_gauge(secs),
{
    if secs > (i64::MAX / 1000) as u64 {
        proof {
            assert((secs as nat) * 1000 > i64::MAX) by (nonlinear_arith)
                requires
                    secs > (i64::MAX / 1000) as u64,
            ;
        }
        MilliValue { thousandths: i64::MAX }
    } else {
        proof {
            assert((secs as nat) * 1000 <= i64::MAX) by (nonlinear_arith)
                requires
                    secs <= (i64::MAX / 1000) as u64,
            ;
        }
        MilliValue { thousandths: (secs * 1000) as i64 }
    }
}

/// One histogram bucket line.
fn bucket_line(metric: &String, bound: u64, cum: u64) -> (s: String)
    ensures
        s@ == spec_bucket_line(metric@, bound, cum as nat),
{
    let mut line = metric.clone();
    line.append("_bucket{le=\"");
    let b = u64_string(bound);
    line.append(b.as_str());
    line.append("\"} ");
    let c = u64_string(cum);
    line.append(c.as_str());
    line.append("\n");
    line
}

} // verus!
