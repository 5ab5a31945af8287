//! Real-time metric dispatch: fan-out of metric events to subscribers,
//! with per-name rate limiting and first-match threshold alerting.
//!
//! The stream carries a ghost log of every event it has dispatched, in
//! order; each publish operation says exactly what the log gains.  A
//! subscriber is any type implementing [`MetricSubscriber`]; subscribers
//! must not publish back into the stream they observe.

use crate::clock;
use crate::fixed::MilliValue;
use crate::kv::{distinct_keys, find_key, lemma_key_index_at, lemma_key_index_bounds, lemma_key_index_push, lemma_key_index_same_keys, spec_get, spec_key_index};
use crate::text::{contains_seq, str_contains};
use vstd::prelude::*;
use vstd::string::*;

verus! {

/// One metric event.
#[derive(Debug, Clone, PartialEq)]
pub enum MetricEvent {
    /// Counter reading: name and value.
    Counter(String, u64),
    /// Gauge reading: name and value.
    Gauge(String, MilliValue),
    /// Timing reading: name and duration in microseconds.
    Timing(String, u64),
    /// A gauge crossed a threshold: name, value and the threshold.
    ThresholdExceeded(String, MilliValue, MilliValue),
}

/// The event is a counter reading for `name` with `value`.
pub open spec fn is_counter_event(e: MetricEvent, name: Seq<char>, value: u64) -> bool {
    e matches MetricEvent::Counter(n, v) && n@ == name && v == value
}

/// The event is a gauge reading for `name` with `value`.
pub open spec fn is_gauge_event(e: MetricEvent, name: Seq<char>, value: MilliValue) -> bool {
    e matches MetricEvent::Gauge(n, v) && n@ == name && v == value
}

/// The event is a timing reading for `name` with `duration_us`.
pub open spec fn is_timing_event(e: MetricEvent, name: Seq<char>, duration_us: u64) -> bool {
    e matches MetricEvent::Timing(n, v) && n@ == name && v == duration_us
}

/// The event reports `name`'s `value` crossing `threshold`.
pub open spec fn is_threshold_event(
    e: MetricEvent,
    name: Seq<char>,
    value: MilliValue,
    threshold: MilliValue,
) -> bool {
    e matches MetricEvent::ThresholdExceeded(n, v, t) && n@ == name && v == value && t
        == threshold
}

/// Threshold-based alert rule.
#[derive(Debug, Clone)]
pub struct ThresholdAlert {
    /// Pattern; the alert applies to metric names containing it.
    pub metric_pattern: String,
    /// Threshold value.
    pub threshold: MilliValue,
    /// Alert when above (true) or below (false) the threshold.
    pub above: bool,
}

/// The alert applies to this reading: its pattern occurs in the name and
/// the value lies beyond the threshold in the alert's direction.
pub open spec fn alert_fires(a: ThresholdAlert, name: Seq<char>, value: MilliValue) -> bool {
    contains_seq(name, a.metric_pattern@) && if a.above {
        value.thousandths > a.threshold.thousandths
    } else {
        value.thousandths < a.threshold.thousandths
    }
}

/// First alert that fires for this reading, if any: evaluation stops at
/// the first match.
pub open spec fn first_alert(
    alerts: Seq<ThresholdAlert>,
    name: Seq<char>,
    value: MilliValue,
) -> Option<int>
    decreases alerts.len(),
{
    if alerts.len() == 0 {
        None
    } else if alert_fires(alerts[0], name, value) {
        Some(0int)
    } else {
        match first_alert(alerts.drop_first(), name, value) {
            Some(i) => Some(i + 1),
            None => None,
        }
    }
}

proof fn lemma_first_alert_absent(alerts: Seq<ThresholdAlert>, name: Seq<char>, value: MilliValue)
    requires
        forall|j: int| 0 <= j < alerts.len() ==> !alert_fires(#[trigger] alerts[j], name, value),
    ensures
        first_alert(alerts, name, value) is None,
    decreases alerts.len(),
{
    if alerts.len() > 0 {
        let d = alerts.drop_first();
        assert(forall|j: int| 0 <= j < d.len() ==> !alert_fires(#[trigger] d[j], name, value));
        lemma_first_alert_absent(d, name, value);
    }
}

proof fn lemma_first_alert_at(
    alerts: Seq<ThresholdAlert>,
    name: Seq<char>,
    value: MilliValue,
    i: int,
)
    requires
        0 <= i < alerts.len(),
        alert_fires(alerts[i], name, value),
        forall|j: int| 0 <= j < i ==> !alert_fires(#[trigger] alerts[j], name, value),
    ensures
        first_alert(alerts, name, value) == Some(i),
    decreases alerts.len(),
{
    if i > 0 {
        let d = alerts.drop_first();
        assert(d[i - 1] == alerts[i]);
        assert(forall|j: int| 0 <= j < i - 1 ==> !alert_fires(#[trigger] d[j], name, value));
        lemma_first_alert_at(d, name, value, i - 1);
    }
}

/// A subscriber: anything that can handle a metric event.  Handlers run
/// on the publishing caller's thread and must not publish back into the
/// stream they observe.
pub trait MetricSubscriber {
    /// Receive one event.
    fn handle(&mut self, event: &MetricEvent);
}

/// Per-name rate limiter: a name may emit only when at least the minimum
/// interval has passed since its last emission.
pub struct RateLimiter {
    last_emit: Vec<(String, u64)>,
    min_interval_ms: u64,
}

/// The limiter admits an emission for `key` at `now`: either the key has
/// never emitted, or at least `interval` milliseconds have passed.
pub open spec fn admits(
    entries: Seq<(String, u64)>,
    interval: u64,
    key: Seq<char>,
    now: u64,
) -> bool {
    match spec_get(entries, key) {
        Some(last) => now >= last + interval,
        None => true,
    }
}

impl RateLimiter {
    /// The recorded last-emission readings.
    pub closed spec fn entries(self) -> Seq<(String, u64)> {
        self.last_emit@
    }

    /// The minimum interval between emissions of one name.
    pub closed spec fn interval(self) -> u64 {
        self.min_interval_ms
    }

    /// The recorded names are unique.
    pub open spec fn wf(self) -> bool {
        distinct_keys(self.entries())
    }

    /// Fresh limiter with the given minimum interval in milliseconds.
    pub fn new(min_interval_ms: u64) -> (r: Self)
        ensures
            r.wf(),
            r.entries().len() == 0,
            r.interval() == min_interval_ms,
    {
        RateLimiter { last_emit: Vec::new(), min_interval_ms }
    }

    /// Decide whether `key` may emit at `now`, and if so record the
    /// emission.  A denied key's recorded time does not move.
    pub fn should_emit(&mut self, key: &str, now_ms: u64) -> (b: bool)
        requires
            old(self).wf(),
        ensures
            final(self).wf(),
            final(self).interval() == old(self).interval(),
            b == admits(old(self).entries(), old(self).interval(), key@, now_ms),
            b ==> spec_get(final(self).entries(), key@) == Some(now_ms) && (forall|k: Seq<char>|
                k != key@ ==> #[trigger] spec_get(final(self).entries(), k) == spec_get(
                    old(self).entries(),
                    k,
                )),
            !b ==> final(self).entries() == old(self).entries(),
    {
        let k = key.to_owned();
        let ghost s_old = self.last_emit@;
        match find_key(&self.last_emit, &k) {
            Some(i) => {
                proof {
                    lemma_key_index_bounds(s_old, k@);
                }
                let last = self.last_emit[i].1;
                if now_ms < last || now_ms - last < self.min_interval_ms {
                    return false;
                }
                self.last_emit[i] = (k, now_ms);
                proof {
                    let s_new = self.last_emit@;
                    assert(forall|j: int|
                        0 <= j < s_old.len() ==> (#[trigger] s_new[j]).0@ == (
                        #[trigger] s_old[j]).0@);
                    assert forall|kk: Seq<char>| true implies #[trigger] spec_key_index(
                        s_new,
                        kk,
                    ) == spec_key_index(s_old, kk) by {
                        lemma_key_index_same_keys(s_old, s_new, kk);
                    }
                    assert(distinct_keys(s_new));
                    assert forall|kk: Seq<char>| kk != key@ implies #[trigger] spec_get(
                        s_new,
                        kk,
                    ) == spec_get(s_old, kk) by {
                        if spec_key_index(s_old, kk) is Some {
                            let j = spec_key_index(s_old, kk)->0;
                            lemma_key_index_bounds(s_old, kk);
                            assert(s_new[j] == s_old[j]);
                        }
                    }
                }
                true
            },
            None => {
                self.last_emit.push((k, now_ms));
                proof {
                    let s_new = self.last_emit@;
                    let e = s_new.last();
                    assert(s_new =~= s_old.push(e));
                    lemma_key_index_push(s_old, key@, e);
                    assert forall|kk: Seq<char>| kk != key@ implies #[trigger] spec_get(
                        s_new,
                        kk,
                    ) == spec_get(s_old, kk) by {
                        lemma_key_index_push(s_old, kk, e);
                        if spec_key_index(s_old, kk) is Some {
                            lemma_key_index_bounds(s_old, kk);
                        }
                    }
                    assert forall|a: int, b: int|
                        0 <= a < b < s_new.len() implies (#[trigger] s_new[a]).0@ != (
                        #[trigger] s_new[b]).0@ by {
                        if b == s_new.len() - 1 {
                            if s_new[a].0@ == key@ {
                                lemma_key_index_at(s_old, key@, a);
                            }
                        }
                    }
                }
                true
            },
        }
    }
}

/// Once an emission for a name goes through at `t1`, every attempt for
/// the same name before `t1 + interval` is denied.
pub proof fn lemma_rate_limit_window(
    entries: Seq<(String, u64)>,
    interval: u64,
    key: Seq<char>,
    t1: u64,
    t2: u64,
)
    requires
        spec_get(entries, key) == Some(t1),
        t2 < t1 + interval,
    ensures
        !admits(entries, interval, key, t2),
{
}

/// Real-time metric stream: ordered subscribers, threshold alert rules,
/// and a per-name rate limiter.
pub struct MetricStream<S: MetricSubscriber> {
    subscribers: Vec<S>,
    thresholds: Vec<ThresholdAlert>,
    limiter: RateLimiter,
    origin: std::time::Instant,
    history: Ghost<Seq<MetricEvent>>,
}

/// What publishing a rate-limited event does: either the limiter admits
/// the name at the reading taken, the event joins the log and the
/// limiter records the reading, or everything stays as it was.
pub open spec fn publish_step(
    l_old: Seq<(String, u64)>,
    l_new: Seq<(String, u64)>,
    d_old: Seq<MetricEvent>,
    d_new: Seq<MetricEvent>,
    interval: u64,
    name: Seq<char>,
    now: u64,
) -> bool {
    if admits(l_old, interval, name, now) {
        &&& spec_get(l_new, name) == Some(now)
        &&& forall|k: Seq<char>| k != name ==> #[trigger] spec_get(l_new, k) == spec_get(l_old, k)
    } else {
        l_new == l_old && d_new == d_old
    }
}

impl<S: MetricSubscriber> MetricStream<S> {
    /// Number of subscribers.
    pub closed spec fn spec_subscriber_count(self) -> nat {
        self.subscribers@.len()
    }

    /// The registered alert rules, in registration order.
    pub closed spec fn spec_thresholds(self) -> Seq<ThresholdAlert> {
        self.thresholds@
    }

    /// The rate limiter's recorded readings.
    pub closed spec fn limiter_entries(self) -> Seq<(String, u64)> {
        self.limiter.entries()
    }

    /// The minimum interval between emissions of one name, milliseconds.
    pub closed spec fn interval_ms(self) -> u64 {
        self.limiter.interval()
    }

    /// Every event dispatched so far, in dispatch order.
    pub closed spec fn dispatched(self) -> Seq<MetricEvent> {
        self.history@
    }

    /// The limiter's names are unique.
    pub closed spec fn wf(self) -> bool {
        self.limiter.wf()
    }

    /// New stream with the default minimum interval of 100 milliseconds.
    pub fn new() -> (r: Self)
        ensures
            r.wf(),
            r.spec_subscriber_count() == 0,
            r.spec_thresholds().len() == 0,
            r.limiter_entries().len() == 0,
            r.interval_ms() == 100,
            r.dispatched().len() == 0,
    {
        MetricStream {
            subscribers: Vec::new(),
            thresholds: Vec::new(),
            limiter: RateLimiter::new(100),
            origin: clock::instant_now(),
            history: Ghost(Seq::empty()),
        }
    }

    /// New stream with a custom minimum interval in milliseconds.
    pub fn with_rate_limit(min_interval_ms: u64) -> (r: Self)
        ensures
            r.wf(),
            r.spec_subscriber_count() == 0,
            r.spec_thresholds().len() == 0,
            r.limiter_entries().len() == 0,
            r.interval_ms() == min_interval_ms,
            r.dispatched().len() == 0,
    {
        MetricStream {
            subscribers: Vec::new(),
            thresholds: Vec::new(),
            limiter: RateLimiter::new(min_interval_ms),
            origin: clock::instant_now(),
            history: Ghost(Seq::empty()),
        }
    }

    /// Register a subscriber; it receives every event dispatched after
    /// registration, in registration order.
    pub fn subscribe(&mut self, subscriber: S)
        ensures
            final(self).wf() == old(self).wf(),
            final(self).spec_subscriber_count() == old(self).spec_subscriber_count() + 1,
            final(self).spec_thresholds() == old(self).spec_thresholds(),
            final(self).limiter_entries() == old(self).limiter_entries(),
            final(self).interval_ms() == old(self).interval_ms(),
            final(self).dispatched() == old(self).dispatched(),
    {
        self.subscribers.push(subscriber);
    }

    /// Register a threshold alert rule at the end of the evaluation order.
    pub fn add_threshold_alert(&mut self, metric: &str, threshold: MilliValue, above: bool)
        ensures
            final(self).wf() == old(self).wf(),
            final(self).spec_thresholds().len() == old(self).spec_thresholds().len() + 1,
            final(self).spec_thresholds().drop_last() == old(self).spec_thresholds(),
            final(self).spec_thresholds().last().metric_pattern@ == metric@,
            final(self).spec_thresholds().last().threshold == threshold,
            final(self).spec_thresholds().last().above == above,
            final(self).spec_subscriber_count() == old(self).spec_subscriber_count(),
            final(self).limiter_entries() == old(self).limiter_entries(),
            final(self).interval_ms() == old(self).interval_ms(),
            final(self).dispatched() == old(self).dispatched(),
    {
        self.thresholds.push(
            ThresholdAlert { metric_pattern: metric.to_owned(), threshold, above },
        );
        proof {
            assert(self.thresholds@.drop_last() =~= old(self).thresholds@);
        }
    }

    /// Hand one event to every subscriber in registration order, and log
    /// it.
    fn emit(&mut self, event: &MetricEvent)
        ensures
            final(self).dispatched() == old(self).dispatched().push(*event),
            final(self).spec_subscriber_count() == old(self).spec_subscriber_count(),
            final(self).spec_thresholds() == old(self).spec_thresholds(),
            final(self).limiter == old(self).limiter,
    {
        let n = self.subscribers.len();
        let mut i: usize = 0;
        while i < n
            invariant
                i <= n,
                self.subscribers@.len() == n,
                self.thresholds == old(self).thresholds,
                self.limiter == old(self).limiter,
                self.history == old(self).history,
            decreases n - i,
        {
            let mut sub = self.subscribers.remove(i);
            sub.handle(event);
            self.subscribers.insert(i, sub);
            i = i + 1;
        }
        self.history = Ghost(self.history@.push(*event));
    }

    /// The current reading of the stream's clock, in milliseconds since
    /// the stream was created.
    fn now_ms(&self) -> u64 {
        clock::nanos_since(&self.origin) / 1_000_000
    }

    /// Publish a counter reading.  The rate limiter is consulted first:
    /// within the minimum interval of the last emission for this exact
    /// name the publish is silently dropped; otherwise the event goes to
    /// every subscriber.
    pub fn publish_counter(&mut self, name: &str, value: u64)
        requires
            old(self).wf(),
        ensures
            final(self).wf(),
            final(self).spec_subscriber_count() == old(self).spec_subscriber_count(),
            final(self).spec_thresholds() == old(self).spec_thresholds(),
            final(self).interval_ms() == old(self).interval_ms(),
            exists|now: u64|
                {
                    &&& #[trigger] publish_step(
                        old(self).limiter_entries(),
                        final(self).limiter_entries(),
                        old(self).dispatched(),
                        final(self).dispatched(),
                        old(self).interval_ms(),
                        name@,
                        now,
                    )
                    &&& (admits(old(self).limiter_entries(), old(self).interval_ms(), name@, now)
                        ==> final(self).dispatched().len() == old(self).dispatched().len() + 1
                        && final(self).dispatched().drop_last() == old(self).dispatched()
                        && is_counter_event(final(self).dispatched().last(), name@, value))
                    &&& (!admits(old(self).limiter_entries(), old(self).interval_ms(), name@, now)
                        ==> final(self).dispatched() == old(self).dispatched())
                },
    {
        let now = self.now_ms();
        if !self.limiter.should_emit(name, now) {
            proof {
                assert(publish_step(
                    old(self).limiter_entries(),
                    self.limiter_entries(),
                    old(self).dispatched(),
                    self.dispatched(),
                    old(self).interval_ms(),
                    name@,
                    now,
                ));
            }
            return;
        }
        let event = MetricEvent::Counter(name.to_owned(), value);
        self.emit(&event);
        proof {
            assert(self.dispatched().last() == event);
            assert(self.dispatched().drop_last() =~= old(self).dispatched());
            assert(publish_step(
                old(self).limiter_entries(),
                self.limiter_entries(),
                old(self).dispatched(),
                self.dispatched(),
                old(self).interval_ms(),
                name@,
                now,
            ));
        }
    }

    /// Publish a timing reading, rate limited like a counter.
    pub fn publish_timing(&mut self, name: &str, duration_us: u64)
        requires
            old(self).wf(),
        ensures
            final(self).wf(),
            final(self).spec_subscriber_count() == old(self).spec_subscriber_count(),
            final(self).spec_thresholds() == old(self).spec_thresholds(),
            final(self).interval_ms() == old(self).interval_ms(),
            exists|now: u64|
                {
                    &&& #[trigger] publish_step(
                        old(self).limiter_entries(),
                        final(self).limiter_entries(),
                        old(self).dispatched(),
                        final(self).dispatched(),
                        old(self).interval_ms(),
                        name@,
                        now,
                    )
                    &&& (admits(old(self).limiter_entries(), old(self).interval_ms(), name@, now)
                        ==> final(self).dispatched().len() == old(self).dispatched().len() + 1
                        && final(self).dispatched().drop_last() == old(self).dispatched()
                        && is_timing_event(final(self).dispatched().last(), name@, duration_us))
                    &&& (!admits(old(self).limiter_entries(), old(self).interval_ms(), name@, now)
                        ==> final(self).dispatched() == old(self).dispatched())
                },
    {
        let now = self.now_ms();
        if !self.limiter.should_emit(name, now) {
            proof {
                assert(publish_step(
                    old(self).limiter_entries(),
                    self.limiter_entries(),
                    old(self).dispatched(),
                    self.dispatched(),
                    old(self).interval_ms(),
                    name@,
                    now,
                ));
            }
            return;
        }
        let event = MetricEvent::Timing(name.to_owned(), duration_us);
        self.emit(&event);
        proof {
            assert(self.dispatched().last() == event);
            assert(self.dispatched().drop_last() =~= old(self).dispatched());
            assert(publish_step(
                old(self).limiter_entries(),
                self.limiter_entries(),
                old(self).dispatched(),
                self.dispatched(),
                old(self).interval_ms(),
                name@,
                now,
            ));
        }
    }

    /// Publish a gauge reading.  After the rate limiter admits it and the
    /// gauge event is dispatched, the alert rules are evaluated in
    /// registration order against this name and value; the first rule
    /// that fires dispatches one `ThresholdExceeded` event, and evaluation
    /// stops there.  A reading on the safe side of every applicable
    /// threshold dispatches no alert.
    pub fn publish_gauge(&mut self, name: &str, value: MilliValue)
        requires
            old(self).wf(),
        ensures
            final(self).wf(),
            final(self).spec_subscriber_count() == old(self).spec_subscriber_count(),
            final(self).spec_thresholds() == old(self).spec_thresholds(),
            final(self).interval_ms() == old(self).interval_ms(),
            exists|now: u64|
                {
                    &&& #[trigger] publish_step(
                        old(self).limiter_entries(),
                        final(self).limiter_entries(),
                        old(self).dispatched(),
                        final(self).dispatched(),
                        old(self).interval_ms(),
                        name@,
                        now,
                    )
                    &&& (admits(old(self).limiter_entries(), old(self).interval_ms(), name@, now)
                        ==> gauge_dispatch(
                        old(self).dispatched(),
                        final(self).dispatched(),
                        old(self).spec_thresholds(),
                        name@,
                        value,
                    ))
                    &&& (!admits(old(self).limiter_entries(), old(self).interval_ms(), name@, now)
                        ==> final(self).dispatched() == old(self).dispatched())
                },
    {
        let now = self.now_ms();
        if !self.limiter.should_emit(name, now) {
            proof {
                assert(publish_step(
                    old(self).limiter_entries(),
                    self.limiter_entries(),
                    old(self).dispatched(),
                    self.dispatched(),
                    old(self).interval_ms(),
                    name@,
                    now,
                ));
            }
            return;
        }
        let event = MetricEvent::Gauge(name.to_owned(), value);
        self.emit(&event);
        let ghost d_mid = self.dispatched();
        proof {
            assert(self.dispatched().last() == event);
            assert(self.dispatched().drop_last() =~= old(self).dispatched());
        }
        // First-match threshold evaluation; the alert list is read before
        // the alert event is dispatched.
        let mut fired: Option<MilliValue> = None;
        let m = self.thresholds.len();
        let mut i: usize = 0;
        while i < m && fired.is_none()
            invariant
                i <= m,
                self.thresholds@.len() == m,
                fired is None ==> forall|j: int|
                    0 <= j < i ==> !alert_fires(#[trigger] self.thresholds@[j], name@, value),
                fired matches Some(t) ==> (first_alert(self.thresholds@, name@, value)
                    matches Some(fi) && self.thresholds@[fi].threshold == t),
            decreases m - i,
        {
            let pattern_hit = str_contains(name, self.thresholds[i].metric_pattern.as_str());
            let beyond = if self.thresholds[i].above {
                value.gt(&self.thresholds[i].threshold)
            } else {
                value.lt(&self.thresholds[i].threshold)
            };
            if pattern_hit && beyond {
                fired = Some(self.thresholds[i].threshold);
                proof {
                    lemma_first_alert_at(self.thresholds@, name@, value, i as int);
                }
            }
            i = i + 1;
        }
        proof {
            if fired is None {
                lemma_first_alert_absent(self.thresholds@, name@, value);
            }
        }
        match fired {
            Some(threshold) => {
                let alert_event = MetricEvent::ThresholdExceeded(name.to_owned(), value, threshold);
                self.emit(&alert_event);
                proof {
                    assert(self.dispatched().last() == alert_event);
                    assert(self.dispatched().drop_last() =~= d_mid);
                }
            },
            None => {},
        }
        proof {
            assert(publish_step(
                old(self).limiter_entries(),
                self.limiter_entries(),
                old(self).dispatched(),
                self.dispatched(),
                old(self).interval_ms(),
                name@,
                now,
            ));
            assert(gauge_dispatch(
                old(self).dispatched(),
                self.dispatched(),
                old(self).spec_thresholds(),
                name@,
                value,
            ));
        }
    }

    /// Number of registered subscribers.
    pub fn subscriber_count(&self) -> (n: usize)
        ensures
            n == self.spec_subscriber_count(),
    {
        self.subscribers.len()
    }

    /// Remove every subscriber.
    pub fn clear_subscribers(&mut self)
        ensures
            final(self).wf() == old(self).wf(),
            final(self).spec_subscriber_count() == 0,
            final(self).spec_thresholds() == old(self).spec_thresholds(),
            final(self).limiter_entries() == old(self).limiter_entries(),
            final(self).interval_ms() == old(self).interval_ms(),
            final(self).dispatched() == old(self).dispatched(),
    {
        self.subscribers.clear();
    }
}

impl<S: MetricSubscriber> Default for MetricStream<S> {
    /// A stream with the default minimum interval.
    fn default() -> (r: Self)
        ensures
            r.wf(),
            r.spec_subscriber_count() == 0,
            r.spec_thresholds().len() == 0,
            r.limiter_entries().len() == 0,
            r.interval_ms() == 100,
            r.dispatched().len() == 0,
    {
        MetricStream::new()
    }
}

/// What an admitted gauge publish dispatches: the gauge event itself,
/// then one threshold event exactly when some alert fires, the first such
/// alert supplying the threshold.
pub open spec fn gauge_dispatch(
    d_old: Seq<MetricEvent>,
    d_new: Seq<MetricEvent>,
    alerts: Seq<ThresholdAlert>,
    name: Seq<char>,
    value: MilliValue,
) -> bool {
    match first_alert(alerts, name, value) {
        Some(i) => {
            &&& d_new.len() == d_old.len() + 2
            &&& d_new.drop_last().drop_last() == d_old
            &&& is_gauge_event(d_new[d_new.len() - 2], name, value)
            &&& is_threshold_event(d_new.last(), name, value, alerts[i].threshold)
        },
        None => {
            &&& d_new.len() == d_old.len() + 1
            &&& d_new.drop_last() == d_old
            &&& is_gauge_event(d_new.last(), name, value)
        },
    }
}

} // verus!
