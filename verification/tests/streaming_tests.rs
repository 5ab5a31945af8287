//! Metric dispatch, rate limiting and threshold alerting.

use embeddenator_obs::{MetricEvent, MetricStream, MetricSubscriber, MilliValue};
use std::sync::atomic::{AtomicU64, Ordering};
use std::sync::{Arc, Mutex};
use std::time::{Duration, Instant};

fn busy_wait(d: Duration) {
    let start = Instant::now();
    while start.elapsed() < d {
        std::hint::spin_loop();
    }
}

struct CountingSub {
    counters: Arc<AtomicU64>,
    only: Option<fn(&MetricEvent) -> bool>,
}

impl MetricSubscriber for CountingSub {
    fn handle(&mut self, event: &MetricEvent) {
        match self.only {
            Some(f) => {
                if f(event) {
                    self.counters.fetch_add(1, Ordering::Relaxed);
                }
            },
            None => {
                self.counters.fetch_add(1, Ordering::Relaxed);
            },
        }
    }
}

struct RecordingSub {
    events: Arc<Mutex<Vec<MetricEvent>>>,
}

impl MetricSubscriber for RecordingSub {
    fn handle(&mut self, event: &MetricEvent) {
        self.events.lock().unwrap().push(event.clone());
    }
}

fn is_counter(event: &MetricEvent) -> bool {
    matches!(event, MetricEvent::Counter(_, _))
}

fn is_threshold(event: &MetricEvent) -> bool {
    matches!(event, MetricEvent::ThresholdExceeded(_, _, _))
}

#[test]
fn test_subscribe_and_publish() {
    let mut stream = MetricStream::new();
    let counter = Arc::new(AtomicU64::new(0));

    stream.subscribe(CountingSub { counters: counter.clone(), only: Some(is_counter) });

    stream.publish_counter("test", 42);

    assert_eq!(counter.load(Ordering::Relaxed), 1);
}

#[test]
fn test_multiple_subscribers() {
    let mut stream = MetricStream::new();
    let count1 = Arc::new(AtomicU64::new(0));
    let count2 = Arc::new(AtomicU64::new(0));

    stream.subscribe(CountingSub { counters: count1.clone(), only: None });
    stream.subscribe(CountingSub { counters: count2.clone(), only: None });

    stream.publish_counter("test", 1);

    assert_eq!(count1.load(Ordering::Relaxed), 1);
    assert_eq!(count2.load(Ordering::Relaxed), 1);
}

#[test]
fn test_threshold_alert() {
    let mut stream = MetricStream::new();
    stream.add_threshold_alert("cpu", MilliValue::from_thousandths(80_000), true);

    let alerted = Arc::new(AtomicU64::new(0));
    stream.subscribe(CountingSub { counters: alerted.clone(), only: Some(is_threshold) });

    stream.publish_gauge("cpu_usage", MilliValue::from_thousandths(50_000));
    assert_eq!(alerted.load(Ordering::Relaxed), 0);

    // Let the rate-limit window (default 100 ms) pass.
    busy_wait(Duration::from_millis(110));

    stream.publish_gauge("cpu_usage", MilliValue::from_thousandths(85_000));
    assert_eq!(alerted.load(Ordering::Relaxed), 1);
}

#[test]
fn test_threshold_alert_below_direction() {
    let mut stream = MetricStream::with_rate_limit(0);
    stream.add_threshold_alert("disk", MilliValue::from_thousandths(10_000), false);

    let alerted = Arc::new(AtomicU64::new(0));
    stream.subscribe(CountingSub { counters: alerted.clone(), only: Some(is_threshold) });

    stream.publish_gauge("disk_free", MilliValue::from_thousandths(50_000));
    assert_eq!(alerted.load(Ordering::Relaxed), 0);
    stream.publish_gauge("disk_free", MilliValue::from_thousandths(5_000));
    assert_eq!(alerted.load(Ordering::Relaxed), 1);
}

#[test]
fn test_rate_limiting() {
    let mut stream = MetricStream::with_rate_limit(50);
    let count = Arc::new(AtomicU64::new(0));

    stream.subscribe(CountingSub { counters: count.clone(), only: None });

    for _ in 0..10 {
        stream.publish_counter("test", 1);
    }

    assert!(count.load(Ordering::Relaxed) < 10);
}

#[test]
fn test_rate_limit_distinct_names() {
    let mut stream = MetricStream::with_rate_limit(1000);
    let count = Arc::new(AtomicU64::new(0));
    stream.subscribe(CountingSub { counters: count.clone(), only: None });
    stream.publish_counter("alpha", 1);
    stream.publish_counter("beta", 1);
    // Rate limiting is per name: different names pass independently.
    assert_eq!(count.load(Ordering::Relaxed), 2);
}

#[test]
fn test_subscriber_count() {
    let mut stream: MetricStream<CountingSub> = MetricStream::new();
    assert_eq!(stream.subscriber_count(), 0);

    stream.subscribe(CountingSub { counters: Arc::new(AtomicU64::new(0)), only: None });
    assert_eq!(stream.subscriber_count(), 1);

    stream.subscribe(CountingSub { counters: Arc::new(AtomicU64::new(0)), only: None });
    assert_eq!(stream.subscriber_count(), 2);

    stream.clear_subscribers();
    assert_eq!(stream.subscriber_count(), 0);
}

#[test]
fn test_gauge_and_timing() {
    let mut stream = MetricStream::new();
    let events = Arc::new(Mutex::new(Vec::new()));

    stream.subscribe(RecordingSub { events: events.clone() });

    stream.publish_gauge("memory", MilliValue::from_thousandths(1_024_500));
    stream.publish_timing("query", 1500);

    let recorded = events.lock().unwrap();
    assert_eq!(recorded.len(), 2);
}
