//! The benchmark metrics collector.

use embeddenator_obs::{MilliValue, TestMetrics, TimingStats};
use std::time::{Duration, Instant};

fn busy_wait(d: Duration) {
    let start = Instant::now();
    while start.elapsed() < d {
        std::hint::spin_loop();
    }
}

fn op_count(metrics: &TestMetrics, category: &str) -> Option<u64> {
    metrics
        .op_counts
        .iter()
        .find(|(k, _)| k == category)
        .map(|(_, v)| *v)
}

fn custom_metric(metrics: &TestMetrics, name: &str) -> Option<MilliValue> {
    metrics
        .custom_metrics
        .iter()
        .find(|(k, _)| k == name)
        .map(|(_, v)| *v)
}

#[test]
fn test_basic_timing() {
    let mut metrics = TestMetrics::new("test_op");

    metrics.start_timing();
    busy_wait(Duration::from_micros(100));
    metrics.stop_timing();

    assert_eq!(metrics.timings_ns.len(), 1);
    assert!(metrics.timings_ns[0] >= 100_000);
}

#[test]
fn test_time_operation() {
    let mut metrics = TestMetrics::new("closure_test");

    let result = metrics.time_operation(|| {
        busy_wait(Duration::from_micros(50));
        42
    });

    assert_eq!(result, 42);
    assert_eq!(metrics.timings_ns.len(), 1);
}

#[test]
fn test_operation_counting() {
    let mut metrics = TestMetrics::new("ops");

    metrics.inc_op("reads");
    metrics.inc_op("reads");
    metrics.inc_op("writes");

    assert_eq!(op_count(&metrics, "reads"), Some(2));
    assert_eq!(op_count(&metrics, "writes"), Some(1));
}

#[test]
fn test_custom_metrics() {
    let mut metrics = TestMetrics::new("custom");

    metrics.record_metric("accuracy", MilliValue::from_thousandths(950));
    metrics.record_metric("loss", MilliValue::from_thousandths(120));

    assert_eq!(custom_metric(&metrics, "accuracy"), Some(MilliValue::from_thousandths(950)));
    assert_eq!(custom_metric(&metrics, "loss"), Some(MilliValue::from_thousandths(120)));
}

#[test]
fn test_metrics_test_memory_tracking() {
    let mut metrics = TestMetrics::new("memory");

    metrics.record_memory(1024);
    metrics.record_memory(2048);
    metrics.record_memory(1536);

    assert_eq!(metrics.memory_samples.len(), 3);
}

#[test]
fn test_error_warning_counts() {
    let mut metrics = TestMetrics::new("issues");

    metrics.record_error();
    metrics.record_error();
    metrics.record_warning();

    assert_eq!(metrics.error_count, 2);
    assert_eq!(metrics.warning_count, 1);
}

#[test]
fn test_timing_stats() {
    let mut metrics = TestMetrics::new("stats");

    metrics.timings_ns = vec![100, 200, 150, 300, 250];

    let stats = metrics.timing_stats();
    assert_eq!(stats.count, 5);
    assert_eq!(stats.min_ns, 100);
    assert_eq!(stats.max_ns, 300);
    assert_eq!(stats.mean_ns, 200);
}

#[test]
fn test_summary_generation() {
    let mut metrics = TestMetrics::new("summary_test");

    metrics.timings_ns = vec![1000, 2000, 1500];
    metrics.inc_op("test");
    metrics.record_metric("score", MilliValue::from_thousandths(850));

    let summary = metrics.summary();

    assert!(summary.contains("summary_test"));
    assert!(summary.contains("Timing"));
    assert!(summary.contains("Operations"));
    assert!(summary.contains("Metrics"));
}

#[test]
fn test_reset() {
    let mut metrics = TestMetrics::new("reset_test");

    metrics.start_timing();
    busy_wait(Duration::from_micros(10));
    metrics.stop_timing();
    metrics.inc_op("test");
    metrics.record_error();

    assert_eq!(metrics.timings_ns.len(), 1);
    assert_eq!(metrics.error_count, 1);

    metrics.reset();

    assert_eq!(metrics.timings_ns.len(), 0);
    assert_eq!(metrics.error_count, 0);
    assert_eq!(metrics.op_counts.len(), 0);
}

#[test]
fn test_empty_stats() {
    let metrics = TestMetrics::new("empty");
    let stats = metrics.timing_stats();

    assert_eq!(stats.count, 0);
    assert_eq!(stats.total_ns, 0);
}

#[test]
fn test_metrics_test_throughput_calculation() {
    let stats = TimingStats { count: 1000, total_ns: 1_000_000_000, ..Default::default() };

    assert_eq!(stats.ops_per_sec(), 1000);
}
