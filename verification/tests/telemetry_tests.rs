//! The aggregator, its statistics and its snapshots.

use embeddenator_obs::telemetry::OperationStats;
use embeddenator_obs::{MilliValue, Telemetry, TelemetryConfig};

#[test]
fn test_telemetry_basic() {
    let mut telemetry = Telemetry::default_config();

    telemetry.record_operation("query", 1500);
    telemetry.record_operation("query", 2000);
    telemetry.increment_counter("cache_hits");
    telemetry.set_gauge("memory_mb", MilliValue::from_thousandths(256_500));

    let snapshot = telemetry.snapshot();
    assert_eq!(snapshot.counter("cache_hits"), Some(1));
    assert_eq!(snapshot.gauge("memory_mb"), Some(MilliValue::from_thousandths(256_500)));

    let query_stats = snapshot.operation("query").unwrap();
    assert_eq!(query_stats.count, 2);
    assert_eq!(query_stats.min_us, 1500);
    assert_eq!(query_stats.max_us, 2000);
}

#[test]
fn test_operation_stats() {
    let mut stats = OperationStats::new();
    stats.record(100);
    stats.record(200);
    stats.record(150);

    assert_eq!(stats.count, 3);
    assert_eq!(stats.min_us, 100);
    assert_eq!(stats.max_us, 200);
    assert_eq!(stats.avg_us(), MilliValue::from_thousandths(150_000));
}

#[test]
fn test_advanced_statistics() {
    let mut stats = OperationStats::new();

    for val in &[100, 150, 200, 250, 300, 350, 400, 450, 500] {
        stats.record(*val);
    }

    assert_eq!(stats.count, 9);
    assert_eq!(stats.avg_us(), MilliValue::from_thousandths(300_000));

    let p50 = stats.percentile(50);
    assert!(p50 >= 250 && p50 <= 350);

    let p95 = stats.p95_us();
    assert!(p95 >= 400);

    let p99 = stats.p99_us();
    assert!(p99 >= 450);

    let std_dev = stats.std_dev_us();
    assert!(std_dev > 0);
    assert!(std_dev < 200);
}

#[test]
fn test_std_dev_exact() {
    let mut stats = OperationStats::new();
    for val in &[100, 200, 150, 300, 250] {
        stats.record(*val);
    }
    assert_eq!(stats.min_us, 100);
    assert_eq!(stats.max_us, 300);
    assert_eq!(stats.avg_us(), MilliValue::from_thousandths(200_000));
    // E[x^2] = 225000/5 = 45000; mean = 200; variance = 5000; root = 70.
    assert_eq!(stats.std_dev_us(), 70);
}

#[test]
fn telemetry_test_histogram_buckets() {
    let mut stats = OperationStats::new();

    stats.record(50);
    stats.record(150);
    stats.record(250);
    stats.record(750);
    stats.record(1500);

    assert_eq!(stats.count_below(100), 1);
    assert_eq!(stats.count_below(500), 3);
    assert_eq!(stats.count_below(1000), 4);
    assert_eq!(stats.count_below(2000), 5);
}

#[test]
fn test_telemetry_reset() {
    let mut telemetry = Telemetry::default_config();

    telemetry.increment_counter("test");
    assert_eq!(telemetry.snapshot().counter("test"), Some(1));

    telemetry.reset();
    assert_eq!(telemetry.snapshot().counter("test"), None);
}

#[test]
fn test_snapshot_summary() {
    let mut telemetry = Telemetry::default_config();
    telemetry.record_operation("test_op", 500);

    let snapshot = telemetry.snapshot();
    let summary = snapshot.summary();

    assert!(summary.contains("Telemetry Snapshot"));
    assert!(summary.contains("test_op"));
}

#[test]
fn test_disabled_telemetry() {
    let config = TelemetryConfig { enabled: false, ..TelemetryConfig::default() };
    let mut telemetry = Telemetry::new(config);

    telemetry.record_operation("query", 1000);
    telemetry.increment_counter("test");

    let snapshot = telemetry.snapshot();
    assert!(snapshot.operation_stats.is_empty());
    assert!(snapshot.counters.is_empty());
}

#[test]
fn test_telemetry_collection() {
    let mut telemetry = Telemetry::default_config();

    telemetry.record_operation("query", 1500);
    telemetry.record_operation("query", 2000);
    telemetry.record_operation("insert", 500);

    telemetry.increment_counter("requests");
    telemetry.increment_counter("requests");
    telemetry.set_gauge("memory_mb", MilliValue::from_int(256));

    let snapshot = telemetry.snapshot();

    let query_stats = snapshot.operation("query").unwrap();
    assert_eq!(query_stats.count, 2);
    assert_eq!(query_stats.min_us, 1500);
    assert_eq!(query_stats.max_us, 2000);

    assert_eq!(snapshot.counter("requests"), Some(2));
    assert_eq!(snapshot.gauge("memory_mb"), Some(MilliValue::from_int(256)));
}

#[test]
fn test_telemetry_json_export() {
    let mut telemetry = Telemetry::default_config();

    telemetry.record_operation("test", 1000);
    telemetry.increment_counter("count");

    let snapshot = telemetry.snapshot();
    let json = snapshot.to_json();

    assert!(json.contains("timestamp_secs"));
    assert!(json.contains("operations"));
}

#[test]
fn test_add_to_counter() {
    let mut telemetry = Telemetry::default_config();
    telemetry.add_to_counter("bytes", 10);
    telemetry.add_to_counter("bytes", 32);
    assert_eq!(telemetry.snapshot().counter("bytes"), Some(42));
}

#[test]
fn test_gauge_last_write_wins() {
    let mut telemetry = Telemetry::default_config();
    telemetry.set_gauge("load", MilliValue::from_thousandths(1_500));
    telemetry.set_gauge("load", MilliValue::from_thousandths(2_500));
    assert_eq!(telemetry.snapshot().gauge("load"), Some(MilliValue::from_thousandths(2_500)));
}

#[test]
fn test_ops_per_sec() {
    let mut stats = OperationStats::new();
    stats.record(500_000);
    stats.record(500_000);
    // Two operations over one second of recorded time.
    assert_eq!(stats.ops_per_sec(), 2);
}

#[test]
fn test_percentile_beyond_hundred_reads_maximum() {
    let mut stats = OperationStats::new();
    stats.record(10);
    stats.record(30);
    stats.record(20);
    assert_eq!(stats.percentile(100), 30);
    assert_eq!(stats.percentile(250), 30);
}

#[test]
fn test_empty_operation_stats() {
    let stats = OperationStats::new();
    assert_eq!(stats.count, 0);
    assert_eq!(stats.percentile(50), 0);
    assert_eq!(stats.std_dev_us(), 0);
    assert_eq!(stats.avg_us(), MilliValue::from_thousandths(0));
}
