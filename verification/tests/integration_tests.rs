//! Components working together, and calibration parsing.

use embeddenator_obs::calibration::{
    cycles_to_picos, freq_from_calibration, parse_cpuinfo_mhz, parse_khz_content,
};
use embeddenator_obs::{create_span, init_tracing, Metrics, MilliValue, Telemetry, TestMetrics};
use std::time::{Duration, Instant};

fn busy_wait(d: Duration) {
    let start = Instant::now();
    while start.elapsed() < d {
        std::hint::spin_loop();
    }
}

#[test]
fn test_test_metrics_workflow() {
    let mut metrics = TestMetrics::new("integration_test");

    for i in 0..10 {
        metrics.start_timing();
        busy_wait(Duration::from_micros(100 + i * 10));
        metrics.stop_timing();

        metrics.inc_op("iterations");
    }

    metrics.record_metric("success_rate", MilliValue::from_thousandths(950));
    metrics.record_memory(1024 * 1024);

    let stats = metrics.timing_stats();
    assert_eq!(stats.count, 10);
    assert!(stats.min_ns > 0);
    assert!(stats.max_ns >= stats.min_ns);

    let summary = metrics.summary();
    assert!(summary.contains("integration_test"));
    assert!(summary.contains("Timing"));
}

#[test]
fn test_tracing_init() {
    init_tracing();

    let _span = create_span("test_operation", &[("key", "value")]);
}

#[test]
fn test_combined_observability() {
    init_tracing();

    let mut test_metrics = TestMetrics::new("combined_test");
    let mut telemetry = Telemetry::default_config();
    let mut registry = Metrics::new();

    for _ in 0..5 {
        let _span = create_span("operation", &[]);

        test_metrics.time_operation(|| {
            busy_wait(Duration::from_micros(100));
        });
        registry.inc_sub_cache_hit();
        registry.record_retrieval_query(150_000);

        telemetry.record_operation("work", 150);
        telemetry.increment_counter("ops");
    }

    let test_stats = test_metrics.timing_stats();
    assert_eq!(test_stats.count, 5);

    let tel_snapshot = telemetry.snapshot();
    assert_eq!(tel_snapshot.counter("ops"), Some(5));

    let metrics_snapshot = registry.snapshot();
    assert!(metrics_snapshot.retrieval_query_calls >= 5);
}

#[test]
fn test_error_tracking() {
    let mut metrics = TestMetrics::new("error_test");

    metrics.record_error();
    metrics.record_error();
    metrics.record_warning();

    assert_eq!(metrics.error_count, 2);
    assert_eq!(metrics.warning_count, 1);

    let summary = metrics.summary();
    assert!(summary.contains("errors=2"));
    assert!(summary.contains("warnings=1"));
}

#[test]
fn integration_test_test_memory_tracking() {
    let mut metrics = TestMetrics::new("memory_test");

    for i in 1..=5 {
        metrics.record_memory(i * 1024 * 1024);
    }

    let summary = metrics.summary();
    assert!(summary.contains("Memory"));
    assert!(summary.contains("peak="));
    assert!(summary.contains("avg="));
}

#[test]
fn test_percentile_accuracy() {
    let mut metrics = TestMetrics::new("percentile_test");

    for i in 1..=10 {
        metrics.timings_ns.push(i * 100);
    }

    let stats = metrics.timing_stats();

    assert_eq!(stats.count, 10);
    assert_eq!(stats.min_ns, 100);
    assert_eq!(stats.max_ns, 1000);
    assert_eq!(stats.p50_ns, 600);
    assert_eq!(stats.mean_ns, 550);
}

#[test]
fn integration_test_test_throughput_calculation() {
    let mut metrics = TestMetrics::new("throughput_test");

    for _ in 0..100 {
        metrics.timings_ns.push(10_000_000);
    }

    let stats = metrics.timing_stats();
    let ops_per_sec = stats.ops_per_sec();

    assert!(ops_per_sec >= 99 && ops_per_sec <= 101);
}

#[test]
fn test_parse_khz_content() {
    assert_eq!(parse_khz_content("2400000\n"), Some(2_400_000_000));
    assert_eq!(parse_khz_content("  3000000  "), Some(3_000_000_000));
    assert_eq!(parse_khz_content("fast"), None);
    assert_eq!(parse_khz_content(""), None);
    assert_eq!(parse_khz_content("99999999999999999999999"), None);
}

#[test]
fn test_parse_cpuinfo_mhz() {
    let content = "processor\t: 0\nvendor_id\t: acme\ncpu MHz\t\t: 2400.000\nbogomips: 12\n";
    assert_eq!(parse_cpuinfo_mhz(content), Some(2_400_000_000));
    assert_eq!(parse_cpuinfo_mhz("cpu MHz : 1200.5\n"), Some(1_200_500_000));
    assert_eq!(parse_cpuinfo_mhz("no frequency here\n"), None);
    assert_eq!(parse_cpuinfo_mhz("cpu MHz missing colon\n"), None);
}

#[test]
fn test_cycle_conversion() {
    // A thousand cycles at 1 GHz cover a microsecond.
    assert_eq!(cycles_to_picos(1000, 1_000_000_000), 1_000_000);
    // A million cycles counted over a millisecond give 1 GHz.
    assert_eq!(freq_from_calibration(1_000_000, 1_000_000), 1_000_000_000);
}
