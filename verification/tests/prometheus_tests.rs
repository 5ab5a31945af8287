//! Prometheus text rendering.

use embeddenator_obs::prometheus::sanitize_name;
use embeddenator_obs::{MilliValue, PrometheusExporter, Telemetry};

#[test]
fn test_prometheus_export() {
    let mut telemetry = Telemetry::default_config();
    telemetry.increment_counter("requests");
    telemetry.set_gauge("queue_size", MilliValue::from_thousandths(42_500));
    telemetry.record_operation("query", 1250);

    let snapshot = telemetry.snapshot();
    let exporter = PrometheusExporter::new("test");
    let output = exporter.export(&snapshot);

    assert!(output.contains("test_requests"));
    assert!(output.contains("test_queue_size"));
    assert!(output.contains("test_query_duration_us"));
}

#[test]
fn test_sanitize_name() {
    assert_eq!(sanitize_name("valid_name"), "valid_name");
    assert_eq!(sanitize_name("invalid-name"), "invalid_name");
    assert_eq!(sanitize_name("name.with.dots"), "name_with_dots");
    assert_eq!(sanitize_name("name:with:colons"), "name_with_colons");
}

#[test]
fn prometheus_test_histogram_buckets() {
    let mut telemetry = Telemetry::default_config();
    telemetry.record_operation("query", 50);
    telemetry.record_operation("query", 750);
    telemetry.record_operation("query", 2500);

    let snapshot = telemetry.snapshot();
    let exporter = PrometheusExporter::new("test");
    let output = exporter.export(&snapshot);

    assert!(output.contains("test_query_duration_us_bucket"));
    assert!(output.contains("test_query_duration_us_sum"));
    assert!(output.contains("test_query_duration_us_count 3"));
}

#[test]
fn test_without_help_and_type() {
    let mut telemetry = Telemetry::default_config();
    telemetry.increment_counter("test");

    let snapshot = telemetry.snapshot();
    let exporter = PrometheusExporter::new("app").without_help().without_type();
    let output = exporter.export(&snapshot);

    assert!(!output.contains("# HELP"));
    assert!(!output.contains("# TYPE"));
    assert!(output.contains("app_test"));
}

#[test]
fn test_counter_line_exact() {
    let mut telemetry = Telemetry::default_config();
    telemetry.add_to_counter("hits", 7);
    let snapshot = telemetry.snapshot();
    let exporter = PrometheusExporter::new("app").without_help().without_type();
    let output = exporter.export(&snapshot);
    assert!(output.contains("app_hits 7\n"));
}
