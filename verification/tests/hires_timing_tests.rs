//! Timestamp, timer and accumulator behaviour.

use embeddenator_obs::hires_timing::{
    measure, measure_n, HiResMetrics, HiResTimer, HiResTimestamp,
};
use std::time::{Duration, Instant};

fn busy_wait(d: Duration) {
    let start = Instant::now();
    while start.elapsed() < d {
        std::hint::spin_loop();
    }
}

#[test]
fn test_timestamp_from_nanos() {
    let ts = HiResTimestamp::from_nanos(1_000);
    assert_eq!(ts.picoseconds, 1_000_000);
    assert_eq!(ts.as_nanos(), 1_000);
    assert!(!ts.is_estimated);
}

#[test]
fn test_timestamp_formatting() {
    assert_eq!(HiResTimestamp::from_picos(500, 0).format(), "500ps");
    assert_eq!(HiResTimestamp::from_nanos(1).format(), "1.000ns");
    assert_eq!(HiResTimestamp::from_nanos(1_000).format(), "1.000µs");
    assert_eq!(HiResTimestamp::from_nanos(1_000_000).format(), "1.000ms");
    assert_eq!(HiResTimestamp::from_nanos(1_000_000_000).format(), "1.000s");
}

#[test]
fn test_timestamp_subtraction() {
    let a = HiResTimestamp::from_nanos(1_000);
    let b = HiResTimestamp::from_nanos(500);
    let diff = a.saturating_sub(b);
    assert_eq!(diff.as_nanos(), 500);
}

#[test]
fn test_timestamp_subtraction_saturates() {
    let a = HiResTimestamp::from_nanos(500);
    let b = HiResTimestamp::from_nanos(1_000);
    let diff = a.saturating_sub(b);
    assert_eq!(diff.picoseconds, 0);
    assert_eq!(diff.uncertainty_low, 1000);
}

#[test]
fn test_hires_timer_basic() {
    let timer = HiResTimer::start();
    busy_wait(Duration::from_micros(100));
    let elapsed = timer.elapsed();

    assert!(elapsed.picoseconds >= 100_000_000, "elapsed: {} ps", elapsed.picoseconds);
    assert!(elapsed.picoseconds < 10_000_000_000_000, "elapsed: {} ps", elapsed.picoseconds);
}

#[test]
fn test_timer_monotonic() {
    let timer = HiResTimer::start();
    let first = timer.elapsed();
    busy_wait(Duration::from_micros(50));
    let second = timer.elapsed();
    assert!(second.picoseconds >= first.picoseconds);
}

#[test]
fn test_hires_metrics_accumulation() {
    let mut metrics = HiResMetrics::new();

    metrics.record(HiResTimestamp::from_nanos(100));
    metrics.record(HiResTimestamp::from_nanos(200));
    metrics.record(HiResTimestamp::from_nanos(300));

    let snapshot = metrics.snapshot();
    assert_eq!(snapshot.count, 3);
    assert_eq!(snapshot.min_ps, 100 * 1_000);
    assert_eq!(snapshot.max_ps, 300 * 1_000);
    assert_eq!(snapshot.mean_ps, 200 * 1_000);
}

#[test]
fn test_hires_snapshot_format() {
    let mut metrics = HiResMetrics::new();
    metrics.record(HiResTimestamp::from_nanos(100));
    metrics.record(HiResTimestamp::from_nanos(200));
    metrics.record(HiResTimestamp::from_nanos(300));
    let snapshot = metrics.snapshot();
    assert_eq!(
        snapshot.format(),
        "n=3 mean=200.000ns min=100.000ns max=300.000ns stddev=81.645ns"
    );
}

#[test]
fn test_hires_snapshot_format_empty() {
    let metrics = HiResMetrics::new();
    assert_eq!(metrics.snapshot().format(), "no samples");
}

#[test]
fn test_hires_metrics_reset() {
    let mut metrics = HiResMetrics::new();
    metrics.record(HiResTimestamp::from_nanos(100));
    metrics.reset();
    let snapshot = metrics.snapshot();
    assert_eq!(snapshot.count, 0);
    assert_eq!(snapshot.min_ps, 0);
    assert_eq!(snapshot.max_ps, 0);
}

#[test]
fn test_format_with_uncertainty() {
    let ts = HiResTimestamp::from_picos(100, 5);
    assert_eq!(ts.format_with_uncertainty(), "100ps (±5ps)");
}

#[test]
fn test_timestamp_zero_formats_as_picoseconds() {
    assert_eq!(HiResTimestamp::from_picos(0, 0).format(), "0ps");
}

#[test]
fn test_timestamp_unit_conversions() {
    let ts = HiResTimestamp::from_nanos(2_500_000_000);
    assert_eq!(ts.as_micros(), 2_500_000);
    assert_eq!(ts.as_millis(), 2_500);
}

#[test]
fn test_from_nanos_saturates() {
    let ts = HiResTimestamp::from_nanos(u64::MAX);
    assert_eq!(ts.picoseconds, u64::MAX);
}

#[test]
fn test_measure_closure() {
    let (result, timing) = measure(|| {
        let mut sum = 0u64;
        for i in 0..1000 {
            sum = sum.wrapping_add(i);
        }
        sum
    });

    assert!(result > 0);
    assert!(timing.picoseconds > 0);
}

#[test]
fn test_measure_n() {
    let iterations = 100;
    let (results, stats) = measure_n(iterations, || std::hint::black_box(42));

    assert_eq!(results.len(), iterations);
    assert_eq!(stats.count, iterations as u64);
    assert!(stats.min_ps > 0);
    assert!(stats.max_ps >= stats.min_ps);
}

#[test]
fn test_picosecond_precision_smoke() {
    let timer = HiResTimer::start();

    let _ = std::hint::black_box(1 + 1);

    let elapsed = timer.elapsed();

    println!(
        "Short operation: {} ({})",
        elapsed.format(),
        elapsed.format_with_uncertainty()
    );

    assert!(elapsed.picoseconds > 0 || !elapsed.is_estimated);
}
