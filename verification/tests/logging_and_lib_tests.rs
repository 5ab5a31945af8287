//! Logging helpers and crate-level smoke tests.

use embeddenator_obs::logging;
use embeddenator_obs::{init_tracing, Metrics};

#[test]
fn component_loads() {
    let _ = Metrics::new();
}

#[test]
fn test_metrics_accessible() {
    let snapshot = Metrics::new().snapshot();
    let _ = snapshot.sub_cache_hits;
}

#[test]
fn lib_test_init_tracing_no_panic() {
    init_tracing();
}

#[test]
fn test_init_no_panic() {
    logging::init();
}

#[test]
fn test_warn() {
    logging::warn("test warning");
}

#[test]
fn test_error() {
    logging::error("test error");
}

#[test]
fn test_info() {
    logging::info("test info");
}

#[test]
fn test_debug() {
    logging::debug("test debug");
}

#[test]
fn test_logging_basic() {
    logging::init();
    logging::warn("test warning");
}

#[test]
fn test_log_lines() {
    assert_eq!(logging::warn_line("boom"), "WARN: boom");
    assert_eq!(logging::error_line("boom"), "ERROR: boom");
}
