//! Tracing configuration resolution and event recording.

use embeddenator_obs::tracing::{resolve_filter, resolve_format};
use embeddenator_obs::{create_span, init_tracing, record_event, EventLevel};

#[test]
fn tracing_test_init_tracing_no_panic() {
    init_tracing();
}

#[test]
fn tracing_test_span_creation() {
    let _span = create_span("test_op", &[("key", "value")]);
}

#[test]
fn test_event_recording() {
    record_event(EventLevel::Info, "test message", &[("field", "value")]);
}

#[test]
fn test_event_level_str() {
    assert_eq!(EventLevel::Error.as_str(), "ERROR");
    assert_eq!(EventLevel::Info.as_str(), "INFO");
}

#[test]
fn test_filter_defaults_off() {
    assert_eq!(resolve_filter(None, None), "off");
    assert_eq!(resolve_filter(None, Some("debug".to_string())), "debug");
    assert_eq!(
        resolve_filter(Some("info".to_string()), Some("debug".to_string())),
        "info"
    );
}

#[test]
fn test_format_defaults_compact() {
    assert_eq!(resolve_format(None), "compact");
    assert_eq!(resolve_format(Some("json".to_string())), "json");
}
