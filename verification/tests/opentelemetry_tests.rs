//! Span identity, parentage, propagation and export.

use embeddenator_obs::{IdAllocator, OtelExporter, OtelSpan, SpanStatus};

#[test]
fn opentelemetry_test_span_creation() {
    let mut ids = IdAllocator::new();
    let span = OtelSpan::new("test_operation", &mut ids);
    assert!(span.trace_id > 0);
    assert!(span.span_id > 0);
    assert_eq!(span.parent_span_id, 0);
    assert!(span.is_root());
    assert_eq!(span.status, SpanStatus::Unset);
}

#[test]
fn test_child_span() {
    let mut ids = IdAllocator::new();
    let parent = OtelSpan::new("parent", &mut ids);
    let child = OtelSpan::new_child("child", &parent, &mut ids);

    assert_eq!(child.trace_id, parent.trace_id);
    assert_ne!(child.span_id, parent.span_id);
    assert_eq!(child.parent_span_id, parent.span_id);
    assert!(!child.is_root());
}

fn attribute<'a>(span: &'a OtelSpan, key: &str) -> Option<&'a str> {
    span.attributes
        .iter()
        .find(|(k, _)| k == key)
        .map(|(_, v)| v.as_str())
}

#[test]
fn test_span_attributes() {
    let mut ids = IdAllocator::new();
    let mut span = OtelSpan::new("test", &mut ids);
    span.set_attribute("key1", "value1");
    span.set_attribute("key2", "value2");

    assert_eq!(attribute(&span, "key1"), Some("value1"));
    assert_eq!(attribute(&span, "key2"), Some("value2"));
}

#[test]
fn test_span_attribute_last_write_wins() {
    let mut ids = IdAllocator::new();
    let mut span = OtelSpan::new("test", &mut ids);
    span.set_attribute("key", "first");
    span.set_attribute("key", "second");
    assert_eq!(attribute(&span, "key"), Some("second"));
    assert_eq!(span.attributes.len(), 1);
}

#[test]
fn test_span_events() {
    let mut ids = IdAllocator::new();
    let mut span = OtelSpan::new("test", &mut ids);
    span.add_event("event1");
    span.add_event("event2");

    assert_eq!(span.events.len(), 2);
    assert_eq!(span.events[0].name, "event1");
    assert_eq!(span.events[1].name, "event2");
}

#[test]
fn test_span_end() {
    let mut ids = IdAllocator::new();
    let mut span = OtelSpan::new("test", &mut ids);
    let start = std::time::Instant::now();
    while start.elapsed() < std::time::Duration::from_millis(10) {
        std::hint::spin_loop();
    }
    span.end();

    assert!(span.end_time_ns > span.start_time_ns);
    assert_eq!(span.status, SpanStatus::Okay);
    assert!(span.duration_ns() > 0);
}

#[test]
fn test_span_end_sets_status() {
    let mut ids = IdAllocator::new();
    let mut span = OtelSpan::new("test", &mut ids);
    span.end();
    assert_eq!(span.status, SpanStatus::Okay);
}

#[test]
fn test_span_error() {
    let mut ids = IdAllocator::new();
    let mut span = OtelSpan::new("test", &mut ids);
    span.end_with_error("Something went wrong");

    assert_eq!(span.status, SpanStatus::Error);
    assert_eq!(attribute(&span, "error.message"), Some("Something went wrong"));
}

#[test]
fn test_traceparent_export() {
    let mut ids = IdAllocator::new();
    let span = OtelSpan::new("test", &mut ids);
    let traceparent = span.to_traceparent();

    assert!(traceparent.starts_with("00-"));
    assert!(traceparent.ends_with("-01"));
}

#[test]
fn test_traceparent_exact_rendering() {
    let mut ids = IdAllocator::new();
    let span = OtelSpan::new("test", &mut ids);
    assert_eq!(span.trace_id, 1);
    assert_eq!(span.span_id, 1);
    assert_eq!(
        span.to_traceparent(),
        "00-00000000000000000000000000000001-0000000000000001-01"
    );
}

#[test]
fn test_traceparent_parse() {
    let mut ids = IdAllocator::new();
    let parent = OtelSpan::new("parent", &mut ids);
    let traceparent = parent.to_traceparent();

    let child = OtelSpan::from_traceparent(&traceparent, "child", &mut ids).unwrap();
    assert_eq!(child.trace_id, parent.trace_id);
    assert_eq!(child.parent_span_id, parent.span_id);
}

#[test]
fn test_traceparent_rejects_malformed() {
    let mut ids = IdAllocator::new();
    assert!(OtelSpan::from_traceparent("", "x", &mut ids).is_none());
    assert!(OtelSpan::from_traceparent("00-abc-def-01", "x", &mut ids).is_none());
    assert!(OtelSpan::from_traceparent(
        "01-00000000000000000000000000000001-0000000000000001-01",
        "x",
        &mut ids
    )
    .is_none());
    assert!(OtelSpan::from_traceparent(
        "00-0000000000000000000000000000000g-0000000000000001-01",
        "x",
        &mut ids
    )
    .is_none());
    assert!(OtelSpan::from_traceparent(
        "00-00000000000000000000000000000001-0000000000000001-0",
        "x",
        &mut ids
    )
    .is_none());
}

#[test]
fn test_duration_of_unended_span_is_zero() {
    let mut ids = IdAllocator::new();
    let span = OtelSpan::new("test", &mut ids);
    assert_eq!(span.duration_ns(), 0);
}

#[test]
fn test_exporter() {
    let mut ids = IdAllocator::new();
    let mut span = OtelSpan::new("test", &mut ids);
    span.set_attribute("key", "value");
    span.end();

    let exporter = OtelExporter::new().with_service_name("test_service");
    let json = exporter.export_spans(&[span]);

    assert!(json.contains("test_service"));
    assert!(json.contains("test"));
    assert!(json.contains("traceId"));
}
