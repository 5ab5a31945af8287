//! Observability core: high-resolution timing, statistical accumulators,
//! distributed trace context, and real-time metric dispatch, with verified
//! contracts over mathematical models of each component.

use vstd::prelude::*;

pub mod calibration;
pub mod clock;
pub mod fixed;
pub mod hires_timing;
pub mod kv;
pub mod logging;
pub mod metrics;
pub mod opentelemetry;
pub mod prometheus;
pub mod streaming;
pub mod telemetry;
pub mod test_metrics;
pub mod tracing;
pub mod stats;
pub mod text;

pub use fixed::MilliValue;
pub use hires_timing::{measure, measure_n, HiResMetrics, HiResMetricsSnapshot, HiResTimer, HiResTimestamp};
pub use metrics::{Metrics, MetricsSnapshot};
pub use opentelemetry::{IdAllocator, OtelExporter, OtelSpan, SpanEvent, SpanKind, SpanStatus};
pub use prometheus::PrometheusExporter;
pub use streaming::{MetricEvent, MetricStream, MetricSubscriber, RateLimiter, ThresholdAlert};
pub use telemetry::{OperationStats, Telemetry, TelemetryConfig, TelemetrySnapshot};
pub use test_metrics::{TestMetrics, TimingStats};
pub use tracing::{create_debug_span, create_span, create_trace_span, init_tracing, record_event, EventLevel, SpanGuard};
