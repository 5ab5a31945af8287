//! Tracing configuration and event recording.
//!
//! The configuration read from the environment is resolved here as pure
//! logic: a custom filter wins over the fallback, and with neither set the
//! output is off — never verbose.  Span subscription itself delegates to
//! whatever backend the embedding application installs; without one, span
//! creation records nothing and only errors and warnings reach standard
//! error.

use crate::logging::write_stderr_line;
use vstd::prelude::*;
use vstd::string::*;

verus! {

/// The filter a tracing setup uses: the custom setting when present, else
/// the fallback, else off.
pub open spec fn spec_filter_choice(
    custom: Option<String>,
    fallback: Option<String>,
) -> Seq<char> {
    match custom {
        Option::Some(c) => c@,
        Option::None => match fallback {
            Option::Some(f) => f@,
            Option::None => "off"@,
        },
    }
}

/// Resolve the log filter from the two environment settings.  Absent
/// both, output is disabled entirely.
pub fn resolve_filter(custom: Option<String>, fallback: Option<String>) -> (r: String)
    ensures
        r@ == spec_filter_choice(custom, fallback),
{
    match custom {
        Option::Some(c) => c,
        Option::None => match fallback {
            Option::Some(f) => f,
            Option::None => String::from_str("off"),
        },
    }
}

/// The output format a tracing setup uses: the setting when present, else
/// compact.
pub open spec fn spec_format_choice(setting: Option<String>) -> Seq<char> {
    match setting {
        Option::Some(s) => s@,
        Option::None => "compact"@,
    }
}

/// Resolve the output format from its environment setting.
pub fn resolve_format(setting: Option<String>) -> (r: String)
    ensures
        r@ == spec_format_choice(setting),
{
    match setting {
        Option::Some(s) => s,
        Option::None => String::from_str("compact"),
    }
}

/// Initialize tracing.  Reading the environment and installing a
/// subscriber backend belongs to the embedding application; the library
/// side has nothing to set up.
pub fn init_tracing() {
}

/// Span guard handed back by span creation; without a backend there is
/// nothing to hold.
pub type SpanGuard = ();

/// Create a named span with optional fields.  Without an installed
/// backend this records nothing.
pub fn create_span(_name: &str, _fields: &[(&str, &str)]) -> SpanGuard {
}

/// Create a debug-level span.  Without an installed backend this records
/// nothing.
pub fn create_debug_span(_name: &str, _fields: &[(&str, &str)]) -> SpanGuard {
}

/// Create a trace-level span.  Without an installed backend this records
/// nothing.
pub fn create_trace_span(_name: &str, _fields: &[(&str, &str)]) -> SpanGuard {
}

/// Event severity level.
#[derive(Debug, Clone, Copy, PartialEq, Eq, Structural)]
pub enum EventLevel {
    Error,
    Warn,
    Info,
    Debug,
    Trace,
}

/// The tag a level renders to.
pub open spec fn spec_level_str(level: EventLevel) -> Seq<char> {
    match level {
        EventLevel::Error => "ERROR"@,
        EventLevel::Warn => "WARN"@,
        EventLevel::Info => "INFO"@,
        EventLevel::Debug => "DEBUG"@,
        EventLevel::Trace => "TRACE"@,
    }
}

impl EventLevel {
    /// The level's tag.
    pub fn as_str(&self) -> (r: &'static str)
        ensures
            r@ == spec_level_str(*self),
    {
        match self {
            EventLevel::Error => "ERROR",
            EventLevel::Warn => "WARN",
            EventLevel::Info => "INFO",
            EventLevel::Debug => "DEBUG",
            EventLevel::Trace => "TRACE",
        }
    }
}

/// The line an event renders to.
pub open spec fn spec_event_line(level: EventLevel, message: Seq<char>) -> Seq<char> {
    "["@ + spec_level_str(level) + "] "@ + message
}

/// Compose an event line.
pub fn format_event_line(level: EventLevel, message: &str) -> (r: String)
    ensures
        r@ == spec_event_line(level, message@),
{
    let mut s = String::from_str("[");
    s.append(level.as_str());
    s.append("] ");
    s.append(message);
    s
}

/// Record an event.  Errors and warnings go to standard error; lower
/// levels go only to an installed backend, so without one they record
/// nothing.
pub fn record_event(level: EventLevel, message: &str, _fields: &[(&str, &str)]) {
    let to_stderr = match level {
        EventLevel::Error => true,
        EventLevel::Warn => true,
        _ => false,
    };
    if to_stderr {
        let line = format_event_line(level, message);
        write_stderr_line(line.as_str());
    }
}

} // verus!
