//! Distributed trace context: spans with identity, parentage, timing,
//! attributes and events, and the propagation header that carries a span's
//! identity across service boundaries.
//!
//! Identifier allocation is an explicit state object with a documented
//! monotonic contract: identifiers are handed out in strictly increasing
//! order and never reused, so identifiers allocated anywhere in a process
//! are pairwise distinct.

use crate::clock;
use crate::kv::{distinct_keys, find_key, has_key, lemma_key_index_at, lemma_key_index_bounds, lemma_key_index_push, lemma_key_index_same_keys, spec_get, spec_key_index};
use crate::text::{is_hex_char, spec_dec, u64_string, lemma_hex_fixed_chars, lemma_hex_fixed_split, lemma_hex_roundtrip, lemma_pow16_pos, parse_hex_range, parse_hex_seq, pow16, spec_hex_fixed, u64_hex_fixed};
use vstd::prelude::*;
use vstd::string::*;

verus! {

/// Span status.
#[derive(Debug, Clone, Copy, PartialEq, Eq, Structural)]
pub enum SpanStatus {
    /// Completed successfully.
    Okay,
    /// Completed with an error.
    Error,
    /// Not set yet.
    Unset,
}

/// Span kind.
#[derive(Debug, Clone, Copy, PartialEq, Eq, Structural)]
pub enum SpanKind {
    /// Internal operation.
    Internal,
    /// Server-side operation.
    Server,
    /// Client-side operation.
    Client,
    /// Producer of a message queue.
    Producer,
    /// Consumer of a message queue.
    Consumer,
}

/// Source of trace and span identifiers: an explicit process-wide state
/// object.  Both counters only ever move forward, so no identifier is
/// reused over the allocator's life.
pub struct IdAllocator {
    /// The trace identifier the next root span receives.
    pub next_trace_id: u64,
    /// The span identifier the next span receives.
    pub next_span_id: u64,
}

impl IdAllocator {
    /// Fresh allocator; identifiers start at one, so zero marks "absent".
    pub fn new() -> (r: Self)
        ensures
            r.next_trace_id == 1,
            r.next_span_id == 1,
    {
        IdAllocator { next_trace_id: 1, next_span_id: 1 }
    }

    /// Allocate a trace identifier.
    pub fn next_trace(&mut self) -> (id: u64)
        requires
            old(self).next_trace_id < u64::MAX,
        ensures
            id == old(self).next_trace_id,
            final(self).next_trace_id == id + 1,
            final(self).next_span_id == old(self).next_span_id,
    {
        let id = self.next_trace_id;
        self.next_trace_id = self.next_trace_id + 1;
        id
    }

    /// Allocate a span identifier.
    pub fn next_span(&mut self) -> (id: u64)
        requires
            old(self).next_span_id < u64::MAX,
        ensures
            id == old(self).next_span_id,
            final(self).next_span_id == id + 1,
            final(self).next_trace_id == old(self).next_trace_id,
    {
        let id = self.next_span_id;
        self.next_span_id = self.next_span_id + 1;
        id
    }
}

/// Identifiers handed out one after another are pairwise distinct: the
/// i-th allocation returns the starting counter plus i, and no two of
/// those coincide.  Allocation is atomic in the embedding application, so
/// this covers concurrent callers in any interleaving.
pub proof fn lemma_span_ids_pairwise_distinct(start: int, ids: Seq<int>)
    requires
        forall|i: int| 0 <= i < ids.len() ==> ids[i] == start + i,
    ensures
        forall|i: int, j: int| 0 <= i < j < ids.len() ==> ids[i] != ids[j],
{
}

/// Timestamped checkpoint within a span.
#[derive(Debug, Clone)]
pub struct SpanEvent {
    /// Event name.
    pub name: String,
    /// When the event was recorded (nanoseconds since the Unix epoch).
    pub timestamp_ns: u64,
    /// Event attributes.
    pub attributes: Vec<(String, String)>,
}

/// A span: one timed operation within a trace.
#[derive(Debug, Clone)]
pub struct OtelSpan {
    /// Trace identifier, shared by a root span and all its descendants.
    pub trace_id: u64,
    /// Span identifier, unique per span.
    pub span_id: u64,
    /// Parent span identifier; zero for roots.
    pub parent_span_id: u64,
    /// Operation name.
    pub name: String,
    /// Span kind.
    pub kind: SpanKind,
    /// Start timestamp (nanoseconds since the Unix epoch).
    pub start_time_ns: u64,
    /// End timestamp; zero while the span is active.
    pub end_time_ns: u64,
    /// Span status.
    pub status: SpanStatus,
    /// Attribute mapping; keys unique, last write wins.
    pub attributes: Vec<(String, String)>,
    /// Ordered events.
    pub events: Vec<SpanEvent>,
}

/// The propagation header a span renders to.
pub open spec fn spec_traceparent(trace_id: u64, span_id: u64) -> Seq<char> {
    "00-"@ + spec_hex_fixed(trace_id as nat, 32) + "-"@ + spec_hex_fixed(span_id as nat, 16)
        + "-01"@
}

/// What a propagation header parses to: the low 64 bits of the trace
/// identifier and the span identifier, provided the text has exactly the
/// four hyphen-separated fields of the supported version.
pub open spec fn spec_parse_traceparent(s: Seq<char>) -> Option<(u64, u64)> {
    if s.len() == 55 && s[0] == '0' && s[1] == '0' && s[2] == '-' && s[35] == '-' && s[52]
        == '-' && s[53] != '-' && s[54] != '-' && (forall|i: int|
        3 <= i < 35 ==> is_hex_char(#[trigger] s[i])) && (forall|i: int|
        36 <= i < 52 ==> is_hex_char(#[trigger] s[i])) {
        Some(
            (
                parse_hex_seq(s.subrange(19, 35)) as u64,
                parse_hex_seq(s.subrange(36, 52)) as u64,
            ),
        )
    } else {
        None
    }
}

impl OtelSpan {
    /// The attribute keys are unique.
    pub open spec fn wf(self) -> bool {
        distinct_keys(self.attributes@)
    }

    /// Create a new root span: a fresh trace identifier, a fresh span
    /// identifier, no parent, and everything else at its initial value.
    pub fn new(name: &str, ids: &mut IdAllocator) -> (r: Self)
        requires
            old(ids).next_trace_id < u64::MAX,
            old(ids).next_span_id < u64::MAX,
        ensures
            r.wf(),
            r.trace_id == old(ids).next_trace_id,
            r.span_id == old(ids).next_span_id,
            r.parent_span_id == 0,
            r.name@ == name@,
            r.kind == SpanKind::Internal,
            r.end_time_ns == 0,
            r.status == SpanStatus::Unset,
            r.attributes@.len() == 0,
            r.events@.len() == 0,
            final(ids).next_trace_id == old(ids).next_trace_id + 1,
            final(ids).next_span_id == old(ids).next_span_id + 1,
    {
        let trace_id = ids.next_trace();
        let span_id = ids.next_span();
        OtelSpan {
            trace_id,
            span_id,
            parent_span_id: 0,
            name: name.to_owned(),
            kind: SpanKind::Internal,
            start_time_ns: clock::unix_time_nanos(),
            end_time_ns: 0,
            status: SpanStatus::Unset,
            attributes: Vec::new(),
            events: Vec::new(),
        }
    }

    /// Create a child span: the parent's trace identifier is inherited, a
    /// fresh span identifier is allocated, and the parent link is set.
    pub fn new_child(name: &str, parent: &OtelSpan, ids: &mut IdAllocator) -> (r: Self)
        requires
            old(ids).next_span_id < u64::MAX,
        ensures
            r.wf(),
            r.trace_id == parent.trace_id,
            r.span_id == old(ids).next_span_id,
            r.parent_span_id == parent.span_id,
            r.name@ == name@,
            r.kind == SpanKind::Internal,
            r.end_time_ns == 0,
            r.status == SpanStatus::Unset,
            r.attributes@.len() == 0,
            r.events@.len() == 0,
            final(ids).next_span_id == old(ids).next_span_id + 1,
            final(ids).next_trace_id == old(ids).next_trace_id,
    {
        let span_id = ids.next_span();
        OtelSpan {
            trace_id: parent.trace_id,
            span_id,
            parent_span_id: parent.span_id,
            name: name.to_owned(),
            kind: SpanKind::Internal,
            start_time_ns: clock::unix_time_nanos(),
            end_time_ns: 0,
            status: SpanStatus::Unset,
            attributes: Vec::new(),
            events: Vec::new(),
        }
    }

    /// Set the span kind.
    pub fn set_kind(&mut self, kind: SpanKind)
        ensures
            *final(self) == (OtelSpan { kind, ..*old(self) }),
    {
        self.kind = kind;
    }

    /// Set one attribute; a key written twice keeps the last value.
    pub fn set_attribute(&mut self, key: &str, value: &str)
        requires
            old(self).wf(),
        ensures
            final(self).wf(),
            has_key(final(self).attributes@, key@),
            spec_get(final(self).attributes@, key@)->0@ == value@,
            forall|k: Seq<char>|
                k != key@ ==> #[trigger] spec_get(final(self).attributes@, k)
                    == spec_get(old(self).attributes@, k),
            final(self).trace_id == old(self).trace_id,
            final(self).span_id == old(self).span_id,
            final(self).parent_span_id == old(self).parent_span_id,
            final(self).name == old(self).name,
            final(self).kind == old(self).kind,
            final(self).start_time_ns == old(self).start_time_ns,
            final(self).end_time_ns == old(self).end_time_ns,
            final(self).status == old(self).status,
            final(self).events == old(self).events,
    {
        let k = key.to_owned();
        let v = value.to_owned();
        let ghost s_old = self.attributes@;
        match find_key(&self.attributes, &k) {
            Some(i) => {
                proof {
                    lemma_key_index_bounds(s_old, k@);
                }
                let ghost entry = s_old[i as int];
                self.attributes[i] = (k, v);
                proof {
                    let s_new = self.attributes@;
                    assert(s_new =~= s_old.update(i as int, s_new[i as int]));
                    assert(forall|j: int|
                        0 <= j < s_old.len() ==> (#[trigger] s_new[j]).0@ == (
                        #[trigger] s_old[j]).0@);
                    assert forall|kk: Seq<char>| true implies #[trigger] spec_key_index(
                        s_new,
                        kk,
                    ) == spec_key_index(s_old, kk) by {
                        lemma_key_index_same_keys(s_old, s_new, kk);
                    }
                    assert(distinct_keys(s_new));
                    assert(spec_key_index(s_new, key@) == Some(i as int));
                    assert forall|kk: Seq<char>| kk != key@ implies #[trigger] spec_get(
                        s_new,
                        kk,
                    ) == spec_get(s_old, kk) by {
                        if spec_key_index(s_old, kk) is Some {
                            let j = spec_key_index(s_old, kk)->0;
                            lemma_key_index_bounds(s_old, kk);
                            assert(j != i as int);
                            assert(s_new[j] == s_old[j]);
                        }
                    }
                }
            },
            None => {
                self.attributes.push((k, v));
                proof {
                    let s_new = self.attributes@;
                    let e = s_new.last();
                    assert(s_new =~= s_old.push(e));
                    lemma_key_index_push(s_old, key@, e);
                    assert(spec_key_index(s_new, key@) == Some(s_old.len() as int));
                    assert forall|kk: Seq<char>| kk != key@ implies #[trigger] spec_get(
                        s_new,
                        kk,
                    ) == spec_get(s_old, kk) by {
                        lemma_key_index_push(s_old, kk, e);
                        if spec_key_index(s_old, kk) is Some {
                            lemma_key_index_bounds(s_old, kk);
                        }
                    }
                    assert forall|a: int, b: int|
                        0 <= a < b < s_new.len() implies (#[trigger] s_new[a]).0@ != (
                        #[trigger] s_new[b]).0@ by {
                        if b == s_new.len() - 1 {
                            if s_new[a].0@ == key@ {
                                lemma_key_index_at(s_old, key@, a);
                            }
                        }
                    }
                }
            },
        }
    }

    /// Record an event with no attributes at the current wall-clock time.
    pub fn add_event(&mut self, name: &str)
        ensures
            final(self).events@.len() == old(self).events@.len() + 1,
            final(self).events@.drop_last() == old(self).events@,
            final(self).events@.last().name@ == name@,
            final(self).events@.last().attributes@.len() == 0,
            final(self).trace_id == old(self).trace_id,
            final(self).span_id == old(self).span_id,
            final(self).parent_span_id == old(self).parent_span_id,
            final(self).name == old(self).name,
            final(self).kind == old(self).kind,
            final(self).start_time_ns == old(self).start_time_ns,
            final(self).end_time_ns == old(self).end_time_ns,
            final(self).status == old(self).status,
            final(self).attributes == old(self).attributes,
    {
        let ghost evs = self.events@;
        self.events.push(
            SpanEvent {
                name: name.to_owned(),
                timestamp_ns: clock::unix_time_nanos(),
                attributes: Vec::new(),
            },
        );
        proof {
            assert(self.events@.drop_last() =~= evs);
        }
    }

    /// Record an event carrying its own attributes.
    pub fn add_event_with_attributes(&mut self, name: &str, attributes: Vec<(String, String)>)
        ensures
            final(self).events@.len() == old(self).events@.len() + 1,
            final(self).events@.drop_last() == old(self).events@,
            final(self).events@.last().name@ == name@,
            final(self).events@.last().attributes == attributes,
            final(self).trace_id == old(self).trace_id,
            final(self).span_id == old(self).span_id,
            final(self).parent_span_id == old(self).parent_span_id,
            final(self).name == old(self).name,
            final(self).kind == old(self).kind,
            final(self).start_time_ns == old(self).start_time_ns,
            final(self).end_time_ns == old(self).end_time_ns,
            final(self).status == old(self).status,
            final(self).attributes == old(self).attributes,
    {
        let ghost evs = self.events@;
        self.events.push(
            SpanEvent { name: name.to_owned(), timestamp_ns: clock::unix_time_nanos(), attributes },
        );
        proof {
            assert(self.events@.drop_last() =~= evs);
        }
    }

    /// Finalize the span: fix the end timestamp and, if the status was
    /// never set, mark it successful.  Meant to be called exactly once.
    pub fn end(&mut self)
        ensures
            final(self).status == if old(self).status == SpanStatus::Unset {
                SpanStatus::Okay
            } else {
                old(self).status
            },
            final(self).trace_id == old(self).trace_id,
            final(self).span_id == old(self).span_id,
            final(self).parent_span_id == old(self).parent_span_id,
            final(self).name == old(self).name,
            final(self).kind == old(self).kind,
            final(self).start_time_ns == old(self).start_time_ns,
            final(self).attributes == old(self).attributes,
            final(self).events == old(self).events,
    {
        self.end_time_ns = clock::unix_time_nanos();
        if self.status == SpanStatus::Unset {
            self.status = SpanStatus::Okay;
        }
    }

    /// Finalize the span as failed, recording the error message as the
    /// `error.message` attribute.
    pub fn end_with_error(&mut self, error: &str)
        requires
            old(self).wf(),
        ensures
            final(self).wf(),
            final(self).status == SpanStatus::Error,
            has_key(final(self).attributes@, "error.message"@),
            spec_get(final(self).attributes@, "error.message"@)->0@ == error@,
            final(self).trace_id == old(self).trace_id,
            final(self).span_id == old(self).span_id,
            final(self).parent_span_id == old(self).parent_span_id,
            final(self).name == old(self).name,
            final(self).kind == old(self).kind,
            final(self).start_time_ns == old(self).start_time_ns,
            final(self).events == old(self).events,
    {
        self.end_time_ns = clock::unix_time_nanos();
        self.status = SpanStatus::Error;
        self.set_attribute("error.message", error);
    }

    /// Span duration: zero while active, else the saturating difference of
    /// the end and start timestamps.
    pub fn duration_ns(&self) -> (r: u64)
        ensures
            r == if self.end_time_ns > 0 {
                self.end_time_ns.saturating_sub(self.start_time_ns)
            } else {
                0u64
            },
    {
        if self.end_time_ns > 0 {
            self.end_time_ns.saturating_sub(self.start_time_ns)
        } else {
            0
        }
    }

    /// Whether this span is a root (has no parent).
    pub fn is_root(&self) -> (r: bool)
        ensures
            r == (self.parent_span_id == 0),
    {
        self.parent_span_id == 0
    }

    /// Render the propagation header: version `00`, the trace identifier
    /// as 32 lowercase hex digits, the span identifier as 16, and the
    /// sampled flag.
    pub fn to_traceparent(&self) -> (s: String)
        ensures
            s@ == spec_traceparent(self.trace_id, self.span_id),
    {
        let mut s = String::from_str("00-");
        let t = u64_hex_fixed(self.trace_id, 32);
        s.append(t.as_str());
        s.append("-");
        let sp = u64_hex_fixed(self.span_id, 16);
        s.append(sp.as_str());
        s.append("-01");
        s
    }

    /// Parse a propagation header and start a child span under it: the
    /// low 64 bits of the header's trace identifier become the trace
    /// identifier, the header's span identifier becomes the parent, and a
    /// fresh span identifier is allocated.  Malformed input yields nothing
    /// and leaves the allocator untouched.
    pub fn from_traceparent(traceparent: &str, name: &str, ids: &mut IdAllocator) -> (r:
        Option<Self>)
        requires
            old(ids).next_span_id < u64::MAX,
        ensures
            match r {
                Some(sp) => {
                    &&& spec_parse_traceparent(traceparent@) == Some(
                        (sp.trace_id, sp.parent_span_id),
                    )
                    &&& sp.wf()
                    &&& sp.span_id == old(ids).next_span_id
                    &&& sp.name@ == name@
                    &&& sp.kind == SpanKind::Internal
                    &&& sp.end_time_ns == 0
                    &&& sp.status == SpanStatus::Unset
                    &&& sp.attributes@.len() == 0
                    &&& sp.events@.len() == 0
                    &&& final(ids).next_span_id == old(ids).next_span_id + 1
                    &&& final(ids).next_trace_id == old(ids).next_trace_id
                },
                None => {
                    &&& spec_parse_traceparent(traceparent@) is None
                    &&& *final(ids) == *old(ids)
                },
            },
    {
        let n = traceparent.unicode_len();
        if n != 55 {
            return None;
        }
        if traceparent.get_char(0) != '0' || traceparent.get_char(1) != '0'
            || traceparent.get_char(2) != '-' || traceparent.get_char(35) != '-'
            || traceparent.get_char(52) != '-' || traceparent.get_char(53) == '-'
            || traceparent.get_char(54) == '-' {
            return None;
        }
        let high = match parse_hex_range(traceparent, 3, 19) {
            Some(v) => v,
            None => {
                return None;
            },
        };
        let trace_id = match parse_hex_range(traceparent, 19, 35) {
            Some(v) => v,
            None => {
                return None;
            },
        };
        let parent_span_id = match parse_hex_range(traceparent, 36, 52) {
            Some(v) => v,
            None => {
                return None;
            },
        };
        let span_id = ids.next_span();
        Some(
            OtelSpan {
                trace_id,
                span_id,
                parent_span_id,
                name: name.to_owned(),
                kind: SpanKind::Internal,
                start_time_ns: clock::unix_time_nanos(),
                end_time_ns: 0,
                status: SpanStatus::Unset,
                attributes: Vec::new(),
                events: Vec::new(),
            },
        )
    }
}

/// The wire code of a span kind.
pub open spec fn kind_code(k: SpanKind) -> nat {
    match k {
        SpanKind::Internal => 0,
        SpanKind::Server => 1,
        SpanKind::Client => 2,
        SpanKind::Producer => 3,
        SpanKind::Consumer => 4,
    }
}

/// The wire code of a span status.
pub open spec fn status_code(s: SpanStatus) -> nat {
    match s {
        SpanStatus::Okay => 0,
        SpanStatus::Error => 1,
        SpanStatus::Unset => 2,
    }
}

/// The JSON text one span renders to: identifiers in fixed-width hex, the
/// parent only when there is one, then name, kind, the two timestamps and
/// the status code.
pub open spec fn spec_span_json(span: OtelSpan) -> Seq<char> {
    "            {\n"@ + "              \"traceId\": \""@ + spec_hex_fixed(
        span.trace_id as nat,
        32,
    ) + "\",\n"@ + "              \"spanId\": \""@ + spec_hex_fixed(span.span_id as nat, 16)
        + "\",\n"@ + (if span.parent_span_id != 0 {
        "              \"parentSpanId\": \""@ + spec_hex_fixed(span.parent_span_id as nat, 16)
            + "\",\n"@
    } else {
        Seq::<char>::empty()
    }) + "              \"name\": \""@ + span.name@ + "\",\n"@ + "              \"kind\": "@
        + spec_dec(kind_code(span.kind)) + ",\n"@ + "              \"startTimeUnixNano\": "@
        + spec_dec(span.start_time_ns as nat) + ",\n"@
        + "              \"endTimeUnixNano\": "@ + spec_dec(span.end_time_ns as nat) + ",\n"@
        + "              \"status\": {\"code\": "@ + spec_dec(status_code(span.status))
        + "}\n"@ + "            }"@
}

/// The first `i` spans rendered, separated by commas.
pub open spec fn spans_json_prefix(s: Seq<OtelSpan>, i: int) -> Seq<char>
    decreases i,
{
    if i <= 0 {
        Seq::empty()
    } else {
        spans_json_prefix(s, i - 1) + (if i - 1 > 0 {
            ",\n"@
        } else {
            Seq::<char>::empty()
        }) + spec_span_json(s[i - 1])
    }
}

/// Exporter rendering spans in a JSON exchange format.
pub struct OtelExporter {
    /// Service name recorded in the resource attributes.
    pub service_name: String,
}

impl OtelExporter {
    /// New exporter under the default service name.
    pub fn new() -> (r: Self)
        ensures
            r.service_name@ == "embeddenator"@,
    {
        OtelExporter { service_name: "embeddenator".to_owned() }
    }

    /// Set the service name.
    pub fn with_service_name(self, name: &str) -> (r: Self)
        ensures
            r.service_name@ == name@,
    {
        OtelExporter { service_name: name.to_owned() }
    }

    /// The JSON text a whole export renders to.
    pub open spec fn spec_export(self, spans: Seq<OtelSpan>) -> Seq<char> {
        "{\n  \"resourceSpans\": [\n    {\n"@
            + "      \"resource\": {\"attributes\": [{\"key\": \"service.name\", \"value\": \""@
            + self.service_name@ + "\"}]},\n"@
            + "      \"scopeSpans\": [\n        {\n          \"spans\": [\n"@
            + spans_json_prefix(spans, spans.len() as int)
            + "\n          ]\n        }\n      ]\n    }\n  ]\n}"@
    }

    /// Render one span as JSON.
    #[verifier::rlimit(100)]
    #[verifier::spinoff_prover]
    fn span_to_json(&self, span: &OtelSpan) -> (s: String)
        ensures
            s@ == spec_span_json(*span),
    {
        let mut out = String::from_str("            {\n");
        out.append("              \"traceId\": \"");
        let t = u64_hex_fixed(span.trace_id, 32);
        out.append(t.as_str());
        out.append("\",\n");
        out.append("              \"spanId\": \"");
        let sp = u64_hex_fixed(span.span_id, 16);
        out.append(sp.as_str());
        out.append("\",\n");
        if span.parent_span_id != 0 {
            out.append("              \"parentSpanId\": \"");
            let p = u64_hex_fixed(span.parent_span_id, 16);
            out.append(p.as_str());
            out.append("\",\n");
        } else {
            proof {
                assert(out@ + Seq::<char>::empty() =~= out@);
            }
        }
        out.append("              \"name\": \"");
        out.append(span.name.as_str());
        out.append("\",\n");
        out.append("              \"kind\": ");
        let kc: u64 = match span.kind {
            SpanKind::Internal => 0,
            SpanKind::Server => 1,
            SpanKind::Client => 2,
            SpanKind::Producer => 3,
            SpanKind::Consumer => 4,
        };
        let k = u64_string(kc);
        out.append(k.as_str());
        out.append(",\n");
        out.append("              \"startTimeUnixNano\": ");
        let st = u64_string(span.start_time_ns);
        out.append(st.as_str());
        out.append(",\n");
        out.append("              \"endTimeUnixNano\": ");
        let en = u64_string(span.end_time_ns);
        out.append(en.as_str());
        out.append(",\n");
        out.append("              \"status\": {\"code\": ");
        let sc: u64 = match span.status {
            SpanStatus::Okay => 0,
            SpanStatus::Error => 1,
            SpanStatus::Unset => 2,
        };
        let stc = u64_string(sc);
        out.append(stc.as_str());
        out.append("}\n");
        out.append("            }");
        proof {
            assert(out@ =~= spec_span_json(*span));
        }
        out
    }

    /// Export a set of spans as one JSON document.
    pub fn export_spans(&self, spans: &[OtelSpan]) -> (s: String)
        ensures
            s@ == self.spec_export(spans@),
    {
        let mut out = String::from_str("{\n  \"resourceSpans\": [\n    {\n");
        out.append(
            "      \"resource\": {\"attributes\": [{\"key\": \"service.name\", \"value\": \"",
        );
        out.append(self.service_name.as_str());
        out.append("\"}]},\n");
        out.append("      \"scopeSpans\": [\n        {\n          \"spans\": [\n");
        let mut body = String::new();
        let mut i: usize = 0;
        let n = spans.len();
        while i < n
            invariant
                0 <= i <= n,
                n == spans@.len(),
                body@ == spans_json_prefix(spans@, i as int),
            decreases n - i,
        {
            if i > 0 {
                body.append(",\n");
            }
            let one = self.span_to_json(&spans[i]);
            body.append(one.as_str());
            i = i + 1;
            proof {
                assert(body@ =~= spans_json_prefix(spans@, i as int));
            }
        }
        out.append(body.as_str());
        out.append("\n          ]\n        }\n      ]\n    }\n  ]\n}");
        proof {
            assert(out@ =~= self.spec_export(spans@));
        }
        out
    }
}

impl Default for OtelExporter {
    /// An exporter under the default service name.
    fn default() -> (r: Self)
        ensures
            r.service_name@ == "embeddenator"@,
    {
        OtelExporter::new()
    }
}

/// Round trip of the propagation header: any span's rendered header parses
/// back to the span's own trace identifier, and the span's identifier
/// becomes the parent of the span the parse starts.
pub proof fn lemma_traceparent_roundtrip(trace_id: u64, span_id: u64)
    ensures
        spec_parse_traceparent(spec_traceparent(trace_id, span_id)) == Some(
            (trace_id, span_id),
        ),
{
    reveal_strlit("00-");
    reveal_strlit("-");
    reveal_strlit("-01");
    let h32 = spec_hex_fixed(trace_id as nat, 32);
    let h16 = spec_hex_fixed(span_id as nat, 16);
    let s = spec_traceparent(trace_id, span_id);
    lemma_hex_fixed_chars(trace_id as nat, 32);
    lemma_hex_fixed_chars(span_id as nat, 16);
    lemma_hex_fixed_chars(trace_id as nat, 16);
    lemma_hex_fixed_chars(0, 16);
    assert(s.len() == 55);
    assert(s[0] == '0' && s[1] == '0' && s[2] == '-');
    assert(forall|i: int| 3 <= i < 35 ==> s[i] == h32[i - 3]);
    assert(s[35] == '-');
    assert(forall|i: int| 36 <= i < 52 ==> s[i] == h16[i - 36]);
    assert(s[52] == '-' && s[53] == '0' && s[54] == '1');
    assert(forall|i: int| 3 <= i < 35 ==> is_hex_char(#[trigger] s[i]));
    assert(forall|i: int| 36 <= i < 52 ==> is_hex_char(#[trigger] s[i]));
    assert(pow16(16) == 0x10000000000000000) by {
        reveal_with_fuel(pow16, 17);
    }
    assert((trace_id as nat) < pow16(16));
    assert((span_id as nat) < pow16(16));
    lemma_hex_fixed_split(trace_id as nat, 16, 16);
    assert((trace_id as nat) / pow16(16) == 0) by {
        lemma_pow16_pos(16);
    }
    assert(h32 == spec_hex_fixed(0, 16) + spec_hex_fixed(trace_id as nat, 16));
    let low = spec_hex_fixed(trace_id as nat, 16);
    assert forall|q: int| 0 <= q < 16 implies s.subrange(19, 35)[q] == low[q] by {
        assert(s[19 + q] == h32[16 + q]);
        assert(h32[16 + q] == low[q]);
    }
    assert(s.subrange(19, 35) =~= low);
    lemma_hex_roundtrip(trace_id as nat, 16);
    assert(parse_hex_seq(s.subrange(19, 35)) == trace_id as nat);
    assert forall|q: int| 0 <= q < 16 implies s.subrange(36, 52)[q] == h16[q] by {
        assert(s[36 + q] == h16[q]);
    }
    assert(s.subrange(36, 52) =~= h16);
    lemma_hex_roundtrip(span_id as nat, 16);
    assert(parse_hex_seq(s.subrange(36, 52)) == span_id as nat);
}

} // verus!
