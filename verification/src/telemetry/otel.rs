//! OTLP export: resource attributes, export outcomes and trace-context headers.
use vstd::prelude::*;

use crate::telemetry::metrics::{OTLP_COLLECTOR_UP, OTLP_LOG_RECORDS_DROPPED_TOTAL, OTLP_SPANS_DROPPED_TOTAL};
use crate::text::concat3;

verus! {

/// The instrumentation-scope name of the daemon's spans.
pub const OTEL_SCOPE: &'static str = "siphon-ai";

/// Failure building an exporter.
#[derive(Debug)]
pub enum OtelError {
    Exporter { endpoint: String, detail: String },
    LogExporter { endpoint: String, detail: String },
}

impl OtelError {
    pub open spec fn message(self) -> Seq<char> {
        match self {
            OtelError::Exporter { endpoint, detail } => "failed to build OTLP span exporter for "@
                + endpoint@ + ": "@ + detail@,
            OtelError::LogExporter { endpoint, detail } => "failed to build OTLP log exporter for "@
                + endpoint@ + ": "@ + detail@,
        }
    }

    /// The message, as operators see it.
    pub fn to_string(&self) -> (r: String)
        ensures
            r@ == self.message(),
    {
        match self {
            OtelError::Exporter { endpoint, detail } => {
                let mut r = concat3("failed to build OTLP span exporter for ", endpoint.as_str(), ": ");
                r.push_str(detail.as_str());
                r
            },
            OtelError::LogExporter { endpoint, detail } => {
                let mut r = concat3("failed to build OTLP log exporter for ", endpoint.as_str(), ": ");
                r.push_str(detail.as_str());
                r
            },
        }
    }
}

/// The `reason` label of what is dropped because no collector takes it.
pub const COLLECTOR_DOWN: &'static str = "collector_down";

/// The two export pipelines.
#[derive(Debug, Clone, Copy, PartialEq, Eq, Structural)]
pub enum ExportPipeline {
    Spans,
    LogRecords,
}

/// The counter of what a pipeline drops.
pub open spec fn drop_counter(pipeline: ExportPipeline) -> Seq<char> {
    match pipeline {
        ExportPipeline::Spans => OTLP_SPANS_DROPPED_TOTAL@,
        ExportPipeline::LogRecords => OTLP_LOG_RECORDS_DROPPED_TOTAL@,
    }
}

/// A drop series, and a count for it.
#[derive(Debug, Clone, Copy, PartialEq, Eq)]
pub struct DropCount {
    /// The counter.
    pub counter: &'static str,
    /// Its `reason` label.
    pub reason: &'static str,
    pub count: u64,
}

impl DropCount {
    /// A count for the drop series of `pipeline`.
    pub open spec fn is_for(self, pipeline: ExportPipeline, count: u64) -> bool {
        &&& self.counter@ == drop_counter(pipeline)
        &&& self.reason@ == COLLECTOR_DOWN@
        &&& self.count == count
    }
}

/// A count for the drop series of `pipeline`.
pub fn drop_count(pipeline: ExportPipeline, count: u64) -> (r: DropCount)
    ensures
        r.is_for(pipeline, count),
{
    let counter = match pipeline {
        ExportPipeline::Spans => OTLP_SPANS_DROPPED_TOTAL,
        ExportPipeline::LogRecords => OTLP_LOG_RECORDS_DROPPED_TOTAL,
    };
    DropCount { counter, reason: COLLECTOR_DOWN, count }
}

/// What one batch export does to the outage series.
#[derive(Debug, Clone, Copy, PartialEq, Eq)]
pub struct ExportObservation {
    /// The collector gauge.
    pub gauge: &'static str,
    /// The value it is set to.
    pub collector_up: bool,
    /// What the drop counter of the pipeline grows by; `None` leaves it alone.
    pub dropped: Option<DropCount>,
}

/// The outcome of one batch export: a failed one turns the collector gauge off and
/// counts the whole batch as dropped by its pipeline.
pub fn observe_export(pipeline: ExportPipeline, succeeded: bool, batch_len: u64) -> (r:
    ExportObservation)
    ensures
        r.gauge@ == OTLP_COLLECTOR_UP@,
        r.collector_up == succeeded,
        succeeded ==> r.dropped is None,
        !succeeded ==> r.dropped is Some && r.dropped->0.is_for(pipeline, batch_len),
{
    ExportObservation {
        gauge: OTLP_COLLECTOR_UP,
        collector_up: succeeded,
        dropped: if succeeded {
            None
        } else {
            Some(drop_count(pipeline, batch_len))
        },
    }
}

/// The outage series at their resting values.
#[derive(Debug, PartialEq, Eq)]
pub struct ExportBaseline {
    /// The collector gauge.
    pub gauge: &'static str,
    /// The value it is set to.
    pub collector_up: bool,
    /// The value each drop counter is set to.
    pub counters: Vec<DropCount>,
}

/// What is published when export starts, so that no outage series is ever absent: the
/// collector gauge at one, and the drop counter of each pipeline at zero, that of the
/// log records only when they are exported.
pub fn publish_export_baseline(logs: bool) -> (r: ExportBaseline)
    ensures
        r.gauge@ == OTLP_COLLECTOR_UP@,
        r.collector_up,
        r.counters@.len() == (if logs {
            2nat
        } else {
            1
        }),
        r.counters@[0].is_for(ExportPipeline::Spans, 0),
        logs ==> r.counters@[1].is_for(ExportPipeline::LogRecords, 0),
{
    let mut counters: Vec<DropCount> = Vec::new();
    counters.push(drop_count(ExportPipeline::Spans, 0));
    if logs {
        counters.push(drop_count(ExportPipeline::LogRecords, 0));
    }
    ExportBaseline { gauge: OTLP_COLLECTOR_UP, collector_up: true, counters }
}

/// The resource attributes of the exported telemetry: service name, instance id,
/// then the configured extras in order.
pub fn resource_attributes(
    service_name: String,
    node_id: String,
    extra_attributes: Vec<(String, String)>,
) -> (r: Vec<(String, String)>)
    ensures
        r@.len() == extra_attributes@.len() + 2,
        r@[0].0@ == "service.name"@ && r@[0].1 == service_name,
        r@[1].0@ == "service.instance.id"@ && r@[1].1 == node_id,
        r@.subrange(2, r@.len() as int) == extra_attributes@,
{
    let mut r: Vec<(String, String)> = Vec::new();
    r.push(("service.name".to_owned(), service_name));
    r.push(("service.instance.id".to_owned(), node_id));
    let mut extra = extra_attributes;
    r.append(&mut extra);
    assert(r@.subrange(2, r@.len() as int) =~= extra_attributes@);
    r
}

/// W3C trace-context headers of a live span, ready to send.
#[derive(Debug, Clone, PartialEq, Eq)]
pub struct TraceContextHeaders {
    pub traceparent: String,
    /// `None` when there is none to forward.
    pub tracestate: Option<String>,
}

/// The headers to propagate, from what the propagator injected: none without a
/// `traceparent`, and an empty `tracestate` is left out.
pub fn trace_context(traceparent: Option<String>, tracestate: Option<String>) -> (r: Option<
    TraceContextHeaders,
>)
    ensures
        match traceparent {
            None => r is None,
            Some(p) => {
                &&& r is Some
                &&& r->0.traceparent == p
                &&& r->0.tracestate == (match tracestate {
                    Some(s) => if s@.len() > 0 {
                        Some(s)
                    } else {
                        None
                    },
                    None => None,
                })
            },
        },
{
    match traceparent {
        None => None,
        Some(traceparent) => {
            let tracestate = match tracestate {
                Some(s) => if s.as_str().is_empty() {
                    None
                } else {
                    Some(s)
                },
                None => None,
            };
            Some(TraceContextHeaders { traceparent, tracestate })
        },
    }
}

// ---- What is promised of every export ----

/// An export says whether the collector is up, and one that failed counts its whole batch
/// as dropped by its own pipeline; one that succeeded drops nothing.
pub proof fn a_failed_export_drops_its_batch(
    pipeline: ExportPipeline,
    succeeded: bool,
    batch_len: u64,
    r: ExportObservation,
)
    requires
        call_ensures(observe_export, (pipeline, succeeded, batch_len), r),
    ensures
        r.gauge@ == OTLP_COLLECTOR_UP@,
        r.collector_up <==> succeeded,
        r.dropped is None <==> succeeded,
        !succeeded ==> r.dropped->0.count == batch_len && r.dropped->0.reason@
            == "collector_down"@,
        !succeeded && pipeline is Spans ==> r.dropped->0.counter@ == OTLP_SPANS_DROPPED_TOTAL@,
        !succeeded && pipeline is LogRecords ==> r.dropped->0.counter@
            == OTLP_LOG_RECORDS_DROPPED_TOTAL@,
{
}

/// Export starts with the collector up and nothing dropped, by the spans and, where they are
/// exported, by the log records.
pub proof fn an_export_starts_at_rest(logs: bool, r: ExportBaseline, i: int)
    requires
        call_ensures(publish_export_baseline, (logs,), r),
    ensures
        r.gauge@ == OTLP_COLLECTOR_UP@,
        r.collector_up,
        logs ==> r.counters@.len() == 2 && r.counters@[1].counter@
            == OTLP_LOG_RECORDS_DROPPED_TOTAL@,
        !logs ==> r.counters@.len() == 1,
        r.counters@[0].counter@ == OTLP_SPANS_DROPPED_TOTAL@,
        0 <= i < r.counters@.len() ==> r.counters@[i].count == 0 && r.counters@[i].reason@
            == "collector_down"@,
{
}

/// The resource names its service and its node, then every extra in order.
pub proof fn a_resource_has_its_attributes(
    service_name: String,
    node_id: String,
    extra: Vec<(String, String)>,
    r: Vec<(String, String)>,
    i: int,
)
    requires
        call_ensures(resource_attributes, (service_name, node_id, extra), r),
    ensures
        r@.len() == extra@.len() + 2,
        r@[0].0@ == "service.name"@ && r@[0].1 == service_name,
        r@[1].0@ == "service.instance.id"@ && r@[1].1 == node_id,
        0 <= i < extra@.len() ==> r@[i + 2] == extra@[i],
{
    if 0 <= i < extra@.len() {
        assert(r@.subrange(2, r@.len() as int)[i] == r@[i + 2]);
    }
}

/// The trace context is forwarded as it is, an empty `tracestate` is left out, and without
/// a `traceparent` there is nothing to forward.
pub proof fn a_trace_context_is_forwarded(
    traceparent: Option<String>,
    tracestate: Option<String>,
    r: Option<TraceContextHeaders>,
)
    requires
        call_ensures(trace_context, (traceparent, tracestate), r),
    ensures
        r is Some <==> traceparent is Some,
        r is Some ==> r->0.traceparent == traceparent->0,
        r is Some ==> (r->0.tracestate is Some <==> tracestate is Some && tracestate->0@.len() > 0),
        r is Some && r->0.tracestate is Some ==> r->0.tracestate == tracestate,
{
}

/// A failure names the exporter, its endpoint and its reason.
pub proof fn a_failure_names_its_exporter(e: &OtelError, r: String)
    requires
        call_ensures(OtelError::to_string, (e,), r),
    ensures
        *e is Exporter ==> r@ == "failed to build OTLP span exporter for "@ + e->Exporter_endpoint@
            + ": "@ + e->Exporter_detail@,
        *e is LogExporter ==> r@ == "failed to build OTLP log exporter for "@
            + e->LogExporter_endpoint@ + ": "@ + e->LogExporter_detail@,
{
}

} // verus!
