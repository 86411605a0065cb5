//! Metric names, their descriptions and buckets, and what else is counted.
use metrics::{Key, Level, Metadata, Recorder};
use metrics_exporter_prometheus::{Matcher, PrometheusBuilder, PrometheusRecorder};
use siphon_ai::net::{Endpoint, IpAddr};
use siphon_ai::telemetry::hep::{publish_counters, HepProtocol, HepTelemetry, HepTelemetryBuild};
use siphon_ai::telemetry::metrics::{
    histogram_buckets, publish_zero_baselines, register_descriptions, ALL_COUNTERS, ALL_GAUGES,
    ALL_HISTOGRAMS, CALLS_ACTIVE, CALLS_TOTAL, CALL_DURATION_SECONDS, INVITES_TOTAL,
    OUTBOUND_AUDIO_FRAMES_DROPPED_TOTAL, ROUTE_MATCH_TOTAL, RTP_RTT_MS, SDP_NEGOTIATE_SECONDS,
    WS_CONNECT_SECONDS,
};
use siphon_ai::telemetry::otel::{
    observe_export, publish_export_baseline, resource_attributes, trace_context, DropCount,
    ExportPipeline,
};
use siphon_ai::telemetry::transport::{
    baseline_labels, transport_label, SiphonTransportMetrics, TransportLabel,
};

fn recorder() -> PrometheusRecorder {
    let mut builder = PrometheusBuilder::new();
    for h in histogram_buckets() {
        let bounds: Vec<f64> = h.bounds.iter().map(|b| *b as f64 / 10_000.0).collect();
        builder = builder
            .set_buckets_for_metric(Matcher::Full(h.name.to_string()), &bounds)
            .expect("buckets");
    }
    builder.build_recorder()
}

/// What `/metrics` renders after `f`, with every description registered.
fn with_recorder<F: FnOnce(&PrometheusRecorder)>(f: F) -> String {
    let recorder = recorder();
    let handle = recorder.handle();
    metrics::with_local_recorder(&recorder, || {
        register_descriptions();
        f(&recorder);
    });
    handle.render()
}

fn meta() -> Metadata<'static> {
    Metadata::new("test", Level::INFO, None)
}

fn count(r: &PrometheusRecorder, name: &'static str, label: Option<(&'static str, &'static str)>, n: u64) {
    let key = match label {
        Some((k, v)) => Key::from_parts(name, vec![metrics::Label::new(k, v)]),
        None => Key::from_name(name),
    };
    r.register_counter(&key, &meta()).increment(n);
}

fn record(r: &PrometheusRecorder, name: &'static str, v: f64) {
    r.register_histogram(&Key::from_name(name), &meta()).record(v);
}

#[test]
fn descriptions_emit_help_lines() {
    let out = with_recorder(|r| {
        count(r, INVITES_TOTAL, Some(("result", "accepted")), 1);
        count(r, CALLS_TOTAL, Some(("cause", "server_hangup")), 1);
        count(r, ROUTE_MATCH_TOTAL, Some(("route", "default")), 1);
        r.register_gauge(&Key::from_name(CALLS_ACTIVE), &meta()).set(1.0);
        record(r, WS_CONNECT_SECONDS, 0.05);
        record(r, SDP_NEGOTIATE_SECONDS, 0.001);
        record(r, CALL_DURATION_SECONDS, 42.0);
    });
    for name in [
        INVITES_TOTAL,
        CALLS_TOTAL,
        ROUTE_MATCH_TOTAL,
        CALLS_ACTIVE,
        WS_CONNECT_SECONDS,
        SDP_NEGOTIATE_SECONDS,
        CALL_DURATION_SECONDS,
    ] {
        assert!(
            out.contains(&format!("# HELP {name} ")),
            "missing HELP for {name} in:\n{out}"
        );
    }
}

#[test]
fn zero_is_good_counters_are_published_before_anything_goes_wrong() {
    // Describing a metric must not be enough to create the series.
    let bare = with_recorder(|_| {});
    assert!(
        !bare.contains(OUTBOUND_AUDIO_FRAMES_DROPPED_TOTAL),
        "describing alone created {OUTBOUND_AUDIO_FRAMES_DROPPED_TOTAL}:\n{bare}"
    );

    let out = with_recorder(|_| {
        publish_zero_baselines();
    });
    assert!(
        out.contains(&format!("{OUTBOUND_AUDIO_FRAMES_DROPPED_TOTAL} 0")),
        "expected a zero baseline for {OUTBOUND_AUDIO_FRAMES_DROPPED_TOTAL} in:\n{out}"
    );
}

#[test]
fn zero_baseline_does_not_suppress_real_drops() {
    let out = with_recorder(|r| {
        publish_zero_baselines();
        count(r, OUTBOUND_AUDIO_FRAMES_DROPPED_TOTAL, None, 7);
    });
    assert!(
        out.contains(&format!("{OUTBOUND_AUDIO_FRAMES_DROPPED_TOTAL} 7")),
        "expected 7 after the baseline in:\n{out}"
    );
}

#[test]
fn ws_connect_seconds_renders_with_explicit_buckets_not_summary() {
    let out = with_recorder(|r| record(r, WS_CONNECT_SECONDS, 0.05));
    assert!(
        out.contains(&format!("{WS_CONNECT_SECONDS}_bucket")),
        "expected buckets in:\n{out}"
    );
    assert!(
        !out.contains(&format!("{WS_CONNECT_SECONDS}{{quantile")),
        "histogram unexpectedly rendered as summary"
    );
}

#[test]
fn rtp_rtt_ms_renders_with_explicit_buckets_not_summary() {
    let out = with_recorder(|r| record(r, RTP_RTT_MS, 67.1));
    assert!(
        out.contains(&format!("{RTP_RTT_MS}_bucket")),
        "expected buckets in:\n{out}"
    );
    assert!(
        !out.contains(&format!("{RTP_RTT_MS}{{quantile")),
        "rtt histogram unexpectedly rendered as summary"
    );
}

#[test]
fn counters_render_with_labels_intact() {
    let out = with_recorder(|r| {
        count(r, INVITES_TOTAL, Some(("result", "accepted")), 2);
        count(r, INVITES_TOTAL, Some(("result", "no_match")), 1);
    });
    assert!(out.contains(&format!("{INVITES_TOTAL}{{result=\"accepted\"}} 2")));
    assert!(out.contains(&format!("{INVITES_TOTAL}{{result=\"no_match\"}} 1")));
}

#[test]
fn gauges_render_current_value() {
    let out = with_recorder(|r| {
        let g = r.register_gauge(&Key::from_name(CALLS_ACTIVE), &meta());
        g.increment(3.0);
        g.decrement(1.0);
    });
    assert!(
        out.contains(&format!("{CALLS_ACTIVE} 2")),
        "expected gauge value 2 in:\n{out}"
    );
}

#[test]
fn metric_names_have_siphon_ai_prefix() {
    for &name in ALL_COUNTERS
        .iter()
        .chain(ALL_GAUGES.iter())
        .chain(ALL_HISTOGRAMS.iter())
    {
        assert!(name.starts_with("siphon_ai_"), "{name} missing prefix");
    }
}

#[test]
fn every_declared_metric_renders_a_help_line() {
    let out = with_recorder(|r| {
        for &name in ALL_COUNTERS.iter() {
            count(r, name, None, 1);
        }
        for &name in ALL_GAUGES.iter() {
            r.register_gauge(&Key::from_name(name), &meta()).set(1.0);
        }
        for &name in ALL_HISTOGRAMS.iter() {
            record(r, name, 1.0);
        }
    });
    for &name in ALL_COUNTERS
        .iter()
        .chain(ALL_GAUGES.iter())
        .chain(ALL_HISTOGRAMS.iter())
    {
        assert!(
            out.contains(&format!("# HELP {name} ")),
            "missing HELP for {name} in:\n{out}"
        );
    }
}

#[test]
fn every_histogram_renders_with_buckets_not_a_summary() {
    for &name in ALL_HISTOGRAMS.iter() {
        let out = with_recorder(|r| record(r, name, 1.0));
        assert!(
            out.contains(&format!("{name}_bucket")),
            "{name} has no buckets:\n{out}"
        );
        assert!(
            !out.contains(&format!("{name}{{quantile")),
            "{name} rendered as a summary:\n{out}"
        );
    }
}

#[test]
fn names_are_declared_once() {
    let mut all: Vec<&str> = ALL_COUNTERS
        .iter()
        .chain(ALL_GAUGES.iter())
        .chain(ALL_HISTOGRAMS.iter())
        .copied()
        .collect();
    let n = all.len();
    all.sort();
    all.dedup();
    assert_eq!(all.len(), n);
}

// ---- Transports ----

#[test]
fn rate_limited_drops_are_counted_per_transport() {
    let out = with_recorder(|r| {
        let m = SiphonTransportMetrics;
        for t in [TransportLabel::Udp, TransportLabel::Udp, TransportLabel::Tls] {
            let (name, label) = m.on_rate_limited(t);
            count(r, name, Some(("transport", label)), 1);
        }
    });
    assert!(
        out.contains(r#"siphon_ai_sip_rate_limited_total{transport="udp"} 2"#),
        "got:\n{out}"
    );
    assert!(
        out.contains(r#"siphon_ai_sip_rate_limited_total{transport="tls"} 1"#),
        "got:\n{out}"
    );
}

#[test]
fn every_transport_has_a_baseline() {
    assert!(baseline_labels().contains(&transport_label(TransportLabel::Udp)));
}

// ---- HEP ----

fn build(collector: bool, extra_sinks: usize) -> (HepTelemetry, bool, bool) {
    let (t, plan) = HepTelemetry::build(HepTelemetryBuild {
        collector,
        capture_id: 2002,
        capture_password: Some("homer-secret".into()),
        node_id: "node-a".into(),
        extra_sinks,
    });
    (t, plan.udp, plan.fan_out)
}

#[test]
fn build_without_a_collector_opens_no_socket_and_still_feeds_extra_sinks() {
    let (telemetry, udp, fan_out) = build(false, 1);
    assert!(!udp, "no collector: no UDP worker to drain and no socket opened");
    assert!(!fan_out);
    let p = telemetry.emit_log("hello", Some("call-1"), None, 5);
    assert_eq!(p.correlation_id.as_deref(), Some("call-1"));
    assert_eq!(p.payload, b"hello");
    assert_eq!(p.src.text, "0.0.0.0:0");
    assert_eq!(p.timestamp_ms, 5);
}

#[test]
fn a_single_leg_is_used_directly_rather_than_wrapped() {
    assert_eq!((build(false, 1).1, build(false, 1).2), (false, false));
    assert_eq!((build(true, 0).1, build(true, 0).2), (true, false));
    assert_eq!((build(true, 1).1, build(true, 1).2), (true, true));
    assert_eq!((build(false, 2).1, build(false, 2).2), (false, true));
}

#[test]
fn emit_verstat_composes_verstat_chunk_with_correlation() {
    let (tel, _, _) = build(false, 1);
    let payload = br#"{"attest":"A","signature_valid":true}"#;
    let pkt = tel.emit_verstat(payload, "abc-123@pbx.example.com", 9);
    assert_eq!(pkt.protocol, HepProtocol::Verstat);
    assert_eq!(pkt.capture_id, 2002);
    assert_eq!(pkt.capture_password.as_deref(), Some("homer-secret"));
    // The correlation is the SIP Call-ID.
    assert_eq!(
        pkt.correlation_id.as_deref(),
        Some("abc-123@pbx.example.com")
    );
    assert_eq!(pkt.payload, payload);
    assert_eq!(tel.node_id(), "node-a");
}

#[test]
fn a_known_peer_stands_at_both_ends_of_a_log_packet() {
    let (tel, _, _) = build(true, 0);
    let peer = Endpoint {
        ip: IpAddr::V4(1),
        port: 2,
        text: "0.0.0.1:2".into(),
    };
    let p = tel.emit_log("m", None, Some(peer), 0);
    assert_eq!((p.src.text.as_str(), p.dst.text.as_str()), ("0.0.0.1:2", "0.0.0.1:2"));
    assert_eq!(p.correlation_id, None);
}

// ---- Traces ----

#[test]
fn without_a_traceparent_there_are_no_headers() {
    assert!(trace_context(None, None).is_none());
}

#[test]
fn a_traceparent_yields_headers() {
    let h = trace_context(Some("00-a-b-01".into()), None).unwrap();
    assert_eq!(h.traceparent, "00-a-b-01");
    assert!(h.tracestate.is_none());
}

#[test]
fn exports_are_observed() {
    let spans = "siphon_ai_otlp_spans_dropped_total";
    let logs = "siphon_ai_otlp_log_records_dropped_total";
    let gauge = "siphon_ai_otlp_collector_up";
    let series = |counter, count| DropCount { counter, reason: "collector_down", count };
    for (pipeline, counter) in [(ExportPipeline::Spans, spans), (ExportPipeline::LogRecords, logs)] {
        let up = observe_export(pipeline, true, 3);
        assert_eq!((up.gauge, up.collector_up, up.dropped), (gauge, true, None));
        let down = observe_export(pipeline, false, 3);
        assert_eq!((down.gauge, down.collector_up), (gauge, false));
        assert_eq!(down.dropped, Some(series(counter, 3)));
    }
    let quiet = publish_export_baseline(false);
    assert_eq!((quiet.gauge, quiet.collector_up), (gauge, true));
    assert_eq!(quiet.counters, vec![series(spans, 0)]);
    assert_eq!(publish_export_baseline(true).counters, vec![series(spans, 0), series(logs, 0)]);
    let attrs = resource_attributes("svc".into(), "n1".into(), vec![("k".into(), "v".into())]);
    assert!(attrs.contains(&("k".to_string(), "v".to_string())));
    assert!(attrs.iter().any(|(_, v)| v == "svc"));
}

#[test]
fn shipping_counters_are_published_by_name() {
    let c = publish_counters(7, 2);
    assert_eq!(c.sent, ("siphon_ai_hep_packets_sent_total", 7));
    assert_eq!(c.dropped, ("siphon_ai_hep_packets_dropped_total", 2));
    assert_eq!(c.reason, "queue_full");
}
