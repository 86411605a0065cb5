//! The three rings: SIP ladders, call records, recent errors.
use siphon_ai::net::{Endpoint, IpAddr};
use siphon_ai::telemetry::cdr_ring::{self, CdrRecord, CdrRing};
use siphon_ai::telemetry::error_ring::{self, CapturedEvent, ErrorRing, ErrorRingLayer, Level};
use siphon_ai::telemetry::hep::{HepPacket, HepProtocol, IpProto};
use siphon_ai::telemetry::sip_ring::{
    complete, eviction_counts, is_enabled, mark_live, push, set_capacity, snapshot, SipMessageEntry,
    SipRing, SipRingSink, MAX_LIVE, MAX_PENDING,
};
use siphon_ai::telemetry::visitor::{CallIdVisitor, MessageVisitor};

fn ring(cap_calls: usize, cap_messages: usize) -> SipRing {
    let mut r = SipRing::new();
    set_capacity(&mut r, cap_calls, cap_messages);
    r
}

fn entry(payload: &str) -> SipMessageEntry {
    SipMessageEntry {
        ts_ms: 1,
        direction: "in".into(),
        src: "10.0.0.1:5060".into(),
        dst: "10.0.0.2:5060".into(),
        payload: payload.into(),
    }
}

fn payloads(r: &SipRing, id: &str) -> (Vec<String>, bool) {
    let (messages, truncated) = snapshot(r, id).expect("held");
    (messages.into_iter().map(|m| m.payload).collect(), truncated)
}

#[test]
fn a_run_of_messages_is_read_back_in_order() {
    let mut r = ring(10, 3);
    for (id, payload) in [("a", "1"), ("b", "x"), ("a", "2"), ("a", "3"), ("b", "y")] {
        push(&mut r, id, entry(payload));
    }
    assert_eq!(payloads(&r, "a"), (vec!["1".into(), "2".into(), "3".into()], false));
    assert_eq!(payloads(&r, "b"), (vec!["x".into(), "y".into()], false));
    assert!(snapshot(&r, "c").is_none());
    push(&mut r, "a", entry("4"));
    assert_eq!(payloads(&r, "a"), (vec!["2".into(), "3".into(), "4".into()], true));
}

#[test]
fn captures_and_drops_are_counted_by_result() {
    let mut r = ring(10, 1);
    assert_eq!(push(&mut r, "a", entry("1")).counts(), vec![("captured", 1)]);
    assert_eq!(
        push(&mut r, "a", entry("2")).counts(),
        vec![("dropped_call_cap", 1), ("captured", 1)]
    );
    for i in 1..MAX_PENDING {
        push(&mut r, &format!("noise-{i}"), entry("x"));
    }
    assert_eq!(
        push(&mut r, "one more", entry("x")).counts(),
        vec![("captured", 1), ("dropped_trace_cap", 1)]
    );
    assert!(eviction_counts(0).is_empty());
    assert_eq!(eviction_counts(2), vec![("dropped_trace_cap", 2)]);
    assert!(push(&mut ring(0, 1), "a", entry("1")).counts().is_empty());
}

#[test]
fn per_call_cap_drops_oldest_within_the_call_and_flags_truncation() {
    let mut r = ring(10, 3);
    for i in 0..5 {
        push(&mut r, "call-a", entry(&format!("MSG{i}")));
    }
    let (msgs, truncated) = snapshot(&r, "call-a").expect("trace held");
    assert_eq!(msgs.len(), 3, "per-call cap holds");
    assert_eq!(msgs[0].payload, "MSG2", "oldest within the call went");
    assert_eq!(
        msgs[2].payload, "MSG4",
        "newest retained, oldest-first order"
    );
    assert!(truncated, "truncation is reported, not silent");
}

#[test]
fn completed_window_evicts_whole_calls_in_completion_order() {
    let mut r = ring(2, 8);
    for i in 0..3 {
        let id = format!("call-{i}");
        push(&mut r, &id, entry("INVITE"));
        complete(&mut r, &id);
    }
    assert!(snapshot(&r, "call-0").is_none(), "oldest completed evicted");
    assert!(snapshot(&r, "call-1").is_some());
    assert!(snapshot(&r, "call-2").is_some());
}

#[test]
fn live_calls_are_never_evicted_by_the_completed_window() {
    let mut r = ring(1, 8);
    push(&mut r, "live", entry("INVITE"));
    for i in 0..5 {
        let id = format!("done-{i}");
        push(&mut r, &id, entry("INVITE"));
        complete(&mut r, &id);
    }
    assert!(
        snapshot(&r, "live").is_some(),
        "an in-progress call survives a full completed window"
    );
    assert!(snapshot(&r, "done-4").is_some(), "newest completed retained");
    assert!(snapshot(&r, "done-0").is_none());
}

#[test]
fn pending_population_is_bounded_for_traffic_that_never_completes() {
    let mut r = ring(50, 4);
    for i in 0..(MAX_PENDING + 40) {
        push(&mut r, &format!("scanner-{i}"), entry("INVITE"));
    }
    let held = r.trace_count();
    assert!(
        held <= MAX_PENDING,
        "pending traces bounded at {MAX_PENDING}, held {held}"
    );
    assert!(
        snapshot(&r, "scanner-0").is_none(),
        "least-recently-touched pending trace evicted first"
    );
    let newest = format!("scanner-{}", MAX_PENDING + 39);
    assert!(snapshot(&r, &newest).is_some(), "most recent pending retained");
}

#[test]
fn a_flood_of_noise_cannot_evict_a_live_call() {
    let mut r = ring(50, 8);

    // A call arrives and is accepted, then goes quiet.
    push(&mut r, "the-live-call", entry("INVITE"));
    push(&mut r, "the-live-call", entry("ACK"));
    mark_live(&mut r, "the-live-call");

    // Then far more non-call traffic than the noise cap, all of it
    // touched more recently than the silent call.
    for i in 0..(MAX_PENDING + 100) {
        push(&mut r, &format!("scanner-{i}"), entry("INVITE"));
    }

    let held = snapshot(&r, "the-live-call");
    assert!(
        held.is_some(),
        "a live call must survive any amount of noise"
    );
    assert_eq!(held.unwrap().0.len(), 2, "and keep its messages");

    // The noise is still bounded.
    let noise = r.pending_count(false);
    assert!(noise <= MAX_PENDING, "noise still capped, held {noise}");
}

#[test]
fn live_calls_are_bounded_too_and_evict_oldest_first() {
    let mut r = ring(50, 8);
    for i in 0..(MAX_LIVE + 20) {
        let id = format!("call-{i}");
        push(&mut r, &id, entry("INVITE"));
        mark_live(&mut r, &id);
    }
    let live = r.pending_count(true);
    assert!(live <= MAX_LIVE, "live population bounded, held {live}");
    assert!(snapshot(&r, "call-0").is_none(), "oldest live evicted first");
    let newest = format!("call-{}", MAX_LIVE + 19);
    assert!(snapshot(&r, &newest).is_some(), "newest live retained");
}

#[test]
fn completing_a_call_releases_its_live_slot() {
    let mut r = ring(50, 8);
    push(&mut r, "c1", entry("INVITE"));
    mark_live(&mut r, "c1");
    assert_eq!(r.pending_count(true), 1);
    assert!(complete(&mut r, "c1"));
    assert_eq!(
        (r.pending_count(true), r.pending_count(false), r.trace_count()),
        (0, 0, 1),
        "moved from live to completed"
    );
}

#[test]
fn mark_live_is_idempotent_and_ignores_unknown_ids() {
    let mut r = ring(50, 8);
    mark_live(&mut r, "never-seen"); // must not panic or create
    assert!(snapshot(&r, "never-seen").is_none());
    push(&mut r, "c2", entry("INVITE"));
    mark_live(&mut r, "c2");
    mark_live(&mut r, "c2");
    assert!(snapshot(&r, "c2").is_some());
}

#[test]
fn zero_disables_and_drops_everything_held() {
    let mut r = ring(10, 8);
    push(&mut r, "call-a", entry("INVITE"));
    assert!(snapshot(&r, "call-a").is_some());
    assert!(is_enabled(&r));

    set_capacity(&mut r, 0, 8);
    assert!(!is_enabled(&r), "capture is off");
    assert!(snapshot(&r, "call-a").is_none(), "held messages dropped");
    push(&mut r, "call-b", entry("INVITE"));
    assert!(snapshot(&r, "call-b").is_none(), "capture stops");
}

#[test]
fn shrinking_the_message_cap_trims_traces_already_held() {
    let mut r = ring(10, 8);
    for i in 0..8 {
        push(&mut r, "call-a", entry(&format!("MSG{i}")));
    }
    assert_eq!(snapshot(&r, "call-a").unwrap().0.len(), 8);
    set_capacity(&mut r, 10, 2);
    let (msgs, truncated) = snapshot(&r, "call-a").unwrap();
    assert_eq!(msgs.len(), 2, "what is already held is trimmed");
    assert_eq!(msgs[1].payload, "MSG7");
    assert!(truncated);
}

// ---- The sink that feeds the ladders ----

fn ip(a: u8, b: u8, c: u8, d: u8) -> IpAddr {
    IpAddr::V4(u32::from_be_bytes([a, b, c, d]))
}

fn at(a: u8, b: u8, c: u8, d: u8, port: u16) -> Endpoint {
    Endpoint {
        ip: ip(a, b, c, d),
        port,
        text: format!("{a}.{b}.{c}.{d}:{port}"),
    }
}

fn packet(protocol: HepProtocol, src: Endpoint, dst: Endpoint, id: Option<&str>, payload: &[u8]) -> HepPacket {
    HepPacket {
        capture_id: 1,
        capture_password: None,
        protocol,
        transport: IpProto::Udp,
        src,
        dst,
        timestamp_ms: 17,
        correlation_id: id.map(|s| s.to_string()),
        payload: payload.to_vec(),
    }
}

#[test]
fn sink_ignores_non_sip_protocols_and_packets_without_a_call_id() {
    let mut r = ring(10, 8);
    let sink = SipRingSink::new(vec![ip(10, 0, 0, 2)], 5060);
    let rtcp = packet(
        HepProtocol::Rtcp,
        at(10, 0, 0, 1, 4000),
        at(10, 0, 0, 2, 4000),
        Some("call-x"),
        b"rtcp",
    );
    sink.send(&mut r, rtcp);
    assert!(snapshot(&r, "call-x").is_none(), "RTCP is not signaling");

    let no_id = packet(
        HepProtocol::Sip,
        at(10, 0, 0, 1, 4000),
        at(10, 0, 0, 2, 4000),
        None,
        b"rtcp",
    );
    assert!(sink.send(&mut r, no_id).is_none());

    let sip = packet(
        HepProtocol::Sip,
        at(203, 0, 113, 9, 5060),
        at(10, 0, 0, 2, 5060),
        Some("call-x"),
        b"INVITE sip:x SIP/2.0\r\n",
    );
    sink.send(&mut r, sip);
    let (msgs, _) = snapshot(&r, "call-x").expect("SIP captured");
    assert_eq!(msgs.len(), 1);
    assert_eq!(msgs[0].direction, "in", "inbound: src is not our bind");
    assert!(msgs[0].payload.starts_with("INVITE"));
    assert_eq!(msgs[0].ts_ms, 17);
    assert_eq!(msgs[0].src, "203.0.113.9:5060");
}

#[test]
fn bytes_that_are_no_text_are_replaced() {
    let mut r = ring(10, 8);
    let sink = SipRingSink::new(vec![], 5060);
    let p = packet(
        HepProtocol::Sip,
        at(1, 1, 1, 1, 1),
        at(2, 2, 2, 2, 2),
        Some("c"),
        b"A\xffB",
    );
    sink.send(&mut r, p);
    assert_eq!(snapshot(&r, "c").unwrap().0[0].payload, "A\u{fffd}B");
}

fn direction(sink: &SipRingSink, src: Endpoint, dst: Endpoint) -> String {
    let mut r = ring(10, 8);
    sink.send(&mut r, packet(HepProtocol::Sip, src, dst, Some("c"), b"x"));
    snapshot(&r, "c").unwrap().0[0].direction.clone()
}

#[test]
fn direction_is_out_when_the_source_is_our_own_bind() {
    let sink = SipRingSink::new(vec![ip(139, 177, 205, 140)], 5060);
    assert_eq!(
        direction(&sink, at(139, 177, 205, 140, 5060), at(194, 195, 208, 34, 5060)),
        "out"
    );
}

#[test]
fn inbound_from_a_peer_on_port_5060_is_not_labelled_outbound() {
    let sink = SipRingSink::new(vec![ip(139, 177, 205, 140)], 5060);
    // Same port as our bind, different host: inbound.
    assert_eq!(
        direction(&sink, at(203, 0, 113, 9, 5060), at(139, 177, 205, 140, 5060)),
        "in"
    );
}

#[test]
fn wildcard_bind_stamps_our_end_unspecified_and_still_resolves() {
    let sink = SipRingSink::new(vec![ip(139, 177, 205, 140)], 5060);
    assert_eq!(
        direction(&sink, at(194, 195, 208, 34, 5060), at(0, 0, 0, 0, 5060)),
        "in",
        "arrived at our wildcard-bound listener"
    );
    assert_eq!(
        direction(&sink, at(0, 0, 0, 0, 5060), at(194, 195, 208, 34, 5060)),
        "out",
        "left our wildcard-bound listener"
    );
}

#[test]
fn loopback_uses_the_bind_port_to_break_the_tie() {
    let sink = SipRingSink::new(vec![ip(127, 0, 0, 1)], 5070);
    assert_eq!(
        direction(&sink, at(127, 0, 0, 1, 52620), at(127, 0, 0, 1, 5070)),
        "in",
        "an INVITE arriving at our listener is inbound, even on loopback"
    );
    assert_eq!(
        direction(&sink, at(127, 0, 0, 1, 5070), at(127, 0, 0, 1, 52620)),
        "out"
    );
}

#[test]
fn direction_is_unknown_when_neither_end_is_recognisably_us() {
    // Wildcard bind, no public address configured.
    let sink = SipRingSink::new(vec![], 5060);
    assert_eq!(
        direction(&sink, at(203, 0, 113, 9, 5060), at(10, 0, 0, 2, 5060)),
        "unknown"
    );
}

// ---- Call records ----

fn record(id: &str) -> CdrRecord {
    CdrRecord::from_json(format!("{{\"call_id\":\"{id}\"}}"))
}

#[test]
fn a_record_carries_the_ids_of_its_text() {
    let json = "{\"sip_call_id\":\"s@pbx\",\"call_id\":\"c\",\"version\":8}";
    let r = CdrRecord::from_json(json.into());
    assert_eq!(r.call_id.as_deref(), Some("c"));
    assert_eq!(r.sip_call_id.as_deref(), Some("s@pbx"));
    assert_eq!(r.json, json);
    // An id that is no string, a text that is no object: nothing to look up.
    for json in ["{\"call_id\":7,\"sip_call_id\":null}", "[]", "call_id"] {
        let r = CdrRecord::from_json(json.into());
        assert!(r.call_id.is_none() && r.sip_call_id.is_none(), "{json}");
        assert_eq!(r.json, json);
    }
}

#[test]
fn bounded_newest_first_and_zero_disables() {
    let mut r = CdrRing::new();
    cdr_ring::set_capacity(&mut r, 3);
    for i in 0..5 {
        cdr_ring::push(&mut r, record(&format!("c{i}")));
    }
    let snap = cdr_ring::snapshot(&r);
    assert_eq!(snap.len(), 3);
    assert_eq!(snap[0].call_id.as_deref(), Some("c4"));
    assert_eq!(snap[2].call_id.as_deref(), Some("c2"));

    cdr_ring::set_capacity(&mut r, 0);
    cdr_ring::push(&mut r, record("dropped"));
    assert!(cdr_ring::snapshot(&r).is_empty());
}

#[test]
fn records_held_before_are_the_first_to_go() {
    let mut r = CdrRing::new();
    cdr_ring::set_capacity(&mut r, 3);
    cdr_ring::push(&mut r, record("old-1"));
    cdr_ring::push(&mut r, record("old-2"));
    for i in 0..2 {
        cdr_ring::push(&mut r, record(&format!("c{i}")));
    }
    let ids: Vec<_> = cdr_ring::snapshot(&r).into_iter().map(|c| c.call_id.unwrap()).collect();
    assert_eq!(ids, ["c1", "c0", "old-2"]);
}

// ---- Recent errors ----

fn event(level: Level, message: &str, fields: &str) -> CapturedEvent {
    CapturedEvent {
        level,
        target: "t".into(),
        message: message.into(),
        fields: fields.into(),
        call_id: None,
        span_call_ids: vec![],
    }
}

#[test]
fn captures_warn_and_error_not_info() {
    let mut r = ErrorRing::new();
    assert!(ErrorRingLayer::on_event(&mut r, event(Level::Info, "ring-test not captured", ""), 1).is_none());
    let mut v = MessageVisitor::new();
    v.record_debug("deadline", "5");
    v.record_debug("message", "ring-test slow");
    let slow = CapturedEvent {
        message: v.message,
        fields: v.fields,
        ..event(Level::Warn, "", "")
    };
    assert_eq!(ErrorRingLayer::on_event(&mut r, slow, 2), Some("warn"));
    assert_eq!(
        ErrorRingLayer::on_event(&mut r, event(Level::Error, "ring-test broken", ""), 3),
        Some("error")
    );
    let snap = error_ring::snapshot(&r);
    assert_eq!(snap.len(), 2);
    assert_eq!(snap[0].message, "ring-test broken");
    assert_eq!(snap[0].level, "error");
    assert_eq!(snap[1].message, "ring-test slow deadline=5");
    assert_eq!(snap[1].level, "warn");
}

#[test]
fn call_id_comes_from_the_enclosing_span() {
    let mut r = ErrorRing::new();
    let mut e = event(Level::Warn, "x", "");
    e.span_call_ids = vec![None, Some("siphon-abc".into()), Some("outer".into())];
    ErrorRingLayer::on_event(&mut r, e, 1);
    let mut e = event(Level::Warn, "y", "");
    e.call_id = Some("own".into());
    e.span_call_ids = vec![Some("siphon-abc".into())];
    ErrorRingLayer::on_event(&mut r, e, 2);
    let snap = error_ring::snapshot(&r);
    assert_eq!(snap[1].call_id.as_deref(), Some("siphon-abc"));
    assert_eq!(snap[0].call_id.as_deref(), Some("own"));
}

#[test]
fn ring_is_bounded_and_resizable() {
    let mut r = ErrorRing::new();
    error_ring::set_capacity(&mut r, 3);
    for i in 0..5 {
        ErrorRingLayer::on_event(&mut r, event(Level::Warn, &format!("m{i}"), ""), i);
    }
    let snap = error_ring::snapshot(&r);
    assert_eq!(snap.len(), 3);
    assert_eq!(snap[0].message, "m4");
    error_ring::set_capacity(&mut r, 1);
    let snap = error_ring::snapshot(&r);
    assert_eq!(snap.len(), 1);
    assert_eq!(snap[0].message, "m4");
    error_ring::set_capacity(&mut r, 0);
    assert!(error_ring::snapshot(&r).is_empty());
}

#[test]
fn clearing_empties_the_ring() {
    let mut r = ErrorRing::new();
    ErrorRingLayer::on_event(&mut r, event(Level::Error, "m", ""), 1);
    error_ring::clear(&mut r);
    assert!(error_ring::snapshot(&r).is_empty());
}

#[test]
fn visitors_take_the_quotes_off() {
    let mut c = CallIdVisitor { call_id: None };
    c.record_str("other", "x");
    assert_eq!(c.call_id, None);
    c.record_debug("call_id", "\"siphon-1\"");
    assert_eq!(c.call_id.as_deref(), Some("siphon-1"));
    c.record_str("call_id", "\"kept\"");
    assert_eq!(c.call_id.as_deref(), Some("\"kept\""));

    let mut v = MessageVisitor::default();
    v.record_debug("message", "\"hello \\\"you\"");
    assert_eq!(v.message, "hello \\\"you");
    v.record_debug("a", "Some(\"x\")");
    v.record_str("b", "\"y\"");
    assert_eq!(v.fields, "a=Some(x) b=\"y\" ");
    v.record_debug("call_id", "\"c\"");
    assert_eq!(v.call_id.as_deref(), Some("c"));
    v.record_str("message", "m");
    assert_eq!(v.message, "m");
}
