//! Lifecycle events and who receives them.
use siphon_ai::webhooks::event::{
    CallEndEvent, CallStartEvent, OutboundAnsweredEvent, OutboundFailedEvent,
    OutboundInitiatedEvent, RegistrationStateChangedEvent, WebhookEvent, WEBHOOK_VERSION,
};
use siphon_ai::webhooks::http::{post_log, HttpSinkConfig};
use siphon_ai::webhooks::sink::{FilteredSink, NullSink};

fn start_event(call_id: &str) -> WebhookEvent {
    WebhookEvent::CallStart(CallStartEvent {
        version: WEBHOOK_VERSION,
        call_id: call_id.into(),
        sip_call_id: format!("{call_id}@pbx"),
        timestamp: 1_777_991_400_000,
        from: "+1".into(),
        to: "5000".into(),
        route: "default".into(),
        ws_url: "wss://x/y".into(),
    })
}

fn sample_outbound() -> [WebhookEvent; 3] {
    let ts = 1_780_999_200_000;
    [
        WebhookEvent::OutboundInitiated(OutboundInitiatedEvent {
            version: WEBHOOK_VERSION,
            call_id: "siphon-9b2c".into(),
            timestamp: ts,
            to: "+13125550000".into(),
            gateway: "twilio_main".into(),
        }),
        WebhookEvent::OutboundAnswered(OutboundAnsweredEvent {
            version: WEBHOOK_VERSION,
            call_id: "siphon-9b2c".into(),
            sip_call_id: "xyz-789@siphon".into(),
            timestamp: ts,
        }),
        WebhookEvent::OutboundFailed(OutboundFailedEvent {
            version: WEBHOOK_VERSION,
            call_id: "siphon-9b2c".into(),
            timestamp: ts,
            cause: "busy".into(),
        }),
    ]
}

#[test]
fn outbound_type_strs() {
    let expected = ["outbound_initiated", "outbound_answered", "outbound_failed"];
    for (event, want) in sample_outbound().iter().zip(expected) {
        assert_eq!(event.type_str(), want);
    }
}

#[test]
fn outbound_events_are_call_scoped() {
    for event in sample_outbound() {
        assert_eq!(event.call_id(), Some("siphon-9b2c"));
    }
}

#[test]
fn the_other_events() {
    assert_eq!(WEBHOOK_VERSION, 1);
    assert_eq!(start_event("c").type_str(), "call_start");
    assert_eq!(start_event("c").call_id(), Some("c"));
    let end = WebhookEvent::CallEnd(CallEndEvent {
        version: WEBHOOK_VERSION,
        call_id: "siphon-7f3a".into(),
        sip_call_id: "abc-123@pbx".into(),
        timestamp: 0,
        from: "+13125551234".into(),
        to: "5000".into(),
        route: "main_reception".into(),
        ws_url: "wss://reception.example.com/sip-bridge".into(),
        duration_ms: 42_000,
        termination_cause: "server_hangup".into(),
    });
    assert_eq!(end.type_str(), "call_end");
    assert_eq!(end.call_id(), Some("siphon-7f3a"));
    let reg = registration();
    assert_eq!(reg.type_str(), "registration_state_changed");
    assert_eq!(reg.call_id(), None);
}

fn registration() -> WebhookEvent {
    WebhookEvent::RegistrationStateChanged(RegistrationStateChangedEvent {
        version: WEBHOOK_VERSION,
        name: "pbx".into(),
        timestamp: 0,
        status: "failed".into(),
        previous_status: None,
        last_error: Some("timeout".into()),
        expires_at: None,
    })
}

#[test]
fn null_sink_is_a_noop() {
    assert!(!NullSink.passes(&start_event("c-null")));
}

#[test]
fn filtered_sink_drops_unallowed_events() {
    let sink = FilteredSink::new(vec!["call_end".to_string()]);
    assert_eq!(sink.emit(start_event("c-1")), None);
}

#[test]
fn filtered_sink_passes_allowed_events() {
    let sink = FilteredSink::new(vec!["call_start".to_string()]);
    assert_eq!(sink.emit(start_event("c-1")), Some(start_event("c-1")));
}

#[test]
fn filtered_sink_with_empty_allowlist_passes_everything() {
    let sink = FilteredSink::new(vec![]);
    assert!(sink.emit(start_event("c-1")).is_some());
    assert!(sink.emit(start_event("c-2")).is_some());
    assert!(sink.emit(registration()).is_some());
}

#[test]
fn deliveries_are_logged_by_call_and_type() {
    let e = start_event("c-1");
    let log = post_log(&e);
    assert_eq!(
        (log.kind, log.call_id, log.detail),
        ("lifecycle webhook", "c-1", Some("call_start"))
    );
    assert_eq!(post_log(&registration()).call_id, "-");
    let c = HttpSinkConfig::new("https://h/x".to_string(), 3, 5_000);
    assert_eq!((c.url.as_str(), c.auth_header, c.retry_max, c.timeout_ms), ("https://h/x", None, 3, 5_000));
}
