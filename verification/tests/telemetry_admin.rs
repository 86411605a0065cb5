//! The admin endpoints and the two HTTP surfaces.
use siphon_ai::telemetry::admin::{
    choose_filter, dispatch, parse_filter_body, AdminAction, AdminState, AdminStep,
};
use siphon_ai::telemetry::admin_reply::{
    add_participant, call_sip, call_stats, conference_error_response, create_conference,
    drain_start, drain_status, end_conference, hangup_call, hangup_call_by_bridge_id,
    list_calls, list_conferences, list_errors, list_parked, list_trunks, node_status,
    originate_call, park_call, park_error_response, recent_cdrs, remove_participant,
    retrieve_call, set_log_filter, trigger_registration, AdminBody, AdminCallRow, BodyFailure,
    ConferenceAdminError, ConferenceRow, DrainStatus, OriginateRejection, ParkAdminError,
    ParkedRow, RegistrationAdminError, RegistrationRow, RegistrationsSummary, StatusResponse,
};
use siphon_ai::telemetry::admin_route::{Method, RegistrationAction};
use siphon_ai::telemetry::auth::{AdminAuth, AdminToken, Role};
use siphon_ai::telemetry::cdr_ring::{self, CdrRecord, CdrRing};
use siphon_ai::telemetry::error_ring::ErrorEntry;
use siphon_ai::telemetry::http::{
    body_refusal, handle_admin_request, handle_request, request_result, GuardOutcome, ProbeAnswer,
    ADMIN_MAX_BODY,
};
use siphon_ai::telemetry::log_filter::LogFilterError;
use siphon_ai::telemetry::readiness::ReadinessFlag;
use siphon_ai::telemetry::sip_ring::{self, SipMessageEntry, SipRing};

fn all_on() -> AdminState {
    AdminState {
        call_registry: true,
        registration_snapshot: true,
        log_filter: true,
        hep: true,
        outbound: true,
        conference: true,
        park: true,
        drain: true,
        quality_stats: true,
        registrations: true,
        drain_start: true,
        status: true,
        recent_cdrs: true,
        errors: true,
        sip_capture: true,
    }
}

fn ask(m: Method, path: &str, body: &[u8], st: &AdminState) -> AdminStep<String> {
    dispatch(m, path, body, st).expect("an admin path")
}

fn refused(m: Method, path: &str, st: &AdminState) -> u16 {
    match ask(m, path, b"", st) {
        AdminStep::Refuse { status, .. } => status,
        AdminStep::Act(a) => panic!("{path}: {a:?}"),
    }
}

fn act(m: Method, path: &str, body: &[u8]) -> AdminAction<String> {
    match ask(m, path, body, &all_on()) {
        AdminStep::Act(a) => a,
        AdminStep::Refuse { status, error } => panic!("{path}: {status} {error}"),
    }
}

// ---- Routing ----

#[test]
fn unknown_admin_route_is_404() {
    assert_eq!(refused(Method::Get, "/admin/nope", &AdminState::default()), 404);
    assert_eq!(refused(Method::Get, "/admin/nope", &all_on()), 404);
}

#[test]
fn non_admin_path_passes_through() {
    assert!(dispatch(Method::Get, "/metrics", b"", &AdminState::default()).is_none());
    assert!(dispatch(Method::Get, "/health", b"", &all_on()).is_none());
}

#[test]
fn what_is_not_installed_is_unavailable() {
    let off = AdminState::default();
    for (m, path, status) in [
        (Method::Get, "/admin/calls", 503),
        (Method::Get, "/admin/v1/status", 503),
        (Method::Get, "/admin/v1/cdrs/recent", 503),
        (Method::Get, "/admin/v1/errors", 503),
        (Method::Post, "/admin/v1/drain", 503),
        (Method::Get, "/admin/v1/drain", 503),
        (Method::Get, "/admin/registrations", 503),
        (Method::Get, "/admin/log", 503),
        (Method::Post, "/admin/hep/test", 503),
        (Method::Post, "/admin/v1/calls", 501),
        (Method::Get, "/admin/v1/conferences", 501),
        (Method::Get, "/admin/v1/parked", 501),
        (Method::Get, "/admin/v1/calls/x/sip", 501),
        (Method::Post, "/admin/v1/registrations/x/refresh", 503),
    ] {
        assert_eq!(refused(m, path, &off), status, "{path}");
    }
}

#[test]
fn v1_aliases_route_like_the_legacy_paths() {
    for (m, a, b) in [
        (Method::Get, "/admin/calls", "/admin/v1/calls"),
        (Method::Get, "/admin/registrations", "/admin/v1/registrations"),
        (Method::Get, "/admin/log", "/admin/v1/log"),
        (Method::Post, "/admin/hep/test", "/admin/v1/hep/test"),
    ] {
        assert_eq!(format!("{:?}", act(m, a, b"")), format!("{:?}", act(m, b, b"")));
    }
    assert_eq!(
        format!("{:?}", act(Method::Put, "/admin/log", b"info")),
        format!("{:?}", act(Method::Put, "/admin/v1/log", b"info"))
    );
    let off = AdminState::default();
    for (m, a, b) in [
        (Method::Get, "/admin/calls", "/admin/v1/calls"),
        (Method::Get, "/admin/registrations", "/admin/v1/registrations"),
        (Method::Get, "/admin/log", "/admin/v1/log"),
        (Method::Put, "/admin/log", "/admin/v1/log"),
        (Method::Post, "/admin/hep/test", "/admin/v1/hep/test"),
    ] {
        assert_eq!(refused(m, a, &off), refused(m, b, &off), "{a} vs {b}");
        assert_ne!(refused(m, b, &off), 404, "{b}");
    }
}

#[test]
fn ids_reach_their_action() {
    match act(Method::Post, "/admin/calls/abc@pbx/hangup", b"") {
        AdminAction::HangupSip { sip_call_id } => assert_eq!(sip_call_id, "abc@pbx"),
        other => panic!("{other:?}"),
    }
    match act(Method::Post, "/admin/v1/calls/siphon-1/hangup", b"") {
        AdminAction::Hangup { call_id } => assert_eq!(call_id, "siphon-1"),
        other => panic!("{other:?}"),
    }
    match act(Method::Delete, "/admin/v1/conferences/r/participants/c", b"") {
        AdminAction::RemoveParticipant { room_id, call_id } => {
            assert_eq!((room_id.as_str(), call_id.as_str()), ("r", "c"))
        }
        other => panic!("{other:?}"),
    }
    match act(Method::Post, "/admin/v1/conferences/r/participants", b"{}") {
        AdminAction::AddParticipant { room_id } => assert_eq!(room_id, "r"),
        other => panic!("{other:?}"),
    }
    match act(Method::Post, "/admin/v1/calls/c/park", b"") {
        AdminAction::Park { call_id, with_body } => {
            assert_eq!((call_id.as_str(), with_body), ("c", false))
        }
        other => panic!("{other:?}"),
    }
    match act(Method::Post, "/admin/v1/registrations/pbx/restart", b"") {
        AdminAction::TriggerRegistration { name, action } => {
            assert_eq!(name, "pbx");
            assert_eq!(action.as_str(), "restart");
        }
        other => panic!("{other:?}"),
    }
    assert!(matches!(
        act(Method::Get, "/admin/v1/calls/c/stats", b""),
        AdminAction::QualityStats { .. }
    ));
}

#[test]
fn sip_ladder_400s_an_empty_id() {
    assert_eq!(refused(Method::Get, "/admin/v1/calls//sip", &all_on()), 400);
}

// ---- The log filter ----

#[test]
fn parses_filter_body_plaintext() {
    assert_eq!(
        parse_filter_body(b"siphon_ai=debug").unwrap(),
        "siphon_ai=debug"
    );
}

#[test]
fn parses_filter_body_json() {
    assert_eq!(
        parse_filter_body(b"{\"filter\":\"siphon_ai=info\"}").unwrap(),
        "siphon_ai=info"
    );
}

#[test]
fn parse_filter_body_rejects_empty() {
    assert!(parse_filter_body(b"").is_err());
}

#[test]
fn parse_filter_body_rejects_whitespace_only() {
    assert!(parse_filter_body(b"   \n   ").is_err());
}

#[test]
fn a_body_that_is_neither_json_nor_text_is_refused() {
    assert!(parse_filter_body(b"\xff\xfe").is_err());
    assert!(choose_filter(b"x", None).is_ok());
    assert_eq!(choose_filter(b"x", Some("y".to_string())).unwrap(), "y");
}

#[test]
fn a_filter_is_set_or_refused() {
    let r = set_log_filter("info".to_string(), Ok("warn".to_string()));
    assert_eq!(r.status, 200);
    match r.body {
        AdminBody::LogFilterSet { filter, previous } => {
            assert_eq!((filter.as_str(), previous.as_str()), ("info", "warn"))
        }
        other => panic!("{other:?}"),
    }
    let parse = LogFilterError::Parse { directive: "x".into(), err: "bad".into() };
    let r = set_log_filter("x".to_string(), Err(parse));
    assert_eq!(r.status, 400);
    match r.body {
        AdminBody::Error(e) => assert_eq!(e, "invalid log directive \"x\": bad"),
        other => panic!("{other:?}"),
    }
    let reload = LogFilterError::Reload("subscriber dropped".into());
    let r = set_log_filter("info".to_string(), Err(reload));
    assert_eq!(r.status, 500);
    match r.body {
        AdminBody::Error(e) => assert_eq!(e, "filter reload failed: subscriber dropped"),
        other => panic!("{other:?}"),
    }
}

// ---- Calls ----

fn row(call_id: &str, sip: &str) -> AdminCallRow {
    AdminCallRow {
        call_id: call_id.to_string(),
        sip_call_id: sip.to_string(),
        direction: "inbound".to_string(),
    }
}

#[test]
fn calls_are_listed_with_their_count() {
    match list_calls(vec![row("a", "s1"), row("b", "s2")]).body {
        AdminBody::Calls { count, calls } => {
            assert_eq!((count, calls.len()), (2, 2));
            assert_eq!(calls[1].sip_call_id, "s2");
        }
        other => panic!("{other:?}"),
    }
}

#[test]
fn a_hangup_is_answered_by_whether_the_call_was_there() {
    assert_eq!(hangup_call("abc@pbx", true).status, 200);
    assert_eq!(hangup_call("abc@pbx", false).status, 404);
}

#[test]
fn every_originate_rejection_has_a_status() {
    for (rej, status) in [
        (OriginateRejection::UnknownGateway("g".into()), 404),
        (OriginateRejection::NoWsUrl, 400),
        (OriginateRejection::BadTarget("x".into()), 400),
        (OriginateRejection::AtCapacity, 503),
        (OriginateRejection::RateLimited, 429),
        (OriginateRejection::BadRecording("r".into()), 400),
        (OriginateRejection::BadFrom("x".into()), 400),
        (OriginateRejection::Draining, 503),
    ] {
        let shown = format!("{rej:?}");
        assert_eq!(originate_call(Err(BodyFailure::Refused(rej))).status, status, "{shown}");
    }
}

// ---- Conferences ----

#[test]
fn conference_operations_and_their_errors() {
    assert_eq!(create_conference(Ok("r".to_string())).status, 201);
    assert_eq!(
        create_conference(Err(BodyFailure::Refused(ConferenceAdminError::RoomExists))).status,
        409
    );
    assert_eq!(
        end_conference("r".to_string(), Err(ConferenceAdminError::RoomNotFound)).status,
        404
    );
    assert_eq!(end_conference("r".to_string(), Ok(())).status, 200);
    let r = add_participant("r".to_string(), Ok("c".to_string()));
    assert_eq!(r.status, 202);
    match r.body {
        AdminBody::Member { room_id, call_id } => {
            assert_eq!((room_id.as_str(), call_id.as_str()), ("r", "c"))
        }
        other => panic!("{other:?}"),
    }
    assert_eq!(
        add_participant(
            "r".to_string(),
            Err(BodyFailure::Refused(ConferenceAdminError::UnknownCall("c".into())))
        )
        .status,
        404
    );
    assert_eq!(
        add_participant("r".to_string(), Err(BodyFailure::Invalid("eof".into()))).status,
        400
    );
    assert_eq!(
        remove_participant("r".to_string(), "c".to_string(), Ok(())).status,
        202
    );
    for (e, status) in [
        (ConferenceAdminError::Disabled, 501),
        (ConferenceAdminError::TooManyRooms, 503),
        (ConferenceAdminError::BadRequest("x".into()), 400),
    ] {
        assert_eq!(conference_error_response(e).status, status);
    }
}

// ---- Parking ----

#[test]
fn park_operations_and_their_errors() {
    assert_eq!(park_call("c".to_string(), Ok(())).status, 202);
    assert_eq!(retrieve_call("c".to_string(), Ok(())).status, 202);
    assert_eq!(
        park_call("c".to_string(), Err(BodyFailure::Refused(ParkAdminError::UnknownCall("c".into()))))
            .status,
        404
    );
    assert_eq!(
        retrieve_call("c".to_string(), Err(BodyFailure::Refused(ParkAdminError::NotParked("c".into()))))
            .status,
        409
    );
    assert_eq!(park_error_response(ParkAdminError::Disabled).status, 501);
    assert_eq!(
        list_parked(vec![ParkedRow { call_id: "c".into(), slot: None, parked_secs: 3 }]).status,
        200
    );
}

// ---- Registrations ----

fn binding() -> RegistrationRow {
    RegistrationRow {
        name: "pbx".into(),
        server_addr: "10.0.0.1:5060".into(),
        status: "registered".into(),
        last_attempt_at: None,
        expires_at: None,
        last_error: None,
    }
}

#[test]
fn registration_triggers() {
    let r = trigger_registration("pbx", RegistrationAction::Refresh, Ok(binding()));
    assert_eq!(r.status, 202);
    match r.body {
        AdminBody::Triggered { action, registration } => {
            assert_eq!(action.as_str(), "refresh");
            assert_eq!(registration.status, "registered");
        }
        other => panic!("{other:?}"),
    }
    assert_eq!(
        trigger_registration("x", RegistrationAction::Refresh, Err(RegistrationAdminError::NotFound))
            .status,
        404
    );
    assert_eq!(
        trigger_registration("x", RegistrationAction::Restart, Err(RegistrationAdminError::ShuttingDown))
            .status,
        409
    );
}

// ---- The ladder ----

#[test]
fn a_ladder_is_found_live_and_ended() {
    let mut ring = SipRing::new();
    let mut cdrs = CdrRing::new();
    sip_ring::push(
        &mut ring,
        "abc@pbx",
        SipMessageEntry {
            ts_ms: 1,
            direction: "in".into(),
            src: "a".into(),
            dst: "b".into(),
            payload: "INVITE".into(),
        },
    );
    assert_eq!(call_sip("siphon-1", None, &cdrs, &ring).status, 404);
    // Live: through the registry.
    let live = call_sip("siphon-1", Some(vec![row("siphon-1", "abc@pbx")]), &cdrs, &ring);
    assert_eq!(live.status, 200);
    // Ended: through the record.
    sip_ring::complete(&mut ring, "abc@pbx");
    cdr_ring::push(
        &mut cdrs,
        CdrRecord::from_json("{\"call_id\":\"siphon-1\",\"sip_call_id\":\"abc@pbx\"}".into()),
    );
    match call_sip("siphon-1", Some(vec![]), &cdrs, &ring).body {
        AdminBody::Ladder { sip_call_id, messages, truncated, count, .. } => {
            assert_eq!(sip_call_id, "abc@pbx");
            assert_eq!((messages.len(), count, truncated), (1, 1, false));
        }
        other => panic!("{other:?}"),
    }
}

// ---- Status, records, errors, drain ----

#[test]
fn status_and_listings() {
    let s = StatusResponse {
        version: "1".into(),
        uptime_secs: 2,
        active_calls: 3,
        registrations: RegistrationsSummary { registered: 1, total: 2 },
        draining: false,
        hep_enabled: true,
    };
    assert_eq!(node_status(s).status, 200);
    assert_eq!(recent_cdrs(vec![]).status, 200);
    match list_errors(vec![ErrorEntry {
        ts_ms: 1,
        level: "warn".into(),
        target: "t".into(),
        message: "m".into(),
        call_id: None,
    }])
    .body
    {
        AdminBody::Errors { count, .. } => assert_eq!(count, 1),
        other => panic!("{other:?}"),
    }
    let r = drain_start(true);
    assert_eq!(r.status, 202);
    assert!(matches!(r.body, AdminBody::DrainSignalled { already_draining: true }));
    let d = DrainStatus {
        draining: true,
        active_calls: 1,
        drain_timeout_secs: 30,
        remaining_secs: Some(12),
    };
    match drain_status(d).body {
        AdminBody::Drain(got) => assert_eq!(got, d),
        other => panic!("{other:?}"),
    }
    assert_eq!(call_stats(None).status, 404);
    assert_eq!(call_stats(Some("{}".into())).status, 200);
    match list_trunks(None).body {
        AdminBody::Trunks { count, trunks } => assert_eq!((count, trunks.len()), (0, 0)),
        other => panic!("{other:?}"),
    }
}

// ---- The two HTTP surfaces ----

fn auth() -> AdminAuth {
    AdminAuth::new(vec![
        AdminToken::new("ro", "ro-tok", Role::ReadOnly),
        AdminToken::new("op", "op-tok", Role::Operator),
        AdminToken::new("ad", "ad-tok", Role::Admin),
    ])
}

fn status_of(o: &GuardOutcome<'_>) -> Option<u16> {
    match o {
        GuardOutcome::Reject { answer, .. } => Some(answer.status),
        GuardOutcome::Pass { .. } => None,
    }
}

#[test]
fn admin_requires_auth_and_enforces_roles() {
    let a = auth();
    let get = |h: Option<&str>, p: &str| status_of(&handle_admin_request(&a, Method::Get, p, h));
    assert_eq!(get(None, "/admin/calls"), Some(401));
    assert_eq!(get(Some("Bearer wrong"), "/admin/calls"), Some(401));
    assert_eq!(get(Some("Bearer ro-tok"), "/admin/calls"), None);
    assert_eq!(get(Some("Bearer ro-tok"), "/admin/nope"), None);
    assert_eq!(refused(Method::Get, "/admin/nope", &AdminState::default()), 404);
}

#[test]
fn admin_forbids_below_minimum_role() {
    let a = auth();
    match handle_admin_request(&a, Method::Post, "/admin/calls/abc/hangup", Some("Bearer ro-tok")) {
        GuardOutcome::Reject { answer, challenge, role, result } => {
            assert_eq!(answer.status, 403);
            assert!(!challenge);
            assert_eq!((role, result), ("readonly", "forbidden"));
        }
        other => panic!("{other:?}"),
    }
}

fn probe(m: Method, path: &str, ready: bool) -> (u16, &'static str) {
    match handle_request(m, path, ready) {
        ProbeAnswer::Fixed(a) => (a.status, a.body),
        ProbeAnswer::Metrics { .. } => panic!("metrics"),
    }
}

#[test]
fn health_is_always_200() {
    assert_eq!(probe(Method::Get, "/health", false), (200, "ok\n"));
}

#[test]
fn ready_returns_503_until_marked_ready() {
    let readiness = ReadinessFlag::default();
    let shared = readiness.clone();
    assert_eq!(probe(Method::Get, "/ready", shared.is_ready()), (503, "not ready\n"));
    readiness.mark_ready();
    assert_eq!(probe(Method::Get, "/ready", shared.is_ready()), (200, "ready\n"));
}

#[test]
fn unknown_path_yields_404() {
    assert_eq!(probe(Method::Get, "/totally-not-a-route", true).0, 404);
    // The admin surface is not here.
    assert_eq!(probe(Method::Get, "/admin/calls", true).0, 404);
    assert!(matches!(
        handle_request(Method::Get, "/metrics", false),
        ProbeAnswer::Metrics { .. }
    ));
}

#[test]
fn admin_bodies_over_the_cap_are_rejected() {
    assert_eq!(body_refusal(Some(ADMIN_MAX_BODY + 1)).unwrap().status, 413);
    assert_eq!(body_refusal(None).unwrap().status, 413);
    assert!(body_refusal(Some(ADMIN_MAX_BODY)).is_none());
}

#[test]
fn request_results_by_status() {
    for (status, label) in [
        (Some(200), "ok"),
        (Some(202), "ok"),
        (Some(404), "not_found"),
        (Some(400), "error"),
        (Some(503), "error"),
        (None, "not_found"),
    ] {
        assert_eq!(request_result(status), label);
    }
}
