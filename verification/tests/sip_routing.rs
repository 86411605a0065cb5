//! From an INVITE to its route, and the answers to the other requests.
use std::sync::Mutex;

use siphon_ai::net::{Endpoint, IpAddr};
use siphon_ai::routes::{load_from_toml, RouteSet};
use siphon_ai::sip::admission::InviteAdmission;
use siphon_ai::sip::dialog::{
    dispatch_bye, dispatch_cancel, DialogAction, DialogTerminator, NullDialogTerminator,
};
use siphon_ai::sip::digest::{DigestCheck, DigestOutcome, InboundDigestAuth, NonceFreshness};
use siphon_ai::sip::drain::DrainFlag;
use siphon_ai::sip::handler::{
    dispatch_invite, dispatch_notify, drain_reject_response, AuditEvent, InviteStep, RouteAction,
    RoutingHandler, SourceAnswer,
};
use siphon_ai::sip::invite::InviteFacts;
use siphon_ai::sip::message::{Request, Response, SipUri};
use siphon_ai::sip::route::{route_invite, RouteDecision};

fn uri(user: &str, host: &str) -> Option<SipUri> {
    Some(SipUri {
        user: Some(user.to_string()),
        host: host.to_string(),
    })
}

fn headers(list: &[(&str, &str)]) -> Vec<(String, String)> {
    list.iter()
        .map(|(n, v)| (n.to_string(), v.to_string()))
        .collect()
}

/// An INVITE with the given request URI, `From` and `To` users and hosts, and
/// further headers.
fn invite(
    r: (&str, &str),
    from: (&str, &str),
    to: (&str, &str),
    extra: &[(&str, &str)],
) -> Request {
    let from_value = format!("<sip:{}@{}>;tag=abc", from.0, from.1);
    let to_value = format!("<sip:{}@{}>", to.0, to.1);
    let mut h = headers(&[
        ("Via", "SIP/2.0/UDP 10.0.0.1:5060;branch=z9hG4bK-1"),
        ("From", &from_value),
        ("To", &to_value),
        ("Call-ID", "call-1@example.net"),
        ("CSeq", "1 INVITE"),
    ]);
    h.extend(headers(extra));
    h.extend(headers(&[("Content-Length", "0")]));
    Request {
        uri: uri(r.0, r.1),
        from: uri(from.0, from.1),
        to: uri(to.0, to.1),
        headers: h,
        peer_cert_names: vec![],
    }
}

fn plain(user: &str) -> Request {
    invite(
        (user, "siphon.example.com"),
        ("caller", "example.net"),
        (user, "siphon.example.com"),
        &[],
    )
}

fn reception_and_default() -> RouteSet {
    load_from_toml(
        r#"
        [[route]]
        name = "reception"
        [route.match]
        request_uri_user = "5000"

        [[route]]
        name = "default"
        [route.match]
        any = true
    "#,
    )
    .unwrap()
}

fn reception_only() -> RouteSet {
    load_from_toml(
        r#"
        [[route]]
        name = "reception"
        [route.match]
        request_uri_user = "5000"
    "#,
    )
    .unwrap()
}

fn by_register_source() -> RouteSet {
    load_from_toml(
        r#"
        [[route]]
        name = "from-cucm"
        [route.match]
        register_source = "cucm-main"

        [[route]]
        name = "from-trunk"
        [route.match]
        register_source = "trunk"
    "#,
    )
    .unwrap()
}

// ---- Facts ----

#[test]
fn extracts_request_uri_from_to() {
    let req = invite(
        ("5000", "siphon.example.com"),
        ("+13125551234", "carrier.example.net"),
        ("5000", "siphon.example.com"),
        &[],
    );
    let facts = InviteFacts::extract(&req);
    assert_eq!(facts.request_uri_user, "5000");
    assert_eq!(facts.request_uri_host, "siphon.example.com");
    assert_eq!(facts.from_user, "+13125551234");
    assert_eq!(facts.from_host, "carrier.example.net");
    assert_eq!(facts.to_user, "5000");
    assert_eq!(facts.to_host, "siphon.example.com");
}

#[test]
fn extracts_custom_headers_lowercase() {
    let req = invite(
        ("5000", "siphon.example.com"),
        ("caller", "example.net"),
        ("5000", "siphon.example.com"),
        &[("X-Customer-Id", "cust-42"), ("X-Tenant", "acme")],
    );
    let facts = InviteFacts::extract(&req);
    assert_eq!(facts.headers.get("x-customer-id"), Some("cust-42"));
    assert_eq!(facts.headers.get("X-Customer-Id"), Some("cust-42"));
    assert_eq!(facts.headers.get("x-tenant"), Some("acme"));
}

#[test]
fn missing_to_yields_empty_strings_not_panic() {
    let req = Request {
        uri: uri("5000", "siphon.example.com"),
        from: uri("caller", "x.example"),
        to: None,
        headers: headers(&[
            ("Via", "SIP/2.0/UDP 10.0.0.1:5060"),
            ("From", "<sip:caller@x.example>"),
            ("Call-ID", "c@x"),
            ("CSeq", "1 INVITE"),
            ("Content-Length", "0"),
        ]),
        peer_cert_names: vec![],
    };
    let facts = InviteFacts::extract(&req);
    assert_eq!(facts.to_user, "");
    assert_eq!(facts.to_host, "");
    assert_eq!(facts.from_user, "caller");
}

#[test]
fn of_a_repeated_header_the_last_value_counts() {
    let req = invite(("a", "b"), ("c", "d"), ("e", "f"), &[("X-K", "1"), ("x-k", "2")]);
    assert_eq!(InviteFacts::extract(&req).headers.get("X-K"), Some("2"));
    assert_eq!(req.header("x-k"), Some("1"));
}

// ---- Routing ----

#[test]
fn matches_route_by_request_uri_user() {
    let routes = reception_and_default();
    match route_invite(&plain("5000"), "trunk", &routes) {
        RouteDecision::Matched { route, .. } => assert_eq!(route.name, "reception"),
        RouteDecision::NoMatch { .. } => panic!("expected reception match"),
    }
}

#[test]
fn falls_through_to_default() {
    let routes = reception_and_default();
    match route_invite(&plain("9999"), "trunk", &routes) {
        RouteDecision::Matched { route, .. } => assert_eq!(route.name, "default"),
        RouteDecision::NoMatch { .. } => panic!("expected default match"),
    }
}

#[test]
fn no_match_returns_nomatch_when_no_default() {
    let routes = reception_only();
    assert!(matches!(
        route_invite(&plain("9999"), "trunk", &routes),
        RouteDecision::NoMatch { .. }
    ));
}

#[test]
fn invite_routing_register_source_distinguishes_routes() {
    let routes = by_register_source();
    let req = plain("5000");
    match route_invite(&req, "cucm-main", &routes) {
        RouteDecision::Matched { route, .. } => assert_eq!(route.name, "from-cucm"),
        _ => panic!("expected from-cucm match"),
    }
    match route_invite(&req, "trunk", &routes) {
        RouteDecision::Matched { route, .. } => assert_eq!(route.name, "from-trunk"),
        _ => panic!("expected from-trunk match"),
    }
}

#[test]
fn header_match_with_regex() {
    let routes = load_from_toml(
        r#"
        [[route]]
        name = "tenant-acme"
        [route.match]
        regex = true
        [route.match.header]
        X-Tenant-Id = "^acme$"

        [[route]]
        name = "default"
        [route.match]
        any = true
    "#,
    )
    .unwrap();
    let with_tenant = |t: &str| {
        invite(
            ("5000", "siphon.example.com"),
            ("caller", "example.net"),
            ("5000", "siphon.example.com"),
            &[("X-Tenant-Id", t)],
        )
    };
    match route_invite(&with_tenant("acme"), "trunk", &routes) {
        RouteDecision::Matched { route, .. } => assert_eq!(route.name, "tenant-acme"),
        _ => panic!("expected tenant-acme match"),
    }
    match route_invite(&with_tenant("globex"), "trunk", &routes) {
        RouteDecision::Matched { route, .. } => assert_eq!(route.name, "default"),
        _ => panic!("expected default match"),
    }
}

#[test]
fn from_user_match_with_regex_anchors() {
    let routes = load_from_toml(
        r#"
        [[route]]
        name = "vip"
        [route.match]
        from_user = "+13125551234"

        [[route]]
        name = "default"
        [route.match]
        any = true
    "#,
    )
    .unwrap();
    let req = invite(
        ("5000", "siphon.example.com"),
        ("+13125551234", "carrier.example.net"),
        ("5000", "siphon.example.com"),
        &[],
    );
    match route_invite(&req, "trunk", &routes) {
        RouteDecision::Matched { route, .. } => assert_eq!(route.name, "vip"),
        _ => panic!("expected vip match"),
    }
}

#[test]
fn certificate_names_of_the_connection_reach_the_matcher() {
    let routes = load_from_toml(
        r#"
        [[route]]
        name = "node-1"
        [route.match]
        peer_cert_san = "sip:node-1@example.com"
    "#,
    )
    .unwrap();
    let mut req = plain("5000");
    assert!(matches!(
        route_invite(&req, "trunk", &routes),
        RouteDecision::NoMatch { .. }
    ));
    req.peer_cert_names = vec!["SIP:node-1@example.com".to_string()];
    assert!(matches!(
        route_invite(&req, "trunk", &routes),
        RouteDecision::Matched { .. }
    ));
}

// ---- dispatch_invite ----

#[test]
fn matched_invite_yields_accept_with_route_and_facts() {
    let routes = load_from_toml(
        r#"
        [[route]]
        name = "reception"
        [route.match]
        request_uri_user = "5000"
        [route.bridge]
        ws_url = "wss://reception.example.com/sip-bridge"

        [[route]]
        name = "default"
        [route.match]
        any = true
    "#,
    )
    .unwrap();
    let req = invite(
        ("5000", "siphon.example.com"),
        ("+13125551234", "carrier.example.net"),
        ("5000", "siphon.example.com"),
        &[],
    );
    match dispatch_invite(&routes, "trunk", &req) {
        RouteAction::Accept { facts, route } => {
            assert_eq!(route.name, "reception");
            assert_eq!(
                route.bridge.ws_url.as_deref(),
                Some("wss://reception.example.com/sip-bridge")
            );
            assert_eq!(facts.request_uri_user, "5000");
            assert_eq!(facts.from_user, "+13125551234");
        }
        RouteAction::SendFinal(_) => panic!("expected Accept"),
    }
}

#[test]
fn unmatched_invite_yields_404_with_request_correlation_headers() {
    let routes = reception_only();
    match dispatch_invite(&routes, "trunk", &plain("9999")) {
        RouteAction::SendFinal(response) => {
            assert_eq!(response.code(), 404);
            assert_eq!(response.reason(), "Not Found");
            assert!(response.header("Via").is_some(), "Via must be copied");
            assert_eq!(response.header("Call-ID"), Some("call-1@example.net"));
            assert_eq!(response.header("CSeq"), Some("1 INVITE"));
        }
        RouteAction::Accept { .. } => panic!("expected SendFinal(404)"),
    }
}

#[test]
fn matched_route_with_default_fallback_picks_specific_first() {
    let routes = reception_and_default();
    match dispatch_invite(&routes, "trunk", &plain("5000")) {
        RouteAction::Accept { route, .. } => assert_eq!(route.name, "reception"),
        _ => panic!("expected Accept reception"),
    }
    match dispatch_invite(&routes, "trunk", &plain("1234")) {
        RouteAction::Accept { route, .. } => assert_eq!(route.name, "default"),
        _ => panic!("expected Accept default"),
    }
}

#[test]
fn handler_dispatch_register_source_distinguishes_routes() {
    let routes = by_register_source();
    let req = plain("5000");
    match dispatch_invite(&routes, "cucm-main", &req) {
        RouteAction::Accept { route, .. } => assert_eq!(route.name, "from-cucm"),
        _ => panic!("expected Accept from-cucm"),
    }
    match dispatch_invite(&routes, "trunk", &req) {
        RouteAction::Accept { route, .. } => assert_eq!(route.name, "from-trunk"),
        _ => panic!("expected Accept from-trunk"),
    }
}

#[test]
fn dispatch_returned_route_outlives_register_source_string() {
    let routes = load_from_toml(
        r#"
        [[route]]
        name = "any-call"
        [route.match]
        any = true
    "#,
    )
    .unwrap();
    let req = invite(("any", "host.example"), ("c", "x.example"), ("any", "host.example"), &[]);
    let action = {
        let rs = String::from("trunk");
        dispatch_invite(&routes, &rs, &req)
        // rs dropped here
    };
    match action {
        RouteAction::Accept { route, .. } => assert_eq!(route.name, "any-call"),
        _ => panic!("expected Accept"),
    }
}

// ---- Responses ----

#[test]
fn a_response_repeats_every_via() {
    let mut req = plain("5000");
    req.headers.insert(1, ("via".to_string(), "SIP/2.0/UDP proxy".to_string()));
    let r = Response::create_response(&req, 200, "OK");
    let vias: Vec<&str> = r
        .headers
        .iter()
        .filter(|(n, _)| n == "Via")
        .map(|(_, v)| v.as_str())
        .collect();
    assert_eq!(
        vias,
        vec!["SIP/2.0/UDP 10.0.0.1:5060;branch=z9hG4bK-1", "SIP/2.0/UDP proxy"]
    );
    assert_eq!(r.headers.len(), 6);
}

// ---- BYE and CANCEL ----

#[derive(Default)]
struct RecordingTerminator {
    terminated: Mutex<Vec<String>>,
    return_match: bool,
}

impl RecordingTerminator {
    fn matching() -> Self {
        RecordingTerminator {
            terminated: Mutex::new(vec![]),
            return_match: true,
        }
    }
}

impl DialogTerminator for RecordingTerminator {
    fn terminate(&self, sip_call_id: &str) -> bool {
        self.terminated.lock().unwrap().push(sip_call_id.to_string());
        self.return_match
    }
}

fn in_dialog(call_id: Option<&str>) -> Request {
    let mut h = headers(&[
        ("Via", "SIP/2.0/UDP h:5060;branch=z9hG4bK-1"),
        ("From", "<sip:c@x>;tag=t"),
        ("To", "<sip:5000@y>;tag=u"),
    ]);
    if let Some(id) = call_id {
        h.push(("Call-ID".to_string(), id.to_string()));
    }
    h.extend(headers(&[("CSeq", "2 BYE"), ("Content-Length", "0")]));
    Request {
        uri: uri("5000", "siphon.example.com"),
        from: uri("c", "x"),
        to: uri("5000", "y"),
        headers: h,
        peer_cert_names: vec![],
    }
}

#[test]
fn bye_sends_200_and_calls_terminator_with_call_id() {
    let term = RecordingTerminator::matching();
    match dispatch_bye(&term, &in_dialog(Some("abc-123@pbx"))) {
        DialogAction::SendFinal(resp) => {
            assert_eq!(resp.code(), 200);
            assert_eq!(resp.reason(), "OK");
        }
    }
    assert_eq!(*term.terminated.lock().unwrap(), vec!["abc-123@pbx".to_string()]);
}

#[test]
fn bye_for_unknown_call_still_200_ok() {
    let term = RecordingTerminator::default();
    match dispatch_bye(&term, &in_dialog(Some("ghost@pbx"))) {
        DialogAction::SendFinal(resp) => assert_eq!(resp.code(), 200),
    }
    assert_eq!(*term.terminated.lock().unwrap(), vec!["ghost@pbx".to_string()]);
}

#[test]
fn cancel_sends_200_and_signals_terminator() {
    let term = RecordingTerminator::matching();
    match dispatch_cancel(&term, &in_dialog(Some("xyz@pbx"))) {
        DialogAction::SendFinal(resp) => assert_eq!(resp.code(), 200),
    }
    assert_eq!(*term.terminated.lock().unwrap(), vec!["xyz@pbx".to_string()]);
}

#[test]
fn null_terminator_never_matches() {
    let n = NullDialogTerminator;
    assert!(!n.terminate("anything"));
}

#[test]
fn missing_call_id_header_yields_empty_lookup_key() {
    let term = RecordingTerminator::default();
    match dispatch_bye(&term, &in_dialog(None)) {
        DialogAction::SendFinal(resp) => assert_eq!(resp.code(), 200),
    }
    assert_eq!(*term.terminated.lock().unwrap(), vec!["".to_string()]);
}

// ---- Draining ----

#[test]
fn defaults_to_not_draining() {
    assert!(!DrainFlag::new().is_draining());
    assert!(!DrainFlag::default().is_draining());
}

#[test]
fn begin_is_idempotent_and_shared_across_clones() {
    let a = DrainFlag::new();
    let b = a.clone();
    assert!(!b.is_draining());
    a.begin();
    assert!(a.is_draining() && b.is_draining());
    a.begin();
    assert!(b.is_draining());
}

#[test]
fn drain_reject_is_none_when_not_draining() {
    let drain = DrainFlag::new();
    assert!(drain_reject_response(&drain, 30, &plain("5000")).is_none());
}

#[test]
fn drain_reject_is_503_with_retry_after_when_draining() {
    let drain = DrainFlag::new();
    drain.begin();
    let resp = drain_reject_response(&drain, 30, &plain("5000")).expect("drain: 503");
    assert_eq!(resp.code(), 503);
    assert_eq!(resp.header("Retry-After"), Some("30"));
}

// ---- NOTIFY ----

fn notify(event: Option<&str>) -> Request {
    let mut h = headers(&[
        ("Via", "SIP/2.0/UDP 10.0.0.1:5060;branch=z9hG4bK-n1"),
        ("From", "<sip:carrier@carrier.example.net>;tag=peer"),
        ("To", "<sip:siphon@siphon.example.com>;tag=local"),
        ("Call-ID", "refer-notify@example.net"),
        ("CSeq", "1 NOTIFY"),
    ]);
    if let Some(e) = event {
        h.push(("Event".to_string(), e.to_string()));
    }
    Request {
        uri: uri("siphon", "10.0.0.2"),
        from: uri("carrier", "carrier.example.net"),
        to: uri("siphon", "siphon.example.com"),
        headers: h,
        peer_cert_names: vec![],
    }
}

#[test]
fn refer_notify_is_accepted_with_200() {
    let d = dispatch_notify(&notify(Some("refer")));
    assert_eq!(d.response.code(), 200);
    assert_eq!(d.result, "accepted");
}

#[test]
fn refer_notify_with_id_param_is_accepted() {
    let d = dispatch_notify(&notify(Some("refer;id=93809824")));
    assert_eq!(d.response.code(), 200);
    assert_eq!(d.result, "accepted");
}

#[test]
fn mwi_notify_is_absorbed_with_200() {
    let d = dispatch_notify(&notify(Some("message-summary")));
    assert_eq!(d.response.code(), 200);
    assert_eq!(d.result, "ignored");
}

#[test]
fn mwi_is_scored_apart_from_refer_progress() {
    let mwi = dispatch_notify(&notify(Some("message-summary")));
    let refer = dispatch_notify(&notify(Some("refer")));
    assert_eq!(mwi.response.code(), refer.response.code());
    assert_ne!(mwi.result, refer.result);
}

#[test]
fn mwi_is_absorbed_whatever_the_subscription_state() {
    for state in ["terminated;reason=noresource", "active;expires=3600"] {
        let mut req = notify(Some("message-summary"));
        req.headers
            .push(("Subscription-State".to_string(), state.to_string()));
        let d = dispatch_notify(&req);
        assert_eq!(d.response.code(), 200, "state {state}");
        assert_eq!(d.result, "ignored", "state {state}");
    }
}

#[test]
fn mwi_package_match_is_case_insensitive() {
    assert_eq!(
        dispatch_notify(&notify(Some("Message-Summary"))).result,
        "ignored"
    );
}

#[test]
fn non_refer_notify_is_489_bad_event_with_allow_events() {
    for package in ["talk", "dialog", "presence"] {
        let d = dispatch_notify(&notify(Some(package)));
        assert_eq!(d.response.code(), 489, "package {package}");
        assert_eq!(d.response.header("Allow-Events"), Some("refer"));
        assert_eq!(d.result, "bad_event", "package {package}");
    }
}

#[test]
fn mwi_absorption_does_not_advertise_a_subscription() {
    let d = dispatch_notify(&notify(Some("dialog")));
    assert_eq!(d.response.header("Allow-Events"), Some("refer"));
}

#[test]
fn notify_without_event_is_400() {
    let d = dispatch_notify(&notify(None));
    assert_eq!(d.response.code(), 400);
    assert_eq!(d.result, "bad_request");
}

#[test]
fn the_compact_event_header_counts_too() {
    let mut req = notify(None);
    req.headers.push(("o".to_string(), " REFER ; id=1".to_string()));
    assert_eq!(dispatch_notify(&req).result, "accepted");
}

#[test]
fn allow_header_advertises_notify() {
    let handler = RoutingHandler::new(RouteSet::default());
    assert!(handler.supported_methods().contains(&"NOTIFY"));
}

#[test]
fn an_ack_is_handed_to_its_call_with_or_without_a_body() {
    let handler = RoutingHandler::new(RouteSet::default());
    assert_eq!(handler.on_ack(&in_dialog(Some("empty-ack@peer"))), "empty-ack@peer");
    assert_eq!(handler.on_ack(&in_dialog(None)), "");
}

// ---- Digest authentication ----

fn auth(require_all: bool, trunks: &[&str]) -> InboundDigestAuth {
    InboundDigestAuth::new(
        "siphon.example",
        "SHA-256",
        "auth",
        vec![("alice".to_string(), "secret".to_string())],
        require_all,
        trunks.iter().map(|s| s.to_string()).collect(),
        NonceFreshness {
            ttl: 300_000,
            reuse_window: Some(10_000),
        },
    )
}

const UNVERIFIED: DigestCheck = DigestCheck {
    verified: false,
    ttl_stale: false,
    reuse_expired: false,
};

fn with_credentials() -> Request {
    invite(
        ("9000", "siphon.example"),
        ("caller", "siphon.example"),
        ("9000", "siphon.example"),
        &[("Authorization", "Digest username=\"alice\"")],
    )
}

#[test]
fn requires_auth_honours_policy() {
    let all = auth(true, &[]);
    assert!(all.requires_auth("anything"));

    let per_trunk = auth(false, &["roaming"]);
    assert!(per_trunk.requires_auth("roaming"));
    assert!(!per_trunk.requires_auth("static-carrier"));
}

#[test]
fn no_authorization_header_is_challenged_fresh() {
    let a = auth(true, &[]);
    let outcome = a.evaluate(&plain("9000"), UNVERIFIED);
    assert_eq!(
        outcome,
        DigestOutcome::Challenge {
            stale: false,
            had_credentials: false
        }
    );
    assert_eq!(outcome.metric_result(), "challenged");
}

#[test]
fn challenge_response_is_401_with_www_authenticate() {
    let a = auth(true, &[]);
    let value = "Digest realm=\"siphon.example\", nonce=\"n\"".to_string();
    let resp = a.challenge(&plain("9000"), Some(value.clone()));
    assert_eq!(resp.code(), 401);
    assert_eq!(resp.reason(), "Unauthorized");
    let wa = resp.header("WWW-Authenticate").expect("WWW-Authenticate present");
    assert_eq!(wa, value.as_str());
    assert!(wa.contains("Digest"), "scheme: {wa}");
    assert!(wa.contains("realm=\"siphon.example\""), "realm: {wa}");
    assert!(wa.contains("nonce="), "nonce: {wa}");
    assert_eq!(a.challenge(&plain("9000"), None).header("WWW-Authenticate"), None);
}

#[test]
fn failed_credentials_and_stale_nonces_are_labelled_apart() {
    let a = auth(true, &[]);
    let failed = a.evaluate(&with_credentials(), UNVERIFIED);
    assert_eq!(failed.metric_result(), "failed");
    for check in [
        DigestCheck { ttl_stale: true, ..UNVERIFIED },
        DigestCheck { reuse_expired: true, ..UNVERIFIED },
    ] {
        let stale = a.evaluate(&with_credentials(), check);
        assert_eq!(stale.metric_result(), "stale");
    }
    let ok = a.evaluate(&with_credentials(), DigestCheck { verified: true, ..UNVERIFIED });
    assert_eq!(ok, DigestOutcome::Authenticated);
    assert_eq!(ok.metric_result(), "ok");
}

#[test]
fn credentials_are_found_in_their_realm_only() {
    let a = auth(true, &[]);
    let c = a.store.fetch("alice", "siphon.example").unwrap();
    assert_eq!((c.username.as_str(), c.password.as_str()), ("alice", "secret"));
    assert!(a.store.fetch("alice", "elsewhere").is_none());
    assert!(a.store.fetch("bob", "siphon.example").is_none());
}

#[test]
fn without_a_reuse_window_no_gap_is_too_long() {
    let f = NonceFreshness { ttl: 1, reuse_window: None };
    assert_eq!(f.max_request_age(), u64::MAX);
    let f = NonceFreshness { ttl: 1, reuse_window: Some(7) };
    assert_eq!(f.max_request_age(), 7);
}

// ---- The checks on an INVITE, in order ----

fn peer() -> Endpoint {
    Endpoint {
        ip: IpAddr::V4(0x0a000001),
        port: 5060,
        text: "10.0.0.1:5060".to_string(),
    }
}

fn reason_of(audit: &Option<AuditEvent<String>>) -> &str {
    match audit {
        Some(AuditEvent::InviteRejected { peer, reason }) => {
            assert_eq!(peer, "10.0.0.1:5060");
            reason.as_str()
        }
        other => panic!("no rejection on record: {other:?}"),
    }
}

#[test]
fn inside_a_dialog_nothing_is_checked() {
    let mut h = RoutingHandler::new(reception_only())
        .with_admission(InviteAdmission::new(0, 0, 0, 1, 10));
    let (report, step) = h.on_invite(&plain("5000"), &peer(), true, true, 0, 99);
    assert!(report.is_none());
    match step {
        InviteStep::Reinvite { sip_call_id } => assert_eq!(sip_call_id, "call-1@example.net"),
        other => panic!("{other:?}"),
    }
}

#[test]
fn admission_comes_before_draining() {
    let mut h = RoutingHandler::new(reception_only())
        .with_drain(9)
        .with_admission(InviteAdmission::new(1, 1, 1, 0, 10));
    let req = plain("5000");
    // Admitted, but draining.
    let (report, step) = h.on_invite(&req, &peer(), false, true, 0, 0);
    assert_eq!(report.as_ref().map(|r| (r.result, r.sources)), Some(("accepted", 1)));
    match step {
        InviteStep::Reply { response, audit } => {
            assert_eq!(response.code(), 503);
            assert_eq!(response.header("Retry-After"), Some("9"));
            assert_eq!(reason_of(&audit), "draining");
        }
        other => panic!("{other:?}"),
    }
    // Limited: the limiter answers first.
    let (report, step) = h.on_invite(&req, &peer(), false, true, 0, 0);
    assert_eq!(report.map(|r| r.result), Some("rate_limited"));
    match step {
        InviteStep::Reply { response, audit } => {
            assert_eq!(response.code(), 503);
            assert_eq!(response.header("Retry-After"), Some("2"));
            assert_eq!(reason_of(&audit), "rate_limited");
        }
        other => panic!("{other:?}"),
    }
    // A flood is dropped, unanswered and off the record.
    let (report, step) = h.on_invite(&req, &peer(), false, true, 0, 0);
    assert_eq!(report.map(|r| r.result), Some("dropped"));
    assert!(matches!(step, InviteStep::Drop));
}

#[test]
fn the_default_retry_after_of_a_draining_node_is_five_seconds() {
    let mut h = RoutingHandler::new(RouteSet::default());
    let (_, step) = h.on_invite(&plain("5000"), &peer(), false, true, 0, 0);
    match step {
        InviteStep::Reply { response, .. } => {
            assert_eq!(response.header("Retry-After"), Some("5"))
        }
        other => panic!("{other:?}"),
    }
}

#[test]
fn an_unknown_trunk_is_forbidden_and_a_known_one_is_routed() {
    let mut h = RoutingHandler::new(by_register_source());
    let req = plain("5000");
    let (report, step) = h.on_invite(&req, &peer(), false, false, 0, 0);
    assert!(report.is_none());
    assert!(matches!(step, InviteStep::Identify));
    match h.identified(&req, &peer(), SourceAnswer::Gate(None)) {
        InviteStep::Reply { response, audit } => {
            assert_eq!((response.code(), response.reason()), (403, "Forbidden"));
            assert_eq!(reason_of(&audit), "no_trunk");
        }
        other => panic!("{other:?}"),
    }
    match h.identified(&req, &peer(), SourceAnswer::Gate(Some("cucm-main".to_string()))) {
        InviteStep::Accept { route, .. } => assert_eq!(route.name, "from-cucm"),
        other => panic!("{other:?}"),
    }
    match h.identified(&req, &peer(), SourceAnswer::Resolver("elsewhere".to_string())) {
        InviteStep::Reply { response, audit } => {
            assert_eq!(response.code(), 404);
            assert!(audit.is_none());
        }
        other => panic!("{other:?}"),
    }
}

#[test]
fn only_sources_that_must_authenticate_are_asked() {
    let h = RoutingHandler::new(reception_and_default()).with_digest_auth(auth(false, &["roaming"]));
    let req = plain("5000");
    match h.identified(&req, &peer(), SourceAnswer::Gate(Some("roaming".to_string()))) {
        InviteStep::Authenticate { register_source } => assert_eq!(register_source, "roaming"),
        other => panic!("{other:?}"),
    }
    assert!(matches!(
        h.identified(&req, &peer(), SourceAnswer::Gate(Some("static".to_string()))),
        InviteStep::Accept { .. }
    ));
}

#[test]
fn only_failures_and_stale_nonces_go_on_record() {
    let h = RoutingHandler::new(reception_and_default()).with_digest_auth(auth(true, &[]));
    let first = h.authenticated(&plain("5000"), &peer(), "trunk", UNVERIFIED, None);
    match first {
        (DigestOutcome::Challenge { .. }, InviteStep::Reply { response, audit }) => {
            assert_eq!(response.code(), 401);
            assert!(audit.is_none());
        }
        other => panic!("{other:?}"),
    }
    for (check, label) in [
        (UNVERIFIED, "failed"),
        (DigestCheck { reuse_expired: true, ..UNVERIFIED }, "stale"),
    ] {
        match h.authenticated(&with_credentials(), &peer(), "trunk", check, None) {
            (_, InviteStep::Reply { audit, .. }) => match audit {
                Some(AuditEvent::SipAuth { peer, source, result }) => {
                    assert_eq!(
                        (peer.as_str(), source.as_str(), result.as_str()),
                        ("10.0.0.1:5060", "trunk", label)
                    );
                }
                other => panic!("{other:?}"),
            },
            other => panic!("{other:?}"),
        }
    }
    let check = DigestCheck { verified: true, ..UNVERIFIED };
    match h.authenticated(&with_credentials(), &peer(), "trunk", check, None) {
        (DigestOutcome::Authenticated, InviteStep::Accept { route, .. }) => {
            assert_eq!(route.name, "default")
        }
        other => panic!("{other:?}"),
    }
}
