//! The admin endpoints from path to answer, over stub handles.
use serde::Deserialize;
use siphon_ai::telemetry::admin::{dispatch, AdminAction, AdminState, AdminStep};
use siphon_ai::telemetry::admin_reply::{
    add_participant, call_sip, create_conference, drain_start, drain_status, end_conference,
    hangup_call, hangup_call_by_bridge_id, list_calls, list_conferences, list_errors, list_parked,
    node_status, originate_call, park_call, recent_cdrs, refusal, remove_participant,
    resolve_bridge_id, retrieve_call, trigger_registration, AdminBody, AdminCallRow,
    AdminResponse, BodyFailure, ConferenceAdminError, ConferenceRow, DrainStatus,
    OriginateRejection, ParkAdminError, ParkedRow, RegistrationAdminError, RegistrationRow,
    RegistrationsSummary, StatusResponse,
};
use siphon_ai::telemetry::admin_route::{Method, RegistrationAction};
use siphon_ai::telemetry::cdr_ring::{self, CdrRecord, CdrRing};
use siphon_ai::telemetry::error_ring::ErrorEntry;
use siphon_ai::telemetry::sip_ring::{self, is_enabled, set_capacity, SipMessageEntry, SipRing};

/// A node whose handles answer what the test puts in them.
#[derive(Default)]
struct Node {
    calls: Option<Vec<String>>,
    hung_up: Vec<String>,
    registrations: Option<Option<RegistrationAdminError>>,
    triggered: Vec<(String, RegistrationAction)>,
    outbound: Option<Result<String, OriginateRejection>>,
    rooms: Option<Rooms>,
    park: Option<Lot>,
    cdrs: Option<Vec<CdrRecord>>,
    errors: Option<Vec<ErrorEntry>>,
    status: Option<StatusResponse>,
    draining: Option<bool>,
    drain: Option<DrainStatus>,
    ladders: Option<SipRing>,
    records: Option<CdrRing>,
}

struct Rooms {
    rows: Vec<ConferenceRow>,
    create: Result<String, ConferenceAdminError>,
    end: Result<(), ConferenceAdminError>,
    add: Result<(), ConferenceAdminError>,
    joined: Vec<(String, String)>,
}

impl Default for Rooms {
    fn default() -> Self {
        Rooms { rows: vec![], create: Ok("room-1".into()), end: Ok(()), add: Ok(()), joined: vec![] }
    }
}

struct Lot {
    rows: Vec<ParkedRow>,
    park: Result<(), ParkAdminError>,
    retrieve: Result<(), ParkAdminError>,
}

impl Default for Lot {
    fn default() -> Self {
        Lot { rows: vec![], park: Ok(()), retrieve: Ok(()) }
    }
}

fn parse<T, E>(body: &[u8]) -> Result<T, BodyFailure<E>>
where
    T: for<'a> Deserialize<'a>,
{
    serde_json::from_slice(body).map_err(|e| BodyFailure::Invalid(e.to_string()))
}

fn installed(node: &Node) -> AdminState {
    AdminState {
        call_registry: node.calls.is_some(),
        outbound: node.outbound.is_some(),
        conference: node.rooms.is_some(),
        park: node.park.is_some(),
        drain: node.drain.is_some(),
        registrations: node.registrations.is_some(),
        drain_start: node.draining.is_some(),
        status: node.status.is_some(),
        recent_cdrs: node.cdrs.is_some(),
        errors: node.errors.is_some(),
        sip_capture: node.ladders.as_ref().is_some_and(is_enabled),
        ..AdminState::default()
    }
}

/// The stub registry lists a bridge id `siphon-<sip>` for each call.
fn rows(sip_ids: &[String]) -> Vec<AdminCallRow> {
    sip_ids
        .iter()
        .map(|sip| AdminCallRow {
            call_id: format!("siphon-{sip}"),
            sip_call_id: sip.clone(),
            direction: "inbound".into(),
        })
        .collect()
}

fn hang_up(node: &mut Node, sip_call_id: &str) -> bool {
    let calls = node.calls.as_mut().expect("registry");
    match calls.iter().position(|c| c == sip_call_id) {
        Some(i) => {
            calls.remove(i);
            node.hung_up.push(sip_call_id.to_string());
            true
        }
        None => false,
    }
}

fn request(m: Method, path: &str, body: &str, node: &mut Node) -> AdminResponse {
    let body = body.as_bytes();
    let step = dispatch(m, path, body, &installed(node)).expect("admin path");
    let action = match step {
        AdminStep::Refuse { status, error } => return refusal(status, error),
        AdminStep::Act(action) => action,
    };
    match action {
        AdminAction::ListCalls => list_calls(rows(node.calls.as_ref().expect("registry"))),
        AdminAction::Hangup { call_id } => {
            let listed = rows(node.calls.as_ref().expect("registry"));
            let sip = resolve_bridge_id(&listed, &call_id);
            let done = match &sip {
                Some(id) => hang_up(node, &id.clone()),
                None => false,
            };
            hangup_call_by_bridge_id(&call_id, sip, done)
        }
        AdminAction::HangupSip { sip_call_id } => {
            let done = hang_up(node, &sip_call_id);
            hangup_call(&sip_call_id, done)
        }
        AdminAction::TriggerRegistration { name, action } => {
            let outcome = match node.registrations.take().expect("registrations") {
                Some(e) => Err(e),
                None => {
                    node.triggered.push((name.clone(), action));
                    Ok(RegistrationRow {
                        name: name.clone(),
                        server_addr: "10.0.0.9:5060".into(),
                        status: "failed".into(),
                        last_attempt_at: None,
                        expires_at: None,
                        last_error: Some("503 Service Unavailable".into()),
                    })
                }
            };
            trigger_registration(&name, action, outcome)
        }
        AdminAction::Originate => {
            let outcome = parse::<serde_json::Value, OriginateRejection>(body).and_then(|_| {
                node.outbound.take().expect("outbound").map_err(BodyFailure::Refused)
            });
            originate_call(outcome)
        }
        AdminAction::ListConferences => list_conferences(node.rooms.take().expect("rooms").rows),
        AdminAction::CreateConference { with_body } => {
            let read = if with_body { parse(body) } else { Ok(serde_json::Value::Null) };
            let rooms = node.rooms.take().expect("rooms");
            create_conference(read.and_then(|_| rooms.create.map_err(BodyFailure::Refused)))
        }
        AdminAction::EndConference { room_id } => {
            end_conference(room_id, node.rooms.take().expect("rooms").end)
        }
        AdminAction::AddParticipant { room_id } => {
            let rooms = node.rooms.as_mut().expect("rooms");
            let outcome = match parse::<serde_json::Value, ConferenceAdminError>(body) {
                Err(e) => Err(e),
                Ok(v) => {
                    let call_id = v["call_id"].as_str().expect("call_id").to_string();
                    rooms.joined.push((room_id.clone(), call_id.clone()));
                    match std::mem::replace(&mut rooms.add, Ok(())) {
                        Ok(()) => Ok(call_id),
                        Err(e) => Err(BodyFailure::Refused(e)),
                    }
                }
            };
            add_participant(room_id, outcome)
        }
        AdminAction::RemoveParticipant { room_id, call_id } => {
            let rooms = node.rooms.as_mut().expect("rooms");
            rooms.joined.push((room_id.clone(), call_id.clone()));
            remove_participant(room_id, call_id, Ok(()))
        }
        AdminAction::ListParked => list_parked(node.park.take().expect("park").rows),
        AdminAction::Park { call_id, with_body } => {
            let read = if with_body { parse(body) } else { Ok(serde_json::Value::Null) };
            let lot = node.park.take().expect("park");
            park_call(call_id, read.and_then(|_| lot.park.map_err(BodyFailure::Refused)))
        }
        AdminAction::Retrieve { call_id, with_body } => {
            let read = if with_body { parse(body) } else { Ok(serde_json::Value::Null) };
            let lot = node.park.take().expect("park");
            retrieve_call(call_id, read.and_then(|_| lot.retrieve.map_err(BodyFailure::Refused)))
        }
        AdminAction::RecentCdrs => recent_cdrs(node.cdrs.take().expect("cdrs")),
        AdminAction::ListErrors => list_errors(node.errors.take().expect("errors")),
        AdminAction::NodeStatus => node_status(node.status.take().expect("status")),
        AdminAction::StartDrain => {
            let before = node.draining.replace(true).expect("drain");
            drain_start(before)
        }
        AdminAction::DrainStatus => drain_status(node.drain.take().expect("drain status")),
        AdminAction::CallSip { call_id, ask_registry } => {
            let calls = if ask_registry {
                Some(rows(node.calls.as_ref().expect("registry")))
            } else {
                None
            };
            let records = node.records.take().unwrap_or_else(CdrRing::new);
            call_sip(&call_id, calls, &records, node.ladders.as_ref().expect("ladders"))
        }
        other => panic!("{path}: {other:?}"),
    }
}

// ---- Registration triggers ----

#[test]
fn registration_refresh_is_202_with_accept_time_row() {
    let mut node = Node { registrations: Some(None), ..Node::default() };
    let r = request(Method::Post, "/admin/v1/registrations/pbx-a/refresh", "", &mut node);
    assert_eq!(r.status, 202);
    match r.body {
        AdminBody::Triggered { action, registration } => {
            assert_eq!(action.as_str(), "refresh");
            assert_eq!(registration.name, "pbx-a");
            assert_eq!(registration.status, "failed");
        }
        other => panic!("{other:?}"),
    }
}

#[test]
fn registration_restart_reaches_the_handle() {
    let mut node = Node { registrations: Some(None), ..Node::default() };
    let r = request(Method::Post, "/admin/v1/registrations/cucm/restart", "", &mut node);
    assert_eq!(r.status, 202);
    assert_eq!(node.triggered, vec![("cucm".to_string(), RegistrationAction::Restart)]);
}

#[test]
fn registration_unknown_name_is_404_and_draining_is_409() {
    let mut node = Node {
        registrations: Some(Some(RegistrationAdminError::NotFound)),
        ..Node::default()
    };
    let r = request(Method::Post, "/admin/v1/registrations/nope/refresh", "", &mut node);
    assert_eq!(r.status, 404);

    let mut node = Node {
        registrations: Some(Some(RegistrationAdminError::ShuttingDown)),
        ..Node::default()
    };
    let r = request(Method::Post, "/admin/v1/registrations/pbx-a/restart", "", &mut node);
    assert_eq!(r.status, 409);
}

#[test]
fn registration_trigger_without_handle_is_503() {
    let path = "/admin/v1/registrations/pbx-a/refresh";
    assert_eq!(request(Method::Post, path, "", &mut Node::default()).status, 503);
}

// ---- Calls ----

#[test]
fn list_calls_503s_when_registry_absent() {
    assert_eq!(request(Method::Get, "/admin/calls", "", &mut Node::default()).status, 503);
}

#[test]
fn list_calls_returns_snapshot() {
    let mut node = Node {
        calls: Some(vec!["abc@host".into(), "def@host".into()]),
        ..Node::default()
    };
    let r = request(Method::Get, "/admin/calls", "", &mut node);
    assert_eq!(r.status, 200);
    match r.body {
        AdminBody::Calls { count, calls } => {
            assert_eq!(count, 2);
            assert_eq!(calls[0].sip_call_id, "abc@host");
            assert_eq!(calls[0].call_id, "siphon-abc@host");
            assert_eq!(calls[0].direction, "inbound");
        }
        other => panic!("{other:?}"),
    }
}

#[test]
fn hangup_signals_existing_call() {
    let mut node = Node { calls: Some(vec!["abc@host".into()]), ..Node::default() };
    let r = request(Method::Post, "/admin/calls/abc@host/hangup", "", &mut node);
    assert_eq!(r.status, 200);
    assert_eq!(node.hung_up.len(), 1);
}

#[test]
fn v1_hangup_takes_the_bridge_id() {
    let mut node = Node { calls: Some(vec!["abc@host".into()]), ..Node::default() };
    let r = request(Method::Post, "/admin/v1/calls/siphon-abc@host/hangup", "", &mut node);
    assert_eq!(r.status, 200);
    match r.body {
        AdminBody::HungUp { call_id, sip_call_id } => {
            assert_eq!(call_id, "siphon-abc@host");
            assert_eq!(sip_call_id, "abc@host");
        }
        other => panic!("{other:?}"),
    }
    assert_eq!(node.hung_up, vec!["abc@host".to_string()]);
}

#[test]
fn v1_hangup_rejects_a_sip_call_id() {
    let mut node = Node { calls: Some(vec!["abc@host".into()]), ..Node::default() };
    let r = request(Method::Post, "/admin/v1/calls/abc@host/hangup", "", &mut node);
    assert_eq!(r.status, 404);
    assert!(node.hung_up.is_empty(), "nothing hung up");
}

#[test]
fn a_bridge_id_hangs_up_the_call_it_names() {
    let mut node = Node {
        calls: Some(vec!["abc@host".into(), "def@host".into()]),
        ..Node::default()
    };
    let r = request(Method::Post, "/admin/v1/calls/siphon-abc@host/hangup", "", &mut node);
    assert_eq!(r.status, 200);
    assert_eq!(node.hung_up, vec!["abc@host".to_string()]);
    assert_eq!(node.calls, Some(vec!["def@host".to_string()]));
}

#[test]
fn hangup_unknown_call_is_404() {
    let mut node = Node { calls: Some(vec![]), ..Node::default() };
    let r = request(Method::Post, "/admin/calls/missing@host/hangup", "", &mut node);
    assert_eq!(r.status, 404);
}

const GOOD_BODY: &str = "{\"to\":\"+15558675309\",\"gateway\":\"trunk\"}";

#[test]
fn originate_501_when_outbound_disabled() {
    let r = request(Method::Post, "/admin/v1/calls", GOOD_BODY, &mut Node::default());
    assert_eq!(r.status, 501);
}

fn originate(outcome: Result<String, OriginateRejection>, body: &str) -> u16 {
    let mut node = Node { outbound: Some(outcome), ..Node::default() };
    request(Method::Post, "/admin/v1/calls", body, &mut node).status
}

#[test]
fn originate_accepts_returns_202() {
    assert_eq!(originate(Ok("siphon-abc".into()), GOOD_BODY), 202);
}

#[test]
fn originate_400_on_bad_json() {
    assert_eq!(originate(Ok("x".into()), "not json"), 400);
}

#[test]
fn originate_maps_rejections_to_status() {
    for (rejection, status) in [
        (OriginateRejection::UnknownGateway("g".into()), 404),
        (OriginateRejection::NoWsUrl, 400),
        (OriginateRejection::BadTarget("x".into()), 400),
        (OriginateRejection::AtCapacity, 503),
        (OriginateRejection::RateLimited, 429),
        (OriginateRejection::BadFrom("x".into()), 400),
    ] {
        let shown = format!("{rejection:?}");
        assert_eq!(originate(Err(rejection), GOOD_BODY), status, "{shown}");
    }
}

#[test]
fn an_originated_call_is_named() {
    let mut node = Node { outbound: Some(Ok("siphon-abc".into())), ..Node::default() };
    let r = request(Method::Post, "/admin/v1/calls", GOOD_BODY, &mut node);
    assert_eq!(r.status, 202);
    match r.body {
        AdminBody::Call { call_id } => assert_eq!(call_id, "siphon-abc"),
        other => panic!("{other:?}"),
    }
}

// ---- Conferences ----

fn with_rooms(rooms: Rooms) -> Node {
    Node { rooms: Some(rooms), ..Node::default() }
}

#[test]
fn conferences_501_when_disabled() {
    let r = request(Method::Get, "/admin/v1/conferences", "", &mut Node::default());
    assert_eq!(r.status, 501);
}

#[test]
fn list_conferences_returns_rooms() {
    let mut node = with_rooms(Rooms {
        rows: vec![ConferenceRow {
            room_id: "support-7".into(),
            sample_rate: 8000,
            participants: vec!["siphon-a".into(), "siphon-b".into()],
        }],
        ..Rooms::default()
    });
    let r = request(Method::Get, "/admin/v1/conferences", "", &mut node);
    assert_eq!(r.status, 200);
    match r.body {
        AdminBody::Conferences { count, conferences } => {
            assert_eq!(count, 1);
            assert_eq!(conferences[0].room_id, "support-7");
        }
        other => panic!("{other:?}"),
    }
}

#[test]
fn malformed_conference_subpath_is_404() {
    let mut node = with_rooms(Rooms::default());
    let path = "/admin/v1/conferences/r/participants/c/extra";
    assert_eq!(request(Method::Delete, path, "", &mut node).status, 404);
    let path = "/admin/v1/conferences/r/bogus/x";
    assert_eq!(request(Method::Delete, path, "", &mut node).status, 404);
}

#[test]
fn create_conference_201_with_empty_body() {
    let mut node = with_rooms(Rooms::default());
    let r = request(Method::Post, "/admin/v1/conferences", "", &mut node);
    assert_eq!(r.status, 201);
    match r.body {
        AdminBody::Room { room_id } => assert_eq!(room_id, "room-1"),
        other => panic!("{other:?}"),
    }
}

#[test]
fn create_conference_409_on_exists() {
    let mut node = with_rooms(Rooms {
        create: Err(ConferenceAdminError::RoomExists),
        ..Rooms::default()
    });
    let r = request(Method::Post, "/admin/v1/conferences", "{\"room_id\":\"dup\"}", &mut node);
    assert_eq!(r.status, 409);
}

#[test]
fn end_conference_404_when_absent() {
    let mut node = with_rooms(Rooms {
        end: Err(ConferenceAdminError::RoomNotFound),
        ..Rooms::default()
    });
    let r = request(Method::Delete, "/admin/v1/conferences/ghost", "", &mut node);
    assert_eq!(r.status, 404);
}

const JOIN: &str = "/admin/v1/conferences/support-7/participants";

#[test]
fn add_participant_202_and_routes_ids() {
    let mut node = with_rooms(Rooms::default());
    let r = request(Method::Post, JOIN, "{\"call_id\":\"siphon-x\"}", &mut node);
    assert_eq!(r.status, 202);
    let joined = node.rooms.expect("rooms").joined;
    assert_eq!(joined, vec![("support-7".to_string(), "siphon-x".to_string())]);
}

#[test]
fn add_participant_404_on_unknown_call() {
    let mut node = with_rooms(Rooms {
        add: Err(ConferenceAdminError::UnknownCall("siphon-x".into())),
        ..Rooms::default()
    });
    let r = request(Method::Post, JOIN, "{\"call_id\":\"siphon-x\"}", &mut node);
    assert_eq!(r.status, 404);
}

#[test]
fn add_participant_400_on_bad_body() {
    let mut node = with_rooms(Rooms::default());
    assert_eq!(request(Method::Post, JOIN, "not json", &mut node).status, 400);
}

#[test]
fn remove_participant_202() {
    let mut node = with_rooms(Rooms::default());
    let path = "/admin/v1/conferences/support-7/participants/siphon-x";
    assert_eq!(request(Method::Delete, path, "", &mut node).status, 202);
}

// ---- SIP ladders ----

fn with_ladders(calls: usize, messages: usize) -> Node {
    let mut ring = SipRing::new();
    set_capacity(&mut ring, calls, messages);
    Node { ladders: Some(ring), ..Node::default() }
}

#[test]
fn sip_ladder_reports_disabled_capture_as_501_not_an_empty_200() {
    let mut node = with_ladders(0, 64);
    let r = request(Method::Get, "/admin/v1/calls/abc/sip", "", &mut node);
    assert_eq!(r.status, 501);
    match r.body {
        AdminBody::Error(message) => assert!(message.contains("sip_ring_size")),
        other => panic!("{other:?}"),
    }
}

#[test]
fn sip_ladder_404s_an_unknown_call_and_400s_an_empty_id() {
    let mut node = with_ladders(10, 8);
    let r = request(Method::Get, "/admin/v1/calls/nope/sip", "", &mut node);
    assert_eq!(r.status, 404, "unknown in both id namespaces");
    let r = request(Method::Get, "/admin/v1/calls//sip", "", &mut node);
    assert_eq!(r.status, 400);
}

#[test]
fn sip_ladder_serves_a_just_ended_call_through_the_cdr_ring() {
    let mut ring = SipRing::new();
    set_capacity(&mut ring, 10, 8);
    sip_ring::push(
        &mut ring,
        "sip-call-id-9",
        SipMessageEntry {
            ts_ms: 1_755_000_000_000,
            direction: "in".into(),
            src: "203.0.113.9:5060".into(),
            dst: "10.0.0.2:5060".into(),
            payload: "INVITE sip:x SIP/2.0\r\n".into(),
        },
    );
    let mut records = CdrRing::new();
    cdr_ring::set_capacity(&mut records, 10);
    let json = "{\"call_id\":\"bridge-9\",\"sip_call_id\":\"sip-call-id-9\"}";
    cdr_ring::push(&mut records, CdrRecord::from_json(json.into()));
    // No registry at all: the shape after a hangup.
    let mut node = Node { ladders: Some(ring), records: Some(records), ..Node::default() };
    let r = request(Method::Get, "/admin/v1/calls/bridge-9/sip", "", &mut node);
    assert_eq!(r.status, 200);
    match r.body {
        AdminBody::Ladder { sip_call_id, messages, truncated, count, .. } => {
            assert_eq!(sip_call_id, "sip-call-id-9");
            assert_eq!(count, 1);
            assert!(!truncated);
            assert_eq!(messages[0].direction, "in");
            assert!(messages[0].payload.starts_with("INVITE"));
        }
        other => panic!("{other:?}"),
    }
}

// ---- Parked calls ----

fn with_lot(lot: Lot) -> Node {
    Node { park: Some(lot), ..Node::default() }
}

#[test]
fn parked_501_when_disabled() {
    for (m, path) in [
        (Method::Get, "/admin/v1/parked"),
        (Method::Post, "/admin/v1/calls/c/park"),
        (Method::Post, "/admin/v1/calls/c/retrieve"),
    ] {
        assert_eq!(request(m, path, "", &mut Node::default()).status, 501, "{path}");
    }
}

#[test]
fn list_parked_returns_rows() {
    let mut node = with_lot(Lot {
        rows: vec![ParkedRow {
            call_id: "siphon-a".into(),
            slot: Some("lot-3".into()),
            parked_secs: 42,
        }],
        ..Lot::default()
    });
    let r = request(Method::Get, "/admin/v1/parked", "", &mut node);
    assert_eq!(r.status, 200);
    match r.body {
        AdminBody::Parked { count, parked } => {
            assert_eq!(count, 1);
            assert_eq!(parked[0].call_id, "siphon-a");
            assert_eq!(parked[0].slot.as_deref(), Some("lot-3"));
            assert_eq!(parked[0].parked_secs, 42);
        }
        other => panic!("{other:?}"),
    }
}

#[test]
fn park_202_when_dispatched() {
    let mut node = with_lot(Lot::default());
    let path = "/admin/v1/calls/siphon-a/park";
    let r = request(Method::Post, path, "{\"slot\":\"lot-1\"}", &mut node);
    assert_eq!(r.status, 202);
    match r.body {
        AdminBody::Call { call_id } => assert_eq!(call_id, "siphon-a"),
        other => panic!("{other:?}"),
    }
}

#[test]
fn park_202_with_empty_body() {
    let mut node = with_lot(Lot::default());
    assert_eq!(request(Method::Post, "/admin/v1/calls/siphon-a/park", "", &mut node).status, 202);
}

#[test]
fn park_404_unknown_call() {
    let mut node = with_lot(Lot {
        park: Err(ParkAdminError::UnknownCall("ghost".into())),
        ..Lot::default()
    });
    assert_eq!(request(Method::Post, "/admin/v1/calls/ghost/park", "", &mut node).status, 404);
}

#[test]
fn retrieve_202_when_dispatched() {
    let mut node = with_lot(Lot::default());
    let r = request(
        Method::Post,
        "/admin/v1/calls/siphon-a/retrieve",
        "{\"ws_url\":\"wss://bot.example/retrieve\"}",
        &mut node,
    );
    assert_eq!(r.status, 202);
}

#[test]
fn retrieve_409_when_not_parked() {
    let mut node = with_lot(Lot {
        retrieve: Err(ParkAdminError::NotParked("siphon-a".into())),
        ..Lot::default()
    });
    let r = request(Method::Post, "/admin/v1/calls/siphon-a/retrieve", "", &mut node);
    assert_eq!(r.status, 409);
}

#[test]
fn retrieve_404_unknown_call() {
    let mut node = with_lot(Lot {
        retrieve: Err(ParkAdminError::UnknownCall("ghost".into())),
        ..Lot::default()
    });
    assert_eq!(request(Method::Post, "/admin/v1/calls/ghost/retrieve", "", &mut node).status, 404);
}

// ---- Rings, status and drain ----

#[test]
fn recent_cdrs_503_when_not_installed() {
    let r = request(Method::Get, "/admin/v1/cdrs/recent", "", &mut Node::default());
    assert_eq!(r.status, 503);
}

#[test]
fn recent_cdrs_lists_ring_passthrough() {
    let mut node = Node {
        cdrs: Some(vec![CdrRecord::from_json(
            "{\"version\":8,\"call_id\":\"siphon-abc\"}".into(),
        )]),
        ..Node::default()
    };
    let r = request(Method::Get, "/admin/v1/cdrs/recent", "", &mut node);
    assert_eq!(r.status, 200);
    match r.body {
        AdminBody::Cdrs { count, cdrs } => {
            assert_eq!(count, 1);
            assert_eq!(cdrs[0].call_id.as_deref(), Some("siphon-abc"));
        }
        other => panic!("{other:?}"),
    }
}

#[test]
fn status_503_when_not_installed() {
    assert_eq!(request(Method::Get, "/admin/v1/status", "", &mut Node::default()).status, 503);
}

#[test]
fn status_reports_summary() {
    let mut node = Node {
        status: Some(StatusResponse {
            version: "0.49.0-test".into(),
            uptime_secs: 42,
            active_calls: 1,
            registrations: RegistrationsSummary { registered: 1, total: 2 },
            draining: false,
            hep_enabled: false,
        }),
        ..Node::default()
    };
    let r = request(Method::Get, "/admin/v1/status", "", &mut node);
    assert_eq!(r.status, 200);
    match r.body {
        AdminBody::Status(s) => {
            assert_eq!(s.version, "0.49.0-test");
            assert_eq!(s.registrations.total, 2);
            assert_eq!(s.uptime_secs, 42);
        }
        other => panic!("{other:?}"),
    }
}

#[test]
fn errors_503_when_not_installed() {
    assert_eq!(request(Method::Get, "/admin/v1/errors", "", &mut Node::default()).status, 503);
}

#[test]
fn errors_lists_ring_snapshot_newest_first() {
    let mut node = Node {
        errors: Some(vec![ErrorEntry {
            ts_ms: 1_755_000_000_123,
            level: "warn".into(),
            target: "siphon_ai_bridge::conn".into(),
            message: "server_too_slow deadline=5s".into(),
            call_id: Some("siphon-abc".into()),
        }]),
        ..Node::default()
    };
    let r = request(Method::Get, "/admin/v1/errors", "", &mut node);
    assert_eq!(r.status, 200);
    match r.body {
        AdminBody::Errors { count, errors } => {
            assert_eq!(count, 1);
            assert_eq!(errors[0].level, "warn");
            assert_eq!(errors[0].call_id.as_deref(), Some("siphon-abc"));
            assert_eq!(errors[0].ts_ms, 1_755_000_000_123u64);
        }
        other => panic!("{other:?}"),
    }
}

#[test]
fn drain_start_503_when_not_installed() {
    assert_eq!(request(Method::Post, "/admin/v1/drain", "", &mut Node::default()).status, 503);
}

#[test]
fn drain_start_202_and_reports_already_draining() {
    let mut node = Node { draining: Some(false), ..Node::default() };
    for expected in [false, true] {
        let r = request(Method::Post, "/admin/v1/drain", "", &mut node);
        assert_eq!(r.status, 202);
        match r.body {
            AdminBody::DrainSignalled { already_draining } => {
                assert_eq!(already_draining, expected)
            }
            other => panic!("{other:?}"),
        }
    }
}

#[test]
fn drain_503_when_not_installed() {
    assert_eq!(request(Method::Get, "/admin/v1/drain", "", &mut Node::default()).status, 503);
}

fn drain_body(status: DrainStatus) -> DrainStatus {
    let mut node = Node { drain: Some(status), ..Node::default() };
    let r = request(Method::Get, "/admin/v1/drain", "", &mut node);
    assert_eq!(r.status, 200);
    match r.body {
        AdminBody::Drain(s) => s,
        other => panic!("{other:?}"),
    }
}

#[test]
fn drain_reports_not_draining() {
    let s = drain_body(DrainStatus {
        draining: false,
        active_calls: 3,
        drain_timeout_secs: 30,
        remaining_secs: None,
    });
    assert!(!s.draining);
    assert_eq!(s.active_calls, 3);
    assert_eq!(s.drain_timeout_secs, 30);
    assert_eq!(s.remaining_secs, None);
}

#[test]
fn drain_reports_active_drain_with_countdown() {
    let s = drain_body(DrainStatus {
        draining: true,
        active_calls: 2,
        drain_timeout_secs: 30,
        remaining_secs: Some(18),
    });
    assert!(s.draining);
    assert_eq!(s.remaining_secs, Some(18));
}
