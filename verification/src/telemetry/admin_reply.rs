//! Admin endpoints: the response to each outcome of an action.
use vstd::prelude::*;

use crate::telemetry::admin_route::{opt_view, RegistrationAction};
use crate::telemetry::cdr_ring::{CdrRecord, CdrRing};
use crate::telemetry::error_ring::ErrorEntry;
use crate::telemetry::log_filter::LogFilterError;
use crate::telemetry::sip_ring::{SipMessageEntry, SipRing};
use crate::text::{concat, concat3, debug_form, debug_quoted, str_eq};

verus! {

/// One live call, with both of its ids.
#[derive(Debug)]
pub struct AdminCallRow {
    pub call_id: String,
    pub sip_call_id: String,
    pub direction: String,
}

/// One registration binding.
#[derive(Debug)]
pub struct RegistrationRow {
    pub name: String,
    pub server_addr: String,
    pub status: String,
    pub last_attempt_at: Option<String>,
    pub expires_at: Option<String>,
    pub last_error: Option<String>,
}

/// One configured trunk, as JSON text.
#[derive(Debug)]
pub struct TrunkRow {
    pub json: String,
}

/// One conference room and its members.
#[derive(Debug)]
pub struct ConferenceRow {
    pub room_id: String,
    pub sample_rate: u32,
    pub participants: Vec<String>,
}

/// One parked call.
#[derive(Debug)]
pub struct ParkedRow {
    pub call_id: String,
    pub slot: Option<String>,
    pub parked_secs: u64,
}

/// How many of the configured bindings are registered.
#[derive(Debug, Clone, Copy, PartialEq, Eq)]
pub struct RegistrationsSummary {
    pub registered: usize,
    pub total: usize,
}

/// Node summary.
#[derive(Debug)]
pub struct StatusResponse {
    pub version: String,
    pub uptime_secs: u64,
    pub active_calls: usize,
    pub registrations: RegistrationsSummary,
    pub draining: bool,
    pub hep_enabled: bool,
}

/// Graceful-shutdown drain status.
#[derive(Debug, Clone, Copy, PartialEq, Eq)]
pub struct DrainStatus {
    pub draining: bool,
    pub active_calls: usize,
    pub drain_timeout_secs: u64,
    pub remaining_secs: Option<u64>,
}

/// Why an originate request was refused before the call was placed.
#[derive(Debug, Clone, PartialEq, Eq)]
pub enum OriginateRejection {
    /// No gateway with that name.
    UnknownGateway(String),
    /// No WebSocket URL, and no default.
    NoWsUrl,
    /// The destination did not form a valid SIP URI.
    BadTarget(String),
    /// The concurrency cap is reached.
    AtCapacity,
    /// The outbound rate limit was exceeded.
    RateLimited,
    /// Bad recording value, or recording without a directory.
    BadRecording(String),
    /// The caller id did not form a valid SIP URI.
    BadFrom(String),
    /// The daemon is draining for shutdown.
    Draining,
}

/// Why a conference operation was refused.
#[derive(Debug, Clone, PartialEq, Eq)]
pub enum ConferenceAdminError {
    /// Conferencing is off.
    Disabled,
    /// The room exists already.
    RoomExists,
    /// The room cap is reached.
    TooManyRooms,
    /// The room id or the sample rate is invalid.
    BadRequest(String),
    /// No live room with that id.
    RoomNotFound,
    /// No active call with that bridge id.
    UnknownCall(String),
}

/// Why a park operation was refused.
#[derive(Debug, Clone, PartialEq, Eq)]
pub enum ParkAdminError {
    /// Parking is off.
    Disabled,
    /// No active call with that bridge id.
    UnknownCall(String),
    /// The call is not parked.
    NotParked(String),
}

/// Why a registration trigger was not queued.
#[derive(Debug, Clone, Copy, PartialEq, Eq, Structural)]
pub enum RegistrationAdminError {
    /// No binding with that name.
    NotFound,
    /// The binding's task has exited.
    ShuttingDown,
}

/// How an action that reads the request body failed.
#[derive(Debug)]
pub enum BodyFailure<E> {
    /// The body did not parse; the parser's message.
    Invalid(String),
    /// The handle refused.
    Refused(E),
}

/// A response body.
#[derive(Debug)]
pub enum AdminBody {
    /// `{"error": ...}`
    Error(String),
    Calls { count: usize, calls: Vec<AdminCallRow> },
    Status(StatusResponse),
    Cdrs { count: usize, cdrs: Vec<CdrRecord> },
    Errors { count: usize, errors: Vec<ErrorEntry> },
    /// `{"drain_signalled": true, "already_draining": ...}`
    DrainSignalled { already_draining: bool },
    Drain(DrainStatus),
    /// A quality snapshot, as JSON text.
    Stats(String),
    Trunks { count: usize, trunks: Vec<TrunkRow> },
    Ladder {
        call_id: String,
        sip_call_id: String,
        truncated: bool,
        count: usize,
        messages: Vec<SipMessageEntry>,
    },
    /// `{"shutdown_signalled": true, "call_id": ..., "sip_call_id": ...}`
    HungUp { call_id: String, sip_call_id: String },
    /// `{"shutdown_signalled": false, "call_id": ...}`
    NoSuchCall { call_id: String },
    /// `{"shutdown_signalled": ..., "sip_call_id": ...}`
    HungUpSip { shutdown_signalled: bool, sip_call_id: String },
    Registrations { count: usize, registrations: Vec<RegistrationRow> },
    LogFilter { filter: String },
    LogFilterSet { filter: String, previous: String },
    /// `{"emitted": true, "correlation_id": "admin-probe", "hint": ...}`
    ProbeEmitted,
    /// `{"call_id": ...}`
    Call { call_id: String },
    Conferences { count: usize, conferences: Vec<ConferenceRow> },
    /// `{"room_id": ...}`
    Room { room_id: String },
    /// `{"ended": true, "room_id": ...}`
    RoomEnded { room_id: String },
    /// `{"room_id": ..., "call_id": ...}`
    Member { room_id: String, call_id: String },
    Parked { count: usize, parked: Vec<ParkedRow> },
    /// `{"accepted": true, "action": ..., "registration": ...}`
    Triggered { action: RegistrationAction, registration: RegistrationRow },
}

/// A response: a status and a JSON body.
#[derive(Debug)]
pub struct AdminResponse {
    pub status: u16,
    pub body: AdminBody,
}

impl AdminResponse {
    /// An error answer with the given status and message.
    pub open spec fn is_error(self, status: u16, message: Seq<char>) -> bool {
        self.status == status && self.body is Error && self.body->Error_0@ == message
    }
}

fn error(status: u16, message: &str) -> (r: AdminResponse)
    ensures
        r.is_error(status, message@),
{
    AdminResponse { status, body: AdminBody::Error(message.to_owned()) }
}

fn error_owned(status: u16, message: String) -> (r: AdminResponse)
    ensures
        r.is_error(status, message@),
{
    AdminResponse { status, body: AdminBody::Error(message) }
}

/// The refusal of a first step, as a response.
pub fn refusal(status: u16, message: String) -> (r: AdminResponse)
    ensures
        r.is_error(status, message@),
{
    error_owned(status, message)
}

// ---- Listings and status ----

/// `GET …/calls`.
pub fn list_calls(calls: Vec<AdminCallRow>) -> (r: AdminResponse)
    ensures
        r == (AdminResponse {
            status: 200,
            body: AdminBody::Calls { count: calls@.len() as usize, calls },
        }),
{
    AdminResponse { status: 200, body: AdminBody::Calls { count: calls.len(), calls } }
}

/// `GET …/status`.
pub fn node_status(status: StatusResponse) -> (r: AdminResponse)
    ensures
        r == (AdminResponse { status: 200, body: AdminBody::Status(status) }),
{
    AdminResponse { status: 200, body: AdminBody::Status(status) }
}

/// `GET …/cdrs/recent`.
pub fn recent_cdrs(cdrs: Vec<CdrRecord>) -> (r: AdminResponse)
    ensures
        r == (AdminResponse {
            status: 200,
            body: AdminBody::Cdrs { count: cdrs@.len() as usize, cdrs },
        }),
{
    AdminResponse { status: 200, body: AdminBody::Cdrs { count: cdrs.len(), cdrs } }
}

/// `GET …/errors`.
pub fn list_errors(errors: Vec<ErrorEntry>) -> (r: AdminResponse)
    ensures
        r == (AdminResponse {
            status: 200,
            body: AdminBody::Errors { count: errors@.len() as usize, errors },
        }),
{
    AdminResponse { status: 200, body: AdminBody::Errors { count: errors.len(), errors } }
}

/// `POST …/drain`: accepted either way; the body says whether a drain was running.
pub fn drain_start(already_draining: bool) -> (r: AdminResponse)
    ensures
        r == (AdminResponse {
            status: 202,
            body: AdminBody::DrainSignalled { already_draining },
        }),
{
    AdminResponse { status: 202, body: AdminBody::DrainSignalled { already_draining } }
}

/// `GET …/drain`.
pub fn drain_status(status: DrainStatus) -> (r: AdminResponse)
    ensures
        r == (AdminResponse { status: 200, body: AdminBody::Drain(status) }),
{
    AdminResponse { status: 200, body: AdminBody::Drain(status) }
}

/// `GET …/calls/:id/stats`, with the snapshot found for the call.
pub fn call_stats(stats: Option<String>) -> (r: AdminResponse)
    ensures
        match stats {
            Some(row) => r == (AdminResponse { status: 200, body: AdminBody::Stats(row) }),
            None => r.is_error(404, "no active call with that call_id"@),
        },
{
    match stats {
        Some(row) => AdminResponse { status: 200, body: AdminBody::Stats(row) },
        None => error(404, "no active call with that call_id"),
    }
}

/// `GET …/trunks`: a daemon built without the listing answers an empty one.
pub fn list_trunks(trunks: Option<Vec<TrunkRow>>) -> (r: AdminResponse)
    ensures
        r.status == 200,
        r.body is Trunks,
        r.body->trunks@ == (match trunks {
            Some(t) => t@,
            None => Seq::empty(),
        }),
        r.body->Trunks_count == r.body->trunks@.len(),
{
    let trunks = match trunks {
        Some(t) => t,
        None => Vec::new(),
    };
    AdminResponse { status: 200, body: AdminBody::Trunks { count: trunks.len(), trunks } }
}

/// `GET …/registrations`.
pub fn list_registrations(registrations: Vec<RegistrationRow>) -> (r: AdminResponse)
    ensures
        r == (AdminResponse {
            status: 200,
            body: AdminBody::Registrations {
                count: registrations@.len() as usize,
                registrations,
            },
        }),
{
    AdminResponse {
        status: 200,
        body: AdminBody::Registrations { count: registrations.len(), registrations },
    }
}

/// `GET …/conferences`.
pub fn list_conferences(conferences: Vec<ConferenceRow>) -> (r: AdminResponse)
    ensures
        r == (AdminResponse {
            status: 200,
            body: AdminBody::Conferences { count: conferences@.len() as usize, conferences },
        }),
{
    AdminResponse {
        status: 200,
        body: AdminBody::Conferences { count: conferences.len(), conferences },
    }
}

/// `GET …/parked`.
pub fn list_parked(parked: Vec<ParkedRow>) -> (r: AdminResponse)
    ensures
        r == (AdminResponse {
            status: 200,
            body: AdminBody::Parked { count: parked@.len() as usize, parked },
        }),
{
    AdminResponse { status: 200, body: AdminBody::Parked { count: parked.len(), parked } }
}

// ---- The SIP ladder of one call ----

/// The SIP Call-ID of the first live call with the given bridge id.
pub open spec fn resolved(calls: Seq<AdminCallRow>, call_id: Seq<char>) -> Option<Seq<char>>
    decreases calls.len(),
{
    if calls.len() == 0 {
        None
    } else if calls[0].call_id@ == call_id {
        Some(calls[0].sip_call_id@)
    } else {
        resolved(calls.drop_first(), call_id)
    }
}

/// The SIP Call-ID of a live call, by its bridge id.
pub fn resolve_bridge_id(calls: &Vec<AdminCallRow>, call_id: &str) -> (r: Option<String>)
    ensures
        opt_view(r) == resolved(calls@, call_id@),
{
    let mut i: usize = 0;
    assert(calls@.subrange(0, calls@.len() as int) =~= calls@);
    while i < calls.len()
        invariant
            i <= calls@.len(),
            resolved(calls@, call_id@) == resolved(
                calls@.subrange(i as int, calls@.len() as int),
                call_id@,
            ),
        decreases calls@.len() - i,
    {
        if str_eq(calls[i].call_id.as_str(), call_id) {
            return Some(calls[i].sip_call_id.clone());
        }
        assert(calls@.subrange(i as int, calls@.len() as int).drop_first() =~= calls@.subrange(
            i + 1,
            calls@.len() as int,
        ));
        i += 1;
    }
    None
}

/// The SIP Call-ID of the first record with the given bridge id that has one.
pub open spec fn recorded(cdrs: Seq<CdrRecord>, call_id: Seq<char>) -> Option<Seq<char>>
    decreases cdrs.len(),
{
    if cdrs.len() == 0 {
        None
    } else if opt_view(cdrs[0].call_id) == Some(call_id) && cdrs[0].sip_call_id is Some {
        Some(cdrs[0].sip_call_id->0@)
    } else {
        recorded(cdrs.drop_first(), call_id)
    }
}

/// The SIP Call-ID of a call that just ended, by its bridge id.
pub fn resolve_recorded(cdrs: &Vec<CdrRecord>, call_id: &str) -> (r: Option<String>)
    ensures
        opt_view(r) == recorded(cdrs@, call_id@),
{
    let mut i: usize = 0;
    assert(cdrs@.subrange(0, cdrs@.len() as int) =~= cdrs@);
    while i < cdrs.len()
        invariant
            i <= cdrs@.len(),
            recorded(cdrs@, call_id@) == recorded(
                cdrs@.subrange(i as int, cdrs@.len() as int),
                call_id@,
            ),
        decreases cdrs@.len() - i,
    {
        if let Some(id) = &cdrs[i].call_id {
            if str_eq(id.as_str(), call_id) {
                if let Some(sip) = &cdrs[i].sip_call_id {
                    return Some(sip.clone());
                }
            }
        }
        assert(cdrs@.subrange(i as int, cdrs@.len() as int).drop_first() =~= cdrs@.subrange(
            i + 1,
            cdrs@.len() as int,
        ));
        i += 1;
    }
    None
}

/// The SIP Call-ID of a call, live or just ended: the registry is asked first, the
/// recent records, newest first, after it.
pub open spec fn ladder_key(
    calls: Option<Seq<AdminCallRow>>,
    cdrs: Seq<CdrRecord>,
    call_id: Seq<char>,
) -> Option<Seq<char>> {
    let live = match calls {
        Some(rows) => resolved(rows, call_id),
        None => None,
    };
    if live is Some {
        live
    } else {
        recorded(cdrs.reverse(), call_id)
    }
}

/// `GET …/calls/:id/sip`: the messages captured for one call, oldest first. A call
/// that neither the registry nor the recent records know is not found; a known call
/// whose trace is gone has an empty ladder.
pub fn call_sip(
    call_id: &str,
    calls: Option<Vec<AdminCallRow>>,
    cdrs: &CdrRing,
    ring: &SipRing,
) -> (r: AdminResponse)
    ensures
        ({
            let key = ladder_key(
                match calls {
                    Some(rows) => Some(rows@),
                    None => None,
                },
                cdrs.entries(),
                call_id@,
            );
            match key {
                None => r.is_error(404, "no active or recent call with that call_id"@),
                Some(k) => {
                    &&& r.status == 200
                    &&& r.body is Ladder
                    &&& r.body->Ladder_call_id@ == call_id@
                    &&& r.body->Ladder_sip_call_id@ == k
                    &&& r.body->messages@ == (if ring@.holds(k) {
                        ring@.trace(k).messages
                    } else {
                        Seq::empty()
                    })
                    &&& r.body->truncated == (ring@.holds(k) && ring@.trace(k).truncated)
                    &&& r.body->Ladder_count == r.body->messages@.len()
                },
            }
        }),
{
    let live = match &calls {
        Some(rows) => resolve_bridge_id(rows, call_id),
        None => None,
    };
    let key = match live {
        Some(k) => Some(k),
        None => {
            let recent = crate::telemetry::cdr_ring::snapshot(cdrs);
            resolve_recorded(&recent, call_id)
        },
    };
    let sip_call_id = match key {
        Some(k) => k,
        None => return error(404, "no active or recent call with that call_id"),
    };
    let (messages, truncated) = match crate::telemetry::sip_ring::snapshot(
        ring,
        sip_call_id.as_str(),
    ) {
        Some(p) => p,
        None => (Vec::new(), false),
    };
    AdminResponse {
        status: 200,
        body: AdminBody::Ladder {
            call_id: call_id.to_owned(),
            sip_call_id,
            truncated,
            count: messages.len(),
            messages,
        },
    }
}

// ---- Hangup ----

/// `POST /admin/v1/calls/:id/hangup`: `sip_call_id` is what the bridge id resolved
/// to, `hung_up` whether the registry then signalled the call. Both misses are the
/// same answer: the call is gone.
pub fn hangup_call_by_bridge_id(call_id: &str, sip_call_id: Option<String>, hung_up: bool) -> (r:
    AdminResponse)
    ensures
        if sip_call_id is Some && hung_up {
            &&& r.status == 200
            &&& r.body is HungUp
            &&& r.body->HungUp_call_id@ == call_id@
            &&& r.body->HungUp_sip_call_id == sip_call_id->0
        } else {
            r.status == 404 && r.body is NoSuchCall && r.body->NoSuchCall_call_id@ == call_id@
        },
{
    match sip_call_id {
        Some(sip) if hung_up => AdminResponse {
            status: 200,
            body: AdminBody::HungUp { call_id: call_id.to_owned(), sip_call_id: sip },
        },
        _ => AdminResponse {
            status: 404,
            body: AdminBody::NoSuchCall { call_id: call_id.to_owned() },
        },
    }
}

/// `POST /admin/calls/:id/hangup`, by SIP Call-ID.
pub fn hangup_call(sip_call_id: &str, hung_up: bool) -> (r: AdminResponse)
    ensures
        r.status == (if hung_up {
            200u16
        } else {
            404u16
        }),
        r.body is HungUpSip,
        r.body->shutdown_signalled == hung_up,
        r.body->HungUpSip_sip_call_id@ == sip_call_id@,
{
    let status: u16 = if hung_up {
        200
    } else {
        404
    };
    AdminResponse {
        status,
        body: AdminBody::HungUpSip {
            shutdown_signalled: hung_up,
            sip_call_id: sip_call_id.to_owned(),
        },
    }
}

// ---- Log filter and HEP probe ----

/// `GET …/log`.
pub fn get_log_filter(filter: String) -> (r: AdminResponse)
    ensures
        r == (AdminResponse { status: 200, body: AdminBody::LogFilter { filter } }),
{
    AdminResponse { status: 200, body: AdminBody::LogFilter { filter } }
}

/// `PUT …/log`: the previous filter on success; a directive that does not parse is
/// the caller's error, a subscriber that could not be reloaded the daemon's.
pub fn set_log_filter(directive: String, outcome: Result<String, LogFilterError>) -> (r:
    AdminResponse)
    ensures
        match outcome {
            Ok(previous) => r == (AdminResponse {
                status: 200,
                body: AdminBody::LogFilterSet { filter: directive, previous },
            }),
            Err(e) => r.is_error(
                if e is Parse {
                    400
                } else {
                    500
                },
                e.message(),
            ),
        },
{
    match outcome {
        Ok(previous) => AdminResponse {
            status: 200,
            body: AdminBody::LogFilterSet { filter: directive, previous },
        },
        Err(e) => {
            let message = e.to_string();
            match e {
                LogFilterError::Parse { .. } => error_owned(400, message),
                LogFilterError::Reload(_) => error_owned(500, message),
            }
        },
    }
}

/// `POST …/hep/test`, once the probe is emitted.
pub fn hep_test() -> (r: AdminResponse)
    ensures
        r == (AdminResponse { status: 200, body: AdminBody::ProbeEmitted }),
{
    AdminResponse { status: 200, body: AdminBody::ProbeEmitted }
}

// ---- Origination ----

/// The status and message of an originate rejection.
pub open spec fn rejection_answer(rej: OriginateRejection) -> (u16, Seq<char>) {
    match rej {
        OriginateRejection::UnknownGateway(g) => (404, "unknown gateway: "@ + g@),
        OriginateRejection::NoWsUrl => (400, "no ws_url (and no [bridge].ws_url default)"@),
        OriginateRejection::BadTarget(t) => (400, "bad target: "@ + t@),
        OriginateRejection::AtCapacity => (503, "max_concurrent_outbound reached"@),
        OriginateRejection::RateLimited => (429, "outbound rate limit exceeded"@),
        OriginateRejection::BadRecording(r) => (400, "bad recording: "@ + r@),
        OriginateRejection::BadFrom(f) => (400, "bad from: "@ + f@),
        OriginateRejection::Draining => (
            503,
            "draining for shutdown; not accepting new calls"@,
        ),
    }
}

/// `POST /admin/v1/calls`: the call id when the call was admitted, and otherwise
/// the reason, each with its own status.
pub fn originate_call(outcome: Result<String, BodyFailure<OriginateRejection>>) -> (r:
    AdminResponse)
    ensures
        match outcome {
            Ok(call_id) => r == (AdminResponse { status: 202, body: AdminBody::Call { call_id } }),
            Err(BodyFailure::Invalid(e)) => r.is_error(400, "invalid originate request: "@ + e@),
            Err(BodyFailure::Refused(rej)) => r.is_error(
                rejection_answer(rej).0,
                rejection_answer(rej).1,
            ),
        },
{
    match outcome {
        Ok(call_id) => AdminResponse { status: 202, body: AdminBody::Call { call_id } },
        Err(BodyFailure::Invalid(e)) => error_owned(
            400,
            concat("invalid originate request: ", e.as_str()),
        ),
        Err(BodyFailure::Refused(rej)) => match rej {
            OriginateRejection::UnknownGateway(g) => error_owned(
                404,
                concat("unknown gateway: ", g.as_str()),
            ),
            OriginateRejection::NoWsUrl => error(400, "no ws_url (and no [bridge].ws_url default)"),
            OriginateRejection::BadTarget(t) => error_owned(400, concat("bad target: ", t.as_str())),
            OriginateRejection::AtCapacity => error(503, "max_concurrent_outbound reached"),
            OriginateRejection::RateLimited => error(429, "outbound rate limit exceeded"),
            OriginateRejection::BadRecording(x) => error_owned(
                400,
                concat("bad recording: ", x.as_str()),
            ),
            OriginateRejection::BadFrom(f) => error_owned(400, concat("bad from: ", f.as_str())),
            OriginateRejection::Draining => error(
                503,
                "draining for shutdown; not accepting new calls",
            ),
        },
    }
}

// ---- Conferences ----

/// The message for a bridge id that no active call has.
pub open spec fn unknown_call_message(call_id: Seq<char>) -> Seq<char> {
    "no active call with bridge call_id "@ + debug_form(call_id)
        + " (this is the `call_id` field of GET /admin/calls, not sip_call_id)"@
}

fn unknown_call(call_id: &str) -> (r: AdminResponse)
    ensures
        r.is_error(404, unknown_call_message(call_id@)),
{
    let quoted = debug_quoted(call_id);
    error_owned(
        404,
        concat3(
            "no active call with bridge call_id ",
            quoted.as_str(),
            " (this is the `call_id` field of GET /admin/calls, not sip_call_id)",
        ),
    )
}

/// The status and message of a conference error.
pub open spec fn conference_answer(e: ConferenceAdminError) -> (u16, Seq<char>) {
    match e {
        ConferenceAdminError::Disabled => (
            501,
            "conferencing not enabled ([conference].enabled = false)"@,
        ),
        ConferenceAdminError::RoomExists => (409, "room already exists"@),
        ConferenceAdminError::TooManyRooms => (503, "[conference].max_rooms reached"@),
        ConferenceAdminError::BadRequest(m) => (400, m@),
        ConferenceAdminError::RoomNotFound => (404, "no such conference room"@),
        ConferenceAdminError::UnknownCall(c) => (404, unknown_call_message(c@)),
    }
}

/// The answer to a conference error.
pub fn conference_error_response(e: ConferenceAdminError) -> (r: AdminResponse)
    ensures
        r.is_error(conference_answer(e).0, conference_answer(e).1),
{
    match e {
        ConferenceAdminError::Disabled => error(
            501,
            "conferencing not enabled ([conference].enabled = false)",
        ),
        ConferenceAdminError::RoomExists => error(409, "room already exists"),
        ConferenceAdminError::TooManyRooms => error(503, "[conference].max_rooms reached"),
        ConferenceAdminError::BadRequest(m) => error_owned(400, m),
        ConferenceAdminError::RoomNotFound => error(404, "no such conference room"),
        ConferenceAdminError::UnknownCall(c) => unknown_call(c.as_str()),
    }
}

/// `POST …/conferences`.
pub fn create_conference(outcome: Result<String, BodyFailure<ConferenceAdminError>>) -> (r:
    AdminResponse)
    ensures
        match outcome {
            Ok(room_id) => r == (AdminResponse { status: 201, body: AdminBody::Room { room_id } }),
            Err(BodyFailure::Invalid(e)) => r.is_error(400, "invalid create request: "@ + e@),
            Err(BodyFailure::Refused(e)) => r.is_error(
                conference_answer(e).0,
                conference_answer(e).1,
            ),
        },
{
    match outcome {
        Ok(room_id) => AdminResponse { status: 201, body: AdminBody::Room { room_id } },
        Err(BodyFailure::Invalid(e)) => error_owned(
            400,
            concat("invalid create request: ", e.as_str()),
        ),
        Err(BodyFailure::Refused(e)) => conference_error_response(e),
    }
}

/// `DELETE …/conferences/:id`.
pub fn end_conference(room_id: String, outcome: Result<(), ConferenceAdminError>) -> (r:
    AdminResponse)
    ensures
        match outcome {
            Ok(_) => r == (AdminResponse { status: 200, body: AdminBody::RoomEnded { room_id } }),
            Err(e) => r.is_error(conference_answer(e).0, conference_answer(e).1),
        },
{
    match outcome {
        Ok(_) => AdminResponse { status: 200, body: AdminBody::RoomEnded { room_id } },
        Err(e) => conference_error_response(e),
    }
}

/// `POST …/conferences/:id/participants`: on success the outcome names the call of
/// the request body.
pub fn add_participant(
    room_id: String,
    outcome: Result<String, BodyFailure<ConferenceAdminError>>,
) -> (r: AdminResponse)
    ensures
        match outcome {
            Ok(call_id) => r == (AdminResponse {
                status: 202,
                body: AdminBody::Member { room_id, call_id },
            }),
            Err(BodyFailure::Invalid(e)) => r.is_error(
                400,
                "invalid add-participant request: "@ + e@,
            ),
            Err(BodyFailure::Refused(e)) => r.is_error(
                conference_answer(e).0,
                conference_answer(e).1,
            ),
        },
{
    match outcome {
        Ok(call_id) => AdminResponse { status: 202, body: AdminBody::Member { room_id, call_id } },
        Err(BodyFailure::Invalid(e)) => error_owned(
            400,
            concat("invalid add-participant request: ", e.as_str()),
        ),
        Err(BodyFailure::Refused(e)) => conference_error_response(e),
    }
}

/// `DELETE …/conferences/:id/participants/:call_id`.
pub fn remove_participant(
    room_id: String,
    call_id: String,
    outcome: Result<(), ConferenceAdminError>,
) -> (r: AdminResponse)
    ensures
        match outcome {
            Ok(_) => r == (AdminResponse {
                status: 202,
                body: AdminBody::Member { room_id, call_id },
            }),
            Err(e) => r.is_error(conference_answer(e).0, conference_answer(e).1),
        },
{
    match outcome {
        Ok(_) => AdminResponse { status: 202, body: AdminBody::Member { room_id, call_id } },
        Err(e) => conference_error_response(e),
    }
}

// ---- Park and retrieve ----

/// The status and message of a park error.
pub open spec fn park_answer(e: ParkAdminError) -> (u16, Seq<char>) {
    match e {
        ParkAdminError::Disabled => (501, "park not enabled ([park].enabled = false)"@),
        ParkAdminError::UnknownCall(c) => (404, unknown_call_message(c@)),
        ParkAdminError::NotParked(c) => (409, "call is not parked: "@ + c@),
    }
}

/// The answer to a park error.
pub fn park_error_response(e: ParkAdminError) -> (r: AdminResponse)
    ensures
        r.is_error(park_answer(e).0, park_answer(e).1),
{
    match e {
        ParkAdminError::Disabled => error(501, "park not enabled ([park].enabled = false)"),
        ParkAdminError::UnknownCall(c) => unknown_call(c.as_str()),
        ParkAdminError::NotParked(c) => error_owned(
            409,
            concat("call is not parked: ", c.as_str()),
        ),
    }
}

/// `POST …/calls/:id/park`.
pub fn park_call(call_id: String, outcome: Result<(), BodyFailure<ParkAdminError>>) -> (r:
    AdminResponse)
    ensures
        match outcome {
            Ok(_) => r == (AdminResponse { status: 202, body: AdminBody::Call { call_id } }),
            Err(BodyFailure::Invalid(e)) => r.is_error(400, "invalid park request: "@ + e@),
            Err(BodyFailure::Refused(e)) => r.is_error(park_answer(e).0, park_answer(e).1),
        },
{
    match outcome {
        Ok(_) => AdminResponse { status: 202, body: AdminBody::Call { call_id } },
        Err(BodyFailure::Invalid(e)) => error_owned(
            400,
            concat("invalid park request: ", e.as_str()),
        ),
        Err(BodyFailure::Refused(e)) => park_error_response(e),
    }
}

/// `POST …/calls/:id/retrieve`.
pub fn retrieve_call(call_id: String, outcome: Result<(), BodyFailure<ParkAdminError>>) -> (r:
    AdminResponse)
    ensures
        match outcome {
            Ok(_) => r == (AdminResponse { status: 202, body: AdminBody::Call { call_id } }),
            Err(BodyFailure::Invalid(e)) => r.is_error(400, "invalid retrieve request: "@ + e@),
            Err(BodyFailure::Refused(e)) => r.is_error(park_answer(e).0, park_answer(e).1),
        },
{
    match outcome {
        Ok(_) => AdminResponse { status: 202, body: AdminBody::Call { call_id } },
        Err(BodyFailure::Invalid(e)) => error_owned(
            400,
            concat("invalid retrieve request: ", e.as_str()),
        ),
        Err(BodyFailure::Refused(e)) => park_error_response(e),
    }
}

// ---- Registration triggers ----

/// `POST …/registrations/:name/refresh|restart`: accepted with the binding's row as
/// it stood, or the reason it was not queued.
pub fn trigger_registration(
    name: &str,
    action: RegistrationAction,
    outcome: Result<RegistrationRow, RegistrationAdminError>,
) -> (r: AdminResponse)
    ensures
        match outcome {
            Ok(registration) => r == (AdminResponse {
                status: 202,
                body: AdminBody::Triggered { action, registration },
            }),
            Err(RegistrationAdminError::NotFound) => r.is_error(
                404,
                "no [[register]] block named "@ + debug_form(name@),
            ),
            Err(RegistrationAdminError::ShuttingDown) => r.is_error(
                409,
                "daemon is draining; registration tasks are shutting down"@,
            ),
        },
{
    match outcome {
        Ok(registration) => AdminResponse {
            status: 202,
            body: AdminBody::Triggered { action, registration },
        },
        Err(RegistrationAdminError::NotFound) => {
            let quoted = debug_quoted(name);
            error_owned(404, concat("no [[register]] block named ", quoted.as_str()))
        },
        Err(RegistrationAdminError::ShuttingDown) => error(
            409,
            "daemon is draining; registration tasks are shutting down",
        ),
    }
}

// ---- Laws ----

/// The ladder of a call outlives the call: once its record is the newest of the
/// ring, the bridge id still leads to the SIP Call-ID after the registry dropped it.
pub proof fn a_just_ended_call_keeps_its_ladder(
    cdrs: Seq<CdrRecord>,
    call_id: Seq<char>,
    sip_call_id: Seq<char>,
)
    requires
        cdrs.len() > 0,
        opt_view(cdrs.last().call_id) == Some(call_id),
        opt_view(cdrs.last().sip_call_id) == Some(sip_call_id),
    ensures
        ladder_key(None, cdrs, call_id) == Some(sip_call_id),
        ladder_key(Some(Seq::empty()), cdrs, call_id) == Some(sip_call_id),
{
    assert(cdrs.reverse()[0] == cdrs.last());
}

/// Every refusal of an admitted action carries an error status.
pub proof fn refusals_are_errors(
    rej: OriginateRejection,
    conf: ConferenceAdminError,
    park: ParkAdminError,
)
    ensures
        400 <= rejection_answer(rej).0 < 600,
        400 <= conference_answer(conf).0 < 600,
        400 <= park_answer(park).0 < 600,
{
}

// ---- What is promised of every answer ----

/// The first live call of that bridge id gives its SIP Call-ID; without one there is none.
pub proof fn a_live_call_is_known_by_its_bridge_id(
    calls: &Vec<AdminCallRow>,
    call_id: &str,
    r: Option<String>,
    i: int,
)
    requires
        call_ensures(resolve_bridge_id, (calls, call_id), r),
    ensures
        0 <= i < calls@.len() && calls@[i].call_id@ == call_id@ && (forall|k: int|
            0 <= k < i ==> (#[trigger] calls@[k]).call_id@ != call_id@) ==> r is Some && r->0@
            == calls@[i].sip_call_id@,
        (forall|k: int| 0 <= k < calls@.len() ==> (#[trigger] calls@[k]).call_id@ != call_id@)
            ==> r is None,
{
    if 0 <= i < calls@.len() && calls@[i].call_id@ == call_id@ && (forall|k: int|
        0 <= k < i ==> (#[trigger] calls@[k]).call_id@ != call_id@) {
        the_first_of_an_id_is_resolved(calls@, call_id@, i);
    }
    if forall|k: int| 0 <= k < calls@.len() ==> (#[trigger] calls@[k]).call_id@ != call_id@ {
        an_unknown_id_is_not_resolved(calls@, call_id@);
    }
}

proof fn the_first_of_an_id_is_resolved(calls: Seq<AdminCallRow>, id: Seq<char>, i: int)
    requires
        0 <= i < calls.len(),
        calls[i].call_id@ == id,
        forall|k: int| 0 <= k < i ==> (#[trigger] calls[k]).call_id@ != id,
    ensures
        resolved(calls, id) == Some(calls[i].sip_call_id@),
    decreases i,
{
    if i > 0 {
        assert(calls[0].call_id@ != id);
        let rest = calls.drop_first();
        assert forall|k: int| 0 <= k < i - 1 implies (#[trigger] rest[k]).call_id@ != id by {
            assert(rest[k] == calls[k + 1]);
        }
        the_first_of_an_id_is_resolved(rest, id, i - 1);
    }
}

proof fn an_unknown_id_is_not_resolved(calls: Seq<AdminCallRow>, id: Seq<char>)
    requires
        forall|k: int| 0 <= k < calls.len() ==> (#[trigger] calls[k]).call_id@ != id,
    ensures
        resolved(calls, id) is None,
    decreases calls.len(),
{
    if calls.len() > 0 {
        assert(calls[0].call_id@ != id);
        let rest = calls.drop_first();
        assert forall|k: int| 0 <= k < rest.len() implies (#[trigger] rest[k]).call_id@ != id by {
            assert(rest[k] == calls[k + 1]);
        }
        an_unknown_id_is_not_resolved(rest, id);
    }
}

/// The first record that has both that bridge id and a SIP Call-ID gives the latter;
/// without one there is none.
pub proof fn an_ended_call_is_known_by_its_record(
    cdrs: &Vec<CdrRecord>,
    call_id: &str,
    r: Option<String>,
    i: int,
)
    requires
        call_ensures(resolve_recorded, (cdrs, call_id), r),
    ensures
        ({
            let fits = |c: CdrRecord|
                c.call_id is Some && c.call_id->0@ == call_id@ && c.sip_call_id is Some;
            &&& 0 <= i < cdrs@.len() && fits(cdrs@[i]) && (forall|k: int|
                0 <= k < i ==> !fits(#[trigger] cdrs@[k])) ==> r is Some && r->0@
                == cdrs@[i].sip_call_id->0@
            &&& (forall|k: int| 0 <= k < cdrs@.len() ==> !fits(#[trigger] cdrs@[k])) ==> r is None
        }),
{
    let fits = |c: CdrRecord|
        c.call_id is Some && c.call_id->0@ == call_id@ && c.sip_call_id is Some;
    if 0 <= i < cdrs@.len() && fits(cdrs@[i]) && (forall|k: int|
        0 <= k < i ==> !fits(#[trigger] cdrs@[k])) {
        the_first_record_is_taken(cdrs@, call_id@, fits, i);
    }
    if forall|k: int| 0 <= k < cdrs@.len() ==> !fits(#[trigger] cdrs@[k]) {
        no_record_is_taken(cdrs@, call_id@, fits);
    }
}

proof fn the_first_record_is_taken(
    cdrs: Seq<CdrRecord>,
    id: Seq<char>,
    fits: spec_fn(CdrRecord) -> bool,
    i: int,
)
    requires
        0 <= i < cdrs.len(),
        forall|c: CdrRecord| #[trigger]
            fits(c) <==> c.call_id is Some && c.call_id->0@ == id && c.sip_call_id is Some,
        fits(cdrs[i]),
        forall|k: int| 0 <= k < i ==> !fits(#[trigger] cdrs[k]),
    ensures
        recorded(cdrs, id) == Some(cdrs[i].sip_call_id->0@),
    decreases i,
{
    if i > 0 {
        assert(!fits(cdrs[0]));
        let rest = cdrs.drop_first();
        assert forall|k: int| 0 <= k < i - 1 implies !fits(#[trigger] rest[k]) by {
            assert(rest[k] == cdrs[k + 1]);
        }
        the_first_record_is_taken(rest, id, fits, i - 1);
    }
}

proof fn no_record_is_taken(
    cdrs: Seq<CdrRecord>,
    id: Seq<char>,
    fits: spec_fn(CdrRecord) -> bool,
)
    requires
        forall|c: CdrRecord| #[trigger]
            fits(c) <==> c.call_id is Some && c.call_id->0@ == id && c.sip_call_id is Some,
        forall|k: int| 0 <= k < cdrs.len() ==> !fits(#[trigger] cdrs[k]),
    ensures
        recorded(cdrs, id) is None,
    decreases cdrs.len(),
{
    if cdrs.len() > 0 {
        assert(!fits(cdrs[0]));
        let rest = cdrs.drop_first();
        assert forall|k: int| 0 <= k < rest.len() implies !fits(#[trigger] rest[k]) by {
            assert(rest[k] == cdrs[k + 1]);
        }
        no_record_is_taken(rest, id, fits);
    }
}

/// The ladder of a call is what the ring has of the SIP Call-ID that its bridge id leads to:
/// that of the live call, or else that of its most recent record. A call that neither knows
/// is not found, and one whose trace is gone has an empty ladder.
pub proof fn a_ladder_is_that_of_its_call(
    call_id: &str,
    calls: Option<Vec<AdminCallRow>>,
    cdrs: &CdrRing,
    ring: &SipRing,
    r: AdminResponse,
    live: Option<String>,
    records: Vec<CdrRecord>,
    ended: Option<String>,
    key: &str,
    trace: Option<(Vec<SipMessageEntry>, bool)>,
)
    requires
        call_ensures(call_sip, (call_id, calls, cdrs, ring), r),
        calls is Some ==> call_ensures(resolve_bridge_id, (&calls->0, call_id), live),
        calls is None ==> live is None,
        call_ensures(crate::telemetry::cdr_ring::snapshot, (cdrs,), records),
        call_ensures(resolve_recorded, (&records, call_id), ended),
        live is Some ==> key@ == live->0@,
        live is None && ended is Some ==> key@ == ended->0@,
        call_ensures(crate::telemetry::sip_ring::snapshot, (ring, key), trace),
    ensures
        live is None && ended is None ==> r.status == 404 && r.body is Error,
        live is Some || ended is Some ==> {
            &&& r.status == 200
            &&& r.body is Ladder
            &&& r.body->Ladder_call_id@ == call_id@
            &&& r.body->Ladder_sip_call_id@ == key@
            &&& r.body->Ladder_count == r.body->messages@.len()
            &&& trace is Some ==> r.body->messages@ == (trace->0).0@ && r.body->truncated
                == (trace->0).1
            &&& trace is None ==> r.body->messages@.len() == 0 && !r.body->truncated
        },
{
}

/// A hangup succeeds exactly when the call was found and signalled, and the answer names
/// the call that was asked for.
pub proof fn a_hangup_is_answered_for_its_call(
    call_id: &str,
    sip: Option<String>,
    hung_up: bool,
    r: AdminResponse,
    sip_call_id: &str,
    s: AdminResponse,
)
    requires
        call_ensures(hangup_call_by_bridge_id, (call_id, sip, hung_up), r),
        call_ensures(hangup_call, (sip_call_id, hung_up), s),
    ensures
        r.status == 200 <==> sip is Some && hung_up,
        r.status == 200 || r.status == 404,
        r.status == 200 ==> r.body is HungUp && r.body->HungUp_call_id@ == call_id@
            && r.body->HungUp_sip_call_id == sip->0,
        r.status == 404 ==> r.body is NoSuchCall && r.body->NoSuchCall_call_id@ == call_id@,
        s.status == 200 <==> hung_up,
        s.status == 200 || s.status == 404,
        s.body is HungUpSip && s.body->shutdown_signalled == hung_up
            && s.body->HungUpSip_sip_call_id@ == sip_call_id@,
{
}

/// A listing has every row it is given, in their order, and counts them.
pub proof fn a_listing_has_every_row(
    calls: Vec<AdminCallRow>,
    a: AdminResponse,
    cdrs: Vec<CdrRecord>,
    b: AdminResponse,
    errors: Vec<ErrorEntry>,
    c: AdminResponse,
    registrations: Vec<RegistrationRow>,
    d: AdminResponse,
    rooms: Vec<ConferenceRow>,
    e: AdminResponse,
    parked: Vec<ParkedRow>,
    f: AdminResponse,
    trunks: Option<Vec<TrunkRow>>,
    g: AdminResponse,
)
    requires
        call_ensures(list_calls, (calls,), a),
        call_ensures(recent_cdrs, (cdrs,), b),
        call_ensures(list_errors, (errors,), c),
        call_ensures(list_registrations, (registrations,), d),
        call_ensures(list_conferences, (rooms,), e),
        call_ensures(list_parked, (parked,), f),
        call_ensures(list_trunks, (trunks,), g),
    ensures
        a.status == 200 && a.body is Calls && a.body->calls@ == calls@ && a.body->Calls_count
            == calls@.len(),
        b.status == 200 && b.body is Cdrs && b.body->cdrs@ == cdrs@ && b.body->Cdrs_count
            == cdrs@.len(),
        c.status == 200 && c.body is Errors && c.body->errors@ == errors@ && c.body->Errors_count
            == errors@.len(),
        d.status == 200 && d.body is Registrations && d.body->registrations@ == registrations@
            && d.body->Registrations_count == registrations@.len(),
        e.status == 200 && e.body is Conferences && e.body->conferences@ == rooms@
            && e.body->Conferences_count == rooms@.len(),
        f.status == 200 && f.body is Parked && f.body->parked@ == parked@ && f.body->Parked_count
            == parked@.len(),
        g.status == 200 && g.body is Trunks && g.body->Trunks_count == g.body->trunks@.len(),
        trunks is Some ==> g.body->trunks@ == trunks->0@,
        trunks is None ==> g.body->trunks@.len() == 0,
{
    assert(calls.len() == calls@.len());
    assert(cdrs.len() == cdrs@.len());
    assert(errors.len() == errors@.len());
    assert(registrations.len() == registrations@.len());
    assert(rooms.len() == rooms@.len());
    assert(parked.len() == parked@.len());
}

/// A call that is placed is accepted under its id; each reason against it has its status.
pub proof fn each_rejection_has_its_status(
    outcome: Result<String, BodyFailure<OriginateRejection>>,
    r: AdminResponse,
)
    requires
        call_ensures(originate_call, (outcome,), r),
    ensures
        r.status == 202 <==> outcome is Ok,
        outcome is Ok ==> r.body is Call && r.body->Call_call_id == outcome->Ok_0,
        outcome is Err ==> r.body is Error,
        outcome is Err && outcome->Err_0 is Invalid ==> r.status == 400,
        outcome is Err && outcome->Err_0 is Refused ==> {
            let x = outcome->Err_0->Refused_0;
            &&& r.status == 404 <==> x is UnknownGateway
            &&& r.status == 400 <==> x is NoWsUrl || x is BadTarget || x is BadRecording || x
                is BadFrom
            &&& r.status == 429 <==> x is RateLimited
            &&& r.status == 503 <==> x is AtCapacity || x is Draining
        },
{
}

/// The conference endpoints answer for the room and the call that they are asked about, and
/// each reason against it has its status.
pub proof fn each_conference_answer_is_for_its_room(
    room_id: String,
    call_id: String,
    created: Result<String, BodyFailure<ConferenceAdminError>>,
    a: AdminResponse,
    ended: Result<(), ConferenceAdminError>,
    b: AdminResponse,
    added: Result<String, BodyFailure<ConferenceAdminError>>,
    c: AdminResponse,
    removed: Result<(), ConferenceAdminError>,
    d: AdminResponse,
    e: ConferenceAdminError,
    x: AdminResponse,
)
    requires
        call_ensures(create_conference, (created,), a),
        call_ensures(end_conference, (room_id, ended), b),
        call_ensures(add_participant, (room_id, added), c),
        call_ensures(remove_participant, (room_id, call_id, removed), d),
        call_ensures(conference_error_response, (e,), x),
        created is Err && created->Err_0 is Refused ==> e == created->Err_0->Refused_0,
        ended is Err ==> e == ended->Err_0,
        added is Err && added->Err_0 is Refused ==> e == added->Err_0->Refused_0,
        removed is Err ==> e == removed->Err_0,
    ensures
        a.status == 201 <==> created is Ok,
        created is Ok ==> a.body is Room && a.body->Room_room_id == created->Ok_0,
        b.status == 200 <==> ended is Ok,
        ended is Ok ==> b.body is RoomEnded && b.body->RoomEnded_room_id == room_id,
        c.status == 202 <==> added is Ok,
        added is Ok ==> c.body is Member && c.body->Member_room_id == room_id
            && c.body->Member_call_id == added->Ok_0,
        d.status == 202 <==> removed is Ok,
        removed is Ok ==> d.body is Member && d.body->Member_room_id == room_id
            && d.body->Member_call_id == call_id,
        created is Err && created->Err_0 is Invalid ==> a.status == 400,
        added is Err && added->Err_0 is Invalid ==> c.status == 400,
        x.body is Error,
        x.status == 501 <==> e is Disabled,
        x.status == 409 <==> e is RoomExists,
        x.status == 503 <==> e is TooManyRooms,
        x.status == 400 <==> e is BadRequest,
        x.status == 404 <==> e is RoomNotFound || e is UnknownCall,
        created is Err && created->Err_0 is Refused ==> a.status == x.status && a.body is Error
            && a.body->Error_0@ == x.body->Error_0@,
        ended is Err ==> b.status == x.status && b.body is Error && b.body->Error_0@
            == x.body->Error_0@,
        added is Err && added->Err_0 is Refused ==> c.status == x.status && c.body is Error
            && c.body->Error_0@ == x.body->Error_0@,
        removed is Err ==> d.status == x.status && d.body is Error && d.body->Error_0@
            == x.body->Error_0@,
{
}

/// The parking endpoints answer for the call that they are asked about, and each reason
/// against it has its status.
pub proof fn each_park_answer_is_for_its_call(
    call_id: String,
    parked: Result<(), BodyFailure<ParkAdminError>>,
    a: AdminResponse,
    fetched: Result<(), BodyFailure<ParkAdminError>>,
    b: AdminResponse,
    e: ParkAdminError,
    x: AdminResponse,
)
    requires
        call_ensures(park_call, (call_id, parked), a),
        call_ensures(retrieve_call, (call_id, fetched), b),
        call_ensures(park_error_response, (e,), x),
        parked is Err && parked->Err_0 is Refused ==> e == parked->Err_0->Refused_0,
        fetched is Err && fetched->Err_0 is Refused ==> e == fetched->Err_0->Refused_0,
    ensures
        a.status == 202 <==> parked is Ok,
        parked is Ok ==> a.body is Call && a.body->Call_call_id == call_id,
        b.status == 202 <==> fetched is Ok,
        fetched is Ok ==> b.body is Call && b.body->Call_call_id == call_id,
        parked is Err && parked->Err_0 is Invalid ==> a.status == 400,
        fetched is Err && fetched->Err_0 is Invalid ==> b.status == 400,
        x.body is Error,
        x.status == 501 <==> e is Disabled,
        x.status == 404 <==> e is UnknownCall,
        x.status == 409 <==> e is NotParked,
        parked is Err && parked->Err_0 is Refused ==> a.status == x.status && a.body is Error
            && a.body->Error_0@ == x.body->Error_0@,
        fetched is Err && fetched->Err_0 is Refused ==> b.status == x.status && b.body is Error
            && b.body->Error_0@ == x.body->Error_0@,
{
}

/// The other endpoints answer with what they were handed: a trigger with its action and its
/// row, a filter change with both filters, statistics of a known call alone, and a refusal
/// with its status and its reason.
pub proof fn each_answer_has_what_it_was_handed(
    name: &str,
    action: RegistrationAction,
    triggered: Result<RegistrationRow, RegistrationAdminError>,
    a: AdminResponse,
    directive: String,
    changed: Result<String, LogFilterError>,
    b: AdminResponse,
    stats: Option<String>,
    c: AdminResponse,
    status: u16,
    reason: String,
    d: AdminResponse,
    draining: bool,
    e: AdminResponse,
    drain: DrainStatus,
    f: AdminResponse,
    node: StatusResponse,
    g: AdminResponse,
    filter: String,
    h: AdminResponse,
)
    requires
        call_ensures(trigger_registration, (name, action, triggered), a),
        call_ensures(set_log_filter, (directive, changed), b),
        call_ensures(call_stats, (stats,), c),
        call_ensures(refusal, (status, reason), d),
        call_ensures(drain_start, (draining,), e),
        call_ensures(drain_status, (drain,), f),
        call_ensures(node_status, (node,), g),
        call_ensures(get_log_filter, (filter,), h),
    ensures
        a.status == 202 <==> triggered is Ok,
        triggered is Ok ==> a.body is Triggered && a.body->action == action
            && a.body->registration == triggered->Ok_0,
        triggered is Err ==> a.body is Error && (a.status == 404 <==> triggered->Err_0 is NotFound)
            && (a.status == 409 <==> triggered->Err_0 is ShuttingDown),
        b.status == 200 <==> changed is Ok,
        changed is Ok ==> b.body is LogFilterSet && b.body->LogFilterSet_filter == directive
            && b.body->previous == changed->Ok_0,
        changed is Err ==> b.body is Error && (b.status == 400 <==> changed->Err_0 is Parse) && (
        b.status == 500 <==> changed->Err_0 is Reload),
        c.status == 200 <==> stats is Some,
        stats is Some ==> c.body is Stats && c.body->Stats_0 == stats->0,
        stats is None ==> c.status == 404 && c.body is Error,
        d.status == status && d.body is Error && d.body->Error_0@ == reason@,
        e.status == 202 && e.body is DrainSignalled && e.body->already_draining == draining,
        f.status == 200 && f.body is Drain && f.body->Drain_0 == drain,
        g.status == 200 && g.body is Status && g.body->Status_0 == node,
        h.status == 200 && h.body is LogFilter && h.body->LogFilter_filter == filter,
{
}

} // verus!
