//! Admin endpoints: what each request asks of the daemon, and what it is answered.
//!
//! [`dispatch`] turns a request into a step: a refusal, or an action on one of the
//! runtime's handles. The runtime performs the action and hands the result to the
//! endpoint's own function, which gives the response. A handle that is not
//! installed makes its endpoints refuse instead of fail.
use vstd::prelude::*;

use crate::telemetry::admin_route::{opt_view, route, route_of, AdminRoute, Method, RegistrationAction};
use crate::text::{trim, trimmed};

verus! {

/// Which of the runtime's handles are installed.
#[derive(Debug, Clone, Copy)]
pub struct AdminState {
    pub call_registry: bool,
    pub registration_snapshot: bool,
    pub log_filter: bool,
    pub hep: bool,
    /// Outbound origination is configured.
    pub outbound: bool,
    /// Conferencing is configured.
    pub conference: bool,
    /// Parking is configured.
    pub park: bool,
    pub drain: bool,
    pub quality_stats: bool,
    pub registrations: bool,
    pub drain_start: bool,
    pub status: bool,
    pub recent_cdrs: bool,
    pub errors: bool,
    /// The ladder ring captures.
    pub sip_capture: bool,
}

impl Default for AdminState {
    fn default() -> (r: Self)
        ensures
            r == nothing_installed(),
    {
        AdminState {
            call_registry: false,
            registration_snapshot: false,
            log_filter: false,
            hep: false,
            outbound: false,
            conference: false,
            park: false,
            drain: false,
            quality_stats: false,
            registrations: false,
            drain_start: false,
            status: false,
            recent_cdrs: false,
            errors: false,
            sip_capture: false,
        }
    }
}

/// The state with no handle installed.
pub open spec fn nothing_installed() -> AdminState {
    AdminState {
        call_registry: false,
        registration_snapshot: false,
        log_filter: false,
        hep: false,
        outbound: false,
        conference: false,
        park: false,
        drain: false,
        quality_stats: false,
        registrations: false,
        drain_start: false,
        status: false,
        recent_cdrs: false,
        errors: false,
        sip_capture: false,
    }
}

/// What the runtime is asked to do.
#[derive(Debug)]
pub enum AdminAction<S> {
    ListCalls,
    NodeStatus,
    RecentCdrs,
    ListErrors,
    StartDrain,
    DrainStatus,
    QualityStats { call_id: S },
    ListTrunks,
    /// Answer from the rings, with the live calls when there is a registry.
    CallSip { call_id: S, ask_registry: bool },
    /// Resolve a bridge id among the live calls, then hang the call up.
    Hangup { call_id: S },
    HangupSip { sip_call_id: S },
    ListRegistrations,
    CurrentLogFilter,
    SetLogFilter { directive: S },
    EmitHepProbe,
    Originate,
    ListConferences,
    CreateConference { with_body: bool },
    EndConference { room_id: S },
    AddParticipant { room_id: S },
    RemoveParticipant { room_id: S, call_id: S },
    ListParked,
    Park { call_id: S, with_body: bool },
    Retrieve { call_id: S, with_body: bool },
    TriggerRegistration { name: S, action: RegistrationAction },
}

/// The first step of a request: an error answer, or an action to perform.
#[derive(Debug)]
pub enum AdminStep<S> {
    Refuse { status: u16, error: S },
    Act(AdminAction<S>),
}

impl AdminAction<String> {
    pub open spec fn text(self) -> AdminAction<Seq<char>> {
        match self {
            AdminAction::ListCalls => AdminAction::ListCalls,
            AdminAction::NodeStatus => AdminAction::NodeStatus,
            AdminAction::RecentCdrs => AdminAction::RecentCdrs,
            AdminAction::ListErrors => AdminAction::ListErrors,
            AdminAction::StartDrain => AdminAction::StartDrain,
            AdminAction::DrainStatus => AdminAction::DrainStatus,
            AdminAction::QualityStats { call_id } => AdminAction::QualityStats { call_id: call_id@ },
            AdminAction::ListTrunks => AdminAction::ListTrunks,
            AdminAction::CallSip { call_id, ask_registry } => AdminAction::CallSip {
                call_id: call_id@,
                ask_registry,
            },
            AdminAction::Hangup { call_id } => AdminAction::Hangup { call_id: call_id@ },
            AdminAction::HangupSip { sip_call_id } => AdminAction::HangupSip {
                sip_call_id: sip_call_id@,
            },
            AdminAction::ListRegistrations => AdminAction::ListRegistrations,
            AdminAction::CurrentLogFilter => AdminAction::CurrentLogFilter,
            AdminAction::SetLogFilter { directive } => AdminAction::SetLogFilter {
                directive: directive@,
            },
            AdminAction::EmitHepProbe => AdminAction::EmitHepProbe,
            AdminAction::Originate => AdminAction::Originate,
            AdminAction::ListConferences => AdminAction::ListConferences,
            AdminAction::CreateConference { with_body } => AdminAction::CreateConference {
                with_body,
            },
            AdminAction::EndConference { room_id } => AdminAction::EndConference {
                room_id: room_id@,
            },
            AdminAction::AddParticipant { room_id } => AdminAction::AddParticipant {
                room_id: room_id@,
            },
            AdminAction::RemoveParticipant { room_id, call_id } => AdminAction::RemoveParticipant {
                room_id: room_id@,
                call_id: call_id@,
            },
            AdminAction::ListParked => AdminAction::ListParked,
            AdminAction::Park { call_id, with_body } => AdminAction::Park {
                call_id: call_id@,
                with_body,
            },
            AdminAction::Retrieve { call_id, with_body } => AdminAction::Retrieve {
                call_id: call_id@,
                with_body,
            },
            AdminAction::TriggerRegistration { name, action } => AdminAction::TriggerRegistration {
                name: name@,
                action,
            },
        }
    }
}

impl AdminStep<String> {
    pub open spec fn text(self) -> AdminStep<Seq<char>> {
        match self {
            AdminStep::Refuse { status, error } => AdminStep::Refuse { status, error: error@ },
            AdminStep::Act(a) => AdminStep::Act(a.text()),
        }
    }
}

/// A refusal with the given message.
pub open spec fn refused(status: u16, error: Seq<char>) -> AdminStep<Seq<char>> {
    AdminStep::Refuse { status, error }
}

/// Act when the handle is installed, answer 503 with `reason` otherwise.
pub open spec fn when_installed(
    installed: bool,
    reason: Seq<char>,
    action: AdminAction<Seq<char>>,
) -> AdminStep<Seq<char>> {
    if installed {
        AdminStep::Act(action)
    } else {
        refused(503, reason)
    }
}

pub open spec fn conferencing_off() -> AdminStep<Seq<char>> {
    refused(501, "conferencing not enabled ([conference].enabled = false)"@)
}

pub open spec fn parking_off() -> AdminStep<Seq<char>> {
    refused(501, "park not enabled ([park].enabled = false)"@)
}

/// The first step on an endpoint, with the given request body.
pub open spec fn step_for(
    e: AdminRoute<Seq<char>>,
    body: Seq<u8>,
    st: AdminState,
) -> AdminStep<Seq<char>> {
    match e {
        AdminRoute::ListCalls => when_installed(
            st.call_registry,
            "call registry not installed"@,
            AdminAction::ListCalls,
        ),
        AdminRoute::NodeStatus => when_installed(
            st.status,
            "status not installed"@,
            AdminAction::NodeStatus,
        ),
        AdminRoute::RecentCdrs => when_installed(
            st.recent_cdrs,
            "cdr ring not installed"@,
            AdminAction::RecentCdrs,
        ),
        AdminRoute::ListErrors => when_installed(
            st.errors,
            "error ring not installed"@,
            AdminAction::ListErrors,
        ),
        AdminRoute::DrainStart => when_installed(
            st.drain_start,
            "drain trigger not installed"@,
            AdminAction::StartDrain,
        ),
        AdminRoute::DrainStatus => when_installed(
            st.drain,
            "drain status not installed"@,
            AdminAction::DrainStatus,
        ),
        AdminRoute::CallStats { call_id } => if call_id.len() == 0 {
            refused(400, "empty call_id"@)
        } else {
            when_installed(
                st.quality_stats,
                "quality stats not installed"@,
                AdminAction::QualityStats { call_id },
            )
        },
        AdminRoute::ListTrunks => AdminStep::Act(AdminAction::ListTrunks),
        AdminRoute::CallSip { call_id } => if call_id.len() == 0 {
            refused(400, "empty call_id"@)
        } else if !st.sip_capture {
            refused(
                501,
                "SIP ladder capture not enabled ([observability].sip_ring_size = 0)"@,
            )
        } else {
            AdminStep::Act(AdminAction::CallSip { call_id, ask_registry: st.call_registry })
        },
        AdminRoute::Hangup { call_id } => if call_id.len() == 0 {
            refused(400, "empty call_id"@)
        } else {
            when_installed(
                st.call_registry,
                "call registry not installed"@,
                AdminAction::Hangup { call_id },
            )
        },
        AdminRoute::HangupSip { sip_call_id } => if sip_call_id.len() == 0 {
            refused(400, "empty sip call_id"@)
        } else {
            when_installed(
                st.call_registry,
                "call registry not installed"@,
                AdminAction::HangupSip { sip_call_id },
            )
        },
        AdminRoute::ListRegistrations => when_installed(
            st.registration_snapshot,
            "registration manager not installed"@,
            AdminAction::ListRegistrations,
        ),
        AdminRoute::GetLogFilter => when_installed(
            st.log_filter,
            "log filter reload handle not installed"@,
            AdminAction::CurrentLogFilter,
        ),
        AdminRoute::SetLogFilter => if !st.log_filter {
            refused(503, "log filter reload handle not installed"@)
        } else {
            match filter_of_body(body) {
                Ok(directive) => AdminStep::Act(AdminAction::SetLogFilter { directive }),
                Err(e) => refused(400, e),
            }
        },
        AdminRoute::HepTest => when_installed(
            st.hep,
            "HEP shipping not enabled"@,
            AdminAction::EmitHepProbe,
        ),
        AdminRoute::Originate => if st.outbound {
            AdminStep::Act(AdminAction::Originate)
        } else {
            refused(501, "outbound origination not enabled ([outbound].max_concurrent = 0)"@)
        },
        AdminRoute::ListConferences => if st.conference {
            AdminStep::Act(AdminAction::ListConferences)
        } else {
            conferencing_off()
        },
        AdminRoute::CreateConference => if st.conference {
            AdminStep::Act(AdminAction::CreateConference { with_body: body.len() > 0 })
        } else {
            conferencing_off()
        },
        AdminRoute::EndConference { room_id } => if st.conference {
            AdminStep::Act(AdminAction::EndConference { room_id })
        } else {
            conferencing_off()
        },
        AdminRoute::AddParticipant { room_id } => if st.conference {
            AdminStep::Act(AdminAction::AddParticipant { room_id })
        } else {
            conferencing_off()
        },
        AdminRoute::RemoveParticipant { room_id, call_id } => if st.conference {
            AdminStep::Act(AdminAction::RemoveParticipant { room_id, call_id })
        } else {
            conferencing_off()
        },
        AdminRoute::ListParked => if st.park {
            AdminStep::Act(AdminAction::ListParked)
        } else {
            parking_off()
        },
        AdminRoute::Park { call_id } => if !st.park {
            parking_off()
        } else if call_id.len() == 0 {
            refused(400, "empty call_id"@)
        } else {
            AdminStep::Act(AdminAction::Park { call_id, with_body: body.len() > 0 })
        },
        AdminRoute::Retrieve { call_id } => if !st.park {
            parking_off()
        } else if call_id.len() == 0 {
            refused(400, "empty call_id"@)
        } else {
            AdminStep::Act(AdminAction::Retrieve { call_id, with_body: body.len() > 0 })
        },
        AdminRoute::TriggerRegistration { name, action } => if !st.registrations {
            refused(503, "registration admin unavailable"@)
        } else if name.len() == 0 {
            refused(400, "empty registration name"@)
        } else {
            AdminStep::Act(AdminAction::TriggerRegistration { name, action })
        },
        AdminRoute::NotFound => refused(404, "unknown admin route"@),
    }
}

fn refuse(status: u16, error: &str) -> (r: AdminStep<String>)
    ensures
        r.text() == refused(status, error@),
{
    AdminStep::Refuse { status, error: error.to_owned() }
}

fn act_if(installed: bool, reason: &str, action: AdminAction<String>) -> (r: AdminStep<String>)
    ensures
        r.text() == when_installed(installed, reason@, action.text()),
{
    if installed {
        AdminStep::Act(action)
    } else {
        refuse(503, reason)
    }
}

fn conference_disabled() -> (r: AdminStep<String>)
    ensures
        r.text() == conferencing_off(),
{
    refuse(501, "conferencing not enabled ([conference].enabled = false)")
}

fn park_disabled() -> (r: AdminStep<String>)
    ensures
        r.text() == parking_off(),
{
    refuse(501, "park not enabled ([park].enabled = false)")
}

fn first_step(e: AdminRoute<String>, body: &[u8], st: &AdminState) -> (r: AdminStep<String>)
    ensures
        r.text() == step_for(e.text(), body@, *st),
{
    let with_body = body.len() > 0;
    match e {
        AdminRoute::ListCalls => act_if(
            st.call_registry,
            "call registry not installed",
            AdminAction::ListCalls,
        ),
        AdminRoute::NodeStatus => act_if(st.status, "status not installed", AdminAction::NodeStatus),
        AdminRoute::RecentCdrs => act_if(
            st.recent_cdrs,
            "cdr ring not installed",
            AdminAction::RecentCdrs,
        ),
        AdminRoute::ListErrors => act_if(
            st.errors,
            "error ring not installed",
            AdminAction::ListErrors,
        ),
        AdminRoute::DrainStart => act_if(
            st.drain_start,
            "drain trigger not installed",
            AdminAction::StartDrain,
        ),
        AdminRoute::DrainStatus => act_if(
            st.drain,
            "drain status not installed",
            AdminAction::DrainStatus,
        ),
        AdminRoute::CallStats { call_id } => if call_id.as_str().is_empty() {
            refuse(400, "empty call_id")
        } else {
            act_if(
                st.quality_stats,
                "quality stats not installed",
                AdminAction::QualityStats { call_id },
            )
        },
        AdminRoute::ListTrunks => AdminStep::Act(AdminAction::ListTrunks),
        AdminRoute::CallSip { call_id } => if call_id.as_str().is_empty() {
            refuse(400, "empty call_id")
        } else if !st.sip_capture {
            refuse(501, "SIP ladder capture not enabled ([observability].sip_ring_size = 0)")
        } else {
            AdminStep::Act(AdminAction::CallSip { call_id, ask_registry: st.call_registry })
        },
        AdminRoute::Hangup { call_id } => if call_id.as_str().is_empty() {
            refuse(400, "empty call_id")
        } else {
            act_if(
                st.call_registry,
                "call registry not installed",
                AdminAction::Hangup { call_id },
            )
        },
        AdminRoute::HangupSip { sip_call_id } => if sip_call_id.as_str().is_empty() {
            refuse(400, "empty sip call_id")
        } else {
            act_if(
                st.call_registry,
                "call registry not installed",
                AdminAction::HangupSip { sip_call_id },
            )
        },
        AdminRoute::ListRegistrations => act_if(
            st.registration_snapshot,
            "registration manager not installed",
            AdminAction::ListRegistrations,
        ),
        AdminRoute::GetLogFilter => act_if(
            st.log_filter,
            "log filter reload handle not installed",
            AdminAction::CurrentLogFilter,
        ),
        AdminRoute::SetLogFilter => if !st.log_filter {
            refuse(503, "log filter reload handle not installed")
        } else {
            match parse_filter_body(body) {
                Ok(directive) => AdminStep::Act(AdminAction::SetLogFilter { directive }),
                Err(error) => AdminStep::Refuse { status: 400, error },
            }
        },
        AdminRoute::HepTest => act_if(
            st.hep,
            "HEP shipping not enabled",
            AdminAction::EmitHepProbe,
        ),
        AdminRoute::Originate => if st.outbound {
            AdminStep::Act(AdminAction::Originate)
        } else {
            refuse(501, "outbound origination not enabled ([outbound].max_concurrent = 0)")
        },
        AdminRoute::ListConferences => if st.conference {
            AdminStep::Act(AdminAction::ListConferences)
        } else {
            conference_disabled()
        },
        AdminRoute::CreateConference => if st.conference {
            AdminStep::Act(AdminAction::CreateConference { with_body })
        } else {
            conference_disabled()
        },
        AdminRoute::EndConference { room_id } => if st.conference {
            AdminStep::Act(AdminAction::EndConference { room_id })
        } else {
            conference_disabled()
        },
        AdminRoute::AddParticipant { room_id } => if st.conference {
            AdminStep::Act(AdminAction::AddParticipant { room_id })
        } else {
            conference_disabled()
        },
        AdminRoute::RemoveParticipant { room_id, call_id } => if st.conference {
            AdminStep::Act(AdminAction::RemoveParticipant { room_id, call_id })
        } else {
            conference_disabled()
        },
        AdminRoute::ListParked => if st.park {
            AdminStep::Act(AdminAction::ListParked)
        } else {
            park_disabled()
        },
        AdminRoute::Park { call_id } => if !st.park {
            park_disabled()
        } else if call_id.as_str().is_empty() {
            refuse(400, "empty call_id")
        } else {
            AdminStep::Act(AdminAction::Park { call_id, with_body })
        },
        AdminRoute::Retrieve { call_id } => if !st.park {
            park_disabled()
        } else if call_id.as_str().is_empty() {
            refuse(400, "empty call_id")
        } else {
            AdminStep::Act(AdminAction::Retrieve { call_id, with_body })
        },
        AdminRoute::TriggerRegistration { name, action } => if !st.registrations {
            refuse(503, "registration admin unavailable")
        } else if name.as_str().is_empty() {
            refuse(400, "empty registration name")
        } else {
            AdminStep::Act(AdminAction::TriggerRegistration { name, action })
        },
        AdminRoute::NotFound => refuse(404, "unknown admin route"),
    }
}

/// The first step of a request, `None` when `path` is outside the admin surface.
pub fn dispatch(method: Method, path: &str, body: &[u8], state: &AdminState) -> (r: Option<
    AdminStep<String>,
>)
    ensures
        (match r {
            Some(s) => Some(s.text()),
            None => None,
        }) == (match route_of(method, path@) {
            Some(e) => Some(step_for(e, body@, *state)),
            None => None,
        }),
{
    match route(method, path) {
        Some(e) => Some(first_step(e, body, state)),
        None => None,
    }
}

/// With nothing installed no request acts, but for the trunk listing, which then
/// answers an empty list.
pub proof fn nothing_installed_nothing_done(m: Method, p: Seq<char>, body: Seq<u8>)
    requires
        route_of(m, p) is Some,
    ensures
        step_for(route_of(m, p)->0, body, nothing_installed()) is Act ==> route_of(m, p)->0
            is ListTrunks,
{
}

// ---- The body of a log-filter change ----

/// The string field `key` of the JSON object that `body` is; `None` when the body
/// is no JSON, no object, or has no such string.
pub uninterp spec fn json_string_field(body: Seq<u8>, key: Seq<char>) -> Option<Seq<char>>;

/// `serde_json::from_slice` into a `Value`, then `Value::get` and `as_str`. What
/// counts as JSON is not spelled out: only that the result depends on the bytes and
/// the key alone.
#[verifier::external_body]
pub(crate) fn json_field(body: &[u8], key: &str) -> (r: Option<String>)
    ensures
        opt_view(r) == json_string_field(body@, key@),
{
    match serde_json::from_slice::<serde_json::Value>(body) {
        Ok(v) => v.get(key).and_then(|f| f.as_str()).map(|s| s.to_string()),
        Err(_) => None,
    }
}

/// `std::str::from_utf8`: the decoded text, `None` when the bytes are no UTF-8.
#[verifier::external_body]
fn utf8_text(bytes: &[u8]) -> (r: Option<&str>)
    ensures
        r is Some == vstd::utf8::valid_utf8(bytes@),
        r is Some ==> r->0@ == vstd::utf8::decode_utf8(bytes@),
{
    std::str::from_utf8(bytes).ok()
}

/// The directive a body asks for: the `filter` string of a JSON body, or else the
/// body as plain text, in either case without outer white space.
pub open spec fn filter_from(body: Seq<u8>, field: Option<Seq<char>>) -> Result<
    Seq<char>,
    Seq<char>,
> {
    if body.len() == 0 {
        Err("empty body; expected directive string or JSON {filter:...}"@)
    } else if field is Some {
        Ok(trimmed(field->0))
    } else if !vstd::utf8::valid_utf8(body) {
        Err("body is not UTF-8"@)
    } else if trimmed(vstd::utf8::decode_utf8(body)).len() == 0 {
        Err("body is whitespace-only"@)
    } else {
        Ok(trimmed(vstd::utf8::decode_utf8(body)))
    }
}

/// The directive that `body` asks for.
pub open spec fn filter_of_body(body: Seq<u8>) -> Result<Seq<char>, Seq<char>> {
    filter_from(body, json_string_field(body, "filter"@))
}

/// The view of a result of two strings.
pub open spec fn result_view(r: Result<String, String>) -> Result<Seq<char>, Seq<char>> {
    match r {
        Ok(s) => Ok(s@),
        Err(s) => Err(s@),
    }
}

/// The directive of a body whose JSON `filter` field is `field`.
pub fn choose_filter(body: &[u8], field: Option<String>) -> (r: Result<String, String>)
    ensures
        result_view(r) == filter_from(body@, opt_view(field)),
{
    if body.len() == 0 {
        return Err("empty body; expected directive string or JSON {filter:...}".to_owned());
    }
    if let Some(s) = field {
        return Ok(trim(s.as_str()).to_owned());
    }
    match utf8_text(body) {
        None => Err("body is not UTF-8".to_owned()),
        Some(text) => {
            let t = trim(text);
            if t.is_empty() {
                Err("body is whitespace-only".to_owned())
            } else {
                Ok(t.to_owned())
            }
        },
    }
}

/// The directive of a log-filter request: plain text, or JSON `{"filter": "..."}`.
pub fn parse_filter_body(body: &[u8]) -> (r: Result<String, String>)
    ensures
        result_view(r) == filter_of_body(body@),
{
    let field = json_field(body, "filter");
    choose_filter(body, field)
}

// ---- What is promised of every request ----

/// The daemon acts on an endpoint exactly when the handle that the endpoint is about is
/// installed, and it is asked for that endpoint's action and no other; without the handle
/// the request is refused, as unavailable or as not enabled. A path outside the admin
/// surface has no step.
pub proof fn an_endpoint_asks_for_its_own_action(
    method: Method,
    path: &str,
    body: &[u8],
    st: &AdminState,
    e: Option<AdminRoute<String>>,
    r: Option<AdminStep<String>>,
)
    requires
        call_ensures(route, (method, path), e),
        call_ensures(dispatch, (method, path, body, st), r),
    ensures
        r is Some <==> e is Some,
        e is Some ==> ({
            let acts = r->0 is Act;
            let a = r->0->Act_0;
            let x = e->0;
            let status = r->0->status;
            &&& acts && a is ListCalls <==> x is ListCalls && st.call_registry
            &&& x is ListCalls && !st.call_registry ==> !acts && status == 503
            &&& acts && a is NodeStatus <==> x is NodeStatus && st.status
            &&& x is NodeStatus && !st.status ==> !acts && status == 503
            &&& acts && a is RecentCdrs <==> x is RecentCdrs && st.recent_cdrs
            &&& x is RecentCdrs && !st.recent_cdrs ==> !acts && status == 503
            &&& acts && a is ListErrors <==> x is ListErrors && st.errors
            &&& x is ListErrors && !st.errors ==> !acts && status == 503
            &&& acts && a is StartDrain <==> x is DrainStart && st.drain_start
            &&& x is DrainStart && !st.drain_start ==> !acts && status == 503
            &&& acts && a is DrainStatus <==> x is DrainStatus && st.drain
            &&& x is DrainStatus && !st.drain ==> !acts && status == 503
            &&& acts && a is ListRegistrations <==> x is ListRegistrations && st.registration_snapshot
            &&& x is ListRegistrations && !st.registration_snapshot ==> !acts && status == 503
            &&& acts && a is CurrentLogFilter <==> x is GetLogFilter && st.log_filter
            &&& x is GetLogFilter && !st.log_filter ==> !acts && status == 503
            &&& acts && a is EmitHepProbe <==> x is HepTest && st.hep
            &&& x is HepTest && !st.hep ==> !acts && status == 503
            &&& acts && a is Originate <==> x is Originate && st.outbound
            &&& x is Originate && !st.outbound ==> !acts && status == 501
            &&& acts && a is ListConferences <==> x is ListConferences && st.conference
            &&& x is ListConferences && !st.conference ==> !acts && status == 501
            &&& acts && a is CreateConference <==> x is CreateConference && st.conference
            &&& x is CreateConference && !st.conference ==> !acts && status == 501
            &&& acts && a is ListParked <==> x is ListParked && st.park
            &&& x is ListParked && !st.park ==> !acts && status == 501
            &&& acts && a is ListTrunks <==> x is ListTrunks
            &&& acts && a is CreateConference ==> a->CreateConference_with_body == (body@.len() > 0)
            &&& x is NotFound ==> !acts && status == 404
            &&& !acts ==> status == 400 || status == 404 || status == 501 || status == 503
        }),
{
    if e is Some {
        a_step_is_its_own(e->0, r->0, body@, st);
    }
}

proof fn a_route_keeps_its_sort(x: AdminRoute<String>)
    ensures
        x.text() is ListCalls <==> x is ListCalls,
        x.text() is ListRegistrations <==> x is ListRegistrations,
        x.text() is ListTrunks <==> x is ListTrunks,
        x.text() is GetLogFilter <==> x is GetLogFilter,
        x.text() is SetLogFilter <==> x is SetLogFilter,
        x.text() is HepTest <==> x is HepTest,
        x.text() is Originate <==> x is Originate,
        x.text() is ListConferences <==> x is ListConferences,
        x.text() is CreateConference <==> x is CreateConference,
        x.text() is ListParked <==> x is ListParked,
        x.text() is DrainStatus <==> x is DrainStatus,
        x.text() is DrainStart <==> x is DrainStart,
        x.text() is ListErrors <==> x is ListErrors,
        x.text() is NodeStatus <==> x is NodeStatus,
        x.text() is RecentCdrs <==> x is RecentCdrs,
        x.text() is NotFound <==> x is NotFound,
        x.text() is TriggerRegistration <==> x is TriggerRegistration,
        x.text() is Park <==> x is Park,
        x.text() is Retrieve <==> x is Retrieve,
        x.text() is CallStats <==> x is CallStats,
        x.text() is CallSip <==> x is CallSip,
        x.text() is Hangup <==> x is Hangup,
        x.text() is HangupSip <==> x is HangupSip,
        x.text() is EndConference <==> x is EndConference,
        x.text() is AddParticipant <==> x is AddParticipant,
        x.text() is RemoveParticipant <==> x is RemoveParticipant,
{
    match x {
        AdminRoute::ListCalls => {},
        AdminRoute::ListRegistrations => {},
        AdminRoute::ListTrunks => {},
        AdminRoute::GetLogFilter => {},
        AdminRoute::SetLogFilter => {},
        AdminRoute::HepTest => {},
        AdminRoute::Originate => {},
        AdminRoute::ListConferences => {},
        AdminRoute::CreateConference => {},
        AdminRoute::ListParked => {},
        AdminRoute::DrainStatus => {},
        AdminRoute::DrainStart => {},
        AdminRoute::ListErrors => {},
        AdminRoute::NodeStatus => {},
        AdminRoute::RecentCdrs => {},
        AdminRoute::NotFound => {},
        AdminRoute::TriggerRegistration { .. } => {},
        AdminRoute::Park { .. } => {},
        AdminRoute::Retrieve { .. } => {},
        AdminRoute::CallStats { .. } => {},
        AdminRoute::CallSip { .. } => {},
        AdminRoute::Hangup { .. } => {},
        AdminRoute::HangupSip { .. } => {},
        AdminRoute::EndConference { .. } => {},
        AdminRoute::AddParticipant { .. } => {},
        AdminRoute::RemoveParticipant { .. } => {},
    }
}

proof fn an_action_keeps_its_sort(a: AdminAction<String>)
    ensures
        a.text() is ListCalls <==> a is ListCalls,
        a.text() is NodeStatus <==> a is NodeStatus,
        a.text() is RecentCdrs <==> a is RecentCdrs,
        a.text() is ListErrors <==> a is ListErrors,
        a.text() is StartDrain <==> a is StartDrain,
        a.text() is DrainStatus <==> a is DrainStatus,
        a.text() is ListTrunks <==> a is ListTrunks,
        a.text() is ListRegistrations <==> a is ListRegistrations,
        a.text() is CurrentLogFilter <==> a is CurrentLogFilter,
        a.text() is EmitHepProbe <==> a is EmitHepProbe,
        a.text() is Originate <==> a is Originate,
        a.text() is ListConferences <==> a is ListConferences,
        a.text() is ListParked <==> a is ListParked,
        a.text() is QualityStats <==> a is QualityStats,
        a.text() is CallSip <==> a is CallSip,
        a.text() is Hangup <==> a is Hangup,
        a.text() is HangupSip <==> a is HangupSip,
        a.text() is SetLogFilter <==> a is SetLogFilter,
        a.text() is CreateConference <==> a is CreateConference,
        a.text() is EndConference <==> a is EndConference,
        a.text() is AddParticipant <==> a is AddParticipant,
        a.text() is RemoveParticipant <==> a is RemoveParticipant,
        a.text() is Park <==> a is Park,
        a.text() is Retrieve <==> a is Retrieve,
        a.text() is TriggerRegistration <==> a is TriggerRegistration,
{
    match a {
        AdminAction::ListCalls => {},
        AdminAction::NodeStatus => {},
        AdminAction::RecentCdrs => {},
        AdminAction::ListErrors => {},
        AdminAction::StartDrain => {},
        AdminAction::DrainStatus => {},
        AdminAction::ListTrunks => {},
        AdminAction::ListRegistrations => {},
        AdminAction::CurrentLogFilter => {},
        AdminAction::EmitHepProbe => {},
        AdminAction::Originate => {},
        AdminAction::ListConferences => {},
        AdminAction::ListParked => {},
        AdminAction::QualityStats { .. } => {},
        AdminAction::CallSip { .. } => {},
        AdminAction::Hangup { .. } => {},
        AdminAction::HangupSip { .. } => {},
        AdminAction::SetLogFilter { .. } => {},
        AdminAction::CreateConference { .. } => {},
        AdminAction::EndConference { .. } => {},
        AdminAction::AddParticipant { .. } => {},
        AdminAction::RemoveParticipant { .. } => {},
        AdminAction::Park { .. } => {},
        AdminAction::Retrieve { .. } => {},
        AdminAction::TriggerRegistration { .. } => {},
    }
}

#[verifier::spinoff_prover]
#[verifier::rlimit(80)]
proof fn a_step_is_its_own_in_text(
    x: AdminRoute<Seq<char>>,
    step: AdminStep<Seq<char>>,
    body: Seq<u8>,
    st: &AdminState,
)
    requires
        step == step_for(x, body, *st),
    ensures
        ({
            let acts = step is Act;
            let a = step->Act_0;
            let status = step->status;
            &&& acts && a is ListCalls <==> x is ListCalls && st.call_registry
            &&& x is ListCalls && !st.call_registry ==> !acts && status == 503
            &&& acts && a is NodeStatus <==> x is NodeStatus && st.status
            &&& x is NodeStatus && !st.status ==> !acts && status == 503
            &&& acts && a is RecentCdrs <==> x is RecentCdrs && st.recent_cdrs
            &&& x is RecentCdrs && !st.recent_cdrs ==> !acts && status == 503
            &&& acts && a is ListErrors <==> x is ListErrors && st.errors
            &&& x is ListErrors && !st.errors ==> !acts && status == 503
            &&& acts && a is StartDrain <==> x is DrainStart && st.drain_start
            &&& x is DrainStart && !st.drain_start ==> !acts && status == 503
            &&& acts && a is DrainStatus <==> x is DrainStatus && st.drain
            &&& x is DrainStatus && !st.drain ==> !acts && status == 503
            &&& acts && a is ListRegistrations <==> x is ListRegistrations && st.registration_snapshot
            &&& x is ListRegistrations && !st.registration_snapshot ==> !acts && status == 503
            &&& acts && a is CurrentLogFilter <==> x is GetLogFilter && st.log_filter
            &&& x is GetLogFilter && !st.log_filter ==> !acts && status == 503
            &&& acts && a is EmitHepProbe <==> x is HepTest && st.hep
            &&& x is HepTest && !st.hep ==> !acts && status == 503
            &&& acts && a is Originate <==> x is Originate && st.outbound
            &&& x is Originate && !st.outbound ==> !acts && status == 501
            &&& acts && a is ListConferences <==> x is ListConferences && st.conference
            &&& x is ListConferences && !st.conference ==> !acts && status == 501
            &&& acts && a is CreateConference <==> x is CreateConference && st.conference
            &&& x is CreateConference && !st.conference ==> !acts && status == 501
            &&& acts && a is ListParked <==> x is ListParked && st.park
            &&& x is ListParked && !st.park ==> !acts && status == 501
            &&& acts && a is ListTrunks <==> x is ListTrunks
            &&& acts && a is CreateConference ==> a->CreateConference_with_body == (body.len() > 0)
            &&& x is NotFound ==> !acts && status == 404
            &&& !acts ==> status == 400 || status == 404 || status == 501 || status == 503
        }),
{
}

#[verifier::spinoff_prover]
#[verifier::rlimit(80)]
proof fn a_step_is_on_what_is_named_in_text(
    x: AdminRoute<Seq<char>>,
    step: AdminStep<Seq<char>>,
    body: Seq<u8>,
    st: &AdminState,
)
    requires
        step == step_for(x, body, *st),
    ensures
        ({
            let acts = step is Act;
            let a = step->Act_0;
            let status = step->status;
            let full = body.len() > 0;
            &&& acts && a is QualityStats <==> x is CallStats && st.quality_stats && x->CallStats_call_id.len() > 0
            &&& acts && a is QualityStats ==> a->QualityStats_call_id == x->CallStats_call_id
            &&& x is CallStats && st.quality_stats && x->CallStats_call_id.len() == 0 ==> !acts && status == 400
            &&& x is CallStats && !st.quality_stats && x->CallStats_call_id.len() > 0 ==> !acts && status == 503
            &&& acts && a is CallSip <==> x is CallSip && st.sip_capture && x->CallSip_call_id.len() > 0
            &&& acts && a is CallSip ==> a->CallSip_call_id == x->CallSip_call_id
            &&& x is CallSip && st.sip_capture && x->CallSip_call_id.len() == 0 ==> !acts && status == 400
            &&& x is CallSip && !st.sip_capture && x->CallSip_call_id.len() > 0 ==> !acts && status == 501
            &&& acts && a is Hangup <==> x is Hangup && st.call_registry && x->Hangup_call_id.len() > 0
            &&& acts && a is Hangup ==> a->Hangup_call_id == x->Hangup_call_id
            &&& x is Hangup && st.call_registry && x->Hangup_call_id.len() == 0 ==> !acts && status == 400
            &&& x is Hangup && !st.call_registry && x->Hangup_call_id.len() > 0 ==> !acts && status == 503
            &&& acts && a is HangupSip <==> x is HangupSip && st.call_registry && x->sip_call_id.len() > 0
            &&& acts && a is HangupSip ==> a->sip_call_id == x->sip_call_id
            &&& x is HangupSip && st.call_registry && x->sip_call_id.len() == 0 ==> !acts && status == 400
            &&& x is HangupSip && !st.call_registry && x->sip_call_id.len() > 0 ==> !acts && status == 503
            &&& acts && a is EndConference <==> x is EndConference && st.conference
            &&& acts && a is EndConference ==> a->EndConference_room_id == x->EndConference_room_id
            &&& x is EndConference && !st.conference ==> !acts && status == 501
            &&& acts && a is AddParticipant <==> x is AddParticipant && st.conference
            &&& acts && a is AddParticipant ==> a->AddParticipant_room_id == x->AddParticipant_room_id
            &&& x is AddParticipant && !st.conference ==> !acts && status == 501
            &&& acts && a is RemoveParticipant <==> x is RemoveParticipant && st.conference
            &&& acts && a is RemoveParticipant ==> a->RemoveParticipant_room_id == x->RemoveParticipant_room_id
            &&& acts && a is RemoveParticipant ==> a->RemoveParticipant_call_id == x->RemoveParticipant_call_id
            &&& x is RemoveParticipant && !st.conference ==> !acts && status == 501
            &&& acts && a is Park <==> x is Park && st.park && x->Park_call_id.len() > 0
            &&& acts && a is Park ==> a->Park_call_id == x->Park_call_id
            &&& acts && a is Park ==> a->Park_with_body == full
            &&& x is Park && st.park && x->Park_call_id.len() == 0 ==> !acts && status == 400
            &&& x is Park && !st.park && x->Park_call_id.len() > 0 ==> !acts && status == 501
            &&& acts && a is Retrieve <==> x is Retrieve && st.park && x->Retrieve_call_id.len() > 0
            &&& acts && a is Retrieve ==> a->Retrieve_call_id == x->Retrieve_call_id
            &&& acts && a is Retrieve ==> a->Retrieve_with_body == full
            &&& x is Retrieve && st.park && x->Retrieve_call_id.len() == 0 ==> !acts && status == 400
            &&& x is Retrieve && !st.park && x->Retrieve_call_id.len() > 0 ==> !acts && status == 501
            &&& acts && a is TriggerRegistration <==> x is TriggerRegistration && st.registrations && x->name.len() > 0
            &&& acts && a is TriggerRegistration ==> a->name == x->name
            &&& acts && a is TriggerRegistration ==> a->action == x->action
            &&& x is TriggerRegistration && st.registrations && x->name.len() == 0 ==> !acts && status == 400
            &&& x is TriggerRegistration && !st.registrations && x->name.len() > 0 ==> !acts && status == 503
            &&& acts && a is CallSip ==> a->ask_registry == st.call_registry
        }),
{
}

proof fn a_step_is_its_own(
    x: AdminRoute<String>,
    step: AdminStep<String>,
    body: Seq<u8>,
    st: &AdminState,
)
    requires
        step.text() == step_for(x.text(), body, *st),
    ensures
        ({
            let acts = step is Act;
            let a = step->Act_0;
            let status = step->status;
            &&& acts && a is ListCalls <==> x is ListCalls && st.call_registry
            &&& x is ListCalls && !st.call_registry ==> !acts && status == 503
            &&& acts && a is NodeStatus <==> x is NodeStatus && st.status
            &&& x is NodeStatus && !st.status ==> !acts && status == 503
            &&& acts && a is RecentCdrs <==> x is RecentCdrs && st.recent_cdrs
            &&& x is RecentCdrs && !st.recent_cdrs ==> !acts && status == 503
            &&& acts && a is ListErrors <==> x is ListErrors && st.errors
            &&& x is ListErrors && !st.errors ==> !acts && status == 503
            &&& acts && a is StartDrain <==> x is DrainStart && st.drain_start
            &&& x is DrainStart && !st.drain_start ==> !acts && status == 503
            &&& acts && a is DrainStatus <==> x is DrainStatus && st.drain
            &&& x is DrainStatus && !st.drain ==> !acts && status == 503
            &&& acts && a is ListRegistrations <==> x is ListRegistrations && st.registration_snapshot
            &&& x is ListRegistrations && !st.registration_snapshot ==> !acts && status == 503
            &&& acts && a is CurrentLogFilter <==> x is GetLogFilter && st.log_filter
            &&& x is GetLogFilter && !st.log_filter ==> !acts && status == 503
            &&& acts && a is EmitHepProbe <==> x is HepTest && st.hep
            &&& x is HepTest && !st.hep ==> !acts && status == 503
            &&& acts && a is Originate <==> x is Originate && st.outbound
            &&& x is Originate && !st.outbound ==> !acts && status == 501
            &&& acts && a is ListConferences <==> x is ListConferences && st.conference
            &&& x is ListConferences && !st.conference ==> !acts && status == 501
            &&& acts && a is CreateConference <==> x is CreateConference && st.conference
            &&& x is CreateConference && !st.conference ==> !acts && status == 501
            &&& acts && a is ListParked <==> x is ListParked && st.park
            &&& x is ListParked && !st.park ==> !acts && status == 501
            &&& acts && a is ListTrunks <==> x is ListTrunks
            &&& acts && a is CreateConference ==> a->CreateConference_with_body == (body.len() > 0)
            &&& x is NotFound ==> !acts && status == 404
            &&& !acts ==> status == 400 || status == 404 || status == 501 || status == 503
        }),
{
    a_route_keeps_its_sort(x);
    if step is Act {
        an_action_keeps_its_sort(step->Act_0);
    }
    a_step_is_its_own_in_text(x.text(), step.text(), body, st);
}

/// An endpoint on a call, a room or a registration asks for its action on the very one that
/// the path names. An empty id is refused where one is needed, and so is everything whose
/// handle is not installed.
pub proof fn an_action_is_on_what_the_path_names(
    method: Method,
    path: &str,
    body: &[u8],
    st: &AdminState,
    e: Option<AdminRoute<String>>,
    r: Option<AdminStep<String>>,
)
    requires
        call_ensures(route, (method, path), e),
        e is Some,
        call_ensures(dispatch, (method, path, body, st), r),
    ensures
        ({
            let acts = r->0 is Act;
            let a = r->0->Act_0;
            let x = e->0;
            let status = r->0->status;
            let full = body@.len() > 0;
            &&& acts && a is QualityStats <==> x is CallStats && st.quality_stats && x->CallStats_call_id@.len() > 0
            &&& acts && a is QualityStats ==> a->QualityStats_call_id@ == x->CallStats_call_id@
            &&& x is CallStats && st.quality_stats && x->CallStats_call_id@.len() == 0 ==> !acts && status == 400
            &&& x is CallStats && !st.quality_stats && x->CallStats_call_id@.len() > 0 ==> !acts && status == 503
            &&& acts && a is CallSip <==> x is CallSip && st.sip_capture && x->CallSip_call_id@.len() > 0
            &&& acts && a is CallSip ==> a->CallSip_call_id@ == x->CallSip_call_id@
            &&& x is CallSip && st.sip_capture && x->CallSip_call_id@.len() == 0 ==> !acts && status == 400
            &&& x is CallSip && !st.sip_capture && x->CallSip_call_id@.len() > 0 ==> !acts && status == 501
            &&& acts && a is Hangup <==> x is Hangup && st.call_registry && x->Hangup_call_id@.len() > 0
            &&& acts && a is Hangup ==> a->Hangup_call_id@ == x->Hangup_call_id@
            &&& x is Hangup && st.call_registry && x->Hangup_call_id@.len() == 0 ==> !acts && status == 400
            &&& x is Hangup && !st.call_registry && x->Hangup_call_id@.len() > 0 ==> !acts && status == 503
            &&& acts && a is HangupSip <==> x is HangupSip && st.call_registry && x->sip_call_id@.len() > 0
            &&& acts && a is HangupSip ==> a->sip_call_id@ == x->sip_call_id@
            &&& x is HangupSip && st.call_registry && x->sip_call_id@.len() == 0 ==> !acts && status == 400
            &&& x is HangupSip && !st.call_registry && x->sip_call_id@.len() > 0 ==> !acts && status == 503
            &&& acts && a is EndConference <==> x is EndConference && st.conference
            &&& acts && a is EndConference ==> a->EndConference_room_id@ == x->EndConference_room_id@
            &&& x is EndConference && !st.conference ==> !acts && status == 501
            &&& acts && a is AddParticipant <==> x is AddParticipant && st.conference
            &&& acts && a is AddParticipant ==> a->AddParticipant_room_id@ == x->AddParticipant_room_id@
            &&& x is AddParticipant && !st.conference ==> !acts && status == 501
            &&& acts && a is RemoveParticipant <==> x is RemoveParticipant && st.conference
            &&& acts && a is RemoveParticipant ==> a->RemoveParticipant_room_id@ == x->RemoveParticipant_room_id@
            &&& acts && a is RemoveParticipant ==> a->RemoveParticipant_call_id@ == x->RemoveParticipant_call_id@
            &&& x is RemoveParticipant && !st.conference ==> !acts && status == 501
            &&& acts && a is Park <==> x is Park && st.park && x->Park_call_id@.len() > 0
            &&& acts && a is Park ==> a->Park_call_id@ == x->Park_call_id@
            &&& acts && a is Park ==> a->Park_with_body == full
            &&& x is Park && st.park && x->Park_call_id@.len() == 0 ==> !acts && status == 400
            &&& x is Park && !st.park && x->Park_call_id@.len() > 0 ==> !acts && status == 501
            &&& acts && a is Retrieve <==> x is Retrieve && st.park && x->Retrieve_call_id@.len() > 0
            &&& acts && a is Retrieve ==> a->Retrieve_call_id@ == x->Retrieve_call_id@
            &&& acts && a is Retrieve ==> a->Retrieve_with_body == full
            &&& x is Retrieve && st.park && x->Retrieve_call_id@.len() == 0 ==> !acts && status == 400
            &&& x is Retrieve && !st.park && x->Retrieve_call_id@.len() > 0 ==> !acts && status == 501
            &&& acts && a is TriggerRegistration <==> x is TriggerRegistration && st.registrations && x->name@.len() > 0
            &&& acts && a is TriggerRegistration ==> a->name@ == x->name@
            &&& acts && a is TriggerRegistration ==> a->action == x->action
            &&& x is TriggerRegistration && st.registrations && x->name@.len() == 0 ==> !acts && status == 400
            &&& x is TriggerRegistration && !st.registrations && x->name@.len() > 0 ==> !acts && status == 503
            &&& acts && a is CallSip ==> a->ask_registry == st.call_registry
        }),
{
    a_step_is_on_what_is_named(e->0, r->0, body@, st);
}

proof fn a_step_is_on_what_is_named(
    x: AdminRoute<String>,
    step: AdminStep<String>,
    body: Seq<u8>,
    st: &AdminState,
)
    requires
        step.text() == step_for(x.text(), body, *st),
    ensures
        ({
            let acts = step is Act;
            let a = step->Act_0;
            let status = step->status;
            let full = body.len() > 0;
            &&& acts && a is QualityStats <==> x is CallStats && st.quality_stats && x->CallStats_call_id@.len() > 0
            &&& acts && a is QualityStats ==> a->QualityStats_call_id@ == x->CallStats_call_id@
            &&& x is CallStats && st.quality_stats && x->CallStats_call_id@.len() == 0 ==> !acts && status == 400
            &&& x is CallStats && !st.quality_stats && x->CallStats_call_id@.len() > 0 ==> !acts && status == 503
            &&& acts && a is CallSip <==> x is CallSip && st.sip_capture && x->CallSip_call_id@.len() > 0
            &&& acts && a is CallSip ==> a->CallSip_call_id@ == x->CallSip_call_id@
            &&& x is CallSip && st.sip_capture && x->CallSip_call_id@.len() == 0 ==> !acts && status == 400
            &&& x is CallSip && !st.sip_capture && x->CallSip_call_id@.len() > 0 ==> !acts && status == 501
            &&& acts && a is Hangup <==> x is Hangup && st.call_registry && x->Hangup_call_id@.len() > 0
            &&& acts && a is Hangup ==> a->Hangup_call_id@ == x->Hangup_call_id@
            &&& x is Hangup && st.call_registry && x->Hangup_call_id@.len() == 0 ==> !acts && status == 400
            &&& x is Hangup && !st.call_registry && x->Hangup_call_id@.len() > 0 ==> !acts && status == 503
            &&& acts && a is HangupSip <==> x is HangupSip && st.call_registry && x->sip_call_id@.len() > 0
            &&& acts && a is HangupSip ==> a->sip_call_id@ == x->sip_call_id@
            &&& x is HangupSip && st.call_registry && x->sip_call_id@.len() == 0 ==> !acts && status == 400
            &&& x is HangupSip && !st.call_registry && x->sip_call_id@.len() > 0 ==> !acts && status == 503
            &&& acts && a is EndConference <==> x is EndConference && st.conference
            &&& acts && a is EndConference ==> a->EndConference_room_id@ == x->EndConference_room_id@
            &&& x is EndConference && !st.conference ==> !acts && status == 501
            &&& acts && a is AddParticipant <==> x is AddParticipant && st.conference
            &&& acts && a is AddParticipant ==> a->AddParticipant_room_id@ == x->AddParticipant_room_id@
            &&& x is AddParticipant && !st.conference ==> !acts && status == 501
            &&& acts && a is RemoveParticipant <==> x is RemoveParticipant && st.conference
            &&& acts && a is RemoveParticipant ==> a->RemoveParticipant_room_id@ == x->RemoveParticipant_room_id@
            &&& acts && a is RemoveParticipant ==> a->RemoveParticipant_call_id@ == x->RemoveParticipant_call_id@
            &&& x is RemoveParticipant && !st.conference ==> !acts && status == 501
            &&& acts && a is Park <==> x is Park && st.park && x->Park_call_id@.len() > 0
            &&& acts && a is Park ==> a->Park_call_id@ == x->Park_call_id@
            &&& acts && a is Park ==> a->Park_with_body == full
            &&& x is Park && st.park && x->Park_call_id@.len() == 0 ==> !acts && status == 400
            &&& x is Park && !st.park && x->Park_call_id@.len() > 0 ==> !acts && status == 501
            &&& acts && a is Retrieve <==> x is Retrieve && st.park && x->Retrieve_call_id@.len() > 0
            &&& acts && a is Retrieve ==> a->Retrieve_call_id@ == x->Retrieve_call_id@
            &&& acts && a is Retrieve ==> a->Retrieve_with_body == full
            &&& x is Retrieve && st.park && x->Retrieve_call_id@.len() == 0 ==> !acts && status == 400
            &&& x is Retrieve && !st.park && x->Retrieve_call_id@.len() > 0 ==> !acts && status == 501
            &&& acts && a is TriggerRegistration <==> x is TriggerRegistration && st.registrations && x->name@.len() > 0
            &&& acts && a is TriggerRegistration ==> a->name@ == x->name@
            &&& acts && a is TriggerRegistration ==> a->action == x->action
            &&& x is TriggerRegistration && st.registrations && x->name@.len() == 0 ==> !acts && status == 400
            &&& x is TriggerRegistration && !st.registrations && x->name@.len() > 0 ==> !acts && status == 503
            &&& acts && a is CallSip ==> a->ask_registry == st.call_registry
        }),
{
    a_route_keeps_its_sort(x);
    if step is Act {
        an_action_keeps_its_sort(step->Act_0);
    }
    a_step_is_on_what_is_named_in_text(x.text(), step.text(), body, st);
}

/// A change of the log filter asks for the directive of the body; a body without one is
/// refused with the reason.
pub proof fn a_filter_change_asks_for_the_directive_of_its_body(
    method: Method,
    path: &str,
    body: &[u8],
    st: &AdminState,
    e: Option<AdminRoute<String>>,
    r: Option<AdminStep<String>>,
    p: Result<String, String>,
)
    requires
        call_ensures(route, (method, path), e),
        e is Some && e->0 is SetLogFilter,
        call_ensures(dispatch, (method, path, body, st), r),
        call_ensures(parse_filter_body, (body,), p),
    ensures
        !st.log_filter ==> r->0 is Refuse && r->0->status == 503,
        st.log_filter && p is Err ==> r->0 is Refuse && r->0->status == 400 && r->0->error@
            == p->Err_0@,
        st.log_filter && p is Ok ==> r->0 is Act && r->0->Act_0 is SetLogFilter
            && r->0->Act_0->directive@ == p->Ok_0@,
{
    assert(r->0.text() == step_for(e->0.text(), body@, *st));
}

/// The directive of a body is its JSON `filter` where it has one, else the body as text; it
/// has no outer white space. An empty body, one that is no text, and one of white space
/// alone have none.
pub proof fn a_directive_is_the_field_or_the_text(
    body: &[u8],
    field: Option<String>,
    r: Result<String, String>,
    p: Result<String, String>,
)
    requires
        call_ensures(choose_filter, (body, field), r),
        call_ensures(parse_filter_body, (body,), p),
    ensures
        body@.len() == 0 ==> r is Err,
        body@.len() > 0 && field is Some ==> r is Ok && r->Ok_0@ == trimmed(field->0@),
        body@.len() > 0 && field is None ==> {
            let text = trimmed(vstd::utf8::decode_utf8(body@));
            &&& r is Ok <==> vstd::utf8::valid_utf8(body@) && text.len() > 0
            &&& r is Ok ==> r->Ok_0@ == text
        },
        opt_view(field) == json_string_field(body@, "filter"@) ==> {
            &&& r is Ok <==> p is Ok
            &&& r is Ok ==> r->Ok_0@ == p->Ok_0@
            &&& r is Err ==> r->Err_0@ == p->Err_0@
        },
{
}

/// A daemon starts with no handle installed.
pub proof fn a_daemon_starts_with_nothing_installed(st: AdminState)
    requires
        call_ensures(AdminState::default, (), st),
    ensures
        !st.call_registry && !st.registration_snapshot && !st.log_filter && !st.hep,
        !st.outbound && !st.conference && !st.park && !st.drain && !st.quality_stats,
        !st.registrations && !st.drain_start && !st.status && !st.recent_cdrs && !st.errors,
        !st.sip_capture,
{
}

} // verus!
