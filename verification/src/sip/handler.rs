//! Decisions on inbound SIP requests.
//!
//! A new INVITE passes five checks, in this order: admission, draining, the trunk
//! allowlist, digest authentication, routing. [`RoutingHandler::on_invite`] makes
//! the first two; where the next needs an answer from outside, the step says so,
//! and [`RoutingHandler::identified`] and [`RoutingHandler::authenticated`] go on
//! from the answer. A request inside a dialog passes none of them.
use vstd::prelude::*;

use crate::net::Endpoint;
use crate::routes::compiled::{CompiledRoute, RouteSet};
use crate::sip::admission::{AdmissionDecision, InviteAdmission, ADMISSION_RETRY_AFTER_SECS};
use crate::sip::dialog::{dispatch_bye, dispatch_cancel, told, DialogAction, DialogTerminator};
use crate::sip::digest::{
    challenge_header, challenge_response, evaluate_check, outcome_of, DigestCheck, DigestOutcome,
    InboundDigestAuth,
};
use crate::sip::drain::DrainFlag;
use crate::sip::invite::InviteFacts;
use crate::sip::message::{correlation, header_views, Request, Response};
use crate::sip::route::{route_index, route_invite, RouteDecision};
use crate::text::{
    decimal, decimal_string, eq_ignore_ascii_case, first_index, lower, split_once, trim, trimmed,
};

verus! {

/// Identifies the peer of a new INVITE by its address, its `From` host, or both.
pub trait TrunkAllowlist: Send + Sync {
    /// The name of the trunk that the peer belongs to; `None` when it belongs to
    /// none.
    fn identify(&self, request: &Request, peer: &Endpoint) -> Option<String>;
}

/// The source of a call that came through no registration.
pub const TRUNK: &'static str = "trunk";

/// The methods that are answered, as `Allow` lists them.
pub const SUPPORTED_METHODS: [&'static str; 6] = [
    "INVITE",
    "ACK",
    "BYE",
    "CANCEL",
    "OPTIONS",
    "NOTIFY",
];

// ---- Routing ----

/// What to do with a new INVITE whose source is known.
#[derive(Debug)]
pub enum RouteAction<'a> {
    /// Send this final response.
    SendFinal(Response),
    /// A route takes the call.
    Accept { facts: InviteFacts, route: &'a CompiledRoute },
}

/// The first matching route takes the call; `404 Not Found` when there is none.
pub fn dispatch_invite<'a>(routes: &'a RouteSet, register_source: &str, request: &Request) -> (r:
    RouteAction<'a>)
    ensures
        match r {
            RouteAction::Accept { facts, route } => {
                &&& facts.are_of(*request)
                &&& route_index(*routes, *request, register_source@) < routes.routes@.len()
                &&& *route == routes.routes@[route_index(*routes, *request, register_source@)]
            },
            RouteAction::SendFinal(response) => {
                &&& route_index(*routes, *request, register_source@) == routes.routes@.len()
                &&& response.answers(*request, 404, "Not Found"@, seq![])
            },
        },
{
    match route_invite(request, register_source, routes) {
        RouteDecision::Matched { facts, route } => RouteAction::Accept { facts, route },
        RouteDecision::NoMatch { facts: _ } => RouteAction::SendFinal(
            Response::create_response(request, 404, "Not Found"),
        ),
    }
}

// ---- Responses that ask to come back ----

/// The one header that asks a peer to retry.
pub open spec fn retry_after(secs: u32) -> Seq<(Seq<char>, Seq<char>)> {
    seq![("Retry-After"@, decimal(secs as nat))]
}

fn unavailable(request: &Request, retry_after_secs: u32) -> (r: Response)
    ensures
        r.answers(*request, 503, "Service Unavailable"@, retry_after(retry_after_secs)),
{
    let r = Response::create_response(request, 503, "Service Unavailable").with_header(
        "Retry-After",
        decimal_string(retry_after_secs as u64),
    );
    assert(header_views(r.headers@) =~= correlation(header_views(request.headers@)) + retry_after(
        retry_after_secs,
    ));
    r
}

/// What a node that is draining, or not, answers to a new INVITE: while draining,
/// `503` with `Retry-After`; otherwise nothing.
pub fn drain_response(draining: bool, retry_after_secs: u32, request: &Request) -> (r: Option<
    Response,
>)
    ensures
        match r {
            Some(response) => draining && response.answers(
                *request,
                503,
                "Service Unavailable"@,
                retry_after(retry_after_secs),
            ),
            None => !draining,
        },
{
    if draining {
        Some(unavailable(request, retry_after_secs))
    } else {
        None
    }
}

/// [`drain_response`] for what the flag says at this moment: `503` with `Retry-After`
/// where the read gave that the node is draining, and nothing where it gave that it
/// is not.
pub fn drain_reject_response(drain: &DrainFlag, retry_after_secs: u32, request: &Request) -> (r:
    Option<Response>)
    ensures
        match r {
            Some(response) => drain.reads(true) && response.answers(
                *request,
                503,
                "Service Unavailable"@,
                retry_after(retry_after_secs),
            ),
            None => drain.reads(false),
        },
{
    drain_response(drain.is_draining(), retry_after_secs, request)
}

// ---- NOTIFY ----

/// The response to a NOTIFY and the label under which it is counted.
#[derive(Debug)]
pub struct NotifyDisposition {
    pub response: Response,
    pub result: &'static str,
}

/// The `Event` header of a request, in its long or its compact form.
pub open spec fn event_of(request: Request) -> Option<Seq<char>> {
    match request.value_of("Event"@) {
        Some(v) => Some(v),
        None => request.value_of("o"@),
    }
}

/// The event package: what stands before the parameters.
pub open spec fn package_of(event: Seq<char>) -> Seq<char> {
    trimmed(event.subrange(0, first_index(event, ';')))
}

/// The decision on a NOTIFY: the status, the reason, what the response adds, and
/// the label.
pub open spec fn notify_answer(event: Option<Seq<char>>) -> (
    u16,
    Seq<char>,
    Seq<(Seq<char>, Seq<char>)>,
    Seq<char>,
) {
    match event {
        None => (400, "Bad Request"@, seq![], "bad_request"@),
        Some(e) => if lower(package_of(e)) == lower("refer"@) {
            (200, "OK"@, seq![], "accepted"@)
        } else if lower(package_of(e)) == lower("message-summary"@) {
            (200, "OK"@, seq![], "ignored"@)
        } else {
            (489, "Bad Event"@, seq![("Allow-Events"@, "refer"@)], "bad_event"@)
        },
    }
}

fn package(event: &str) -> (r: &str)
    ensures
        r@ == package_of(event@),
{
    match split_once(event, ';') {
        Some(p) => trim(p.0),
        None => {
            assert(event@.subrange(0, event@.len() as int) =~= event@);
            trim(event)
        },
    }
}

/// The answer to a NOTIFY. Transfer progress (`refer`) is accepted, a mailbox
/// summary is absorbed, any other package is a bad event; without an `Event`
/// header the request is malformed. The dialog plays no part: the progress of a
/// transfer arrives after its call has ended.
pub fn dispatch_notify(request: &Request) -> (r: NotifyDisposition)
    ensures
        ({
            let a = notify_answer(event_of(*request));
            r.response.answers(*request, a.0, a.1, a.2) && r.result@ == a.3
        }),
{
    let event = match request.header("Event") {
        Some(v) => Some(v),
        None => request.header("o"),
    };
    match event {
        None => NotifyDisposition {
            response: Response::create_response(request, 400, "Bad Request"),
            result: "bad_request",
        },
        Some(value) => {
            let name = package(value);
            if eq_ignore_ascii_case(name, "refer") {
                NotifyDisposition {
                    response: Response::create_response(request, 200, "OK"),
                    result: "accepted",
                }
            } else if eq_ignore_ascii_case(name, "message-summary") {
                NotifyDisposition {
                    response: Response::create_response(request, 200, "OK"),
                    result: "ignored",
                }
            } else {
                let response = Response::create_response(request, 489, "Bad Event").with_header(
                    "Allow-Events",
                    "refer".to_owned(),
                );
                assert(header_views(response.headers@) =~= correlation(
                    header_views(request.headers@),
                ) + seq![("Allow-Events"@, "refer"@)]);
                NotifyDisposition { response, result: "bad_event" }
            }
        },
    }
}

// ---- The checks on an INVITE ----

/// What goes on record.
#[derive(Debug)]
pub enum AuditEvent<S> {
    /// A new INVITE was refused.
    InviteRejected { peer: S, reason: S },
    /// Credentials failed, or a nonce was stale.
    SipAuth { peer: S, source: S, result: S },
}

impl AuditEvent<String> {
    /// The same event over the views of its texts.
    pub open spec fn text(self) -> AuditEvent<Seq<char>> {
        match self {
            AuditEvent::InviteRejected { peer, reason } => AuditEvent::InviteRejected {
                peer: peer@,
                reason: reason@,
            },
            AuditEvent::SipAuth { peer, source, result } => AuditEvent::SipAuth {
                peer: peer@,
                source: source@,
                result: result@,
            },
        }
    }
}

/// What to do next with an INVITE.
#[derive(Debug)]
pub enum InviteStep<'r> {
    /// It belongs to a dialog: hand it to the call.
    Reinvite { sip_call_id: String },
    /// Drop it without an answer.
    Drop,
    /// Answer it, and put the event on record if there is one.
    Reply { response: Response, audit: Option<AuditEvent<String>> },
    /// Find out where it comes from.
    Identify,
    /// Check its credentials.
    Authenticate { register_source: String },
    /// A route takes the call.
    Accept { facts: InviteFacts, route: &'r CompiledRoute },
}

impl<'r> InviteStep<'r> {
    /// The step answers `request` with this response and records this event.
    pub open spec fn replies(
        self,
        request: Request,
        code: u16,
        reason: Seq<char>,
        extra: Seq<(Seq<char>, Seq<char>)>,
        audit: Option<AuditEvent<Seq<char>>>,
    ) -> bool {
        self matches InviteStep::Reply { response, audit: a } && response.answers(
            request,
            code,
            reason,
            extra,
        ) && match (a, audit) {
            (Some(x), Some(y)) => x.text() == y,
            (None, None) => true,
            _ => false,
        }
    }

    /// The step is what routing says: the first matching route, or `404`.
    pub open spec fn routes(self, routes: RouteSet, request: Request, source: Seq<char>) -> bool {
        let i = route_index(routes, request, source);
        if i < routes.routes@.len() {
            self matches InviteStep::Accept { facts, route } && facts.are_of(request) && *route
                == routes.routes@[i]
        } else {
            self.replies(request, 404, "Not Found"@, seq![], None)
        }
    }
}

/// What the limiter said, for the metrics.
#[derive(Debug)]
pub struct AdmissionReport {
    /// The label of the decision.
    pub result: &'static str,
    /// How many sources are tracked.
    pub sources: usize,
}

/// Where an INVITE comes from.
#[derive(Debug)]
pub enum SourceAnswer {
    /// What the trunk allowlist said.
    Gate(Option<String>),
    /// The name of the source, where no allowlist is installed.
    Resolver(String),
}

/// The rules that inbound requests are held to.
pub struct RoutingHandler {
    pub routes: RouteSet,
    pub drain_retry_after_secs: u32,
    pub digest_auth: Option<InboundDigestAuth>,
    pub admission: Option<InviteAdmission>,
}

fn rejected(peer: &str, reason: &str) -> (r: Option<AuditEvent<String>>)
    ensures
        r matches Some(e) && e.text() == (AuditEvent::InviteRejected {
            peer: peer@,
            reason: reason@,
        }),
{
    Some(AuditEvent::InviteRejected { peer: peer.to_owned(), reason: reason.to_owned() })
}

impl RoutingHandler {
    /// Routing alone: no limiter, no authentication.
    pub fn new(routes: RouteSet) -> (r: Self)
        ensures
            r.routes == routes,
            r.drain_retry_after_secs == 5,
            r.digest_auth is None,
            r.admission is None,
    {
        RoutingHandler { routes, drain_retry_after_secs: 5, digest_auth: None, admission: None }
    }

    /// With this many seconds in the `Retry-After` of a draining node.
    pub fn with_drain(self, retry_after_secs: u32) -> (r: Self)
        ensures
            r == (RoutingHandler { drain_retry_after_secs: retry_after_secs, ..self }),
    {
        RoutingHandler { drain_retry_after_secs: retry_after_secs, ..self }
    }

    /// With digest authentication.
    pub fn with_digest_auth(self, auth: InboundDigestAuth) -> (r: Self)
        ensures
            r == (RoutingHandler { digest_auth: Some(auth), ..self }),
    {
        RoutingHandler { digest_auth: Some(auth), ..self }
    }

    /// With a limiter.
    pub fn with_admission(self, admission: InviteAdmission) -> (r: Self)
        ensures
            r == (RoutingHandler { admission: Some(admission), ..self }),
    {
        RoutingHandler { admission: Some(admission), ..self }
    }

    /// The route table.
    pub fn routes(&self) -> (r: &RouteSet)
        ensures
            *r == self.routes,
    {
        &self.routes
    }

    /// The methods that are answered.
    pub fn supported_methods(&self) -> (r: [&'static str; 6])
        ensures
            r == SUPPORTED_METHODS,
    {
        SUPPORTED_METHODS
    }

    /// The limiter, if there is one, is well formed.
    pub open spec fn wf(self) -> bool {
        self.admission matches Some(a) ==> a.wf()
    }

    /// What the limiter says; without one, every INVITE is admitted.
    pub open spec fn decision(self, peer: Endpoint, now: u64, active: usize) -> AdmissionDecision {
        match self.admission {
            Some(a) => a.decision(peer.ip, now, active),
            None => AdmissionDecision::Accept,
        }
    }

    /// The first checks on an INVITE from `peer`, at `now` nanoseconds with
    /// `active` calls up. Inside a dialog there is nothing to check. Admission
    /// comes first: a flood is shed before anything else is done, and what is
    /// dropped is neither answered nor put on record.
    pub fn on_invite(
        &mut self,
        request: &Request,
        peer: &Endpoint,
        in_dialog: bool,
        draining: bool,
        now: u64,
        active: usize,
    ) -> (r: (Option<AdmissionReport>, InviteStep<'static>))
        requires
            old(self).wf(),
        ensures
            final(self).wf(),
            final(self).routes == old(self).routes,
            final(self).drain_retry_after_secs == old(self).drain_retry_after_secs,
            final(self).digest_auth == old(self).digest_auth,
            in_dialog ==> *final(self) == *old(self) && r.0 is None,
            in_dialog ==> (r.1 matches InviteStep::Reinvite { sip_call_id } && sip_call_id@
                == request.call_id_text()),
            !in_dialog ==> match (old(self).admission, final(self).admission) {
                (Some(a), Some(b)) => {
                    &&& b.limits() == a.limits()
                    &&& b.table() == (if a.counted(active) {
                        crate::sip::admission::table_after(a.table(), peer.ip, a.limits(), now)
                    } else {
                        a.table()
                    })
                    &&& r.0 matches Some(report)
                    &&& report.result@ == old(self).decision(*peer, now, active).label()
                    &&& report.sources == b.table().len()
                },
                (None, None) => r.0 is None,
                _ => false,
            },
            !in_dialog ==> match old(self).decision(*peer, now, active) {
                AdmissionDecision::Reject503 => r.1.replies(
                    *request,
                    503,
                    "Service Unavailable"@,
                    retry_after(ADMISSION_RETRY_AFTER_SECS),
                    Some(
                        AuditEvent::InviteRejected { peer: peer.text@, reason: "rate_limited"@ },
                    ),
                ),
                AdmissionDecision::Drop => r.1 is Drop,
                AdmissionDecision::Accept => if draining {
                    r.1.replies(
                        *request,
                        503,
                        "Service Unavailable"@,
                        retry_after(old(self).drain_retry_after_secs),
                        Some(
                            AuditEvent::InviteRejected { peer: peer.text@, reason: "draining"@ },
                        ),
                    )
                } else {
                    r.1 is Identify
                },
            },
    {
        if in_dialog {
            return (None, InviteStep::Reinvite { sip_call_id: request.call_id() });
        }
        let mut report: Option<AdmissionReport> = None;
        let mut decided = AdmissionDecision::Accept;
        if let Some(mut admission) = self.admission.take() {
            decided = admission.check(peer.ip, now, active);
            report = Some(
                AdmissionReport {
                    result: decided.metric_result(),
                    sources: admission.source_count(),
                },
            );
            self.admission = Some(admission);
        }
        match decided {
            AdmissionDecision::Accept => {},
            AdmissionDecision::Reject503 => {
                let response = unavailable(request, ADMISSION_RETRY_AFTER_SECS);
                let audit = rejected(peer.text.as_str(), "rate_limited");
                return (report, InviteStep::Reply { response, audit });
            },
            AdmissionDecision::Drop => {
                return (report, InviteStep::Drop);
            },
        }
        match drain_response(draining, self.drain_retry_after_secs, request) {
            Some(response) => {
                let audit = rejected(peer.text.as_str(), "draining");
                (report, InviteStep::Reply { response, audit })
            },
            None => (report, InviteStep::Identify),
        }
    }

    /// Goes on once the source is known. A peer that the allowlist does not know
    /// is refused with `403`; a source that must authenticate is asked to.
    pub fn identified<'r>(&'r self, request: &Request, peer: &Endpoint, source: SourceAnswer) -> (r:
        InviteStep<'r>)
        ensures
            match source {
                SourceAnswer::Gate(None) => r.replies(
                    *request,
                    403,
                    "Forbidden"@,
                    seq![],
                    Some(AuditEvent::InviteRejected { peer: peer.text@, reason: "no_trunk"@ }),
                ),
                SourceAnswer::Gate(Some(name)) => self.known_source(r, *request, name@),
                SourceAnswer::Resolver(name) => self.known_source(r, *request, name@),
            },
    {
        let register_source = match source {
            SourceAnswer::Gate(None) => {
                let response = Response::create_response(request, 403, "Forbidden");
                let audit = rejected(peer.text.as_str(), "no_trunk");
                return InviteStep::Reply { response, audit };
            },
            SourceAnswer::Gate(Some(name)) => name,
            SourceAnswer::Resolver(name) => name,
        };
        if let Some(digest) = &self.digest_auth {
            if digest.requires_auth(register_source.as_str()) {
                return InviteStep::Authenticate { register_source };
            }
        }
        self.routed(request, register_source.as_str())
    }

    /// The step for a known source: authenticate if it must, otherwise route.
    pub open spec fn known_source(
        self,
        step: InviteStep,
        request: Request,
        source: Seq<char>,
    ) -> bool {
        if self.digest_auth matches Some(d) && d.must_authenticate(source) {
            step matches InviteStep::Authenticate { register_source } && register_source@ == source
        } else {
            step.routes(self.routes, request, source)
        }
    }

    /// Goes on once the credentials have been checked. Only an authenticated call
    /// is routed; any other gets a `401` with the challenge that the SIP stack
    /// made, if it made one.
    pub fn authenticated<'r>(
        &'r self,
        request: &Request,
        peer: &Endpoint,
        register_source: &str,
        check: DigestCheck,
        challenge: Option<String>,
    ) -> (r: (DigestOutcome, InviteStep<'r>))
        ensures
            r.0 == outcome_of(request.value_of("Authorization"@) is Some, check),
            match r.0 {
                DigestOutcome::Authenticated => r.1.routes(self.routes, *request, register_source@),
                DigestOutcome::Challenge { .. } => r.1.replies(
                    *request,
                    401,
                    "Unauthorized"@,
                    challenge_header(challenge),
                    if r.0.audited() {
                        Some(
                            AuditEvent::SipAuth {
                                peer: peer.text@,
                                source: register_source@,
                                result: r.0.label(),
                            },
                        )
                    } else {
                        None
                    },
                ),
            },
    {
        let outcome = evaluate_check(request, check);
        match outcome {
            DigestOutcome::Authenticated => (outcome, self.routed(request, register_source)),
            DigestOutcome::Challenge { stale, had_credentials } => {
                let audit = if stale || had_credentials {
                    Some(
                        AuditEvent::SipAuth {
                            peer: peer.text.clone(),
                            source: register_source.to_owned(),
                            result: outcome.metric_result().to_owned(),
                        },
                    )
                } else {
                    None
                };
                let response = challenge_response(request, challenge);
                (outcome, InviteStep::Reply { response, audit })
            },
        }
    }

    fn routed<'r>(&'r self, request: &Request, register_source: &str) -> (r: InviteStep<'r>)
        ensures
            r.routes(self.routes, *request, register_source@),
    {
        match dispatch_invite(&self.routes, register_source, request) {
            RouteAction::SendFinal(response) => InviteStep::Reply { response, audit: None },
            RouteAction::Accept { facts, route } => InviteStep::Accept { facts, route },
        }
    }

    /// The answer to a BYE; the terminator is told which call it ends.
    pub fn on_bye(&self, terminator: &dyn DialogTerminator, request: &Request) -> (r: Response)
        ensures
            told(terminator, request.call_id_text()),
            r.answers(*request, 200, "OK"@, seq![]),
    {
        match dispatch_bye(terminator, request) {
            DialogAction::SendFinal(response) => response,
        }
    }

    /// The answer to a CANCEL; the terminator is told which call it ends.
    pub fn on_cancel(&self, terminator: &dyn DialogTerminator, request: &Request) -> (r: Response)
        ensures
            told(terminator, request.call_id_text()),
            r.answers(*request, 200, "OK"@, seq![]),
    {
        match dispatch_cancel(terminator, request) {
            DialogAction::SendFinal(response) => response,
        }
    }

    /// The answer to a NOTIFY, and its label.
    pub fn on_notify(&self, request: &Request) -> (r: NotifyDisposition)
        ensures
            ({
                let a = notify_answer(event_of(*request));
                r.response.answers(*request, a.0, a.1, a.2) && r.result@ == a.3
            }),
    {
        dispatch_notify(request)
    }

    /// The call that an ACK is handed to: with or without a body, by its
    /// `Call-ID`.
    pub fn on_ack(&self, request: &Request) -> (r: String)
        ensures
            r@ == request.call_id_text(),
    {
        request.call_id()
    }
}

// ---- What is promised of every request ----

/// A mailbox summary shares its status with transfer progress, never its label.
pub proof fn mailbox_and_transfer_are_told_apart(a: Seq<char>, b: Seq<char>)
    requires
        lower(package_of(a)) == lower("refer"@),
        lower(package_of(b)) == lower("message-summary"@),
    ensures
        notify_answer(Some(a)).0 == notify_answer(Some(b)).0,
        notify_answer(Some(a)).3 != notify_answer(Some(b)).3,
{
    reveal_strlit("refer");
    reveal_strlit("message-summary");
    reveal_strlit("accepted");
    reveal_strlit("ignored");
    assert(lower("refer"@).len() == 5);
    assert(lower("message-summary"@).len() == 15);
    assert("accepted"@.len() == 8);
    assert("ignored"@.len() == 7);
}

/// A NOTIFY is never refused as a method that is not allowed: `NOTIFY` is among
/// the methods that are answered.
pub proof fn a_notify_is_an_allowed_method(event: Option<Seq<char>>)
    ensures
        notify_answer(event).0 != 405,
        exists|i: int| 0 <= i < 6 && (#[trigger] SUPPORTED_METHODS@[i])@ == "NOTIFY"@,
{
    assert(SUPPORTED_METHODS@[5]@ == "NOTIFY"@);
}

/// A source that must authenticate never reaches a route on its name alone.
pub proof fn nobody_is_routed_unauthenticated(
    handler: RoutingHandler,
    digest: InboundDigestAuth,
    step: InviteStep,
    request: Request,
    source: Seq<char>,
)
    requires
        handler.digest_auth == Some(digest),
        digest.must_authenticate(source),
        handler.known_source(step, request, source),
    ensures
        !(step is Accept),
{
}

/// A call from a listed source is asked for its credentials and reaches no route before;
/// where nobody is asked, and where the source is not listed, it is not asked.
pub proof fn a_listed_source_is_always_asked(
    handler: &RoutingHandler,
    auth: InboundDigestAuth,
    request: &Request,
    peer: &Endpoint,
    name: String,
    r: InviteStep<'_>,
    s: InviteStep<'_>,
    i: int,
)
    requires
        call_ensures(
            RoutingHandler::identified,
            (handler, request, peer, SourceAnswer::Resolver(name)),
            r,
        ),
        call_ensures(
            RoutingHandler::identified,
            (handler, request, peer, SourceAnswer::Gate(Some(name))),
            s,
        ),
        handler.digest_auth == Some(auth),
    ensures
        0 <= i < auth.required_trunks@.len() && auth.required_trunks@[i]@ == name@ || auth.require_all
            ==> {
            &&& r matches InviteStep::Authenticate { register_source } && register_source@ == name@
            &&& s matches InviteStep::Authenticate { register_source } && register_source@ == name@
        },
        !auth.require_all && (forall|k: int|
            0 <= k < auth.required_trunks@.len() ==> (#[trigger] auth.required_trunks@[k])@
                != name@) ==> r !is Authenticate && s !is Authenticate,
{
    let all = crate::text::views(auth.required_trunks@);
    if 0 <= i < auth.required_trunks@.len() && auth.required_trunks@[i]@ == name@ {
        assert(all[i] == name@);
    }
    if all.contains(name@) {
        let k = choose|k: int| 0 <= k < all.len() && all[k] == name@;
        assert(auth.required_trunks@[k]@ == name@);
    }
}

/// A peer that no trunk knows is refused with `403`, whatever routes there are, and the
/// refusal goes on record under its address.
pub proof fn an_unknown_peer_is_refused(
    handler: &RoutingHandler,
    request: &Request,
    peer: &Endpoint,
    r: InviteStep<'_>,
)
    requires
        call_ensures(RoutingHandler::identified, (handler, request, peer, SourceAnswer::Gate(None)), r),
    ensures
        r matches InviteStep::Reply { response, audit } && response.code == 403
            && response.reason@ == "Forbidden"@ && (audit matches Some(AuditEvent::InviteRejected {
            peer: at,
            reason,
        }) && at@ == peer.text@ && reason@ == "no_trunk"@),
{
}

/// A call goes where its routes lead it: to the first that fits, or to `404` when none
/// does. What the authentication lets through goes the same way.
pub proof fn a_call_goes_where_its_routes_lead(
    handler: &RoutingHandler,
    request: &Request,
    peer: &Endpoint,
    source: &str,
    check: DigestCheck,
    challenge: Option<String>,
    r: (DigestOutcome, InviteStep<'_>),
    d: RouteDecision<'_>,
)
    requires
        call_ensures(
            RoutingHandler::authenticated,
            (handler, request, peer, source, check, challenge),
            r,
        ),
        call_ensures(route_invite, (request, source, &handler.routes), d),
    ensures
        !check.verified ==> (r.1 matches InviteStep::Reply { response, .. } && response.code == 401
            && response.reason@ == "Unauthorized"@),
        check.verified && d is Matched ==> (r.1 matches InviteStep::Accept { route, .. } && *route
            == *d->route),
        check.verified && d !is Matched ==> (r.1 matches InviteStep::Reply { response, audit }
            && response.code == 404 && response.reason@ == "Not Found"@ && audit is None),
{
}

/// Without digest authentication a call from a known source goes straight to its route.
pub proof fn without_authentication_a_call_is_routed(
    handler: &RoutingHandler,
    request: &Request,
    peer: &Endpoint,
    name: String,
    r: InviteStep<'_>,
    d: RouteDecision<'_>,
    source: &str,
)
    requires
        handler.digest_auth is None,
        source@ == name@,
        call_ensures(
            RoutingHandler::identified,
            (handler, request, peer, SourceAnswer::Resolver(name)),
            r,
        ),
        call_ensures(route_invite, (request, source, &handler.routes), d),
    ensures
        d is Matched ==> (r matches InviteStep::Accept { route, .. } && *route == *d->route),
        d !is Matched ==> (r matches InviteStep::Reply { response, audit } && response.code == 404
            && audit is None),
{
}

/// The first checks, in their order: a request of a dialog is handed to its call and
/// counted nowhere; a flood is shed before anything is said; a node that drains says so
/// with its own delay; anything else goes on to be identified.
pub proof fn the_first_checks_keep_their_order(
    handler: &mut RoutingHandler,
    request: &Request,
    peer: &Endpoint,
    in_dialog: bool,
    draining: bool,
    now: u64,
    active: usize,
    r: (Option<AdmissionReport>, InviteStep<'static>),
)
    requires
        old(handler).wf(),
        call_ensures(
            RoutingHandler::on_invite,
            (handler, request, peer, in_dialog, draining, now, active),
            r,
        ),
    ensures
        in_dialog <==> r.1 is Reinvite,
        in_dialog ==> r.0 is None && *final(handler) == *old(handler),
        !in_dialog && old(handler).admission is None ==> (r.1 is Identify <==> !draining),
        r.1 is Identify ==> !draining,
        draining && !in_dialog && old(handler).admission is None ==> (
        r.1 matches InviteStep::Reply { response, .. } && response.code == 503),
        r.1 matches InviteStep::Reply { response, .. } ==> response.code == 503,
        r.1 !is Accept && r.1 !is Authenticate,
        final(handler).routes == old(handler).routes,
{
}

/// The answer to a NOTIFY goes by its event package alone, in any case and without
/// parameters: transfer progress and mailbox summaries are accepted, each under its own
/// label, any other package is a bad event that names the one allowed, and a request
/// without the header is malformed.
pub proof fn a_notify_is_answered_by_its_package(
    request: &Request,
    r: NotifyDisposition,
    event: Option<&str>,
    compact: Option<&str>,
    name: Seq<char>,
    rest: Seq<char>,
)
    requires
        call_ensures(dispatch_notify, (request,), r),
        call_ensures(Request::header, (request, "Event"), event),
        call_ensures(Request::header, (request, "o"), compact),
    ensures
        ({
            let value = if event is Some {
                event
            } else {
                compact
            };
            &&& value is None <==> r.response.code == 400
            &&& value is None ==> r.result@ == "bad_request"@
            &&& value is Some && (value->0@ == name || value->0@ == name.push(';') + rest)
                && !name.contains(';') ==> {
                &&& lower(trimmed(name)) == lower("refer"@) ==> r.response.code == 200 && r.result@
                    == "accepted"@
                &&& lower(trimmed(name)) == lower("message-summary"@) ==> r.response.code == 200
                    && r.result@ == "ignored"@
                &&& lower(trimmed(name)) != lower("refer"@) && lower(trimmed(name)) != lower(
                    "message-summary"@,
                ) ==> r.response.code == 489 && r.result@ == "bad_event"@
            }
        }),
{
    let value = if event is Some {
        event
    } else {
        compact
    };
    reveal_strlit("refer");
    reveal_strlit("message-summary");
    assert(lower("refer"@).len() == 5);
    assert(lower("message-summary"@).len() == 15);
    if value is Some {
        let v = value->0@;
        crate::text::first_index_is_first(v, ';');
        let i = first_index(v, ';');
        if v == name && !name.contains(';') {
            assert(v.subrange(0, i) =~= name);
        }
        if v == name.push(';') + rest && !name.contains(';') {
            assert(v[name.len() as int] == ';');
            if i < name.len() {
                assert(name[i] == ';');
            }
            assert(v.subrange(0, i) =~= name);
        }
    }
}

/// What the limiter says of an INVITE outside a dialog is what happens to it, before the
/// node so much as looks whether it drains: a reject is answered `503` with the limiter's
/// delay, a drop is not answered, and only what is admitted goes on; while the node drains,
/// that is answered `503` with the node's own delay. Every refusal that is answered goes on
/// record under the peer and its reason.
pub proof fn a_flood_is_shed_before_anything_else(
    handler: &mut RoutingHandler,
    request: &Request,
    peer: &Endpoint,
    draining: bool,
    now: u64,
    active: usize,
    r: (Option<AdmissionReport>, InviteStep<'static>),
    limiter: &mut InviteAdmission,
    d: AdmissionDecision,
    label: &'static str,
    delay: String,
    own: String,
)
    requires
        old(handler).wf(),
        call_ensures(
            RoutingHandler::on_invite,
            (handler, request, peer, false, draining, now, active),
            r,
        ),
        old(handler).admission == Some(*old(limiter)),
        call_ensures(InviteAdmission::check, (limiter, peer.ip, now, active), d),
        call_ensures(AdmissionDecision::metric_result, (&d,), label),
        call_ensures(decimal_string, (2u64,), delay),
        call_ensures(decimal_string, (old(handler).drain_retry_after_secs as u64,), own),
    ensures
        r.0 is Some && r.0->0.result@ == label@ && r.0->0.sources == final(limiter).table().len(),
        final(handler).admission is Some,
        final(handler).admission->0.table() == final(limiter).table(),
        r.1 is Drop <==> d == AdmissionDecision::Drop,
        r.1 is Identify <==> d == AdmissionDecision::Accept && !draining,
        r.1 is Reply <==> d == AdmissionDecision::Reject503 || (d == AdmissionDecision::Accept
            && draining),
        r.1 is Reply ==> {
            let h = r.1->response.headers@;
            let a = r.1->audit;
            &&& r.1->response.code == 503
            &&& h.len() > 0 && h[h.len() - 1].0@ == "Retry-After"@
            &&& d == AdmissionDecision::Reject503 ==> h[h.len() - 1].1@ == delay@
            &&& d == AdmissionDecision::Accept ==> h[h.len() - 1].1@ == own@
            &&& a is Some && a->0 is InviteRejected && a->0->InviteRejected_peer@ == peer.text@
            &&& d == AdmissionDecision::Reject503 ==> a->0->reason@ == "rate_limited"@
            &&& d == AdmissionDecision::Accept ==> a->0->reason@ == "draining"@
        },
{
    if r.1 is Reply {
        let h = r.1->response.headers@;
        let v = header_views(h);
        assert(v.len() == h.len());
        assert(v[h.len() - 1] == (h[h.len() - 1].0@, h[h.len() - 1].1@));
    }
}

/// A call that does not authenticate is answered `401` with the challenge of the SIP stack.
/// It goes on record when it had credentials or a stale nonce, under its peer, its source
/// and its outcome, and not when it was merely asked for the first time.
pub proof fn a_failed_authentication_goes_on_record(
    handler: &RoutingHandler,
    request: &Request,
    peer: &Endpoint,
    source: &str,
    check: DigestCheck,
    challenge: Option<String>,
    r: (DigestOutcome, InviteStep<'_>),
    presented: Option<&str>,
    label: &'static str,
)
    requires
        call_ensures(
            RoutingHandler::authenticated,
            (handler, request, peer, source, check, challenge),
            r,
        ),
        !check.verified,
        call_ensures(Request::header, (request, "Authorization"), presented),
        call_ensures(DigestOutcome::metric_result, (&r.0,), label),
    ensures
        r.1 is Reply && r.1->response.code == 401,
        challenge is Some ==> {
            let h = r.1->response.headers@;
            h.len() > 0 && h[h.len() - 1].0@ == "WWW-Authenticate"@ && h[h.len() - 1].1@
                == challenge->0@
        },
        ({
            let a = r.1->audit;
            &&& a is Some <==> presented is Some || check.ttl_stale || check.reuse_expired
            &&& a is Some ==> a->0 is SipAuth && a->0->SipAuth_peer@ == peer.text@
                && a->0->source@ == source@ && a->0->result@ == label@
        }),
{
    if challenge is Some {
        let h = r.1->response.headers@;
        let v = header_views(h);
        assert(v.len() == h.len());
        assert(v[h.len() - 1] == (h[h.len() - 1].0@, h[h.len() - 1].1@));
    }
}

/// The decision of routing alone: the route that takes the call, or `404`.
pub proof fn a_call_without_a_route_is_not_found(
    routes: &RouteSet,
    source: &str,
    request: &Request,
    r: RouteAction<'_>,
    d: RouteDecision<'_>,
)
    requires
        call_ensures(dispatch_invite, (routes, source, request), r),
        call_ensures(route_invite, (request, source, routes), d),
    ensures
        r is Accept <==> d is Matched,
        d is Matched ==> *r->route == *d->route,
        r is SendFinal ==> r->SendFinal_0.code == 404 && r->SendFinal_0.reason@ == "Not Found"@,
{
}

/// A draining node answers a new INVITE `503` with its delay, one that does not drain
/// nothing.
pub proof fn a_draining_node_asks_to_come_back(
    draining: bool,
    secs: u32,
    request: &Request,
    r: Option<Response>,
    delay: String,
)
    requires
        call_ensures(drain_response, (draining, secs, request), r),
        call_ensures(decimal_string, (secs as u64,), delay),
    ensures
        r is Some <==> draining,
        r is Some ==> {
            let h = r->0.headers@;
            &&& r->0.code == 503
            &&& h.len() > 0 && h[h.len() - 1].0@ == "Retry-After"@
            &&& h[h.len() - 1].1@ == delay@
        },
{
    if r is Some {
        let h = r->0.headers@;
        let v = header_views(h);
        assert(v.len() == h.len());
        assert(v[h.len() - 1] == (h[h.len() - 1].0@, h[h.len() - 1].1@));
    }
}

/// A handler starts with its routes alone and a delay of five seconds; each setting changes
/// itself and nothing else.
pub proof fn each_setting_is_set_alone(
    routes: RouteSet,
    plain: RoutingHandler,
    secs: u32,
    drained: RoutingHandler,
    auth: InboundDigestAuth,
    asking: RoutingHandler,
    limiter: InviteAdmission,
    limited: RoutingHandler,
    shown: &RouteSet,
)
    requires
        call_ensures(RoutingHandler::new, (routes,), plain),
        call_ensures(RoutingHandler::with_drain, (plain, secs), drained),
        call_ensures(RoutingHandler::with_digest_auth, (drained, auth), asking),
        call_ensures(RoutingHandler::with_admission, (asking, limiter), limited),
        call_ensures(RoutingHandler::routes, (&limited,), shown),
    ensures
        plain.drain_retry_after_secs == 5,
        plain.digest_auth is None && plain.admission is None,
        drained.drain_retry_after_secs == secs,
        drained.digest_auth is None && drained.admission is None,
        asking.digest_auth == Some(auth) && asking.admission is None,
        limited.digest_auth == Some(auth),
        limited.admission == Some(limiter),
        limited.drain_retry_after_secs == secs,
        *shown == routes,
{
}

/// An ACK goes to the call of its `Call-ID`, and the handler answers a NOTIFY as the
/// dispatch does. The methods that are answered are these six.
pub proof fn the_handler_answers_six_methods(
    handler: &RoutingHandler,
    request: &Request,
    id: String,
    call: String,
    a: NotifyDisposition,
    b: NotifyDisposition,
    m: [&'static str; 6],
)
    requires
        call_ensures(RoutingHandler::on_ack, (handler, request), id),
        call_ensures(Request::call_id, (request,), call),
        call_ensures(RoutingHandler::on_notify, (handler, request), a),
        call_ensures(dispatch_notify, (request,), b),
        call_ensures(RoutingHandler::supported_methods, (handler,), m),
    ensures
        id@ == call@,
        a.response.code == b.response.code,
        a.result@ == b.result@,
        m@[0]@ == "INVITE"@ && m@[1]@ == "ACK"@ && m@[2]@ == "BYE"@ && m@[3]@ == "CANCEL"@
            && m@[4]@ == "OPTIONS"@ && m@[5]@ == "NOTIFY"@,
{
}

} // verus!
