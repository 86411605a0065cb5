//! Lifecycle events. Times are milliseconds since the Unix epoch.
use vstd::prelude::*;

verus! {

/// The version of the event schema.
pub const WEBHOOK_VERSION: u32 = 1;

/// One lifecycle event.
#[derive(Debug, Clone, PartialEq, Eq)]
pub enum WebhookEvent {
    CallStart(CallStartEvent),
    CallEnd(CallEndEvent),
    RegistrationStateChanged(RegistrationStateChangedEvent),
    OutboundInitiated(OutboundInitiatedEvent),
    OutboundAnswered(OutboundAnsweredEvent),
    OutboundFailed(OutboundFailedEvent),
}

/// An inbound call was answered.
#[derive(Debug, Clone, PartialEq, Eq)]
pub struct CallStartEvent {
    pub version: u32,
    pub call_id: String,
    pub sip_call_id: String,
    pub timestamp: i64,
    pub from: String,
    pub to: String,
    pub route: String,
    pub ws_url: String,
}

/// A call ended.
#[derive(Debug, Clone, PartialEq, Eq)]
pub struct CallEndEvent {
    pub version: u32,
    pub call_id: String,
    pub sip_call_id: String,
    pub timestamp: i64,
    pub from: String,
    pub to: String,
    pub route: String,
    pub ws_url: String,
    pub duration_ms: u64,
    pub termination_cause: String,
}

/// A registration changed its status. `previous_status` is `None` on the first report.
#[derive(Debug, Clone, PartialEq, Eq)]
pub struct RegistrationStateChangedEvent {
    pub version: u32,
    pub name: String,
    pub timestamp: i64,
    pub status: String,
    pub previous_status: Option<String>,
    pub last_error: Option<String>,
    pub expires_at: Option<i64>,
}

/// An outbound call is being placed.
#[derive(Debug, Clone, PartialEq, Eq)]
pub struct OutboundInitiatedEvent {
    pub version: u32,
    pub call_id: String,
    pub timestamp: i64,
    pub to: String,
    pub gateway: String,
}

/// The callee of an outbound call answered.
#[derive(Debug, Clone, PartialEq, Eq)]
pub struct OutboundAnsweredEvent {
    pub version: u32,
    pub call_id: String,
    pub sip_call_id: String,
    pub timestamp: i64,
}

/// An outbound call ended without an answer. Nothing follows with its `call_id`.
#[derive(Debug, Clone, PartialEq, Eq)]
pub struct OutboundFailedEvent {
    pub version: u32,
    pub call_id: String,
    pub timestamp: i64,
    pub cause: String,
}

impl WebhookEvent {
    /// The `type` of each event on the wire.
    pub open spec fn type_text(self) -> Seq<char> {
        match self {
            WebhookEvent::CallStart(_) => "call_start"@,
            WebhookEvent::CallEnd(_) => "call_end"@,
            WebhookEvent::RegistrationStateChanged(_) => "registration_state_changed"@,
            WebhookEvent::OutboundInitiated(_) => "outbound_initiated"@,
            WebhookEvent::OutboundAnswered(_) => "outbound_answered"@,
            WebhookEvent::OutboundFailed(_) => "outbound_failed"@,
        }
    }

    /// The `type` of this event on the wire.
    pub fn type_str(&self) -> (r: &'static str)
        ensures
            r@ == self.type_text(),
    {
        match self {
            WebhookEvent::CallStart(_) => "call_start",
            WebhookEvent::CallEnd(_) => "call_end",
            WebhookEvent::RegistrationStateChanged(_) => "registration_state_changed",
            WebhookEvent::OutboundInitiated(_) => "outbound_initiated",
            WebhookEvent::OutboundAnswered(_) => "outbound_answered",
            WebhookEvent::OutboundFailed(_) => "outbound_failed",
        }
    }

    /// The call that an event is about; a registration is about none.
    pub open spec fn call(self) -> Option<Seq<char>> {
        match self {
            WebhookEvent::CallStart(e) => Some(e.call_id@),
            WebhookEvent::CallEnd(e) => Some(e.call_id@),
            WebhookEvent::RegistrationStateChanged(_) => None,
            WebhookEvent::OutboundInitiated(e) => Some(e.call_id@),
            WebhookEvent::OutboundAnswered(e) => Some(e.call_id@),
            WebhookEvent::OutboundFailed(e) => Some(e.call_id@),
        }
    }

    /// The call that this event is about; a registration is about none.
    pub fn call_id(&self) -> (r: Option<&str>)
        ensures
            match r {
                Some(id) => self.call() == Some(id@),
                None => self.call() is None,
            },
    {
        match self {
            WebhookEvent::CallStart(e) => Some(e.call_id.as_str()),
            WebhookEvent::CallEnd(e) => Some(e.call_id.as_str()),
            WebhookEvent::RegistrationStateChanged(_) => None,
            WebhookEvent::OutboundInitiated(e) => Some(e.call_id.as_str()),
            WebhookEvent::OutboundAnswered(e) => Some(e.call_id.as_str()),
            WebhookEvent::OutboundFailed(e) => Some(e.call_id.as_str()),
        }
    }
}

/// Two events with one `type` are events of one sort.
pub proof fn types_tell_events_apart(a: WebhookEvent, b: WebhookEvent)
    requires
        a.type_text() == b.type_text(),
    ensures
        a is CallStart <==> b is CallStart,
        a is CallEnd <==> b is CallEnd,
        a is RegistrationStateChanged <==> b is RegistrationStateChanged,
        a is OutboundInitiated <==> b is OutboundInitiated,
        a is OutboundAnswered <==> b is OutboundAnswered,
        a is OutboundFailed <==> b is OutboundFailed,
{
    reveal_strlit("call_start");
    assert("call_start"@.len() == 10);
    reveal_strlit("call_end");
    assert("call_end"@.len() == 8);
    reveal_strlit("registration_state_changed");
    assert("registration_state_changed"@.len() == 26);
    reveal_strlit("outbound_initiated");
    assert("outbound_initiated"@.len() == 18);
    reveal_strlit("outbound_answered");
    assert("outbound_answered"@.len() == 17);
    reveal_strlit("outbound_failed");
    assert("outbound_failed"@.len() == 15);
}

/// Each sort of event has its own `type` on the wire.
pub proof fn each_event_has_its_type(e: &WebhookEvent, r: &'static str)
    requires
        call_ensures(WebhookEvent::type_str, (e,), r),
    ensures
        r@ == "call_start"@ <==> *e is CallStart,
        r@ == "call_end"@ <==> *e is CallEnd,
        r@ == "registration_state_changed"@ <==> *e is RegistrationStateChanged,
        r@ == "outbound_initiated"@ <==> *e is OutboundInitiated,
        r@ == "outbound_answered"@ <==> *e is OutboundAnswered,
        r@ == "outbound_failed"@ <==> *e is OutboundFailed,
{
    reveal_strlit("call_start");
    assert("call_start"@.len() == 10);
    reveal_strlit("call_end");
    assert("call_end"@.len() == 8);
    reveal_strlit("registration_state_changed");
    assert("registration_state_changed"@.len() == 26);
    reveal_strlit("outbound_initiated");
    assert("outbound_initiated"@.len() == 18);
    reveal_strlit("outbound_answered");
    assert("outbound_answered"@.len() == 17);
    reveal_strlit("outbound_failed");
    assert("outbound_failed"@.len() == 15);
}

/// An event is about the call that it names; one on a registration is about none.
pub proof fn an_event_is_about_its_call(e: &WebhookEvent, r: Option<&str>)
    requires
        call_ensures(WebhookEvent::call_id, (e,), r),
    ensures
        r is None <==> *e is RegistrationStateChanged,
        *e is CallStart ==> r->0@ == e->CallStart_0.call_id@,
        *e is CallEnd ==> r->0@ == e->CallEnd_0.call_id@,
        *e is OutboundInitiated ==> r->0@ == e->OutboundInitiated_0.call_id@,
        *e is OutboundAnswered ==> r->0@ == e->OutboundAnswered_0.call_id@,
        *e is OutboundFailed ==> r->0@ == e->OutboundFailed_0.call_id@,
{
}

} // verus!
