//! The admin route table: which endpoint a method and a path name.
//!
//! Routes live under `/admin/v1/`; five of them are also served at their original
//! unversioned paths. One of those aliases differs in meaning: the unversioned
//! hangup takes the **SIP** Call-ID, the versioned one the **bridge** call id.
use vstd::prelude::*;

use crate::text::{after, ends_with, has_prefix, has_suffix, pieces, split, starts_with, str_eq, strip_prefix, strip_suffix};

verus! {

/// HTTP methods the admin surface tells apart.
#[derive(Debug, Clone, Copy, PartialEq, Eq, Structural)]
pub enum Method {
    Get,
    Put,
    Post,
    Delete,
    Other,
}

/// Operator write action on one registration binding.
#[derive(Debug, Clone, Copy, PartialEq, Eq, Structural)]
pub enum RegistrationAction {
    /// Immediate off-cycle REGISTER.
    Refresh,
    /// REGISTER with `Expires: 0`, then a fresh REGISTER.
    Restart,
}

impl RegistrationAction {
    pub open spec fn name(self) -> Seq<char> {
        match self {
            RegistrationAction::Refresh => "refresh"@,
            RegistrationAction::Restart => "restart"@,
        }
    }

    pub fn as_str(self) -> (r: &'static str)
        ensures
            r@ == self.name(),
    {
        match self {
            RegistrationAction::Refresh => "refresh",
            RegistrationAction::Restart => "restart",
        }
    }
}

/// Which participant sub-resource a conference path addressed.
#[derive(Debug)]
pub enum ParticipantSel<S> {
    /// The collection: `…/:id/participants`.
    All,
    /// One member: `…/:id/participants/:call_id`.
    One(S),
}

/// An admin endpoint, with the ids taken from the path.
#[derive(Debug)]
pub enum AdminRoute<S> {
    ListCalls,
    ListRegistrations,
    ListTrunks,
    GetLogFilter,
    SetLogFilter,
    HepTest,
    Originate,
    ListConferences,
    CreateConference,
    ListParked,
    DrainStatus,
    DrainStart,
    ListErrors,
    NodeStatus,
    RecentCdrs,
    TriggerRegistration { name: S, action: RegistrationAction },
    Park { call_id: S },
    Retrieve { call_id: S },
    CallStats { call_id: S },
    CallSip { call_id: S },
    /// By bridge call id.
    Hangup { call_id: S },
    /// By SIP Call-ID.
    HangupSip { sip_call_id: S },
    EndConference { room_id: S },
    AddParticipant { room_id: S },
    RemoveParticipant { room_id: S, call_id: S },
    NotFound,
}

/// The view of an optional string.
pub open spec fn opt_view(o: Option<String>) -> Option<Seq<char>> {
    match o {
        Some(s) => Some(s@),
        None => None,
    }
}

impl ParticipantSel<String> {
    pub open spec fn text(self) -> ParticipantSel<Seq<char>> {
        match self {
            ParticipantSel::All => ParticipantSel::All,
            ParticipantSel::One(s) => ParticipantSel::One(s@),
        }
    }
}

impl AdminRoute<String> {
    pub open spec fn text(self) -> AdminRoute<Seq<char>> {
        match self {
            AdminRoute::ListCalls => AdminRoute::ListCalls,
            AdminRoute::ListRegistrations => AdminRoute::ListRegistrations,
            AdminRoute::ListTrunks => AdminRoute::ListTrunks,
            AdminRoute::GetLogFilter => AdminRoute::GetLogFilter,
            AdminRoute::SetLogFilter => AdminRoute::SetLogFilter,
            AdminRoute::HepTest => AdminRoute::HepTest,
            AdminRoute::Originate => AdminRoute::Originate,
            AdminRoute::ListConferences => AdminRoute::ListConferences,
            AdminRoute::CreateConference => AdminRoute::CreateConference,
            AdminRoute::ListParked => AdminRoute::ListParked,
            AdminRoute::DrainStatus => AdminRoute::DrainStatus,
            AdminRoute::DrainStart => AdminRoute::DrainStart,
            AdminRoute::ListErrors => AdminRoute::ListErrors,
            AdminRoute::NodeStatus => AdminRoute::NodeStatus,
            AdminRoute::RecentCdrs => AdminRoute::RecentCdrs,
            AdminRoute::TriggerRegistration { name, action } => AdminRoute::TriggerRegistration {
                name: name@,
                action,
            },
            AdminRoute::Park { call_id } => AdminRoute::Park { call_id: call_id@ },
            AdminRoute::Retrieve { call_id } => AdminRoute::Retrieve { call_id: call_id@ },
            AdminRoute::CallStats { call_id } => AdminRoute::CallStats { call_id: call_id@ },
            AdminRoute::CallSip { call_id } => AdminRoute::CallSip { call_id: call_id@ },
            AdminRoute::Hangup { call_id } => AdminRoute::Hangup { call_id: call_id@ },
            AdminRoute::HangupSip { sip_call_id } => AdminRoute::HangupSip {
                sip_call_id: sip_call_id@,
            },
            AdminRoute::EndConference { room_id } => AdminRoute::EndConference {
                room_id: room_id@,
            },
            AdminRoute::AddParticipant { room_id } => AdminRoute::AddParticipant {
                room_id: room_id@,
            },
            AdminRoute::RemoveParticipant { room_id, call_id } => AdminRoute::RemoveParticipant {
                room_id: room_id@,
                call_id: call_id@,
            },
            AdminRoute::NotFound => AdminRoute::NotFound,
        }
    }
}

/// A path of the form prefix, id, suffix. The two may overlap in the slash between
/// them; the id is then empty.
pub open spec fn framed(path: Seq<char>, prefix: Seq<char>, suffix: Seq<char>) -> bool {
    has_prefix(path, prefix) && has_suffix(path, suffix)
}

/// The id between `prefix` and `suffix`, empty when there is no room for one.
pub open spec fn id_between(path: Seq<char>, prefix: Seq<char>, suffix: Seq<char>) -> Seq<char> {
    let rest = after(path, prefix.len());
    if has_suffix(rest, suffix) {
        rest.subrange(0, rest.len() - suffix.len())
    } else {
        Seq::empty()
    }
}

/// Whether `path` is `prefix`, an id, then `suffix`.
pub fn is_framed(path: &str, prefix: &str, suffix: &str) -> (r: bool)
    ensures
        r == framed(path@, prefix@, suffix@),
{
    starts_with(path, prefix) && ends_with(path, suffix)
}

/// The id of a framed path.
fn framed_id(path: &str, prefix: &str, suffix: &str) -> (r: String)
    requires
        framed(path@, prefix@, suffix@),
    ensures
        r@ == id_between(path@, prefix@, suffix@),
{
    match strip_prefix(path, prefix) {
        Some(rest) => match strip_suffix(rest, suffix) {
            Some(id) => id.to_owned(),
            None => String::new(),
        },
        None => String::new(),
    }
}

/// The room and the participant selector of
/// `/admin/v1/conferences/:id[/participants[/:call_id]]`; no room when the path
/// is malformed.
pub open spec fn conference_parts(path: Seq<char>) -> (
    Option<Seq<char>>,
    Option<ParticipantSel<Seq<char>>>,
) {
    let prefix = "/admin/v1/conferences/"@;
    let segs = pieces(after(path, prefix.len()), '/');
    if !has_prefix(path, prefix) || segs[0].len() == 0 {
        (None, None)
    } else if segs.len() == 1 {
        (Some(segs[0]), None)
    } else if segs[1] != "participants"@ {
        (None, None)
    } else if segs.len() == 2 {
        (Some(segs[0]), Some(ParticipantSel::All))
    } else if segs.len() == 3 && segs[2].len() > 0 {
        (Some(segs[0]), Some(ParticipantSel::One(segs[2])))
    } else {
        (None, None)
    }
}

/// Every text has at least one piece.
proof fn pieces_nonempty(s: Seq<char>, c: char)
    ensures
        pieces(s, c).len() >= 1,
{
}

/// Parse `/admin/v1/conferences/:id[/participants[/:call_id]]`.
pub fn conference_subroute(path: &str) -> (r: (Option<String>, Option<ParticipantSel<String>>))
    ensures
        opt_view(r.0) == conference_parts(path@).0,
        (match r.1 {
            Some(sel) => Some(sel.text()),
            None => None,
        }) == conference_parts(path@).1,
{
    let rest = match strip_prefix(path, "/admin/v1/conferences/") {
        Some(rest) => rest,
        None => return (None, None),
    };
    let segs = split(rest, '/');
    let ghost parts = pieces(rest@, '/');
    proof {
        pieces_nonempty(rest@, '/');
        assert(crate::text::views(segs@).len() == segs@.len());
        assert forall|i: int| 0 <= i < segs@.len() implies (#[trigger] segs@[i])@ == parts[i] by {
            assert(crate::text::views(segs@)[i] == segs@[i]@);
        }
    }
    if segs[0].as_str().is_empty() {
        return (None, None);
    }
    let room = segs[0].clone();
    if segs.len() == 1 {
        return (Some(room), None);
    }
    if !str_eq(segs[1].as_str(), "participants") {
        return (None, None);
    }
    if segs.len() == 2 {
        return (Some(room), Some(ParticipantSel::All));
    }
    if segs.len() == 3 && !segs[2].as_str().is_empty() {
        return (Some(room), Some(ParticipantSel::One(segs[2].clone())));
    }
    (None, None)
}

/// The endpoint that a method and an admin path name.
pub open spec fn endpoint_of(m: Method, p: Seq<char>) -> AdminRoute<Seq<char>> {
    let calls = "/admin/v1/calls/"@;
    let regs = "/admin/v1/registrations/"@;
    if m == Method::Get && (p == "/admin/calls"@ || p == "/admin/v1/calls"@) {
        AdminRoute::ListCalls
    } else if m == Method::Get && (p == "/admin/registrations"@ || p
        == "/admin/v1/registrations"@) {
        AdminRoute::ListRegistrations
    } else if m == Method::Get && p == "/admin/v1/trunks"@ {
        AdminRoute::ListTrunks
    } else if m == Method::Get && (p == "/admin/log"@ || p == "/admin/v1/log"@) {
        AdminRoute::GetLogFilter
    } else if m == Method::Put && (p == "/admin/log"@ || p == "/admin/v1/log"@) {
        AdminRoute::SetLogFilter
    } else if m == Method::Post && (p == "/admin/hep/test"@ || p == "/admin/v1/hep/test"@) {
        AdminRoute::HepTest
    } else if m == Method::Post && p == "/admin/v1/calls"@ {
        AdminRoute::Originate
    } else if m == Method::Get && p == "/admin/v1/conferences"@ {
        AdminRoute::ListConferences
    } else if m == Method::Post && p == "/admin/v1/conferences"@ {
        AdminRoute::CreateConference
    } else if m == Method::Get && p == "/admin/v1/parked"@ {
        AdminRoute::ListParked
    } else if m == Method::Get && p == "/admin/v1/drain"@ {
        AdminRoute::DrainStatus
    } else if m == Method::Post && p == "/admin/v1/drain"@ {
        AdminRoute::DrainStart
    } else if m == Method::Get && p == "/admin/v1/errors"@ {
        AdminRoute::ListErrors
    } else if m == Method::Get && p == "/admin/v1/status"@ {
        AdminRoute::NodeStatus
    } else if m == Method::Get && p == "/admin/v1/cdrs/recent"@ {
        AdminRoute::RecentCdrs
    } else if m == Method::Post && framed(p, regs, "/refresh"@) {
        AdminRoute::TriggerRegistration {
            name: id_between(p, regs, "/refresh"@),
            action: RegistrationAction::Refresh,
        }
    } else if m == Method::Post && framed(p, regs, "/restart"@) {
        AdminRoute::TriggerRegistration {
            name: id_between(p, regs, "/restart"@),
            action: RegistrationAction::Restart,
        }
    } else if m == Method::Post && framed(p, calls, "/park"@) {
        AdminRoute::Park { call_id: id_between(p, calls, "/park"@) }
    } else if m == Method::Post && framed(p, calls, "/retrieve"@) {
        AdminRoute::Retrieve { call_id: id_between(p, calls, "/retrieve"@) }
    } else if m == Method::Get && framed(p, calls, "/stats"@) {
        AdminRoute::CallStats { call_id: id_between(p, calls, "/stats"@) }
    } else if m == Method::Get && framed(p, calls, "/sip"@) {
        AdminRoute::CallSip { call_id: id_between(p, calls, "/sip"@) }
    } else if m == Method::Post && framed(p, calls, "/hangup"@) {
        AdminRoute::Hangup { call_id: id_between(p, calls, "/hangup"@) }
    } else if m == Method::Post && framed(p, "/admin/calls/"@, "/hangup"@) {
        AdminRoute::HangupSip { sip_call_id: id_between(p, "/admin/calls/"@, "/hangup"@) }
    } else {
        conference_endpoint(m, p)
    }
}

/// The conference sub-resource that a method and a path name.
pub open spec fn conference_endpoint(m: Method, p: Seq<char>) -> AdminRoute<Seq<char>> {
    match conference_parts(p) {
        (Some(room_id), None) => if m == Method::Delete {
            AdminRoute::EndConference { room_id }
        } else {
            AdminRoute::NotFound
        },
        (Some(room_id), Some(ParticipantSel::All)) => if m == Method::Post {
            AdminRoute::AddParticipant { room_id }
        } else {
            AdminRoute::NotFound
        },
        (Some(room_id), Some(ParticipantSel::One(call_id))) => if m == Method::Delete {
            AdminRoute::RemoveParticipant { room_id, call_id }
        } else {
            AdminRoute::NotFound
        },
        (None, _) => AdminRoute::NotFound,
    }
}

/// The endpoint named, `None` for a path outside the admin surface.
pub open spec fn route_of(m: Method, p: Seq<char>) -> Option<AdminRoute<Seq<char>>> {
    if has_prefix(p, "/admin"@) {
        Some(endpoint_of(m, p))
    } else {
        None
    }
}

fn conference_route(m: Method, path: &str) -> (r: AdminRoute<String>)
    ensures
        r.text() == conference_endpoint(m, path@),
{
    match conference_subroute(path) {
        (Some(room_id), None) => if m == Method::Delete {
            AdminRoute::EndConference { room_id }
        } else {
            AdminRoute::NotFound
        },
        (Some(room_id), Some(ParticipantSel::All)) => if m == Method::Post {
            AdminRoute::AddParticipant { room_id }
        } else {
            AdminRoute::NotFound
        },
        (Some(room_id), Some(ParticipantSel::One(call_id))) => if m == Method::Delete {
            AdminRoute::RemoveParticipant { room_id, call_id }
        } else {
            AdminRoute::NotFound
        },
        (None, _) => AdminRoute::NotFound,
    }
}

/// The endpoint that `method` and `path` name; `None` for a path outside the
/// admin surface, so the caller can fall through to its own answer.
pub fn route(method: Method, path: &str) -> (r: Option<AdminRoute<String>>)
    ensures
        (match r {
            Some(e) => Some(e.text()),
            None => None,
        }) == route_of(method, path@),
{
    if !starts_with(path, "/admin") {
        return None;
    }
    let m = method;
    let calls = "/admin/v1/calls/";
    let regs = "/admin/v1/registrations/";
    let e = if m == Method::Get && (str_eq(path, "/admin/calls") || str_eq(path, "/admin/v1/calls")) {
        AdminRoute::ListCalls
    } else if m == Method::Get && (str_eq(path, "/admin/registrations") || str_eq(
        path,
        "/admin/v1/registrations",
    )) {
        AdminRoute::ListRegistrations
    } else if m == Method::Get && str_eq(path, "/admin/v1/trunks") {
        AdminRoute::ListTrunks
    } else if m == Method::Get && (str_eq(path, "/admin/log") || str_eq(path, "/admin/v1/log")) {
        AdminRoute::GetLogFilter
    } else if m == Method::Put && (str_eq(path, "/admin/log") || str_eq(path, "/admin/v1/log")) {
        AdminRoute::SetLogFilter
    } else if m == Method::Post && (str_eq(path, "/admin/hep/test") || str_eq(
        path,
        "/admin/v1/hep/test",
    )) {
        AdminRoute::HepTest
    } else if m == Method::Post && str_eq(path, "/admin/v1/calls") {
        AdminRoute::Originate
    } else if m == Method::Get && str_eq(path, "/admin/v1/conferences") {
        AdminRoute::ListConferences
    } else if m == Method::Post && str_eq(path, "/admin/v1/conferences") {
        AdminRoute::CreateConference
    } else if m == Method::Get && str_eq(path, "/admin/v1/parked") {
        AdminRoute::ListParked
    } else if m == Method::Get && str_eq(path, "/admin/v1/drain") {
        AdminRoute::DrainStatus
    } else if m == Method::Post && str_eq(path, "/admin/v1/drain") {
        AdminRoute::DrainStart
    } else if m == Method::Get && str_eq(path, "/admin/v1/errors") {
        AdminRoute::ListErrors
    } else if m == Method::Get && str_eq(path, "/admin/v1/status") {
        AdminRoute::NodeStatus
    } else if m == Method::Get && str_eq(path, "/admin/v1/cdrs/recent") {
        AdminRoute::RecentCdrs
    } else if m == Method::Post && is_framed(path, regs, "/refresh") {
        AdminRoute::TriggerRegistration {
            name: framed_id(path, regs, "/refresh"),
            action: RegistrationAction::Refresh,
        }
    } else if m == Method::Post && is_framed(path, regs, "/restart") {
        AdminRoute::TriggerRegistration {
            name: framed_id(path, regs, "/restart"),
            action: RegistrationAction::Restart,
        }
    } else if m == Method::Post && is_framed(path, calls, "/park") {
        AdminRoute::Park { call_id: framed_id(path, calls, "/park") }
    } else if m == Method::Post && is_framed(path, calls, "/retrieve") {
        AdminRoute::Retrieve { call_id: framed_id(path, calls, "/retrieve") }
    } else if m == Method::Get && is_framed(path, calls, "/stats") {
        AdminRoute::CallStats { call_id: framed_id(path, calls, "/stats") }
    } else if m == Method::Get && is_framed(path, calls, "/sip") {
        AdminRoute::CallSip { call_id: framed_id(path, calls, "/sip") }
    } else if m == Method::Post && is_framed(path, calls, "/hangup") {
        AdminRoute::Hangup { call_id: framed_id(path, calls, "/hangup") }
    } else if m == Method::Post && is_framed(path, "/admin/calls/", "/hangup") {
        AdminRoute::HangupSip { sip_call_id: framed_id(path, "/admin/calls/", "/hangup") }
    } else {
        conference_route(m, path)
    };
    Some(e)
}

// ---- Laws ----

/// A path made of a prefix, an id and a suffix is framed by the two, and the id is what
/// stands between them.
pub proof fn an_id_is_read_between_its_frame(prefix: Seq<char>, id: Seq<char>, suffix: Seq<char>)
    ensures
        framed(prefix + id + suffix, prefix, suffix),
        id_between(prefix + id + suffix, prefix, suffix) == id,
        (prefix + id + suffix).len() == prefix.len() + id.len() + suffix.len(),
        suffix.len() > 0 ==> (prefix + id + suffix).last() == suffix.last(),
{
    let p = prefix + id + suffix;
    assert(p.subrange(0, prefix.len() as int) =~= prefix);
    assert(p.subrange(p.len() - suffix.len(), p.len() as int) =~= suffix);
    let rest = after(p, prefix.len());
    assert(rest =~= id + suffix);
    assert(rest.subrange(rest.len() - suffix.len(), rest.len() as int) =~= suffix);
    assert(rest.subrange(0, rest.len() - suffix.len()) =~= id);
}

/// The last character of a framed path is that of its suffix.
proof fn framed_ends_with(p: Seq<char>, prefix: Seq<char>, suffix: Seq<char>)
    requires
        framed(p, prefix, suffix),
        suffix.len() > 0,
    ensures
        p.len() > 0 && p.last() == suffix.last(),
{
    assert(p.subrange(p.len() - suffix.len(), p.len() as int).last() == p.last());
}

/// An action on one call, or one binding, goes to the endpoint that its last segment
/// names, with the id that the path carries, whatever that id is; and the unversioned
/// hangup takes the SIP id.
pub proof fn actions_on_an_id_reach_their_endpoint(
    m: Method,
    path: &str,
    id: Seq<char>,
    r: Option<AdminRoute<String>>,
)
    requires
        call_ensures(route, (m, path), r),
    ensures
        m == Method::Post && path@ == "/admin/v1/calls/"@ + id + "/hangup"@ ==> (
        r matches Some(AdminRoute::Hangup { call_id }) && call_id@ == id),
        m == Method::Post && path@ == "/admin/calls/"@ + id + "/hangup"@ ==> (
        r matches Some(AdminRoute::HangupSip { sip_call_id }) && sip_call_id@ == id),
        m == Method::Post && path@ == "/admin/v1/calls/"@ + id + "/park"@ ==> (
        r matches Some(AdminRoute::Park { call_id }) && call_id@ == id),
        m == Method::Post && path@ == "/admin/v1/calls/"@ + id + "/retrieve"@ ==> (
        r matches Some(AdminRoute::Retrieve { call_id }) && call_id@ == id),
        m == Method::Get && path@ == "/admin/v1/calls/"@ + id + "/stats"@ ==> (
        r matches Some(AdminRoute::CallStats { call_id }) && call_id@ == id),
        m == Method::Get && path@ == "/admin/v1/calls/"@ + id + "/sip"@ ==> (
        r matches Some(AdminRoute::CallSip { call_id }) && call_id@ == id),
        m == Method::Post && path@ == "/admin/v1/registrations/"@ + id + "/refresh"@ ==> (
        r matches Some(AdminRoute::TriggerRegistration { name, action }) && name@ == id && action
            == RegistrationAction::Refresh),
        m == Method::Post && path@ == "/admin/v1/registrations/"@ + id + "/restart"@ ==> (
        r matches Some(AdminRoute::TriggerRegistration { name, action }) && name@ == id && action
            == RegistrationAction::Restart),
{
    let p = path@;
    let calls = "/admin/v1/calls/"@;
    let old_calls = "/admin/calls/"@;
    let regs = "/admin/v1/registrations/"@;
    an_id_is_read_between_its_frame(calls, id, "/hangup"@);
    an_id_is_read_between_its_frame(old_calls, id, "/hangup"@);
    an_id_is_read_between_its_frame(calls, id, "/park"@);
    an_id_is_read_between_its_frame(calls, id, "/retrieve"@);
    an_id_is_read_between_its_frame(calls, id, "/stats"@);
    an_id_is_read_between_its_frame(calls, id, "/sip"@);
    an_id_is_read_between_its_frame(regs, id, "/refresh"@);
    an_id_is_read_between_its_frame(regs, id, "/restart"@);
    reveal_paths();
    if framed(p, regs, "/refresh"@) {
        framed_ends_with(p, regs, "/refresh"@);
        assert(p[10] == regs[10]) by {
            assert(p.subrange(0, 24)[10] == p[10]);
        }
    }
    if framed(p, regs, "/restart"@) {
        framed_ends_with(p, regs, "/restart"@);
        assert(p[10] == regs[10]) by {
            assert(p.subrange(0, 24)[10] == p[10]);
        }
    }
    if has_prefix(p, calls) {
        assert(p[7] == calls[7] && p[10] == calls[10]) by {
            assert(p.subrange(0, 16)[7] == p[7] && p.subrange(0, 16)[10] == p[10]);
        }
    }
    if has_prefix(p, old_calls) {
        assert(p[7] == old_calls[7]) by {
            assert(p.subrange(0, 13)[7] == p[7]);
        }
    }
    if framed(p, calls, "/park"@) {
        framed_ends_with(p, calls, "/park"@);
    }
    if framed(p, calls, "/retrieve"@) {
        framed_ends_with(p, calls, "/retrieve"@);
    }
    if framed(p, calls, "/stats"@) {
        framed_ends_with(p, calls, "/stats"@);
    }
    if framed(p, calls, "/sip"@) {
        framed_ends_with(p, calls, "/sip"@);
    }
    if framed(p, calls, "/hangup"@) {
        framed_ends_with(p, calls, "/hangup"@);
    }
    if p == calls + id + "/hangup"@ || p == calls + id + "/park"@ || p == calls + id + "/retrieve"@
        || p == calls + id + "/stats"@ || p == calls + id + "/sip"@ {
        assert(has_prefix(p, "/admin"@)) by {
            assert(p.subrange(0, 6) =~= "/admin"@) by {
                assert forall|k: int| 0 <= k < 6 implies p[k] == "/admin"@[k] by {
                    assert(p[k] == calls[k] && calls[k] == "/admin"@[k]);
                }
            }
        }
    }
    if p == old_calls + id + "/hangup"@ {
        assert(has_prefix(p, "/admin"@)) by {
            assert(p.subrange(0, 6) =~= "/admin"@) by {
                assert forall|k: int| 0 <= k < 6 implies p[k] == "/admin"@[k] by {
                    assert(p[k] == old_calls[k] && calls[k] == "/admin"@[k]);
                }
            }
        }
    }
    if p == regs + id + "/refresh"@ || p == regs + id + "/restart"@ {
        assert(has_prefix(p, "/admin"@)) by {
            assert(p.subrange(0, 6) =~= "/admin"@) by {
                assert forall|k: int| 0 <= k < 6 implies p[k] == "/admin"@[k] by {
                    assert(p[k] == regs[k] && calls[k] == "/admin"@[k]);
                }
            }
        }
    }
}

proof fn reveal_paths()
    ensures
        "/admin/v1/calls/"@.len() == 16 && "/admin/v1/calls/"@[7] == 'v' && "/admin/v1/calls/"@[10]
            == 'c',
        "/admin/calls/"@.len() == 13 && "/admin/calls/"@[7] == 'c',
        "/admin/v1/registrations/"@.len() == 24 && "/admin/v1/registrations/"@[10] == 'r',
        "/admin"@.len() == 6,
        forall|k: int|
            0 <= k < 6 ==> "/admin"@[k] == #[trigger] "/admin/v1/calls/"@[k] && "/admin"@[k]
                == "/admin/calls/"@[k] && "/admin"@[k] == "/admin/v1/registrations/"@[k],
        "/hangup"@.len() == 7 && "/hangup"@.last() == 'p',
        "/park"@.len() == 5 && "/park"@.last() == 'k',
        "/retrieve"@.len() == 9 && "/retrieve"@.last() == 'e',
        "/stats"@.len() == 6 && "/stats"@.last() == 's',
        "/sip"@.len() == 4 && "/sip"@.last() == 'p',
        "/refresh"@.len() == 8 && "/refresh"@.last() == 'h',
        "/restart"@.len() == 8 && "/restart"@.last() == 't',
        "/admin/calls"@.len() == 12,
        "/admin/v1/calls"@.len() == 15,
        "/admin/registrations"@.len() == 20 && "/admin/registrations"@[7] == 'r',
        "/admin/v1/registrations"@.len() == 23 && "/admin/v1/registrations"@[10] == 'r',
        "/admin/v1/trunks"@.len() == 16,
        "/admin/log"@.len() == 10,
        "/admin/v1/log"@.len() == 13,
        "/admin/hep/test"@.len() == 15,
        "/admin/v1/hep/test"@.len() == 18,
        "/admin/v1/conferences"@.len() == 21 && "/admin/v1/conferences"@.last() == 's',
        "/admin/v1/conferences"@[11] == 'o',
        "/admin/v1/parked"@.len() == 16,
        "/admin/v1/drain"@.len() == 15,
        "/admin/v1/errors"@.len() == 16,
        "/admin/v1/status"@.len() == 16,
        "/admin/v1/cdrs/recent"@.len() == 21 && "/admin/v1/cdrs/recent"@.last() == 't',
{
    reveal_strlit("/admin/v1/calls/");
    reveal_strlit("/admin/calls/");
    reveal_strlit("/admin/v1/registrations/");
    reveal_strlit("/admin");
    reveal_strlit("/hangup");
    reveal_strlit("/park");
    reveal_strlit("/retrieve");
    reveal_strlit("/stats");
    reveal_strlit("/sip");
    reveal_strlit("/refresh");
    reveal_strlit("/restart");
    reveal_strlit("/admin/calls");
    reveal_strlit("/admin/v1/calls");
    reveal_strlit("/admin/registrations");
    reveal_strlit("/admin/v1/registrations");
    reveal_strlit("/admin/v1/trunks");
    reveal_strlit("/admin/log");
    reveal_strlit("/admin/v1/log");
    reveal_strlit("/admin/hep/test");
    reveal_strlit("/admin/v1/hep/test");
    reveal_strlit("/admin/v1/conferences");
    reveal_strlit("/admin/v1/parked");
    reveal_strlit("/admin/v1/drain");
    reveal_strlit("/admin/v1/errors");
    reveal_strlit("/admin/v1/status");
    reveal_strlit("/admin/v1/cdrs/recent");
}

/// Every endpoint without an id is named by its method and its path, and by no other.
pub proof fn endpoints_are_named_by_method_and_path(
    m: Method,
    path: &str,
    r: Option<AdminRoute<String>>,
)
    requires
        call_ensures(route, (m, path), r),
    ensures
        r is Some <==> exists|t: Seq<char>| path@ == #[trigger] ("/admin"@ + t),
        r matches Some(e) ==> (e is ListCalls <==> m == Method::Get && (path@ == "/admin/calls"@ || path@ == "/admin/v1/calls"@)),
        r matches Some(e) ==> (e is ListRegistrations <==> m == Method::Get && (path@ == "/admin/registrations"@ || path@ == "/admin/v1/registrations"@)),
        r matches Some(e) ==> (e is ListTrunks <==> m == Method::Get && (path@ == "/admin/v1/trunks"@)),
        r matches Some(e) ==> (e is GetLogFilter <==> m == Method::Get && (path@ == "/admin/log"@ || path@ == "/admin/v1/log"@)),
        r matches Some(e) ==> (e is SetLogFilter <==> m == Method::Put && (path@ == "/admin/log"@ || path@ == "/admin/v1/log"@)),
        r matches Some(e) ==> (e is HepTest <==> m == Method::Post && (path@ == "/admin/hep/test"@ || path@ == "/admin/v1/hep/test"@)),
        r matches Some(e) ==> (e is Originate <==> m == Method::Post && (path@ == "/admin/v1/calls"@)),
        r matches Some(e) ==> (e is ListConferences <==> m == Method::Get && (path@ == "/admin/v1/conferences"@)),
        r matches Some(e) ==> (e is CreateConference <==> m == Method::Post && (path@ == "/admin/v1/conferences"@)),
        r matches Some(e) ==> (e is ListParked <==> m == Method::Get && (path@ == "/admin/v1/parked"@)),
        r matches Some(e) ==> (e is DrainStatus <==> m == Method::Get && (path@ == "/admin/v1/drain"@)),
        r matches Some(e) ==> (e is DrainStart <==> m == Method::Post && (path@ == "/admin/v1/drain"@)),
        r matches Some(e) ==> (e is ListErrors <==> m == Method::Get && (path@ == "/admin/v1/errors"@)),
        r matches Some(e) ==> (e is NodeStatus <==> m == Method::Get && (path@ == "/admin/v1/status"@)),
        r matches Some(e) ==> (e is RecentCdrs <==> m == Method::Get && (path@ == "/admin/v1/cdrs/recent"@)),
        m == Method::Get && (path@ == "/admin/calls"@ || path@ == "/admin/v1/calls"@) ==> r is Some,
        m == Method::Get && (path@ == "/admin/registrations"@ || path@ == "/admin/v1/registrations"@) ==> r is Some,
        m == Method::Get && (path@ == "/admin/v1/trunks"@) ==> r is Some,
        m == Method::Get && (path@ == "/admin/log"@ || path@ == "/admin/v1/log"@) ==> r is Some,
        m == Method::Put && (path@ == "/admin/log"@ || path@ == "/admin/v1/log"@) ==> r is Some,
        m == Method::Post && (path@ == "/admin/hep/test"@ || path@ == "/admin/v1/hep/test"@) ==> r is Some,
        m == Method::Post && (path@ == "/admin/v1/calls"@) ==> r is Some,
        m == Method::Get && (path@ == "/admin/v1/conferences"@) ==> r is Some,
        m == Method::Post && (path@ == "/admin/v1/conferences"@) ==> r is Some,
        m == Method::Get && (path@ == "/admin/v1/parked"@) ==> r is Some,
        m == Method::Get && (path@ == "/admin/v1/drain"@) ==> r is Some,
        m == Method::Post && (path@ == "/admin/v1/drain"@) ==> r is Some,
        m == Method::Get && (path@ == "/admin/v1/errors"@) ==> r is Some,
        m == Method::Get && (path@ == "/admin/v1/status"@) ==> r is Some,
        m == Method::Get && (path@ == "/admin/v1/cdrs/recent"@) ==> r is Some,
{
    reveal_paths();
    reveal_strlit("/admin/calls");
    reveal_strlit("/admin/v1/calls");
    reveal_strlit("/admin/registrations");
    reveal_strlit("/admin/v1/registrations");
    reveal_strlit("/admin/v1/trunks");
    reveal_strlit("/admin/log");
    reveal_strlit("/admin/v1/log");
    reveal_strlit("/admin/hep/test");
    reveal_strlit("/admin/v1/hep/test");
    reveal_strlit("/admin/v1/conferences");
    reveal_strlit("/admin/v1/parked");
    reveal_strlit("/admin/v1/drain");
    reveal_strlit("/admin/v1/errors");
    reveal_strlit("/admin/v1/status");
    reveal_strlit("/admin/v1/cdrs/recent");
    reveal_strlit("/admin");
    assert("/admin/v1/calls"@[10] == 'c' && "/admin/hep/test"@[7] == 'h' && "/admin/v1/drain"@[10] == 'd');
    assert("/admin/v1/calls"@[7] == 'v' && "/admin/v1/drain"@[7] == 'v');
    assert("/admin/v1/trunks"@[10] == 't' && "/admin/v1/parked"@[10] == 'p');
    assert("/admin/v1/errors"@[10] == 'e' && "/admin/v1/status"@[10] == 's');
    assert("/admin/v1/conferences"@[11] == 'o' && "/admin/v1/cdrs/recent"@[11] == 'd');
    assert("/admin/calls"@.subrange(0, 6) =~= "/admin"@);
    assert("/admin/v1/calls"@.subrange(0, 6) =~= "/admin"@);
    assert("/admin/registrations"@.subrange(0, 6) =~= "/admin"@);
    assert("/admin/v1/registrations"@.subrange(0, 6) =~= "/admin"@);
    assert("/admin/v1/trunks"@.subrange(0, 6) =~= "/admin"@);
    assert("/admin/log"@.subrange(0, 6) =~= "/admin"@);
    assert("/admin/v1/log"@.subrange(0, 6) =~= "/admin"@);
    assert("/admin/hep/test"@.subrange(0, 6) =~= "/admin"@);
    assert("/admin/v1/hep/test"@.subrange(0, 6) =~= "/admin"@);
    assert("/admin/v1/conferences"@.subrange(0, 6) =~= "/admin"@);
    assert("/admin/v1/parked"@.subrange(0, 6) =~= "/admin"@);
    assert("/admin/v1/drain"@.subrange(0, 6) =~= "/admin"@);
    assert("/admin/v1/errors"@.subrange(0, 6) =~= "/admin"@);
    assert("/admin/v1/status"@.subrange(0, 6) =~= "/admin"@);
    assert("/admin/v1/cdrs/recent"@.subrange(0, 6) =~= "/admin"@);
    if has_prefix(path@, "/admin"@) {
        assert(path@ =~= "/admin"@ + after(path@, 6));
    }
    if exists|t: Seq<char>| path@ == #[trigger] ("/admin"@ + t) {
        let t = choose|t: Seq<char>| path@ == #[trigger] ("/admin"@ + t);
        assert(path@.subrange(0, 6) =~= "/admin"@);
    }
}

/// A text without the separator, then a separator and another text: the first is the
/// first piece, and the pieces of the other follow.
proof fn a_piece_in_front(a: Seq<char>, c: char, b: Seq<char>)
    requires
        !a.contains(c),
    ensures
        pieces(a.push(c) + b, c) == seq![a] + pieces(b, c),
{
    let s = a.push(c) + b;
    crate::text::first_index_is_first(s, c);
    let i = crate::text::first_index(s, c);
    assert(s[a.len() as int] == c);
    if i < a.len() {
        assert(a[i] == c);
    }
    assert(s.subrange(0, i) =~= a);
    assert(s.subrange(i + 1, s.len() as int) =~= b);
}

/// A room is ended, joined and left under its own id: the segment behind
/// `conferences`, whatever it is, names the room, and the one behind `participants`
/// the call.
pub proof fn rooms_and_members_are_named_by_their_segments(
    m: Method,
    path: &str,
    room: Seq<char>,
    call: Seq<char>,
    r: Option<AdminRoute<String>>,
)
    requires
        call_ensures(route, (m, path), r),
        room.len() > 0 && !room.contains('/'),
        call.len() > 0 && !call.contains('/'),
    ensures
        m == Method::Delete && path@ == "/admin/v1/conferences/"@ + room ==> (
        r matches Some(AdminRoute::EndConference { room_id }) && room_id@ == room),
        m == Method::Post && path@ == "/admin/v1/conferences/"@ + (room + "/participants"@) ==> (
        r matches Some(AdminRoute::AddParticipant { room_id }) && room_id@ == room),
        m == Method::Delete && path@ == "/admin/v1/conferences/"@ + (room + "/participants/"@
            + call) ==> (r matches Some(AdminRoute::RemoveParticipant { room_id, call_id })
            && room_id@ == room && call_id@ == call),
{
    let p = path@;
    let prefix = "/admin/v1/conferences/"@;
    let rest = after(p, prefix.len());
    reveal_paths();
    reveal_strlit("/admin/v1/conferences/");
    reveal_strlit("/participants");
    reveal_strlit("/participants/");
    reveal_strlit("participants");
    reveal_strlit("/admin");
    let member = "participants"@;
    crate::text::one_piece(room, '/');
    crate::text::one_piece(call, '/');
    assert(!member.contains('/'));
    crate::text::one_piece(member, '/');
    a_piece_in_front(room, '/', member);
    a_piece_in_front(member, '/', call);
    a_piece_in_front(room, '/', member.push('/') + call);
    assert(room + "/participants"@ =~= room.push('/') + member);
    assert(room + "/participants/"@ + call =~= room.push('/') + (member.push('/') + call));
    if p == prefix + room || p == prefix + (room + "/participants"@) || p == prefix + (room
        + "/participants/"@ + call) {
        assert(p.subrange(0, prefix.len() as int) =~= prefix);
        assert(p.subrange(0, 6) =~= "/admin"@);
        assert(p[11] == 'o' && p[10] == 'c' && p[7] == 'v');
        if has_prefix(p, "/admin/v1/calls/"@) {
            reveal_strlit("/admin/v1/calls/");
            assert(p.subrange(0, 16)[11] == p[11]);
        }
        if has_prefix(p, "/admin/calls/"@) {
            assert(p.subrange(0, 13)[7] == p[7]);
        }
        if has_prefix(p, "/admin/v1/registrations/"@) {
            assert(p.subrange(0, 24)[10] == p[10]);
        }
        assert(rest =~= room || rest =~= room + "/participants"@ || rest =~= room
            + "/participants/"@ + call);
        assert(p == prefix + rest);
    }
    if p == prefix + room {
        assert(rest =~= room);
    }
    if p == prefix + (room + "/participants"@) {
        assert(rest =~= room + "/participants"@);
        assert(pieces(rest, '/') =~= seq![room, member]);
    }
    if p == prefix + (room + "/participants/"@ + call) {
        assert(rest =~= room + "/participants/"@ + call);
        assert(pieces(rest, '/') =~= seq![room, member, call]);
    }
}

} // verus!
