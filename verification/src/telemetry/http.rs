//! The answers of the two HTTP surfaces: the open probe surface, and the guard in
//! front of the admin surface.
use vstd::prelude::*;

use crate::telemetry::admin_route::Method;
use crate::telemetry::auth::{authorized, AdminAuth, AdminToken, AuthReject, Role};
use crate::text::str_eq;

verus! {

/// Body byte cap on admin requests.
pub const ADMIN_MAX_BODY: usize = 8192;

/// A ready-made answer.
#[derive(Debug, Clone, Copy)]
pub struct Answer {
    pub status: u16,
    pub content_type: &'static str,
    pub body: &'static str,
}

impl Answer {
    pub open spec fn is(self, status: u16, content_type: Seq<char>, body: Seq<char>) -> bool {
        self.status == status && self.content_type@ == content_type && self.body@ == body
    }
}

/// What the probe surface answers.
#[derive(Debug, Clone, Copy)]
pub enum ProbeAnswer {
    Fixed(Answer),
    /// The rendered metrics, with status 200.
    Metrics { content_type: &'static str },
}

/// The probe surface: health, readiness and metrics. It serves nothing else, and no
/// admin route.
pub fn handle_request(method: Method, path: &str, ready: bool) -> (r: ProbeAnswer)
    ensures
        if method == Method::Get && path@ == "/health"@ {
            r is Fixed && r->Fixed_0.is(200, "text/plain"@, "ok\n"@)
        } else if method == Method::Get && path@ == "/ready"@ {
            r is Fixed && (if ready {
                r->Fixed_0.is(200, "text/plain"@, "ready\n"@)
            } else {
                r->Fixed_0.is(503, "text/plain"@, "not ready\n"@)
            })
        } else if method == Method::Get && path@ == "/metrics"@ {
            r is Metrics && r->content_type@ == "text/plain; version=0.0.4; charset=utf-8"@
        } else {
            r is Fixed && r->Fixed_0.is(404, "text/plain"@, "not found\n"@)
        },
{
    if method == Method::Get && str_eq(path, "/health") {
        return ProbeAnswer::Fixed(
            Answer { status: 200, content_type: "text/plain", body: "ok\n" },
        );
    }
    if method == Method::Get && str_eq(path, "/ready") {
        if ready {
            return ProbeAnswer::Fixed(
                Answer { status: 200, content_type: "text/plain", body: "ready\n" },
            );
        }
        return ProbeAnswer::Fixed(
            Answer { status: 503, content_type: "text/plain", body: "not ready\n" },
        );
    }
    if method == Method::Get && str_eq(path, "/metrics") {
        return ProbeAnswer::Metrics { content_type: "text/plain; version=0.0.4; charset=utf-8" };
    }
    ProbeAnswer::Fixed(Answer { status: 404, content_type: "text/plain", body: "not found\n" })
}

/// What the guard decides in front of the admin surface.
#[derive(Debug)]
pub enum GuardOutcome<'a> {
    /// The request is answered without reading its body.
    Reject {
        answer: Answer,
        /// The answer carries `WWW-Authenticate: Bearer`.
        challenge: bool,
        /// The `role` label of the request counter.
        role: &'static str,
        /// The `result` label of the request counter.
        result: &'static str,
    },
    /// The request goes on, under the matched token.
    Pass { token: &'a AdminToken },
}

/// Authenticate and authorize a request, before its body is read: an
/// unauthenticated caller never makes the daemon buffer its payload.
pub fn handle_admin_request<'a>(
    auth: &'a AdminAuth,
    method: Method,
    path: &str,
    auth_header: Option<&str>,
) -> (r: GuardOutcome<'a>)
    ensures
        match authorized(
            auth.table(),
            method,
            path@,
            match auth_header {
                Some(h) => Some(h@),
                None => None,
            },
        ) {
            Ok(t) => r is Pass && *r->token == t,
            Err(AuthReject::Unauthenticated) => {
                &&& r is Reject
                &&& r->answer.is(401, "application/json"@, "{\"error\":\"unauthenticated\"}"@)
                &&& r->challenge
                &&& r->role@ == "none"@
                &&& r->result@ == "unauthenticated"@
            },
            Err(AuthReject::Forbidden { required, have }) => {
                &&& r is Reject
                &&& r->answer.is(
                    403,
                    "application/json"@,
                    "{\"error\":\"forbidden: insufficient role\"}"@,
                )
                &&& !r->challenge
                &&& r->role@ == have.name()
                &&& r->result@ == "forbidden"@
            },
        },
{
    match auth.authorize(method, path, auth_header) {
        Ok(token) => GuardOutcome::Pass { token },
        Err(AuthReject::Unauthenticated) => GuardOutcome::Reject {
            answer: Answer {
                status: 401,
                content_type: "application/json",
                body: "{\"error\":\"unauthenticated\"}",
            },
            challenge: true,
            role: "none",
            result: "unauthenticated",
        },
        Err(AuthReject::Forbidden { required: _, have }) => GuardOutcome::Reject {
            answer: Answer {
                status: 403,
                content_type: "application/json",
                body: "{\"error\":\"forbidden: insufficient role\"}",
            },
            challenge: false,
            role: have.as_str(),
            result: "forbidden",
        },
    }
}

/// The answer to an admin request body that could not be read within the cap;
/// `None` when it could. `read` is the number of bytes, `None` when reading failed.
pub fn body_refusal(read: Option<usize>) -> (r: Option<Answer>)
    ensures
        match r {
            None => read is Some && read->0 <= ADMIN_MAX_BODY,
            Some(a) => (read is None || read->0 > ADMIN_MAX_BODY) && a.is(
                413,
                "application/json"@,
                "{\"error\":\"admin request body exceeds 8 KiB\"}"@,
            ),
        },
{
    let within = match read {
        Some(n) => n <= ADMIN_MAX_BODY,
        None => false,
    };
    if within {
        None
    } else {
        Some(
            Answer {
                status: 413,
                content_type: "application/json",
                body: "{\"error\":\"admin request body exceeds 8 KiB\"}",
            },
        )
    }
}

/// The `result` label of an authorized request, from the status that its endpoint
/// answered with; `None` for a path outside the admin surface. An unknown route and
/// a stale id are both `not_found`; every other failure is `error`.
pub fn request_result(status: Option<u16>) -> (r: &'static str)
    ensures
        r@ == (if status is None || status->0 == 404 {
            "not_found"@
        } else if status->0 >= 400 {
            "error"@
        } else {
            "ok"@
        }),
{
    match status {
        None => "not_found",
        Some(s) => if s == 404 {
            "not_found"
        } else if s >= 400 {
            "error"
        } else {
            "ok"
        },
    }
}

/// The answer to an authenticated request outside the admin surface.
pub fn unknown_path() -> (r: Answer)
    ensures
        r.is(404, "text/plain"@, "not found\n"@),
{
    Answer { status: 404, content_type: "text/plain", body: "not found\n" }
}

// ---- What is promised of every request ----

/// The probe surface answers a GET of its three paths and nothing else; readiness decides
/// between 200 and 503 on `/ready` and makes no difference anywhere else.
pub proof fn the_probe_surface_answers_three_paths(
    method: Method,
    path: &str,
    ready: bool,
    r: ProbeAnswer,
    other: ProbeAnswer,
)
    requires
        call_ensures(handle_request, (method, path, ready), r),
        call_ensures(handle_request, (method, path, !ready), other),
    ensures
        r is Metrics <==> method is Get && path@ == "/metrics"@,
        r is Fixed && r->Fixed_0.status == 200 <==> method is Get && (path@ == "/health"@ || path@
            == "/ready"@ && ready),
        r is Fixed && r->Fixed_0.status == 503 <==> method is Get && path@ == "/ready"@ && !ready,
        r is Fixed ==> r->Fixed_0.status == 200 || r->Fixed_0.status == 503 || r->Fixed_0.status
            == 404,
        path@ != "/ready"@ ==> (r is Fixed <==> other is Fixed) && (r is Fixed
            ==> r->Fixed_0.status == other->Fixed_0.status && r->Fixed_0.body@
            == other->Fixed_0.body@),
{
    reveal_strlit("/health");
    reveal_strlit("/ready");
    reveal_strlit("/metrics");
    assert("/health"@.len() == 7);
    assert("/ready"@.len() == 6);
    assert("/metrics"@.len() == 8);
}

/// The guard lets a request through exactly when it is authorized, and under the token that
/// authorized it. A caller it does not know is answered 401 with a challenge; a known one
/// whose role is too low is answered 403 without, and counted under that role.
pub proof fn the_guard_follows_the_authorization(
    auth: &AdminAuth,
    method: Method,
    path: &str,
    header: Option<&str>,
    a: Result<&AdminToken, AuthReject>,
    r: GuardOutcome<'_>,
    role: &'static str,
)
    requires
        call_ensures(AdminAuth::authorize, (auth, method, path, header), a),
        call_ensures(handle_admin_request, (auth, method, path, header), r),
        a is Err && a->Err_0 is Forbidden ==> call_ensures(
            Role::as_str,
            (a->Err_0->have,),
            role,
        ),
    ensures
        r is Pass <==> a is Ok,
        a is Ok ==> *r->token == *a->Ok_0,
        a is Err && a->Err_0 is Unauthenticated ==> {
            &&& r->answer.status == 401
            &&& r->challenge
            &&& r->role@ == "none"@
            &&& r->result@ == "unauthenticated"@
        },
        a is Err && a->Err_0 is Forbidden ==> {
            &&& r->answer.status == 403
            &&& !r->challenge
            &&& r->role@ == role@
            &&& r->result@ == "forbidden"@
        },
{
}

/// A body of at most 8192 bytes that could be read is taken; every other is answered 413.
pub proof fn a_body_is_taken_up_to_its_cap(read: Option<usize>, r: Option<Answer>)
    requires
        call_ensures(body_refusal, (read,), r),
    ensures
        r is None <==> read is Some && read->0 <= 8192,
        r is Some ==> r->0.status == 413,
{
}

/// A request is counted as a success below 400, as not found at 404 or outside the admin
/// surface, and as an error otherwise.
pub proof fn a_request_is_counted_by_its_status(status: Option<u16>, r: &'static str, u: Answer)
    requires
        call_ensures(request_result, (status,), r),
        call_ensures(unknown_path, (), u),
    ensures
        r@ == "ok"@ <==> status is Some && status->0 < 400,
        r@ == "not_found"@ <==> status is None || status->0 == 404,
        r@ == "error"@ <==> status is Some && status->0 >= 400 && status->0 != 404,
        u.status == 404,
{
    reveal_strlit("ok");
    reveal_strlit("not_found");
    reveal_strlit("error");
    assert("ok"@.len() == 2);
    assert("not_found"@.len() == 9);
    assert("error"@.len() == 5);
}

} // verus!
