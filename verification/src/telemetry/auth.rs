//! Admin API authentication and role-based authorization.
//!
//! A bearer token is hashed and compared in constant time against the configured
//! tokens; each token carries one [`Role`], and every endpoint has a minimum role.
use vstd::prelude::*;

use sha2::{Digest, Sha256};
use subtle::ConstantTimeEq;

use crate::telemetry::admin_route::{framed, is_framed, AdminRoute, Method};
use crate::text::{contains, ends_with, first_index, has_infix, has_prefix, has_suffix, lower, split_once, starts_with, str_eq, to_ascii_lowercase, trim, trimmed};

verus! {

/// Admin authorization role. Nested: `ReadOnly` < `Operator` < `Admin`, so an
/// endpoint's minimum role is satisfied by any role at or above it.
#[derive(Debug, Clone, Copy, PartialEq, Eq, PartialOrd, Ord, Structural)]
pub enum Role {
    /// `GET` and list endpoints. Cannot change call or daemon state.
    ReadOnly,
    /// Live-call control: hangup, park, retrieve, conference and participant
    /// management, registration triggers, and the verbatim SIP ladder.
    Operator,
    /// Everything `Operator` can do, plus the dangerous, billable or
    /// observability-blinding actions: originate, change the log filter, emit HEP
    /// probes, start a drain.
    Admin,
}

impl Role {
    /// The role's place in the order.
    pub open spec fn level(self) -> nat {
        match self {
            Role::ReadOnly => 0,
            Role::Operator => 1,
            Role::Admin => 2,
        }
    }

    /// The role's wire string.
    pub open spec fn name(self) -> Seq<char> {
        match self {
            Role::ReadOnly => "readonly"@,
            Role::Operator => "operator"@,
            Role::Admin => "admin"@,
        }
    }

    fn rank(self) -> (r: u8)
        ensures
            r == self.level(),
    {
        match self {
            Role::ReadOnly => 0,
            Role::Operator => 1,
            Role::Admin => 2,
        }
    }

    /// Whether this role satisfies the minimum `required`.
    pub fn at_least(self, required: Role) -> (r: bool)
        ensures
            r == (self.level() >= required.level()),
    {
        self.rank() >= required.rank()
    }

    /// Canonical lowercase wire string (config value and audit label).
    pub fn as_str(self) -> (r: &'static str)
        ensures
            r@ == self.name(),
    {
        match self {
            Role::ReadOnly => "readonly",
            Role::Operator => "operator",
            Role::Admin => "admin",
        }
    }

    /// Parse a config `role` string. Case-sensitive; unknown strings are rejected.
    pub fn parse(s: &str) -> (r: Option<Role>)
        ensures
            match r {
                Some(role) => s@ == role.name(),
                None => s@ != "readonly"@ && s@ != "operator"@ && s@ != "admin"@,
            },
    {
        if str_eq(s, "readonly") {
            Some(Role::ReadOnly)
        } else if str_eq(s, "operator") {
            Some(Role::Operator)
        } else if str_eq(s, "admin") {
            Some(Role::Admin)
        } else {
            None
        }
    }
}

/// The wire strings tell the roles apart, so parsing inverts printing.
pub proof fn role_names_are_distinct(a: Role, b: Role)
    ensures
        a.name() == b.name() <==> a == b,
{
    reveal_strlit("readonly");
    reveal_strlit("operator");
    reveal_strlit("admin");
    assert("readonly"@.len() == 8);
    assert("operator"@.len() == 8);
    assert("admin"@.len() == 5);
    assert("readonly"@[0] == 'r');
    assert("operator"@[0] == 'o');
}

/// The SHA-256 digest of `bytes`.
pub uninterp spec fn sha256_digest(bytes: Seq<u8>) -> Seq<u8>;

/// `sha2`'s one-shot `Sha256::digest`. The digest depends on the bytes alone; the
/// algorithm is not spelled out.
#[verifier::external_body]
fn sha256(bytes: &[u8]) -> (r: [u8; 32])
    ensures
        r@ == sha256_digest(bytes@),
{
    Sha256::digest(bytes).into()
}

/// `subtle`'s `ct_eq` on two digests: equality, without branching on where they
/// differ.
#[verifier::external_body]
fn digests_equal(a: &[u8; 32], b: &[u8; 32]) -> (r: bool)
    ensures
        r == (a@ == b@),
{
    bool::from(a.as_slice().ct_eq(b.as_slice()))
}

/// The digest of a text: that of its UTF-8 bytes.
pub open spec fn digest_of(text: Seq<char>) -> Seq<u8> {
    sha256_digest(vstd::utf8::encode_utf8(text))
}

/// A stored digest. No function hands its bytes out; its `Debug` form shows them.
#[derive(Debug, Clone)]
pub struct TokenDigest {
    bytes: [u8; 32],
}

impl TokenDigest {
    pub closed spec fn value(self) -> Seq<u8> {
        self.bytes@
    }
}

/// One configured admin token: a label, the SHA-256 of the secret, and the role it
/// grants. The plaintext is hashed at construction and not retained.
#[derive(Debug, Clone)]
pub struct AdminToken {
    pub name: String,
    pub token_sha256: TokenDigest,
    pub role: Role,
}

impl AdminToken {
    /// The stored digest.
    pub open spec fn digest(self) -> Seq<u8> {
        self.token_sha256.value()
    }

    /// Hash `token` and build the entry.
    pub fn new(name: &str, token: &str, role: Role) -> (r: Self)
        ensures
            r.name@ == name@,
            r.digest() == digest_of(token@),
            r.role == role,
    {
        AdminToken { name: name.to_owned(), token_sha256: TokenDigest { bytes: sha256(token.as_bytes()) }, role }
    }
}

/// The daemon's admin token table.
#[derive(Debug, Clone)]
pub struct AdminAuth {
    tokens: Vec<AdminToken>,
}

/// Why an admin request was rejected.
#[derive(Debug, Clone, Copy, PartialEq, Eq, Structural)]
pub enum AuthReject {
    /// No bearer token, or it matched no configured token.
    Unauthenticated,
    /// Authenticated, but the token's role is below the endpoint's minimum.
    Forbidden { required: Role, have: Role },
}

/// The last token that carries `digest`, if any.
pub open spec fn last_match(tokens: Seq<AdminToken>, digest: Seq<u8>) -> Option<AdminToken>
    decreases tokens.len(),
{
    if tokens.len() == 0 {
        None
    } else if tokens.last().digest() == digest {
        Some(tokens.last())
    } else {
        last_match(tokens.drop_last(), digest)
    }
}

impl Default for AdminAuth {
    fn default() -> (r: Self)
        ensures
            r.table().len() == 0,
    {
        AdminAuth { tokens: Vec::new() }
    }
}

impl AdminAuth {
    /// The configured tokens, in order.
    pub closed spec fn table(self) -> Seq<AdminToken> {
        self.tokens@
    }

    pub fn new(tokens: Vec<AdminToken>) -> (r: Self)
        ensures
            r.table() == tokens@,
    {
        AdminAuth { tokens }
    }

    pub fn is_empty(&self) -> (r: bool)
        ensures
            r == (self.table().len() == 0),
    {
        self.tokens.is_empty()
    }

    /// Number of configured tokens.
    pub fn len(&self) -> (r: usize)
        ensures
            r == self.table().len(),
    {
        self.tokens.len()
    }

    /// The configured tokens (name and role; the digest is never exposed).
    pub fn iter(&self) -> (r: core::slice::Iter<'_, AdminToken>)
        ensures
            vstd::std_specs::iter::IteratorSpec::remaining(&r) == self.table().as_ref(),
    {
        self.tokens.as_slice().iter()
    }

    /// Match a presented token against the table, hashing the candidate once and
    /// comparing every stored digest.
    pub fn authenticate(&self, presented: &str) -> (r: Option<&AdminToken>)
        ensures
            match r {
                Some(t) => last_match(self.table(), digest_of(presented@)) == Some(*t),
                None => last_match(self.table(), digest_of(presented@)) is None,
            },
    {
        let candidate = sha256(presented.as_bytes());
        let mut matched: Option<&AdminToken> = None;
        let mut i: usize = 0;
        while i < self.tokens.len()
            invariant
                i <= self.tokens@.len(),
                candidate@ == digest_of(presented@),
                match matched {
                    Some(t) => last_match(self.tokens@.subrange(0, i as int), candidate@) == Some(
                        *t,
                    ),
                    None => last_match(self.tokens@.subrange(0, i as int), candidate@) is None,
                },
            decreases self.tokens@.len() - i,
        {
            assert(self.tokens@.subrange(0, i + 1).drop_last() =~= self.tokens@.subrange(
                0,
                i as int,
            ));
            if digests_equal(&candidate, &self.tokens[i].token_sha256.bytes) {
                matched = Some(&self.tokens[i]);
            }
            i += 1;
        }
        assert(self.tokens@.subrange(0, i as int) =~= self.tokens@);
        matched
    }

    /// Authenticate the bearer token, then hold its role against the endpoint's
    /// minimum. A path with no minimum role asks for `ReadOnly`, so that only an
    /// authenticated caller learns that the route does not exist.
    pub fn authorize(&self, method: Method, path: &str, auth_header: Option<&str>) -> (r: Result<
        &AdminToken,
        AuthReject,
    >)
        ensures
            (match r {
                Ok(t) => Ok(*t),
                Err(e) => Err(e),
            }) == authorized(
                self.table(),
                method,
                path@,
                match auth_header {
                    Some(h) => Some(h@),
                    None => None,
                },
            ),
    {
        let presented = match auth_header {
            Some(h) => match bearer_token(h) {
                Some(t) => t,
                None => return Err(AuthReject::Unauthenticated),
            },
            None => return Err(AuthReject::Unauthenticated),
        };
        let token = match self.authenticate(presented) {
            Some(t) => t,
            None => return Err(AuthReject::Unauthenticated),
        };
        let required = match min_role(method, path) {
            Some(role) => role,
            None => Role::ReadOnly,
        };
        if token.role.at_least(required) {
            Ok(token)
        } else {
            Err(AuthReject::Forbidden { required, have: token.role })
        }
    }
}

/// The decision on a request with the given `Authorization` value.
pub open spec fn authorized(
    tokens: Seq<AdminToken>,
    method: Method,
    path: Seq<char>,
    header: Option<Seq<char>>,
) -> Result<AdminToken, AuthReject> {
    let presented = match header {
        Some(h) => bearer_of(h),
        None => None,
    };
    match presented {
        None => Err(AuthReject::Unauthenticated),
        Some(p) => match last_match(tokens, digest_of(p)) {
            None => Err(AuthReject::Unauthenticated),
            Some(t) => {
                let required = match min_role_of(method, path) {
                    Some(role) => role,
                    None => Role::ReadOnly,
                };
                if t.role.level() >= required.level() {
                    Ok(t)
                } else {
                    Err(AuthReject::Forbidden { required, have: t.role })
                }
            },
        },
    }
}

/// The token of an `Authorization: Bearer <token>` value.
pub open spec fn bearer_of(header: Seq<char>) -> Option<Seq<char>> {
    let i = first_index(header, ' ');
    if i < header.len() && lower(header.subrange(0, i)) == "bearer"@ {
        let token = trimmed(header.subrange(i + 1, header.len() as int));
        if token.len() > 0 {
            Some(token)
        } else {
            None
        }
    } else {
        None
    }
}

/// Extract the token from an `Authorization: Bearer <token>` value. The scheme is
/// matched case-insensitively; any other shape gives `None`.
pub fn bearer_token(header: &str) -> (r: Option<&str>)
    ensures
        (match r {
            Some(t) => Some(t@),
            None => None,
        }) == bearer_of(header@),
{
    match split_once(header, ' ') {
        None => None,
        Some((scheme, rest)) => {
            if !str_eq(to_ascii_lowercase(scheme).as_str(), "bearer") {
                return None;
            }
            let token = trim(rest);
            if token.is_empty() {
                None
            } else {
                Some(token)
            }
        },
    }
}

/// A parameterised route that operates on live calls, bindings or rooms, or that
/// exposes verbatim signaling.
pub open spec fn operator_path(m: Method, p: Seq<char>) -> bool {
    let calls = "/admin/v1/calls/"@;
    let regs = "/admin/v1/registrations/"@;
    ||| m == Method::Post && framed(p, "/admin/calls/"@, "/hangup"@)
    ||| m == Method::Post && framed(p, calls, "/hangup"@)
    ||| m == Method::Post && framed(p, calls, "/park"@)
    ||| m == Method::Post && framed(p, calls, "/retrieve"@)
    ||| m == Method::Get && framed(p, calls, "/sip"@)
    ||| m == Method::Post && framed(p, regs, "/refresh"@)
    ||| m == Method::Post && framed(p, regs, "/restart"@)
    ||| (m == Method::Delete || m == Method::Post) && has_prefix(p, "/admin/v1/conferences/"@)
}

/// A literal route that only reads.
pub open spec fn readonly_path(p: Seq<char>) -> bool {
    ||| p == "/admin/calls"@
    ||| p == "/admin/v1/calls"@
    ||| p == "/admin/registrations"@
    ||| p == "/admin/v1/registrations"@
    ||| p == "/admin/v1/trunks"@
    ||| p == "/admin/log"@
    ||| p == "/admin/v1/log"@
    ||| p == "/admin/v1/conferences"@
    ||| p == "/admin/v1/parked"@
    ||| p == "/admin/v1/drain"@
    ||| p == "/admin/v1/errors"@
    ||| p == "/admin/v1/status"@
    ||| p == "/admin/v1/cdrs/recent"@
}

/// A literal route that is billable, blinds observability, or stops the daemon
/// from taking calls.
pub open spec fn admin_path(m: Method, p: Seq<char>) -> bool {
    ||| m == Method::Put && (p == "/admin/log"@ || p == "/admin/v1/log"@)
    ||| m == Method::Post && (p == "/admin/hep/test"@ || p == "/admin/v1/hep/test"@)
    ||| m == Method::Post && p == "/admin/v1/calls"@
    ||| m == Method::Post && p == "/admin/v1/drain"@
}

/// The minimum role of an endpoint, `None` when the route is not recognised.
pub open spec fn min_role_of(m: Method, p: Seq<char>) -> Option<Role> {
    if m == Method::Get && readonly_path(p) {
        Some(Role::ReadOnly)
    } else if admin_path(m, p) {
        Some(Role::Admin)
    } else if m == Method::Post && p == "/admin/v1/conferences"@ {
        Some(Role::Operator)
    } else if m == Method::Get && framed(p, "/admin/v1/calls/"@, "/stats"@) {
        Some(Role::ReadOnly)
    } else if operator_path(m, p) {
        Some(Role::Operator)
    } else {
        None
    }
}

fn is_readonly_path(p: &str) -> (r: bool)
    ensures
        r == readonly_path(p@),
{
    str_eq(p, "/admin/calls") || str_eq(p, "/admin/v1/calls") || str_eq(p, "/admin/registrations")
        || str_eq(p, "/admin/v1/registrations") || str_eq(p, "/admin/v1/trunks") || str_eq(
        p,
        "/admin/log",
    ) || str_eq(p, "/admin/v1/log") || str_eq(p, "/admin/v1/conferences") || str_eq(
        p,
        "/admin/v1/parked",
    ) || str_eq(p, "/admin/v1/drain") || str_eq(p, "/admin/v1/errors") || str_eq(
        p,
        "/admin/v1/status",
    ) || str_eq(p, "/admin/v1/cdrs/recent")
}

fn is_admin_path(m: Method, p: &str) -> (r: bool)
    ensures
        r == admin_path(m, p@),
{
    (m == Method::Put && (str_eq(p, "/admin/log") || str_eq(p, "/admin/v1/log"))) || (m
        == Method::Post && (str_eq(p, "/admin/hep/test") || str_eq(p, "/admin/v1/hep/test")
        || str_eq(p, "/admin/v1/calls") || str_eq(p, "/admin/v1/drain")))
}

/// Whether a parameterised route asks for the operator role.
pub fn operator_pattern(method: Method, path: &str) -> (r: bool)
    ensures
        r == operator_path(method, path@),
{
    let m = method;
    let calls = "/admin/v1/calls/";
    let regs = "/admin/v1/registrations/";
    (m == Method::Post && (is_framed(path, "/admin/calls/", "/hangup") || is_framed(
        path,
        calls,
        "/hangup",
    ) || is_framed(path, calls, "/park") || is_framed(path, calls, "/retrieve") || is_framed(
        path,
        regs,
        "/refresh",
    ) || is_framed(path, regs, "/restart"))) || (m == Method::Get && is_framed(path, calls, "/sip"))
        || ((m == Method::Delete || m == Method::Post) && starts_with(
        path,
        "/admin/v1/conferences/",
    ))
}

/// The minimum [`Role`] required for a known admin endpoint, or `None` if the
/// method and path are no recognised admin route.
///
/// - `ReadOnly`: every `GET` and list, but for the SIP ladder.
/// - `Operator`: live-call control, conferences, registration triggers, the ladder.
/// - `Admin`: originate, log-filter change, HEP probe, drain.
pub fn min_role(method: Method, path: &str) -> (r: Option<Role>)
    ensures
        r == min_role_of(method, path@),
{
    if method == Method::Get && is_readonly_path(path) {
        Some(Role::ReadOnly)
    } else if is_admin_path(method, path) {
        Some(Role::Admin)
    } else if method == Method::Post && str_eq(path, "/admin/v1/conferences") {
        Some(Role::Operator)
    } else if method == Method::Get && is_framed(path, "/admin/v1/calls/", "/stats") {
        Some(Role::ReadOnly)
    } else if operator_pattern(method, path) {
        Some(Role::Operator)
    } else {
        None
    }
}

/// The route template of a request: its metric label, with ids collapsed.
/// `"unknown"` for an unrecognised path.
pub open spec fn label_of(m: Method, p: Seq<char>) -> Seq<char> {
    if m == Method::Get && p == "/admin/calls"@ {
        "GET /admin/calls"@
    } else if m == Method::Get && p == "/admin/v1/calls"@ {
        "GET /admin/v1/calls"@
    } else if m == Method::Get && p == "/admin/registrations"@ {
        "GET /admin/registrations"@
    } else if m == Method::Get && p == "/admin/v1/registrations"@ {
        "GET /admin/v1/registrations"@
    } else if m == Method::Get && p == "/admin/v1/trunks"@ {
        "GET /admin/v1/trunks"@
    } else if m == Method::Get && p == "/admin/log"@ {
        "GET /admin/log"@
    } else if m == Method::Get && p == "/admin/v1/log"@ {
        "GET /admin/v1/log"@
    } else if m == Method::Put && p == "/admin/log"@ {
        "PUT /admin/log"@
    } else if m == Method::Put && p == "/admin/v1/log"@ {
        "PUT /admin/v1/log"@
    } else if m == Method::Post && p == "/admin/hep/test"@ {
        "POST /admin/hep/test"@
    } else if m == Method::Post && p == "/admin/v1/hep/test"@ {
        "POST /admin/v1/hep/test"@
    } else if m == Method::Post && p == "/admin/v1/calls"@ {
        "POST /admin/v1/calls"@
    } else if m == Method::Get && p == "/admin/v1/conferences"@ {
        "GET /admin/v1/conferences"@
    } else if m == Method::Post && p == "/admin/v1/conferences"@ {
        "POST /admin/v1/conferences"@
    } else if m == Method::Get && p == "/admin/v1/parked"@ {
        "GET /admin/v1/parked"@
    } else if m == Method::Get && p == "/admin/v1/drain"@ {
        "GET /admin/v1/drain"@
    } else if m == Method::Post && p == "/admin/v1/drain"@ {
        "POST /admin/v1/drain"@
    } else if m == Method::Get && p == "/admin/v1/errors"@ {
        "GET /admin/v1/errors"@
    } else if m == Method::Get && p == "/admin/v1/status"@ {
        "GET /admin/v1/status"@
    } else if m == Method::Get && p == "/admin/v1/cdrs/recent"@ {
        "GET /admin/v1/cdrs/recent"@
    } else if m == Method::Post && framed(p, "/admin/calls/"@, "/hangup"@) {
        "POST /admin/calls/:id/hangup"@
    } else if m == Method::Post && framed(p, "/admin/v1/calls/"@, "/hangup"@) {
        "POST /admin/v1/calls/:id/hangup"@
    } else if m == Method::Get && framed(p, "/admin/v1/calls/"@, "/stats"@) {
        "GET /admin/v1/calls/:id/stats"@
    } else if m == Method::Get && framed(p, "/admin/v1/calls/"@, "/sip"@) {
        "GET /admin/v1/calls/:id/sip"@
    } else if m == Method::Post && framed(p, "/admin/v1/calls/"@, "/park"@) {
        "POST /admin/v1/calls/:id/park"@
    } else if m == Method::Post && framed(p, "/admin/v1/calls/"@, "/retrieve"@) {
        "POST /admin/v1/calls/:id/retrieve"@
    } else if m == Method::Post && framed(p, "/admin/v1/registrations/"@, "/refresh"@) {
        "POST /admin/v1/registrations/:name/refresh"@
    } else if m == Method::Post && framed(p, "/admin/v1/registrations/"@, "/restart"@) {
        "POST /admin/v1/registrations/:name/restart"@
    } else if m == Method::Delete && has_prefix(p, "/admin/v1/conferences/"@) && has_infix(p, "/participants/"@) {
        "DELETE /admin/v1/conferences/:id/participants/:cid"@
    } else if m == Method::Post && has_prefix(p, "/admin/v1/conferences/"@) && has_suffix(p, "/participants"@) {
        "POST /admin/v1/conferences/:id/participants"@
    } else if m == Method::Delete && has_prefix(p, "/admin/v1/conferences/"@) {
        "DELETE /admin/v1/conferences/:id"@
    } else {
        "unknown"@
    }
}

/// A **bounded-cardinality** label for the admin-request metric: the route
/// template (ids collapsed), `"unknown"` for an unrecognised path. Never the raw
/// path, which carries call and room ids.
pub fn route_label(method: Method, path: &str) -> (r: &'static str)
    ensures
        r@ == label_of(method, path@),
{
    let m = method;
    if m == Method::Get && str_eq(path, "/admin/calls") {
        "GET /admin/calls"
    } else if m == Method::Get && str_eq(path, "/admin/v1/calls") {
        "GET /admin/v1/calls"
    } else if m == Method::Get && str_eq(path, "/admin/registrations") {
        "GET /admin/registrations"
    } else if m == Method::Get && str_eq(path, "/admin/v1/registrations") {
        "GET /admin/v1/registrations"
    } else if m == Method::Get && str_eq(path, "/admin/v1/trunks") {
        "GET /admin/v1/trunks"
    } else if m == Method::Get && str_eq(path, "/admin/log") {
        "GET /admin/log"
    } else if m == Method::Get && str_eq(path, "/admin/v1/log") {
        "GET /admin/v1/log"
    } else if m == Method::Put && str_eq(path, "/admin/log") {
        "PUT /admin/log"
    } else if m == Method::Put && str_eq(path, "/admin/v1/log") {
        "PUT /admin/v1/log"
    } else if m == Method::Post && str_eq(path, "/admin/hep/test") {
        "POST /admin/hep/test"
    } else if m == Method::Post && str_eq(path, "/admin/v1/hep/test") {
        "POST /admin/v1/hep/test"
    } else if m == Method::Post && str_eq(path, "/admin/v1/calls") {
        "POST /admin/v1/calls"
    } else if m == Method::Get && str_eq(path, "/admin/v1/conferences") {
        "GET /admin/v1/conferences"
    } else if m == Method::Post && str_eq(path, "/admin/v1/conferences") {
        "POST /admin/v1/conferences"
    } else if m == Method::Get && str_eq(path, "/admin/v1/parked") {
        "GET /admin/v1/parked"
    } else if m == Method::Get && str_eq(path, "/admin/v1/drain") {
        "GET /admin/v1/drain"
    } else if m == Method::Post && str_eq(path, "/admin/v1/drain") {
        "POST /admin/v1/drain"
    } else if m == Method::Get && str_eq(path, "/admin/v1/errors") {
        "GET /admin/v1/errors"
    } else if m == Method::Get && str_eq(path, "/admin/v1/status") {
        "GET /admin/v1/status"
    } else if m == Method::Get && str_eq(path, "/admin/v1/cdrs/recent") {
        "GET /admin/v1/cdrs/recent"
    } else if m == Method::Post && is_framed(path, "/admin/calls/", "/hangup") {
        "POST /admin/calls/:id/hangup"
    } else if m == Method::Post && is_framed(path, "/admin/v1/calls/", "/hangup") {
        "POST /admin/v1/calls/:id/hangup"
    } else if m == Method::Get && is_framed(path, "/admin/v1/calls/", "/stats") {
        "GET /admin/v1/calls/:id/stats"
    } else if m == Method::Get && is_framed(path, "/admin/v1/calls/", "/sip") {
        "GET /admin/v1/calls/:id/sip"
    } else if m == Method::Post && is_framed(path, "/admin/v1/calls/", "/park") {
        "POST /admin/v1/calls/:id/park"
    } else if m == Method::Post && is_framed(path, "/admin/v1/calls/", "/retrieve") {
        "POST /admin/v1/calls/:id/retrieve"
    } else if m == Method::Post && is_framed(path, "/admin/v1/registrations/", "/refresh") {
        "POST /admin/v1/registrations/:name/refresh"
    } else if m == Method::Post && is_framed(path, "/admin/v1/registrations/", "/restart") {
        "POST /admin/v1/registrations/:name/restart"
    } else if m == Method::Delete && starts_with(path, "/admin/v1/conferences/") && contains(path, "/participants/") {
        "DELETE /admin/v1/conferences/:id/participants/:cid"
    } else if m == Method::Post && starts_with(path, "/admin/v1/conferences/") && ends_with(path, "/participants") {
        "POST /admin/v1/conferences/:id/participants"
    } else if m == Method::Delete && starts_with(path, "/admin/v1/conferences/") {
        "DELETE /admin/v1/conferences/:id"
    } else {
        "unknown"
    }
}

/// Every label there is.
pub open spec fn all_labels() -> Seq<Seq<char>> {
    seq![
        "GET /admin/calls"@,
        "GET /admin/v1/calls"@,
        "GET /admin/registrations"@,
        "GET /admin/v1/registrations"@,
        "GET /admin/v1/trunks"@,
        "GET /admin/log"@,
        "GET /admin/v1/log"@,
        "PUT /admin/log"@,
        "PUT /admin/v1/log"@,
        "POST /admin/hep/test"@,
        "POST /admin/v1/hep/test"@,
        "POST /admin/v1/calls"@,
        "GET /admin/v1/conferences"@,
        "POST /admin/v1/conferences"@,
        "GET /admin/v1/parked"@,
        "GET /admin/v1/drain"@,
        "POST /admin/v1/drain"@,
        "GET /admin/v1/errors"@,
        "GET /admin/v1/status"@,
        "GET /admin/v1/cdrs/recent"@,
        "POST /admin/calls/:id/hangup"@,
        "POST /admin/v1/calls/:id/hangup"@,
        "GET /admin/v1/calls/:id/stats"@,
        "GET /admin/v1/calls/:id/sip"@,
        "POST /admin/v1/calls/:id/park"@,
        "POST /admin/v1/calls/:id/retrieve"@,
        "POST /admin/v1/registrations/:name/refresh"@,
        "POST /admin/v1/registrations/:name/restart"@,
        "DELETE /admin/v1/conferences/:id/participants/:cid"@,
        "POST /admin/v1/conferences/:id/participants"@,
        "DELETE /admin/v1/conferences/:id"@,
        "unknown"@,
    ]
}

/// The label of any request, whatever ids its path carries, is one of a fixed list.
pub proof fn labels_are_bounded(m: Method, p: Seq<char>)
    ensures
        all_labels().contains(label_of(m, p)),
{
    let all = all_labels();
    assert(all[0] == "GET /admin/calls"@);
    assert(all[1] == "GET /admin/v1/calls"@);
    assert(all[2] == "GET /admin/registrations"@);
    assert(all[3] == "GET /admin/v1/registrations"@);
    assert(all[4] == "GET /admin/v1/trunks"@);
    assert(all[5] == "GET /admin/log"@);
    assert(all[6] == "GET /admin/v1/log"@);
    assert(all[7] == "PUT /admin/log"@);
    assert(all[8] == "PUT /admin/v1/log"@);
    assert(all[9] == "POST /admin/hep/test"@);
    assert(all[10] == "POST /admin/v1/hep/test"@);
    assert(all[11] == "POST /admin/v1/calls"@);
    assert(all[12] == "GET /admin/v1/conferences"@);
    assert(all[13] == "POST /admin/v1/conferences"@);
    assert(all[14] == "GET /admin/v1/parked"@);
    assert(all[15] == "GET /admin/v1/drain"@);
    assert(all[16] == "POST /admin/v1/drain"@);
    assert(all[17] == "GET /admin/v1/errors"@);
    assert(all[18] == "GET /admin/v1/status"@);
    assert(all[19] == "GET /admin/v1/cdrs/recent"@);
    assert(all[20] == "POST /admin/calls/:id/hangup"@);
    assert(all[21] == "POST /admin/v1/calls/:id/hangup"@);
    assert(all[22] == "GET /admin/v1/calls/:id/stats"@);
    assert(all[23] == "GET /admin/v1/calls/:id/sip"@);
    assert(all[24] == "POST /admin/v1/calls/:id/park"@);
    assert(all[25] == "POST /admin/v1/calls/:id/retrieve"@);
    assert(all[26] == "POST /admin/v1/registrations/:name/refresh"@);
    assert(all[27] == "POST /admin/v1/registrations/:name/restart"@);
    assert(all[28] == "DELETE /admin/v1/conferences/:id/participants/:cid"@);
    assert(all[29] == "POST /admin/v1/conferences/:id/participants"@);
    assert(all[30] == "DELETE /admin/v1/conferences/:id"@);
    assert(all[31] == "unknown"@);
}

/// The role table mirrors the route table: every endpoint that the route table
/// serves has a minimum role.
pub proof fn every_served_endpoint_has_a_minimum_role(m: Method, p: Seq<char>)
    requires
        crate::telemetry::admin_route::route_of(m, p) is Some,
        crate::telemetry::admin_route::route_of(m, p)->0 !is NotFound,
    ensures
        min_role_of(m, p) is Some,
{
}

/// An endpoint that changes state is never open to a read-only token.
pub proof fn readonly_endpoints_only_read(m: Method, p: Seq<char>)
    requires
        min_role_of(m, p) == Some(Role::ReadOnly),
    ensures
        m == Method::Get,
{
}

/// A request without a token that matches is never authorized, whatever it asks.
pub proof fn no_token_no_access(tokens: Seq<AdminToken>, m: Method, p: Seq<char>, h: Option<Seq<char>>)
    requires
        authorized(tokens, m, p, h) is Ok,
    ensures
        h is Some,
        bearer_of(h->0) is Some,
        exists|i: int|
            0 <= i < tokens.len() && #[trigger] tokens[i] == authorized(tokens, m, p, h)->Ok_0
                && tokens[i].digest() == digest_of(bearer_of(h->0)->0),
{
    last_match_is_member(tokens, digest_of(bearer_of(h->0)->0));
}

proof fn last_match_is_member(tokens: Seq<AdminToken>, digest: Seq<u8>)
    ensures
        match last_match(tokens, digest) {
            Some(t) => t.digest() == digest && exists|i: int|
                0 <= i < tokens.len() && #[trigger] tokens[i] == t,
            None => true,
        },
    decreases tokens.len(),
{
    if tokens.len() > 0 {
        if tokens.last().digest() == digest {
            assert(tokens[tokens.len() - 1] == tokens.last());
        } else {
            last_match_is_member(tokens.drop_last(), digest);
            if last_match(tokens, digest) is Some {
                let t = last_match(tokens, digest)->0;
                let i = choose|i: int|
                    0 <= i < tokens.drop_last().len() && #[trigger] tokens.drop_last()[i] == t;
                assert(tokens[i] == t);
            }
        }
    }
}

/// The verbatim ladder, and every action on calls, rooms and bindings, asks for the
/// operator role; what is billable or stops the daemon asks for the admin role.
pub proof fn powerful_endpoints_ask_for_more(m: Method, p: Seq<char>)
    requires
        crate::telemetry::admin_route::route_of(m, p) is Some,
    ensures
        match crate::telemetry::admin_route::route_of(m, p)->0 {
            AdminRoute::SetLogFilter | AdminRoute::HepTest | AdminRoute::Originate
            | AdminRoute::DrainStart => min_role_of(m, p) == Some(Role::Admin),
            AdminRoute::Park { .. } | AdminRoute::Retrieve { .. } | AdminRoute::Hangup { .. }
            | AdminRoute::HangupSip { .. } | AdminRoute::CallSip { .. }
            | AdminRoute::CreateConference | AdminRoute::EndConference { .. }
            | AdminRoute::AddParticipant { .. } | AdminRoute::RemoveParticipant { .. }
            | AdminRoute::TriggerRegistration { .. } => min_role_of(m, p) == Some(Role::Operator),
            AdminRoute::NotFound => true,
            _ => min_role_of(m, p) == Some(Role::ReadOnly),
        },
{
    let calls = "/admin/v1/calls/"@;
    reveal_strlit("/admin/v1/calls/");
    reveal_strlit("/admin/v1/registrations/");
    reveal_strlit("/admin/v1/conferences/");
    reveal_strlit("/admin/calls/");
    reveal_strlit("/admin/v1/conferences");
    reveal_strlit("/admin/v1/drain");
    reveal_strlit("/stats");
    reveal_strlit("/sip");
    if framed(p, calls, "/stats"@) && framed(p, calls, "/sip"@) {
        assert(p[p.len() - 1] == "/stats"@[5]) by {
            assert(p.subrange(p.len() - 6, p.len() as int)[5] == p[p.len() - 1]);
        }
        assert(p[p.len() - 1] == "/sip"@[3]) by {
            assert(p.subrange(p.len() - 4, p.len() as int)[3] == p[p.len() - 1]);
        }
    }
}

/// Whatever a token may do, a token with a role at least as high may do too.
pub proof fn a_higher_role_may_do_as_much(
    tokens: Seq<AdminToken>,
    m: Method,
    p: Seq<char>,
    one: Seq<char>,
    other: Seq<char>,
    high: AdminToken,
)
    requires
        authorized(tokens, m, p, Some(one)) is Ok,
        bearer_of(other) is Some,
        last_match(tokens, digest_of(bearer_of(other)->0)) == Some(high),
        high.role.level() >= authorized(tokens, m, p, Some(one))->Ok_0.role.level(),
    ensures
        authorized(tokens, m, p, Some(other)) == Ok::<AdminToken, AuthReject>(high),
{
}

/// Of the three roles each does what the ones below it may: everybody may what asks for
/// the lowest, the highest may everything, and between them only the role itself.
pub proof fn roles_are_nested(have: Role, required: Role, r: bool)
    requires
        call_ensures(Role::at_least, (have, required), r),
    ensures
        r <==> required == Role::ReadOnly || have == Role::Admin || have == required,
{
}

/// A role is read from its own name, as it prints, and from no other text.
pub proof fn a_role_is_read_from_its_name_alone(
    s: &str,
    read: Option<Role>,
    role: Role,
    shown: &'static str,
)
    requires
        call_ensures(Role::parse, (s,), read),
        call_ensures(Role::as_str, (role,), shown),
    ensures
        read == Some(role) <==> s@ == shown@,
        shown@ == (if role == Role::ReadOnly {
            "readonly"@
        } else if role == Role::Operator {
            "operator"@
        } else {
            "admin"@
        }),
{
    if read is Some {
        role_names_are_distinct(read->0, role);
    }
}

/// A token keeps the name and the role it was given and the SHA-256 of its text, and a
/// table holds the tokens it was made of.
pub proof fn a_token_keeps_its_role_and_digest(
    name: &str,
    secret: &str,
    role: Role,
    token: AdminToken,
    tokens: Vec<AdminToken>,
    auth: AdminAuth,
)
    requires
        call_ensures(AdminToken::new, (name, secret, role), token),
        call_ensures(AdminAuth::new, (tokens,), auth),
    ensures
        token.name@ == name@,
        token.role == role,
        token.token_sha256.value() == sha256_digest(vstd::utf8::encode_utf8(secret@)),
        auth.table() == tokens@,
{
}

/// A token is presented by its text: of a table the last token with the digest of that
/// text is the one.
pub proof fn a_token_is_known_by_its_digest(
    auth: &AdminAuth,
    presented: &str,
    r: Option<&AdminToken>,
)
    requires
        call_ensures(AdminAuth::authenticate, (auth, presented), r),
    ensures
        ({
            let digest = sha256_digest(vstd::utf8::encode_utf8(presented@));
            match r {
                Some(t) => exists|i: int|
                    0 <= i < auth.table().len() && #[trigger] auth.table()[i] == *t
                        && t.token_sha256.value() == digest && forall|j: int|
                        i < j < auth.table().len() ==> (
                        #[trigger] auth.table()[j]).token_sha256.value() != digest,
                None => forall|i: int|
                    0 <= i < auth.table().len() ==> (
                    #[trigger] auth.table()[i]).token_sha256.value() != digest,
            }
        }),
{
    last_match_is_last(auth.table(), digest_of(presented@));
}

proof fn last_match_is_last(tokens: Seq<AdminToken>, digest: Seq<u8>)
    ensures
        match last_match(tokens, digest) {
            Some(t) => exists|i: int|
                0 <= i < tokens.len() && #[trigger] tokens[i] == t && t.digest() == digest
                    && forall|j: int|
                    i < j < tokens.len() ==> (#[trigger] tokens[j]).token_sha256.value() != digest,
            None => forall|i: int|
                0 <= i < tokens.len() ==> (#[trigger] tokens[i]).token_sha256.value() != digest,
        },
    decreases tokens.len(),
{
    if tokens.len() > 0 {
        let last = tokens.len() - 1;
        if tokens[last].digest() == digest {
            assert(tokens[last] == tokens.last());
        } else {
            let front = tokens.drop_last();
            last_match_is_last(front, digest);
            match last_match(tokens, digest) {
                Some(t) => {
                    let i = choose|i: int|
                        0 <= i < front.len() && #[trigger] front[i] == t && t.digest() == digest
                            && forall|j: int|
                            i < j < front.len() ==> (#[trigger] front[j]).token_sha256.value()
                                != digest;
                    assert(tokens[i] == t);
                    assert forall|j: int| i < j < tokens.len() implies (
                    #[trigger] tokens[j]).token_sha256.value() != digest by {
                        if j < last {
                            assert(front[j] == tokens[j]);
                        }
                    }
                },
                None => {
                    assert forall|i: int| 0 <= i < tokens.len() implies (
                    #[trigger] tokens[i]).token_sha256.value() != digest by {
                        if i < last {
                            assert(front[i] == tokens[i]);
                        }
                    }
                },
            }
        }
    }
}

/// Who presents a token may do what its endpoint's minimum role lets it: a request goes
/// through only with a token of the table whose role is at least that minimum; one whose
/// role is below it is told the minimum and its own role; and one without a token of the
/// table is told nothing but that.
pub proof fn nobody_passes_below_the_minimum_role(
    auth: &AdminAuth,
    m: Method,
    path: &str,
    header: Option<&str>,
    r: Result<&AdminToken, AuthReject>,
    minimum: Option<Role>,
    presented: Option<&str>,
    known: Option<&AdminToken>,
)
    requires
        call_ensures(AdminAuth::authorize, (auth, m, path, header), r),
        call_ensures(min_role, (m, path), minimum),
        header matches Some(h) ==> call_ensures(bearer_token, (h,), presented),
        header is None ==> presented is None,
        presented matches Some(t) ==> call_ensures(AdminAuth::authenticate, (auth, t), known),
        presented is None ==> known is None,
    ensures
        known is None <==> r == Err::<&AdminToken, AuthReject>(AuthReject::Unauthenticated),
        (r matches Ok(t) && minimum matches Some(need)) ==> (minimum->0 == Role::ReadOnly
            || r->Ok_0.role == Role::Admin || r->Ok_0.role == minimum->0),
        r is Ok ==> known is Some && *r->Ok_0 == *known->0,
        known is Some && (minimum is None || minimum->0 == Role::ReadOnly || known->0.role
            == Role::Admin || known->0.role == minimum->0) ==> r is Ok,
        known is Some && minimum is Some && minimum->0 != Role::ReadOnly && known->0.role
            != Role::Admin && known->0.role != minimum->0 ==> r == Err::<&AdminToken, AuthReject>(
            AuthReject::Forbidden { required: minimum->0, have: known->0.role },
        ),
{
}

/// A bearer token is what stands behind the scheme and a blank, without the white space
/// around it. The scheme is `bearer` in any case, and nothing else will do.
pub proof fn a_bearer_token_stands_behind_its_scheme(
    header: &str,
    scheme: Seq<char>,
    rest: Seq<char>,
    r: Option<&str>,
)
    requires
        call_ensures(bearer_token, (header,), r),
    ensures
        header@ == scheme.push(' ') + rest && !scheme.contains(' ') ==> {
            &&& r is Some <==> lower(scheme) == "bearer"@ && trimmed(rest).len() > 0
            &&& r matches Some(t) ==> t@ == trimmed(rest)
        },
        !header@.contains(' ') ==> r is None,
{
    let i = first_index(header@, ' ');
    crate::text::first_index_is_first(header@, ' ');
    if header@ == scheme.push(' ') + rest && !scheme.contains(' ') {
        let n = scheme.len() as int;
        assert(header@[n] == ' ');
        if i < n {
            assert(scheme[i] == ' ');
        }
        assert(header@.subrange(0, i) =~= scheme);
        assert(header@.subrange(i + 1, header@.len() as int) =~= rest);
    }
}

/// What each endpoint asks for. To end a room or take a member out asks for the operator
/// role, and so does everything that is deleted; to change the log filter asks for the
/// admin role, and so does everything that is put; what is read asks for the read-only
/// role, but for the verbatim ladder, which asks for the operator role; of what is
/// posted, an originated call, a probe and a drain ask for the admin role, and every
/// action on a call, a binding or a room for the operator role. Nothing else has a
/// minimum.
pub proof fn endpoints_ask_for_their_role(m: Method, path: &str, id: Seq<char>, r: Option<Role>)
    requires
        call_ensures(min_role, (m, path), r),
    ensures
        ({
            let p = path@;
            let calls = "/admin/v1/calls/"@;
            let regs = "/admin/v1/registrations/"@;
            let rooms = "/admin/v1/conferences/"@;
            &&& m == Method::Other ==> r is None
            &&& m == Method::Delete ==> r is None || r == Some(Role::Operator)
            &&& m == Method::Delete && p == rooms + id ==> r == Some(Role::Operator)
            &&& m == Method::Put ==> r is None || r == Some(Role::Admin)
            &&& m == Method::Put ==> (r is Some <==> p == "/admin/log"@ || p == "/admin/v1/log"@)
            &&& m == Method::Get ==> r != Some(Role::Admin)
            &&& m == Method::Get && (p == "/admin/calls"@ || p == "/admin/v1/calls"@ || p == "/admin/registrations"@ || p == "/admin/v1/registrations"@ || p == "/admin/v1/trunks"@ || p == "/admin/log"@ || p == "/admin/v1/log"@ || p == "/admin/v1/conferences"@ || p == "/admin/v1/parked"@ || p == "/admin/v1/drain"@ || p == "/admin/v1/errors"@ || p == "/admin/v1/status"@ || p == "/admin/v1/cdrs/recent"@) ==> r == Some(
                Role::ReadOnly,
            )
            &&& m == Method::Get && p == calls + id + "/stats"@ ==> r == Some(Role::ReadOnly)
            &&& m == Method::Get && p == calls + id + "/sip"@ ==> r == Some(Role::Operator)
            &&& m == Method::Get && r == Some(Role::Operator) ==> framed(p, calls, "/sip"@)
            &&& m == Method::Post ==> r != Some(Role::ReadOnly)
            &&& m == Method::Post ==> (r == Some(Role::Admin) <==> p == "/admin/v1/calls"@ || p
                == "/admin/v1/drain"@ || p == "/admin/hep/test"@ || p == "/admin/v1/hep/test"@)
            &&& m == Method::Post && (p == "/admin/v1/conferences"@ || p == rooms + id || p == calls
                + id + "/hangup"@ || p == "/admin/calls/"@ + id + "/hangup"@ || p == calls + id
                + "/park"@ || p == calls + id + "/retrieve"@ || p == regs + id + "/refresh"@ || p
                == regs + id + "/restart"@) ==> r == Some(Role::Operator)
        }),
{
    let p = path@;
    let calls = "/admin/v1/calls/"@;
    let old_calls = "/admin/calls/"@;
    let regs = "/admin/v1/registrations/"@;
    let rooms = "/admin/v1/conferences/"@;
    reveal_strlit("/admin/calls");
    reveal_strlit("/admin/v1/calls");
    reveal_strlit("/admin/registrations");
    reveal_strlit("/admin/v1/registrations");
    reveal_strlit("/admin/v1/trunks");
    reveal_strlit("/admin/log");
    reveal_strlit("/admin/v1/log");
    reveal_strlit("/admin/v1/conferences");
    reveal_strlit("/admin/v1/parked");
    reveal_strlit("/admin/v1/drain");
    reveal_strlit("/admin/v1/errors");
    reveal_strlit("/admin/v1/status");
    reveal_strlit("/admin/v1/cdrs/recent");
    reveal_strlit("/admin/hep/test");
    reveal_strlit("/admin/v1/hep/test");
    reveal_strlit("/admin/v1/calls/");
    reveal_strlit("/admin/calls/");
    reveal_strlit("/admin/v1/registrations/");
    reveal_strlit("/admin/v1/conferences/");
    reveal_strlit("/hangup");
    reveal_strlit("/park");
    reveal_strlit("/retrieve");
    reveal_strlit("/stats");
    reveal_strlit("/sip");
    reveal_strlit("/refresh");
    reveal_strlit("/restart");
    crate::telemetry::admin_route::an_id_is_read_between_its_frame(calls, id, "/hangup"@);
    crate::telemetry::admin_route::an_id_is_read_between_its_frame(old_calls, id, "/hangup"@);
    crate::telemetry::admin_route::an_id_is_read_between_its_frame(calls, id, "/park"@);
    crate::telemetry::admin_route::an_id_is_read_between_its_frame(calls, id, "/retrieve"@);
    crate::telemetry::admin_route::an_id_is_read_between_its_frame(calls, id, "/stats"@);
    crate::telemetry::admin_route::an_id_is_read_between_its_frame(calls, id, "/sip"@);
    crate::telemetry::admin_route::an_id_is_read_between_its_frame(regs, id, "/refresh"@);
    crate::telemetry::admin_route::an_id_is_read_between_its_frame(regs, id, "/restart"@);
    if p == rooms + id {
        assert(p.subrange(0, rooms.len() as int) =~= rooms);
        assert(p.len() >= 22);
    }
    if framed(p, calls, "/stats"@) {
        assert(p.subrange(p.len() - 6, p.len() as int)[5] == p[p.len() - 1]);
    }
    if p == calls + id + "/sip"@ {
        assert(p[p.len() - 1] == 'p');
        assert("/admin/calls"@[11] == 's' && "/admin/v1/calls"@[14] == 's');
        assert("/admin/registrations"@[19] == 's' && "/admin/v1/registrations"@[22] == 's');
        assert("/admin/v1/conferences"@[20] == 's' && "/admin/v1/cdrs/recent"@[20] == 't');
    }
}

/// A request is labelled with its method and its path as they are or, where the path
/// carries an id, with a template: its method, then a path with the id's place marked by a
/// colon. Only what asks for no role is unknown, but for a POST below a room that is no
/// endpoint.
pub proof fn a_label_is_the_method_and_the_path(
    m: Method,
    path: &str,
    r: &'static str,
    role: Option<Role>,
)
    requires
        call_ensures(route_label, (m, path), r),
        call_ensures(min_role, (m, path), role),
    ensures
        ({
            let word = if m is Get {
                "GET "@
            } else if m is Post {
                "POST "@
            } else if m is Put {
                "PUT "@
            } else {
                "DELETE "@
            };
            &&& r@ == "unknown"@ || r@ == word + path@ || (r@.contains(':') && r@.subrange(
                0,
                word.len() as int,
            ) == word)
            &&& role is Some && r@ == "unknown"@ ==> m is Post && has_prefix(
                path@,
                "/admin/v1/conferences/"@,
            )
            &&& role is None ==> r@ == "unknown"@
        }),
{
    reveal_strlit("GET ");
    reveal_strlit("POST ");
    reveal_strlit("PUT ");
    reveal_strlit("DELETE ");
    reveal_strlit("unknown");
    assert("unknown"@.len() == 7);
    assert("unknown"@[0] == 'u');
    the_plain_labels_are_spelled_out();
    the_template_labels_are_spelled_out();
}

/// The labels of the paths without an id.
proof fn the_plain_labels_are_spelled_out()
    ensures
        "GET /admin/calls"@ == "GET "@ + "/admin/calls"@ && "GET /admin/calls"@[0] != 'u',
        "GET /admin/v1/calls"@ == "GET "@ + "/admin/v1/calls"@ && "GET /admin/v1/calls"@[0] != 'u',
        "GET /admin/registrations"@ == "GET "@ + "/admin/registrations"@ && "GET /admin/registrations"@[0] != 'u',
        "GET /admin/v1/registrations"@ == "GET "@ + "/admin/v1/registrations"@ && "GET /admin/v1/registrations"@[0] != 'u',
        "GET /admin/v1/trunks"@ == "GET "@ + "/admin/v1/trunks"@ && "GET /admin/v1/trunks"@[0] != 'u',
        "GET /admin/log"@ == "GET "@ + "/admin/log"@ && "GET /admin/log"@[0] != 'u',
        "GET /admin/v1/log"@ == "GET "@ + "/admin/v1/log"@ && "GET /admin/v1/log"@[0] != 'u',
        "PUT /admin/log"@ == "PUT "@ + "/admin/log"@ && "PUT /admin/log"@[0] != 'u',
        "PUT /admin/v1/log"@ == "PUT "@ + "/admin/v1/log"@ && "PUT /admin/v1/log"@[0] != 'u',
        "POST /admin/hep/test"@ == "POST "@ + "/admin/hep/test"@ && "POST /admin/hep/test"@[0] != 'u',
        "POST /admin/v1/hep/test"@ == "POST "@ + "/admin/v1/hep/test"@ && "POST /admin/v1/hep/test"@[0] != 'u',
        "POST /admin/v1/calls"@ == "POST "@ + "/admin/v1/calls"@ && "POST /admin/v1/calls"@[0] != 'u',
        "GET /admin/v1/conferences"@ == "GET "@ + "/admin/v1/conferences"@ && "GET /admin/v1/conferences"@[0] != 'u',
        "POST /admin/v1/conferences"@ == "POST "@ + "/admin/v1/conferences"@ && "POST /admin/v1/conferences"@[0] != 'u',
        "GET /admin/v1/parked"@ == "GET "@ + "/admin/v1/parked"@ && "GET /admin/v1/parked"@[0] != 'u',
        "GET /admin/v1/drain"@ == "GET "@ + "/admin/v1/drain"@ && "GET /admin/v1/drain"@[0] != 'u',
        "POST /admin/v1/drain"@ == "POST "@ + "/admin/v1/drain"@ && "POST /admin/v1/drain"@[0] != 'u',
        "GET /admin/v1/errors"@ == "GET "@ + "/admin/v1/errors"@ && "GET /admin/v1/errors"@[0] != 'u',
        "GET /admin/v1/status"@ == "GET "@ + "/admin/v1/status"@ && "GET /admin/v1/status"@[0] != 'u',
        "GET /admin/v1/cdrs/recent"@ == "GET "@ + "/admin/v1/cdrs/recent"@ && "GET /admin/v1/cdrs/recent"@[0] != 'u',
{
    reveal_strlit("GET ");
    reveal_strlit("POST ");
    reveal_strlit("PUT ");
    reveal_strlit("/admin/calls");
    reveal_strlit("/admin/hep/test");
    reveal_strlit("/admin/log");
    reveal_strlit("/admin/registrations");
    reveal_strlit("/admin/v1/calls");
    reveal_strlit("/admin/v1/cdrs/recent");
    reveal_strlit("/admin/v1/conferences");
    reveal_strlit("/admin/v1/drain");
    reveal_strlit("/admin/v1/errors");
    reveal_strlit("/admin/v1/hep/test");
    reveal_strlit("/admin/v1/log");
    reveal_strlit("/admin/v1/parked");
    reveal_strlit("/admin/v1/registrations");
    reveal_strlit("/admin/v1/status");
    reveal_strlit("/admin/v1/trunks");
    reveal_strlit("GET /admin/calls");
    assert("GET /admin/calls"@ =~= "GET "@ + "/admin/calls"@);
    reveal_strlit("GET /admin/v1/calls");
    assert("GET /admin/v1/calls"@ =~= "GET "@ + "/admin/v1/calls"@);
    reveal_strlit("GET /admin/registrations");
    assert("GET /admin/registrations"@ =~= "GET "@ + "/admin/registrations"@);
    reveal_strlit("GET /admin/v1/registrations");
    assert("GET /admin/v1/registrations"@ =~= "GET "@ + "/admin/v1/registrations"@);
    reveal_strlit("GET /admin/v1/trunks");
    assert("GET /admin/v1/trunks"@ =~= "GET "@ + "/admin/v1/trunks"@);
    reveal_strlit("GET /admin/log");
    assert("GET /admin/log"@ =~= "GET "@ + "/admin/log"@);
    reveal_strlit("GET /admin/v1/log");
    assert("GET /admin/v1/log"@ =~= "GET "@ + "/admin/v1/log"@);
    reveal_strlit("PUT /admin/log");
    assert("PUT /admin/log"@ =~= "PUT "@ + "/admin/log"@);
    reveal_strlit("PUT /admin/v1/log");
    assert("PUT /admin/v1/log"@ =~= "PUT "@ + "/admin/v1/log"@);
    reveal_strlit("POST /admin/hep/test");
    assert("POST /admin/hep/test"@ =~= "POST "@ + "/admin/hep/test"@);
    reveal_strlit("POST /admin/v1/hep/test");
    assert("POST /admin/v1/hep/test"@ =~= "POST "@ + "/admin/v1/hep/test"@);
    reveal_strlit("POST /admin/v1/calls");
    assert("POST /admin/v1/calls"@ =~= "POST "@ + "/admin/v1/calls"@);
    reveal_strlit("GET /admin/v1/conferences");
    assert("GET /admin/v1/conferences"@ =~= "GET "@ + "/admin/v1/conferences"@);
    reveal_strlit("POST /admin/v1/conferences");
    assert("POST /admin/v1/conferences"@ =~= "POST "@ + "/admin/v1/conferences"@);
    reveal_strlit("GET /admin/v1/parked");
    assert("GET /admin/v1/parked"@ =~= "GET "@ + "/admin/v1/parked"@);
    reveal_strlit("GET /admin/v1/drain");
    assert("GET /admin/v1/drain"@ =~= "GET "@ + "/admin/v1/drain"@);
    reveal_strlit("POST /admin/v1/drain");
    assert("POST /admin/v1/drain"@ =~= "POST "@ + "/admin/v1/drain"@);
    reveal_strlit("GET /admin/v1/errors");
    assert("GET /admin/v1/errors"@ =~= "GET "@ + "/admin/v1/errors"@);
    reveal_strlit("GET /admin/v1/status");
    assert("GET /admin/v1/status"@ =~= "GET "@ + "/admin/v1/status"@);
    reveal_strlit("GET /admin/v1/cdrs/recent");
    assert("GET /admin/v1/cdrs/recent"@ =~= "GET "@ + "/admin/v1/cdrs/recent"@);
}

/// The labels of the paths with an id.
proof fn the_template_labels_are_spelled_out()
    ensures
        "POST /admin/calls/:id/hangup"@.contains(':') && "POST /admin/calls/:id/hangup"@.subrange(0, 5) == "POST "@ && "POST /admin/calls/:id/hangup"@[0] != 'u',
        "POST /admin/v1/calls/:id/hangup"@.contains(':') && "POST /admin/v1/calls/:id/hangup"@.subrange(0, 5) == "POST "@ && "POST /admin/v1/calls/:id/hangup"@[0] != 'u',
        "GET /admin/v1/calls/:id/stats"@.contains(':') && "GET /admin/v1/calls/:id/stats"@.subrange(0, 4) == "GET "@ && "GET /admin/v1/calls/:id/stats"@[0] != 'u',
        "GET /admin/v1/calls/:id/sip"@.contains(':') && "GET /admin/v1/calls/:id/sip"@.subrange(0, 4) == "GET "@ && "GET /admin/v1/calls/:id/sip"@[0] != 'u',
        "POST /admin/v1/calls/:id/park"@.contains(':') && "POST /admin/v1/calls/:id/park"@.subrange(0, 5) == "POST "@ && "POST /admin/v1/calls/:id/park"@[0] != 'u',
        "POST /admin/v1/calls/:id/retrieve"@.contains(':') && "POST /admin/v1/calls/:id/retrieve"@.subrange(0, 5) == "POST "@ && "POST /admin/v1/calls/:id/retrieve"@[0] != 'u',
        "POST /admin/v1/registrations/:name/refresh"@.contains(':') && "POST /admin/v1/registrations/:name/refresh"@.subrange(0, 5) == "POST "@ && "POST /admin/v1/registrations/:name/refresh"@[0] != 'u',
        "POST /admin/v1/registrations/:name/restart"@.contains(':') && "POST /admin/v1/registrations/:name/restart"@.subrange(0, 5) == "POST "@ && "POST /admin/v1/registrations/:name/restart"@[0] != 'u',
        "DELETE /admin/v1/conferences/:id/participants/:cid"@.contains(':') && "DELETE /admin/v1/conferences/:id/participants/:cid"@.subrange(0, 7) == "DELETE "@ && "DELETE /admin/v1/conferences/:id/participants/:cid"@[0] != 'u',
        "POST /admin/v1/conferences/:id/participants"@.contains(':') && "POST /admin/v1/conferences/:id/participants"@.subrange(0, 5) == "POST "@ && "POST /admin/v1/conferences/:id/participants"@[0] != 'u',
        "DELETE /admin/v1/conferences/:id"@.contains(':') && "DELETE /admin/v1/conferences/:id"@.subrange(0, 7) == "DELETE "@ && "DELETE /admin/v1/conferences/:id"@[0] != 'u',
{
    reveal_strlit("GET ");
    reveal_strlit("POST ");
    reveal_strlit("DELETE ");
    reveal_strlit("POST /admin/calls/:id/hangup");
    assert("POST /admin/calls/:id/hangup"@[18] == ':');
    assert("POST /admin/calls/:id/hangup"@.subrange(0, 5) =~= "POST "@);
    reveal_strlit("POST /admin/v1/calls/:id/hangup");
    assert("POST /admin/v1/calls/:id/hangup"@[21] == ':');
    assert("POST /admin/v1/calls/:id/hangup"@.subrange(0, 5) =~= "POST "@);
    reveal_strlit("GET /admin/v1/calls/:id/stats");
    assert("GET /admin/v1/calls/:id/stats"@[20] == ':');
    assert("GET /admin/v1/calls/:id/stats"@.subrange(0, 4) =~= "GET "@);
    reveal_strlit("GET /admin/v1/calls/:id/sip");
    assert("GET /admin/v1/calls/:id/sip"@[20] == ':');
    assert("GET /admin/v1/calls/:id/sip"@.subrange(0, 4) =~= "GET "@);
    reveal_strlit("POST /admin/v1/calls/:id/park");
    assert("POST /admin/v1/calls/:id/park"@[21] == ':');
    assert("POST /admin/v1/calls/:id/park"@.subrange(0, 5) =~= "POST "@);
    reveal_strlit("POST /admin/v1/calls/:id/retrieve");
    assert("POST /admin/v1/calls/:id/retrieve"@[21] == ':');
    assert("POST /admin/v1/calls/:id/retrieve"@.subrange(0, 5) =~= "POST "@);
    reveal_strlit("POST /admin/v1/registrations/:name/refresh");
    assert("POST /admin/v1/registrations/:name/refresh"@[29] == ':');
    assert("POST /admin/v1/registrations/:name/refresh"@.subrange(0, 5) =~= "POST "@);
    reveal_strlit("POST /admin/v1/registrations/:name/restart");
    assert("POST /admin/v1/registrations/:name/restart"@[29] == ':');
    assert("POST /admin/v1/registrations/:name/restart"@.subrange(0, 5) =~= "POST "@);
    reveal_strlit("DELETE /admin/v1/conferences/:id/participants/:cid");
    assert("DELETE /admin/v1/conferences/:id/participants/:cid"@[29] == ':');
    assert("DELETE /admin/v1/conferences/:id/participants/:cid"@.subrange(0, 7) =~= "DELETE "@);
    reveal_strlit("POST /admin/v1/conferences/:id/participants");
    assert("POST /admin/v1/conferences/:id/participants"@[27] == ':');
    assert("POST /admin/v1/conferences/:id/participants"@.subrange(0, 5) =~= "POST "@);
    reveal_strlit("DELETE /admin/v1/conferences/:id");
    assert("DELETE /admin/v1/conferences/:id"@[29] == ':');
    assert("DELETE /admin/v1/conferences/:id"@.subrange(0, 7) =~= "DELETE "@);
}

/// A table starts empty, and tells how many tokens it has.
pub proof fn a_table_counts_its_tokens(
    empty: AdminAuth,
    auth: &AdminAuth,
    n: usize,
    none: bool,
    tokens: Vec<AdminToken>,
    made: AdminAuth,
)
    requires
        call_ensures(AdminAuth::default, (), empty),
        call_ensures(AdminAuth::len, (auth,), n),
        call_ensures(AdminAuth::is_empty, (auth,), none),
        call_ensures(AdminAuth::new, (tokens,), made),
    ensures
        empty.table().len() == 0,
        n == auth.table().len(),
        none <==> n == 0,
        made.table() == tokens@,
{
}

} // verus!
