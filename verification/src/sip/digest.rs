//! Digest authentication of new INVITEs: who must authenticate, what the outcome
//! of a check is, and the challenge.
//!
//! The digest itself and the nonces are the SIP stack's: its answers come in as
//! plain values.
use vstd::prelude::*;

use crate::sip::message::{correlation, header_views, Request, Response};
use crate::text::{str_eq, views};

verus! {

/// The configured users of one realm, with their passwords.
pub struct ConfigCredentialStore {
    pub realm: String,
    pub users: Vec<(String, String)>,
}

/// One user's credentials.
pub struct Credentials {
    pub username: String,
    pub password: String,
    pub realm: String,
}

/// The index of the first user of that name; the length when there is none.
pub open spec fn user_index(users: Seq<(String, String)>, username: Seq<char>, i: int) -> int
    decreases users.len() - i,
{
    if i >= users.len() || users[i].0@ == username {
        i
    } else {
        user_index(users, username, i + 1)
    }
}

impl ConfigCredentialStore {
    /// The credentials of `username`. Another realm has none.
    pub fn fetch(&self, username: &str, realm: &str) -> (r: Option<Credentials>)
        ensures
            match r {
                Some(c) => {
                    let i = user_index(self.users@, username@, 0);
                    &&& realm@ == self.realm@
                    &&& i < self.users@.len()
                    &&& c.username@ == username@
                    &&& c.password == self.users@[i].1
                    &&& c.realm == self.realm
                },
                None => realm@ != self.realm@ || user_index(self.users@, username@, 0)
                    >= self.users@.len(),
            },
    {
        if !str_eq(realm, self.realm.as_str()) {
            return None;
        }
        let mut i: usize = 0;
        while i < self.users.len()
            invariant
                i <= self.users@.len(),
                realm@ == self.realm@,
                user_index(self.users@, username@, 0) == user_index(
                    self.users@,
                    username@,
                    i as int,
                ),
            decreases self.users@.len() - i,
        {
            if str_eq(self.users[i].0.as_str(), username) {
                return Some(
                    Credentials {
                        username: self.users[i].0.clone(),
                        password: self.users[i].1.clone(),
                        realm: self.realm.clone(),
                    },
                );
            }
            i += 1;
        }
        None
    }
}

/// What to do with an INVITE that must authenticate.
#[derive(Debug, Clone, Copy, PartialEq, Eq, Structural)]
pub enum DigestOutcome {
    /// The credentials hold: go on.
    Authenticated,
    /// Challenge it. `stale`: the nonce was one of ours but is no longer
    /// acceptable, which says nothing of the credentials. `had_credentials`: some
    /// were presented.
    Challenge { stale: bool, had_credentials: bool },
}

impl DigestOutcome {
    /// The label of each outcome.
    pub open spec fn label(self) -> Seq<char> {
        match self {
            DigestOutcome::Authenticated => "ok"@,
            DigestOutcome::Challenge { stale, had_credentials } => if stale {
                "stale"@
            } else if had_credentials {
                "failed"@
            } else {
                "challenged"@
            },
        }
    }

    /// The outcome goes on record: a failed credential, or a stale nonce. The
    /// first challenge of a call does not.
    pub open spec fn audited(self) -> bool {
        self matches DigestOutcome::Challenge { stale, had_credentials } && (stale
            || had_credentials)
    }

    /// The metric label of this outcome.
    pub fn metric_result(&self) -> (r: &'static str)
        ensures
            r@ == self.label(),
    {
        match self {
            DigestOutcome::Authenticated => "ok",
            DigestOutcome::Challenge { stale, had_credentials } => if *stale {
                "stale"
            } else if *had_credentials {
                "failed"
            } else {
                "challenged"
            },
        }
    }
}

/// How long a nonce is good for, in milliseconds.
#[derive(Debug, Clone, Copy)]
pub struct NonceFreshness {
    /// From its issue.
    pub ttl: u64,
    /// From its last successful use; without a window only the first bound holds.
    pub reuse_window: Option<u64>,
}

impl NonceFreshness {
    /// The largest gap between two uses of a nonce: without a window, one that no
    /// gap exceeds.
    pub fn max_request_age(&self) -> (r: u64)
        ensures
            r == match self.reuse_window {
                Some(w) => w,
                None => u64::MAX,
            },
    {
        match self.reuse_window {
            Some(w) => w,
            None => u64::MAX,
        }
    }
}

/// Who must authenticate, and with which credentials.
pub struct InboundDigestAuth {
    pub store: ConfigCredentialStore,
    /// The algorithm token of the challenge.
    pub algorithm: String,
    /// The quality-of-protection token of the challenge.
    pub qop: String,
    /// Every source must authenticate.
    pub require_all: bool,
    /// The sources that must.
    pub required_trunks: Vec<String>,
    pub freshness: NonceFreshness,
}

/// What the SIP stack says of the `Authorization` header of a request.
#[derive(Debug, Clone, Copy)]
pub struct DigestCheck {
    /// The digest verified.
    pub verified: bool,
    /// The nonce is past its lifetime.
    pub ttl_stale: bool,
    /// The nonce is past its reuse window.
    pub reuse_expired: bool,
}

impl InboundDigestAuth {
    /// The policy as configured.
    pub fn new(
        realm: &str,
        algorithm: &str,
        qop: &str,
        users: Vec<(String, String)>,
        require_all: bool,
        required_trunks: Vec<String>,
        freshness: NonceFreshness,
    ) -> (r: Self)
        ensures
            r.store.realm@ == realm@,
            r.store.users == users,
            r.algorithm@ == algorithm@,
            r.qop@ == qop@,
            r.require_all == require_all,
            r.required_trunks == required_trunks,
            r.freshness == freshness,
    {
        InboundDigestAuth {
            store: ConfigCredentialStore { realm: realm.to_owned(), users },
            algorithm: algorithm.to_owned(),
            qop: qop.to_owned(),
            require_all,
            required_trunks,
            freshness,
        }
    }

    /// A call from `register_source` must authenticate.
    pub open spec fn must_authenticate(self, register_source: Seq<char>) -> bool {
        self.require_all || views(self.required_trunks@).contains(register_source)
    }

    /// Whether a call from `register_source` must authenticate.
    pub fn requires_auth(&self, register_source: &str) -> (r: bool)
        ensures
            r == self.must_authenticate(register_source@),
    {
        if self.require_all {
            return true;
        }
        let mut i: usize = 0;
        while i < self.required_trunks.len()
            invariant
                !self.require_all,
                i <= self.required_trunks@.len(),
                forall|k: int|
                    0 <= k < i ==> (#[trigger] views(self.required_trunks@)[k])
                        != register_source@,
            decreases self.required_trunks@.len() - i,
        {
            assert(views(self.required_trunks@)[i as int] == self.required_trunks@[i as int]@);
            if str_eq(self.required_trunks[i].as_str(), register_source) {
                return true;
            }
            i += 1;
        }
        false
    }

    /// The outcome for `request`, given what the SIP stack says of its
    /// credentials. Both ways in which a nonce can be too old are stale.
    pub fn evaluate(&self, request: &Request, check: DigestCheck) -> (r: DigestOutcome)
        ensures
            r == outcome_of(request.value_of("Authorization"@) is Some, check),
    {
        evaluate_check(request, check)
    }

    /// The `401 Unauthorized` for `request`, with the challenge that the SIP stack
    /// made, if it made one.
    pub fn challenge(&self, request: &Request, www_authenticate: Option<String>) -> (r: Response)
        ensures
            r.answers(*request, 401, "Unauthorized"@, challenge_header(www_authenticate)),
    {
        challenge_response(request, www_authenticate)
    }
}

/// The outcome for `request`, given what the SIP stack says of its credentials.
pub fn evaluate_check(request: &Request, check: DigestCheck) -> (r: DigestOutcome)
    ensures
        r == outcome_of(request.value_of("Authorization"@) is Some, check),
{
    let had_credentials = request.header("Authorization").is_some();
    if check.verified {
        DigestOutcome::Authenticated
    } else {
        let reuse_stale = !check.ttl_stale && check.reuse_expired;
        DigestOutcome::Challenge { stale: check.ttl_stale || reuse_stale, had_credentials }
    }
}

/// The `401 Unauthorized` for `request`, with the challenge if there is one.
pub fn challenge_response(request: &Request, www_authenticate: Option<String>) -> (r: Response)
    ensures
        r.answers(*request, 401, "Unauthorized"@, challenge_header(www_authenticate)),
{
    let response = Response::create_response(request, 401, "Unauthorized");
    match www_authenticate {
        Some(value) => {
            let r = response.with_header("WWW-Authenticate", value);
            assert(header_views(r.headers@) =~= correlation(header_views(request.headers@))
                + challenge_header(www_authenticate));
            r
        },
        None => response,
    }
}

/// The outcome of a check.
pub open spec fn outcome_of(had_credentials: bool, check: DigestCheck) -> DigestOutcome {
    if check.verified {
        DigestOutcome::Authenticated
    } else {
        DigestOutcome::Challenge { stale: check.ttl_stale || check.reuse_expired, had_credentials }
    }
}

/// What the challenge adds to the response.
pub open spec fn challenge_header(www_authenticate: Option<String>) -> Seq<
    (Seq<char>, Seq<char>),
> {
    match www_authenticate {
        Some(v) => seq![("WWW-Authenticate"@, v@)],
        None => seq![],
    }
}

/// A nonce that is too old is never counted as a failed credential.
pub proof fn a_stale_nonce_is_no_failure(had_credentials: bool, check: DigestCheck)
    requires
        check.ttl_stale || check.reuse_expired,
    ensures
        outcome_of(had_credentials, check).label() != "failed"@,
{
    reveal_strlit("ok");
    reveal_strlit("stale");
    reveal_strlit("failed");
    assert("ok"@.len() == 2);
    assert("stale"@.len() == 5);
    assert("failed"@.len() == 6);
}

/// What goes on record is labelled `failed` or `stale`, and nothing else is.
pub proof fn only_failures_and_stale_nonces_are_audited(outcome: DigestOutcome)
    ensures
        outcome.audited() <==> (outcome.label() == "failed"@ || outcome.label() == "stale"@),
{
    reveal_strlit("ok");
    reveal_strlit("stale");
    reveal_strlit("failed");
    reveal_strlit("challenged");
    assert("ok"@.len() == 2);
    assert("stale"@.len() == 5);
    assert("failed"@.len() == 6);
    assert("challenged"@.len() == 10);
}

/// Every source that is listed must authenticate, wherever in the list it stands and
/// whatever else is listed; where not everybody must, a source that stands nowhere in
/// the list need not.
pub proof fn every_listed_source_must_authenticate(
    auth: &InboundDigestAuth,
    source: &str,
    r: bool,
    i: int,
)
    requires
        call_ensures(InboundDigestAuth::requires_auth, (auth, source), r),
    ensures
        0 <= i < auth.required_trunks@.len() && auth.required_trunks@[i]@ == source@ ==> r,
        auth.require_all ==> r,
        !auth.require_all && (forall|k: int|
            0 <= k < auth.required_trunks@.len() ==> (#[trigger] auth.required_trunks@[k])@
                != source@) ==> !r,
{
    let all = views(auth.required_trunks@);
    if 0 <= i < auth.required_trunks@.len() && auth.required_trunks@[i]@ == source@ {
        assert(all[i] == source@);
    }
    if all.contains(source@) {
        let k = choose|k: int| 0 <= k < all.len() && all[k] == source@;
        assert(auth.required_trunks@[k]@ == source@);
    }
}

/// The order of the list, and what else is in it, exempts nobody: of two policies where
/// the second lists all that the first lists, the second asks everybody whom the first
/// asks.
pub proof fn a_longer_list_asks_no_fewer(
    short: &InboundDigestAuth,
    long: &InboundDigestAuth,
    source: &str,
    r: bool,
    s: bool,
)
    requires
        call_ensures(InboundDigestAuth::requires_auth, (short, source), r),
        call_ensures(InboundDigestAuth::requires_auth, (long, source), s),
        short.require_all ==> long.require_all,
        forall|i: int|
            0 <= i < short.required_trunks@.len() ==> exists|j: int|
                0 <= j < long.required_trunks@.len() && (#[trigger] long.required_trunks@[j])@
                    == (#[trigger] short.required_trunks@[i])@,
    ensures
        r ==> s,
{
    let a = views(short.required_trunks@);
    let b = views(long.required_trunks@);
    if a.contains(source@) {
        let i = choose|i: int| 0 <= i < a.len() && a[i] == source@;
        assert(short.required_trunks@[i]@ == source@);
        let j = choose|j: int|
            0 <= j < long.required_trunks@.len() && (#[trigger] long.required_trunks@[j])@
                == short.required_trunks@[i]@;
        assert(b[j] == source@);
    }
}

/// Only a digest that verified lets a call through; any other call is challenged, as
/// stale exactly when one of the two bounds of its nonce is past, and as one with
/// credentials exactly when it has an `Authorization` header.
pub proof fn only_a_verified_digest_goes_through(
    auth: &InboundDigestAuth,
    request: &Request,
    check: DigestCheck,
    r: DigestOutcome,
    header: Option<&str>,
)
    requires
        call_ensures(InboundDigestAuth::evaluate, (auth, request, check), r),
        call_ensures(Request::header, (request, "Authorization"), header),
    ensures
        r == DigestOutcome::Authenticated <==> check.verified,
        !check.verified ==> (r matches DigestOutcome::Challenge { stale, had_credentials } && (stale
            <==> check.ttl_stale || check.reuse_expired) && (had_credentials <==> header is Some)),
{
}

/// What is counted: a call let through, one whose nonce was too old, one whose
/// credentials failed, and one that had none.
pub proof fn each_outcome_has_its_label(
    stale: bool,
    had_credentials: bool,
    ok: &'static str,
    challenged: &'static str,
)
    requires
        call_ensures(DigestOutcome::metric_result, (&DigestOutcome::Authenticated,), ok),
        call_ensures(
            DigestOutcome::metric_result,
            (&DigestOutcome::Challenge { stale, had_credentials },),
            challenged,
        ),
    ensures
        ok@ == "ok"@,
        stale ==> challenged@ == "stale"@,
        !stale && had_credentials ==> challenged@ == "failed"@,
        !stale && !had_credentials ==> challenged@ == "challenged"@,
{
}

/// The password of a user is that of the first entry with the user's name; another name
/// has none, and another realm has none.
pub proof fn a_password_belongs_to_its_user(
    store: &ConfigCredentialStore,
    username: &str,
    realm: &str,
    r: Option<Credentials>,
    i: int,
)
    requires
        call_ensures(ConfigCredentialStore::fetch, (store, username, realm), r),
    ensures
        realm@ != store.realm@ ==> r is None,
        r matches Some(c) ==> c.username@ == username@ && c.realm@ == realm@,
        realm@ == store.realm@ && 0 <= i < store.users@.len() && store.users@[i].0@ == username@
            && (forall|k: int| 0 <= k < i ==> (#[trigger] store.users@[k]).0@ != username@) ==> (
        r matches Some(c) && c.password == store.users@[i].1),
        (forall|k: int|
            0 <= k < store.users@.len() ==> (#[trigger] store.users@[k]).0@ != username@) ==> r
            is None,
{
    user_index_is_first(store.users@, username@, 0);
}

proof fn user_index_is_first(users: Seq<(String, String)>, username: Seq<char>, from: int)
    requires
        0 <= from <= users.len(),
    ensures
        from <= user_index(users, username, from) <= users.len(),
        user_index(users, username, from) < users.len() ==> users[user_index(
            users,
            username,
            from,
        )].0@ == username,
        forall|k: int|
            from <= k < user_index(users, username, from) ==> (#[trigger] users[k]).0@ != username,
    decreases users.len() - from,
{
    if from < users.len() && users[from].0@ != username {
        user_index_is_first(users, username, from + 1);
    }
}

/// Without a reuse window a nonce never grows too old between two uses; with one, it
/// does after the window.
pub proof fn the_reuse_window_bounds_the_age(f: &NonceFreshness, r: u64, age: u64)
    requires
        call_ensures(NonceFreshness::max_request_age, (f,), r),
    ensures
        f.reuse_window is None ==> age <= r,
        f.reuse_window matches Some(w) ==> (age <= r <==> age <= w),
{
}

/// A call that is challenged is answered `401`; the challenge of the SIP stack, where it
/// made one, is the one header added to what correlates the answer with its request.
pub proof fn a_challenge_carries_what_the_stack_made(
    auth: &InboundDigestAuth,
    request: &Request,
    made: Option<String>,
    r: Response,
    plain: Response,
)
    requires
        call_ensures(InboundDigestAuth::challenge, (auth, request, made), r),
        call_ensures(Response::create_response, (request, 401u16, "Unauthorized"), plain),
    ensures
        r.code == 401,
        r.reason@ == "Unauthorized"@,
        made is None ==> r.headers@.len() == plain.headers@.len(),
        made is Some ==> {
            let n = r.headers@.len();
            &&& n == plain.headers@.len() + 1
            &&& r.headers@[n - 1].0@ == "WWW-Authenticate"@
            &&& r.headers@[n - 1].1@ == made->0@
        },
{
    let v = header_views(r.headers@);
    assert(v.len() == r.headers@.len());
    assert(header_views(plain.headers@).len() == plain.headers@.len());
    if made is Some {
        let n = r.headers@.len();
        assert(v[n - 1] == (r.headers@[n - 1].0@, r.headers@[n - 1].1@));
    }
}

/// A policy asks whom it is told to ask, with the credentials that it is given.
pub proof fn a_policy_is_as_configured(
    realm: &str,
    algorithm: &str,
    qop: &str,
    users: Vec<(String, String)>,
    require_all: bool,
    required_trunks: Vec<String>,
    freshness: NonceFreshness,
    auth: InboundDigestAuth,
    source: &str,
    asked: bool,
    i: int,
)
    requires
        call_ensures(
            InboundDigestAuth::new,
            (realm, algorithm, qop, users, require_all, required_trunks, freshness),
            auth,
        ),
        call_ensures(InboundDigestAuth::requires_auth, (&auth, source), asked),
    ensures
        require_all ==> asked,
        0 <= i < required_trunks@.len() && required_trunks@[i]@ == source@ ==> asked,
        !require_all && required_trunks@.len() == 0 ==> !asked,
        auth.store.realm@ == realm@ && auth.store.users == users,
        auth.algorithm@ == algorithm@ && auth.qop@ == qop@,
        auth.freshness == freshness,
{
    every_listed_source_must_authenticate(&auth, source, asked, i);
}

} // verus!
