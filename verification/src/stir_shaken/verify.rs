//! The verification of a signed call: parse, fetch, check the chain, hold the claims
//! against the call.
//!
//! Parsing the header, fetching over the network and the cryptography are done by
//! the caller; [`Verifier`] says what is needed next and folds every outcome into a
//! [`VerificationResult`]. Verification never errors: every failure is a result.
use vstd::prelude::*;

use crate::security::attestation::AttestationLevel;
use crate::security::config::StirShakenConfig;
use crate::security::verstat::VerificationResult;
use crate::stir_shaken::cache::{CachedChain, CertCache};
use crate::stir_shaken::fetch::FetchError;
use crate::stir_shaken::pem::{
    byte_views, certificates, load_trust_anchors, TrustAnchorLoadError,
};
use crate::telemetry::admin_route::opt_view;
use crate::text::{chars_of, concat, concat3, decimal, decimal_string};

verus! {

/// Failure constructing a verifier.
#[derive(Debug)]
pub enum BuildError {
    /// The trust-anchor file could not be loaded.
    TrustAnchors(TrustAnchorLoadError),
    /// The HTTP client could not be built.
    HttpClient(String),
    /// A supplemental certificate for the fetch could not be parsed.
    ExtraCa(String),
}

impl BuildError {
    pub open spec fn message(self) -> Seq<char> {
        match self {
            BuildError::TrustAnchors(e) => "loading trust anchors: "@ + e.message(),
            BuildError::HttpClient(e) => "building HTTP client: "@ + e@,
            BuildError::ExtraCa(e) => "x5u_tls_extra_ca certificate invalid: "@ + e@,
        }
    }

    /// The message, as operators see it.
    pub fn to_string(&self) -> (r: String)
        ensures
            r@ == self.message(),
    {
        match self {
            BuildError::TrustAnchors(e) => {
                let m = e.to_string();
                concat("loading trust anchors: ", m.as_str())
            },
            BuildError::HttpClient(e) => concat("building HTTP client: ", e.as_str()),
            BuildError::ExtraCa(e) => concat("x5u_tls_extra_ca certificate invalid: ", e.as_str()),
        }
    }
}

/// The file was read and holds a certificate.
pub open spec fn holds_certificates(contents: Result<&[u8], String>) -> bool {
    contents matches Ok(bytes) && certificates(bytes@).len() > 0
}

/// `e` says why the file at `path` is no bundle of certificates.
pub open spec fn load_failed(
    e: TrustAnchorLoadError,
    path: Seq<char>,
    contents: Result<&[u8], String>,
) -> bool {
    match (contents, e) {
        (Err(m), TrustAnchorLoadError::Io { path: p, source }) => p@ == path && source == m,
        (Ok(_), TrustAnchorLoadError::Empty { path: p }) => p@ == path,
        _ => false,
    }
}

/// Seconds as milliseconds, as far as those can be counted.
pub open spec fn millis(secs: u64) -> u64 {
    if secs <= u64::MAX / 1000 {
        (secs * 1000) as u64
    } else {
        u64::MAX
    }
}

/// The claims of a parsed token.
#[derive(Debug)]
pub struct PassportClaims {
    pub attest: Option<AttestationLevel>,
    pub orig_tn: Option<String>,
    pub dest_tns: Vec<String>,
    /// Issue time, in seconds since the Unix epoch.
    pub iat: Option<i64>,
}

/// Why a chain or signature check failed.
#[derive(Debug)]
pub enum VerifyError {
    ChainInvalid(String),
    SignatureInvalid,
    CertParse(String),
    UnsupportedAlg(String),
    MalformedKey { len: usize },
}

// ---- Telephone numbers ----

/// A decimal digit character.
pub open spec fn is_digit(c: char) -> bool {
    '0' <= c <= '9'
}

/// The digits of `s`, in order.
pub open spec fn digits_of(s: Seq<char>) -> Seq<char>
    decreases s.len(),
{
    if s.len() == 0 {
        Seq::empty()
    } else if is_digit(s.last()) {
        digits_of(s.drop_last()).push(s.last())
    } else {
        digits_of(s.drop_last())
    }
}

/// Two numbers are the same number: the same digits, at least one.
pub open spec fn same_number(claim: Seq<char>, user: Seq<char>) -> bool {
    digits_of(claim).len() > 0 && digits_of(claim) == digits_of(user)
}

/// The digits of `s`.
pub fn digits(s: &str) -> (r: String)
    ensures
        r@ == digits_of(s@),
{
    let v = chars_of(s);
    let mut r = String::new();
    let mut i: usize = 0;
    assert(digits_of(s@.subrange(0, 0)) =~= Seq::empty());
    while i < v.len()
        invariant
            v@ == s@,
            i <= v@.len(),
            r@ == digits_of(s@.subrange(0, i as int)),
        decreases v@.len() - i,
    {
        let c = v[i];
        assert(s@.subrange(0, i + 1).drop_last() =~= s@.subrange(0, i as int));
        if '0' <= c && c <= '9' {
            r.push(c);
        }
        i += 1;
    }
    assert(s@.subrange(0, i as int) =~= s@);
    r
}

/// Compare a claimed number with a SIP user part on digits only: signs and
/// separators do not count, and nothing matches a text without digits.
pub fn tn_matches(claim: &str, sip_user: &str) -> (r: bool)
    ensures
        r == same_number(claim@, sip_user@),
{
    let a = digits(claim);
    let b = digits(sip_user);
    !a.as_str().is_empty() && a == b
}

/// The digits of two texts in a row are the digits of each in a row.
proof fn digits_of_concat(a: Seq<char>, b: Seq<char>)
    ensures
        digits_of(a + b) == digits_of(a) + digits_of(b),
    decreases b.len(),
{
    if b.len() == 0 {
        assert(a + b =~= a);
        assert(digits_of(a) + digits_of(b) =~= digits_of(a));
    } else {
        digits_of_concat(a, b.drop_last());
        assert((a + b).drop_last() =~= a + b.drop_last());
        assert((a + b).last() == b.last());
        assert(digits_of(a) + digits_of(b) =~= digits_of(a + b));
    }
}

/// A separator anywhere in a number changes no comparison.
pub proof fn separators_do_not_count(a: Seq<char>, c: char, b: Seq<char>, other: Seq<char>)
    requires
        !is_digit(c),
    ensures
        same_number(a.push(c) + b, other) == same_number(a + b, other),
        same_number(other, a.push(c) + b) == same_number(other, a + b),
{
    digits_of_concat(a.push(c), b);
    digits_of_concat(a, b);
    assert(a.push(c).drop_last() =~= a);
}

proof fn digits_are_what_is_left(s: Seq<char>, digit: spec_fn(char) -> bool)
    requires
        forall|c: char| #[trigger] digit(c) <==> '0' <= c <= '9',
    ensures
        digits_of(s) == s.filter(digit),
    decreases s.len(),
{
    reveal(Seq::filter);
    if s.len() > 0 {
        digits_are_what_is_left(s.drop_last(), digit);
    }
}

/// Two numbers match exactly when striking out everything but the digits leaves the
/// same text of both, and leaves something: as many digits, and each at its place the
/// same.
pub proof fn numbers_match_digit_by_digit(
    claim: &str,
    sip_user: &str,
    r: bool,
    digit: spec_fn(char) -> bool,
)
    requires
        call_ensures(tn_matches, (claim, sip_user), r),
        forall|c: char| #[trigger] digit(c) <==> '0' <= c <= '9',
    ensures
        ({
            let a = claim@.filter(digit);
            let b = sip_user@.filter(digit);
            r <==> a.len() > 0 && a.len() == b.len() && forall|k: int|
                0 <= k < a.len() ==> a[k] == #[trigger] b[k]
        }),
{
    digits_are_what_is_left(claim@, digit);
    digits_are_what_is_left(sip_user@, digit);
    let a = claim@.filter(digit);
    let b = sip_user@.filter(digit);
    if a.len() == b.len() && forall|k: int| 0 <= k < a.len() ==> a[k] == #[trigger] b[k] {
        assert(a =~= b);
    }
}

/// Numbers that differ in one digit, wherever it stands and whatever is around it, do
/// not match, and a number matches itself.
pub proof fn one_other_digit_is_another_number(
    before: Seq<char>,
    one: char,
    other: char,
    after: Seq<char>,
    claim: &str,
    sip_user: &str,
    r: bool,
)
    requires
        '0' <= one <= '9',
        '0' <= other <= '9',
        claim@ == before.push(one) + after,
        sip_user@ == before.push(other) + after,
        call_ensures(tn_matches, (claim, sip_user), r),
    ensures
        r <==> one == other,
{
    digits_of_concat(before.push(one), after);
    digits_of_concat(before.push(other), after);
    assert(before.push(one).drop_last() =~= before);
    assert(before.push(other).drop_last() =~= before);
    let n = digits_of(before).len() as int;
    assert(digits_of(claim@)[n] == one);
    assert(digits_of(sip_user@)[n] == other);
}

/// Texts of digits alone match exactly when they are the same text.
pub proof fn plain_numbers_match_when_equal(claim: &str, sip_user: &str, r: bool)
    requires
        forall|k: int| 0 <= k < claim@.len() ==> '0' <= #[trigger] claim@[k] <= '9',
        forall|k: int| 0 <= k < sip_user@.len() ==> '0' <= #[trigger] sip_user@[k] <= '9',
        call_ensures(tn_matches, (claim, sip_user), r),
    ensures
        r <==> claim@.len() > 0 && claim@ == sip_user@,
{
    digits_of_digits(claim@);
    digits_of_digits(sip_user@);
}

proof fn digits_of_digits(s: Seq<char>)
    requires
        forall|k: int| 0 <= k < s.len() ==> '0' <= #[trigger] s[k] <= '9',
    ensures
        digits_of(s) == s,
    decreases s.len(),
{
    if s.len() > 0 {
        let front = s.drop_last();
        assert forall|k: int| 0 <= k < front.len() implies '0' <= #[trigger] front[k] <= '9' by {
            assert(front[k] == s[k]);
        }
        digits_of_digits(front);
        assert(s[s.len() - 1] == s.last());
        assert(digits_of(s) =~= s);
    } else {
        assert(digits_of(s) =~= s);
    }
}

/// The originating claim matches the `From` user.
pub open spec fn orig_bound(p: PassportClaims, from_user: Seq<char>) -> bool {
    p.orig_tn is Some && same_number(p.orig_tn->0@, from_user)
}

/// Some destination claim matches the `To` user.
pub open spec fn dest_bound(p: PassportClaims, to_user: Seq<char>) -> bool {
    exists|i: int| 0 <= i < p.dest_tns@.len() && same_number(#[trigger] p.dest_tns@[i]@, to_user)
}

/// Does the originating claim match the `From` user?
pub fn orig_matches(passport: &PassportClaims, from_user: &str) -> (r: bool)
    ensures
        r == orig_bound(*passport, from_user@),
{
    match &passport.orig_tn {
        Some(tn) => tn_matches(tn.as_str(), from_user),
        None => false,
    }
}

/// Does any destination claim match the `To` user?
pub fn dest_matches(passport: &PassportClaims, to_user: &str) -> (r: bool)
    ensures
        r == dest_bound(*passport, to_user@),
{
    let mut i: usize = 0;
    while i < passport.dest_tns.len()
        invariant
            i <= passport.dest_tns@.len(),
            forall|k: int| 0 <= k < i ==> !same_number(#[trigger] passport.dest_tns@[k]@, to_user@),
        decreases passport.dest_tns@.len() - i,
    {
        if tn_matches(passport.dest_tns[i].as_str(), to_user) {
            return true;
        }
        i += 1;
    }
    false
}

// ---- Freshness ----

/// The distance between two times.
pub open spec fn skew(now: u64, iat: i64) -> int {
    if now >= iat {
        now - iat
    } else {
        iat - now
    }
}

/// The issue time is within `window` seconds of `now`, past or future. A window of
/// zero disables the check; a missing issue time is never fresh.
pub open spec fn fresh(iat: Option<i64>, now: u64, window: u64) -> bool {
    window == 0 || (iat is Some && skew(now, iat->0) <= window)
}

/// Whether the token is fresh. All times in seconds.
pub fn iat_fresh(iat: Option<i64>, now: u64, window: u64) -> (r: bool)
    ensures
        r == fresh(iat, now, window),
{
    if window == 0 {
        return true;
    }
    match iat {
        None => false,
        Some(t) => {
            let d: i128 = now as i128 - t as i128;
            let a: i128 = if d >= 0 {
                d
            } else {
                -d
            };
            a <= window as i128
        },
    }
}

/// Why the token is not fresh.
pub open spec fn staleness(iat: Option<i64>) -> Seq<char> {
    match iat {
        Some(_) => "PASSporT iat outside the freshness window"@,
        None => "PASSporT has no iat claim"@,
    }
}

/// Human-readable reason for a freshness failure.
pub fn iat_error(iat: Option<i64>) -> (r: String)
    ensures
        r@ == staleness(iat),
{
    match iat {
        Some(_) => "PASSporT iat outside the freshness window".to_owned(),
        None => "PASSporT has no iat claim".to_owned(),
    }
}

// ---- Folding the checks into a result ----

/// Why the claims do not bind the token to the call.
pub open spec fn mismatch(orig_passed: bool, dest_passed: bool) -> Option<Seq<char>> {
    if orig_passed && dest_passed {
        None
    } else if dest_passed {
        Some("orig.tn did not match SIP From"@)
    } else if orig_passed {
        Some("dest.tn did not match SIP To"@)
    } else {
        Some("orig.tn and dest.tn did not match SIP From/To"@)
    }
}

/// Describe a failure to bind the token to the call.
pub fn claim_mismatch(orig_passed: bool, dest_passed: bool) -> (r: Option<String>)
    ensures
        opt_view(r) == mismatch(orig_passed, dest_passed),
{
    match (orig_passed, dest_passed) {
        (true, true) => None,
        (false, true) => Some("orig.tn did not match SIP From".to_owned()),
        (true, false) => Some("dest.tn did not match SIP To".to_owned()),
        (false, false) => Some("orig.tn and dest.tn did not match SIP From/To".to_owned()),
    }
}

/// What the cryptographic check found; `None` when there was no certificate to check
/// with.
pub type ChainCheck = Option<Result<(), VerifyError>>;

/// Whether the chain held.
pub open spec fn chain_held(check: ChainCheck) -> bool {
    match check {
        Some(Ok(_)) => true,
        Some(Err(VerifyError::SignatureInvalid)) => true,
        _ => false,
    }
}

/// Whether the signature held.
pub open spec fn signature_held(check: ChainCheck) -> bool {
    check matches Some(Ok(_))
}

/// Why the cryptographic check failed.
pub open spec fn crypto_failure(check: ChainCheck) -> Option<Seq<char>> {
    match check {
        None => Some("x5u returned no certificates"@),
        Some(Ok(_)) => None,
        Some(Err(VerifyError::ChainInvalid(m))) => Some("certificate chain invalid: "@ + m@),
        Some(Err(VerifyError::SignatureInvalid)) => Some("PASSporT signature did not verify"@),
        Some(Err(VerifyError::CertParse(m))) => Some("certificate parse failed: "@ + m@),
        Some(Err(VerifyError::UnsupportedAlg(a))) => Some("unsupported PASSporT alg: "@ + a@),
        Some(Err(VerifyError::MalformedKey { len })) => Some(
            "malformed signing key ("@ + decimal(len as nat) + " bytes)"@,
        ),
    }
}

/// The two booleans of the result and the reason. The chain is checked before the
/// signature, so a bad signature still means a good chain.
pub fn run_chain_verify(check: ChainCheck) -> (r: (bool, bool, Option<String>))
    ensures
        r.0 == chain_held(check),
        r.1 == signature_held(check),
        opt_view(r.2) == crypto_failure(check),
{
    match check {
        None => (false, false, Some("x5u returned no certificates".to_owned())),
        Some(Ok(_)) => (true, true, None),
        Some(Err(VerifyError::ChainInvalid(m))) => (
            false,
            false,
            Some(concat("certificate chain invalid: ", m.as_str())),
        ),
        Some(Err(VerifyError::SignatureInvalid)) => (
            true,
            false,
            Some("PASSporT signature did not verify".to_owned()),
        ),
        Some(Err(VerifyError::CertParse(m))) => (
            false,
            false,
            Some(concat("certificate parse failed: ", m.as_str())),
        ),
        Some(Err(VerifyError::UnsupportedAlg(a))) => (
            false,
            false,
            Some(concat("unsupported PASSporT alg: ", a.as_str())),
        ),
        Some(Err(VerifyError::MalformedKey { len })) => {
            let n = decimal_string(len as u64);
            (
                false,
                false,
                Some(concat3("malformed signing key (", n.as_str(), " bytes)")),
            )
        },
    }
}

/// The headline reason of a result: a cryptographic failure, then a claim mismatch,
/// then staleness.
pub open spec fn headline(
    p: PassportClaims,
    from_user: Seq<char>,
    to_user: Seq<char>,
    check: ChainCheck,
    now: u64,
    window: u64,
) -> Option<Seq<char>> {
    let crypto = crypto_failure(check);
    let claims = mismatch(orig_bound(p, from_user), dest_bound(p, to_user));
    if crypto is Some {
        crypto
    } else if claims is Some {
        claims
    } else if !fresh(p.iat, now, window) {
        Some(staleness(p.iat))
    } else {
        None
    }
}

/// `v` is the result on a token whose cryptographic check gave `check`.
pub open spec fn is_result_of(
    v: VerificationResult,
    p: PassportClaims,
    from_user: Seq<char>,
    to_user: Seq<char>,
    check: ChainCheck,
    now: u64,
    window: u64,
) -> bool {
    &&& v.attest == p.attest
    &&& v.orig_tn == p.orig_tn
    &&& v.orig_passed == orig_bound(p, from_user)
    &&& v.dest_passed == dest_bound(p, to_user)
    &&& v.cert_chain_valid == chain_held(check)
    &&& v.signature_valid == signature_held(check)
    &&& v.iat_passed == fresh(p.iat, now, window)
    &&& opt_view(v.error) == headline(p, from_user, to_user, check, now, window)
}

/// The full result, once the outcome of the cryptographic check is known.
pub fn build_result(
    passport: &PassportClaims,
    from_user: &str,
    to_user: &str,
    check: ChainCheck,
    now: u64,
    window: u64,
) -> (r: VerificationResult)
    ensures
        is_result_of(r, *passport, from_user@, to_user@, check, now, window),
{
    let orig_passed = orig_matches(passport, from_user);
    let dest_passed = dest_matches(passport, to_user);
    let iat_passed = iat_fresh(passport.iat, now, window);
    let (cert_chain_valid, signature_valid, crypto_err) = run_chain_verify(check);
    let error = match crypto_err {
        Some(e) => Some(e),
        None => match claim_mismatch(orig_passed, dest_passed) {
            Some(e) => Some(e),
            None => if iat_passed {
                None
            } else {
                Some(iat_error(passport.iat))
            },
        },
    };
    VerificationResult {
        attest: passport.attest,
        orig_tn: passport.orig_tn.clone(),
        orig_passed,
        dest_passed,
        cert_chain_valid,
        signature_valid,
        iat_passed,
        error,
    }
}

/// What is verified of a call is what the call says: the originating number is that of
/// `From`, one of the destinations is that of `To`, digit by digit; the certificate
/// chain held, and the signature; and the token was issued within the window, before or
/// after now. Each is told by itself, the claims are passed on, and a reason is named
/// exactly when one of them is missing.
pub proof fn a_result_tells_each_check(
    passport: &PassportClaims,
    from_user: &str,
    to_user: &str,
    check: ChainCheck,
    now: u64,
    window: u64,
    r: VerificationResult,
    digit: spec_fn(char) -> bool,
)
    requires
        call_ensures(build_result, (passport, from_user, to_user, check, now, window), r),
        forall|c: char| #[trigger] digit(c) <==> '0' <= c <= '9',
    ensures
        r.attest == passport.attest,
        r.orig_tn == passport.orig_tn,
        r.orig_passed <==> (passport.orig_tn matches Some(tn) && tn@.filter(digit).len() > 0
            && tn@.filter(digit) == from_user@.filter(digit)),
        r.dest_passed <==> exists|i: int|
            0 <= i < passport.dest_tns@.len() && (#[trigger] passport.dest_tns@[i])@.filter(
                digit,
            ).len() > 0 && passport.dest_tns@[i]@.filter(digit) == to_user@.filter(digit),
        r.signature_valid <==> (check matches Some(Ok(_))),
        r.cert_chain_valid <==> (check matches Some(Ok(_))) || (check matches Some(Err(e)) && e
            is SignatureInvalid),
        r.iat_passed <==> window == 0 || (passport.iat matches Some(t) && t - window <= now <= t
            + window),
        r.error is None <==> r.orig_passed && r.dest_passed && r.signature_valid
            && r.cert_chain_valid && r.iat_passed,
        (check matches Some(Ok(_))) && !r.orig_passed && r.dest_passed ==> r.error->0@
            == "orig.tn did not match SIP From"@,
        (check matches Some(Ok(_))) && r.orig_passed && !r.dest_passed ==> r.error->0@
            == "dest.tn did not match SIP To"@,
        (check matches Some(Ok(_))) && !r.orig_passed && !r.dest_passed ==> r.error->0@
            == "orig.tn and dest.tn did not match SIP From/To"@,
        (check matches Some(Ok(_))) && r.orig_passed && r.dest_passed && !r.iat_passed
            ==> r.error->0@ == (if passport.iat is Some {
            "PASSporT iat outside the freshness window"@
        } else {
            "PASSporT has no iat claim"@
        }),
        check is None ==> r.error->0@ == "x5u returned no certificates"@,
        check matches Some(Err(VerifyError::SignatureInvalid)) ==> r.error->0@
            == "PASSporT signature did not verify"@,
        check matches Some(Err(VerifyError::ChainInvalid(m))) ==> r.error->0@
            == "certificate chain invalid: "@ + m@,
        check matches Some(Err(VerifyError::CertParse(m))) ==> r.error->0@
            == "certificate parse failed: "@ + m@,
        check matches Some(Err(VerifyError::UnsupportedAlg(m))) ==> r.error->0@
            == "unsupported PASSporT alg: "@ + m@,
{
    digits_are_what_is_left(from_user@, digit);
    digits_are_what_is_left(to_user@, digit);
    if passport.orig_tn is Some {
        digits_are_what_is_left(passport.orig_tn->0@, digit);
    }
    assert forall|i: int| 0 <= i < passport.dest_tns@.len() implies digits_of(
        (#[trigger] passport.dest_tns@[i])@,
    ) == passport.dest_tns@[i]@.filter(digit) by {
        digits_are_what_is_left(passport.dest_tns@[i]@, digit);
    }
}

/// A running verifier trusts a call exactly when the chain and the signature held, the
/// token was issued within its window, and both numbers are those of the call.
pub proof fn a_verifier_trusts_a_full_pass_alone(
    verifier: &Verifier,
    passport: &PassportClaims,
    from_user: &str,
    to_user: &str,
    check: ChainCheck,
    now: u64,
    r: VerificationResult,
    passed: bool,
    digit: spec_fn(char) -> bool,
)
    requires
        call_ensures(Verifier::checked, (verifier, passport, from_user, to_user, check, now), r),
        call_ensures(VerificationResult::passed, (&r,), passed),
        forall|c: char| #[trigger] digit(c) <==> '0' <= c <= '9',
    ensures
        passed <==> {
            &&& check matches Some(Ok(_))
            &&& verifier.window() == 0 || (passport.iat matches Some(t) && t - verifier.window()
                <= now <= t + verifier.window())
            &&& (passport.orig_tn matches Some(tn) && tn@.filter(digit).len() > 0 && tn@.filter(
                digit,
            ) == from_user@.filter(digit))
            &&& exists|i: int|
                0 <= i < passport.dest_tns@.len() && (#[trigger] passport.dest_tns@[i])@.filter(
                    digit,
                ).len() > 0 && passport.dest_tns@[i]@.filter(digit) == to_user@.filter(digit)
        },
{
    digits_are_what_is_left(from_user@, digit);
    digits_are_what_is_left(to_user@, digit);
    if passport.orig_tn is Some {
        digits_are_what_is_left(passport.orig_tn->0@, digit);
    }
    assert forall|i: int| 0 <= i < passport.dest_tns@.len() implies digits_of(
        (#[trigger] passport.dest_tns@[i])@,
    ) == passport.dest_tns@[i]@.filter(digit) by {
        digits_are_what_is_left(passport.dest_tns@[i]@, digit);
    }
}

/// A number that is trusted is the number in `From`: nobody's token vouches for a call
/// that shows another number than the token names, whatever else holds.
pub proof fn a_token_vouches_for_its_own_number_alone(
    passport: &PassportClaims,
    from_user: &str,
    to_user: &str,
    check: ChainCheck,
    now: u64,
    window: u64,
    r: VerificationResult,
    level: Option<AttestationLevel>,
    digit: spec_fn(char) -> bool,
)
    requires
        call_ensures(build_result, (passport, from_user, to_user, check, now, window), r),
        call_ensures(VerificationResult::trusted_attestation, (&r,), level),
        forall|c: char| #[trigger] digit(c) <==> '0' <= c <= '9',
    ensures
        level is Some ==> {
            &&& passport.orig_tn matches Some(tn)
            &&& tn@.filter(digit) == from_user@.filter(digit)
            &&& exists|i: int|
                0 <= i < passport.dest_tns@.len() && (#[trigger] passport.dest_tns@[i])@.filter(
                    digit,
                ) == to_user@.filter(digit)
        },
        level is Some ==> level == passport.attest,
{
    a_result_tells_each_check(passport, from_user, to_user, check, now, window, r, digit);
}

/// A header that does not parse, and one whose certificate could not be fetched, is
/// trusted in nothing, and says why.
pub proof fn a_failed_verification_is_never_trusted(
    message: &str,
    parsed: VerificationResult,
    passport: &PassportClaims,
    from_user: &str,
    to_user: &str,
    e: &FetchError,
    now: u64,
    window: u64,
    fetched: VerificationResult,
    level: Option<AttestationLevel>,
)
    requires
        call_ensures(parse_failure, (message,), parsed),
        call_ensures(fetch_failure, (passport, from_user, to_user, e, now, window), fetched),
        call_ensures(VerificationResult::trusted_attestation, (&parsed,), level)
            || call_ensures(VerificationResult::trusted_attestation, (&fetched,), level),
    ensures
        level is None,
        parsed.error is Some && fetched.error is Some,
        parsed.attest is None,
{
}

/// A result passes exactly when it names no reason not to.
pub proof fn a_result_passes_iff_it_has_no_error(
    v: VerificationResult,
    p: PassportClaims,
    from_user: Seq<char>,
    to_user: Seq<char>,
    check: ChainCheck,
    now: u64,
    window: u64,
)
    requires
        is_result_of(v, p, from_user, to_user, check, now, window),
    ensures
        v.all_passed() <==> v.error is None,
{
}

/// The result for a header that is there but does not parse.
pub fn parse_failure(e: &str) -> (r: VerificationResult)
    ensures
        r.error is Some && r.error->0@ == "Identity header parse failed: "@ + e@,
        r == (VerificationResult {
            attest: None,
            orig_tn: None,
            orig_passed: false,
            dest_passed: false,
            cert_chain_valid: false,
            signature_valid: false,
            iat_passed: false,
            error: r.error,
        }),
{
    VerificationResult {
        error: Some(concat("Identity header parse failed: ", e)),
        ..VerificationResult::unsigned()
    }
}

/// The result for a header whose certificate could not be fetched: the claims are
/// held against the call, but nothing cryptographic could be checked.
pub fn fetch_failure(
    passport: &PassportClaims,
    from_user: &str,
    to_user: &str,
    e: &FetchError,
    now: u64,
    window: u64,
) -> (r: VerificationResult)
    ensures
        r.attest == passport.attest,
        r.orig_tn == passport.orig_tn,
        r.orig_passed == orig_bound(*passport, from_user@),
        r.dest_passed == dest_bound(*passport, to_user@),
        !r.cert_chain_valid && !r.signature_valid,
        r.iat_passed == fresh(passport.iat, now, window),
        r.error is Some && r.error->0@ == "x5u certificate fetch failed: "@ + e.message(),
{
    let m = e.to_string();
    VerificationResult {
        attest: passport.attest,
        orig_tn: passport.orig_tn.clone(),
        orig_passed: orig_matches(passport, from_user),
        dest_passed: dest_matches(passport, to_user),
        cert_chain_valid: false,
        signature_valid: false,
        iat_passed: iat_fresh(passport.iat, now, window),
        error: Some(concat("x5u certificate fetch failed: ", m.as_str())),
    }
}

// ---- The verifier ----

/// What a verification needs next.
#[derive(Debug)]
pub enum VerifyStep {
    /// The result.
    Done(VerificationResult),
    /// Fetch the certificate chain.
    Fetch,
    /// Check the chain and the signature against the trust anchors.
    Check { chain: Vec<Vec<u8>> },
}

/// Verifies inbound `Identity` headers: the trust anchors, the certificate cache and
/// the two windows.
pub struct Verifier {
    trust_anchors: Vec<Vec<u8>>,
    cache: CertCache,
    /// How long a fetched chain is kept, in milliseconds.
    cache_ttl_ms: u64,
    /// Freshness window in seconds; zero disables the check.
    iat_freshness: u64,
}

impl Verifier {
    pub closed spec fn anchors(self) -> Seq<Vec<u8>> {
        self.trust_anchors@
    }

    pub closed spec fn cached(self) -> Map<Seq<char>, CachedChain> {
        self.cache@
    }

    pub closed spec fn ttl_ms(self) -> u64 {
        self.cache_ttl_ms
    }

    pub closed spec fn window(self) -> u64 {
        self.iat_freshness
    }

    pub closed spec fn wf(self) -> bool {
        self.cache.wf()
    }

    /// Nothing but the cache differs.
    pub open spec fn same_settings(self, other: Verifier) -> bool {
        &&& self.anchors() == other.anchors()
        &&& self.ttl_ms() == other.ttl_ms()
        &&& self.window() == other.window()
    }

    /// A verifier with an empty cache.
    pub fn new(trust_anchors: Vec<Vec<u8>>, cache_ttl_ms: u64, iat_freshness: u64) -> (r: Self)
        ensures
            r.wf(),
            r.anchors() == trust_anchors@,
            r.ttl_ms() == cache_ttl_ms,
            r.window() == iat_freshness,
            r.cached() == Map::<Seq<char>, CachedChain>::empty(),
    {
        Verifier { trust_anchors, cache: CertCache::new(), cache_ttl_ms, iat_freshness }
    }

    /// A verifier as configured, and the certificates that the fetch trusts besides
    /// the public roots. `anchors` and `extra` are what reading the two configured
    /// files gave; the second is not looked at where no path is set. Each file must
    /// be readable and hold a certificate.
    pub fn from_config(
        cfg: &StirShakenConfig,
        anchors: Result<&[u8], String>,
        extra: Result<&[u8], String>,
    ) -> (r: Result<(Self, Vec<Vec<u8>>), BuildError>)
        ensures
            match r {
                Ok(v) => {
                    &&& v.0.wf()
                    &&& holds_certificates(anchors)
                    &&& byte_views(v.0.anchors()) == certificates(anchors->Ok_0@)
                    &&& v.0.ttl_ms() == millis(cfg.cert_cache_ttl)
                    &&& v.0.window() == cfg.iat_freshness
                    &&& v.0.cached() == Map::<Seq<char>, CachedChain>::empty()
                    &&& match cfg.x5u_tls_extra_ca {
                        Some(_) => holds_certificates(extra) && byte_views(v.1@) == certificates(
                            extra->Ok_0@,
                        ),
                        None => v.1@.len() == 0,
                    }
                },
                Err(e) => e matches BuildError::TrustAnchors(e) && if !holds_certificates(anchors) {
                    load_failed(e, cfg.trust_anchors@, anchors)
                } else {
                    cfg.x5u_tls_extra_ca matches Some(path) && !holds_certificates(extra)
                        && load_failed(e, path@, extra)
                },
            },
    {
        let roots = match load_trust_anchors(cfg.trust_anchors.as_str(), anchors) {
            Ok(v) => v,
            Err(e) => {
                return Err(BuildError::TrustAnchors(e));
            },
        };
        let more = match &cfg.x5u_tls_extra_ca {
            Some(path) => match load_trust_anchors(path.as_str(), extra) {
                Ok(v) => v,
                Err(e) => {
                    return Err(BuildError::TrustAnchors(e));
                },
            },
            None => Vec::new(),
        };
        let ttl_ms: u64 = if cfg.cert_cache_ttl <= u64::MAX / 1000 {
            cfg.cert_cache_ttl * 1000
        } else {
            u64::MAX
        };
        Ok((Verifier::new(roots, ttl_ms, cfg.iat_freshness), more))
    }

    /// The trust anchors.
    pub fn trust_anchors(&self) -> (r: &Vec<Vec<u8>>)
        ensures
            r@ == self.anchors(),
    {
        &self.trust_anchors
    }

    /// The first step on a header: its result when it does not parse, a check when
    /// the chain of its `x5u` is cached and alive at `now_ms`, a fetch otherwise.
    /// `header` is the `x5u` reference, or the parser's message.
    pub fn verify(&mut self, header: Result<&str, &str>, now_ms: u64) -> (r: VerifyStep)
        requires
            old(self).wf(),
        ensures
            final(self).wf(),
            final(self).same_settings(*old(self)),
            match header {
                Err(e) => {
                    &&& final(self).cached() == old(self).cached()
                    &&& r is Done
                    &&& r->Done_0.error is Some
                    &&& r->Done_0.error->0@ == "Identity header parse failed: "@ + e@
                    &&& r->Done_0 == (VerificationResult {
                        attest: None,
                        orig_tn: None,
                        orig_passed: false,
                        dest_passed: false,
                        cert_chain_valid: false,
                        signature_valid: false,
                        iat_passed: false,
                        error: r->Done_0.error,
                    })
                },
                Ok(x5u) => {
                    let c = old(self).cached();
                    if c.dom().contains(x5u@) && c[x5u@].expires_at > now_ms {
                        &&& final(self).cached() == c
                        &&& r is Check
                        &&& byte_views(r->chain@) == c[x5u@].chain
                    } else {
                        &&& final(self).cached() == c.remove(x5u@)
                        &&& r is Fetch
                    }
                },
            },
    {
        match header {
            Err(e) => VerifyStep::Done(parse_failure(e)),
            Ok(x5u) => match self.cache.get(x5u, now_ms) {
                Some(chain) => VerifyStep::Check { chain },
                None => VerifyStep::Fetch,
            },
        }
    }

    /// The step after a fetch: the chain is cached for the configured lifetime and
    /// goes to the check; a failed fetch is a result.
    pub fn fetched(
        &mut self,
        passport: &PassportClaims,
        x5u: &str,
        from_user: &str,
        to_user: &str,
        outcome: Result<Vec<Vec<u8>>, FetchError>,
        now_ms: u64,
        now: u64,
    ) -> (r: VerifyStep)
        requires
            old(self).wf(),
        ensures
            final(self).wf(),
            final(self).same_settings(*old(self)),
            match outcome {
                Ok(chain) => {
                    &&& r is Check
                    &&& byte_views(r->chain@) == byte_views(chain@)
                    &&& final(self).cached() == old(self).cached().insert(
                        x5u@,
                        CachedChain {
                            chain: byte_views(chain@),
                            expires_at: if now_ms + old(self).ttl_ms() <= u64::MAX {
                                (now_ms + old(self).ttl_ms()) as u64
                            } else {
                                u64::MAX
                            },
                        },
                    )
                },
                Err(e) => {
                    &&& final(self).cached() == old(self).cached()
                    &&& r is Done
                    &&& r->Done_0.attest == passport.attest
                    &&& r->Done_0.orig_tn == passport.orig_tn
                    &&& r->Done_0.orig_passed == orig_bound(*passport, from_user@)
                    &&& r->Done_0.dest_passed == dest_bound(*passport, to_user@)
                    &&& !r->Done_0.cert_chain_valid && !r->Done_0.signature_valid
                    &&& r->Done_0.iat_passed == fresh(passport.iat, now, old(self).window())
                    &&& r->Done_0.error is Some
                    &&& r->Done_0.error->0@ == "x5u certificate fetch failed: "@ + e.message()
                },
            },
    {
        match outcome {
            Err(e) => VerifyStep::Done(
                fetch_failure(passport, from_user, to_user, &e, now, self.iat_freshness),
            ),
            Ok(chain) => {
                let kept = crate::stir_shaken::cache::copy_chain(&chain);
                let expires_at = now_ms.saturating_add(self.cache_ttl_ms);
                self.cache.insert(x5u.to_owned(), kept, expires_at);
                VerifyStep::Check { chain }
            },
        }
    }

    /// The result after the check.
    pub fn checked(
        &self,
        passport: &PassportClaims,
        from_user: &str,
        to_user: &str,
        check: ChainCheck,
        now: u64,
    ) -> (r: VerificationResult)
        ensures
            is_result_of(r, *passport, from_user@, to_user@, check, now, self.window()),
    {
        build_result(passport, from_user, to_user, check, now, self.iat_freshness)
    }
}

/// The leaf and the intermediates of a chain; `None` for an empty one.
pub fn split_chain(chain: Vec<Vec<u8>>) -> (r: Option<(Vec<u8>, Vec<Vec<u8>>)>)
    ensures
        match r {
            None => chain@.len() == 0,
            Some(p) => chain@.len() > 0 && p.0 == chain@[0] && p.1@ == chain@.drop_first(),
        },
{
    let mut rest = chain;
    if rest.len() == 0 {
        None
    } else {
        let leaf = rest.remove(0);
        assert(rest@ =~= chain@.drop_first());
        Some((leaf, rest))
    }
}

/// The certificate that signed is the first of its chain, and the rest follow in order.
pub proof fn the_signer_comes_first(
    chain: Vec<Vec<u8>>,
    r: Option<(Vec<u8>, Vec<Vec<u8>>)>,
)
    requires
        call_ensures(split_chain, (chain,), r),
    ensures
        r is Some <==> chain@.len() > 0,
        r matches Some(p) ==> seq![p.0] + p.1@ == chain@,
{
    if let Some(p) = r {
        assert(seq![p.0] + p.1@ =~= chain@);
    }
}

/// What a fetch brought is used without another fetch until it is as old as the
/// configured lifetime, and is fetched again from then on; a fetch that failed leaves
/// nothing behind and trusts nobody.
pub proof fn a_fetched_chain_is_used_until_it_is_too_old(
    verifier: &mut Verifier,
    passport: &PassportClaims,
    x5u: &str,
    from_user: &str,
    to_user: &str,
    outcome: Result<Vec<Vec<u8>>, FetchError>,
    now_ms: u64,
    now: u64,
    r: VerifyStep,
    after: &mut Verifier,
    later_ms: u64,
    s: VerifyStep,
)
    requires
        old(verifier).wf(),
        call_ensures(
            Verifier::fetched,
            (verifier, passport, x5u, from_user, to_user, outcome, now_ms, now),
            r,
        ),
        *old(after) == *final(verifier),
        call_ensures(Verifier::verify, (after, Ok::<&str, &str>(x5u), later_ms), s),
        now_ms + old(verifier).ttl_ms() <= u64::MAX,
    ensures
        outcome matches Ok(chain) ==> {
            &&& r is Check
            &&& s is Check <==> later_ms < now_ms + old(verifier).ttl_ms()
            &&& s is Check || s is Fetch
            &&& s is Check ==> byte_views(s->chain@) == byte_views(chain@)
        },
        outcome is Err ==> (r matches VerifyStep::Done(v) && !v.all_passed() && v.error is Some),
        outcome is Err && (forall|k: Seq<char>|
            !(#[trigger] old(verifier).cached().dom().contains(k))) ==> s is Fetch,
        final(verifier).window() == old(verifier).window(),
        final(verifier).anchors() == old(verifier).anchors(),
{
}

/// A header that does not parse is done with at once: nothing is fetched, nothing is
/// trusted, and the reason is the parser's.
pub proof fn a_header_that_does_not_parse_is_done_with(
    verifier: &mut Verifier,
    message: &str,
    now_ms: u64,
    r: VerifyStep,
)
    requires
        old(verifier).wf(),
        call_ensures(Verifier::verify, (verifier, Err::<&str, &str>(message), now_ms), r),
    ensures
        r matches VerifyStep::Done(v) && !v.all_passed() && v.attest is None && v.error is Some
            && v.error->0@ == "Identity header parse failed: "@ + message@,
        final(verifier).cached() == old(verifier).cached(),
{
}

/// Each claim is held against its own side of the call: the originating number against
/// `From`, and each of the destinations against `To`.
pub proof fn each_claim_is_held_against_its_side(
    passport: &PassportClaims,
    user: &str,
    orig: bool,
    dest: bool,
    digit: spec_fn(char) -> bool,
    i: int,
)
    requires
        call_ensures(orig_matches, (passport, user), orig),
        call_ensures(dest_matches, (passport, user), dest),
        forall|c: char| #[trigger] digit(c) <==> '0' <= c <= '9',
    ensures
        orig <==> passport.orig_tn is Some && passport.orig_tn->0@.filter(digit).len() > 0
            && passport.orig_tn->0@.filter(digit) == user@.filter(digit),
        0 <= i < passport.dest_tns@.len() && passport.dest_tns@[i]@.filter(digit).len() > 0
            && passport.dest_tns@[i]@.filter(digit) == user@.filter(digit) ==> dest,
        dest ==> exists|k: int|
            0 <= k < passport.dest_tns@.len() && (#[trigger] passport.dest_tns@[k])@.filter(
                digit,
            ).len() > 0 && passport.dest_tns@[k]@.filter(digit) == user@.filter(digit),
{
    digits_are_what_is_left(user@, digit);
    if passport.orig_tn is Some {
        digits_are_what_is_left(passport.orig_tn->0@, digit);
    }
    assert forall|k: int| 0 <= k < passport.dest_tns@.len() implies digits_of(
        (#[trigger] passport.dest_tns@[k])@,
    ) == passport.dest_tns@[k]@.filter(digit) by {
        digits_are_what_is_left(passport.dest_tns@[k]@, digit);
    }
    if 0 <= i < passport.dest_tns@.len() {
        assert(digits_of(passport.dest_tns@[i]@) == passport.dest_tns@[i]@.filter(digit));
    }
}

/// A token is fresh within the window around its issue, ahead as well as behind, and
/// without a window always; one without an issue time never is where there is a window.
pub proof fn a_token_is_fresh_around_its_issue(
    iat: Option<i64>,
    now: u64,
    window: u64,
    r: bool,
    why: String,
)
    requires
        call_ensures(iat_fresh, (iat, now, window), r),
        call_ensures(iat_error, (iat,), why),
    ensures
        window == 0 ==> r,
        window > 0 && iat is None ==> !r,
        window > 0 && iat is Some ==> (r <==> iat->0 - window <= now <= iat->0 + window),
        iat is None ==> why@ == "PASSporT has no iat claim"@,
        iat is Some ==> why@ == "PASSporT iat outside the freshness window"@,
{
}

/// A mismatch names the side that did not match, and there is none when both did.
pub proof fn a_mismatch_names_its_side(orig: bool, dest: bool, r: Option<String>)
    requires
        call_ensures(claim_mismatch, (orig, dest), r),
    ensures
        r is None <==> orig && dest,
        !orig && dest ==> r->0@ == "orig.tn did not match SIP From"@,
        orig && !dest ==> r->0@ == "dest.tn did not match SIP To"@,
        !orig && !dest ==> r->0@ == "orig.tn and dest.tn did not match SIP From/To"@,
{
}

/// The signature held only where everything did; the chain held there and where nothing but
/// the signature failed; and a reason is given exactly when something failed.
pub proof fn a_bad_signature_leaves_a_good_chain(
    check: ChainCheck,
    r: (bool, bool, Option<String>),
)
    requires
        call_ensures(run_chain_verify, (check,), r),
    ensures
        r.1 <==> (check is Some && check->0 is Ok),
        r.0 <==> (check is Some && (check->0 is Ok || check->0->Err_0 is SignatureInvalid)),
        r.2 is None <==> (check is Some && check->0 is Ok),
{
}

/// A verifier as configured trusts the certificates of the anchor file, in their order, and
/// keeps what it fetches and accepts tokens for as long as it is told; it is not built
/// without an anchor, nor without the certificates of the second file where one is named.
pub proof fn a_verifier_is_as_configured(
    cfg: &StirShakenConfig,
    anchors: Result<&[u8], String>,
    extra: Result<&[u8], String>,
    r: Result<(Verifier, Vec<Vec<u8>>), BuildError>,
    loaded: Result<Vec<Vec<u8>>, TrustAnchorLoadError>,
    path: &str,
    shown: &Vec<Vec<u8>>,
)
    requires
        call_ensures(Verifier::from_config, (cfg, anchors, extra), r),
        path@ == cfg.trust_anchors@,
        call_ensures(load_trust_anchors, (path, anchors), loaded),
        r is Ok ==> call_ensures(Verifier::trust_anchors, (&r->Ok_0.0,), shown),
    ensures
        r is Ok ==> loaded is Ok,
        loaded is Ok && cfg.x5u_tls_extra_ca is None ==> r is Ok,
        r is Ok ==> byte_views(shown@) == byte_views(loaded->Ok_0@),
        r is Ok ==> r->Ok_0.0.window() == cfg.iat_freshness,
        r is Ok && cfg.cert_cache_ttl <= 18_446_744_073_709_551 ==> r->Ok_0.0.ttl_ms()
            == cfg.cert_cache_ttl * 1000,
        r is Ok && cfg.x5u_tls_extra_ca is None ==> r->Ok_0.1@.len() == 0,
        r is Ok && cfg.x5u_tls_extra_ca is Some ==> r->Ok_0.1@.len() > 0,
{
    if r is Ok && cfg.x5u_tls_extra_ca is Some {
        assert(byte_views(r->Ok_0.1@).len() == r->Ok_0.1@.len());
    }
}

} // verus!
