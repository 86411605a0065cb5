//! Compiled call-verification configuration and the trust-anchor check.
use vstd::prelude::*;

use crate::text::{chars_of, concat3, debug_form, debug_quoted};

verus! {

/// Default lifetime of a cached signing certificate, in seconds.
pub const DEFAULT_CERT_CACHE_TTL: u64 = 3600;

/// Default freshness window of a token's issue time, in seconds.
pub const DEFAULT_IAT_FRESHNESS: u64 = 60;

/// Compiled call-verification block.
#[derive(Debug, Clone, PartialEq, Eq)]
pub struct StirShakenConfig {
    /// Master switch: when off, nothing is parsed or verified.
    pub enabled: bool,
    /// Path of the PEM bundle of trust anchors.
    pub trust_anchors: String,
    /// How long a fetched signing certificate is cached, in seconds.
    pub cert_cache_ttl: u64,
    /// Freshness window of a token's issue time, in seconds; `0` disables the check.
    pub iat_freshness: u64,
    /// Path of a PEM bundle trusted for the certificate fetch only.
    pub x5u_tls_extra_ca: Option<String>,
    /// Reject calls without an `Identity` header.
    pub require_identity: bool,
}

impl Default for StirShakenConfig {
    fn default() -> (r: Self)
        ensures
            !r.enabled,
            r.trust_anchors@.len() == 0,
            r.cert_cache_ttl == DEFAULT_CERT_CACHE_TTL,
            r.iat_freshness == DEFAULT_IAT_FRESHNESS,
            r.x5u_tls_extra_ca is None,
            !r.require_identity,
    {
        StirShakenConfig {
            enabled: false,
            trust_anchors: String::new(),
            cert_cache_ttl: DEFAULT_CERT_CACHE_TTL,
            iat_freshness: DEFAULT_IAT_FRESHNESS,
            x5u_tls_extra_ca: None,
            require_identity: false,
        }
    }
}

/// Failure loading or validating the trust-anchor file.
#[derive(Debug)]
pub enum TrustAnchorError {
    /// The file could not be read.
    Io { path: String, source: String },
    /// The file holds no PEM certificate.
    NoCertificates { path: String },
}

impl TrustAnchorError {
    pub open spec fn message(self) -> Seq<char> {
        match self {
            TrustAnchorError::Io { path, source } => "trust anchor file "@ + debug_form(path@)
                + " could not be read: "@ + source@,
            TrustAnchorError::NoCertificates { path } => "trust anchor file "@ + debug_form(path@)
                + " contains no PEM certificates"@,
        }
    }

    /// The message, as operators see it.
    pub fn to_string(&self) -> (r: String)
        ensures
            r@ == self.message(),
    {
        match self {
            TrustAnchorError::Io { path, source } => {
                let quoted = debug_quoted(path.as_str());
                let mut r = concat3("trust anchor file ", quoted.as_str(), " could not be read: ");
                r.push_str(source.as_str());
                r
            },
            TrustAnchorError::NoCertificates { path } => {
                let quoted = debug_quoted(path.as_str());
                concat3("trust anchor file ", quoted.as_str(), " contains no PEM certificates")
            },
        }
    }
}

/// How often `p` occurs in `s`, taken from the left without overlap.
pub open spec fn occurrences(s: Seq<char>, p: Seq<char>) -> nat
    decreases s.len(),
{
    if p.len() == 0 || s.len() < p.len() {
        0
    } else if s.subrange(0, p.len() as int) == p {
        1 + occurrences(s.subrange(p.len() as int, s.len() as int), p)
    } else {
        occurrences(s.drop_first(), p)
    }
}

/// The marker that opens a PEM certificate.
pub open spec fn pem_marker() -> Seq<char> {
    "-----BEGIN CERTIFICATE-----"@
}

/// Whether `v[i..i + p.len()]` is `p`.
fn found_at(v: &Vec<char>, i: usize, p: &Vec<char>) -> (r: bool)
    requires
        i + p@.len() <= v@.len(),
    ensures
        r == (v@.subrange(i as int, i + p@.len()) == p@),
{
    let n = v.len();
    let mut k: usize = 0;
    while k < p.len()
        invariant
            k <= p@.len(),
            n == v@.len(),
            i + p@.len() <= n,
            forall|j: int| 0 <= j < k ==> v@[i + j] == p@[j],
        decreases p@.len() - k,
    {
        if v[i + k] != p[k] {
            assert(v@.subrange(i as int, i + p@.len())[k as int] != p@[k as int]);
            return false;
        }
        k += 1;
    }
    assert(v@.subrange(i as int, i + p@.len()) =~= p@);
    true
}

/// Count the certificate blocks of a PEM bundle.
pub fn count_pem_certificates(pem: &str) -> (n: usize)
    ensures
        n == occurrences(pem@, pem_marker()),
{
    let v = chars_of(pem);
    let p = chars_of("-----BEGIN CERTIFICATE-----");
    proof {
        reveal_strlit("-----BEGIN CERTIFICATE-----");
    }
    let mut i: usize = 0;
    let mut n: usize = 0;
    assert(pem@.subrange(0, pem@.len() as int) =~= pem@);
    while v.len() - i >= p.len()
        invariant
            v@ == pem@,
            p@ == pem_marker(),
            p@.len() > 0,
            n <= i <= v@.len(),
            occurrences(pem@, p@) == n + occurrences(
                pem@.subrange(i as int, pem@.len() as int),
                p@,
            ),
        decreases v@.len() - i,
    {
        let ghost rest = pem@.subrange(i as int, pem@.len() as int);
        assert(rest.subrange(0, p@.len() as int) =~= v@.subrange(i as int, i + p@.len()));
        if found_at(&v, i, &p) {
            assert(rest.subrange(p@.len() as int, rest.len() as int) =~= pem@.subrange(
                i + p@.len(),
                pem@.len() as int,
            ));
            n += 1;
            i += p.len();
        } else {
            assert(rest.drop_first() =~= pem@.subrange(i + 1, pem@.len() as int));
            i += 1;
        }
    }
    n
}

/// Validate what reading the trust-anchor file at `path` gave: the number of
/// certificates, at least one, or the reason the file is unusable.
pub fn validate_trust_anchors(path: &str, contents: Result<&str, String>) -> (r: Result<
    usize,
    TrustAnchorError,
>)
    ensures
        match contents {
            Err(e) => r is Err && r->Err_0 is Io && r->Err_0->Io_path@ == path@
                && r->Err_0->source == e,
            Ok(text) => if occurrences(text@, pem_marker()) == 0 {
                r is Err && r->Err_0 is NoCertificates && r->Err_0->NoCertificates_path@ == path@
            } else {
                r is Ok && r->Ok_0 == occurrences(text@, pem_marker())
            },
        },
{
    match contents {
        Err(source) => Err(TrustAnchorError::Io { path: path.to_owned(), source }),
        Ok(text) => {
            let count = count_pem_certificates(text);
            if count == 0 {
                Err(TrustAnchorError::NoCertificates { path: path.to_owned() })
            } else {
                Ok(count)
            }
        },
    }
}

// ---- What is promised of every trust file ----

/// A file that could be read is usable exactly when the marker of a certificate stands in
/// it somewhere; the count is that of its markers; and one that could not be read is told
/// apart from one without certificates.
pub proof fn a_trust_file_needs_a_certificate(
    path: &str,
    contents: Result<&str, String>,
    r: Result<usize, TrustAnchorError>,
    n: usize,
    i: int,
)
    requires
        call_ensures(validate_trust_anchors, (path, contents), r),
        contents is Ok ==> call_ensures(count_pem_certificates, (contents->Ok_0,), n),
    ensures
        contents is Err ==> r is Err && r->Err_0 is Io && r->Err_0->Io_path@ == path@
            && r->Err_0->source == contents->Err_0,
        contents is Ok ==> {
            let text = contents->Ok_0@;
            let mark = "-----BEGIN CERTIFICATE-----"@;
            &&& r is Ok <==> n > 0
            &&& r is Ok ==> r->Ok_0 == n
            &&& r is Err ==> r->Err_0 is NoCertificates && r->Err_0->NoCertificates_path@ == path@
            &&& 0 <= i && i + mark.len() <= text.len() && text.subrange(i, i + mark.len()) == mark
                ==> r is Ok
            &&& r is Ok ==> exists|k: int|
                0 <= k && k + mark.len() <= text.len() && #[trigger] text.subrange(
                    k,
                    k + mark.len(),
                ) == mark
        },
{
    if contents is Ok {
        let text = contents->Ok_0@;
        let mark = pem_marker();
        reveal_strlit("-----BEGIN CERTIFICATE-----");
        if 0 <= i && i + mark.len() <= text.len() && text.subrange(i, i + mark.len()) == mark {
            what_stands_there_is_counted(text, mark, i);
        }
        if n > 0 {
            let k = what_is_counted_stands_there(text, mark);
            assert(text.subrange(k, k + mark.len()) == mark);
        }
    }
}

proof fn what_stands_there_is_counted(s: Seq<char>, p: Seq<char>, i: int)
    requires
        p.len() > 0,
        0 <= i,
        i + p.len() <= s.len(),
        s.subrange(i, i + p.len()) == p,
    ensures
        occurrences(s, p) > 0,
    decreases s.len(),
{
    if s.subrange(0, p.len() as int) != p {
        assert(i > 0);
        let rest = s.drop_first();
        assert(rest.subrange(i - 1, i - 1 + p.len()) =~= s.subrange(i, i + p.len()));
        what_stands_there_is_counted(rest, p, i - 1);
    }
}

proof fn what_is_counted_stands_there(s: Seq<char>, p: Seq<char>) -> (i: int)
    requires
        occurrences(s, p) > 0,
    ensures
        0 <= i,
        i + p.len() <= s.len(),
        s.subrange(i, i + p.len()) == p,
    decreases s.len(),
{
    if s.subrange(0, p.len() as int) == p {
        0
    } else {
        let rest = s.drop_first();
        let i = what_is_counted_stands_there(rest, p);
        assert(rest.subrange(i, i + p.len()) =~= s.subrange(i + 1, i + 1 + p.len()));
        i + 1
    }
}

/// Two bundles one behind the other have the certificates of both, where the first ends
/// with a line break.
pub proof fn bundles_add_up(first: &str, second: &str, both: &str, a: usize, b: usize, n: usize)
    requires
        first@.len() > 0,
        first@[first@.len() - 1] == '\n',
        both@ == first@ + second@,
        call_ensures(count_pem_certificates, (first,), a),
        call_ensures(count_pem_certificates, (second,), b),
        call_ensures(count_pem_certificates, (both,), n),
    ensures
        n == a + b,
{
    reveal_strlit("-----BEGIN CERTIFICATE-----");
    let p = pem_marker();
    assert(p.len() == 27);
    assert(forall|k: int| 0 <= k < p.len() ==> p[k] != '\n') by {
        assert forall|k: int| 0 <= k < p.len() implies p[k] != '\n' by {
            assert(p =~= seq![
                '-', '-', '-', '-', '-', 'B', 'E', 'G', 'I', 'N', ' ', 'C', 'E', 'R', 'T', 'I',
                'F', 'I', 'C', 'A', 'T', 'E', '-', '-', '-', '-', '-',
            ]);
        }
    }
    counts_add_up(first@, second@, p);
}

proof fn counts_add_up(a: Seq<char>, b: Seq<char>, p: Seq<char>)
    requires
        p.len() > 0,
        a.len() > 0 ==> a[a.len() - 1] == '\n',
        forall|k: int| 0 <= k < p.len() ==> p[k] != '\n',
    ensures
        occurrences(a + b, p) == occurrences(a, p) + occurrences(b, p),
    decreases a.len(),
{
    let s = a + b;
    if a.len() == 0 {
        assert(s =~= b);
    } else if a.len() < p.len() {
        if s.len() >= p.len() {
            assert(s.subrange(0, p.len() as int)[a.len() - 1] == '\n');
            assert(s.drop_first() =~= a.drop_first() + b);
            counts_add_up(a.drop_first(), b, p);
        } else {
            assert(b.len() < p.len());
        }
    } else {
        assert(s.subrange(0, p.len() as int) =~= a.subrange(0, p.len() as int));
        if a.subrange(0, p.len() as int) == p {
            let rest = a.subrange(p.len() as int, a.len() as int);
            assert(s.subrange(p.len() as int, s.len() as int) =~= rest + b);
            if rest.len() == 0 {
                assert(p[p.len() - 1] == a.subrange(0, p.len() as int)[p.len() - 1]);
                assert(a[a.len() - 1] == '\n');
            }
            counts_add_up(rest, b, p);
        } else {
            assert(s.drop_first() =~= a.drop_first() + b);
            counts_add_up(a.drop_first(), b, p);
        }
    }
}

/// Verification is off until it is configured: nothing is required, a fetched certificate
/// is kept for an hour, and a token is fresh for a minute.
pub proof fn verification_is_off_by_default(c: StirShakenConfig)
    requires
        call_ensures(StirShakenConfig::default, (), c),
    ensures
        !c.enabled,
        !c.require_identity,
        c.trust_anchors@.len() == 0,
        c.cert_cache_ttl == 3600,
        c.iat_freshness == 60,
        c.x5u_tls_extra_ca is None,
{
}

} // verus!
