//! The rules of the certificate fetch: scheme, status, size and contents.
use vstd::prelude::*;

use crate::stir_shaken::pem::{byte_views, certificates, parse_cert_chain};
use crate::telemetry::admin::result_view;
use crate::text::{concat, concat3, debug_form, debug_quoted, decimal, decimal_string, str_eq};

verus! {

/// Cap on the certificate response body.
pub const MAX_CERT_BYTES: u64 = 65536;

/// Why a certificate fetch failed.
#[derive(Debug)]
pub enum FetchError {
    /// The reference was no absolute URL.
    BadUrl(String),
    /// The URL used a scheme other than `https`.
    InsecureScheme(String),
    /// The request itself failed.
    Request(String),
    /// The server answered with a non-success status.
    Status(u16),
    /// The response advertised or delivered more than the cap.
    TooLarge { limit: u64 },
    /// The response held no certificate.
    NoCertificates,
}

impl FetchError {
    pub open spec fn message(self) -> Seq<char> {
        match self {
            FetchError::BadUrl(e) => "x5u is not a valid URL: "@ + e@,
            FetchError::InsecureScheme(s) => "x5u must be https, got scheme "@ + debug_form(s@),
            FetchError::Request(e) => "x5u request failed: "@ + e@,
            FetchError::Status(s) => "x5u returned HTTP "@ + decimal(s as nat),
            FetchError::TooLarge { limit } => "x5u response too large (limit "@ + decimal(
                limit as nat,
            ) + " bytes)"@,
            FetchError::NoCertificates => "x5u response contained no certificates"@,
        }
    }

    /// The message, as operators see it.
    pub fn to_string(&self) -> (r: String)
        ensures
            r@ == self.message(),
    {
        match self {
            FetchError::BadUrl(e) => concat("x5u is not a valid URL: ", e.as_str()),
            FetchError::InsecureScheme(s) => {
                let quoted = debug_quoted(s.as_str());
                concat("x5u must be https, got scheme ", quoted.as_str())
            },
            FetchError::Request(e) => concat("x5u request failed: ", e.as_str()),
            FetchError::Status(s) => {
                let n = decimal_string(*s as u64);
                concat("x5u returned HTTP ", n.as_str())
            },
            FetchError::TooLarge { limit } => {
                let n = decimal_string(*limit);
                concat3("x5u response too large (limit ", n.as_str(), " bytes)")
            },
            FetchError::NoCertificates => "x5u response contained no certificates".to_owned(),
        }
    }
}

/// The scheme of a URL, or why the text is none.
pub uninterp spec fn url_scheme(text: Seq<char>) -> Result<Seq<char>, Seq<char>>;

/// `reqwest::Url::parse`, then `Url::scheme`. The URL grammar is not spelled out:
/// only that the outcome depends on the text alone.
#[verifier::external_body]
fn parse_scheme(text: &str) -> (r: Result<String, String>)
    ensures
        result_view(r) == url_scheme(text@),
{
    match reqwest::Url::parse(text) {
        Ok(url) => Ok(url.scheme().to_string()),
        Err(e) => Err(e.to_string()),
    }
}

/// What the scheme rule makes of a parsed URL: `https` and nothing else.
pub fn check_scheme(parsed: Result<String, String>) -> (r: Result<String, FetchError>)
    ensures
        match parsed {
            Err(e) => r == Err::<String, FetchError>(FetchError::BadUrl(e)),
            Ok(scheme) => if scheme@ == "https"@ {
                r == Ok::<String, FetchError>(scheme)
            } else {
                r == Err::<String, FetchError>(FetchError::InsecureScheme(scheme))
            },
        },
{
    match parsed {
        Err(e) => Err(FetchError::BadUrl(e)),
        Ok(scheme) => if str_eq(scheme.as_str(), "https") {
            Ok(scheme)
        } else {
            Err(FetchError::InsecureScheme(scheme))
        },
    }
}

/// Check that `x5u` is an absolute `https` URL, before any I/O. Returns the scheme.
pub fn require_https(x5u: &str) -> (r: Result<String, FetchError>)
    ensures
        match url_scheme(x5u@) {
            Err(e) => r is Err && r->Err_0 is BadUrl && r->Err_0->BadUrl_0@ == e,
            Ok(scheme) => if scheme == "https"@ {
                r is Ok && r->Ok_0@ == scheme
            } else {
                r is Err && r->Err_0 is InsecureScheme && r->Err_0->InsecureScheme_0@ == scheme
            },
        },
{
    let parsed = parse_scheme(x5u);
    check_scheme(parsed)
}

/// Check the head of a response before its body is buffered: a success status, and
/// no advertised length over the cap.
pub fn check_head(status: u16, content_length: Option<u64>) -> (r: Result<(), FetchError>)
    ensures
        if !(200 <= status < 300) {
            r == Err::<(), FetchError>(FetchError::Status(status))
        } else if content_length is Some && content_length->0 > MAX_CERT_BYTES {
            r == Err::<(), FetchError>(FetchError::TooLarge { limit: MAX_CERT_BYTES })
        } else {
            r == Ok::<(), FetchError>(())
        },
{
    if status < 200 || status >= 300 {
        return Err(FetchError::Status(status));
    }
    if let Some(len) = content_length {
        if len > MAX_CERT_BYTES {
            return Err(FetchError::TooLarge { limit: MAX_CERT_BYTES });
        }
    }
    Ok(())
}

/// The chain in a response body: refused over the cap, and when it holds no
/// certificate. The end-entity certificate is first.
pub fn fetch_chain(body: &[u8]) -> (r: Result<Vec<Vec<u8>>, FetchError>)
    ensures
        if body@.len() > MAX_CERT_BYTES {
            r == Err::<Vec<Vec<u8>>, FetchError>(FetchError::TooLarge { limit: MAX_CERT_BYTES })
        } else if certificates(body@).len() == 0 {
            r == Err::<Vec<Vec<u8>>, FetchError>(FetchError::NoCertificates)
        } else {
            r is Ok && byte_views(r->Ok_0@) == certificates(body@)
        },
{
    if body.len() as u64 > MAX_CERT_BYTES {
        return Err(FetchError::TooLarge { limit: MAX_CERT_BYTES });
    }
    let chain = parse_cert_chain(body);
    assert(byte_views(chain@).len() == chain@.len());
    if chain.len() == 0 {
        return Err(FetchError::NoCertificates);
    }
    Ok(chain)
}

/// Nothing but `https` is fetched: any other scheme, and a text that is no URL, is
/// refused before any request, and the refusal names what was given.
pub proof fn only_https_is_fetched(
    parsed: Result<String, String>,
    r: Result<String, FetchError>,
    x5u: &str,
    s: Result<String, FetchError>,
)
    requires
        call_ensures(check_scheme, (parsed,), r),
        call_ensures(require_https, (x5u,), s),
    ensures
        r is Ok <==> (parsed matches Ok(scheme) && scheme@ == "https"@),
        parsed matches Ok(scheme) && scheme@ != "https"@ ==> (
        r matches Err(FetchError::InsecureScheme(n)) && n@ == parsed->Ok_0@),
        parsed matches Err(e) ==> (r matches Err(FetchError::BadUrl(n)) && n@ == e@),
        s is Ok <==> url_scheme(x5u@) == Ok::<Seq<char>, Seq<char>>("https"@),
{
}

/// An answer is taken only with a status from 200 to 299 and when it announces no more
/// than 65536 bytes, and a larger one is never taken where a smaller one is not.
pub proof fn only_small_successes_are_taken(
    status: u16,
    announced: Option<u64>,
    r: Result<(), FetchError>,
)
    requires
        call_ensures(check_head, (status, announced), r),
    ensures
        r is Ok <==> status >= 200 && status <= 299 && (announced is None || announced->0 <= 65536),
        status < 200 || status > 299 ==> r == Err::<(), FetchError>(FetchError::Status(status)),
        200 <= status <= 299 && announced is Some && announced->0 > 65536 ==> (
        r matches Err(FetchError::TooLarge { limit }) && limit == 65536),
{
}

/// A body gives its certificates, in order, when it is no larger than the cap and holds
/// any; a body of more bytes is refused whatever it holds.
pub proof fn a_body_gives_its_certificates(
    body: &[u8],
    r: Result<Vec<Vec<u8>>, FetchError>,
    chain: Vec<Vec<u8>>,
)
    requires
        call_ensures(fetch_chain, (body,), r),
        call_ensures(parse_cert_chain, (body,), chain),
    ensures
        r is Ok <==> body@.len() <= 65536 && chain@.len() > 0,
        body@.len() > 65536 ==> (r matches Err(FetchError::TooLarge { limit }) && limit == 65536),
        body@.len() <= 65536 && chain@.len() == 0 ==> r == Err::<Vec<Vec<u8>>, FetchError>(
            FetchError::NoCertificates,
        ),
        r matches Ok(got) ==> got@.len() == chain@.len() && forall|i: int|
            0 <= i < chain@.len() ==> (#[trigger] got@[i])@ == chain@[i]@,
{
    assert(byte_views(chain@).len() == chain@.len());
    if r is Ok {
        let got = r->Ok_0;
        assert(byte_views(got@).len() == got@.len());
        assert forall|i: int| 0 <= i < chain@.len() implies (#[trigger] got@[i])@ == chain@[i]@ by {
            assert(byte_views(got@)[i] == byte_views(chain@)[i]);
        }
    }
}

} // verus!
