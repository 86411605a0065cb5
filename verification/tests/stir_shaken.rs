//! Certificates, the fetch rules and the verification of a signed call.
use siphon_ai::security::attestation::AttestationLevel;
use siphon_ai::security::config::StirShakenConfig;
use siphon_ai::security::verstat::VerificationResult;
use siphon_ai::stir_shaken::fetch::{check_head, fetch_chain, require_https, FetchError, MAX_CERT_BYTES};
use siphon_ai::stir_shaken::pem::{load_trust_anchors, parse_cert_chain, TrustAnchorLoadError};
use siphon_ai::stir_shaken::verify::{
    build_result, iat_fresh, parse_failure, split_chain, BuildError, ChainCheck, PassportClaims,
    Verifier, VerifyError, VerifyStep,
};

// ---- Fetch rules ----

#[test]
fn accepts_https() {
    let scheme = require_https("https://cert.example.org/c.crt").unwrap();
    assert_eq!(scheme, "https");
}

#[test]
fn rejects_http() {
    assert!(matches!(
        require_https("http://cert.example.org/c.crt"),
        Err(FetchError::InsecureScheme(s)) if s == "http"
    ));
}

#[test]
fn rejects_non_url() {
    assert!(matches!(
        require_https("not a url"),
        Err(FetchError::BadUrl(_))
    ));
}

#[test]
fn rejects_other_schemes() {
    for u in ["file:///etc/passwd", "tel:+12155551212", "ftp://h/c.crt"] {
        assert!(matches!(
            require_https(u),
            Err(FetchError::InsecureScheme(_)) | Err(FetchError::BadUrl(_))
        ));
    }
}

#[test]
fn the_head_of_the_answer_is_checked() {
    assert!(check_head(200, None).is_ok());
    assert!(check_head(200, Some(MAX_CERT_BYTES)).is_ok());
    assert!(matches!(check_head(404, None), Err(FetchError::Status(404))));
    assert!(matches!(
        check_head(200, Some(MAX_CERT_BYTES + 1)),
        Err(FetchError::TooLarge { limit }) if limit == MAX_CERT_BYTES
    ));
}

#[test]
fn the_body_must_hold_a_certificate_within_the_limit() {
    assert!(matches!(fetch_chain(&[]), Err(FetchError::NoCertificates)));
    let big = vec![0u8; MAX_CERT_BYTES as usize + 1];
    assert!(matches!(fetch_chain(&big), Err(FetchError::TooLarge { .. })));
    assert_eq!(fetch_chain(pem(&[1, 2, 3]).as_bytes()).unwrap(), vec![vec![1, 2, 3]]);
}

// ---- Certificates ----

/// PEM armor around three bytes.
fn pem(der: &[u8; 3]) -> String {
    let alphabet: Vec<char> =
        "ABCDEFGHIJKLMNOPQRSTUVWXYZabcdefghijklmnopqrstuvwxyz0123456789+/".chars().collect();
    let n = (der[0] as usize) << 16 | (der[1] as usize) << 8 | der[2] as usize;
    let text: String = [18, 12, 6, 0].iter().map(|s| alphabet[n >> s & 63]).collect();
    format!("-----BEGIN CERTIFICATE-----\n{text}\n-----END CERTIFICATE-----\n")
}

#[test]
fn parses_pem_bundle_in_order() {
    let bundle = format!("{}{}", pem(&[1, 2, 3]), pem(&[9, 8, 7]));
    let chain = parse_cert_chain(bundle.as_bytes());
    assert_eq!(chain, vec![vec![1, 2, 3], vec![9, 8, 7]]);
}

#[test]
fn falls_back_to_raw_der_when_no_pem() {
    let der = vec![0x30, 0x82, 0x01, 0x02];
    // No PEM armor: treated as a single raw DER certificate.
    let chain = parse_cert_chain(&der);
    assert_eq!(chain, vec![der]);
}

#[test]
fn empty_input_yields_no_certs() {
    assert!(parse_cert_chain(&[]).is_empty());
}

#[test]
fn load_trust_anchors_reads_pem_file() {
    let file = pem(&[4, 5, 6]);
    let anchors = load_trust_anchors("/roots.pem", Ok(file.as_bytes())).unwrap();
    assert_eq!(anchors, vec![vec![4, 5, 6]]);
}

#[test]
fn load_trust_anchors_missing_file_is_io_error() {
    let err = load_trust_anchors(
        "/nonexistent/sti-pa-roots.pem",
        Err("No such file or directory".to_string()),
    )
    .unwrap_err();
    assert!(matches!(err, TrustAnchorLoadError::Io { .. }));
}

#[test]
fn load_trust_anchors_empty_file_is_empty_error() {
    let err = load_trust_anchors("/empty.pem", Ok(&[])).unwrap_err();
    assert!(matches!(err, TrustAnchorLoadError::Empty { .. }));
}

// ---- Verification ----

const FRESH_IAT: i64 = 1_715_768_000;
const NOW: u64 = 1_715_768_000;
const WINDOW: u64 = 60;

fn claims(attest: &str, orig: &str, dest: &str, iat: Option<i64>) -> PassportClaims {
    PassportClaims {
        attest: AttestationLevel::parse(attest),
        orig_tn: Some(orig.to_string()),
        dest_tns: vec![dest.to_string()],
        iat,
    }
}

fn good(attest: &str) -> PassportClaims {
    claims(attest, "+12155551212", "+12155551213", Some(FRESH_IAT))
}

fn run(p: &PassportClaims, from: &str, to: &str, check: ChainCheck) -> VerificationResult {
    build_result(p, from, to, check, NOW, WINDOW)
}

#[test]
fn fully_valid_call_passes() {
    let r = run(&good("A"), "+12155551212", "+12155551213", Some(Ok(())));
    assert!(r.passed(), "expected pass, got {r:?}");
    assert!(r.cert_chain_valid && r.signature_valid && r.orig_passed && r.dest_passed);
    assert_eq!(r.trusted_attestation(), Some(AttestationLevel::A));
    assert_eq!(r.error, None);
}

#[test]
fn tn_matching_ignores_plus_and_separators() {
    let r = run(&good("A"), "12155551212", "1-215-555-1213", Some(Ok(())));
    assert!(r.orig_passed && r.dest_passed && r.passed());
}

#[test]
fn untrusted_anchor_fails_chain() {
    let check = Some(Err(VerifyError::ChainInvalid("UnknownIssuer".to_string())));
    let r = run(&good("A"), "+12155551212", "+12155551213", check);
    assert!(!r.cert_chain_valid && !r.signature_valid && !r.passed());
    assert!(r.error.unwrap().contains("chain"));
}

#[test]
fn expired_chain_fails() {
    let check = Some(Err(VerifyError::ChainInvalid("CertExpired".to_string())));
    let r = run(&good("A"), "+12155551212", "+12155551213", check);
    assert!(!r.cert_chain_valid && !r.passed());
}

#[test]
fn orig_mismatch_fails_with_chain_still_valid() {
    let r = run(&good("A"), "+19998887777", "+12155551213", Some(Ok(())));
    assert!(r.cert_chain_valid && r.signature_valid);
    assert!(!r.orig_passed && r.dest_passed);
    assert!(!r.passed());
    assert_eq!(r.trusted_attestation(), None);
    assert_eq!(r.error.as_deref(), Some("orig.tn did not match SIP From"));
}

#[test]
fn dest_mismatch_reported() {
    let r = run(&good("B"), "+12155551212", "+15005550000", Some(Ok(())));
    assert!(r.orig_passed && !r.dest_passed && !r.passed());
    assert_eq!(r.error.as_deref(), Some("dest.tn did not match SIP To"));
}

#[test]
fn tampered_payload_fails_signature_chain_valid() {
    let check = Some(Err(VerifyError::SignatureInvalid));
    let r = run(&good("C"), "+12155551212", "+12155551213", check);
    assert!(r.cert_chain_valid && !r.signature_valid && !r.passed());
    assert_eq!(
        r.error.as_deref(),
        Some("PASSporT signature did not verify")
    );
}

#[test]
fn empty_chain_fails_cleanly() {
    let r = run(&good("A"), "+12155551212", "+12155551213", None);
    assert!(!r.cert_chain_valid && !r.signature_valid);
    assert!(r.error.unwrap().contains("no certificates"));
    assert!(split_chain(vec![]).is_none());
}

#[test]
fn other_failures_name_themselves() {
    for (e, text) in [
        (VerifyError::CertParse("x".to_string()), "certificate parse failed: x"),
        (VerifyError::UnsupportedAlg("RS256".to_string()), "unsupported PASSporT alg: RS256"),
        (VerifyError::MalformedKey { len: 12 }, "malformed signing key (12 bytes)"),
    ] {
        let r = run(&good("A"), "+12155551212", "+12155551213", Some(Err(e)));
        assert_eq!(r.error.as_deref(), Some(text));
        assert!(!r.cert_chain_valid);
    }
}

#[test]
fn parse_failure_is_distinct_from_unsigned() {
    let r = parse_failure("empty token");
    assert!(!r.passed());
    assert!(r.error.is_some());
    // unsigned() has no error; a malformed header does.
    assert_eq!(VerificationResult::unsigned().error, None);
}

#[test]
fn iat_fresh_helper_window_and_disable() {
    let (now, w) = (1000, 60);
    assert!(iat_fresh(Some(1000), now, w)); // exact
    assert!(iat_fresh(Some(1060), now, w)); // +60 boundary
    assert!(iat_fresh(Some(940), now, w)); // -60 boundary
    assert!(!iat_fresh(Some(1061), now, w)); // future skew > window
    assert!(!iat_fresh(Some(939), now, w)); // past skew > window
    assert!(!iat_fresh(None, now, w)); // missing iat is never fresh
    assert!(iat_fresh(None, now, 0)); // window 0 disables
    assert!(iat_fresh(Some(1), now, 0));
}

#[test]
fn stale_iat_rejected_even_with_valid_crypto() {
    let p = claims("A", "+12155551212", "+12155551213", Some(FRESH_IAT - 3600));
    let r = run(&p, "+12155551212", "+12155551213", Some(Ok(())));
    assert!(r.cert_chain_valid && r.signature_valid && r.orig_passed && r.dest_passed);
    assert!(!r.iat_passed && !r.passed());
    assert_eq!(r.trusted_attestation(), None);
    assert_eq!(
        r.error.as_deref(),
        Some("PASSporT iat outside the freshness window")
    );
}

#[test]
fn future_iat_rejected() {
    let p = claims("A", "+12155551212", "+12155551213", Some(FRESH_IAT + 3600));
    let r = run(&p, "+12155551212", "+12155551213", Some(Ok(())));
    assert!(!r.iat_passed && !r.passed());
}

#[test]
fn missing_iat_rejected() {
    let p = claims("A", "+12155551212", "+12155551213", None);
    let r = run(&p, "+12155551212", "+12155551213", Some(Ok(())));
    assert!(!r.iat_passed && !r.passed());
    assert_eq!(r.error.as_deref(), Some("PASSporT has no iat claim"));
}

#[test]
fn zero_window_disables_iat_check() {
    let p = claims("A", "+12155551212", "+12155551213", Some(FRESH_IAT - 100_000));
    let r = build_result(&p, "+12155551212", "+12155551213", Some(Ok(())), NOW, 0);
    assert!(r.iat_passed && r.passed());
}

#[test]
fn a_chain_is_fetched_once_and_then_cached() {
    let mut v = Verifier::new(vec![vec![1]], 1_000, WINDOW);
    let (x5u, from, to) = ("https://c.example/c.crt", "+12155551212", "+12155551213");
    assert!(matches!(v.verify(Ok(x5u), 0), VerifyStep::Fetch));
    let p = good("A");
    match v.fetched(&p, x5u, from, to, Ok(vec![vec![7]]), 0, NOW) {
        VerifyStep::Check { chain } => assert_eq!(chain, vec![vec![7]]),
        _ => panic!("expected a check"),
    }
    match v.verify(Ok(x5u), 999) {
        VerifyStep::Check { chain } => assert_eq!(chain, vec![vec![7]]),
        _ => panic!("expected a cache hit"),
    }
    assert!(matches!(v.verify(Ok(x5u), 1_000), VerifyStep::Fetch));
    match v.fetched(&p, x5u, from, to, Err(FetchError::Status(500)), 0, NOW) {
        VerifyStep::Done(r) => {
            assert!(!r.passed() && r.orig_passed && r.dest_passed);
            assert!(r.error.unwrap().starts_with("x5u certificate fetch failed: "));
        }
        _ => panic!("expected a result"),
    }
    match v.verify(Err("no token"), 0) {
        VerifyStep::Done(r) => {
            assert_eq!(r.error.as_deref(), Some("Identity header parse failed: no token"))
        }
        _ => panic!("expected a result"),
    }
    assert!(v.checked(&p, from, to, Some(Ok(())), NOW).passed());
}

#[test]
fn a_verifier_is_built_from_its_configuration() {
    let cfg = StirShakenConfig {
        trust_anchors: "/roots.pem".to_string(),
        x5u_tls_extra_ca: Some("/extra.pem".to_string()),
        ..StirShakenConfig::default()
    };
    let (roots, more) = (pem(&[1, 2, 3]), pem(&[4, 5, 6]));
    let built = Verifier::from_config(&cfg, Ok(roots.as_bytes()), Ok(more.as_bytes()));
    let (v, extra) = built.ok().unwrap();
    assert_eq!(v.trust_anchors(), &vec![vec![1, 2, 3]]);
    assert_eq!(extra, vec![vec![4, 5, 6]]);

    let e = Verifier::from_config(&cfg, Ok(&[]), Ok(more.as_bytes())).err().unwrap();
    assert!(matches!(e, BuildError::TrustAnchors(TrustAnchorLoadError::Empty { .. })));
    let e = Verifier::from_config(&cfg, Ok(roots.as_bytes()), Err("denied".to_string()))
        .err()
        .unwrap();
    assert!(e.to_string().contains("/extra.pem"));

    let plain = StirShakenConfig { x5u_tls_extra_ca: None, ..cfg };
    let (_, extra) = Verifier::from_config(&plain, Ok(roots.as_bytes()), Err(String::new()))
        .ok()
        .unwrap();
    assert!(extra.is_empty());
}
