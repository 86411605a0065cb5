//! Attestation levels, verification results, the admission policy and its
//! configuration.
use siphon_ai::security::attestation::AttestationLevel;
use siphon_ai::security::config::{
    count_pem_certificates, validate_trust_anchors, StirShakenConfig, TrustAnchorError,
    DEFAULT_CERT_CACHE_TTL, DEFAULT_IAT_FRESHNESS,
};
use siphon_ai::security::policy::MinAttestation;
use siphon_ai::security::verstat::VerificationResult;

#[test]
fn rank_orders_a_strongest() {
    assert!(AttestationLevel::A.rank() > AttestationLevel::B.rank());
    assert!(AttestationLevel::B.rank() > AttestationLevel::C.rank());
}

#[test]
fn parse_roundtrips() {
    for s in ["A", "B", "C"] {
        assert_eq!(AttestationLevel::parse(s).unwrap().as_str(), s);
    }
    assert_eq!(AttestationLevel::parse("D"), None);
}

#[test]
fn default_is_disabled_with_1h_ttl() {
    let c = StirShakenConfig::default();
    assert!(!c.enabled);
    assert!(!c.require_identity);
    assert_eq!(c.cert_cache_ttl, DEFAULT_CERT_CACHE_TTL);
    assert_eq!(DEFAULT_CERT_CACHE_TTL, 3600);
    assert_eq!(c.iat_freshness, DEFAULT_IAT_FRESHNESS);
}

#[test]
fn counts_pem_blocks() {
    assert_eq!(count_pem_certificates(""), 0);
    assert_eq!(count_pem_certificates("not a cert"), 0);
    let one = "-----BEGIN CERTIFICATE-----\nMII...\n-----END CERTIFICATE-----\n";
    assert_eq!(count_pem_certificates(one), 1);
    assert_eq!(count_pem_certificates(&one.repeat(3)), 3);
}

#[test]
fn missing_file_is_io_error() {
    let err = validate_trust_anchors(
        "/nonexistent/sti-pa-roots.pem",
        Err("No such file or directory (os error 2)".to_string()),
    )
    .unwrap_err();
    assert!(matches!(err, TrustAnchorError::Io { .. }));
}

#[test]
fn trust_anchor_files_need_a_certificate() {
    let one = "-----BEGIN CERTIFICATE-----\nMII...\n-----END CERTIFICATE-----\n";
    assert_eq!(validate_trust_anchors("/r.pem", Ok(one)).unwrap(), 1);
    let err = validate_trust_anchors("/r.pem", Ok("nothing here")).unwrap_err();
    assert!(!matches!(err, TrustAnchorError::Io { .. }));
    assert!(err.to_string().contains("/r.pem"));
}

fn result_with(attest: Option<AttestationLevel>, passed: bool) -> VerificationResult {
    VerificationResult {
        attest,
        orig_tn: None,
        orig_passed: passed,
        dest_passed: passed,
        cert_chain_valid: passed,
        signature_valid: passed,
        iat_passed: passed,
        error: None,
    }
}

#[test]
fn parse_accepts_none_and_levels_case_insensitively() {
    assert_eq!(MinAttestation::parse("none"), Some(MinAttestation::NoMinimum));
    assert_eq!(MinAttestation::parse("A"), Some(MinAttestation::A));
    assert_eq!(MinAttestation::parse("b"), Some(MinAttestation::B));
    assert_eq!(MinAttestation::parse(" C "), Some(MinAttestation::C));
    assert_eq!(MinAttestation::parse("strong"), None);
}

#[test]
fn default_is_none() {
    assert_eq!(MinAttestation::default(), MinAttestation::NoMinimum);
}

#[test]
fn as_str_inverts_parse() {
    for m in [
        MinAttestation::NoMinimum,
        MinAttestation::A,
        MinAttestation::B,
        MinAttestation::C,
    ] {
        assert_eq!(MinAttestation::parse(m.as_str()), Some(m));
    }
    assert_eq!(MinAttestation::NoMinimum.as_str(), "none");
}

#[test]
fn strict_override_can_loosen_or_tighten() {
    // A route override replaces the global value, even when more permissive.
    assert_eq!(
        MinAttestation::resolve(MinAttestation::B, Some(MinAttestation::C)),
        MinAttestation::C
    );
    assert_eq!(
        MinAttestation::resolve(MinAttestation::B, Some(MinAttestation::A)),
        MinAttestation::A
    );
    // No override: inherit the global value.
    assert_eq!(
        MinAttestation::resolve(MinAttestation::B, None),
        MinAttestation::B
    );
}

#[test]
fn policy_matrix() {
    let a = result_with(Some(AttestationLevel::A), true);
    let b = result_with(Some(AttestationLevel::B), true);
    let c = result_with(Some(AttestationLevel::C), true);
    let absent = result_with(None, false);
    let bad_sig = result_with(Some(AttestationLevel::A), false); // claims A, failed to verify

    // none: everything passes.
    for v in [&a, &b, &c, &absent, &bad_sig] {
        assert!(MinAttestation::NoMinimum.permits(v));
    }
    // C: A, B, C pass; absent and invalid are refused.
    assert!(MinAttestation::C.permits(&a));
    assert!(MinAttestation::C.permits(&b));
    assert!(MinAttestation::C.permits(&c));
    assert!(!MinAttestation::C.permits(&absent));
    assert!(!MinAttestation::C.permits(&bad_sig));
    // B: A, B pass; C, absent, invalid are refused.
    assert!(MinAttestation::B.permits(&a));
    assert!(MinAttestation::B.permits(&b));
    assert!(!MinAttestation::B.permits(&c));
    assert!(!MinAttestation::B.permits(&absent));
    // A: only A passes.
    assert!(MinAttestation::A.permits(&a));
    assert!(!MinAttestation::A.permits(&b));
    assert!(!MinAttestation::A.permits(&c));
}

fn good(attest: AttestationLevel) -> VerificationResult {
    VerificationResult {
        attest: Some(attest),
        orig_tn: Some("+12155551212".into()),
        orig_passed: true,
        dest_passed: true,
        cert_chain_valid: true,
        signature_valid: true,
        iat_passed: true,
        error: None,
    }
}

#[test]
fn passed_requires_all_checks() {
    assert!(good(AttestationLevel::A).passed());
    let mut r = good(AttestationLevel::A);
    r.signature_valid = false;
    assert!(!r.passed());
}

#[test]
fn stale_iat_fails_the_composite() {
    // A cryptographically valid call with a stale iat has not passed, and so
    // yields no trusted attestation.
    let mut r = good(AttestationLevel::A);
    r.iat_passed = false;
    assert!(!r.passed());
    assert_eq!(r.trusted_attestation(), None);
}

#[test]
fn trusted_attestation_gated_on_pass() {
    assert_eq!(
        good(AttestationLevel::B).trusted_attestation(),
        Some(AttestationLevel::B)
    );
    // Claims A but the signature failed: not trusted.
    let mut r = good(AttestationLevel::A);
    r.signature_valid = false;
    assert_eq!(r.trusted_attestation(), None);
}

#[test]
fn unsigned_has_no_trust() {
    let u = VerificationResult::unsigned();
    assert!(!u.passed());
    assert_eq!(u.trusted_attestation(), None);
    assert_eq!(u.error, None);
}

#[test]
fn every_single_failed_check_withholds_trust() {
    for i in 0..5 {
        let mut r = good(AttestationLevel::A);
        match i {
            0 => r.orig_passed = false,
            1 => r.dest_passed = false,
            2 => r.cert_chain_valid = false,
            3 => r.signature_valid = false,
            _ => r.iat_passed = false,
        }
        assert!(!r.passed());
        assert!(!MinAttestation::C.permits(&r));
        assert!(MinAttestation::NoMinimum.permits(&r));
    }
}
