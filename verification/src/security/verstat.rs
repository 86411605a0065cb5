//! The verification verdict of an inbound call.
use vstd::prelude::*;

use crate::security::attestation::AttestationLevel;

verus! {

/// Outcome of call verification for one inbound INVITE.
///
/// `attest` is the level *claimed*; it is trustworthy only when every check held:
/// use [`VerificationResult::trusted_attestation`] for any policy decision.
#[derive(Debug, Clone, PartialEq, Eq)]
pub struct VerificationResult {
    /// Attestation level claimed in the token, if any.
    pub attest: Option<AttestationLevel>,
    /// Originating number claimed in the token.
    pub orig_tn: Option<String>,
    /// The originating number matched the SIP `From` user.
    pub orig_passed: bool,
    /// A destination number matched the SIP `To` user.
    pub dest_passed: bool,
    /// The signing certificate chained to a configured trust anchor.
    pub cert_chain_valid: bool,
    /// The signature verified against that certificate.
    pub signature_valid: bool,
    /// The token's issue time is within the freshness window.
    pub iat_passed: bool,
    /// Why verification did not fully pass.
    pub error: Option<String>,
}

impl VerificationResult {
    /// Every check succeeded.
    pub open spec fn all_passed(self) -> bool {
        self.signature_valid && self.cert_chain_valid && self.orig_passed && self.dest_passed
            && self.iat_passed
    }

    /// The level that may be trusted.
    pub open spec fn trusted(self) -> Option<AttestationLevel> {
        if self.all_passed() {
            self.attest
        } else {
            None
        }
    }

    /// The verdict for a call with no `Identity` header: nothing verified, nothing
    /// claimed, and no error.
    pub fn unsigned() -> (r: Self)
        ensures
            r == (VerificationResult {
                attest: None,
                orig_tn: None,
                orig_passed: false,
                dest_passed: false,
                cert_chain_valid: false,
                signature_valid: false,
                iat_passed: false,
                error: None,
            }),
    {
        VerificationResult {
            attest: None,
            orig_tn: None,
            orig_passed: false,
            dest_passed: false,
            cert_chain_valid: false,
            signature_valid: false,
            iat_passed: false,
            error: None,
        }
    }

    /// Composite pass: every check succeeded.
    pub fn passed(&self) -> (r: bool)
        ensures
            r == self.all_passed(),
    {
        self.signature_valid && self.cert_chain_valid && self.orig_passed && self.dest_passed
            && self.iat_passed
    }

    /// The claimed level when every check succeeded, else `None`.
    pub fn trusted_attestation(&self) -> (r: Option<AttestationLevel>)
        ensures
            r == self.trusted(),
    {
        if self.passed() {
            self.attest
        } else {
            None
        }
    }
}

/// A level is trusted exactly when the chain, the signature, both numbers and the issue
/// time all held; one check that failed takes all trust away, and what is trusted is
/// the level claimed.
pub proof fn one_failed_check_takes_all_trust(
    v: &VerificationResult,
    passed: bool,
    level: Option<AttestationLevel>,
)
    requires
        call_ensures(VerificationResult::passed, (v,), passed),
        call_ensures(VerificationResult::trusted_attestation, (v,), level),
    ensures
        !v.orig_passed || !v.dest_passed || !v.cert_chain_valid || !v.signature_valid
            || !v.iat_passed ==> !passed && level is None,
        v.orig_passed && v.dest_passed && v.cert_chain_valid && v.signature_valid && v.iat_passed
            ==> passed && level == v.attest,
{
}

/// A call without an `Identity` header claims nothing and is trusted in nothing, and that
/// is no error.
pub proof fn an_unsigned_call_claims_nothing(
    r: VerificationResult,
    passed: bool,
    level: Option<AttestationLevel>,
)
    requires
        call_ensures(VerificationResult::unsigned, (), r),
        call_ensures(VerificationResult::passed, (&r,), passed),
        call_ensures(VerificationResult::trusted_attestation, (&r,), level),
    ensures
        !passed,
        level is None,
        r.attest is None,
        r.orig_tn is None,
        r.error is None,
{
}

} // verus!
