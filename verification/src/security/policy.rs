//! Minimum-attestation policy: whether a verified call is let through, and how the
//! global and the per-route policy combine.
use vstd::prelude::*;

use crate::security::attestation::AttestationLevel;
use crate::security::verstat::VerificationResult;
use crate::text::{lower, str_eq, to_ascii_lowercase, trim, trimmed};

verus! {

/// The minimum attestation a call must carry to be accepted.
#[derive(Debug, Clone, Copy, PartialEq, Eq, Structural)]
pub enum MinAttestation {
    /// No requirement: every call passes.
    NoMinimum,
    /// Require trusted attestation `C` or better.
    C,
    /// Require trusted attestation `B` or better.
    B,
    /// Require trusted attestation `A`.
    A,
}

impl Default for MinAttestation {
    fn default() -> (r: Self)
        ensures
            r == MinAttestation::NoMinimum,
    {
        MinAttestation::NoMinimum
    }
}

impl MinAttestation {
    /// The config token.
    pub open spec fn token(self) -> Seq<char> {
        match self {
            MinAttestation::NoMinimum => "none"@,
            MinAttestation::C => "C"@,
            MinAttestation::B => "B"@,
            MinAttestation::A => "A"@,
        }
    }

    /// The policy that a config value names: the token in any case, within white
    /// space.
    pub open spec fn parsed(s: Seq<char>) -> Option<MinAttestation> {
        let t = lower(trimmed(s));
        if t == "none"@ {
            Some(MinAttestation::NoMinimum)
        } else if t == "a"@ {
            Some(MinAttestation::A)
        } else if t == "b"@ {
            Some(MinAttestation::B)
        } else if t == "c"@ {
            Some(MinAttestation::C)
        } else {
            None
        }
    }

    /// The required strength, `None` when there is no requirement.
    pub open spec fn required(self) -> Option<nat> {
        match self {
            MinAttestation::NoMinimum => None,
            MinAttestation::C => Some(AttestationLevel::C.strength()),
            MinAttestation::B => Some(AttestationLevel::B.strength()),
            MinAttestation::A => Some(AttestationLevel::A.strength()),
        }
    }

    /// Whether a call with this verdict is let through.
    pub open spec fn admits(self, result: VerificationResult) -> bool {
        match self.required() {
            None => true,
            Some(required) => result.trusted() is Some && result.trusted()->0.strength()
                >= required,
        }
    }

    /// Parse the config value. `None` for an unrecognised one.
    pub fn parse(s: &str) -> (r: Option<Self>)
        ensures
            r == Self::parsed(s@),
    {
        let l = to_ascii_lowercase(trim(s));
        let t = l.as_str();
        if str_eq(t, "none") {
            Some(MinAttestation::NoMinimum)
        } else if str_eq(t, "a") {
            Some(MinAttestation::A)
        } else if str_eq(t, "b") {
            Some(MinAttestation::B)
        } else if str_eq(t, "c") {
            Some(MinAttestation::C)
        } else {
            None
        }
    }

    /// The config token: the inverse of [`parse`](Self::parse).
    pub fn as_str(self) -> (r: &'static str)
        ensures
            r@ == self.token(),
    {
        match self {
            MinAttestation::NoMinimum => "none",
            MinAttestation::C => "C",
            MinAttestation::B => "B",
            MinAttestation::A => "A",
        }
    }

    /// The required rank, or `None` when there is no requirement.
    pub fn required_rank(self) -> (r: Option<u8>)
        ensures
            match r {
                Some(n) => self.required() == Some(n as nat),
                None => self.required() is None,
            },
    {
        match self {
            MinAttestation::NoMinimum => None,
            MinAttestation::C => Some(AttestationLevel::C.rank()),
            MinAttestation::B => Some(AttestationLevel::B.rank()),
            MinAttestation::A => Some(AttestationLevel::A.rank()),
        }
    }

    /// The effective policy of a route. **Strict override**: a route value replaces
    /// the global one, even a more permissive one.
    pub fn resolve(global: MinAttestation, route_override: Option<MinAttestation>) -> (r:
        MinAttestation)
        ensures
            r == (match route_override {
                Some(m) => m,
                None => global,
            }),
    {
        match route_override {
            Some(m) => m,
            None => global,
        }
    }

    /// Whether a call's verdict satisfies this policy: without a requirement always,
    /// and otherwise only with a *trusted* attestation at or above the level.
    pub fn permits(self, result: &VerificationResult) -> (r: bool)
        ensures
            r == self.admits(*result),
    {
        match self.required_rank() {
            None => true,
            Some(required) => match result.trusted_attestation() {
                Some(level) => level.rank() >= required,
                None => false,
            },
        }
    }
}

/// Parsing inverts printing.
pub proof fn parse_inverts_as_str(m: MinAttestation)
    ensures
        MinAttestation::parsed(m.token()) == Some(m),
{
    reveal_strlit("none");
    reveal_strlit("A");
    reveal_strlit("B");
    reveal_strlit("C");
    reveal_strlit("a");
    reveal_strlit("b");
    reveal_strlit("c");
    let t = m.token();
    assert(trimmed(t) == t) by {
        reveal_with_fuel(crate::text::trim_start_of, 2);
        reveal_with_fuel(crate::text::trim_end_of, 2);
    }
    assert(lower("none"@) =~= "none"@);
    assert(lower("A"@) =~= "a"@);
    assert(lower("B"@) =~= "b"@);
    assert(lower("C"@) =~= "c"@);
    assert("a"@[0] == 'a' && "b"@[0] == 'b' && "c"@[0] == 'c');
    assert("none"@.len() == 4 && "a"@.len() == 1 && "b"@.len() == 1 && "c"@.len() == 1);
}

/// A policy with a requirement lets no call through that is unsigned or failed any
/// check, whatever level the call claims.
pub proof fn no_trust_without_a_full_pass(m: MinAttestation, result: VerificationResult)
    requires
        m != MinAttestation::NoMinimum,
        m.admits(result),
    ensures
        result.all_passed(),
        result.attest is Some,
{
}

/// A call that a stricter policy admits, every laxer policy admits too.
pub proof fn stricter_policies_admit_less(
    strict: MinAttestation,
    lax: MinAttestation,
    result: VerificationResult,
)
    requires
        strict.admits(result),
        match (strict.required(), lax.required()) {
            (_, None) => true,
            (None, Some(_)) => false,
            (Some(s), Some(l)) => s >= l,
        },
    ensures
        lax.admits(result),
{
}

/// What each policy lets through: everything, any trusted call, only partial or full
/// attestation, only full attestation.
pub proof fn a_policy_asks_for_its_level_or_better(
    v: &VerificationResult,
    level: Option<AttestationLevel>,
    policy: MinAttestation,
    let_through: bool,
)
    requires
        call_ensures(VerificationResult::trusted_attestation, (v,), level),
        call_ensures(MinAttestation::permits, (policy, v), let_through),
    ensures
        policy == MinAttestation::NoMinimum ==> let_through,
        policy == MinAttestation::C ==> (let_through <==> level is Some),
        policy == MinAttestation::B ==> (let_through <==> level == Some(AttestationLevel::A)
            || level == Some(AttestationLevel::B)),
        policy == MinAttestation::A ==> (let_through <==> level == Some(AttestationLevel::A)),
{
}

/// A route's own policy replaces the global one, also where it asks for less; without
/// one the global policy stands.
pub proof fn a_route_overrides_the_global_policy(
    global: MinAttestation,
    other: MinAttestation,
    route: Option<MinAttestation>,
    r: MinAttestation,
    s: MinAttestation,
)
    requires
        call_ensures(MinAttestation::resolve, (global, route), r),
        call_ensures(MinAttestation::resolve, (other, route), s),
    ensures
        route matches Some(m) ==> r == m && s == m,
        route is None ==> r == global && s == other,
{
}

/// A policy is read from its name in any case and within white space, and the four names
/// are all there are.
pub proof fn a_policy_is_read_from_its_name(s: &str, r: Option<MinAttestation>)
    requires
        call_ensures(MinAttestation::parse, (s,), r),
    ensures
        r == Some(MinAttestation::NoMinimum) <==> lower(trimmed(s@)) == "none"@,
        r == Some(MinAttestation::A) <==> lower(trimmed(s@)) == "a"@,
        r == Some(MinAttestation::B) <==> lower(trimmed(s@)) == "b"@,
        r == Some(MinAttestation::C) <==> lower(trimmed(s@)) == "c"@,
{
    reveal_strlit("none");
    reveal_strlit("a");
    reveal_strlit("b");
    reveal_strlit("c");
    assert("a"@[0] == 'a' && "b"@[0] == 'b' && "c"@[0] == 'c');
    assert("none"@.len() == 4 && "a"@.len() == 1 && "b"@.len() == 1 && "c"@.len() == 1);
}

/// A policy is written as the token that reads back as it, and asks for the rank of its
/// level; none is asked for by default.
pub proof fn a_policy_is_written_as_it_is_read(
    p: MinAttestation,
    token: &'static str,
    back: Option<MinAttestation>,
    rank: Option<u8>,
    level: AttestationLevel,
    n: u8,
    d: MinAttestation,
)
    requires
        call_ensures(MinAttestation::as_str, (p,), token),
        call_ensures(MinAttestation::parse, (token,), back),
        call_ensures(MinAttestation::required_rank, (p,), rank),
        call_ensures(AttestationLevel::rank, (level,), n),
        call_ensures(MinAttestation::default, (), d),
    ensures
        back == Some(p),
        token@ == "none"@ <==> p is NoMinimum,
        token@ == "A"@ <==> p is A,
        token@ == "B"@ <==> p is B,
        token@ == "C"@ <==> p is C,
        rank is None <==> p is NoMinimum,
        p is A && level is A || p is B && level is B || p is C && level is C ==> rank == Some(n),
        d is NoMinimum,
{
    reveal_strlit("none");
    reveal_strlit("a");
    reveal_strlit("b");
    reveal_strlit("c");
    reveal_strlit("A");
    reveal_strlit("B");
    reveal_strlit("C");
    reveal_with_fuel(crate::text::trim_start_of, 2);
    reveal_with_fuel(crate::text::trim_end_of, 2);
    assert("none"@.len() == 4);
    assert("a"@[0] == 'a' && "b"@[0] == 'b' && "c"@[0] == 'c');
    assert("A"@[0] == 'A' && "B"@[0] == 'B' && "C"@[0] == 'C');
    assert(trimmed("none"@) =~= "none"@);
    assert(trimmed("A"@) =~= "A"@);
    assert(trimmed("B"@) =~= "B"@);
    assert(trimmed("C"@) =~= "C"@);
    assert(lower("none"@) =~= "none"@);
    assert(lower("A"@) =~= "a"@);
    assert(lower("B"@) =~= "b"@);
    assert(lower("C"@) =~= "c"@);
}

} // verus!
