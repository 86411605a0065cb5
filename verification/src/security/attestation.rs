//! SHAKEN attestation levels.
use vstd::prelude::*;

use crate::text::str_eq;

verus! {

/// How strongly the originating provider vouches for the calling number. `A` is the
/// strongest; compare by [`AttestationLevel::rank`], since the letters run the other
/// way round.
#[derive(Debug, Clone, Copy, PartialEq, Eq, Structural)]
pub enum AttestationLevel {
    /// Full: the customer and their right to the number are confirmed.
    A,
    /// Partial: the customer is authenticated, the number is not confirmed.
    B,
    /// Gateway: only the ingress point is authenticated.
    C,
}

impl AttestationLevel {
    /// Trust strength.
    pub open spec fn strength(self) -> nat {
        match self {
            AttestationLevel::A => 3,
            AttestationLevel::B => 2,
            AttestationLevel::C => 1,
        }
    }

    /// The wire character.
    pub open spec fn letter(self) -> Seq<char> {
        match self {
            AttestationLevel::A => "A"@,
            AttestationLevel::B => "B"@,
            AttestationLevel::C => "C"@,
        }
    }

    /// Trust strength: `A` is 3, `C` is 1.
    pub fn rank(self) -> (r: u8)
        ensures
            r == self.strength(),
    {
        match self {
            AttestationLevel::A => 3,
            AttestationLevel::B => 2,
            AttestationLevel::C => 1,
        }
    }

    /// Parse the single-character claim value.
    pub fn parse(s: &str) -> (r: Option<Self>)
        ensures
            match r {
                Some(l) => s@ == l.letter(),
                None => s@ != "A"@ && s@ != "B"@ && s@ != "C"@,
            },
    {
        if str_eq(s, "A") {
            Some(AttestationLevel::A)
        } else if str_eq(s, "B") {
            Some(AttestationLevel::B)
        } else if str_eq(s, "C") {
            Some(AttestationLevel::C)
        } else {
            None
        }
    }

    /// The wire character.
    pub fn as_str(self) -> (r: &'static str)
        ensures
            r@ == self.letter(),
    {
        match self {
            AttestationLevel::A => "A",
            AttestationLevel::B => "B",
            AttestationLevel::C => "C",
        }
    }
}

/// The wire characters tell the levels apart, so parsing inverts printing.
pub proof fn letters_are_distinct(a: AttestationLevel, b: AttestationLevel)
    ensures
        a.letter() == b.letter() <==> a == b,
{
    reveal_strlit("A");
    reveal_strlit("B");
    reveal_strlit("C");
    assert("A"@[0] == 'A' && "B"@[0] == 'B' && "C"@[0] == 'C');
}

/// Full attestation outranks partial, and partial outranks gateway.
pub proof fn full_outranks_partial_outranks_gateway(a: u8, b: u8, c: u8)
    requires
        call_ensures(AttestationLevel::rank, (AttestationLevel::A,), a),
        call_ensures(AttestationLevel::rank, (AttestationLevel::B,), b),
        call_ensures(AttestationLevel::rank, (AttestationLevel::C,), c),
    ensures
        a > b > c > 0,
{
}

/// Printing and parsing agree: a level is read from what it prints, and from nothing
/// else.
pub proof fn a_level_is_read_from_its_letter_alone(
    s: &str,
    read: Option<AttestationLevel>,
    level: AttestationLevel,
    shown: &'static str,
)
    requires
        call_ensures(AttestationLevel::parse, (s,), read),
        call_ensures(AttestationLevel::as_str, (level,), shown),
    ensures
        read == Some(level) <==> s@ == shown@,
        shown@ == (if level is A {
            "A"@
        } else if level is B {
            "B"@
        } else {
            "C"@
        }),
{
    if read is Some {
        letters_are_distinct(read->0, level);
    }
}

} // verus!
