//! The degree of a ciphertext: a bound on the value it currently encodes.

use vstd::prelude::*;

verus! {

/// An upper bound on the representative encoded in a ciphertext.
///
/// A freshly encrypted or freshly refreshed ciphertext has the base degree
/// of its plaintext modulus; every homomorphic operation updates the bound.
#[derive(Clone, Copy, Debug, PartialEq, Eq, Structural)]
pub struct Degree(pub usize);

impl View for Degree {
    type V = nat;

    open spec fn view(&self) -> nat {
        self.0 as nat
    }
}

/// The bound of a sum of two encoded values.
pub open spec fn combined_bound(a: nat, b: nat) -> nat {
    a + b
}

/// The largest value a message can take under `plaintext_modulus`.
pub open spec fn base_bound(plaintext_modulus: nat) -> nat
    recommends
        plaintext_modulus >= 1,
{
    (plaintext_modulus - 1) as nat
}

impl Degree {
    /// The degree of a sum: the two bounds add up.
    pub fn combine_additive(self, other: Degree) -> (combined: Degree)
        requires
            self@ + other@ <= usize::MAX,
        ensures
            combined@ == combined_bound(self@, other@),
    {
        Degree(self.0 + other.0)
    }

    /// Whether this degree stays within `threshold`.
    pub fn is_below(self, threshold: Degree) -> (within: bool)
        ensures
            within == (self@ <= threshold@),
    {
        self.0 <= threshold.0
    }

    /// The degree right after encryption or after a refresh.
    pub fn base(plaintext_modulus: usize) -> (fresh: Degree)
        requires
            plaintext_modulus >= 1,
        ensures
            fresh@ == base_bound(plaintext_modulus as nat),
    {
        Degree(plaintext_modulus - 1)
    }
}

} // verus!
