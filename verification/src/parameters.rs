//! The parameter set of a key, and the quantities derived from it.

use crate::congruence::torus_modulus;
use crate::degree::Degree;
use vstd::arithmetic::div_mod::{
    lemma_div_plus_one, lemma_fundamental_div_mod, lemma_mod_bound, lemma_mod_multiples_basic,
    lemma_small_mod,
};
use vstd::prelude::*;

verus! {

/// The smallest multiple of `plaintext_modulus` that is not below `degree`.
///
/// Negating a ciphertext of that degree adds this term to what it encodes,
/// so that the encoded value stays non-negative and keeps its class modulo
/// the plaintext modulus.
pub open spec fn correcting_term(degree: nat, plaintext_modulus: nat) -> nat
    recommends
        plaintext_modulus >= 1,
{
    (((degree + plaintext_modulus - 1) / (plaintext_modulus as int)) * plaintext_modulus) as nat
}

/// The factor by which a value is scaled before it is placed on the torus:
/// one padding bit is left above `plaintext_modulus * carry_modulus` values.
pub open spec fn scaling_factor(plaintext_modulus: nat, carry_modulus: nat) -> nat
    recommends
        plaintext_modulus * carry_modulus >= 1,
{
    (0x8000_0000_0000_0000int / ((plaintext_modulus * carry_modulus) as int)) as nat
}

/// The torus element that stands for the value `term`.
pub open spec fn scaled_plaintext(term: nat, delta: nat) -> u64 {
    (((term * delta) as int) % torus_modulus()) as u64
}

/// The parameters under which ciphertexts are evaluated.
#[derive(Clone, Copy, Debug, PartialEq, Eq, Structural)]
pub struct Parameters {
    /// Messages are integers modulo this number.
    pub plaintext_modulus: usize,
    /// How many times the message space fits in the encoding space.
    pub carry_modulus: usize,
    /// The largest degree a ciphertext may have.
    pub max_degree: Degree,
}

impl Parameters {
    /// The moduli are positive and their product is a machine integer.
    pub open spec fn wf(&self) -> bool {
        &&& self.plaintext_modulus >= 1
        &&& self.carry_modulus >= 1
        &&& self.plaintext_modulus * self.carry_modulus <= usize::MAX
    }

    /// The scaling factor of these parameters.
    pub open spec fn delta(&self) -> nat {
        scaling_factor(self.plaintext_modulus as nat, self.carry_modulus as nat)
    }

    /// The degree of a fresh ciphertext.
    pub open spec fn base_degree(&self) -> nat {
        crate::degree::base_bound(self.plaintext_modulus as nat)
    }

    /// The correcting term of negating a ciphertext of degree `degree`.
    pub open spec fn correcting_term(&self, degree: nat) -> nat {
        correcting_term(degree, self.plaintext_modulus as nat)
    }

    /// Bundles the three parameters, if the moduli are positive and their
    /// product is a machine integer.
    pub fn new(plaintext_modulus: usize, carry_modulus: usize, max_degree: Degree) -> (parameters:
        Option<Parameters>)
        ensures
            parameters == if (Parameters { plaintext_modulus, carry_modulus, max_degree }).wf() {
                Some(Parameters { plaintext_modulus, carry_modulus, max_degree })
            } else {
                None
            },
    {
        if plaintext_modulus == 0 || carry_modulus == 0 {
            return None;
        }
        match plaintext_modulus.checked_mul(carry_modulus) {
            Some(_) => Some(Parameters { plaintext_modulus, carry_modulus, max_degree }),
            None => None,
        }
    }

    /// The scaling factor, as a torus element.
    pub fn scaling_factor(&self) -> (delta: u64)
        requires
            self.wf(),
        ensures
            delta == self.delta(),
    {
        assert(self.plaintext_modulus * self.carry_modulus >= 1) by (nonlinear_arith)
            requires
                self.plaintext_modulus >= 1,
                self.carry_modulus >= 1,
        ;
        let space: u64 = (self.plaintext_modulus * self.carry_modulus) as u64;
        0x8000_0000_0000_0000u64 / space
    }

    /// The correcting term of negating a ciphertext of degree `degree`, or
    /// `None` where it is no machine integer.
    pub fn checked_correcting_term(&self, degree: Degree) -> (term: Option<usize>)
        requires
            self.plaintext_modulus >= 1,
        ensures
            term == if self.correcting_term(degree@) <= usize::MAX {
                Some(self.correcting_term(degree@) as usize)
            } else {
                None
            },
    {
        let modulus: usize = self.plaintext_modulus;
        let blocks: usize = if degree.0 == 0 {
            0
        } else {
            (degree.0 - 1) / modulus + 1
        };
        proof {
            if degree.0 == 0 {
                vstd::arithmetic::div_mod::lemma_basic_div(modulus - 1, modulus as int);
            } else {
                lemma_div_plus_one(degree.0 - 1, modulus as int);
            }
            assert(blocks == (degree@ + modulus - 1) / (modulus as int));
            assert(blocks * modulus >= 0) by (nonlinear_arith)
                requires
                    blocks >= 0,
                    modulus >= 0,
            ;
        }
        blocks.checked_mul(modulus)
    }
}

/// The correcting term is a multiple of the plaintext modulus, at least the
/// degree and less than one modulus above it.
pub proof fn lemma_correcting_term_bounds(degree: nat, plaintext_modulus: nat)
    requires
        plaintext_modulus >= 1,
    ensures
        correcting_term(degree, plaintext_modulus) % plaintext_modulus == 0,
        degree <= correcting_term(degree, plaintext_modulus) < degree + plaintext_modulus,
{
    let p = plaintext_modulus as int;
    let x = degree + p - 1;
    let q = x / p;
    lemma_fundamental_div_mod(x, p);
    lemma_mod_bound(x, p);
    lemma_mod_multiples_basic(q, p);
    assert(p * q == q * p) by (nonlinear_arith);
    assert(q * p >= 0);
}

/// A degree that is a multiple of the plaintext modulus is its own
/// correcting term.
pub proof fn lemma_correcting_term_of_multiple(degree: nat, plaintext_modulus: nat)
    requires
        plaintext_modulus >= 1,
        degree % plaintext_modulus == 0,
    ensures
        correcting_term(degree, plaintext_modulus) == degree,
{
    lemma_correcting_term_bounds(degree, plaintext_modulus);
    let p = plaintext_modulus as int;
    let z = correcting_term(degree, plaintext_modulus) as int;
    let gap = z - degree;
    vstd::arithmetic::div_mod::lemma_sub_mod_noop(z, degree as int, p);
    assert(z % p == 0);
    assert((degree as int) % p == 0);
    assert(0int % p == 0) by {
        lemma_small_mod(0, plaintext_modulus);
    }
    assert(gap % p == 0);
    lemma_small_mod(gap as nat, plaintext_modulus);
}

} // verus!
