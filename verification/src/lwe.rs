//! Lattice samples and the linear operations on them.
//!
//! A sample is a vector of 64-bit torus elements: the mask, followed by the
//! body. All arithmetic on torus elements wraps around modulo 2^64.

use crate::congruence::torus_modulus;
use vstd::prelude::*;

verus! {

/// Sum of two torus elements.
pub open spec fn torus_add(x: u64, y: u64) -> u64 {
    ((x + y) % torus_modulus()) as u64
}

/// Opposite of a torus element.
pub open spec fn torus_neg(x: u64) -> u64 {
    ((-(x as int)) % torus_modulus()) as u64
}

/// Difference of two torus elements.
pub open spec fn torus_sub(x: u64, y: u64) -> u64 {
    ((x - y) % torus_modulus()) as u64
}

/// Element-wise sum of two samples of the same size.
pub open spec fn sample_sum(a: Seq<u64>, b: Seq<u64>) -> Seq<u64> {
    Seq::new(a.len(), |i: int| torus_add(a[i], b[i]))
}

/// Element-wise difference of two samples of the same size.
pub open spec fn sample_difference(a: Seq<u64>, b: Seq<u64>) -> Seq<u64> {
    Seq::new(a.len(), |i: int| torus_sub(a[i], b[i]))
}

/// Element-wise opposite of a sample.
pub open spec fn sample_opposite(a: Seq<u64>) -> Seq<u64> {
    Seq::new(a.len(), |i: int| torus_neg(a[i]))
}

/// The sample with `plaintext` added to its body.
pub open spec fn sample_shift(a: Seq<u64>, plaintext: u64) -> Seq<u64>
    recommends
        a.len() >= 1,
{
    a.update(a.len() - 1, torus_add(a.last(), plaintext))
}

/// A lattice sample: mask elements first, the body last.
#[derive(Debug)]
pub struct LweCiphertext {
    pub data: Vec<u64>,
}

impl View for LweCiphertext {
    type V = Seq<u64>;

    open spec fn view(&self) -> Seq<u64> {
        self.data@
    }
}

impl Clone for LweCiphertext {
    fn clone(&self) -> (copy: Self)
        ensures
            copy@ == self@,
    {
        let data = self.data.clone();
        LweCiphertext { data }
    }
}

impl LweCiphertext {
    /// Wraps the torus elements of a sample.
    pub fn from_container(data: Vec<u64>) -> (sample: Self)
        ensures
            sample@ == data@,
    {
        LweCiphertext { data }
    }

    /// Number of torus elements, the body included.
    pub fn len(&self) -> (n: usize)
        ensures
            n == self@.len(),
    {
        self.data.len()
    }
}

/// Adds `rhs` to `lhs`, element by element.
pub fn lwe_ciphertext_add_assign(lhs: &mut LweCiphertext, rhs: &LweCiphertext)
    requires
        old(lhs)@.len() == rhs@.len(),
    ensures
        final(lhs)@ == sample_sum(old(lhs)@, rhs@),
{
    let n: usize = rhs.data.len();
    let mut i: usize = 0;
    while i < n
        invariant
            i <= n,
            n == rhs@.len(),
            lhs@.len() == n,
            forall|j: int| 0 <= j < i ==> lhs@[j] == torus_add(old(lhs)@[j], rhs@[j]),
            forall|j: int| i <= j < n ==> lhs@[j] == old(lhs)@[j],
        decreases n - i,
    {
        let sum: u64 = lhs.data[i].wrapping_add(rhs.data[i]);
        lhs.data.set(i, sum);
        i += 1;
    }
    assert(lhs@ =~= sample_sum(old(lhs)@, rhs@));
}

/// Replaces every element of `ct` by its opposite.
pub fn lwe_ciphertext_opposite_assign(ct: &mut LweCiphertext)
    ensures
        final(ct)@ == sample_opposite(old(ct)@),
{
    let n: usize = ct.data.len();
    let mut i: usize = 0;
    while i < n
        invariant
            i <= n,
            ct@.len() == n,
            n == old(ct)@.len(),
            forall|j: int| 0 <= j < i ==> ct@[j] == torus_neg(old(ct)@[j]),
            forall|j: int| i <= j < n ==> ct@[j] == old(ct)@[j],
        decreases n - i,
    {
        let opposite: u64 = 0u64.wrapping_sub(ct.data[i]);
        ct.data.set(i, opposite);
        i += 1;
    }
    assert(ct@ =~= sample_opposite(old(ct)@));
}

/// Adds `plaintext` to the body of `ct`.
pub fn lwe_ciphertext_plaintext_add_assign(ct: &mut LweCiphertext, plaintext: u64)
    requires
        old(ct)@.len() >= 1,
    ensures
        final(ct)@ == sample_shift(old(ct)@, plaintext),
{
    let last: usize = ct.data.len() - 1;
    let body: u64 = ct.data[last].wrapping_add(plaintext);
    ct.data.set(last, body);
}

/// Adding the opposite of a sample, shifted by a plaintext, is subtracting
/// the sample and then shifting.
pub proof fn lemma_sum_with_opposite(a: Seq<u64>, b: Seq<u64>, plaintext: u64)
    requires
        a.len() == b.len(),
        a.len() >= 1,
    ensures
        sample_sum(a, sample_shift(sample_opposite(b), plaintext)) == sample_shift(
            sample_difference(a, b),
            plaintext,
        ),
{
    let lhs = sample_sum(a, sample_shift(sample_opposite(b), plaintext));
    let rhs = sample_shift(sample_difference(a, b), plaintext);
    assert forall|i: int| 0 <= i < a.len() implies lhs[i] == rhs[i] by {
        let m = torus_modulus();
        let x = a[i] as int;
        let y = b[i] as int;
        let w = plaintext as int;
        assert((x + (-y) % m) % m == (x - y) % m) by {
            vstd::arithmetic::div_mod::lemma_add_mod_noop_right(x, -y, m);
        }
        if i == a.len() - 1 {
            assert((x + ((-y) % m + w) % m) % m == ((x - y) % m + w) % m) by {
                vstd::arithmetic::div_mod::lemma_add_mod_noop_right(x, (-y) % m + w, m);
                vstd::arithmetic::div_mod::lemma_add_mod_noop_right(x + w, -y, m);
                vstd::arithmetic::div_mod::lemma_add_mod_noop(x - y, w, m);
                vstd::arithmetic::div_mod::lemma_add_mod_noop_right((x - y) % m, w, m);
            }
        }
    }
    assert(lhs =~= rhs);
}

} // verus!
