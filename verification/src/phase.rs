//! What a sample holds under a secret key.
//!
//! The phase of a sample is its body minus the inner product of its mask
//! with the secret key, taken on the torus. The linear operations on
//! samples act on phases as the same operations on torus elements.

use crate::congruence::{
    congruent, lemma_congruent_add, lemma_congruent_scale, lemma_congruent_sub,
    lemma_reduce_congruent, torus_modulus,
};
use crate::lwe::{sample_opposite, sample_shift, sample_sum};
use vstd::prelude::*;

verus! {

/// Inner product of a mask with the leading coefficients of a secret key.
pub open spec fn mask_product(mask: Seq<u64>, secret: Seq<int>) -> int
    decreases mask.len(),
{
    if mask.len() == 0 {
        0
    } else {
        mask_product(mask.drop_last(), secret) + mask.last() * secret[mask.len() - 1]
    }
}

/// The torus element that `sample` holds under `secret`.
pub open spec fn phase(sample: Seq<u64>, secret: Seq<int>) -> int
    recommends
        sample.len() >= 1,
{
    (sample.last() - mask_product(sample.drop_last(), secret)) % torus_modulus()
}

proof fn lemma_mask_product_sum(a: Seq<u64>, b: Seq<u64>, secret: Seq<int>)
    requires
        a.len() == b.len(),
    ensures
        congruent(
            mask_product(sample_sum(a, b), secret),
            mask_product(a, secret) + mask_product(b, secret),
        ),
    decreases a.len(),
{
    let c = sample_sum(a, b);
    if a.len() > 0 {
        let k = secret[a.len() - 1];
        assert(c.drop_last() =~= sample_sum(a.drop_last(), b.drop_last()));
        lemma_mask_product_sum(a.drop_last(), b.drop_last(), secret);
        lemma_reduce_congruent(a.last() + b.last());
        lemma_congruent_scale(c.last() as int, a.last() + b.last(), k);
        assert((a.last() + b.last()) * k == a.last() * k + b.last() * k) by (nonlinear_arith);
        lemma_congruent_add(
            mask_product(c.drop_last(), secret),
            mask_product(a.drop_last(), secret) + mask_product(b.drop_last(), secret),
            c.last() * k,
            (a.last() + b.last()) * k,
        );
    }
}

proof fn lemma_mask_product_opposite(a: Seq<u64>, secret: Seq<int>)
    ensures
        congruent(mask_product(sample_opposite(a), secret), -mask_product(a, secret)),
    decreases a.len(),
{
    let c = sample_opposite(a);
    if a.len() > 0 {
        let k = secret[a.len() - 1];
        assert(c.drop_last() =~= sample_opposite(a.drop_last()));
        lemma_mask_product_opposite(a.drop_last(), secret);
        lemma_reduce_congruent(-(a.last() as int));
        lemma_congruent_scale(c.last() as int, -(a.last() as int), k);
        assert((-(a.last() as int)) * k == -(a.last() * k)) by (nonlinear_arith);
        lemma_congruent_add(
            mask_product(c.drop_last(), secret),
            -mask_product(a.drop_last(), secret),
            c.last() * k,
            -(a.last() * k),
        );
    }
}

/// The phase of a sum of samples is the sum of their phases.
pub proof fn lemma_phase_sum(a: Seq<u64>, b: Seq<u64>, secret: Seq<int>)
    requires
        a.len() == b.len(),
        a.len() >= 1,
    ensures
        congruent(phase(sample_sum(a, b), secret), phase(a, secret) + phase(b, secret)),
{
    let c = sample_sum(a, b);
    assert(c.drop_last() =~= sample_sum(a.drop_last(), b.drop_last()));
    lemma_mask_product_sum(a.drop_last(), b.drop_last(), secret);
    let pa = a.last() - mask_product(a.drop_last(), secret);
    let pb = b.last() - mask_product(b.drop_last(), secret);
    let pc = c.last() - mask_product(c.drop_last(), secret);
    lemma_reduce_congruent(a.last() + b.last());
    lemma_congruent_sub(
        c.last() as int,
        a.last() + b.last(),
        mask_product(c.drop_last(), secret),
        mask_product(a.drop_last(), secret) + mask_product(b.drop_last(), secret),
    );
    lemma_reduce_congruent(pa);
    lemma_reduce_congruent(pb);
    lemma_reduce_congruent(pc);
    lemma_congruent_add(phase(a, secret), pa, phase(b, secret), pb);
}

/// The phase of the opposite of a sample is the opposite of its phase.
pub proof fn lemma_phase_opposite(a: Seq<u64>, secret: Seq<int>)
    requires
        a.len() >= 1,
    ensures
        congruent(phase(sample_opposite(a), secret), -phase(a, secret)),
{
    let c = sample_opposite(a);
    assert(c.drop_last() =~= sample_opposite(a.drop_last()));
    lemma_mask_product_opposite(a.drop_last(), secret);
    let pa = a.last() - mask_product(a.drop_last(), secret);
    let pc = c.last() - mask_product(c.drop_last(), secret);
    lemma_reduce_congruent(-(a.last() as int));
    lemma_congruent_sub(
        c.last() as int,
        -(a.last() as int),
        mask_product(c.drop_last(), secret),
        -mask_product(a.drop_last(), secret),
    );
    lemma_reduce_congruent(pa);
    lemma_reduce_congruent(pc);
    lemma_congruent_sub(0, 0, phase(a, secret), pa);
}

/// Adding a plaintext to the body of a sample adds it to the phase.
pub proof fn lemma_phase_shift(a: Seq<u64>, plaintext: u64, secret: Seq<int>)
    requires
        a.len() >= 1,
    ensures
        congruent(phase(sample_shift(a, plaintext), secret), phase(a, secret) + plaintext),
{
    let c = sample_shift(a, plaintext);
    assert(c.drop_last() =~= a.drop_last());
    let m = mask_product(a.drop_last(), secret);
    let pa = a.last() - m;
    let pc = c.last() - m;
    lemma_reduce_congruent(a.last() + plaintext);
    lemma_congruent_sub(c.last() as int, a.last() + plaintext, m, m);
    lemma_reduce_congruent(pa);
    lemma_reduce_congruent(pc);
    lemma_congruent_add(phase(a, secret), pa, plaintext as int, plaintext as int);
}

} // verus!
