//! Congruence of integers modulo the size of the torus.

use vstd::arithmetic::div_mod::*;
use vstd::prelude::*;

verus! {

/// The number of elements of the discretised torus.
pub open spec fn torus_modulus() -> int {
    0x1_0000_0000_0000_0000
}

/// `x` and `y` name the same torus element.
pub open spec fn congruent(x: int, y: int) -> bool {
    x % torus_modulus() == y % torus_modulus()
}

/// Reducing an integer keeps its torus element.
pub proof fn lemma_reduce_congruent(x: int)
    ensures
        congruent(x % torus_modulus(), x),
        0 <= x % torus_modulus() < torus_modulus(),
{
    lemma_mod_twice(x, torus_modulus());
    lemma_mod_bound(x, torus_modulus());
}

/// Congruence is kept by addition.
pub proof fn lemma_congruent_add(x1: int, y1: int, x2: int, y2: int)
    requires
        congruent(x1, y1),
        congruent(x2, y2),
    ensures
        congruent(x1 + x2, y1 + y2),
{
    lemma_add_mod_noop(x1, x2, torus_modulus());
    lemma_add_mod_noop(y1, y2, torus_modulus());
}

/// Congruence is kept by subtraction.
pub proof fn lemma_congruent_sub(x1: int, y1: int, x2: int, y2: int)
    requires
        congruent(x1, y1),
        congruent(x2, y2),
    ensures
        congruent(x1 - x2, y1 - y2),
{
    lemma_sub_mod_noop(x1, x2, torus_modulus());
    lemma_sub_mod_noop(y1, y2, torus_modulus());
}

/// Congruence is kept by multiplication with a fixed integer.
pub proof fn lemma_congruent_scale(x: int, y: int, k: int)
    requires
        congruent(x, y),
    ensures
        congruent(x * k, y * k),
{
    lemma_mul_mod_noop_left(x, k, torus_modulus());
    lemma_mul_mod_noop_left(y, k, torus_modulus());
}

} // verus!
