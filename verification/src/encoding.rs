//! What a ciphertext encodes, and what the operations do to it.
//!
//! A sample encodes a value when its phase under the secret key is the value
//! times the scaling factor, plus some noise. The message is the encoded
//! value modulo the plaintext modulus; the degree of a ciphertext bounds the
//! encoded value.

use crate::ciphertext::CiphertextView;
use crate::congruence::{
    congruent, lemma_congruent_add, lemma_congruent_sub, lemma_reduce_congruent, torus_modulus,
};
use crate::engine::neg::negation;
use crate::engine::sub::{difference, lemma_sub_is_sum_with_negation, operands_prepared};
use crate::parameters::{lemma_correcting_term_bounds, scaled_plaintext, Parameters};
use crate::phase::{lemma_phase_opposite, lemma_phase_shift, lemma_phase_sum, phase};
use crate::lwe::sample_opposite;
use crate::server_key::fresh_sub_possible;
use vstd::arithmetic::div_mod::{
    lemma_fundamental_div_mod, lemma_fundamental_div_mod_converse, lemma_mod_multiples_vanish,
    lemma_small_mod, lemma_sub_mod_noop,
};
use vstd::prelude::*;

verus! {

/// Under `secret`, `sample` holds `value` scaled by `delta`, off by `noise`.
pub open spec fn encodes(
    sample: Seq<u64>,
    secret: Seq<int>,
    delta: nat,
    value: int,
    noise: int,
) -> bool {
    &&& sample.len() >= 1
    &&& congruent(phase(sample, secret), delta * value + noise)
}

/// The message that an encoded value stands for.
pub open spec fn message(value: int, plaintext_modulus: nat) -> int {
    value % (plaintext_modulus as int)
}

/// The negation of a ciphertext encodes the correcting term minus what the
/// ciphertext encodes, with the opposite noise.
pub proof fn lemma_negation_encodes(
    ct: CiphertextView,
    parameters: Parameters,
    secret: Seq<int>,
    value: int,
    noise: int,
)
    requires
        encodes(ct.sample, secret, parameters.delta(), value, noise),
    ensures
        encodes(
            negation(ct, parameters).sample,
            secret,
            parameters.delta(),
            parameters.correcting_term(ct.degree) - value,
            -noise,
        ),
{
    let delta = parameters.delta() as int;
    let term = parameters.correcting_term(ct.degree) as int;
    let shift = scaled_plaintext(term as nat, delta as nat);
    let opposite = sample_opposite(ct.sample);
    lemma_phase_opposite(ct.sample, secret);
    lemma_phase_shift(opposite, shift, secret);
    lemma_congruent_sub(0, 0, phase(ct.sample, secret), delta * value + noise);
    lemma_reduce_congruent(term * delta);
    lemma_congruent_add(
        phase(opposite, secret),
        -(delta * value + noise),
        shift as int,
        term * delta,
    );
    assert(-(delta * value + noise) + term * delta == delta * (term - value) + (-noise))
        by (nonlinear_arith);
}

/// The difference of two ciphertexts encodes the difference of what they
/// encode plus the correcting term, and the noises subtract.
pub proof fn lemma_difference_encodes(
    left: CiphertextView,
    right: CiphertextView,
    parameters: Parameters,
    secret: Seq<int>,
    left_value: int,
    left_noise: int,
    right_value: int,
    right_noise: int,
)
    requires
        left.sample.len() == right.sample.len(),
        encodes(left.sample, secret, parameters.delta(), left_value, left_noise),
        encodes(right.sample, secret, parameters.delta(), right_value, right_noise),
    ensures
        encodes(
            difference(left, right, parameters).sample,
            secret,
            parameters.delta(),
            left_value - right_value + parameters.correcting_term(right.degree),
            left_noise - right_noise,
        ),
{
    let delta = parameters.delta() as int;
    let term = parameters.correcting_term(right.degree) as int;
    let negated = negation(right, parameters);
    lemma_sub_is_sum_with_negation(left, right, parameters);
    lemma_negation_encodes(right, parameters, secret, right_value, right_noise);
    lemma_phase_sum(left.sample, negated.sample, secret);
    lemma_congruent_add(
        phase(left.sample, secret),
        delta * left_value + left_noise,
        phase(negated.sample, secret),
        delta * (term - right_value) + (-right_noise),
    );
    assert(delta * left_value + left_noise + (delta * (term - right_value) + (-right_noise))
        == delta * (left_value - right_value + term) + (left_noise - right_noise))
        by (nonlinear_arith);
}

/// The correcting term does not show in the message: the message of a
/// difference is the difference of the messages, modulo the plaintext
/// modulus.
pub proof fn lemma_difference_message(
    left_value: int,
    right_value: int,
    right_degree: nat,
    parameters: Parameters,
)
    requires
        parameters.plaintext_modulus >= 1,
    ensures
        message(
            left_value - right_value + parameters.correcting_term(right_degree),
            parameters.plaintext_modulus as nat,
        ) == message(
            message(left_value, parameters.plaintext_modulus as nat) - message(
                right_value,
                parameters.plaintext_modulus as nat,
            ),
            parameters.plaintext_modulus as nat,
        ),
{
    let p = parameters.plaintext_modulus as int;
    let term = parameters.correcting_term(right_degree) as int;
    lemma_correcting_term_bounds(right_degree, parameters.plaintext_modulus as nat);
    lemma_fundamental_div_mod(term, p);
    lemma_mod_multiples_vanish(term / p, left_value - right_value, p);
    lemma_sub_mod_noop(left_value, right_value, p);
}

/// The degree of a difference bounds what it encodes, if the degrees of the
/// operands bound what they encode.
pub proof fn lemma_difference_within_degree(
    left: CiphertextView,
    right: CiphertextView,
    parameters: Parameters,
    left_value: int,
    right_value: int,
)
    requires
        parameters.plaintext_modulus >= 1,
        0 <= left_value <= left.degree,
        0 <= right_value <= right.degree,
    ensures
        0 <= left_value - right_value + parameters.correcting_term(right.degree) <= difference(
            left,
            right,
            parameters,
        ).degree,
{
    lemma_correcting_term_bounds(right.degree, parameters.plaintext_modulus as nat);
}

/// What the rounding of decryption makes of a torus element: the number of
/// the multiple of `delta` that is nearest to it.
pub open spec fn decode(element: int, delta: nat) -> int {
    ((element + delta / 2) % torus_modulus()) / (delta as int)
}

/// What `sample` decrypts to under `secret`: the message of the value that
/// its phase rounds to.
pub open spec fn decrypt(sample: Seq<u64>, secret: Seq<int>, parameters: Parameters) -> int {
    message(decode(phase(sample, secret), parameters.delta()), parameters.plaintext_modulus as nat)
}

/// The noise is small enough for rounding to remove it.
pub open spec fn noise_tolerated(noise: int, delta: nat) -> bool {
    -(delta / 2) <= noise < delta - delta / 2
}

/// The torus tells `value` apart from every smaller value.
pub open spec fn within_window(value: int, delta: nat) -> bool {
    &&& 0 <= value
    &&& delta * (value + 1) <= torus_modulus()
}

/// A sample decrypts to the message of the value it encodes, if the noise
/// is tolerated and the value is within the window of the encoding.
pub proof fn lemma_decrypt_of_encoding(
    sample: Seq<u64>,
    secret: Seq<int>,
    parameters: Parameters,
    value: int,
    noise: int,
)
    requires
        parameters.delta() >= 1,
        encodes(sample, secret, parameters.delta(), value, noise),
        noise_tolerated(noise, parameters.delta()),
        within_window(value, parameters.delta()),
    ensures
        decode(phase(sample, secret), parameters.delta()) == value,
        decrypt(sample, secret, parameters) == message(value, parameters.plaintext_modulus as nat),
{
    let delta = parameters.delta() as int;
    let half = delta / 2;
    let rounded = delta * value + noise + half;
    lemma_congruent_add(phase(sample, secret), delta * value + noise, half, half);
    assert(delta * (value + 1) == delta * value + delta) by (nonlinear_arith);
    assert(0 <= delta * value) by (nonlinear_arith)
        requires
            0 <= delta,
            0 <= value,
    ;
    lemma_small_mod(rounded as nat, torus_modulus() as nat);
    assert(rounded == value * delta + (noise + half)) by (nonlinear_arith)
        requires
            rounded == delta * value + noise + half,
    ;
    lemma_fundamental_div_mod_converse(rounded, delta, value, noise + half);
}

/// A value within the window stays within it when it gets smaller.
proof fn lemma_window_is_downward_closed(value: int, bound: int, delta: nat)
    requires
        0 <= value <= bound,
        within_window(bound, delta),
    ensures
        within_window(value, delta),
{
    assert(delta * (value + 1) <= delta * (bound + 1)) by (nonlinear_arith)
        requires
            0 <= value <= bound,
            0 <= delta,
    ;
}

/// A difference decrypts to the difference of what its operands decrypt to,
/// modulo the plaintext modulus.
///
/// Each operand encodes a value that its degree bounds, the noises are
/// tolerated, also that of the difference, and the degree of the difference
/// is within the window of the encoding.
pub proof fn lemma_difference_decrypts(
    left: CiphertextView,
    right: CiphertextView,
    parameters: Parameters,
    secret: Seq<int>,
    left_value: int,
    left_noise: int,
    right_value: int,
    right_noise: int,
)
    requires
        parameters.plaintext_modulus >= 1,
        parameters.delta() >= 1,
        left.sample.len() == right.sample.len(),
        encodes(left.sample, secret, parameters.delta(), left_value, left_noise),
        encodes(right.sample, secret, parameters.delta(), right_value, right_noise),
        0 <= left_value <= left.degree,
        0 <= right_value <= right.degree,
        noise_tolerated(left_noise, parameters.delta()),
        noise_tolerated(right_noise, parameters.delta()),
        noise_tolerated(left_noise - right_noise, parameters.delta()),
        within_window(difference(left, right, parameters).degree as int, parameters.delta()),
    ensures
        decrypt(difference(left, right, parameters).sample, secret, parameters) == message(
            decrypt(left.sample, secret, parameters) - decrypt(right.sample, secret, parameters),
            parameters.plaintext_modulus as nat,
        ),
{
    let delta = parameters.delta();
    let result = difference(left, right, parameters);
    let term = parameters.correcting_term(right.degree) as int;
    let value = left_value - right_value + term;
    lemma_correcting_term_bounds(right.degree, parameters.plaintext_modulus as nat);
    lemma_difference_encodes(
        left,
        right,
        parameters,
        secret,
        left_value,
        left_noise,
        right_value,
        right_noise,
    );
    lemma_difference_within_degree(left, right, parameters, left_value, right_value);
    lemma_window_is_downward_closed(value, result.degree as int, delta);
    lemma_window_is_downward_closed(left_value, result.degree as int, delta);
    lemma_window_is_downward_closed(right_value, result.degree as int, delta);
    lemma_decrypt_of_encoding(left.sample, secret, parameters, left_value, left_noise);
    lemma_decrypt_of_encoding(right.sample, secret, parameters, right_value, right_noise);
    lemma_decrypt_of_encoding(
        result.sample,
        secret,
        parameters,
        value,
        left_noise - right_noise,
    );
    lemma_difference_message(left_value, right_value, right.degree, parameters);
}

/// A smart subtraction returns a ciphertext that decrypts to the difference
/// of what its operands decrypted to, modulo the plaintext modulus, whether
/// or not it refreshed them.
///
/// The operands are valid as the call leaves them: each encodes a value
/// that its degree bounds, with noise that is tolerated, also in the
/// difference. A refresh keeps what a ciphertext decrypts to. The
/// parameters let two fresh ciphertexts be subtracted and keep the maximum
/// degree within the window of the encoding.
pub proof fn lemma_smart_sub_decrypts_to_difference(
    left_before: CiphertextView,
    right_before: CiphertextView,
    left_after: CiphertextView,
    right_after: CiphertextView,
    parameters: Parameters,
    secret: Seq<int>,
    left_value: int,
    left_noise: int,
    right_value: int,
    right_noise: int,
)
    requires
        parameters.plaintext_modulus >= 1,
        parameters.delta() >= 1,
        within_window(parameters.max_degree@ as int, parameters.delta()),
        fresh_sub_possible(parameters),
        left_before.sample.len() == right_before.sample.len(),
        operands_prepared(left_before, right_before, left_after, right_after, parameters),
        encodes(left_after.sample, secret, parameters.delta(), left_value, left_noise),
        encodes(right_after.sample, secret, parameters.delta(), right_value, right_noise),
        0 <= left_value <= left_after.degree,
        0 <= right_value <= right_after.degree,
        noise_tolerated(left_noise, parameters.delta()),
        noise_tolerated(right_noise, parameters.delta()),
        noise_tolerated(left_noise - right_noise, parameters.delta()),
        decrypt(left_after.sample, secret, parameters) == decrypt(
            left_before.sample,
            secret,
            parameters,
        ),
        decrypt(right_after.sample, secret, parameters) == decrypt(
            right_before.sample,
            secret,
            parameters,
        ),
    ensures
        difference(left_after, right_after, parameters).degree <= parameters.max_degree@,
        decrypt(difference(left_after, right_after, parameters).sample, secret, parameters)
            == message(
            decrypt(left_before.sample, secret, parameters) - decrypt(
                right_before.sample,
                secret,
                parameters,
            ),
            parameters.plaintext_modulus as nat,
        ),
{
    let result = difference(left_after, right_after, parameters);
    lemma_window_is_downward_closed(
        result.degree as int,
        parameters.max_degree@ as int,
        parameters.delta(),
    );
    lemma_difference_decrypts(
        left_after,
        right_after,
        parameters,
        secret,
        left_value,
        left_noise,
        right_value,
        right_noise,
    );
}

} // verus!
