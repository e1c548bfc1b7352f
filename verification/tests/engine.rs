use shortint::ciphertext::{CiphertextBig, CiphertextSmall, PBSOrder};
use shortint::degree::Degree;
use shortint::engine::refresh::install_refreshed;
use shortint::engine::{Bootstrapper, EngineError, ShortintEngine};
use shortint::lwe::LweCiphertext;
use shortint::parameters::Parameters;
use shortint::server_key::ServerKey;

// A small scheme to run the engine against: a fixed binary secret, masks
// drawn from a counter, and a stand-in for the bootstrap that knows the
// secret and counts how often it is called.

const SECRET: [u64; 4] = [1, 0, 1, 1];

fn inner_product(mask: &[u64]) -> u64 {
    let mut sum = 0u64;
    for i in 0..SECRET.len() {
        sum = sum.wrapping_add(mask[i].wrapping_mul(SECRET[i]));
    }
    sum
}

fn encrypt_sample(value: u64, delta: u64, seed: u64) -> LweCiphertext {
    let mut state = seed;
    let mut data = Vec::new();
    for _ in 0..SECRET.len() {
        state = state
            .wrapping_mul(6364136223846793005)
            .wrapping_add(1442695040888963407);
        data.push(state);
    }
    let noise = (seed % 7).wrapping_sub(3);
    let body = inner_product(&data)
        .wrapping_add(value.wrapping_mul(delta))
        .wrapping_add(noise);
    data.push(body);
    LweCiphertext::from_container(data)
}

fn encoded_value(sample: &LweCiphertext, delta: u64) -> u64 {
    let phase = sample.data[SECRET.len()].wrapping_sub(inner_product(&sample.data));
    phase.wrapping_add(delta / 2) / delta
}

fn key(plaintext_modulus: usize, carry_modulus: usize, max_degree: usize) -> ServerKey {
    match Parameters::new(plaintext_modulus, carry_modulus, Degree(max_degree)) {
        Some(parameters) => ServerKey::new(Vec::new(), Vec::new(), parameters),
        None => panic!("the parameters are not well formed"),
    }
}

fn encrypt(message: u64, key: &ServerKey, seed: u64) -> CiphertextBig {
    let delta = key.parameters.scaling_factor();
    CiphertextBig::new(
        encrypt_sample(message, delta, seed),
        Degree::base(key.parameters.plaintext_modulus),
    )
}

fn decrypt(ct: &CiphertextBig, key: &ServerKey) -> u64 {
    encoded_value(&ct.ct, key.parameters.scaling_factor()) % key.parameters.plaintext_modulus as u64
}

struct CountingBootstrapper {
    calls: usize,
    fail_on_call: Option<usize>,
    grow_on_call: Option<usize>,
    orders: Vec<PBSOrder>,
    inputs: Vec<Vec<u64>>,
}

impl CountingBootstrapper {
    fn new() -> Self {
        CountingBootstrapper {
            calls: 0,
            fail_on_call: None,
            grow_on_call: None,
            orders: Vec::new(),
            inputs: Vec::new(),
        }
    }

    fn failing_on(call: usize) -> Self {
        let mut bootstrapper = CountingBootstrapper::new();
        bootstrapper.fail_on_call = Some(call);
        bootstrapper
    }

    fn growing_on(call: usize) -> Self {
        let mut bootstrapper = CountingBootstrapper::new();
        bootstrapper.grow_on_call = Some(call);
        bootstrapper
    }
}

impl Bootstrapper for CountingBootstrapper {
    fn message_extract(
        &mut self,
        server_key: &ServerKey,
        order: PBSOrder,
        sample: &LweCiphertext,
    ) -> Result<LweCiphertext, EngineError> {
        self.calls += 1;
        self.orders.push(order);
        self.inputs.push(sample.data.clone());
        if self.fail_on_call == Some(self.calls) {
            return Err(EngineError::BootstrapFailed);
        }
        let delta = server_key.parameters.scaling_factor();
        let message = encoded_value(sample, delta) % server_key.parameters.plaintext_modulus as u64;
        let mut fresh = encrypt_sample(message, delta, 1000 + self.calls as u64);
        if self.grow_on_call == Some(self.calls) {
            fresh.data.push(0);
        }
        Ok(fresh)
    }
}

fn engine() -> ShortintEngine<CountingBootstrapper> {
    ShortintEngine::new(CountingBootstrapper::new())
}

fn modular_difference(left: u64, right: u64, modulus: u64) -> u64 {
    (left + modulus - right % modulus) % modulus
}

// Negation.

#[test]
fn negation_is_the_opposite_sample_shifted_by_the_correcting_term() {
    let key = key(4, 4, 15);
    let delta = 1u64 << 59;
    let ct = CiphertextBig::new(
        LweCiphertext::from_container(vec![1, 2, 3, 4, 3 * delta]),
        Degree(3),
    );
    let (negated, term) = engine().unchecked_neg_with_correcting_term(&key, &ct).unwrap();
    assert_eq!(term, 4);
    assert_eq!(negated.degree(), Degree(4));
    assert_eq!(
        negated.ct.data,
        vec![u64::MAX, u64::MAX - 1, u64::MAX - 2, u64::MAX - 3, delta]
    );
    assert_eq!(ct.ct.data, vec![1, 2, 3, 4, 3 * delta]);
    assert_eq!(ct.degree(), Degree(3));
}

#[test]
fn negation_in_place_matches_negation_by_value() {
    let key = key(4, 4, 15);
    let ct = encrypt(2, &key, 11);
    let (negated, term) = engine().unchecked_neg_with_correcting_term(&key, &ct).unwrap();
    let mut assigned = ct.clone();
    let assigned_term = engine()
        .unchecked_neg_assign_with_correcting_term(&key, &mut assigned)
        .unwrap();
    assert_eq!(assigned_term, term);
    assert_eq!(assigned.ct.data, negated.ct.data);
    assert_eq!(assigned.degree(), negated.degree());
}

#[test]
fn negation_keeps_the_opposite_message() {
    let key = key(4, 4, 15);
    for message in 0..4u64 {
        let ct = encrypt(message, &key, 20 + message);
        let (negated, term) = engine().unchecked_neg_with_correcting_term(&key, &ct).unwrap();
        assert_eq!(term, 4);
        assert_eq!(decrypt(&negated, &key), modular_difference(0, message, 4));
        assert_eq!(
            encoded_value(&negated.ct, key.parameters.scaling_factor()),
            4 - message
        );
    }
}

#[test]
fn negation_of_degree_zero_needs_no_correction() {
    let key = key(4, 4, 15);
    let ct = CiphertextBig::new(LweCiphertext::from_container(vec![5, 0]), Degree(0));
    let (negated, term) = engine().unchecked_neg_with_correcting_term(&key, &ct).unwrap();
    assert_eq!(term, 0);
    assert_eq!(negated.degree(), Degree(0));
    assert_eq!(negated.ct.data, vec![5u64.wrapping_neg(), 0]);
}

#[test]
fn negation_rounds_the_degree_up_to_a_multiple_of_the_modulus() {
    let key = key(4, 4, 15);
    for (degree, expected) in [(1usize, 4u64), (4, 4), (5, 8), (8, 8), (9, 12), (15, 16)] {
        let ct = CiphertextBig::new(LweCiphertext::from_container(vec![0, 0]), Degree(degree));
        let (negated, term) = engine().unchecked_neg_with_correcting_term(&key, &ct).unwrap();
        assert_eq!(term, expected);
        assert_eq!(negated.degree(), Degree(expected as usize));
    }
}

#[test]
fn negation_never_refreshes() {
    let key = key(4, 4, 15);
    let mut ct = encrypt(1, &key, 25);
    ct.set_degree(Degree(15));
    let mut engine = engine();
    engine.unchecked_neg_with_correcting_term(&key, &ct).unwrap();
    engine
        .unchecked_neg_assign_with_correcting_term(&key, &mut ct)
        .unwrap();
    assert_eq!(engine.bootstrapper.calls, 0);
}

#[test]
fn unchecked_sub_in_place_never_refreshes() {
    let key = key(4, 4, 15);
    let mut left = encrypt(1, &key, 26);
    left.set_degree(Degree(15));
    let right = encrypt(1, &key, 27);
    let mut engine = engine();
    engine.unchecked_sub_assign(&key, &mut left, &right).unwrap();
    engine
        .unchecked_sub_assign_with_correcting_term(&key, &mut left, &right)
        .unwrap();
    assert_eq!(engine.bootstrapper.calls, 0);
}

// Subtraction without checks.

#[test]
fn unchecked_sub_subtracts_the_samples_and_shifts_the_body() {
    let key = key(4, 4, 15);
    let delta = 1u64 << 59;
    let left = CiphertextBig::new(
        LweCiphertext::from_container(vec![10, 20, 0, 7 * delta]),
        Degree(7),
    );
    let right = CiphertextBig::new(
        LweCiphertext::from_container(vec![1, 30, 5, 2 * delta]),
        Degree(3),
    );
    let result = engine().unchecked_sub(&key, &left, &right).unwrap();
    assert_eq!(
        result.ct.data,
        vec![9, 10u64.wrapping_neg(), 5u64.wrapping_neg(), 9 * delta]
    );
    assert_eq!(result.degree(), Degree(11));
    assert_eq!(left.ct.data, vec![10, 20, 0, 7 * delta]);
    assert_eq!(left.degree(), Degree(7));
    assert_eq!(right.ct.data, vec![1, 30, 5, 2 * delta]);
    assert_eq!(right.degree(), Degree(3));
}

#[test]
fn unchecked_sub_grows_the_degree_by_the_correcting_term_of_the_negation() {
    let key = key(4, 4, 15);
    for left_degree in [0usize, 3, 7, 11] {
        for right_degree in [0usize, 1, 3, 4, 5] {
            let mut left = encrypt(1, &key, 31);
            left.set_degree(Degree(left_degree));
            let mut right = encrypt(2, &key, 32);
            right.set_degree(Degree(right_degree));
            let (_, negation_term) = engine()
                .unchecked_neg_with_correcting_term(&key, &right)
                .unwrap();
            let (with_term, term) = engine()
                .unchecked_sub_with_correcting_term(&key, &left, &right)
                .unwrap();
            let plain = engine().unchecked_sub(&key, &left, &right).unwrap();
            assert_eq!(term, negation_term);
            assert_eq!(plain.degree(), Degree(left_degree + term as usize));
            assert_eq!(with_term.degree(), Degree(left_degree + term as usize));
        }
    }
}

#[test]
fn unchecked_sub_with_correcting_term_returns_the_same_ciphertext() {
    let key = key(4, 4, 15);
    let left = encrypt(3, &key, 41);
    let right = encrypt(1, &key, 42);
    let plain = engine().unchecked_sub(&key, &left, &right).unwrap();
    let (with_term, term) = engine()
        .unchecked_sub_with_correcting_term(&key, &left, &right)
        .unwrap();
    assert_eq!(term, 4);
    assert_eq!(with_term.ct.data, plain.ct.data);
    assert_eq!(with_term.degree(), plain.degree());
}

#[test]
fn unchecked_sub_assign_leaves_what_unchecked_sub_returns() {
    let key = key(4, 4, 15);
    let left = encrypt(0, &key, 51);
    let right = encrypt(3, &key, 52);
    let returned = engine().unchecked_sub(&key, &left, &right).unwrap();
    let mut assigned = left.clone();
    engine().unchecked_sub_assign(&key, &mut assigned, &right).unwrap();
    assert_eq!(assigned.ct.data, returned.ct.data);
    assert_eq!(assigned.degree(), returned.degree());
    let mut assigned_with_term = left.clone();
    let term = engine()
        .unchecked_sub_assign_with_correcting_term(&key, &mut assigned_with_term, &right)
        .unwrap();
    assert_eq!(term, 4);
    assert_eq!(assigned_with_term.ct.data, returned.ct.data);
    assert_eq!(assigned_with_term.degree(), returned.degree());
}

#[test]
fn unchecked_sub_decrypts_to_the_difference() {
    let key = key(4, 4, 15);
    for left_message in 0..4u64 {
        for right_message in 0..4u64 {
            let left = encrypt(left_message, &key, 60 + left_message);
            let right = encrypt(right_message, &key, 70 + right_message);
            let result = engine().unchecked_sub(&key, &left, &right).unwrap();
            assert_eq!(
                decrypt(&result, &key),
                modular_difference(left_message, right_message, 4)
            );
            assert_eq!(
                encoded_value(&result.ct, key.parameters.scaling_factor()),
                left_message + 4 - right_message
            );
            assert_eq!(result.degree(), Degree(7));
        }
    }
}

#[test]
fn unchecked_sub_does_not_stop_at_the_maximum_degree() {
    let key = key(4, 4, 15);
    let mut left = encrypt(1, &key, 81);
    left.set_degree(Degree(14));
    let right = encrypt(1, &key, 82);
    assert!(!key.is_sub_possible(&left, &right));
    let result = engine().unchecked_sub(&key, &left, &right).unwrap();
    assert_eq!(result.degree(), Degree(18));
}

#[test]
fn unchecked_sub_never_refreshes() {
    let key = key(4, 4, 15);
    let mut left = encrypt(1, &key, 83);
    left.set_degree(Degree(15));
    let right = encrypt(1, &key, 84);
    let mut engine = engine();
    engine.unchecked_sub(&key, &left, &right).unwrap();
    engine.unchecked_sub_with_correcting_term(&key, &left, &right).unwrap();
    assert_eq!(engine.bootstrapper.calls, 0);
}

// Refresh.

#[test]
fn refresh_resets_the_degree_whatever_it_was() {
    let key = key(4, 4, 15);
    for degree in [0usize, 1, 3, 4, 9, 15] {
        let mut ct = encrypt(2, &key, 90 + degree as u64);
        ct.set_degree(Degree(degree));
        let mut engine = engine();
        assert_eq!(engine.message_extract_assign(&key, &mut ct), Ok(()));
        assert_eq!(ct.degree(), Degree(3));
        assert_eq!(ct.degree(), Degree::base(4));
        assert_eq!(ct.ct.len(), 5);
        assert_eq!(decrypt(&ct, &key), 2);
        assert_eq!(engine.bootstrapper.calls, 1);
    }
}

#[test]
fn refresh_drops_the_carry() {
    let key = key(4, 4, 15);
    let delta = key.parameters.scaling_factor();
    let mut ct = CiphertextBig::new(encrypt_sample(14, delta, 5), Degree(15));
    engine().message_extract_assign(&key, &mut ct).unwrap();
    assert_eq!(encoded_value(&ct.ct, delta), 2);
    assert_eq!(ct.degree(), Degree(3));
}

#[test]
fn refresh_hands_the_sample_and_the_order_to_the_bootstrap() {
    let key = key(4, 4, 15);
    let mut big = encrypt(1, &key, 101);
    let before = big.ct.data.clone();
    let mut engine = engine();
    engine.message_extract_assign(&key, &mut big).unwrap();
    let delta = key.parameters.scaling_factor();
    let mut small = CiphertextSmall::new(encrypt_sample(1, delta, 102), Degree(3));
    engine.message_extract_assign(&key, &mut small).unwrap();
    assert_eq!(engine.bootstrapper.inputs[0], before);
    assert_eq!(
        engine.bootstrapper.orders,
        vec![PBSOrder::KeyswitchBootstrap, PBSOrder::BootstrapKeyswitch]
    );
    assert_eq!(big.ct.data, encrypt_sample(1, delta, 1001).data);
}

#[test]
fn a_failed_refresh_leaves_the_ciphertext() {
    let key = key(4, 4, 15);
    let mut ct = encrypt(2, &key, 111);
    ct.set_degree(Degree(9));
    let before = ct.ct.data.clone();
    let mut engine = ShortintEngine::new(CountingBootstrapper::failing_on(1));
    assert_eq!(
        engine.message_extract_assign(&key, &mut ct),
        Err(EngineError::BootstrapFailed)
    );
    assert_eq!(ct.ct.data, before);
    assert_eq!(ct.degree(), Degree(9));
}

#[test]
fn a_refresh_of_another_size_is_refused() {
    let key = key(4, 4, 15);
    let mut ct = encrypt(2, &key, 112);
    ct.set_degree(Degree(9));
    let before = ct.ct.data.clone();
    let mut engine = ShortintEngine::new(CountingBootstrapper::growing_on(1));
    assert_eq!(
        engine.message_extract_assign(&key, &mut ct),
        Err(EngineError::SampleSizeMismatch)
    );
    assert_eq!(ct.ct.data, before);
    assert_eq!(ct.degree(), Degree(9));
}

#[test]
fn install_refreshed_takes_a_sample_of_the_same_size() {
    let key = key(4, 4, 15);
    let mut ct = CiphertextBig::new(LweCiphertext::from_container(vec![1, 2, 3]), Degree(12));
    let done = install_refreshed(
        &mut ct,
        Ok(LweCiphertext::from_container(vec![7, 8, 9])),
        &key.parameters,
    );
    assert_eq!(done, Ok(()));
    assert_eq!(ct.ct.data, vec![7, 8, 9]);
    assert_eq!(ct.degree(), Degree(3));
}

#[test]
fn install_refreshed_refuses_a_sample_of_another_size() {
    let key = key(4, 4, 15);
    let mut ct = CiphertextBig::new(LweCiphertext::from_container(vec![1, 2, 3]), Degree(12));
    let done = install_refreshed(
        &mut ct,
        Ok(LweCiphertext::from_container(vec![7, 8])),
        &key.parameters,
    );
    assert_eq!(done, Err(EngineError::SampleSizeMismatch));
    assert_eq!(ct.ct.data, vec![1, 2, 3]);
    assert_eq!(ct.degree(), Degree(12));
}

#[test]
fn install_refreshed_passes_a_failure_on() {
    let key = key(4, 4, 15);
    let mut ct = CiphertextBig::new(LweCiphertext::from_container(vec![1, 2, 3]), Degree(12));
    let failed = install_refreshed(&mut ct, Err(EngineError::BootstrapFailed), &key.parameters);
    assert_eq!(failed, Err(EngineError::BootstrapFailed));
    let mismatched =
        install_refreshed(&mut ct, Err(EngineError::SampleSizeMismatch), &key.parameters);
    assert_eq!(mismatched, Err(EngineError::SampleSizeMismatch));
    assert_eq!(ct.ct.data, vec![1, 2, 3]);
    assert_eq!(ct.degree(), Degree(12));
}

// Smart subtraction.

#[test]
fn smart_sub_leaves_operands_that_can_be_subtracted() {
    let key = key(4, 4, 15);
    let mut left = encrypt(3, &key, 121);
    let mut right = encrypt(2, &key, 122);
    let left_before = left.clone();
    let right_before = right.clone();
    let expected = engine().unchecked_sub(&key, &left, &right).unwrap();
    let mut engine = engine();
    let result = engine.smart_sub(&key, &mut left, &mut right).unwrap();
    assert_eq!(engine.bootstrapper.calls, 0);
    assert_eq!(result.ct.data, expected.ct.data);
    assert_eq!(result.degree(), Degree(7));
    assert_eq!(left.ct.data, left_before.ct.data);
    assert_eq!(left.degree(), left_before.degree());
    assert_eq!(right.ct.data, right_before.ct.data);
    assert_eq!(right.degree(), right_before.degree());
    assert_eq!(decrypt(&result, &key), 1);
}

#[test]
fn smart_sub_refreshes_the_right_operand_then_the_left() {
    let key = key(4, 4, 15);
    let mut left = encrypt(1, &key, 131);
    left.set_degree(Degree(12));
    let mut right = encrypt(3, &key, 132);
    let left_before = left.ct.data.clone();
    let right_before = right.ct.data.clone();
    let mut engine = engine();
    let result = engine.smart_sub(&key, &mut left, &mut right).unwrap();
    assert_eq!(engine.bootstrapper.calls, 2);
    assert_eq!(engine.bootstrapper.inputs, vec![right_before, left_before]);
    let delta = key.parameters.scaling_factor();
    assert_eq!(right.ct.data, encrypt_sample(3, delta, 1001).data);
    assert_eq!(left.ct.data, encrypt_sample(1, delta, 1002).data);
    assert_eq!(left.degree(), Degree(3));
    assert_eq!(right.degree(), Degree(3));
    let expected = ShortintEngine::new(CountingBootstrapper::new())
        .unchecked_sub(&key, &left, &right)
        .unwrap();
    assert_eq!(result.ct.data, expected.ct.data);
    assert_eq!(result.degree(), Degree(7));
    assert_eq!(decrypt(&result, &key), 2);
}

#[test]
fn smart_sub_refreshes_exactly_when_the_maximum_would_be_passed() {
    let key = key(4, 4, 15);
    for (left_degree, refreshes) in [(10usize, 0usize), (11, 0), (12, 2), (15, 2)] {
        let mut left = encrypt(2, &key, 141);
        left.set_degree(Degree(left_degree));
        let mut right = encrypt(1, &key, 142);
        let mut engine = engine();
        let result = engine.smart_sub(&key, &mut left, &mut right).unwrap();
        assert_eq!(engine.bootstrapper.calls, refreshes);
        assert!(result.degree().is_below(Degree(15)));
        assert_eq!(decrypt(&result, &key), 1);
    }
}

#[test]
fn smart_sub_gives_up_when_the_first_refresh_fails() {
    let key = key(4, 4, 15);
    let mut left = encrypt(1, &key, 151);
    left.set_degree(Degree(13));
    let mut right = encrypt(3, &key, 152);
    right.set_degree(Degree(5));
    let left_before = left.ct.data.clone();
    let right_before = right.ct.data.clone();
    let mut engine = ShortintEngine::new(CountingBootstrapper::failing_on(1));
    let failed = engine.smart_sub(&key, &mut left, &mut right);
    assert_eq!(failed.err(), Some(EngineError::BootstrapFailed));
    assert_eq!(engine.bootstrapper.calls, 1);
    assert_eq!(left.ct.data, left_before);
    assert_eq!(left.degree(), Degree(13));
    assert_eq!(right.ct.data, right_before);
    assert_eq!(right.degree(), Degree(5));
}

#[test]
fn smart_sub_gives_up_when_the_second_refresh_fails() {
    let key = key(4, 4, 15);
    let mut left = encrypt(1, &key, 161);
    left.set_degree(Degree(13));
    let mut right = encrypt(3, &key, 162);
    right.set_degree(Degree(5));
    let left_before = left.ct.data.clone();
    let mut engine = ShortintEngine::new(CountingBootstrapper::failing_on(2));
    let failed = engine.smart_sub(&key, &mut left, &mut right);
    assert_eq!(failed.err(), Some(EngineError::BootstrapFailed));
    assert_eq!(engine.bootstrapper.calls, 2);
    assert_eq!(left.ct.data, left_before);
    assert_eq!(left.degree(), Degree(13));
    assert_eq!(right.degree(), Degree(3));
    assert_eq!(decrypt(&right, &key), 3);
}

#[test]
fn smart_sub_passes_a_malformed_refresh_on() {
    let key = key(4, 4, 15);
    let mut left = encrypt(1, &key, 171);
    left.set_degree(Degree(13));
    let mut right = encrypt(3, &key, 172);
    let mut engine = ShortintEngine::new(CountingBootstrapper::growing_on(1));
    let failed = engine.smart_sub(&key, &mut left, &mut right);
    assert_eq!(failed.err(), Some(EngineError::SampleSizeMismatch));
    assert_eq!(left.degree(), Degree(13));
    assert_eq!(right.degree(), Degree(3));
    assert_eq!(right.ct.len(), 5);
}

#[test]
fn smart_sub_assign_leaves_the_difference_in_the_left_operand() {
    let key = key(4, 4, 15);
    let mut left = encrypt(0, &key, 181);
    let mut right = encrypt(1, &key, 182);
    let expected = engine().unchecked_sub(&key, &left, &right).unwrap();
    let mut engine = engine();
    assert_eq!(engine.smart_sub_assign(&key, &mut left, &mut right), Ok(()));
    assert_eq!(engine.bootstrapper.calls, 0);
    assert_eq!(left.ct.data, expected.ct.data);
    assert_eq!(left.degree(), Degree(7));
    assert_eq!(decrypt(&left, &key), 3);
    assert_eq!(right.degree(), Degree(3));
}

#[test]
fn smart_sub_assign_refreshes_the_right_operand_then_the_left() {
    let key = key(4, 4, 15);
    let mut left = encrypt(2, &key, 191);
    left.set_degree(Degree(14));
    let mut right = encrypt(3, &key, 192);
    right.set_degree(Degree(6));
    let left_before = left.ct.data.clone();
    let right_before = right.ct.data.clone();
    let mut engine = engine();
    assert_eq!(engine.smart_sub_assign(&key, &mut left, &mut right), Ok(()));
    assert_eq!(engine.bootstrapper.inputs, vec![right_before, left_before]);
    assert_eq!(left.degree(), Degree(7));
    assert_eq!(right.degree(), Degree(3));
    assert_eq!(decrypt(&left, &key), 3);
    assert_eq!(decrypt(&right, &key), 3);
}

#[test]
fn smart_sub_assign_leaves_the_left_operand_when_a_refresh_fails() {
    let key = key(4, 4, 15);
    for failing_call in [1usize, 2] {
        let mut left = encrypt(2, &key, 201);
        left.set_degree(Degree(14));
        let mut right = encrypt(3, &key, 202);
        let left_before = left.ct.data.clone();
        let mut engine = ShortintEngine::new(CountingBootstrapper::failing_on(failing_call));
        assert_eq!(
            engine.smart_sub_assign(&key, &mut left, &mut right),
            Err(EngineError::BootstrapFailed)
        );
        assert_eq!(left.ct.data, left_before);
        assert_eq!(left.degree(), Degree(14));
    }
}

#[test]
fn smart_sub_with_correcting_term_hands_back_the_term() {
    let key = key(4, 4, 15);
    let mut left = encrypt(3, &key, 211);
    let mut right = encrypt(3, &key, 212);
    let mut engine = engine();
    let (result, term) = engine
        .smart_sub_with_correcting_term(&key, &mut left, &mut right)
        .unwrap();
    assert_eq!(term, 4);
    assert_eq!(engine.bootstrapper.calls, 0);
    assert_eq!(result.degree(), Degree(7));
    assert_eq!(decrypt(&result, &key), 0);
    assert_eq!(
        encoded_value(&result.ct, key.parameters.scaling_factor()),
        4
    );
}

#[test]
fn smart_sub_with_correcting_term_refreshes_the_right_operand_then_the_left() {
    let key = key(4, 4, 15);
    let mut left = encrypt(3, &key, 221);
    left.set_degree(Degree(8));
    let mut right = encrypt(1, &key, 222);
    right.set_degree(Degree(9));
    let left_before = left.ct.data.clone();
    let right_before = right.ct.data.clone();
    let mut engine = engine();
    let (result, term) = engine
        .smart_sub_with_correcting_term(&key, &mut left, &mut right)
        .unwrap();
    assert_eq!(term, 4);
    assert_eq!(engine.bootstrapper.inputs, vec![right_before, left_before]);
    assert_eq!(result.degree(), Degree(7));
    assert_eq!(decrypt(&result, &key), 2);
}

#[test]
fn smart_sub_decrypts_to_the_difference_with_or_without_a_refresh() {
    let key = key(4, 4, 15);
    for left_message in 0..4u64 {
        for right_message in 0..4u64 {
            for left_degree in [3usize, 11, 12, 15] {
                let mut left = encrypt(left_message, &key, 230 + left_message);
                left.set_degree(Degree(left_degree));
                let mut right = encrypt(right_message, &key, 240 + right_message);
                let mut engine = engine();
                let result = engine.smart_sub(&key, &mut left, &mut right).unwrap();
                assert_eq!(
                    decrypt(&result, &key),
                    modular_difference(left_message, right_message, 4)
                );
                assert!(result.degree().is_below(Degree(15)));
            }
        }
    }
}

#[test]
fn smart_sub_works_on_either_order() {
    let key = key(4, 4, 15);
    let delta = key.parameters.scaling_factor();
    let mut left = CiphertextSmall::new(encrypt_sample(3, delta, 251), Degree(13));
    let mut right = CiphertextSmall::new(encrypt_sample(1, delta, 252), Degree(3));
    let mut engine = engine();
    let result = engine.smart_sub(&key, &mut left, &mut right).unwrap();
    assert_eq!(
        engine.bootstrapper.orders,
        vec![PBSOrder::BootstrapKeyswitch, PBSOrder::BootstrapKeyswitch]
    );
    assert_eq!(encoded_value(&result.ct, delta) % 4, 2);
}

// Repeated subtraction up to the maximum degree.

#[test]
fn repeated_smart_sub_refreshes_once_before_the_maximum_degree() {
    // Messages modulo six have base degree five; the maximum degree is fifteen.
    let key = key(6, 3, 15);
    let mut left = encrypt(5, &key, 261);
    let mut right = encrypt(3, &key, 262);
    assert_eq!(left.degree(), Degree(5));
    assert_eq!(right.degree(), Degree(5));
    let mut engine = engine();

    let mut first = engine.smart_sub(&key, &mut left, &mut right).unwrap();
    assert_eq!(decrypt(&first, &key), 2);
    assert_eq!(first.degree(), Degree(11));
    assert_eq!(engine.bootstrapper.calls, 0);

    // One more subtraction would reach degree seventeen.
    assert!(!key.is_sub_possible(&first, &right));
    let second = engine.smart_sub(&key, &mut first, &mut right).unwrap();
    assert_eq!(engine.bootstrapper.calls, 2);
    assert_eq!(first.degree(), Degree(5));
    assert_eq!(right.degree(), Degree(5));
    assert_eq!(second.degree(), Degree(11));
    assert!(second.degree().is_below(Degree(15)));
    assert_eq!(decrypt(&second, &key), 5);
}

#[test]
fn repeated_smart_sub_modulo_sixteen() {
    // Messages modulo sixteen with one bit of carry: base degree fifteen,
    // maximum degree thirty-one.
    let key = key(16, 2, 31);
    let mut left = encrypt(5, &key, 271);
    let mut right = encrypt(3, &key, 272);
    let mut engine = engine();

    let mut first = engine.smart_sub(&key, &mut left, &mut right).unwrap();
    assert_eq!(decrypt(&first, &key), 2);
    assert_eq!(first.degree(), Degree(31));
    assert_eq!(engine.bootstrapper.calls, 0);

    let second = engine.smart_sub(&key, &mut first, &mut right).unwrap();
    assert_eq!(engine.bootstrapper.calls, 2);
    assert_eq!(first.degree(), Degree(15));
    assert_eq!(right.degree(), Degree(15));
    assert_eq!(second.degree(), Degree(31));
    assert_eq!(decrypt(&second, &key), 15);
}

#[test]
fn a_chain_of_smart_subs_never_passes_the_maximum_degree() {
    let key = key(4, 4, 15);
    let mut accumulated = encrypt(3, &key, 281);
    let mut expected = 3u64;
    let mut engine = engine();
    let mut refreshed = 0;
    for step in 0..12u64 {
        let message = step % 4;
        let mut right = encrypt(message, &key, 290 + step);
        let calls_before = engine.bootstrapper.calls;
        let next = engine.smart_sub(&key, &mut accumulated, &mut right).unwrap();
        if engine.bootstrapper.calls > calls_before {
            assert_eq!(engine.bootstrapper.calls, calls_before + 2);
            refreshed += 1;
        }
        expected = modular_difference(expected, message, 4);
        assert_eq!(decrypt(&next, &key), expected);
        assert!(next.degree().is_below(Degree(15)));
        accumulated = next;
    }
    // Degrees run 3, 7, 11, 15, then a refresh brings the next one back to 7.
    assert_eq!(refreshed, 3);
}
