use shortint::degree::Degree;
use shortint::parameters::Parameters;

fn parameters(plaintext_modulus: usize, carry_modulus: usize, max_degree: usize) -> Parameters {
    match Parameters::new(plaintext_modulus, carry_modulus, Degree(max_degree)) {
        Some(parameters) => parameters,
        None => panic!("the parameters are not well formed"),
    }
}

#[test]
fn new_keeps_the_three_parameters() {
    let made = parameters(4, 4, 15);
    assert_eq!(made.plaintext_modulus, 4);
    assert_eq!(made.carry_modulus, 4);
    assert_eq!(made.max_degree, Degree(15));
}

#[test]
fn new_refuses_a_zero_modulus() {
    assert_eq!(Parameters::new(0, 4, Degree(15)), None);
    assert_eq!(Parameters::new(4, 0, Degree(15)), None);
    assert_eq!(Parameters::new(0, 0, Degree(0)), None);
}

#[test]
fn new_refuses_an_encoding_space_beyond_the_machine() {
    assert_eq!(Parameters::new(usize::MAX, 2, Degree(15)), None);
    assert_eq!(Parameters::new(2, usize::MAX, Degree(15)), None);
    assert!(Parameters::new(usize::MAX, 1, Degree(15)).is_some());
}

#[test]
fn scaling_factor_leaves_one_padding_bit() {
    assert_eq!(parameters(4, 4, 15).scaling_factor(), 1u64 << 59);
    assert_eq!(parameters(16, 2, 31).scaling_factor(), 1u64 << 58);
    assert_eq!(parameters(2, 1, 1).scaling_factor(), 1u64 << 62);
    assert_eq!(parameters(1, 1, 0).scaling_factor(), 1u64 << 63);
    assert_eq!(parameters(6, 3, 15).scaling_factor(), (1u64 << 63) / 18);
}

#[test]
fn correcting_term_is_the_next_multiple_of_the_modulus() {
    let four = parameters(4, 4, 15);
    assert_eq!(four.checked_correcting_term(Degree(0)), Some(0));
    assert_eq!(four.checked_correcting_term(Degree(1)), Some(4));
    assert_eq!(four.checked_correcting_term(Degree(3)), Some(4));
    assert_eq!(four.checked_correcting_term(Degree(4)), Some(4));
    assert_eq!(four.checked_correcting_term(Degree(5)), Some(8));
    assert_eq!(four.checked_correcting_term(Degree(8)), Some(8));
    assert_eq!(four.checked_correcting_term(Degree(15)), Some(16));
    let six = parameters(6, 3, 15);
    assert_eq!(six.checked_correcting_term(Degree(5)), Some(6));
    assert_eq!(six.checked_correcting_term(Degree(11)), Some(12));
    let one = parameters(1, 1, 0);
    assert_eq!(one.checked_correcting_term(Degree(0)), Some(0));
    assert_eq!(one.checked_correcting_term(Degree(7)), Some(7));
}

#[test]
fn correcting_term_is_absent_beyond_the_machine() {
    let four = parameters(4, 4, 15);
    assert_eq!(four.checked_correcting_term(Degree(usize::MAX)), None);
    assert_eq!(four.checked_correcting_term(Degree(usize::MAX - 2)), None);
    assert_eq!(
        four.checked_correcting_term(Degree(usize::MAX - 3)),
        Some(usize::MAX - 3)
    );
}
