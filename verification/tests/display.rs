use float_bits::display::{notation, Notation, FIXED_BELOW_BITS, FIXED_FROM_BITS};
use float_bits::model::{BitType, Model};

fn by_comparison(value: f64) -> Notation {
    let abs_val = value.abs();
    if abs_val == 0.0 || (1.0e-10..1.0e10).contains(&abs_val) {
        Notation::Fixed
    } else {
        Notation::Scientific
    }
}

#[test]
fn the_bounds_are_the_patterns_of_the_two_powers_of_ten() {
    assert_eq!(FIXED_FROM_BITS, 1.0e-10f64.to_bits());
    assert_eq!(FIXED_BELOW_BITS, 1.0e10f64.to_bits());
}

#[test]
fn one_hundred_twenty_three_is_fixed() {
    assert_eq!(notation(123.0f64.to_bits()), Notation::Fixed);
    assert_eq!(notation((-123.0f64).to_bits()), Notation::Fixed);
}

#[test]
fn ten_to_the_twelfth_is_scientific() {
    assert_eq!(notation(1e12f64.to_bits()), Notation::Scientific);
    assert_eq!(notation((-1e12f64).to_bits()), Notation::Scientific);
}

#[test]
fn zero_of_either_sign_is_fixed() {
    assert_eq!(notation(0.0f64.to_bits()), Notation::Fixed);
    assert_eq!(notation((-0.0f64).to_bits()), Notation::Fixed);
}

#[test]
fn the_range_is_closed_below_and_open_above() {
    assert_eq!(notation(1.0e-10f64.to_bits()), Notation::Fixed);
    assert_eq!(notation(1.0e-10f64.to_bits() - 1), Notation::Scientific);
    assert_eq!(notation(1.0e10f64.to_bits()), Notation::Scientific);
    assert_eq!(notation(1.0e10f64.to_bits() - 1), Notation::Fixed);
    assert_eq!(notation((-1.0e-10f64).to_bits()), Notation::Fixed);
    assert_eq!(notation((-1.0e10f64).to_bits()), Notation::Scientific);
    assert_eq!(notation(9_999_999_999.0f64.to_bits()), Notation::Fixed);
    assert_eq!(notation(9.9e-11f64.to_bits()), Notation::Scientific);
}

#[test]
fn what_is_not_finite_is_scientific() {
    assert_eq!(notation(f64::INFINITY.to_bits()), Notation::Scientific);
    assert_eq!(notation(f64::NEG_INFINITY.to_bits()), Notation::Scientific);
    assert_eq!(notation(f64::NAN.to_bits()), Notation::Scientific);
    assert_eq!(notation(u64::MAX), Notation::Scientific);
}

#[test]
fn notation_agrees_with_comparing_the_numbers() {
    let mut pattern: u64 = 0x0123_4567_89ab_cdef;
    for _ in 0..20_000 {
        pattern = pattern
            .wrapping_mul(6364136223846793005)
            .wrapping_add(1442695040888963407);
        assert_eq!(notation(pattern), by_comparison(f64::from_bits(pattern)));
    }
    for exponent in -320..=308 {
        for mantissa in [1.0f64, 1.5, 9.999999] {
            let value = mantissa * 10.0f64.powi(exponent);
            assert_eq!(notation(value.to_bits()), by_comparison(value));
            assert_eq!(notation((-value).to_bits()), by_comparison(-value));
        }
    }
}

#[test]
fn notation_of_decoded_layouts() {
    let mut model = Model::new();
    assert_eq!(notation(model.value()), Notation::Fixed);
    model.toggle_bit(1);
    assert_eq!(notation(model.value()), Notation::Fixed);
    model.toggle_bit(2);
    // 2^513
    assert_eq!(notation(model.value()), Notation::Scientific);
    model.toggle_bit(1);
    // 2^-511
    assert_eq!(notation(model.value()), Notation::Scientific);
}

#[test]
fn each_field_has_its_colour() {
    assert_eq!(BitType::Sign.color(), "#D72638");
    assert_eq!(BitType::Exponent.color(), "#00916E");
    assert_eq!(BitType::Significand.color(), "#F49D37");
}

fn rendered(value: f64) -> String {
    match notation(value.to_bits()) {
        Notation::Fixed => format!("{:?}", value),
        Notation::Scientific => format!("{:e}", value),
    }
}

#[test]
fn numbers_are_written_in_the_chosen_notation() {
    assert_eq!(rendered(123.0), "123.0");
    assert_eq!(rendered(1e12), "1e12");
    assert_eq!(rendered(0.0), "0.0");
    assert_eq!(rendered(-0.0), "-0.0");
    assert_eq!(rendered(2.0), "2.0");
    assert_eq!(rendered(-1.5), "-1.5");
    assert_eq!(rendered(1e10), "1e10");
    assert_eq!(rendered(1e-10), "1e-10");
    assert_eq!(rendered(5e-324), "5e-324");
    assert_eq!(rendered(f64::INFINITY), "inf");
    assert_eq!(rendered(f64::NAN), "NaN");
}
