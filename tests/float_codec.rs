use co_digits_rs::float::{
    FLOAT32_BIAS, FLOAT32_BIT_SIZE, FLOAT32_EXPONENT_SIZE, FLOAT32_FRACTION_SIZE, FLOAT64_BIAS,
    FLOAT64_BIT_SIZE, FLOAT64_EXPONENT_SIZE, FLOAT64_FRACTION_SIZE,
};
use co_digits_rs::{Float32, Float64, FloatNumber};

fn literal_value_32(number: &Float32) -> f64 {
    let magnitude = number.scaled_fraction() as f64 / 2f64.powi(23) * 2f64.powi(number.decode_exponent());
    if number.sign_bit() {
        -magnitude
    } else {
        magnitude
    }
}

fn literal_value_64(number: &Float64) -> f64 {
    let magnitude = number.scaled_fraction() as f64 / 2f64.powi(52) * 2f64.powi(number.decode_exponent());
    if number.sign_bit() {
        -magnitude
    } else {
        magnitude
    }
}

#[test]
fn float32_from_25_125() {
    let number = Float32::from_bits(25.125f32.to_bits());
    assert!(!number.sign_bit());
    assert_eq!(number.decode_exponent(), 4);
    assert_eq!(number.bit_string(), "0 10000011 10010010000000000000000");
    assert_eq!(number.scaled_fraction(), (1 << 23) + 0b1001001_0000_0000_0000_0000);
    assert_eq!(literal_value_32(&number), 25.125);
    let exponent: Vec<bool> = "10000011".chars().map(|c| c == '1').collect();
    assert_eq!(number.exponent_bits(), &exponent[..]);
    assert_eq!(number.fraction_bits().len(), 23);
}

#[test]
fn float32_normalized_values_round_trip() {
    for value in [1.0f32, -2.5, 3.456, 1.0e-30, 6.02e23, f32::MAX, f32::MIN_POSITIVE] {
        let number = Float32::from_bits(value.to_bits());
        assert_eq!(literal_value_32(&number), value as f64);
    }
}

#[test]
fn float64_normalized_values_round_trip() {
    for value in [1.0f64, -0.1, 25.125, 1.0e300, f64::MIN_POSITIVE] {
        let number = Float64::from_bits(value.to_bits());
        assert_eq!(literal_value_64(&number), value);
    }
}

#[test]
fn float64_fields() {
    let number = Float64::from_bits(1.0f64.to_bits());
    assert_eq!(number.decode_exponent(), 0);
    assert_eq!(number.scaled_fraction(), 1 << 52);
    assert_eq!(number.bits().len(), 64);
    assert_eq!(number.exponent_bits().len(), 11);
    assert_eq!(number.fraction_bits().len(), 52);
    assert_eq!(
        number.bit_string(),
        format!("0 01111111111 {}", "0".repeat(52))
    );
    assert_eq!(Float64::min_exponent_value(), -1023);
    assert_eq!(Float32::min_exponent_value(), -127);
}

#[test]
fn float_predicates() {
    let zero = Float32::from_bits(0.0f32.to_bits());
    let negative_zero = Float32::from_bits((-0.0f32).to_bits());
    let nan = Float32::from_bits(f32::NAN.to_bits());
    let infinity = Float32::from_bits(f32::INFINITY.to_bits());
    let negative_infinity = Float32::from_bits(f32::NEG_INFINITY.to_bits());
    let one = Float32::from_bits(1.0f32.to_bits());
    let tiny = Float32::from_bits(1);

    assert!(zero.is_zero() && !zero.is_nan() && !zero.is_inf());
    assert!(negative_zero.is_zero());
    assert!(nan.is_nan() && !nan.is_zero() && !nan.is_inf());
    assert!(infinity.is_inf() && !infinity.is_nan() && !infinity.is_zero());
    assert!(negative_infinity.is_inf());
    assert!(!one.is_zero() && !one.is_nan() && !one.is_inf());
    assert!(!tiny.is_zero() && !tiny.is_nan() && !tiny.is_inf());

    let zero64 = Float64::from_bits(0);
    let nan64 = Float64::from_bits(f64::NAN.to_bits());
    let infinity64 = Float64::from_bits(f64::INFINITY.to_bits());
    assert!(zero64.is_zero() && !zero64.is_nan() && !zero64.is_inf());
    assert!(nan64.is_nan() && !nan64.is_inf() && !nan64.is_zero());
    assert!(infinity64.is_inf() && !infinity64.is_nan() && !infinity64.is_zero());
}

#[test]
fn float_new_is_all_zero() {
    assert!(Float32::new().is_zero());
    assert!(Float64::new().is_zero());
    assert_eq!(Float32::new().bit_string(), format!("0 00000000 {}", "0".repeat(23)));
}

#[test]
fn float_format_widths() {
    assert_eq!((FLOAT32_EXPONENT_SIZE, FLOAT32_FRACTION_SIZE, FLOAT32_BIAS, FLOAT32_BIT_SIZE), (8, 23, -127, 32));
    assert_eq!((FLOAT64_EXPONENT_SIZE, FLOAT64_FRACTION_SIZE, FLOAT64_BIAS, FLOAT64_BIT_SIZE), (11, 52, -1023, 64));
}
