use co_digits_rs::{Float32, FloatNumber};

#[test]
fn test_binary_float() {
    let number = 3.456f32;

    let float32 = Float32::from_bits(number.to_bits());
    let bits = float32.bits();

    let sign_bit = bits[0];
    let exponent_bits = &bits[1..=8];
    let fraction_bits = &bits[9..];

    let map_fn = |bit: &bool| {
        return if *bit {
            1
        } else {
            0
        }
    };

    let exponent_text = exponent_bits.iter().map(map_fn).fold(String::new(), |r, x| format!("{}{}", r, x));
    let fraction_text = fraction_bits.iter().map(map_fn).fold(String::new(), |r, x| format!("{}{}", r, x));
    println!("sign_bit: {}", map_fn(&sign_bit));
    println!("exponent_bits: {}", exponent_text);
    println!("fraction_bits: {}", fraction_text);

    assert!(!sign_bit);
    assert_eq!(exponent_text, "10000000");
    assert_eq!(fraction_text, format!("{:023b}", number.to_bits() & 0x7f_ffff));
    assert_eq!(float32.sign_bit(), sign_bit);
    assert_eq!(float32.exponent_bits(), exponent_bits);
    assert_eq!(float32.fraction_bits(), fraction_bits);
}
