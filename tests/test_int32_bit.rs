use co_digits_rs::{Int32, IntegerNumber, UInt32};

#[test]
fn test_int32_bit() {
    let number = Int32::from(-1);
    println!("{}", number.decode_twos_complement());
    println!("{}", number.decode_ones_complement());
    println!("{}", number.decode_original_code());
    assert_eq!(number.decode_twos_complement(), -1);
    assert_eq!(number.decode_ones_complement(), 0);
    assert_eq!(number.decode_original_code(), -2147483647);

    let number = UInt32::from(1);
    println!("{}", number.decode_twos_complement());
    println!("{}", number.decode_ones_complement());
    println!("{}", number.decode_original_code());
    assert_eq!(number.decode_twos_complement(), 1);
    assert_eq!(number.decode_ones_complement(), 1);
    assert_eq!(number.decode_original_code(), 1);
}
