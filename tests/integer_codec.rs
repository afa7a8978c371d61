use co_digits_rs::{increment_one, Int32, IntegerNumber, UInt32};

fn bits_from_text(text: &str) -> Vec<bool> {
    text.chars().filter(|c| *c != ',').map(|c| c == '1').collect()
}

#[test]
fn uint32_from_two() {
    let number = UInt32::from(2u32);
    assert_eq!(number.bits_string(), "00000000,00000000,00000000,00000010");
    assert_eq!(number.decode_original_code(), 2);
    assert_eq!(number.decode_ones_complement(), 2);
    assert_eq!(number.decode_twos_complement(), 2);
    assert!(!number.is_negative());
}

#[test]
fn int32_from_minus_one() {
    let number = Int32::from(-1i32);
    assert_eq!(number.bits_string(), "11111111,11111111,11111111,11111111");
    assert_eq!(number.decode_twos_complement(), -1);
    assert_eq!(number.decode_ones_complement(), 0);
    assert_eq!(number.decode_original_code(), -(i32::MAX));
    assert!(number.is_negative());
}

#[test]
fn int32_from_minus_128() {
    let number = Int32::from(-128i32);
    assert_eq!(number.bits_string(), "11111111,11111111,11111111,10000000");
    assert_eq!(number.decode_twos_complement(), -128);
    assert_eq!(number.decode_ones_complement(), -127);
    assert_eq!(number.decode_original_code(), -(i32::MAX - 127));
}

#[test]
fn int32_extremes_round_trip() {
    for value in [i32::MIN, i32::MIN + 1, -2, 0, 1, 127, i32::MAX] {
        assert_eq!(Int32::from(value).decode_twos_complement(), value);
    }
    let minimum = Int32::from(i32::MIN);
    assert_eq!(minimum.bits_string(), "10000000,00000000,00000000,00000000");
    assert_eq!(minimum.decode_original_code(), 0);
    assert_eq!(minimum.decode_ones_complement(), -i32::MAX);
}

#[test]
fn nonnegative_int32_all_readings_agree() {
    for value in [0, 1, 2, 1000, 65536, i32::MAX] {
        let number = Int32::from(value);
        assert_eq!(number.decode_original_code(), value);
        assert_eq!(number.decode_ones_complement(), value);
        assert_eq!(number.decode_twos_complement(), value);
        assert!(!number.is_negative());
    }
}

#[test]
fn uint32_all_readings_agree() {
    for value in [0u32, 1, 2, 255, 1 << 31, u32::MAX] {
        let number = UInt32::from(value);
        assert_eq!(number.decode_original_code(), value);
        assert_eq!(number.decode_ones_complement(), value);
        assert_eq!(number.decode_twos_complement(), value);
    }
}

#[test]
fn uint32_cells_most_significant_first() {
    let number = UInt32::from(0x8000_0001u32);
    let cells = number.bits();
    assert_eq!(cells.len(), 32);
    assert!(cells[0]);
    assert!(cells[31]);
    assert!(cells[1..31].iter().all(|c| !*c));
    assert_eq!(cells.to_vec(), bits_from_text(&number.bits_string()));
}

#[test]
fn new_is_all_zero() {
    assert_eq!(UInt32::new().bits_string(), "00000000,00000000,00000000,00000000");
    assert_eq!(UInt32::new().decode_original_code(), 0);
    assert_eq!(Int32::new().decode_twos_complement(), 0);
    assert!(Int32::new().bits().iter().all(|c| !*c));
    assert_eq!(UInt32::new(), UInt32::from(0u32));
    assert_eq!(Int32::new(), Int32::from(0i32));
}

#[test]
fn increment_one_adds_one() {
    assert_eq!(increment_one(0), 1);
    assert_eq!(increment_one(41), 42);
    assert_eq!(increment_one(u32::MAX - 1), u32::MAX);
}
