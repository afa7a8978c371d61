use co_digits_rs::{Int32, IntegerNumber, OverflowException, UInt32};
use std::cmp::Ordering;
use std::ops::{Add, Neg, Sub};

fn unsigned(value: u32) -> UInt32 {
    UInt32::from(value)
}

fn signed(value: i32) -> Int32 {
    Int32::from(value)
}

#[test]
fn uint32_one_plus_two() {
    let sum = unsigned(1).add(unsigned(2)).unwrap();
    assert_eq!(sum.decode_twos_complement(), 3);
    assert_eq!(sum, unsigned(3));
}

#[test]
fn uint32_one_minus_two_overflows() {
    assert_eq!(unsigned(1).sub(unsigned(2)), Err(OverflowException));
}

#[test]
fn uint32_addition_carries() {
    assert_eq!(unsigned(3).add(unsigned(1)), Ok(unsigned(4)));
    assert_eq!(unsigned(0xffff).add(unsigned(1)), Ok(unsigned(0x1_0000)));
    assert_eq!(unsigned(u32::MAX - 5).add(unsigned(5)), Ok(unsigned(u32::MAX)));
}

#[test]
fn uint32_addition_overflow() {
    assert_eq!(unsigned(u32::MAX).add(unsigned(1)), Err(OverflowException));
    assert_eq!(unsigned(1 << 31).add(unsigned(1 << 31)), Err(OverflowException));
}

#[test]
fn uint32_addition_commutes_and_associates() {
    let values = [0u32, 1, 3, 1000, 0x7fff_ffff, 0x8000_0000, u32::MAX];
    for a in values {
        for b in values {
            assert_eq!(unsigned(a).add(unsigned(b)), unsigned(b).add(unsigned(a)));
            for c in values {
                let left = unsigned(a).add(unsigned(b)).and_then(|ab| ab.add(unsigned(c)));
                let right = unsigned(b).add(unsigned(c)).and_then(|bc| unsigned(a).add(bc));
                assert_eq!(left, right);
            }
        }
    }
}

#[test]
fn uint32_subtraction() {
    assert_eq!(unsigned(2).sub(unsigned(1)), Ok(unsigned(1)));
    assert_eq!(unsigned(u32::MAX).sub(unsigned(u32::MAX)), Ok(unsigned(0)));
    assert_eq!(unsigned(5).sub(unsigned(0)), Ok(unsigned(5)));
    assert_eq!(unsigned(0).sub(unsigned(u32::MAX)), Err(OverflowException));
}

#[test]
fn subtracting_itself_gives_zero() {
    for value in [0u32, 1, 77, u32::MAX] {
        assert_eq!(unsigned(value).sub(unsigned(value)), Ok(UInt32::new()));
    }
    for value in [i32::MIN, -1, 0, 1, i32::MAX] {
        assert_eq!(signed(value).sub(signed(value)), Ok(Int32::new()));
    }
}

#[test]
fn uint32_negation() {
    assert_eq!(unsigned(1).neg(), unsigned(u32::MAX));
    assert_eq!(unsigned(0).neg(), unsigned(0));
    assert_eq!(unsigned(2).neg().decode_original_code(), u32::MAX - 1);
}

#[test]
fn int32_negation() {
    assert_eq!(signed(5).neg(), signed(-5));
    assert_eq!(signed(-128).neg(), signed(128));
    assert_eq!(signed(0).neg(), signed(0));
    assert_eq!(signed(i32::MIN).neg(), signed(i32::MIN));
    assert_eq!(signed(i32::MAX).neg(), signed(-i32::MAX));
}

#[test]
fn negating_twice_gives_back() {
    for value in [i32::MIN, -1, 0, 1, 12345, i32::MAX] {
        assert_eq!(signed(value).neg().neg(), signed(value));
    }
    for value in [0u32, 1, 12345, u32::MAX] {
        assert_eq!(unsigned(value).neg().neg(), unsigned(value));
    }
}

#[test]
fn int32_addition() {
    assert_eq!(signed(-1).add(signed(1)), Ok(signed(0)));
    assert_eq!(signed(-100).add(signed(-28)), Ok(signed(-128)));
    assert_eq!(signed(i32::MAX).add(signed(i32::MIN)), Ok(signed(-1)));
    assert_eq!(signed(i32::MAX).add(signed(1)), Err(OverflowException));
    assert_eq!(signed(i32::MIN).add(signed(-1)), Err(OverflowException));
}

#[test]
fn int32_subtraction() {
    assert_eq!(signed(1).sub(signed(2)), Ok(signed(-1)));
    assert_eq!(signed(-5).sub(signed(-7)), Ok(signed(2)));
    assert_eq!(signed(-1).sub(signed(i32::MIN)), Ok(signed(i32::MAX)));
    assert_eq!(signed(0).sub(signed(i32::MIN)), Err(OverflowException));
    assert_eq!(signed(i32::MIN).sub(signed(1)), Err(OverflowException));
}

#[test]
fn ordering_follows_values() {
    assert!(signed(-1) < signed(0));
    assert!(signed(i32::MIN) < signed(i32::MAX));
    assert!(signed(7) >= signed(7));
    assert!(signed(-128) <= signed(-127));
    assert!(signed(3) > signed(-3));
    assert_eq!(signed(-2).cmp(&signed(1)), Ordering::Less);
    assert_eq!(signed(4).partial_cmp(&signed(4)), Some(Ordering::Equal));
    assert!(unsigned(1) < unsigned(2));
    assert!(unsigned(0x8000_0000) > unsigned(0x7fff_ffff));
    assert!(unsigned(9) <= unsigned(9));
    assert_eq!(unsigned(u32::MAX).cmp(&unsigned(0)), Ordering::Greater);
    assert_eq!(unsigned(2).partial_cmp(&unsigned(3)), Some(Ordering::Less));
}

#[test]
fn operators_match_methods() {
    assert_eq!(unsigned(40) + unsigned(2), Ok(unsigned(42)));
    assert_eq!(unsigned(40) - unsigned(2), Ok(unsigned(38)));
    assert_eq!(-unsigned(1), unsigned(u32::MAX));
    assert_eq!(signed(-40) + signed(-2), Ok(signed(-42)));
    assert_eq!(signed(-40) - signed(2), Ok(signed(-42)));
    assert_eq!(-signed(-42), signed(42));
}
