use co_digits_rs::{IntegerNumber, OverflowException, UInt32};

#[test]
fn test_uint_op() {
    let left = UInt32::from(1 as u32);
    let right = UInt32::from(2 as u32);

    println!("{:?}", left + right);
    println!("{:?}", left - right);
    println!("{:?}", right - left);

    assert_eq!((left + right).map(|v| v.decode_original_code()), Ok(3));
    assert_eq!(left - right, Err(OverflowException));
    assert_eq!((right - left).map(|v| v.decode_original_code()), Ok(1));
}
