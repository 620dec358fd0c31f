use mojrg::bytes::{
    array_at, copy_bytes, extend_bytes, le_array4, u128_from_le, u128_to_bytes,
};
use mojrg::decimal::{decimal_string, parse_u128};

#[test]
fn u128_to_bytes_puts_the_most_significant_byte_first() {
    let v: u128 = 0x0102_0304_0506_0708_090a_0b0c_0d0e_0f10;
    assert_eq!(u128_to_bytes(v), [1, 2, 3, 4, 5, 6, 7, 8, 9, 10, 11, 12, 13, 14, 15, 16]);
    assert_eq!(u128_to_bytes(0), [0; 16]);
    assert_eq!(u128_to_bytes(u128::MAX), [0xff; 16]);
    assert_eq!(u128_to_bytes(258), 258u128.to_be_bytes());
}

#[test]
fn u128_from_le_takes_the_least_significant_byte_first() {
    assert_eq!(u128_from_le(&[]), 0);
    assert_eq!(u128_from_le(&[5]), 5);
    assert_eq!(u128_from_le(&[1, 2]), 0x0201);
    let v: u128 = 0x0102_0304_0506_0708_090a_0b0c_0d0e_0f10;
    assert_eq!(u128_from_le(&v.to_le_bytes()), v);
    assert_eq!(u128_from_le(&[0xff; 16]), u128::MAX);
}

#[test]
fn le_array4_keeps_the_low_four_bytes() {
    assert_eq!(le_array4(0x0403_0201), [1, 2, 3, 4]);
    assert_eq!(le_array4(0xffff_ffff_0403_0201), [1, 2, 3, 4]);
}

#[test]
fn byte_strings_are_copied_and_joined() {
    let mut v = copy_bytes(&[1, 2]);
    extend_bytes(&mut v, &[3]);
    assert_eq!(v, vec![1, 2, 3]);
    let a: [u8; 2] = array_at(&[9, 8, 7, 6], 1);
    assert_eq!(a, [8, 7]);
}

#[test]
fn numbers_are_written_in_decimal() {
    assert_eq!(decimal_string(0), "0");
    assert_eq!(decimal_string(9), "9");
    assert_eq!(decimal_string(10), "10");
    assert_eq!(decimal_string(123_456_789), "123456789");
    assert_eq!(decimal_string(u128::MAX), u128::MAX.to_string());
}

#[test]
fn decimal_numbers_read_back() {
    for n in [0u128, 7, 10, 99, 100, 1 << 64, u128::MAX - 1, u128::MAX] {
        assert_eq!(parse_u128(&decimal_string(n)), Some(n));
    }
}

#[test]
fn what_is_no_number_is_not_read() {
    assert_eq!(parse_u128(""), None);
    assert_eq!(parse_u128("+"), None);
    assert_eq!(parse_u128("-1"), None);
    assert_eq!(parse_u128("12a"), None);
    assert_eq!(parse_u128(" 12"), None);
    assert_eq!(parse_u128("++1"), None);
    assert_eq!(parse_u128("\u{661}"), None);
    assert_eq!(parse_u128("+17"), Some(17));
    assert_eq!(parse_u128("007"), Some(7));
    assert_eq!(parse_u128("340282366920938463463374607431768211455"), Some(u128::MAX));
    assert_eq!(parse_u128("340282366920938463463374607431768211456"), None);
    assert_eq!(parse_u128("9999999999999999999999999999999999999999"), None);
}
