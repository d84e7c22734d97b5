//! Hexadecimal text.

use authenticator::kat::{HexError, from_hex, to_hex};

#[test]
fn round_trip() {
    let bytes = [0x00, 0x01, 0x88, 0x8e, 0xff];
    assert_eq!(from_hex(&to_hex(&bytes)).unwrap(), bytes);
}

#[test]
fn ignores_whitespace() {
    assert_eq!(from_hex("01 88\n8e").unwrap(), vec![0x01, 0x88, 0x8e]);
}

#[test]
fn rejects_odd_and_bad() {
    assert_eq!(from_hex("abc"), Err(HexError::OddLength));
    assert_eq!(from_hex("zz"), Err(HexError::BadDigit('z')));
}

#[test]
fn writes_two_lower_case_digits_an_octet() {
    assert_eq!(to_hex(&[0x00, 0x0a, 0xbc, 0xff]), "000abcff");
    assert_eq!(to_hex(&[]), "");
}

#[test]
fn reads_digits_of_either_case_and_whitespace_anywhere() {
    assert_eq!(from_hex("aBcD").unwrap(), vec![0xab, 0xcd]);
    assert_eq!(from_hex("\ta \r\nb\x0c").unwrap(), vec![0xab]);
    assert_eq!(from_hex("").unwrap(), Vec::<u8>::new());
    assert_eq!(from_hex(" \n"), Ok(vec![]));
}

#[test]
fn a_bad_digit_is_reported_before_an_odd_count() {
    assert_eq!(from_hex("0g1"), Err(HexError::BadDigit('g')));
    assert_eq!(from_hex("0\u{e9}"), Err(HexError::BadDigit('\u{e9}')));
}

#[test]
fn hex_errors_read_as_sentences() {
    assert_eq!(HexError::OddLength.message(), "hex string has an odd number of digits");
    assert_eq!(HexError::BadDigit('z').message(), "invalid hex digit 'z'");
    assert_eq!(HexError::BadDigit('\'').message(), "invalid hex digit '\\''");
}
