use std::str::FromStr;

use gremlin_types::bignum::{BigDecimal, BigInteger};
use gremlin_types::codec::{Decode, Encode, PartialDecode};
use gremlin_types::error::DecodeError;

fn big_int(text: &str) -> BigInteger {
    let n = num::BigInt::from_str(text).unwrap();
    BigInteger::from_signed_bytes_be(&n.to_signed_bytes_be())
}

fn big_dec(text: &str) -> BigDecimal {
    let d = bigdecimal::BigDecimal::from_str(text).unwrap();
    let (digits, scale) = d.as_bigint_and_exponent();
    BigDecimal::new(BigInteger::from_signed_bytes_be(&digits.to_signed_bytes_be()), scale)
}

#[test]
fn structures_big_dec_decode() {
    let reader = [0x22, 0x0, 0x0, 0x0, 0x0, 0x2, 0x0, 0x0, 0x0, 0x2, 0xff, 0x7f];
    let expected = big_dec("-1.29");
    let (res, _) = BigDecimal::decode(&reader, 0).unwrap();
    assert_eq!(res, expected)
}

#[test]
fn structures_big_dec_encode() {
    let s = big_dec("-1.29");
    let expected = [0x22, 0x0, 0x0, 0x0, 0x0, 0x2, 0x0, 0x0, 0x0, 0x2, 0xff, 0x7f];
    let mut buf = vec![];
    s.encode(&mut buf);
    assert_eq!(buf, expected)
}

#[test]
fn structures_big_int_decode() {
    let expected = big_int("-129");
    let reader = [0x23, 0x0, 0x0, 0x0, 0x0, 0x2, 0xff, 0x7f];
    let (res, _) = BigInteger::decode(&reader, 0).unwrap();
    assert_eq!(res, expected)
}

#[test]
fn structures_big_int_encode() {
    let s = big_int("-129");
    let expected = [0x23, 0x0, 0x0, 0x0, 0x0, 0x2, 0xff, 0x7f];
    let mut buf = vec![];
    s.encode(&mut buf);
    assert_eq!(buf, expected)
}

#[test]
fn bigint_big_int_decode() {
    let expected = big_int("-129");
    let reader = [0x23, 0x0, 0x0, 0x0, 0x0, 0x2, 0xff, 0x7f];
    let (res, _) = BigInteger::decode(&reader, 0).unwrap();
    assert_eq!(res, expected)
}

#[test]
fn bigint_big_int_encode() {
    let s = big_int("-129");
    let expected = [0x23, 0x0, 0x0, 0x0, 0x0, 0x2, 0xff, 0x7f];
    let mut buf = vec![];
    s.encode(&mut buf);
    assert_eq!(buf, expected)
}

#[test]
fn bigint_big_dec_decode() {
    let reader = [0x22, 0x0, 0x0, 0x0, 0x0, 0x2, 0x0, 0x0, 0x0, 0x2, 0xff, 0x7f];
    let expected = big_dec("-1.29");
    let (res, _) = BigDecimal::decode(&reader, 0).unwrap();
    assert_eq!(res, expected)
}

#[test]
fn bigint_big_dec_encode() {
    let s = big_dec("-1.29");
    let expected = [0x22, 0x0, 0x0, 0x0, 0x0, 0x2, 0x0, 0x0, 0x0, 0x2, 0xff, 0x7f];
    let mut buf = vec![];
    s.encode(&mut buf);
    assert_eq!(buf, expected)
}

#[test]
fn big_int_canonical_bytes() {
    // No bytes spell zero, which is written as one byte.
    assert_eq!(BigInteger::from_signed_bytes_be(&[]).to_signed_bytes_be(), vec![0]);
    // A redundant sign byte is dropped.
    assert_eq!(BigInteger::from_signed_bytes_be(&[0xff, 0xff, 0x7f]).to_signed_bytes_be(), vec![0xff, 0x7f]);
    assert_eq!(BigInteger::from_signed_bytes_be(&[0x00, 0x00, 0x05]).to_signed_bytes_be(), vec![0x05]);
    // 128 needs a leading zero to stay positive.
    assert_eq!(big_int("128").to_signed_bytes_be(), vec![0x00, 0x80]);
    assert_eq!(big_int("-128").to_signed_bytes_be(), vec![0x80]);
}

#[test]
fn big_int_round_trip_and_errors() {
    let x = big_int("123456789987654321123456789987654321");
    let mut buf = vec![9, 9];
    x.encode(&mut buf);
    assert_eq!(BigInteger::decode(&buf, 2), Ok((x.clone(), buf.len())));
    assert_eq!(BigInteger::partial_decode(&buf, 4), Ok((x, buf.len())));
    assert_eq!(BigInteger::decode(&[0x23, 0x0, 0x0, 0x0, 0x0, 0x3, 0x01], 0), Err(DecodeError::UnexpectedEof));
    assert_eq!(BigInteger::decode(&[0x22, 0x0, 0x0, 0x0, 0x0, 0x1, 0x01], 0), Err(DecodeError::TypeMismatch));
    assert_eq!(BigInteger::decode(&[0x23, 0x0, 0x0, 0x0, 0x0, 0x0], 0), Ok((big_int("0"), 6)));
}

#[test]
fn big_dec_round_trip_and_errors() {
    let d = big_dec("123456789987654321.123456789987654321");
    assert_eq!(d.scale, 18);
    let mut buf = vec![];
    d.encode(&mut buf);
    assert_eq!(&buf[..6], &[0x22, 0x00, 0, 0, 0, 18]);
    assert_eq!(BigDecimal::decode(&buf, 0), Ok((d, buf.len())));
    assert_eq!(BigDecimal::decode(&[0x22, 0x0, 0x0, 0x0], 0), Err(DecodeError::UnexpectedEof));
    let neg = big_dec("1.2E+5");
    assert_eq!(neg.scale, -4);
    let mut buf = vec![];
    neg.encode(&mut buf);
    assert_eq!(&buf[..6], &[0x22, 0x00, 0xff, 0xff, 0xff, 0xfc]);
    assert_eq!(BigDecimal::decode(&buf, 0), Ok((neg, buf.len())));
}
