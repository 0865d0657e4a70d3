use gremlin_types::codec::{Decode, Encode, PartialDecode, PartialEncode};
use gremlin_types::error::DecodeError;

#[test]
fn encode_string() {
    let s = String::from("test");

    let mut buf: Vec<u8> = vec![];
    s.encode(&mut buf);
    assert_eq!(
        &[0x03, 0x00, 0x00, 0x00, 0x00, 0x04, 0x74, 0x65, 0x73, 0x74][..],
        &buf
    );
}

#[test]
fn encode_empty_string() {
    let s = String::new();

    let mut buf: Vec<u8> = vec![];
    s.encode(&mut buf);

    assert_eq!(&[0x03, 0x00, 0x00, 0x00, 0x00, 0x00][..], &buf);
}

#[test]
fn decode_empty_string() {
    let buf: Vec<u8> = vec![0x03, 0x00, 0x00, 0x00, 0x00, 0x00];

    let s = String::decode(&buf, 0);

    assert_eq!(String::new(), s.unwrap().0);
}

#[test]
fn string_decode() {
    let reader: Vec<u8> = vec![0x0, 0x0, 0x0, 0x04, b'h', b'o', b's', b't'];

    let s = String::partial_decode(&reader, 0);

    assert!(s.is_ok());

    assert_eq!("host", s.unwrap().0.as_str())
}

#[test]
fn string_utf8_decode() {
    let reader = vec![0x3_u8, 0x0, 0x0, 0x0, 0x0, 0x4, 240, 159, 146, 150];

    let s = String::decode(&reader, 0).unwrap().0;
    assert_eq!("💖", s);
}

#[test]
fn string_decode_fail() {
    let reader: Vec<u8> = vec![0x0, 0x0, 0x0, 0x04, b'h', b'o', b's'];

    let s = String::partial_decode(&reader, 0);

    assert!(s.is_err());
}

#[test]
fn int32_encode() {
    let mut buf: Vec<u8> = vec![];
    i32::MAX.encode(&mut buf);

    assert_eq!(&[0x01, 0x00, 0x7F, 0xFF, 0xFF, 0xFF][..], buf);

    buf.clear();
    i32::MIN.encode(&mut buf);

    assert_eq!(&[0x01, 0x00, 0x80, 0x00, 0x00, 0x00][..], buf);
}

#[test]
fn option_decode() {
    let reader: Vec<u8> = vec![0x03, 0x0, 0x0, 0x0, 0x0, 0x04, b'h', b'o', b's', b't'];

    let option: Option<String> = Option::<String>::decode(&reader, 0).unwrap().0;

    assert_eq!(option.unwrap(), String::from("host"))
}

#[test]
fn option_none_decode() {
    let reader: Vec<u8> = vec![0x03, 0x1];

    let option: Option<String> = Option::<String>::decode(&reader, 0).unwrap().0;

    assert!(option.is_none());

    let reader: Vec<u8> = vec![0xfe, 0x1];

    let option: Option<String> = Option::<String>::decode(&reader, 0).unwrap().0;

    assert!(option.is_none())
}

#[test]
fn option_fail_decode() {
    let reader: Vec<u8> = vec![0x04, 0x1];

    let option = Option::<String>::decode(&reader, 0);

    assert!(option.is_err());

    let reader: Vec<u8> = vec![0xfe, 0x0];

    let option = Option::<String>::decode(&reader, 0);

    assert!(option.is_err());

    let reader: Vec<u8> = vec![0xfe, 0x2];

    let option = Option::<String>::decode(&reader, 0);

    assert!(option.is_err())
}

#[test]
fn testing() {
    let mut buf: Vec<u8> = vec![];
    15_i32.partial_encode(&mut buf);
    assert_eq!([0x00, 0x00, 0x00, 0x0F], buf.as_slice());

    buf.clear();
    15_i32.encode(&mut buf);
    assert_eq!([0x01, 0x00, 0x00, 0x00, 0x00, 0x0F], buf.as_slice());
}

#[test]
fn testqdeasd() {
    let mut buf: Vec<u8> = vec![];
    15_i32.partial_encode(&mut buf);
    assert_eq!([0x00, 0x00, 0x00, 0x0F], buf.as_slice());

    buf.clear();
    15_i32.encode(&mut buf);
    assert_eq!([0x01, 0x00, 0x00, 0x00, 0x00, 0x0F], buf.as_slice());
}

#[test]
fn test() {
    println!("{:?}", std::time::Duration::from_millis(1481750076295));
}

#[test]
fn option_errors_are_named() {
    assert_eq!(
        Option::<String>::decode(&[0x04, 0x01], 0),
        Err(DecodeError::TypeMismatch)
    );
    assert_eq!(
        Option::<String>::decode(&[0xfe, 0x02], 0),
        Err(DecodeError::InvalidValueFlag)
    );
    assert_eq!(
        Option::<String>::decode(&[0x03], 0),
        Err(DecodeError::UnexpectedEof)
    );
}

#[test]
fn option_encode_round_trip() {
    let mut buf = vec![];
    Some(String::from("ab")).encode(&mut buf);
    None::<String>.encode(&mut buf);
    assert_eq!(buf, vec![0x03, 0x00, 0, 0, 0, 2, b'a', b'b', 0xfe, 0x01]);
    let (first, p) = Option::<String>::decode(&buf, 0).unwrap();
    assert_eq!(first, Some(String::from("ab")));
    let (second, q) = Option::<String>::decode(&buf, p).unwrap();
    assert_eq!(second, None);
    assert_eq!(q, buf.len());
}

#[test]
fn nullable_partial_form() {
    let mut buf = vec![];
    gremlin_types::nullable::write_partial_nullable_bytes(&Some(7_i32), &mut buf);
    gremlin_types::nullable::write_partial_nullable_bytes(&None::<i32>, &mut buf);
    assert_eq!(buf, vec![0x00, 0, 0, 0, 7, 0x01]);
}

#[test]
fn null_object_bytes() {
    let mut buf = vec![];
    gremlin_types::nullable::encode_null_object(&mut buf);
    assert_eq!(buf, vec![0xfe, 0x01]);
}

#[test]
fn string_with_bad_utf8_is_refused() {
    let reader = vec![0x03_u8, 0x00, 0, 0, 0, 2, 0xff, 0xfe];
    assert_eq!(String::decode(&reader, 0), Err(DecodeError::InvalidUtf8));
}

#[test]
fn string_with_negative_length_is_refused() {
    let reader = vec![0x03_u8, 0x00, 0xff, 0xff, 0xff, 0xff];
    assert_eq!(String::decode(&reader, 0), Err(DecodeError::NegativeLength));
}

#[test]
fn wrong_type_code_is_a_mismatch() {
    let reader = vec![0x02_u8, 0x00, 0, 0, 0, 1];
    assert_eq!(i32::decode(&reader, 0), Err(DecodeError::TypeMismatch));
}

#[test]
fn booleans_use_zero_for_true() {
    let mut buf = vec![];
    true.encode(&mut buf);
    false.encode(&mut buf);
    assert_eq!(buf, vec![0x27, 0x00, 0x00, 0x27, 0x00, 0x01]);
    assert_eq!(bool::decode(&buf, 0), Ok((true, 3)));
    assert_eq!(bool::decode(&buf, 3), Ok((false, 6)));
    assert_eq!(bool::decode(&[0x27, 0x00, 0x02], 0), Err(DecodeError::InvalidValue));
}

#[test]
fn uuid_encode() {
    let mut buf: Vec<u8> = vec![];
    let uuid: u128 = 0x00112233_44556677_8899aabb_ccddeeff;
    uuid.encode(&mut buf);
    assert_eq!(
        [
            0x0c, 0x00, 0x00, 0x11, 0x22, 0x33, 0x44, 0x55, 0x66, 0x77, 0x88, 0x99, 0xaa, 0xbb,
            0xcc, 0xdd, 0xee, 0xff
        ][..],
        buf
    );
    assert_eq!(u128::decode(&buf, 0), Ok((uuid, 18)));
}

#[test]
fn small_numbers_round_trip() {
    let mut buf = vec![];
    7_u8.encode(&mut buf);
    (-2_i16).encode(&mut buf);
    (-3_i64).encode(&mut buf);
    assert_eq!(
        buf,
        vec![0x24, 0, 7, 0x26, 0, 0xff, 0xfe, 0x02, 0, 0xff, 0xff, 0xff, 0xff, 0xff, 0xff, 0xff, 0xfd]
    );
    assert_eq!(u8::decode(&buf, 0), Ok((7, 3)));
    assert_eq!(i16::decode(&buf, 3), Ok((-2, 7)));
    assert_eq!(i64::decode(&buf, 7), Ok((-3, 17)));
}

#[test]
fn chars_round_trip() {
    let mut buf = vec![];
    'a'.encode(&mut buf);
    'é'.encode(&mut buf);
    '💖'.encode(&mut buf);
    assert_eq!(buf, vec![0x80, 0, b'a', 0x80, 0, 0xc3, 0xa9, 0x80, 0, 240, 159, 146, 150]);
    assert_eq!(char::decode(&buf, 0), Ok(('a', 3)));
    assert_eq!(char::decode(&buf, 3), Ok(('é', 7)));
    assert_eq!(char::decode(&buf, 7), Ok(('💖', 13)));
    assert_eq!(char::decode(&[0x80, 0, 0xff], 0), Err(DecodeError::InvalidUtf8));
}

#[test]
fn lists_round_trip() {
    let v = vec![1_i32, 2, 3];
    let mut buf = vec![];
    v.encode(&mut buf);
    assert_eq!(
        buf,
        vec![0x09, 0, 0, 0, 0, 3, 0x01, 0, 0, 0, 0, 1, 0x01, 0, 0, 0, 0, 2, 0x01, 0, 0, 0, 0, 3]
    );
    assert_eq!(Vec::<i32>::decode(&buf, 0), Ok((v, buf.len())));
    assert_eq!(
        Vec::<i32>::decode(&[0x09, 0, 0xff, 0xff, 0xff, 0xff], 0),
        Err(DecodeError::NegativeLength)
    );
}
