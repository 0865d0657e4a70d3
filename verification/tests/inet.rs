use gremlin_types::error::DecodeError;
use gremlin_types::inet::InetAddress;

#[test]
fn inet_v4_encode() {
    let a = InetAddress::V4(u32::from_be_bytes([127, 0, 0, 1]));
    let mut buf = vec![];
    a.encode(&mut buf);
    assert_eq!(buf, vec![0x82, 0x00, 0, 0, 0, 4, 127, 0, 0, 1]);
    assert_eq!(InetAddress::decode(&buf, 0), Ok((a, buf.len())));
}

#[test]
fn inet_v6_round_trip() {
    let bytes: [u8; 16] = [0x20, 0x01, 0x0d, 0xb8, 0, 0, 0, 0, 0, 0, 0, 0, 0, 0, 0, 1];
    let a = InetAddress::V6(u128::from_be_bytes(bytes));
    let mut buf = vec![7];
    a.encode(&mut buf);
    assert_eq!(&buf[1..7], &[0x82, 0x00, 0, 0, 0, 16]);
    assert_eq!(&buf[7..], &bytes[..]);
    assert_eq!(InetAddress::decode(&buf, 1), Ok((a, buf.len())));
    assert_eq!(InetAddress::partial_decode(&buf, 3), Ok((a, buf.len())));
}

#[test]
fn inet_errors() {
    assert_eq!(
        InetAddress::decode(&[0x82, 0x00, 0, 0, 0, 5, 1, 2, 3, 4, 5], 0),
        Err(DecodeError::InvalidValue)
    );
    assert_eq!(InetAddress::decode(&[0x82, 0x00, 0, 0, 0, 4, 1, 2], 0), Err(DecodeError::UnexpectedEof));
    assert_eq!(InetAddress::decode(&[0x81, 0x00, 0, 0, 0, 4, 1, 2, 3, 4], 0), Err(DecodeError::TypeMismatch));
}

#[test]
fn ip_v4_encode() {
    let expected = [0x82, 0x0, 0x0, 0x0, 0x0, 0x4, 167, 123, 5, 1];
    let mut buf = vec![];
    InetAddress::V4(u32::from_be_bytes([167, 123, 5, 1])).encode(&mut buf);
    assert_eq!(buf, expected)
}

#[test]
fn ip_v6_encode() {
    let expected = [
        0x82, 0x0, 0x0, 0x0, 0x0, 0x10, 0, 0, 0, 0, 0, 0, 0, 0, 0, 0, 0, 0, 0, 0, 0, 1,
    ];
    let mut buf = vec![];
    InetAddress::V6(1).encode(&mut buf);
    assert_eq!(buf, expected)
}

#[test]
fn ip_v4_decode() {
    let buf = vec![0x82_u8, 0x0, 0x0, 0x0, 0x0, 0x4, 167, 123, 5, 1];
    let expected = InetAddress::V4(u32::from_be_bytes([167, 123, 5, 1]));
    let res = InetAddress::decode(&buf[..], 0).unwrap().0;
    assert_eq!(res, expected)
}

#[test]
fn ip_v6_decode() {
    let buf = [
        0x82, 0x0, 0x0, 0x0, 0x0, 0x10, 0, 0, 0, 0, 0, 0, 0, 0, 0, 0, 0, 0, 0, 0, 0, 1,
    ];
    let expected = InetAddress::V6(1);
    let res = InetAddress::decode(&buf[..], 0).unwrap().0;
    assert_eq!(res, expected)
}
