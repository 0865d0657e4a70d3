use gremlin_types::duration::Duration;
use gremlin_types::error::{DecodeError, EncodeError};

#[test]
fn duration_encode() {
    let d = Duration { secs: 1, nanos: 500_000_000 };
    let mut buf = vec![];
    assert_eq!(d.encode(&mut buf), Ok(()));
    assert_eq!(buf, vec![0x81, 0x00, 0, 0, 0, 0, 0, 0, 0, 1, 0x1d, 0xcd, 0x65, 0x00]);
    assert_eq!(Duration::decode(&buf, 0), Ok((d, buf.len())));
}

#[test]
fn negative_duration_has_no_bytes() {
    let d = Duration { secs: -1, nanos: 0 };
    let mut buf = vec![7];
    assert_eq!(d.encode(&mut buf), Err(EncodeError::OutOfRange));
    assert_eq!(buf, vec![7]);
}

#[test]
fn duration_decode_normalizes() {
    let buf = [0x81, 0x00, 0, 0, 0, 0, 0, 0, 0, 2, 0xff, 0xff, 0xff, 0xff];
    assert_eq!(Duration::decode(&buf, 0), Ok((Duration { secs: 1, nanos: 999_999_999 }, 14)));
    let more = [0x81, 0x00, 0, 0, 0, 0, 0, 0, 0, 0, 0x77, 0x35, 0x94, 0x01];
    assert_eq!(Duration::decode(&more, 0), Ok((Duration { secs: 2, nanos: 1 }, 14)));
    let neg = [0x81, 0x00, 0xff, 0xff, 0xff, 0xff, 0xff, 0xff, 0xff, 0xff, 0, 0, 0, 5];
    assert_eq!(Duration::decode(&neg, 0), Ok((Duration { secs: -1, nanos: 5 }, 14)));
}

#[test]
fn duration_decode_errors() {
    assert_eq!(Duration::decode(&[0x81, 0x00, 0, 0, 0], 0), Err(DecodeError::UnexpectedEof));
    assert_eq!(
        Duration::decode(&[0x82, 0x00, 0, 0, 0, 0, 0, 0, 0, 0, 0, 0, 0, 0], 0),
        Err(DecodeError::TypeMismatch)
    );
}
