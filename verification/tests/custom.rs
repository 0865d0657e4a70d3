use gremlin_types::custom::{decode_custom, decode_custom_parts, encode_custom, encode_custom_parts, Custom};
use gremlin_types::error::DecodeError;
use gremlin_types::structure::ByteBuffer;

#[derive(Debug, PartialEq)]
struct Pair {
    a: u8,
    b: u8,
}

impl Custom for Pair {
    fn custom_name() -> &'static str {
        "pair"
    }

    fn custom_type_info() -> ByteBuffer {
        ByteBuffer::new(&[9])
    }

    fn partial_encode(&self) -> ByteBuffer {
        ByteBuffer::new(&[self.a, self.b])
    }

    fn partial_decode(blob: ByteBuffer) -> Self {
        let bytes = blob.as_bytes();
        Pair { a: bytes[0], b: bytes[1] }
    }
}

const PAIR_BYTES: [u8; 21] =
    [0x00, 0x00, 0, 0, 0, 4, b'p', b'a', b'i', b'r', 0, 0, 0, 1, 9, 0, 0, 0, 2, 1, 2];

#[test]
fn custom_round_trip() {
    let p = Pair { a: 1, b: 2 };
    let mut buf = vec![];
    encode_custom(&p, &mut buf);
    assert_eq!(buf, PAIR_BYTES.to_vec());
    assert_eq!(decode_custom::<Pair>(&buf, 0), Ok((p, buf.len())));
}

#[test]
fn custom_parts() {
    let mut buf = vec![];
    encode_custom_parts("pair", &ByteBuffer::new(&[9]), &ByteBuffer::new(&[1, 2]), &mut buf);
    assert_eq!(buf, PAIR_BYTES.to_vec());
    let ((name, info, blob), q) = decode_custom_parts(&buf, 2).unwrap();
    assert_eq!(name, "pair");
    assert_eq!(info.as_bytes(), &[9]);
    assert_eq!(blob.as_bytes(), &[1, 2]);
    assert_eq!(q, buf.len());
}

#[test]
fn custom_errors() {
    let buf = vec![0x01, 0x00, 0, 0, 0, 0];
    assert_eq!(decode_custom::<Pair>(&buf, 0), Err(DecodeError::TypeMismatch));
    let short = vec![0x00, 0x00, 0, 0, 0, 4, b'p'];
    assert_eq!(decode_custom::<Pair>(&short, 0), Err(DecodeError::UnexpectedEof));
}
