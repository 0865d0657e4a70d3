use gremlin_types::codec::{Decode, Encode, PartialDecode};
use gremlin_types::core_type::{CoreType, ValueFlag};
use gremlin_types::enums::{
    Barrier, Cardinality, Column, Direction, Merge, Operator, Order, Pick, Pop, Scope, T,
};
use gremlin_types::error::DecodeError;
use gremlin_types::structure::{ByteBuffer, Lambda, SetList};

#[test]
fn encode_bytecode() {
    let expected = [0x25, 0x0, 0x0, 0x0, 0x0, 0x4, b'a', b'b', b'c', b'd'];
    let byte_buffer = ByteBuffer::new(&[b'a', b'b', b'c', b'd']);

    let mut writer = Vec::new();
    byte_buffer.encode(&mut writer);
    assert_eq!(writer, expected)
}

#[test]
fn decode_bytecode() {
    let buf = vec![0x25, 0x0, 0x0, 0x0, 0x0, 0x4, b'a', b'b', b'c', b'd'];
    let expected = ByteBuffer::new(&[b'a', b'b', b'c', b'd']);

    let res = ByteBuffer::decode(&buf[..], 0).unwrap().0;
    assert_eq!(res, expected)
}

#[test]
fn byte_buffer_accessors() {
    let mut b = ByteBuffer::new(&[1, 2]);
    assert_eq!(b.as_bytes(), &[1, 2]);
    b.bytes_mut().push(3);
    assert_eq!(b.bytes(), &vec![1, 2, 3]);
}

#[test]
fn byte_buffer_short_input() {
    let buf = vec![0x25, 0x0, 0x0, 0x0, 0x0, 0x4, b'a'];
    assert_eq!(ByteBuffer::decode(&buf[..], 0), Err(DecodeError::UnexpectedEof));
}

#[test]
fn lambda_round_trip() {
    let l = Lambda::new("it.get()");
    assert_eq!(l.language, "gremlin-groovy");
    assert_eq!(l.arguments_length, 1);
    let mut buf = vec![];
    l.encode(&mut buf);
    assert_eq!(buf[0], 0x1d);
    assert_eq!(Lambda::decode(&buf, 0), Ok((l, buf.len())));
}

#[test]
fn sets_round_trip() {
    let s = SetList::new(vec![String::from("a"), String::from("b")]);
    assert_eq!(s.as_vec().len(), 2);
    let mut buf = vec![];
    s.encode(&mut buf);
    assert_eq!(&buf[..6], &[0x0b, 0x00, 0, 0, 0, 2]);
    assert_eq!(SetList::<String>::decode(&buf, 0), Ok((s, buf.len())));
}

#[test]
fn enums_are_written_as_their_names() {
    let mut buf = vec![];
    T::Id.encode(&mut buf);
    assert_eq!(buf, vec![0x20, 0x0, 0x03, 0x0, 0x0, 0x0, 0x0, 0x02, b'i', b'd']);
    assert_eq!(T::decode(&buf, 0), Ok((T::Id, buf.len())));

    let buf = [0x13, 0x0, 0x03, 0x0, 0x0, 0x0, 0x0, 0x08, b'n', b'o', b'r', b'm', b'S', b'a', b'c', b'k'];
    assert_eq!(Barrier::decode(&buf, 0), Ok((Barrier::NormSack, buf.len())));

    let buf = [0x1a, 0x0, 0x03, 0x0, 0x0, 0x0, 0x0, 0x03, b'a', b's', b'c'];
    assert_eq!(Order::decode(&buf, 0), Ok((Order::Asc, buf.len())));
}

#[test]
fn enum_names_read_back() {
    assert_eq!(Cardinality::try_from_str(Cardinality::UniqueSet.as_str()), Ok(Cardinality::UniqueSet));
    assert_eq!(Cardinality::UniqueSet.as_str(), "set");
    assert_eq!(Column::try_from_str("keys"), Ok(Column::Keys));
    assert_eq!(Direction::try_from_str("OUT"), Ok(Direction::Out));
    assert_eq!(Operator::try_from_str("sum"), Ok(Operator::Sum));
    assert_eq!(Pick::try_from_str("none"), Ok(Pick::NoPick));
    assert_eq!(Pop::try_from_str("last"), Ok(Pop::Last));
    assert_eq!(Scope::try_from_str("local"), Ok(Scope::Local));
    assert_eq!(Merge::try_from_str("onCreate"), Ok(Merge::OnCreate));
    assert_eq!(T::try_from_str("nope"), Err(DecodeError::UnknownEnumValue));
}

#[test]
fn an_unknown_enum_name_is_refused() {
    let buf = [0x1a, 0x0, 0x03, 0x0, 0x0, 0x0, 0x0, 0x03, b'x', b'y', b'z'];
    assert_eq!(Order::decode(&buf, 0), Err(DecodeError::UnknownEnumValue));
    assert_eq!(Order::partial_decode(&buf, 2), Err(DecodeError::UnknownEnumValue));
}

#[test]
fn core_type_codes_read_back() {
    for b in 0u8..=255 {
        if let Ok(t) = CoreType::try_from_code(b) {
            assert_eq!(t.code(), b);
        }
    }
    assert_eq!(CoreType::try_from_code(0x20), Ok(CoreType::T));
    assert_eq!(CoreType::try_from_code(0x70), Err(DecodeError::InvalidTypeCode));
    assert_eq!(ValueFlag::try_from_byte(0), Ok(ValueFlag::Present));
    assert_eq!(ValueFlag::try_from_byte(1), Ok(ValueFlag::Null));
    assert_eq!(ValueFlag::try_from_byte(2), Err(DecodeError::InvalidValueFlag));
    assert_eq!(ValueFlag::Null.to_byte(), 1);
}
