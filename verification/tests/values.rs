use gremlin_types::enums::{Direction, Order, T};
use gremlin_types::error::DecodeError;
use gremlin_types::structure::{ByteBuffer, Lambda};
use gremlin_types::value::{decode, value_to_key, GremlinValue, MapKeys};

fn encode(v: &GremlinValue) -> Vec<u8> {
    let mut buf = vec![];
    v.build_fq_bytes(&mut buf);
    buf
}

fn round_trip(v: GremlinValue) {
    let buf = encode(&v);
    assert_eq!(decode(&buf, 0), Ok((v, buf.len())));
}

#[test]
fn int_value_bytes() {
    assert_eq!(encode(&GremlinValue::Int(15)), vec![0x01, 0, 0, 0, 0, 0x0f]);
}

#[test]
fn leaf_values_round_trip() {
    round_trip(GremlinValue::Int(-5));
    round_trip(GremlinValue::Long(1 << 40));
    round_trip(GremlinValue::String(String::from("Janus")));
    round_trip(GremlinValue::Class(String::from("java.lang.String")));
    round_trip(GremlinValue::Double(1.5_f64.to_bits()));
    round_trip(GremlinValue::Float(2.25_f32.to_bits()));
    round_trip(GremlinValue::Uuid(0x0011_2233_4455_6677_8899_aabb_ccdd_eeff));
    round_trip(GremlinValue::Order(Order::Desc));
    round_trip(GremlinValue::T(T::Label));
    round_trip(GremlinValue::Lambda(Lambda::new("x -> x")));
    round_trip(GremlinValue::Byte(9));
    round_trip(GremlinValue::ByteBuffer(ByteBuffer::new(&[1, 2, 3])));
    round_trip(GremlinValue::Short(-300));
    round_trip(GremlinValue::Boolean(false));
    round_trip(GremlinValue::Char('ß'));
    round_trip(GremlinValue::UnspecifiedNullObject);
}

#[test]
fn nested_values_round_trip() {
    let list = GremlinValue::List(vec![
        GremlinValue::Int(1),
        GremlinValue::String(String::from("two")),
        GremlinValue::SetValue(vec![GremlinValue::Boolean(true)]),
    ]);
    round_trip(list.clone());
    let map = GremlinValue::MapValue(vec![
        (MapKeys::Int(1), GremlinValue::String(String::from("test"))),
        (MapKeys::String(String::from("k")), list),
        (MapKeys::Direction(Direction::Out), GremlinValue::UnspecifiedNullObject),
    ]);
    round_trip(map.clone());
    round_trip(GremlinValue::Binding {
        key: String::from("x"),
        value: Box::new(map),
    });
    round_trip(GremlinValue::Traverser {
        bulk: 3,
        value: Box::new(GremlinValue::Long(7)),
    });
}

#[test]
fn nested_map_bytes() {
    let inner = GremlinValue::MapValue(vec![(MapKeys::Int(1), GremlinValue::String("test".to_owned()))]);
    let outer = GremlinValue::MapValue(vec![(MapKeys::Int(1), inner)]);
    let msg = [
        0x0a, 0x0, 0x0, 0x0, 0x0, 0x1, 0x01, 0x0, 0x0, 0x0, 0x0, 0x1, 0x0a, 0x0, 0x0, 0x0, 0x0,
        0x1, 0x01, 0x0, 0x0, 0x0, 0x0, 0x1, 0x3, 0x0, 0x0, 0x0, 0x0, 0x4, b't', b'e', b's', b't',
    ];
    assert_eq!(encode(&outer), msg.to_vec());
}

#[test]
fn list_of_ints_decodes() {
    let reader: Vec<u8> = vec![
        0x09, 0x00, 0x0, 0x0, 0x0, 0x04, 0x01, 0x0, 0x0, 0x0, 0x0, 0x04, 0x01, 0x0, 0x0, 0x0,
        0x0, 0x04, 0x01, 0x0, 0x0, 0x0, 0x0, 0x04, 0x01, 0x0, 0x0, 0x0, 0x0, 0x04,
    ];
    let (v, n) = decode(&reader, 0).unwrap();
    assert_eq!(n, reader.len());
    assert_eq!(v, GremlinValue::List(vec![GremlinValue::Int(4); 4]));
}

#[test]
fn binding_bytes() {
    let expected = [
        0x14_u8, 0x0, 0x0, 0x00, 0x00, 0x04, 0x74, 0x65, 0x73, 0x74, 0x01, 0x00, 0x00, 0x0, 0x0,
        0x01,
    ];
    let b = GremlinValue::Binding {
        key: "test".to_string(),
        value: Box::new(GremlinValue::Int(1)),
    };
    assert_eq!(encode(&b), expected.to_vec());
    assert_eq!(decode(&expected, 0), Ok((b, expected.len())));
}

#[test]
fn a_null_flag_gives_the_null_object() {
    assert_eq!(decode(&[0x01, 0x01], 0), Ok((GremlinValue::UnspecifiedNullObject, 2)));
    assert_eq!(decode(&[0xfe, 0x01, 0, 0, 0, 1], 0), Ok((GremlinValue::UnspecifiedNullObject, 2)));
}

#[test]
fn decode_errors() {
    assert_eq!(decode(&[0x01], 0), Err(DecodeError::UnexpectedEof));
    assert_eq!(decode(&[0x70, 0x00], 0), Err(DecodeError::InvalidTypeCode));
    assert_eq!(decode(&[0x01, 0x02], 0), Err(DecodeError::InvalidValueFlag));
    assert_eq!(decode(&[0xfe, 0x00], 0), Err(DecodeError::InvalidValueFlag));
    assert_eq!(decode(&[0x1e, 0x00], 0), Err(DecodeError::UnsupportedType));
    assert_eq!(decode(&[0x11, 0x00], 0), Err(DecodeError::UnexpectedEof));
    assert_eq!(decode(&[0x09, 0x00, 0xff, 0xff, 0xff, 0xff], 0), Err(DecodeError::NegativeLength));
    assert_eq!(decode(&[0x01, 0x00, 0, 0], 0), Err(DecodeError::UnexpectedEof));
    let bad_key = [0x0a, 0x00, 0, 0, 0, 1, 0x27, 0x00, 0x00, 0x01, 0x00, 0, 0, 0, 1];
    assert_eq!(decode(&bad_key, 0), Err(DecodeError::InvalidMapKey));
}

#[test]
fn a_repeated_map_key_keeps_the_last_value() {
    let msg = [
        0x0a, 0x0, 0x0, 0x0, 0x0, 0x2, 0x01, 0x0, 0x0, 0x0, 0x0, 0x1, 0x01, 0x0, 0x0, 0x0, 0x0,
        0x5, 0x01, 0x0, 0x0, 0x0, 0x0, 0x1, 0x01, 0x0, 0x0, 0x0, 0x0, 0x6,
    ];
    let (v, _) = decode(&msg, 0).unwrap();
    assert_eq!(v, GremlinValue::MapValue(vec![(MapKeys::Int(1), GremlinValue::Int(6))]));
}

#[test]
fn bulk_sets_are_read() {
    let msg = [0x2a, 0x00, 0, 0, 0, 1, 0x01, 0x00, 0, 0, 0, 9, 0, 0, 0, 0, 0, 0, 0, 2];
    assert_eq!(
        decode(&msg, 0),
        Ok((GremlinValue::BulkSet(vec![(GremlinValue::Int(9), 2)]), msg.len()))
    );
}

#[test]
fn keys_and_options() {
    assert_eq!(value_to_key(GremlinValue::Long(3)), Some(MapKeys::Long(3)));
    assert_eq!(value_to_key(GremlinValue::Boolean(true)), None);
    assert_eq!(MapKeys::T(T::Id).into_value(), GremlinValue::T(T::Id));
    assert_eq!(GremlinValue::UnspecifiedNullObject.to_option(), None);
    assert_eq!(GremlinValue::Int(1).to_option(), Some(GremlinValue::Int(1)));
    assert_eq!(GremlinValue::default(), GremlinValue::UnspecifiedNullObject);
    let v = GremlinValue::List(vec![GremlinValue::String("a".into())]);
    assert_eq!(v.clone(), v);
}
