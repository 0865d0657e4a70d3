use gremlin_types::codec::{Decode, PartialDecode};
use gremlin_types::error::DecodeError;
use gremlin_types::traversal::Bytecode;
use gremlin_types::value::GremlinValue;

fn sample() -> Bytecode {
    let mut b = Bytecode::new();
    b.push_new_source("withSack", vec![GremlinValue::Int(1)]);
    b.push_new_step("V", vec![]);
    b.push_new_step("has", vec![GremlinValue::String("name".to_string())]);
    b.add_to_last_step(GremlinValue::String("marko".to_string()));
    b.extend_last_step(vec![GremlinValue::Boolean(true)]);
    b.add_to_last_source(GremlinValue::Long(2));
    b.extend_last_source(vec![GremlinValue::Byte(3)]);
    b
}

#[test]
fn bytecode_builders() {
    let b = sample();
    assert_eq!(b.steps.len(), 2);
    assert_eq!(b.steps[0].name, "V");
    assert!(b.steps[0].values.is_empty());
    assert_eq!(b.steps[1].name, "has");
    assert_eq!(
        b.steps[1].values,
        vec![
            GremlinValue::String("name".to_string()),
            GremlinValue::String("marko".to_string()),
            GremlinValue::Boolean(true),
        ]
    );
    assert_eq!(b.sources.len(), 1);
    assert_eq!(b.sources[0].name, "withSack");
    assert_eq!(
        b.sources[0].values,
        vec![GremlinValue::Int(1), GremlinValue::Long(2), GremlinValue::Byte(3)]
    );
}

#[test]
fn bytecode_empty_encode() {
    let b = Bytecode::new();
    let mut buf = vec![];
    b.encode(&mut buf);
    assert_eq!(buf, vec![0x15, 0x00, 0, 0, 0, 0, 0, 0, 0, 0]);
    assert_eq!(Bytecode::decode(&buf, 0), Ok((b, buf.len())));
}

#[test]
fn bytecode_one_step_encode() {
    let mut b = Bytecode::new();
    b.push_new_step("V", vec![GremlinValue::Int(1)]);
    let mut buf = vec![];
    b.encode(&mut buf);
    assert_eq!(
        buf,
        vec![
            0x15, 0x00, 0, 0, 0, 1, 0, 0, 0, 1, b'V', 0, 0, 0, 1, 0x01, 0x00, 0, 0, 0, 1, 0, 0,
            0, 0,
        ]
    );
}

#[test]
fn bytecode_round_trip() {
    let b = sample();
    let mut buf = vec![0xaa];
    b.encode(&mut buf);
    buf.push(0xbb);
    let (d, end) = Bytecode::decode(&buf, 1).unwrap();
    assert_eq!(d, b);
    assert_eq!(end, buf.len() - 1);
    let (p, end2) = Bytecode::partial_decode(&buf, 3).unwrap();
    assert_eq!(p, b);
    assert_eq!(end2, end);
}

#[test]
fn bytecode_type_mismatch() {
    let buf = vec![0x14, 0x00, 0, 0, 0, 0, 0, 0, 0, 0];
    assert_eq!(Bytecode::decode(&buf, 0), Err(DecodeError::TypeMismatch));
}

#[test]
fn bytecode_short_input() {
    let buf = vec![0x15, 0x00, 0, 0, 0, 1, 0, 0, 0, 1];
    assert_eq!(Bytecode::decode(&buf, 0), Err(DecodeError::UnexpectedEof));
    assert_eq!(Bytecode::decode(&buf[..1], 0), Err(DecodeError::UnexpectedEof));
}
