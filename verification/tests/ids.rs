use gremlin_types::id::ElementId;
use gremlin_types::value::GremlinValue;

#[test]
fn element_id_accessors() {
    let s = ElementId::from("a".to_string());
    assert_eq!(s.as_str(), Some("a"));
    assert_eq!(s.as_i32(), None);
    let i = ElementId::from(3_i32);
    assert_eq!(i.as_i32(), Some(3));
    assert_eq!(i.as_i64(), None);
    let l = ElementId::from(4_i64);
    assert_eq!(l.as_i64(), Some(4));
    assert_eq!(l.as_uuid(), None);
    let u = ElementId::from(5_u128);
    assert_eq!(u.as_uuid(), Some(5));
    assert_eq!(u.as_str(), None);
}

#[test]
fn element_id_values() {
    assert_eq!(ElementId::Int(1).into_value(), GremlinValue::Int(1));
    assert_eq!(ElementId::Long(2).into_value(), GremlinValue::Long(2));
    assert_eq!(ElementId::Uuid(7).into_value(), GremlinValue::Uuid(7));
    assert_eq!(
        ElementId::String("x".to_string()).into_value(),
        GremlinValue::String("x".to_string())
    );
    assert!(ElementId::Int(1) < ElementId::Long(0));
}
