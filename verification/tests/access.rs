use gremlin_types::enums::T;
use gremlin_types::value::GremlinValue;

#[test]
fn get_owned_value() {
    let gb1 = GremlinValue::Boolean(true);
    assert_eq!(Some(true), gb1.get());
    let gb2 = GremlinValue::Boolean(true);
    assert_eq!(None, gb2.get::<String>());
    assert_eq!(Some(5i64), GremlinValue::Long(5).get());
    assert_eq!(None, GremlinValue::Date(5).get::<i64>());
    assert_eq!(Some(T::Label), GremlinValue::T(T::Label).get());
}

#[test]
fn get_borrowed_value() {
    let gb = GremlinValue::String("Janus".to_string());
    assert_eq!(Some("Janus"), gb.get_ref::<String>().map(|s| s.as_str()));
    assert_eq!(Some(&String::from("Janus")), gb.get_ref());
    assert_eq!(None, gb.get_ref::<bool>());
}

#[test]
fn get_mutably_borrowed_value() {
    let mut gb = GremlinValue::String("Janus".to_string());
    let s = gb.get_ref_mut::<String>().unwrap();
    s.push_str("Graph");
    assert_eq!(Some(&String::from("JanusGraph")), gb.get_ref());
    assert_eq!(None, gb.get_ref::<bool>());
    assert!(gb.get_ref_mut::<i32>().is_none());
    let mut n = GremlinValue::Int(1);
    *n.get_ref_mut::<i32>().unwrap() += 41;
    assert_eq!(n, GremlinValue::Int(42));
}
