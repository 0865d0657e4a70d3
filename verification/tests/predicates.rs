use gremlin_types::predicate::{TextP, P};
use gremlin_types::value::GremlinValue;

#[test]
fn value_predicates() {
    let p = P::gt(GremlinValue::Int(5));
    assert_eq!(p.predicate, "gt");
    assert_eq!(p.value, vec![GremlinValue::Int(5)]);
    let p = P::between(GremlinValue::Long(1), GremlinValue::Long(9));
    assert_eq!(p.predicate, "between");
    assert_eq!(p.value, vec![GremlinValue::Long(1), GremlinValue::Long(9)]);
    let p = P::within(vec![GremlinValue::Int(1), GremlinValue::Int(2), GremlinValue::Int(3)]);
    assert_eq!(p.predicate, "within");
    assert_eq!(p.value.len(), 3);
    assert_eq!(P::neq(GremlinValue::Boolean(true)).predicate, "neq");
    assert_eq!(P::lte(GremlinValue::Int(0)).predicate, "lte");
    assert_eq!(P::outside(GremlinValue::Int(0), GremlinValue::Int(1)).predicate, "outside");
    assert_eq!(P::without(vec![]).predicate, "without");
}

#[test]
fn text_predicates() {
    let t = TextP::starting_with("ma");
    assert_eq!(t.predicate, "startingWith");
    assert_eq!(t.value, vec![GremlinValue::String("ma".to_string())]);
    assert_eq!(TextP::not_containing("x").predicate, "notContaining");
    assert_eq!(TextP::not_regex("^a").predicate, "notRegex");
    assert_eq!(TextP::ending_with("z").value, vec![GremlinValue::String("z".to_string())]);
}
