use gremlin_types::binding::Binding;
use gremlin_types::traverser::Traverser;
use gremlin_types::value::GremlinValue;

#[test]
fn test_iter() {
    let t = Traverser { bulk: 3, value: Box::new(GremlinValue::Int(1)) };
    let mut iter = t.iter();
    assert_eq!(iter.next(), Some(&GremlinValue::Int(1)));
    assert_eq!(iter.next(), Some(&GremlinValue::Int(1)));
    assert_eq!(iter.next(), Some(&GremlinValue::Int(1)));
    assert_eq!(iter.next(), None)
}

#[test]
fn iter() {
    let t = Traverser { bulk: 3, value: Box::new(GremlinValue::Int(1)) };
    let mut iter = t.iter();
    assert_eq!(iter.next(), Some(&GremlinValue::Int(1)));
    assert_eq!(iter.next(), Some(&GremlinValue::Int(1)));
    assert_eq!(iter.next(), Some(&GremlinValue::Int(1)));
    assert_eq!(iter.next(), None)
}

#[test]
fn traverser_accessors() {
    let t = Traverser::new(2, GremlinValue::String("a".to_string()));
    assert_eq!(*t.bulk(), 2);
    assert_eq!(t.value(), &GremlinValue::String("a".to_string()));
    let it = t.iter();
    assert_eq!(it.size_hint(), (2, Some(2)));
    let zero = Traverser::new(0, GremlinValue::Int(5));
    assert_eq!(zero.iter().next(), None);
    assert_eq!(
        t.into_value(),
        GremlinValue::Traverser { bulk: 2, value: Box::new(GremlinValue::String("a".to_string())) }
    );
}

#[test]
fn binding_accessors() {
    let b = Binding::new("x", GremlinValue::Int(1));
    assert_eq!(b.key(), "x");
    assert_eq!(b.value(), &GremlinValue::Int(1));
    assert_eq!(
        b.into_value(),
        GremlinValue::Binding { key: "x".to_string(), value: Box::new(GremlinValue::Int(1)) }
    );
}
