use gremlin_types::any_value::{decode_any, AnyValue};
use gremlin_types::entry_map::EntryMap;
use gremlin_types::error::DecodeError;
use gremlin_types::metrics::{Metrics, TraversalMetrics, TraversalStrategy};
use gremlin_types::value::GremlinValue;

fn sample_metrics() -> Metrics {
    let mut counts = EntryMap::new();
    counts.insert("elementCount".to_string(), 1i64);
    let mut annotations = EntryMap::new();
    annotations.insert("percentDur".to_string(), GremlinValue::Double(0_f64.to_bits()));
    Metrics {
        id: "4.0.0()".to_string(),
        name: "TinkerGraphStep(vertex,[1])".to_string(),
        duration: 1,
        counts,
        annotations,
        nested_metrics: Vec::new(),
    }
}

#[test]
fn any_value_traversal_metrics() {
    let tm = TraversalMetrics { duration: 214692, metrics: vec![sample_metrics()] };
    let mut buf = vec![];
    tm.encode(&mut buf);
    assert_eq!(decode_any(&buf, 0), Ok((AnyValue::TraversalMetrics(tm), buf.len())));
}

#[test]
fn any_value_metrics_and_strategy() {
    let m = sample_metrics();
    let mut buf = vec![];
    m.encode(&mut buf);
    assert_eq!(decode_any(&buf, 0), Ok((AnyValue::Metrics(m), buf.len())));
    let mut configuration = EntryMap::new();
    configuration.insert("limit".to_string(), GremlinValue::Int(3));
    let s = TraversalStrategy { strategy_class: "SubgraphStrategy".to_string(), configuration };
    let mut buf = vec![];
    s.encode(&mut buf);
    assert_eq!(decode_any(&buf, 0), Ok((AnyValue::TraversalStrategy(s), buf.len())));
}

#[test]
fn any_value_general_values() {
    assert_eq!(decode_any(&[0x01, 0x00, 0, 0, 0, 7], 0), Ok((AnyValue::Value(GremlinValue::Int(7)), 6)));
    // A null of a structure's type is the unspecified null.
    assert_eq!(decode_any(&[0x2d, 0x01], 0), Ok((AnyValue::Value(GremlinValue::UnspecifiedNullObject), 2)));
    assert_eq!(decode_any(&[0x2d], 0), Err(DecodeError::UnexpectedEof));
    assert_eq!(decode_any(&[0x2c, 0x00, 0, 0], 0), Err(DecodeError::UnexpectedEof));
}
