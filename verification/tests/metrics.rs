use gremlin_types::entry_map::EntryMap;
use gremlin_types::error::DecodeError;
use gremlin_types::metrics::{Metrics, TraversalMetrics, TraversalStrategy};
use gremlin_types::value::GremlinValue;

fn counts(es: &[(&str, i64)]) -> EntryMap<String, i64> {
    let mut m = EntryMap::new();
    for (k, v) in es {
        m.insert(k.to_string(), *v);
    }
    m
}

fn annotations(es: &[(&str, GremlinValue)]) -> EntryMap<String, GremlinValue> {
    let mut m = EntryMap::new();
    for (k, v) in es {
        m.insert(k.to_string(), v.clone());
    }
    m
}

fn step_metric() -> Metrics {
    Metrics {
        id: "4.0.0()".to_string(),
        name: "TinkerGraphStep(vertex,[1])".to_string(),
        duration: 1,
        counts: counts(&[("elementCount", 1)]),
        annotations: annotations(&[("percentDur", GremlinValue::Double(0_f64.to_bits()))]),
        nested_metrics: Vec::new(),
    }
}

const METRIC_BYTES: [u8; 118] = [
    0x2c, 0x0, 0x0, 0x0, 0x0, 0x7, 0x34, 0x2e, 0x30, 0x2e, 0x30, 0x28, 0x29, 0x0, 0x0, 0x0,
    0x1b, 0x54, 0x69, 0x6e, 0x6b, 0x65, 0x72, 0x47, 0x72, 0x61, 0x70, 0x68, 0x53, 0x74, 0x65,
    0x70, 0x28, 0x76, 0x65, 0x72, 0x74, 0x65, 0x78, 0x2c, 0x5b, 0x31, 0x5d, 0x29, 0x0, 0x0,
    0x0, 0x0, 0x0, 0x00, 0x00, 0x01, 0x0, 0x0, 0x0, 0x1, 0x3, 0x0, 0x0, 0x0, 0x0, 0xc, 0x65,
    0x6c, 0x65, 0x6d, 0x65, 0x6e, 0x74, 0x43, 0x6f, 0x75, 0x6e, 0x74, 0x2, 0x0, 0x0, 0x0, 0x0,
    0x0, 0x0, 0x0, 0x0, 0x1, 0x0, 0x0, 0x0, 0x1, 0x3, 0x0, 0x0, 0x0, 0x0, 0xa, 0x70, 0x65,
    0x72, 0x63, 0x65, 0x6e, 0x74, 0x44, 0x75, 0x72, 0x7, 0x0, 0x00, 0x00, 0x00, 0x00, 0x0,
    0x00, 0x00, 0x00, 0x0, 0x0, 0x0, 0x0,
];

#[test]
fn metric_encode() {
    let metric = step_metric();
    let mut buf = vec![];
    metric.encode(&mut buf);
    assert_eq!(&METRIC_BYTES[..], &buf)
}

#[test]
fn metric_decode() {
    let expected = step_metric();
    let p = Metrics::decode(&METRIC_BYTES[..], 0);
    assert_eq!(expected, p.unwrap().0);
}

#[test]
fn metric_encode_test() {
    let metric = step_metric();
    let mut buf = vec![];
    metric.encode(&mut buf);
    assert_eq!(&METRIC_BYTES[..], &buf)
}

#[test]
fn metric_decode_test() {
    let msg = METRIC_BYTES.to_vec();
    let p = Metrics::decode(&msg, 0);
    assert_eq!(step_metric(), p.unwrap().0);
}

fn traversal_bytes(duration: [u8; 8]) -> Vec<u8> {
    let mut msg = vec![0x2d, 0x0];
    msg.extend_from_slice(&duration);
    msg.extend_from_slice(&[0x0, 0x0, 0x0, 0x1]);
    msg.extend_from_slice(&METRIC_BYTES);
    msg
}

#[test]
fn traversal_metric_encode() {
    let traversal_metric = TraversalMetrics { duration: 214692, metrics: vec![step_metric()] };
    let mut buf = vec![];
    traversal_metric.encode(&mut buf);
    let msg = traversal_bytes([0x0, 0x0, 0x0, 0x0, 0x0, 0x3, 0x46, 0xa4]);
    assert_eq!(&msg[..], &buf)
}

#[test]
fn traversal_metric_decode() {
    let expected = TraversalMetrics { duration: 1, metrics: vec![step_metric()] };
    let msg = traversal_bytes([0x0, 0x0, 0x0, 0x0, 0x0, 0x0, 0x0, 0x1]);
    let p = TraversalMetrics::decode(&msg, 0);
    assert_eq!(expected, p.unwrap().0);
}

#[test]
fn traversal_metric_encode_test() {
    let traversal_metric = TraversalMetrics { duration: 214692, metrics: vec![step_metric()] };
    let mut buf = vec![];
    traversal_metric.encode(&mut buf);
    assert_eq!(traversal_bytes([0x0, 0x0, 0x0, 0x0, 0x0, 0x3, 0x46, 0xa4]), buf)
}

#[test]
fn traversal_metric_decode_test() {
    let expected = TraversalMetrics { duration: 1, metrics: vec![step_metric()] };
    let msg = traversal_bytes([0x0, 0x0, 0x0, 0x0, 0x0, 0x0, 0x0, 0x1]);
    assert_eq!(TraversalMetrics::decode(&msg, 0), Ok((expected, msg.len())));
}

#[test]
fn nested_metrics_round_trip() {
    let mut outer = step_metric();
    outer.counts.insert("traverserCount".to_string(), 7);
    let mut inner = step_metric();
    inner.nested_metrics.push(step_metric());
    outer.nested_metrics.push(inner);
    outer.nested_metrics.push(step_metric());
    let mut buf = vec![1, 2];
    outer.encode(&mut buf);
    let end = buf.len();
    buf.push(9);
    let (d, q) = Metrics::decode(&buf, 2).unwrap();
    assert_eq!(q, end);
    assert_eq!(Metrics::partial_decode(&buf, 4), Ok((d, end)));
    assert_eq!(Metrics::decode(&buf, 2), Ok((outer, end)));
}

#[test]
fn metrics_errors() {
    let mut wrong = METRIC_BYTES.to_vec();
    wrong[0] = 0x2d;
    assert_eq!(Metrics::decode(&wrong, 0), Err(DecodeError::TypeMismatch));
    assert_eq!(Metrics::decode(&METRIC_BYTES[..50], 0), Err(DecodeError::UnexpectedEof));
    let mut negative = METRIC_BYTES.to_vec();
    let n = negative.len();
    negative[n - 4..].copy_from_slice(&[0xff, 0xff, 0xff, 0xff]);
    assert_eq!(Metrics::decode(&negative, 0), Err(DecodeError::NegativeLength));
}

#[test]
fn traversal_strategy_round_trip() {
    let s = TraversalStrategy {
        strategy_class: "SubgraphStrategy".to_string(),
        configuration: annotations(&[
            ("checkAdjacentVertices", GremlinValue::Boolean(true)),
            ("limit", GremlinValue::Int(3)),
        ]),
    };
    let mut buf = vec![];
    s.encode(&mut buf);
    assert_eq!(&buf[..6], &[0x29, 0x00, 0, 0, 0, 16]);
    assert_eq!(&buf[22..26], &[0, 0, 0, 2]);
    assert_eq!(TraversalStrategy::decode(&buf, 0), Ok((s, buf.len())));
    assert_eq!(TraversalStrategy::decode(&buf[..1], 0), Err(DecodeError::UnexpectedEof));
    buf[0] = 0x2a;
    assert_eq!(TraversalStrategy::decode(&buf, 0), Err(DecodeError::TypeMismatch));
}
