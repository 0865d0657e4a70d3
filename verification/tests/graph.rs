use gremlin_types::element::{EitherParent, Property, Vertex, VertexProperty};
use gremlin_types::error::DecodeError;
use gremlin_types::graph::{Graph, GraphEdge};
use gremlin_types::value::GremlinValue;

const GRAPH_BYTES: [u8; 253] = [0x10_u8, 0x0, 0x0, 0x0, 0x0, 0x2, 0x2, 0x0, 0x0, 0x0, 0x0, 0x0, 0x0, 0x0, 0x0, 0x1, 0x0,
        0x0, 0x0, 0x6, 0x70, 0x65, 0x72, 0x73, 0x6f, 0x6e, 0x0, 0x0, 0x0, 0x2, 0x2, 0x0, 0x0, 0x0,
        0x0, 0x0, 0x0, 0x0, 0x0, 0x0, 0x0, 0x0, 0x0, 0x4, 0x6e, 0x61, 0x6d, 0x65, 0x3, 0x0, 0x0,
        0x0, 0x0, 0x5, 0x6d, 0x61, 0x72, 0x6b, 0x6f, 0xfe, 0x1, 0x0, 0x0, 0x0, 0x0, 0x2, 0x0, 0x0,
        0x0, 0x0, 0x0, 0x0, 0x0, 0x0, 0x2, 0x0, 0x0, 0x0, 0x3, 0x61, 0x67, 0x65, 0x1, 0x0, 0x0,
        0x0, 0x0, 0x1d, 0xfe, 0x1, 0x0, 0x0, 0x0, 0x0, 0x2, 0x0, 0x0, 0x0, 0x0, 0x0, 0x0, 0x0, 0x0,
        0x2, 0x0, 0x0, 0x0, 0x6, 0x70, 0x65, 0x72, 0x73, 0x6f, 0x6e, 0x0, 0x0, 0x0, 0x2, 0x2, 0x0,
        0x0, 0x0, 0x0, 0x0, 0x0, 0x0, 0x0, 0x3, 0x0, 0x0, 0x0, 0x4, 0x6e, 0x61, 0x6d, 0x65, 0x3,
        0x0, 0x0, 0x0, 0x0, 0x5, 0x76, 0x61, 0x64, 0x61, 0x73, 0xfe, 0x1, 0x0, 0x0, 0x0, 0x0, 0x2,
        0x0, 0x0, 0x0, 0x0, 0x0, 0x0, 0x0, 0x0, 0x4, 0x0, 0x0, 0x0, 0x3, 0x61, 0x67, 0x65, 0x1,
        0x0, 0x0, 0x0, 0x0, 0x1b, 0xfe, 0x1, 0x0, 0x0, 0x0, 0x0, 0x0, 0x0, 0x0, 0x1, 0x2, 0x0, 0x0,
        0x0, 0x0, 0x0, 0x0, 0x0, 0x0, 0xd, 0x0, 0x0, 0x0, 0x4, 0x74, 0x65, 0x73, 0x74, 0x2, 0x0,
        0x0, 0x0, 0x0, 0x0, 0x0, 0x0, 0x0, 0x2, 0xfe, 0x1, 0x2, 0x0, 0x0, 0x0, 0x0, 0x0, 0x0, 0x0,
        0x0, 0x1, 0xfe, 0x1, 0xfe, 0x1, 0x0, 0x0, 0x0, 0x1, 0xf, 0x0, 0x0, 0x0, 0x0, 0x5, 0x73,
        0x69, 0x6e, 0x63, 0x65, 0x1, 0x0, 0x0, 0x0, 0x0, 0x7b, 0xfe, 0x1];

fn vp(id: i64, label: &str, value: GremlinValue) -> VertexProperty {
    VertexProperty {
        id: Box::new(GremlinValue::Long(id)),
        label: label.to_string(),
        value: Box::new(value),
        parent: None,
        properties: Some(Vec::new()),
    }
}

fn modern() -> Graph {
    let vertices = vec![
        Vertex {
            id: Box::new(GremlinValue::Long(1)),
            label: "person".to_string(),
            properties: Some(vec![
                vp(0, "name", GremlinValue::String("marko".to_string())),
                vp(2, "age", GremlinValue::Int(29)),
            ]),
        },
        Vertex {
            id: Box::new(GremlinValue::Long(2)),
            label: "person".to_string(),
            properties: Some(vec![
                vp(3, "name", GremlinValue::String("vadas".to_string())),
                vp(4, "age", GremlinValue::Int(27)),
            ]),
        },
    ];
    let edges = vec![GraphEdge {
        id: GremlinValue::Long(13),
        label: "test".to_string(),
        in_v_id: GremlinValue::Long(2),
        in_v_label: None,
        out_v_id: GremlinValue::Long(1),
        out_v_label: None,
        parent: None,
        properties: vec![Property {
            key: "since".to_string(),
            value: Box::new(GremlinValue::Int(123)),
            parent: EitherParent::NoParent,
        }],
    }];
    Graph { vertices, edges }
}

#[test]
fn encode_gb() {
    let mut buf = Vec::new();
    modern().encode(&mut buf);
    assert_eq!(GRAPH_BYTES[..], *buf);
}

#[test]
fn decode_gb() {
    let graph = Graph::decode(&GRAPH_BYTES[..], 0).unwrap().0;
    assert_eq!(modern(), graph);
}

#[test]
fn graph_labels_round_trip() {
    let mut g = modern();
    g.edges[0].in_v_label = Some("software".to_string());
    g.edges[0].out_v_label = Some("person".to_string());
    let mut buf = vec![0xaa];
    g.encode(&mut buf);
    assert_eq!(Graph::decode(&buf, 1), Ok((g, buf.len())));
}

#[test]
fn graph_errors() {
    assert_eq!(Graph::decode(&GRAPH_BYTES[..40], 0), Err(DecodeError::UnexpectedEof));
    let mut wrong = GRAPH_BYTES.to_vec();
    wrong[0] = 0x11;
    assert_eq!(Graph::decode(&wrong, 0), Err(DecodeError::TypeMismatch));
    assert_eq!(Graph::decode(&[0x10, 0x00, 0, 0], 0), Err(DecodeError::UnexpectedEof));
    let empty = [0x10, 0x00, 0, 0, 0, 0, 0, 0, 0, 0];
    assert_eq!(Graph::decode(&empty, 0), Ok((Graph { vertices: vec![], edges: vec![] }, 10)));
}
