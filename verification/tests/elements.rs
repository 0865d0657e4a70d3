use gremlin_types::codec::{Decode, PartialDecode};
use gremlin_types::element::{Edge, EitherParent, Path, Property, Vertex, VertexProperty};
use gremlin_types::structure::SetList;
use gremlin_types::error::DecodeError;
use gremlin_types::value::{decode, GremlinValue, MapKeys};

fn edge_bytes() -> Vec<u8> {
    vec![
        0xd, 0x0, 0x1, 0x0, 0x0, 0x0, 0x0, 0x9, 0x0, 0x0, 0x0, 0x7, 0x63, 0x72, 0x65, 0x61, 0x74,
        0x65, 0x64, 0x2, 0x0, 0x0, 0x0, 0x0, 0x0, 0x0, 0x0, 0x0, 0x3, 0x0, 0x0, 0x0, 0x8, 0x73,
        0x6f, 0x66, 0x74, 0x77, 0x61, 0x72, 0x65, 0x2, 0x0, 0x0, 0x0, 0x0, 0x0, 0x0, 0x0, 0x0, 0x1,
        0x0, 0x0, 0x0, 0x6, 0x70, 0x65, 0x72, 0x73, 0x6f, 0x6e, 0xfe, 0x1, 0xfe, 0x1,
    ]
}

fn created_edge() -> Edge {
    Edge {
        id: Box::new(GremlinValue::Int(9)),
        label: "created".to_string(),
        in_v_id: Box::new(GremlinValue::Long(3)),
        in_v_label: "software".to_string(),
        out_v_id: Box::new(GremlinValue::Long(1)),
        out_v_label: "person".to_string(),
        parent: None,
        properties: None,
    }
}

#[test]
fn edge_none_encode_gb() {
    let expected = edge_bytes();
    let e = created_edge();
    let mut buf = Vec::new();
    e.encode(&mut buf);
    assert_eq!(expected, buf[..])
}

#[test]
fn edge_decode_gb() {
    let reader = edge_bytes();
    let p = Edge::decode(&reader[..], 0);
    let expected = created_edge();
    assert_eq!(expected, p.unwrap().0);
}

#[test]
fn vertex_none_encode() {
    let expected = [
        0x11_u8, 0x0, 0x2, 0x0, 0x0, 0x0, 0x0, 0x0, 0x0, 0x0, 0x0, 0x1, 0x0, 0x0, 0x0, 0x6, 0x70,
        0x65, 0x72, 0x73, 0x6f, 0x6e, 0xfe, 0x1,
    ];
    let v = Vertex {
        id: Box::new(GremlinValue::Long(1)),
        label: String::from("person"),
        properties: None,
    };
    let mut buf = Vec::new();
    v.encode(&mut buf);
    assert_eq!(expected, buf[..])
}

#[test]
fn vertex_decode_none() {
    let reader = vec![
        0x11_u8, 0x0, 0x2, 0x0, 0x0, 0x0, 0x0, 0x0, 0x0, 0x0, 0x0, 0x1, 0x0, 0x0, 0x0, 0x6, 0x70,
        0x65, 0x72, 0x73, 0x6f, 0x6e, 0xfe, 0x1,
    ];

    let v = Vertex::decode(&reader[..], 0);
    assert!(v.is_ok());

    let expected = Vertex {
        id: Box::new(GremlinValue::Long(1)),
        label: String::from("person"),
        properties: None,
    };

    assert_eq!(expected, v.unwrap().0)
}

#[test]
fn encode_traverser() {
    let expected = [
        0x21, 0x0, 0x0, 0x0, 0x0, 0x0, 0x0, 0x0, 0x0, 0x3, 0x03, 0x0, 0x0, 0x0, 0x0, 0x3, b'a',
        b'b', b'c',
    ];

    let t = GremlinValue::Traverser { bulk: 3, value: Box::new(GremlinValue::String("abc".into())) };
    let mut writer = Vec::<u8>::new();
    t.encode(&mut writer);
    assert_eq!(expected, &writer[..])
}

#[test]
fn decode_traverser() {
    let reader = vec![
        0x21, 0x0, 0x0, 0x0, 0x0, 0x0, 0x0, 0x0, 0x0, 0x3, 0x03, 0x0, 0x0, 0x0, 0x0, 0x3, b'a',
        b'b', b'c',
    ];

    let expected =
        GremlinValue::Traverser { bulk: 3, value: Box::new(GremlinValue::String("abc".into())) };

    assert_eq!(expected, decode(&reader[..], 0).unwrap().0)
}

fn binding_bytes() -> [u8; 16] {
    [
        0x14_u8, 0x0, 0x0, 0x00, 0x00, 0x04, 0x74, 0x65, 0x73, 0x74, 0x01, 0x00, 0x00, 0x0, 0x0,
        0x01,
    ]
}

fn test_binding() -> GremlinValue {
    GremlinValue::Binding { key: "test".to_string(), value: Box::new(GremlinValue::Int(1)) }
}

#[test]
fn structures_binding_encode_gb() {
    let expected = binding_bytes();
    let mut buf: Vec<u8> = vec![];
    test_binding().encode(&mut buf);
    assert_eq!(expected, &*buf)
}

#[test]
fn structures_binding_decode_gb() {
    let buf = binding_bytes().to_vec();
    let expected = test_binding();
    let b = decode(&buf[..], 0).unwrap().0;
    assert_eq!(expected, b)
}

#[test]
fn binding_binding_encode_gb() {
    let expected = binding_bytes();
    let mut buf: Vec<u8> = vec![];
    let b = test_binding();
    b.encode(&mut buf);
    assert_eq!(expected, &*buf)
}

#[test]
fn binding_binding_decode_gb() {
    let buf = binding_bytes().to_vec();
    let expected = test_binding();
    let b = decode(&buf[..], 0).unwrap().0;
    assert_eq!(expected, b)
}

fn four_fours() -> Vec<u8> {
    vec![
        0x0, 0x0, 0x0, 0x04, 0x01, 0x0, 0x0, 0x0, 0x0, 0x04, 0x01, 0x0, 0x0, 0x0, 0x0, 0x04, 0x01,
        0x0, 0x0, 0x0, 0x0, 0x04, 0x01, 0x0, 0x0, 0x0, 0x0, 0x04,
    ]
}

#[test]
fn std_collections_vec_decode_test() {
    let reader = four_fours();
    let s = Vec::<GremlinValue>::partial_decode(&reader[..], 0);

    assert!(s.is_ok());
    let s = s.unwrap().0;
    assert_eq!(4, s.len());
    for gb in s {
        assert_eq!(
            4,
            match gb {
                GremlinValue::Int(s) => s,
                _ => panic!(),
            }
        )
    }
}

#[test]
fn list_vec_decode_test() {
    let reader = four_fours();
    let s = Vec::<GremlinValue>::partial_decode(&reader[..], 0);

    assert!(s.is_ok());
    let s = s.unwrap().0;
    assert_eq!(4, s.len());
    for gb in s {
        assert_eq!(
            4,
            match gb {
                GremlinValue::Int(s) => s,
                _ => panic!(),
            }
        )
    }
}

#[test]
fn vec_consume_bytes() {
    let reader = four_fours();
    let s = Vec::<GremlinValue>::get_partial_len(&reader);

    assert!(s.is_ok());
    let s = s.unwrap();
    assert_eq!(reader.len(), s);
}

fn single_entry_map() -> GremlinValue {
    GremlinValue::MapValue(vec![(MapKeys::Int(1), GremlinValue::String("test".to_owned()))])
}

fn single_entry_bytes() -> [u8; 22] {
    [
        0x0a, 0x0, 0x0, 0x0, 0x0, 0x1, 0x01, 0x0, 0x0, 0x0, 0x0, 0x1, 0x3, 0x0, 0x0, 0x0, 0x0, 0x4,
        0x74, 0x65, 0x73, 0x74,
    ]
}

fn nested_map() -> GremlinValue {
    GremlinValue::MapValue(vec![(MapKeys::Int(1), single_entry_map())])
}

fn nested_bytes() -> [u8; 34] {
    [
        0x0a, 0x0, 0x0, 0x0, 0x0, 0x1, 0x01, 0x0, 0x0, 0x0, 0x0, 0x1, 0x0a, 0x0, 0x0, 0x0, 0x0,
        0x1, 0x01, 0x0, 0x0, 0x0, 0x0, 0x1, 0x3, 0x0, 0x0, 0x0, 0x0, 0x4, b't', b'e', b's', b't',
    ]
}

#[test]
fn encode_hashmap() {
    let map = single_entry_map();
    let mut buf: Vec<u8> = vec![];
    map.encode(&mut buf);
    assert_eq!(single_entry_bytes()[..], buf);
}

#[test]
fn std_collections_testing_nestet_map() {
    let map = nested_map();
    let mut buf: Vec<u8> = vec![];
    map.encode(&mut buf);
    assert_eq!(nested_bytes()[..], buf);
}

#[test]
fn testing_map() {
    let map = single_entry_map();
    let mut buf: Vec<u8> = vec![];
    map.encode(&mut buf);
    assert_eq!(single_entry_bytes()[..], buf);
}

#[test]
fn map_testing_nestet_map() {
    let map = nested_map();
    let mut buf: Vec<u8> = vec![];
    map.encode(&mut buf);
    assert_eq!(nested_bytes()[..], buf);
}

fn marko() -> Vertex {
    Vertex::new(
        GremlinValue::Long(1),
        "person",
        Some(vec![
            VertexProperty::new(
                GremlinValue::Long(0),
                "name",
                GremlinValue::String("marko".into()),
                None,
                Some(Vec::new()),
            ),
            VertexProperty::new(GremlinValue::Long(2), "age", GremlinValue::Int(29), None, None),
        ]),
    )
}

#[test]
fn vertex_with_properties_round_trip() {
    let v = marko();
    let mut buf = Vec::new();
    v.encode(&mut buf);
    assert_eq!(&buf[..2], &[0x11, 0x00]);
    assert_eq!(Vertex::decode(&buf, 0), Ok((marko(), buf.len())));
    assert_eq!(decode(&buf, 0), Ok((GremlinValue::Vertex(marko()), buf.len())));
    assert_eq!(Vertex::get_len(&buf), Ok(buf.len()));
}

#[test]
fn edge_with_parent_and_properties_round_trip() {
    let mut e = Edge::new("knows");
    e.out_vertex(marko());
    e.in_v(GremlinValue::Long(2), "person");
    e.id = Box::new(GremlinValue::Int(7));
    e.parent = Some(marko());
    e.properties = Some(vec![Property::new("weight", GremlinValue::Int(5), EitherParent::NoParent)]);
    let mut buf = Vec::new();
    e.encode(&mut buf);
    let (back, n) = Edge::decode(&buf, 0).unwrap();
    assert_eq!(n, buf.len());
    assert_eq!(back, e);
    assert_eq!(back.out_v_label, "person");
    assert_eq!(*back.out_v_id, GremlinValue::Long(1));
}

#[test]
fn property_of_a_vertex_property_round_trip() {
    let vp = VertexProperty::new(GremlinValue::Long(3), "name", GremlinValue::String("vadas".into()), None, None);
    let p = Property::new("since", GremlinValue::Int(123), EitherParent::VertexProperty(vp));
    let mut buf = Vec::new();
    p.encode(&mut buf);
    assert_eq!(buf[0], 0x0f);
    assert_eq!(Property::decode(&buf, 0), Ok((p.clone(), buf.len())));
    assert_eq!(decode(&buf, 0), Ok((GremlinValue::Property(p), buf.len())));
}

#[test]
fn element_decode_errors() {
    // A vertex read where an edge is expected.
    let v = [
        0x11_u8, 0x0, 0x2, 0x0, 0x0, 0x0, 0x0, 0x0, 0x0, 0x0, 0x0, 0x1, 0x0, 0x0, 0x0, 0x6, 0x70,
        0x65, 0x72, 0x73, 0x6f, 0x6e, 0xfe, 0x1,
    ];
    assert_eq!(Edge::decode(&v, 0), Err(DecodeError::TypeMismatch));
    // A vertex whose property list has a bad value flag.
    let mut bad = v.to_vec();
    let n = bad.len();
    bad[n - 2] = 0x09;
    bad[n - 1] = 0x05;
    assert_eq!(Vertex::decode(&bad, 0), Err(DecodeError::InvalidValueFlag));
    // A vertex cut short.
    assert_eq!(Vertex::decode(&v[..10], 0), Err(DecodeError::UnexpectedEof));
    // A property whose parent is a plain integer.
    let p = [0x0f_u8, 0x0, 0x0, 0x0, 0x0, 0x1, b'k', 0x01, 0x0, 0x0, 0x0, 0x0, 0x1, 0x01, 0x0, 0x0, 0x0, 0x0, 0x2];
    assert_eq!(Property::decode(&p, 0), Err(DecodeError::TypeMismatch));
}

#[test]
fn element_accessors() {
    let v = marko();
    assert_eq!(v.id(), &GremlinValue::Long(1));
    assert_eq!(v.label(), "person");
    let mut e = Edge::new("created");
    assert_eq!(*e.id, GremlinValue::UnspecifiedNullObject);
    e.in_vertex(Vertex::new(GremlinValue::Long(3), "software", None));
    e.out_v(GremlinValue::Long(1), "person");
    assert_eq!(*e.in_v_id, GremlinValue::Long(3));
    assert_eq!(e.in_v_label, "software");
    assert_eq!(e.out_v_label, "person");
}

fn path_bytes() -> Vec<u8> {
    vec![
        0xe_u8, 0x0, 0x9, 0x0, 0x0, 0x0, 0x0, 0x3, 0xb, 0x0, 0x0, 0x0, 0x0, 0x0, 0xb, 0x0, 0x0,
        0x0, 0x0, 0x0, 0xb, 0x0, 0x0, 0x0, 0x0, 0x0, 0x9, 0x0, 0x0, 0x0, 0x0, 0x3, 0x3, 0x0, 0x0,
        0x0, 0x0, 0x5, 0x6d, 0x61, 0x72, 0x6b, 0x6f, 0x1, 0x0, 0x0, 0x0, 0x0, 0x20, 0x3, 0x0, 0x0,
        0x0, 0x0, 0x6, 0x72, 0x69, 0x70, 0x70, 0x6c, 0x65,
    ]
}

fn marko_ripple() -> Path {
    Path {
        labels: vec![SetList::new(vec![]), SetList::new(vec![]), SetList::new(vec![])],
        objects: vec![
            GremlinValue::String("marko".into()),
            GremlinValue::Int(32),
            GremlinValue::String("ripple".into()),
        ],
    }
}

#[test]
fn path_encode() {
    let expected = path_bytes();
    let path = marko_ripple();
    let mut buf = Vec::new();
    path.encode(&mut buf);
    assert_eq!(&expected[..], &buf)
}

#[test]
fn path_decode() {
    let expecetd = marko_ripple();
    let buf = path_bytes();
    let path = Path::decode(&buf[..], 0).unwrap().0;
    assert_eq!(expecetd, path)
}

#[test]
fn test_encode() {
    let expected = path_bytes();
    let path = marko_ripple();
    let mut buf = Vec::new();
    path.encode(&mut buf);
    assert_eq!(&expected[..], &buf)
}

#[test]
fn test_decode() {
    let expecetd = marko_ripple();
    let buf = path_bytes();
    let path = Path::decode(&buf[..], 0).unwrap().0;
    assert_eq!(expecetd, path)
}

#[test]
fn labelled_path_round_trip() {
    let p = Path {
        labels: vec![SetList::new(vec!["a".to_string(), "b".to_string()]), SetList::new(vec![])],
        objects: vec![GremlinValue::Long(1), GremlinValue::Vertex(marko())],
    };
    let mut buf = Vec::new();
    p.encode(&mut buf);
    assert_eq!(decode(&buf, 0), Ok((GremlinValue::Path(p.clone()), buf.len())));
    // The codes in front of the label sets are not looked at.
    let mut other = buf.clone();
    other[2] = 0x42;
    other[8] = 0x43;
    assert_eq!(Path::decode(&other, 0), Ok((p, buf.len())));
}
