use gremlin_types::element::{Edge, EitherParent, Path, Property, Vertex, VertexProperty};
use gremlin_types::error::GraphSonError;
use gremlin_types::json::Json;
use gremlin_types::structure::{Lambda, SetList};
use gremlin_types::value::{GremlinValue, MapKeys};

fn from_serde(v: &serde_json::Value) -> Json {
    match v {
        serde_json::Value::Null => Json::Null,
        serde_json::Value::Bool(b) => Json::Bool(*b),
        serde_json::Value::Number(n) => match n.as_i64() {
            Some(i) => Json::Int(i),
            None => Json::Double(n.as_f64().unwrap().to_bits()),
        },
        serde_json::Value::String(s) => Json::Str(s.clone()),
        serde_json::Value::Array(xs) => Json::Array(xs.iter().map(from_serde).collect()),
        serde_json::Value::Object(ms) => {
            Json::Object(ms.iter().map(|(k, x)| (k.clone(), from_serde(x))).collect())
        }
    }
}

fn to_serde(j: &Json) -> serde_json::Value {
    match j {
        Json::Null => serde_json::Value::Null,
        Json::Bool(b) => serde_json::Value::Bool(*b),
        Json::Int(i) => serde_json::Value::from(*i),
        Json::Double(bits) => serde_json::Value::from(f64::from_bits(*bits)),
        Json::Float(bits) => serde_json::Value::from(f64::from(f32::from_bits(*bits))),
        Json::Str(s) => serde_json::Value::String(s.clone()),
        Json::Array(xs) => serde_json::Value::Array(xs.iter().map(to_serde).collect()),
        Json::Object(ms) => {
            serde_json::Value::Object(ms.iter().map(|(k, x)| (k.clone(), to_serde(x))).collect())
        }
    }
}

fn decode(text: &str) -> Result<GremlinValue, GraphSonError> {
    let v: serde_json::Value = serde_json::from_str(text).unwrap();
    GremlinValue::decode_v3(&from_serde(&v))
}

fn encode(v: &GremlinValue) -> String {
    serde_json::to_string(&to_serde(&v.encode_v3())).unwrap()
}

fn since() -> Property {
    Property {
        key: "since".to_string(),
        value: Box::new(GremlinValue::Int(2009)),
        parent: EitherParent::NoParent,
    }
}

fn develops(properties: Option<Vec<Property>>) -> Edge {
    Edge {
        id: Box::new(GremlinValue::Int(13)),
        label: "develops".to_string(),
        in_v_id: Box::new(GremlinValue::Int(10)),
        in_v_label: "software".to_string(),
        out_v_id: Box::new(GremlinValue::Int(1)),
        out_v_label: "person".to_string(),
        parent: None,
        properties,
    }
}

fn three_vertex_path() -> Path {
    Path {
        labels: vec![SetList(vec![]), SetList(vec![]), SetList(vec![])],
        objects: vec![
            GremlinValue::Vertex(Vertex::new(GremlinValue::Int(1), "person", None)),
            GremlinValue::Vertex(Vertex::new(GremlinValue::Int(10), "sofware", None)),
            GremlinValue::Vertex(Vertex::new(GremlinValue::Int(11), "software", None)),
        ],
    }
}

#[test]
fn edge_encode_v3() {
    let e = GremlinValue::Edge(develops(Some(vec![since()])));
    let expected = r#"{"@type":"g:Edge","@value":{"id":{"@type":"g:Int32","@value":13},"inV":{"@type":"g:Int32","@value":10},"inVLabel":"software","label":"develops","outV":{"@type":"g:Int32","@value":1},"outVLabel":"person","properties":{"since":{"@type":"g:Property","@value":{"key":"since","value":{"@type":"g:Int32","@value":2009}}}}}}"#;
    assert_eq!(encode(&e), expected)
}

#[test]
fn edge_encode_v3_without_props() {
    let e = GremlinValue::Edge(develops(None));
    let expected = r#"{"@type":"g:Edge","@value":{"id":{"@type":"g:Int32","@value":13},"inV":{"@type":"g:Int32","@value":10},"inVLabel":"software","label":"develops","outV":{"@type":"g:Int32","@value":1},"outVLabel":"person"}}"#;
    assert_eq!(encode(&e), expected)
}

#[test]
fn edge_decode_v3() {
    let input = r#"{
        "@type" : "g:Edge",
        "@value" : {
          "id" : { "@type" : "g:Int32", "@value" : 13 },
          "label" : "develops",
          "inVLabel" : "software",
          "outVLabel" : "person",
          "inV" : { "@type" : "g:Int32", "@value" : 10 },
          "outV" : { "@type" : "g:Int32", "@value" : 1 },
          "properties" : {
            "since" : {
              "@type" : "g:Property",
              "@value" : {
                "key" : "since",
                "value" : { "@type" : "g:Int32", "@value" : 2009 }
              }
            }
          }
        }
      }"#;
    assert_eq!(decode(input), Ok(GremlinValue::Edge(develops(Some(vec![since()])))))
}

#[test]
fn edge_decode_v3_without_props() {
    let input = r#"{
        "@type" : "g:Edge",
        "@value" : {
          "id" : { "@type" : "g:Int32", "@value" : 13 },
          "label" : "develops",
          "inVLabel" : "software",
          "outVLabel" : "person",
          "inV" : { "@type" : "g:Int32", "@value" : 10 },
          "outV" : { "@type" : "g:Int32", "@value" : 1 }
        }
      }"#;
    assert_eq!(decode(input), Ok(GremlinValue::Edge(develops(None))))
}

#[test]
fn lambda_encode_v3() {
    let l = GremlinValue::Lambda(Lambda {
        language: "gremlin-groovy".to_string(),
        script: "{ it.get() }".to_string(),
        arguments_length: 1,
    });
    let s = to_serde(&l.encode_v3());
    let res = serde_json::to_string(&s).unwrap();
    let v: serde_json::Value = serde_json::from_str(&res).unwrap();
    assert_eq!(s, v);
    assert_eq!(
        res,
        r#"{"@type":"g:Lambda","@value":{"arguments":1,"language":"gremlin-groovy","script":"{ it.get() }"}}"#
    );
}

#[test]
fn lambda_decode_v3() {
    let s = r#"{
        "@type" : "g:Lambda",
        "@value" : {
          "script" : "{ it.get() }",
          "language" : "gremlin-groovy",
          "arguments" : 1
        }
      }"#;
    let expected = GremlinValue::Lambda(Lambda {
        language: "gremlin-groovy".to_string(),
        script: "{ it.get() }".to_string(),
        arguments_length: 1,
    });
    assert_eq!(decode(s), Ok(expected));
}

#[test]
fn path_encode_v3() {
    let p = GremlinValue::Path(three_vertex_path());
    let expected = r#"{"@type":"g:Path","@value":{"labels":{"@type":"g:List","@value":[{"@type":"g:Set","@value":[]},{"@type":"g:Set","@value":[]},{"@type":"g:Set","@value":[]}]},"objects":{"@type":"g:List","@value":[{"@type":"g:Vertex","@value":{"id":{"@type":"g:Int32","@value":1},"label":"person"}},{"@type":"g:Vertex","@value":{"id":{"@type":"g:Int32","@value":10},"label":"sofware"}},{"@type":"g:Vertex","@value":{"id":{"@type":"g:Int32","@value":11},"label":"software"}}]}}}"#;
    assert_eq!(encode(&p), expected)
}

#[test]
fn path_decode_v3() {
    let s = r#"{"@type":"g:Path","@value":{"labels":{"@type":"g:List","@value":[{"@type":"g:Set","@value":[]},{"@type":"g:Set","@value":[]},{"@type":"g:Set","@value":[]}]},"objects":{"@type":"g:List","@value":[{"@type":"g:Vertex","@value":{"id":{"@type":"g:Int32","@value":1},"label":"person"}},{"@type":"g:Vertex","@value":{"id":{"@type":"g:Int32","@value":10},"label":"sofware"}},{"@type":"g:Vertex","@value":{"id":{"@type":"g:Int32","@value":11},"label":"software"}}]}}}"#;
    assert_eq!(decode(s), Ok(GremlinValue::Path(three_vertex_path())))
}

#[test]
fn property_decode_v3() {
    let s = r#"{
        "@type" : "g:Property",
        "@value" : {
          "key" : "since",
          "value" : { "@type" : "g:Int32", "@value" : 2009 }
        }
      }"#;
    assert_eq!(decode(s), Ok(GremlinValue::Property(since())))
}

#[test]
fn property_encode_v3() {
    let expected = r#"{"@type":"g:Property","@value":{"key":"since","value":{"@type":"g:Int32","@value":2009}}}"#;
    assert_eq!(encode(&GremlinValue::Property(since())), expected)
}

#[test]
fn vec_decode_graphson_v3() {
    let s = r#"{
        "@type" : "g:List",
        "@value" : [ { "@type" : "g:Int32", "@value" : 1 }, { "@type" : "g:Int32", "@value" : 2 } ]
      }"#;
    assert_eq!(
        decode(s),
        Ok(GremlinValue::List(vec![GremlinValue::Int(1), GremlinValue::Int(2)]))
    );
}

#[test]
fn vec_encode_graphson_v3() {
    let expected = r#"{"@type":"g:List","@value":[{"@type":"g:Int32","@value":1},{"@type":"g:Int32","@value":2}]}"#;
    let v = GremlinValue::List(vec![GremlinValue::Int(1), GremlinValue::Int(2)]);
    assert_eq!(expected, encode(&v));
}

#[test]
fn empty_vec_decode_graphson_v3() {
    let s = r#"{
        "@type" : "g:List",
        "@value" : []
      }"#;
    assert_eq!(decode(s), Ok(GremlinValue::List(vec![])));
}

#[test]
fn vec_empty_encode_graphson_v3() {
    assert_eq!(r#"{"@type":"g:List","@value":[]}"#, encode(&GremlinValue::List(vec![])));
}

#[test]
fn vec_decode_graphson_v3_error() {
    let s = r#"{
        "@type" : "g:List",
        "@value" : [ { "@type" : "g:Int32", "@value" : 1 }, { "@type" : "g:Error", "@value" : 2 } ]
      }"#;
    assert!(decode(s).is_err());
    assert_eq!(decode(s), Err(GraphSonError::WrongTypeIdentifier));
}

#[test]
fn map_decode_graphson_v3() {
    let s = r#"{"@type":"g:Map","@value":["dur",{"@type":"g:Double","@value":1.0},"less",{
            "@type" : "g:Double",
            "@value" : 0.0
          } ]
        }
        "#;
    let expected = GremlinValue::MapValue(vec![
        (MapKeys::String("dur".to_string()), GremlinValue::Double(1.0f64.to_bits())),
        (MapKeys::String("less".to_string()), GremlinValue::Double(0.0f64.to_bits())),
    ]);
    assert_eq!(decode(s), Ok(expected));
}

#[test]
fn map_encode_graphson_v3() {
    let expected = r#"{"@type":"g:Map","@value":["dur",{"@type":"g:Double","@value":1.0}]}"#;
    let m = GremlinValue::MapValue(vec![(
        MapKeys::String("dur".to_string()),
        GremlinValue::Double(1.0f64.to_bits()),
    )]);
    assert_eq!(expected, encode(&m));
}

#[test]
fn empty_map_decode_graphson_v3() {
    let s = r#"{
        "@type" : "g:Map",
        "@value" : []
      }"#;
    assert_eq!(decode(s), Ok(GremlinValue::MapValue(vec![])));
}

#[test]
fn map_empty_encode_graphson_v3() {
    assert_eq!(r#"{"@type":"g:Map","@value":[]}"#, encode(&GremlinValue::MapValue(vec![])));
}

#[test]
fn map_decode_graphson_v3_error() {
    let s = r#"{
        "@type" : "g:Map",
        "@value" : [ { "@type" : "g:Int32", "@value" : 1 }, { "@type" : "g:Error", "@value" : 2 } ]
      }"#;
    assert!(decode(s).is_err());
}

#[test]
fn graphson_scalars_encode_v3() {
    assert_eq!(encode(&GremlinValue::Int(1)), r#"{"@type":"g:Int32","@value":1}"#);
    assert_eq!(encode(&GremlinValue::Long(-7)), r#"{"@type":"g:Int64","@value":-7}"#);
    assert_eq!(encode(&GremlinValue::String("a".to_string())), r#""a""#);
    assert_eq!(encode(&GremlinValue::Boolean(true)), "true");
    assert_eq!(encode(&GremlinValue::UnspecifiedNullObject), "null");
    assert_eq!(encode(&GremlinValue::Short(3)), r#"{"@type":"gx:Int16","@value":3}"#);
    assert_eq!(encode(&GremlinValue::Byte(200)), r#"{"@type":"gx:Byte","@value":200}"#);
    assert_eq!(encode(&GremlinValue::Date(5)), r#"{"@type":"g:Date","@value":5}"#);
}

#[test]
fn graphson_scalars_round_trip_v3() {
    let values = vec![
        GremlinValue::Int(-3),
        GremlinValue::Long(1 << 40),
        GremlinValue::String("text".to_string()),
        GremlinValue::Boolean(false),
        GremlinValue::UnspecifiedNullObject,
        GremlinValue::Short(-2),
        GremlinValue::Byte(9),
        GremlinValue::Date(10),
        GremlinValue::Timestamp(11),
        GremlinValue::Class("java.lang.String".to_string()),
        GremlinValue::Double(2.5f64.to_bits()),
        GremlinValue::Char('x'),
        GremlinValue::Uuid(0x41d2e28a_20a4_4ab0_b379_d810dede3786),
    ];
    for v in values {
        let j = v.encode_v3();
        assert_eq!(GremlinValue::decode_v3(&j), Ok(v));
    }
}

#[test]
fn graphson_uuid_text_v3() {
    let v = GremlinValue::Uuid(0x41d2e28a_20a4_4ab0_b379_d810dede3786);
    assert_eq!(encode(&v), r#"{"@type":"g:UUID","@value":"41d2e28a-20a4-4ab0-b379-d810dede3786"}"#);
    let bad = r#"{"@type":"g:UUID","@value":"not a uuid"}"#;
    assert_eq!(decode(bad), Err(GraphSonError::InvalidUuid));
}

#[test]
fn graphson_errors_v3() {
    assert_eq!(decode(r#"{"@value":1}"#), Err(GraphSonError::KeyNotFound));
    assert_eq!(decode(r#"{"@type":"g:Nothing","@value":1}"#), Err(GraphSonError::WrongTypeIdentifier));
    assert_eq!(decode(r#"{"@type":"g:Bytecode","@value":{}}"#), Err(GraphSonError::UnsupportedType));
    assert_eq!(decode(r#"{"@type":"g:Int32","@value":"1"}"#), Err(GraphSonError::WrongJsonType));
    assert_eq!(decode("1"), Err(GraphSonError::WrongJsonType));
    assert_eq!(decode(r#"{"@type":"g:Direction","@value":"SIDEWAYS"}"#), Err(GraphSonError::UnknownEnumValue));
    assert_eq!(
        decode(r#"{"@type":"g:Map","@value":[{"@type":"g:List","@value":[]},1]}"#),
        Err(GraphSonError::InvalidMapKey)
    );
}

#[test]
fn graphson_traverser_v3() {
    let s = r#"{"@type":"g:Traverser","@value":{"bulk":{"@type":"g:Int64","@value":2},"value":"a"}}"#;
    let t = GremlinValue::Traverser { bulk: 2, value: Box::new(GremlinValue::String("a".to_string())) };
    assert_eq!(decode(s), Ok(t));
}

#[test]
fn graphson_nested_round_trip_v3() {
    let v = GremlinValue::MapValue(vec![
        (
            MapKeys::String("xs".to_string()),
            GremlinValue::List(vec![GremlinValue::Int(1), GremlinValue::List(vec![]), GremlinValue::Boolean(true)]),
        ),
        (MapKeys::Int(7), GremlinValue::MapValue(vec![(MapKeys::Long(-1), GremlinValue::Short(4))])),
        (MapKeys::Long(9), GremlinValue::UnspecifiedNullObject),
    ]);
    let j = v.encode_v3();
    assert_eq!(GremlinValue::decode_v3(&j), Ok(v));
}

#[test]
fn graphson_map_text_v3() {
    let v = GremlinValue::MapValue(vec![
        (MapKeys::Int(1), GremlinValue::String("a".to_string())),
        (MapKeys::Long(2), GremlinValue::List(vec![GremlinValue::Byte(3)])),
    ]);
    let expected = r#"{"@type":"g:Map","@value":[{"@type":"g:Int32","@value":1},"a",{"@type":"g:Int64","@value":2},{"@type":"g:List","@value":[{"@type":"gx:Byte","@value":3}]}]}"#;
    assert_eq!(encode(&v), expected);
    assert_eq!(decode(expected), Ok(v));
}

#[test]
fn graphson_element_round_trip_v3() {
    let values = vec![
        GremlinValue::Edge(develops(Some(vec![since()]))),
        GremlinValue::Edge(develops(None)),
        GremlinValue::Property(since()),
        GremlinValue::Vertex(Vertex::new(GremlinValue::Long(5), "person", None)),
        GremlinValue::Path(three_vertex_path()),
        GremlinValue::VertexProperty(VertexProperty::new(
            GremlinValue::Int(8),
            "name",
            GremlinValue::String("marko".to_string()),
            None,
            None,
        )),
        GremlinValue::Binding { key: "x".to_string(), value: Box::new(GremlinValue::Long(4)) },
        GremlinValue::Traverser { bulk: 3, value: Box::new(GremlinValue::List(vec![GremlinValue::Int(1)])) },
        GremlinValue::Lambda(Lambda {
            language: "gremlin-groovy".to_string(),
            script: "{ it.get() }".to_string(),
            arguments_length: 1,
        }),
    ];
    for v in values {
        let j = v.encode_v3();
        assert_eq!(GremlinValue::decode_v3(&j), Ok(v));
    }
}
