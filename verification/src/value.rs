use vstd::prelude::*;
use crate::binary::{be_i16, be_i32, be_i64, be_u128, be_u32, be_u64, parse_i16, parse_i32, parse_i64, parse_u32, parse_u64, parse_u8};
use crate::binary::{push_i32, push_i64, push_u32, push_u64, read_u32, read_u64, decode_i32_at, decode_i64_at};
use crate::codec::{decoded, fq_bytes, shift, Decode, Encode, Parsed};
use crate::nullable::encode_null_object;
use crate::primitives::{partial_decode_string, partial_encode_str, str_eq};
use crate::core_type::{CoreType, ValueFlag};
use crate::enums::{Barrier, Cardinality, Column, Direction, Merge, Operator, Order, Pick, Pop, Scope, T};
use crate::error::DecodeError;
use crate::primitives::{bool_byte, parse_bool, parse_char, parse_string, parse_uuid, string_partial_bytes};
use crate::structure::{lambda_partial_bytes, parse_byte_buffer, parse_lambda, ByteBuffer, Lambda, LambdaView};
use crate::codec::{PartialDecode, PartialEncode};
use vstd::utf8::encode_scalar;
use crate::element::{Edge, EitherParent, Path, Property, Vertex, VertexProperty};
use crate::path_labels::{clone_path_labels, decode_path_labels, encode_path_labels, parse_path_labels, path_labels_bytes};

verus! {

// ---------------------------------------------------------------------------
// Values
// ---------------------------------------------------------------------------

/// The values that can be keys of a map.
#[derive(Debug, Clone, PartialEq, Eq, Hash)]
pub enum MapKeys {
    Int(i32),
    String(String),
    Long(i64),
    Uuid(u128),
    T(T),
    Direction(Direction),
}

/// A value of the Gremlin type system. Floating-point numbers are held as their IEEE 754
/// bits; a map is a list of entries whose keys differ; a set is a list of values; a binding
/// is a named value; a traverser is a value with its bulk; a bulk set lists values with their
/// multiplicities.
#[derive(Debug, PartialEq)]
pub enum GremlinValue {
    Int(i32),
    Long(i64),
    String(String),
    Date(i64),
    Timestamp(i64),
    Class(String),
    Double(u64),
    Float(u32),
    List(Vec<GremlinValue>),
    SetValue(Vec<GremlinValue>),
    MapValue(Vec<(MapKeys, GremlinValue)>),
    Uuid(u128),
    Edge(Edge),
    Path(Path),
    Property(Property),
    Vertex(Vertex),
    VertexProperty(VertexProperty),
    Barrier(Barrier),
    Binding { key: String, value: Box<GremlinValue> },
    Cardinality(Cardinality),
    Column(Column),
    Direction(Direction),
    Operator(Operator),
    Order(Order),
    Pick(Pick),
    Pop(Pop),
    Lambda(Lambda),
    Scope(Scope),
    T(T),
    Traverser { bulk: i64, value: Box<GremlinValue> },
    Byte(u8),
    ByteBuffer(ByteBuffer),
    Short(i16),
    Boolean(bool),
    BulkSet(Vec<(GremlinValue, i64)>),
    Merge(Merge),
    UnspecifiedNullObject,
    Char(char),
}

// ---------------------------------------------------------------------------
// The model: values as mathematical objects
// ---------------------------------------------------------------------------

/// What a map key stands for.
pub enum KeyModel {
    Int(i32),
    Str(Seq<char>),
    Long(i64),
    Uuid(u128),
    T(T),
    Direction(Direction),
}

/// What a value stands for: texts as character sequences, collections as sequences.
pub enum GValue {
    Int(i32),
    Long(i64),
    Str(Seq<char>),
    Date(i64),
    Timestamp(i64),
    Class(Seq<char>),
    Double(u64),
    Float(u32),
    List(Seq<GValue>),
    SetValue(Seq<GValue>),
    MapValue(Seq<(KeyModel, GValue)>),
    Uuid(u128),
    Edge {
        id: Box<GValue>,
        label: Seq<char>,
        in_id: Box<GValue>,
        in_label: Seq<char>,
        out_id: Box<GValue>,
        out_label: Seq<char>,
        parent: Option<Box<GValue>>,
        properties: Option<Seq<GValue>>,
    },
    Path { labels: Seq<Seq<Seq<char>>>, objects: Seq<GValue> },
    Property { key: Seq<char>, value: Box<GValue>, parent: Box<GValue> },
    Vertex { id: Box<GValue>, label: Seq<char>, properties: Option<Seq<GValue>> },
    VertexProperty {
        id: Box<GValue>,
        label: Seq<char>,
        value: Box<GValue>,
        parent: Option<Box<GValue>>,
        properties: Option<Seq<GValue>>,
    },
    Barrier(Barrier),
    Binding(Seq<char>, Box<GValue>),
    Cardinality(Cardinality),
    Column(Column),
    Direction(Direction),
    Operator(Operator),
    Order(Order),
    Pick(Pick),
    Pop(Pop),
    Lambda(LambdaView),
    Scope(Scope),
    T(T),
    Traverser(i64, Box<GValue>),
    Byte(u8),
    ByteBuffer(Seq<u8>),
    Short(i16),
    Boolean(bool),
    BulkSet(Seq<(GValue, i64)>),
    Merge(Merge),
    Null,
    Char(char),
}

/// The model of a map key.
pub open spec fn key_view(k: MapKeys) -> KeyModel {
    match k {
        MapKeys::Int(x) => KeyModel::Int(x),
        MapKeys::String(s) => KeyModel::Str(s@),
        MapKeys::Long(x) => KeyModel::Long(x),
        MapKeys::Uuid(x) => KeyModel::Uuid(x),
        MapKeys::T(x) => KeyModel::T(x),
        MapKeys::Direction(x) => KeyModel::Direction(x),
    }
}

/// The model of a value.
pub open spec fn value_view(v: GremlinValue) -> GValue
    decreases v,
{
    match v {
        GremlinValue::Int(x) => GValue::Int(x),
        GremlinValue::Long(x) => GValue::Long(x),
        GremlinValue::String(s) => GValue::Str(s@),
        GremlinValue::Date(x) => GValue::Date(x),
        GremlinValue::Timestamp(x) => GValue::Timestamp(x),
        GremlinValue::Class(s) => GValue::Class(s@),
        GremlinValue::Double(x) => GValue::Double(x),
        GremlinValue::Float(x) => GValue::Float(x),
        GremlinValue::List(xs) => GValue::List(values_view(xs@)),
        GremlinValue::SetValue(xs) => GValue::SetValue(values_view(xs@)),
        GremlinValue::MapValue(es) => GValue::MapValue(entries_view(es@)),
        GremlinValue::Uuid(x) => GValue::Uuid(x),
        GremlinValue::Edge(e) => edge_view(e),
        GremlinValue::Path(p) => path_view(p),
        GremlinValue::Property(p) => property_view(p),
        GremlinValue::Vertex(v) => vertex_view(v),
        GremlinValue::VertexProperty(p) => vertex_property_view(p),
        GremlinValue::Barrier(x) => GValue::Barrier(x),
        GremlinValue::Binding { key, value } => GValue::Binding(key@, Box::new(value_view(*value))),
        GremlinValue::Cardinality(x) => GValue::Cardinality(x),
        GremlinValue::Column(x) => GValue::Column(x),
        GremlinValue::Direction(x) => GValue::Direction(x),
        GremlinValue::Operator(x) => GValue::Operator(x),
        GremlinValue::Order(x) => GValue::Order(x),
        GremlinValue::Pick(x) => GValue::Pick(x),
        GremlinValue::Pop(x) => GValue::Pop(x),
        GremlinValue::Lambda(l) => GValue::Lambda(l.deep_view()),
        GremlinValue::Scope(x) => GValue::Scope(x),
        GremlinValue::T(x) => GValue::T(x),
        GremlinValue::Traverser { bulk, value } => GValue::Traverser(bulk, Box::new(value_view(*value))),
        GremlinValue::Byte(x) => GValue::Byte(x),
        GremlinValue::ByteBuffer(b) => GValue::ByteBuffer(b.deep_view()),
        GremlinValue::Short(x) => GValue::Short(x),
        GremlinValue::Boolean(x) => GValue::Boolean(x),
        GremlinValue::BulkSet(items) => GValue::BulkSet(bulk_view(items@)),
        GremlinValue::Merge(x) => GValue::Merge(x),
        GremlinValue::UnspecifiedNullObject => GValue::Null,
        GremlinValue::Char(c) => GValue::Char(c),
    }
}

/// The models of a sequence of values.
pub open spec fn values_view(s: Seq<GremlinValue>) -> Seq<GValue>
    decreases s,
{
    if s.len() == 0 {
        seq![]
    } else {
        values_view(s.subrange(0, s.len() - 1)).push(value_view(s[s.len() - 1]))
    }
}

/// The models of the entries of a map.
pub open spec fn entries_view(s: Seq<(MapKeys, GremlinValue)>) -> Seq<(KeyModel, GValue)>
    decreases s,
{
    if s.len() == 0 {
        seq![]
    } else {
        entries_view(s.subrange(0, s.len() - 1)).push(
            (key_view(s[s.len() - 1].0), value_view(s[s.len() - 1].1)),
        )
    }
}

/// The models of the items of a bulk set.
pub open spec fn bulk_view(s: Seq<(GremlinValue, i64)>) -> Seq<(GValue, i64)>
    decreases s,
{
    if s.len() == 0 {
        seq![]
    } else {
        bulk_view(s.subrange(0, s.len() - 1)).push((value_view(s[s.len() - 1].0), s[s.len() - 1].1))
    }
}

/// The model of a vertex.
pub open spec fn vertex_view(v: Vertex) -> GValue
    decreases v,
{
    GValue::Vertex {
        id: Box::new(value_view(*v.id)),
        label: v.label@,
        properties: match v.properties {
            Some(ps) => Some(vertex_properties_view(ps@)),
            None => None,
        },
    }
}

/// The model of a vertex property.
pub open spec fn vertex_property_view(p: VertexProperty) -> GValue
    decreases p,
{
    GValue::VertexProperty {
        id: Box::new(value_view(*p.id)),
        label: p.label@,
        value: Box::new(value_view(*p.value)),
        parent: match p.parent {
            Some(v) => Some(Box::new(vertex_view(v))),
            None => None,
        },
        properties: match p.properties {
            Some(ps) => Some(properties_view(ps@)),
            None => None,
        },
    }
}

/// The model of a path.
pub open spec fn path_view(p: Path) -> GValue
    decreases p,
{
    GValue::Path { labels: p.labels.deep_view(), objects: values_view(p.objects@) }
}

/// The model of a property.
pub open spec fn property_view(p: Property) -> GValue
    decreases p,
{
    GValue::Property {
        key: p.key@,
        value: Box::new(value_view(*p.value)),
        parent: Box::new(parent_view(p.parent)),
    }
}

/// The model of the element a property belongs to: the null object where none is known.
pub open spec fn parent_view(p: EitherParent) -> GValue
    decreases p,
{
    match p {
        EitherParent::Edge(e) => edge_view(e),
        EitherParent::VertexProperty(vp) => vertex_property_view(vp),
        EitherParent::NoParent => GValue::Null,
    }
}

/// The model of an edge.
pub open spec fn edge_view(e: Edge) -> GValue
    decreases e,
{
    GValue::Edge {
        id: Box::new(value_view(*e.id)),
        label: e.label@,
        in_id: Box::new(value_view(*e.in_v_id)),
        in_label: e.in_v_label@,
        out_id: Box::new(value_view(*e.out_v_id)),
        out_label: e.out_v_label@,
        parent: match e.parent {
            Some(v) => Some(Box::new(vertex_view(v))),
            None => None,
        },
        properties: match e.properties {
            Some(ps) => Some(properties_view(ps@)),
            None => None,
        },
    }
}

/// The models of a sequence of vertex properties.
pub open spec fn vertex_properties_view(s: Seq<VertexProperty>) -> Seq<GValue>
    decreases s,
{
    if s.len() == 0 {
        seq![]
    } else {
        vertex_properties_view(s.subrange(0, s.len() - 1)).push(vertex_property_view(s[s.len() - 1]))
    }
}

/// The models of a sequence of properties.
pub open spec fn properties_view(s: Seq<Property>) -> Seq<GValue>
    decreases s,
{
    if s.len() == 0 {
        seq![]
    } else {
        properties_view(s.subrange(0, s.len() - 1)).push(property_view(s[s.len() - 1]))
    }
}

impl DeepView for Vertex {
    type V = GValue;

    open spec fn deep_view(&self) -> GValue {
        vertex_view(*self)
    }
}

impl DeepView for VertexProperty {
    type V = GValue;

    open spec fn deep_view(&self) -> GValue {
        vertex_property_view(*self)
    }
}

impl DeepView for Property {
    type V = GValue;

    open spec fn deep_view(&self) -> GValue {
        property_view(*self)
    }
}

impl DeepView for Edge {
    type V = GValue;

    open spec fn deep_view(&self) -> GValue {
        edge_view(*self)
    }
}

impl DeepView for GremlinValue {
    type V = GValue;

    open spec fn deep_view(&self) -> GValue {
        value_view(*self)
    }
}

impl DeepView for MapKeys {
    type V = KeyModel;

    open spec fn deep_view(&self) -> KeyModel {
        key_view(*self)
    }
}

// ---------------------------------------------------------------------------
// The written form
// ---------------------------------------------------------------------------

/// The value that a key stands for.
pub open spec fn key_value(k: KeyModel) -> GValue {
    match k {
        KeyModel::Int(x) => GValue::Int(x),
        KeyModel::Str(s) => GValue::Str(s),
        KeyModel::Long(x) => GValue::Long(x),
        KeyModel::Uuid(x) => GValue::Uuid(x),
        KeyModel::T(x) => GValue::T(x),
        KeyModel::Direction(x) => GValue::Direction(x),
    }
}

/// The key that a value stands for, if it can be one.
pub open spec fn value_key(g: GValue) -> Option<KeyModel> {
    match g {
        GValue::Int(x) => Some(KeyModel::Int(x)),
        GValue::Str(s) => Some(KeyModel::Str(s)),
        GValue::Long(x) => Some(KeyModel::Long(x)),
        GValue::Uuid(x) => Some(KeyModel::Uuid(x)),
        GValue::T(x) => Some(KeyModel::T(x)),
        GValue::Direction(x) => Some(KeyModel::Direction(x)),
        _ => None,
    }
}

/// The fully qualified bytes of a key, written as the value it stands for.
pub open spec fn key_bytes(k: KeyModel) -> Seq<u8> {
    match k {
        KeyModel::Int(x) => fq_bytes(0x01u8, be_i32(x)),
        KeyModel::Str(cs) => fq_bytes(0x03u8, string_partial_bytes(cs)),
        KeyModel::Long(x) => fq_bytes(0x02u8, be_i64(x)),
        KeyModel::Uuid(x) => fq_bytes(0x0cu8, be_u128(x)),
        KeyModel::T(x) => fq_bytes(0x20u8, x.spec_partial_bytes()),
        KeyModel::Direction(x) => fq_bytes(0x18u8, x.spec_partial_bytes()),
    }
}

/// The fully qualified bytes of a value. Dates, timestamps and bulk sets have no written
/// form as values (see `encodable`); the bytes given here for them are never written.
#[verifier::opaque]
pub open spec fn value_bytes(g: GValue) -> Seq<u8>
    decreases g,
{
    match g {
        GValue::Int(x) => fq_bytes(0x01u8, be_i32(x)),
        GValue::Long(x) => fq_bytes(0x02u8, be_i64(x)),
        GValue::Str(cs) => fq_bytes(0x03u8, string_partial_bytes(cs)),
        GValue::Date(x) => fq_bytes(0x04u8, be_i64(x)),
        GValue::Timestamp(x) => fq_bytes(0x05u8, be_i64(x)),
        GValue::Class(cs) => fq_bytes(0x06u8, string_partial_bytes(cs)),
        GValue::Double(x) => fq_bytes(0x07u8, be_u64(x)),
        GValue::Float(x) => fq_bytes(0x08u8, be_u32(x)),
        GValue::List(xs) => fq_bytes(0x09u8, be_i32(xs.len() as i32) + values_bytes(xs)),
        GValue::MapValue(es) => fq_bytes(0x0au8, be_i32(es.len() as i32) + entries_bytes(es)),
        GValue::SetValue(xs) => fq_bytes(0x0bu8, be_i32(xs.len() as i32) + values_bytes(xs)),
        GValue::Uuid(x) => fq_bytes(0x0cu8, be_u128(x)),
        GValue::Edge { id, label, in_id, in_label, out_id, out_label, parent, properties } => fq_bytes(
            0x0du8,
            (value_bytes(*id) + string_partial_bytes(label)) + (value_bytes(*in_id)
                + string_partial_bytes(in_label)) + (value_bytes(*out_id) + string_partial_bytes(
                out_label,
            )) + ((match parent {
                Some(v) => value_bytes(*v),
                None => seq![0xfeu8, 0x01u8],
            }) + (match properties {
                Some(xs) => fq_bytes(0x09u8, be_i32(xs.len() as i32) + values_bytes(xs)),
                None => seq![0xfeu8, 0x01u8],
            })),
        ),
        GValue::Path { labels, objects } => fq_bytes(
            0x0eu8,
            path_labels_bytes(labels) + fq_bytes(
                0x09u8,
                be_i32(objects.len() as i32) + values_bytes(objects),
            ),
        ),
        GValue::Property { key, value, parent } => fq_bytes(
            0x0fu8,
            string_partial_bytes(key) + value_bytes(*value) + value_bytes(*parent),
        ),
        GValue::Vertex { id, label, properties } => fq_bytes(
            0x11u8,
            (value_bytes(*id) + string_partial_bytes(label)) + (match properties {
                Some(xs) => fq_bytes(0x09u8, be_i32(xs.len() as i32) + values_bytes(xs)),
                None => seq![0xfeu8, 0x01u8],
            }),
        ),
        GValue::VertexProperty { id, label, value, parent, properties } => fq_bytes(
            0x12u8,
            (value_bytes(*id) + string_partial_bytes(label)) + value_bytes(*value) + ((match parent {
                Some(v) => value_bytes(*v),
                None => seq![0xfeu8, 0x01u8],
            }) + (match properties {
                Some(xs) => fq_bytes(0x09u8, be_i32(xs.len() as i32) + values_bytes(xs)),
                None => seq![0xfeu8, 0x01u8],
            })),
        ),
        GValue::Barrier(x) => fq_bytes(0x13u8, x.spec_partial_bytes()),
        GValue::Binding(k, v) => fq_bytes(0x14u8, string_partial_bytes(k) + value_bytes(*v)),
        GValue::Cardinality(x) => fq_bytes(0x16u8, x.spec_partial_bytes()),
        GValue::Column(x) => fq_bytes(0x17u8, x.spec_partial_bytes()),
        GValue::Direction(x) => fq_bytes(0x18u8, x.spec_partial_bytes()),
        GValue::Operator(x) => fq_bytes(0x19u8, x.spec_partial_bytes()),
        GValue::Order(x) => fq_bytes(0x1au8, x.spec_partial_bytes()),
        GValue::Pick(x) => fq_bytes(0x1bu8, x.spec_partial_bytes()),
        GValue::Pop(x) => fq_bytes(0x1cu8, x.spec_partial_bytes()),
        GValue::Lambda(l) => fq_bytes(0x1du8, lambda_partial_bytes(l)),
        GValue::Scope(x) => fq_bytes(0x1fu8, x.spec_partial_bytes()),
        GValue::T(x) => fq_bytes(0x20u8, x.spec_partial_bytes()),
        GValue::Traverser(bulk, v) => fq_bytes(0x21u8, be_i64(bulk) + value_bytes(*v)),
        GValue::Byte(x) => fq_bytes(0x24u8, seq![x]),
        GValue::ByteBuffer(bs) => fq_bytes(0x25u8, be_i32(bs.len() as i32) + bs),
        GValue::Short(x) => fq_bytes(0x26u8, be_i16(x)),
        GValue::Boolean(x) => fq_bytes(0x27u8, seq![bool_byte(x)]),
        GValue::BulkSet(items) => fq_bytes(0x2au8, be_i32(items.len() as i32) + bulk_bytes(items)),
        GValue::Merge(x) => fq_bytes(0x2eu8, x.spec_partial_bytes()),
        GValue::Null => seq![0xfeu8, 0x01u8],
        GValue::Char(c) => fq_bytes(0x80u8, encode_scalar(c as u32)),
    }
}

/// The bytes of values written one after another.
pub open spec fn values_bytes(s: Seq<GValue>) -> Seq<u8>
    decreases s,
{
    if s.len() == 0 {
        seq![]
    } else {
        values_bytes(s.subrange(0, s.len() - 1)) + value_bytes(s[s.len() - 1])
    }
}

/// The bytes of map entries: each key as a value, then its value.
pub open spec fn entries_bytes(s: Seq<(KeyModel, GValue)>) -> Seq<u8>
    decreases s,
{
    if s.len() == 0 {
        seq![]
    } else {
        entries_bytes(s.subrange(0, s.len() - 1)) + key_bytes(s[s.len() - 1].0) + value_bytes(
            s[s.len() - 1].1,
        )
    }
}

/// The bytes of bulk set items: each value, then its multiplicity as a 64-bit integer.
pub open spec fn bulk_bytes(s: Seq<(GValue, i64)>) -> Seq<u8>
    decreases s,
{
    if s.len() == 0 {
        seq![]
    } else {
        bulk_bytes(s.subrange(0, s.len() - 1)) + value_bytes(s[s.len() - 1].0) + be_i64(
            s[s.len() - 1].1,
        )
    }
}

// ---------------------------------------------------------------------------
// Maps as lists of entries
// ---------------------------------------------------------------------------

/// The position of the entry with key `k`, if there is one.
pub open spec fn key_index(m: Seq<(KeyModel, GValue)>, k: KeyModel) -> int
    decreases m.len(),
{
    if m.len() == 0 {
        -1
    } else if m[m.len() - 1].0 == k {
        m.len() - 1
    } else {
        key_index(m.subrange(0, m.len() - 1), k)
    }
}

/// A map with `v` at key `k`: the entry of `k` is replaced where there is one, else the
/// entry is added at the end.
pub open spec fn map_insert(m: Seq<(KeyModel, GValue)>, k: KeyModel, v: GValue) -> Seq<
    (KeyModel, GValue),
> {
    let i = key_index(m, k);
    if i >= 0 {
        m.update(i, (k, v))
    } else {
        m.push((k, v))
    }
}

/// The map built by inserting the entries in order.
pub open spec fn map_from_entries(es: Seq<(KeyModel, GValue)>) -> Seq<(KeyModel, GValue)>
    decreases es.len(),
{
    if es.len() == 0 {
        seq![]
    } else {
        map_insert(
            map_from_entries(es.subrange(0, es.len() - 1)),
            es[es.len() - 1].0,
            es[es.len() - 1].1,
        )
    }
}

/// No two entries have the same key.
pub open spec fn keys_distinct(m: Seq<(KeyModel, GValue)>) -> bool {
    forall|i: int, j: int| 0 <= i < j < m.len() ==> m[i].0 != m[j].0
}

// ---------------------------------------------------------------------------
// Reading
// ---------------------------------------------------------------------------

/// Reads a fully qualified value: a type code and a value flag, then the partial form of
/// that type. A null flag gives the null object whatever the type; an unknown type code is
/// `InvalidTypeCode`; a flag other than 0x00 and 0x01 is `InvalidValueFlag`.
pub open spec fn parse_value(s: Seq<u8>) -> Parsed<GValue>
    decreases s.len(), 0int,
{
    if s.len() < 2 {
        Parsed::Fail(DecodeError::UnexpectedEof)
    } else {
        match CoreType::spec_from_code(s[0]) {
            None => Parsed::Fail(DecodeError::InvalidTypeCode),
            Some(ct) => match ValueFlag::spec_from_byte(s[1]) {
                None => Parsed::Fail(DecodeError::InvalidValueFlag),
                Some(ValueFlag::Null) => Parsed::Done(GValue::Null, 2),
                Some(ValueFlag::Present) => shift(parse_partial_value(ct, s.skip(2)), 2),
            },
        }
    }
}

/// Reads the partial form of a value of type `ct`. Types without a reader here are
/// `UnsupportedType`; a tree is not read (the reader gives up); the null object with the
/// set flag is `InvalidValueFlag`.
pub open spec fn parse_partial_value(ct: CoreType, t: Seq<u8>) -> Parsed<GValue>
    decreases t.len(), 5int,
{
    match ct {
        CoreType::List => match parse_value_list(t) {
            Parsed::Done(xs, n) => Parsed::Done(GValue::List(xs), n),
            Parsed::Fail(e) => Parsed::Fail(e),
            Parsed::Abort => Parsed::Abort,
        },
        CoreType::SetType => match parse_value_list(t) {
            Parsed::Done(xs, n) => Parsed::Done(GValue::SetValue(xs), n),
            Parsed::Fail(e) => Parsed::Fail(e),
            Parsed::Abort => Parsed::Abort,
        },
        CoreType::MapType => parse_map(t),
        CoreType::Edge => parse_element(ct, t),
        CoreType::Path => parse_element(ct, t),
        CoreType::Property => parse_element(ct, t),
        CoreType::Vertex => parse_element(ct, t),
        CoreType::VertexProperty => parse_element(ct, t),
        CoreType::Binding => parse_binding(t),
        CoreType::Traverser => parse_traverser(t),
        CoreType::BulkSet => parse_bulk_set(t),
        _ => parse_leaf(ct, t),
    }
}

/// Reads the partial form of a value of type `ct` that holds no other value.
#[verifier::opaque]
pub open spec fn parse_leaf(ct: CoreType, t: Seq<u8>) -> Parsed<GValue> {
    match ct {
        CoreType::Int32 => match parse_i32(t) {
            Parsed::Done(x, n) => Parsed::Done(GValue::Int(x), n),
            Parsed::Fail(e) => Parsed::Fail(e),
            Parsed::Abort => Parsed::Abort,
        },
        CoreType::Long => match parse_i64(t) {
            Parsed::Done(x, n) => Parsed::Done(GValue::Long(x), n),
            Parsed::Fail(e) => Parsed::Fail(e),
            Parsed::Abort => Parsed::Abort,
        },
        CoreType::String => match parse_string(t) {
            Parsed::Done(x, n) => Parsed::Done(GValue::Str(x), n),
            Parsed::Fail(e) => Parsed::Fail(e),
            Parsed::Abort => Parsed::Abort,
        },
        CoreType::Class => match parse_string(t) {
            Parsed::Done(x, n) => Parsed::Done(GValue::Class(x), n),
            Parsed::Fail(e) => Parsed::Fail(e),
            Parsed::Abort => Parsed::Abort,
        },
        CoreType::Double => match parse_u64(t) {
            Parsed::Done(x, n) => Parsed::Done(GValue::Double(x), n),
            Parsed::Fail(e) => Parsed::Fail(e),
            Parsed::Abort => Parsed::Abort,
        },
        CoreType::Float => match parse_u32(t) {
            Parsed::Done(x, n) => Parsed::Done(GValue::Float(x), n),
            Parsed::Fail(e) => Parsed::Fail(e),
            Parsed::Abort => Parsed::Abort,
        },
        CoreType::Uuid => match parse_uuid(t) {
            Parsed::Done(x, n) => Parsed::Done(GValue::Uuid(x), n),
            Parsed::Fail(e) => Parsed::Fail(e),
            Parsed::Abort => Parsed::Abort,
        },
        CoreType::Barrier => match <Barrier as PartialDecode>::spec_parse_partial(t) {
            Parsed::Done(x, n) => Parsed::Done(GValue::Barrier(x), n),
            Parsed::Fail(e) => Parsed::Fail(e),
            Parsed::Abort => Parsed::Abort,
        },
        CoreType::Cardinality => match <Cardinality as PartialDecode>::spec_parse_partial(t) {
            Parsed::Done(x, n) => Parsed::Done(GValue::Cardinality(x), n),
            Parsed::Fail(e) => Parsed::Fail(e),
            Parsed::Abort => Parsed::Abort,
        },
        CoreType::Column => match <Column as PartialDecode>::spec_parse_partial(t) {
            Parsed::Done(x, n) => Parsed::Done(GValue::Column(x), n),
            Parsed::Fail(e) => Parsed::Fail(e),
            Parsed::Abort => Parsed::Abort,
        },
        CoreType::Direction => match <Direction as PartialDecode>::spec_parse_partial(t) {
            Parsed::Done(x, n) => Parsed::Done(GValue::Direction(x), n),
            Parsed::Fail(e) => Parsed::Fail(e),
            Parsed::Abort => Parsed::Abort,
        },
        CoreType::Operator => match <Operator as PartialDecode>::spec_parse_partial(t) {
            Parsed::Done(x, n) => Parsed::Done(GValue::Operator(x), n),
            Parsed::Fail(e) => Parsed::Fail(e),
            Parsed::Abort => Parsed::Abort,
        },
        CoreType::Order => match <Order as PartialDecode>::spec_parse_partial(t) {
            Parsed::Done(x, n) => Parsed::Done(GValue::Order(x), n),
            Parsed::Fail(e) => Parsed::Fail(e),
            Parsed::Abort => Parsed::Abort,
        },
        CoreType::Pick => match <Pick as PartialDecode>::spec_parse_partial(t) {
            Parsed::Done(x, n) => Parsed::Done(GValue::Pick(x), n),
            Parsed::Fail(e) => Parsed::Fail(e),
            Parsed::Abort => Parsed::Abort,
        },
        CoreType::Pop => match <Pop as PartialDecode>::spec_parse_partial(t) {
            Parsed::Done(x, n) => Parsed::Done(GValue::Pop(x), n),
            Parsed::Fail(e) => Parsed::Fail(e),
            Parsed::Abort => Parsed::Abort,
        },
        CoreType::Lambda => match parse_lambda(t) {
            Parsed::Done(x, n) => Parsed::Done(GValue::Lambda(x), n),
            Parsed::Fail(e) => Parsed::Fail(e),
            Parsed::Abort => Parsed::Abort,
        },
        CoreType::Scope => match <Scope as PartialDecode>::spec_parse_partial(t) {
            Parsed::Done(x, n) => Parsed::Done(GValue::Scope(x), n),
            Parsed::Fail(e) => Parsed::Fail(e),
            Parsed::Abort => Parsed::Abort,
        },
        CoreType::T => match <T as PartialDecode>::spec_parse_partial(t) {
            Parsed::Done(x, n) => Parsed::Done(GValue::T(x), n),
            Parsed::Fail(e) => Parsed::Fail(e),
            Parsed::Abort => Parsed::Abort,
        },
        CoreType::Byte => match parse_u8(t) {
            Parsed::Done(x, n) => Parsed::Done(GValue::Byte(x), n),
            Parsed::Fail(e) => Parsed::Fail(e),
            Parsed::Abort => Parsed::Abort,
        },
        CoreType::ByteBuffer => match parse_byte_buffer(t) {
            Parsed::Done(x, n) => Parsed::Done(GValue::ByteBuffer(x), n),
            Parsed::Fail(e) => Parsed::Fail(e),
            Parsed::Abort => Parsed::Abort,
        },
        CoreType::Short => match parse_i16(t) {
            Parsed::Done(x, n) => Parsed::Done(GValue::Short(x), n),
            Parsed::Fail(e) => Parsed::Fail(e),
            Parsed::Abort => Parsed::Abort,
        },
        CoreType::Boolean => match parse_bool(t) {
            Parsed::Done(x, n) => Parsed::Done(GValue::Boolean(x), n),
            Parsed::Fail(e) => Parsed::Fail(e),
            Parsed::Abort => Parsed::Abort,
        },
        CoreType::Merge => match <Merge as PartialDecode>::spec_parse_partial(t) {
            Parsed::Done(x, n) => Parsed::Done(GValue::Merge(x), n),
            Parsed::Fail(e) => Parsed::Fail(e),
            Parsed::Abort => Parsed::Abort,
        },
        CoreType::Char => match parse_char(t) {
            Parsed::Done(x, n) => Parsed::Done(GValue::Char(x), n),
            Parsed::Fail(e) => Parsed::Fail(e),
            Parsed::Abort => Parsed::Abort,
        },
        CoreType::Tree => Parsed::Abort,
        CoreType::UnspecifiedNullObject => Parsed::Fail(DecodeError::InvalidValueFlag),
        _ => Parsed::Fail(DecodeError::UnsupportedType),
    }
}

/// Reads a fully qualified list of values: the list type code with the set flag, then the
/// list; anything else in front is a `TypeMismatch`.
pub open spec fn parse_fq_value_list(s: Seq<u8>) -> Parsed<Seq<GValue>>
    decreases s.len(), 1int,
{
    if s.len() < 2 {
        Parsed::Fail(DecodeError::UnexpectedEof)
    } else if s[0] == 0x09u8 && s[1] == 0x00u8 {
        shift(parse_value_list(s.skip(2)), 2)
    } else {
        Parsed::Fail(DecodeError::TypeMismatch)
    }
}

/// Reads a path: its labels, then its objects as a fully qualified list.
pub open spec fn parse_path(t: Seq<u8>) -> Parsed<GValue>
    decreases t.len(), 3int,
{
    match parse_path_labels(t) {
        Parsed::Done(labels, n1) => if 0 <= n1 <= t.len() {
            match parse_fq_value_list(t.skip(n1)) {
                Parsed::Done(objects, n2) => Parsed::Done(GValue::Path { labels, objects }, n1 + n2),
                Parsed::Fail(e) => Parsed::Fail(e),
                Parsed::Abort => Parsed::Abort,
            }
        } else {
            Parsed::Fail(DecodeError::UnexpectedEof)
        },
        Parsed::Fail(e) => Parsed::Fail(e),
        Parsed::Abort => Parsed::Abort,
    }
}

/// Reads the partial form of a graph element of type `ct`: an edge, a path, a property, a
/// vertex or a vertex property.
pub open spec fn parse_element(ct: CoreType, t: Seq<u8>) -> Parsed<GValue>
    decreases t.len(), 4int,
{
    match ct {
        CoreType::Edge => parse_edge(t),
        CoreType::Path => parse_path(t),
        CoreType::Property => parse_property(t),
        CoreType::Vertex => parse_vertex(t),
        CoreType::VertexProperty => parse_vertex_property(t),
        _ => Parsed::Fail(DecodeError::UnsupportedType),
    }
}

/// Reads a value of type `ct` behind its type code and the set flag; any other type code
/// or flag is a `TypeMismatch`.
pub open spec fn parse_typed(ct: CoreType, s: Seq<u8>) -> Parsed<GValue>
    decreases s.len(), 1int,
{
    if s.len() < 2 {
        Parsed::Fail(DecodeError::UnexpectedEof)
    } else if s[0] == ct.spec_code() && s[1] == 0x00u8 {
        shift(parse_element(ct, s.skip(2)), 2)
    } else {
        Parsed::Fail(DecodeError::TypeMismatch)
    }
}

/// Reads `n` values of type `ct` one after another, each behind its type code.
pub open spec fn parse_typed_values(ct: CoreType, s: Seq<u8>, n: nat) -> Parsed<Seq<GValue>>
    decreases s.len(), n + 3,
{
    if n == 0 {
        Parsed::Done(seq![], 0)
    } else {
        match parse_typed_values(ct, s, (n - 1) as nat) {
            Parsed::Done(vs, k) => if 0 <= k <= s.len() {
                match parse_typed(ct, s.skip(k)) {
                    Parsed::Done(v, m) => Parsed::Done(vs.push(v), k + m),
                    Parsed::Fail(e) => Parsed::Fail(e),
                    Parsed::Abort => Parsed::Abort,
                }
            } else {
                Parsed::Fail(DecodeError::UnexpectedEof)
            },
            Parsed::Fail(e) => Parsed::Fail(e),
            Parsed::Abort => Parsed::Abort,
        }
    }
}

/// Reads a list of values of type `ct` that may be absent: a list type code with the set
/// flag, a count and that many values of type `ct`; the null object, or the list type code
/// with the null flag, is an absent list; a flag of 2 or more is `InvalidValueFlag`;
/// anything else is a `TypeMismatch`; a negative count is `NegativeLength`.
pub open spec fn parse_opt_list(ct: CoreType, s: Seq<u8>) -> Parsed<Option<Seq<GValue>>>
    decreases s.len(), 0int,
{
    if s.len() < 2 {
        Parsed::Fail(DecodeError::UnexpectedEof)
    } else if s[0] == 0x09u8 && s[1] == 0x00u8 {
        match parse_i32(s.skip(2)) {
            Parsed::Done(len, _) => if len < 0 {
                Parsed::Fail(DecodeError::NegativeLength)
            } else {
                match parse_typed_values(ct, s.skip(6), len as nat) {
                    Parsed::Done(xs, n) => Parsed::Done(Some(xs), n + 6),
                    Parsed::Fail(e) => Parsed::Fail(e),
                    Parsed::Abort => Parsed::Abort,
                }
            },
            Parsed::Fail(e) => Parsed::Fail(e),
            Parsed::Abort => Parsed::Abort,
        }
    } else if s[0] == 0xfeu8 && s[1] == 0x01u8 {
        Parsed::Done(None, 2)
    } else if s[0] == 0x09u8 && s[1] == 0x01u8 {
        Parsed::Done(None, 2)
    } else if s[1] >= 2 {
        Parsed::Fail(DecodeError::InvalidValueFlag)
    } else {
        Parsed::Fail(DecodeError::TypeMismatch)
    }
}

/// Reads a value of type `ct` that may be absent: its type code with the set flag and its
/// partial form; the null object, or its type code with the null flag, is an absent value;
/// a flag of 2 or more is `InvalidValueFlag`; anything else is a `TypeMismatch`.
pub open spec fn parse_opt_typed(ct: CoreType, s: Seq<u8>) -> Parsed<Option<Box<GValue>>>
    decreases s.len(), 0int,
{
    if s.len() < 2 {
        Parsed::Fail(DecodeError::UnexpectedEof)
    } else if s[0] == ct.spec_code() && s[1] == 0x00u8 {
        match parse_element(ct, s.skip(2)) {
            Parsed::Done(v, n) => Parsed::Done(Some(Box::new(v)), n + 2),
            Parsed::Fail(e) => Parsed::Fail(e),
            Parsed::Abort => Parsed::Abort,
        }
    } else if s[0] == 0xfeu8 && s[1] == 0x01u8 {
        Parsed::Done(None, 2)
    } else if s[0] == ct.spec_code() && s[1] == 0x01u8 {
        Parsed::Done(None, 2)
    } else if s[1] >= 2 {
        Parsed::Fail(DecodeError::InvalidValueFlag)
    } else {
        Parsed::Fail(DecodeError::TypeMismatch)
    }
}

/// Reads the element a property belongs to: an edge or a vertex property with the set
/// flag, or the null object. An unknown type code is `InvalidTypeCode`, an unknown flag
/// `InvalidValueFlag`, any other type a `TypeMismatch`.
pub open spec fn parse_parent(s: Seq<u8>) -> Parsed<GValue>
    decreases s.len(), 0int,
{
    if s.len() < 2 {
        Parsed::Fail(DecodeError::UnexpectedEof)
    } else {
        match CoreType::spec_from_code(s[0]) {
            None => Parsed::Fail(DecodeError::InvalidTypeCode),
            Some(ct) => match ValueFlag::spec_from_byte(s[1]) {
                None => Parsed::Fail(DecodeError::InvalidValueFlag),
                Some(flag) => if ct == CoreType::Edge && flag == ValueFlag::Present {
                    shift(parse_edge(s.skip(2)), 2)
                } else if ct == CoreType::VertexProperty && flag == ValueFlag::Present {
                    shift(parse_vertex_property(s.skip(2)), 2)
                } else if ct == CoreType::UnspecifiedNullObject && flag == ValueFlag::Null {
                    Parsed::Done(GValue::Null, 2)
                } else {
                    Parsed::Fail(DecodeError::TypeMismatch)
                },
            },
        }
    }
}

/// Reads an id, a value, then a label, a text.
pub open spec fn parse_id_label(t: Seq<u8>) -> Parsed<(GValue, Seq<char>)>
    decreases t.len(), 1int,
{
    match parse_value(t) {
        Parsed::Done(id, n1) => if 0 <= n1 <= t.len() {
            match parse_string(t.skip(n1)) {
                Parsed::Done(label, n2) => Parsed::Done((id, label), n1 + n2),
                Parsed::Fail(e) => Parsed::Fail(e),
                Parsed::Abort => Parsed::Abort,
            }
        } else {
            Parsed::Fail(DecodeError::UnexpectedEof)
        },
        Parsed::Fail(e) => Parsed::Fail(e),
        Parsed::Abort => Parsed::Abort,
    }
}

/// Reads a vertex: its id and label, and its vertex properties as a list that may be
/// absent.
pub open spec fn parse_vertex(t: Seq<u8>) -> Parsed<GValue>
    decreases t.len(), 3int,
{
    match parse_id_label(t) {
        Parsed::Done(h, n1) => if 0 <= n1 <= t.len() {
            match parse_opt_list(CoreType::VertexProperty, t.skip(n1)) {
                Parsed::Done(properties, n2) => Parsed::Done(GValue::Vertex { id: Box::new(h.0), label: h.1, properties }, n1 + n2),
                Parsed::Fail(e) => Parsed::Fail(e),
                Parsed::Abort => Parsed::Abort,
            }
        } else {
            Parsed::Fail(DecodeError::UnexpectedEof)
        },
        Parsed::Fail(e) => Parsed::Fail(e),
        Parsed::Abort => Parsed::Abort,
    }
}


/// Reads the links of an edge or a vertex property: its parent vertex and its properties,
/// either of which may be absent.
pub open spec fn parse_links(t: Seq<u8>) -> Parsed<(Option<Box<GValue>>, Option<Seq<GValue>>)>
    decreases t.len(), 1int,
{
    match parse_opt_typed(CoreType::Vertex, t) {
        Parsed::Done(parent, n1) => if 0 <= n1 <= t.len() {
            match parse_opt_list(CoreType::Property, t.skip(n1)) {
                Parsed::Done(properties, n2) => Parsed::Done((parent, properties), n1 + n2),
                Parsed::Fail(e) => Parsed::Fail(e),
                Parsed::Abort => Parsed::Abort,
            }
        } else {
            Parsed::Fail(DecodeError::UnexpectedEof)
        },
        Parsed::Fail(e) => Parsed::Fail(e),
        Parsed::Abort => Parsed::Abort,
    }
}

/// Reads a vertex property: its id, label and value, its parent vertex and its properties,
/// either of which may be absent.
pub open spec fn parse_vertex_property(t: Seq<u8>) -> Parsed<GValue>
    decreases t.len(), 3int,
{
    match parse_id_label(t) {
        Parsed::Done(h, n1) => if 0 <= n1 <= t.len() {
            match parse_value(t.skip(n1)) {
                Parsed::Done(value, n2) => if 0 <= n1 + n2 <= t.len() {
                    match parse_links(t.skip(n1 + n2)) {
                        Parsed::Done(l, n3) => Parsed::Done(GValue::VertexProperty {
            id: Box::new(h.0),
            label: h.1,
            value: Box::new(value),
            parent: l.0,
            properties: l.1,
        }, n1 + n2 + n3),
                        Parsed::Fail(e) => Parsed::Fail(e),
                        Parsed::Abort => Parsed::Abort,
                    }
                } else {
                    Parsed::Fail(DecodeError::UnexpectedEof)
                },
                Parsed::Fail(e) => Parsed::Fail(e),
                Parsed::Abort => Parsed::Abort,
            }
        } else {
            Parsed::Fail(DecodeError::UnexpectedEof)
        },
        Parsed::Fail(e) => Parsed::Fail(e),
        Parsed::Abort => Parsed::Abort,
    }
}

/// Reads the first fields of a property: its key and its value.
pub open spec fn parse_property_head(t: Seq<u8>) -> Parsed<(Seq<char>, GValue)>
    decreases t.len(), 1int,
{
    match parse_string(t) {
        Parsed::Done(key, n1) => if 0 <= n1 <= t.len() {
            match parse_value(t.skip(n1)) {
                Parsed::Done(value, n2) => Parsed::Done((key, value), n1 + n2),
                Parsed::Fail(e) => Parsed::Fail(e),
                Parsed::Abort => Parsed::Abort,
            }
        } else {
            Parsed::Fail(DecodeError::UnexpectedEof)
        },
        Parsed::Fail(e) => Parsed::Fail(e),
        Parsed::Abort => Parsed::Abort,
    }
}

/// Reads a property: its key, its value and the element it belongs to.
pub open spec fn parse_property(t: Seq<u8>) -> Parsed<GValue>
    decreases t.len(), 3int,
{
    match parse_property_head(t) {
        Parsed::Done(h, n1) => if 0 <= n1 <= t.len() {
            match parse_parent(t.skip(n1)) {
                Parsed::Done(parent, n2) => Parsed::Done(GValue::Property { key: h.0, value: Box::new(h.1), parent: Box::new(parent) }, n1 + n2),
                Parsed::Fail(e) => Parsed::Fail(e),
                Parsed::Abort => Parsed::Abort,
            }
        } else {
            Parsed::Fail(DecodeError::UnexpectedEof)
        },
        Parsed::Fail(e) => Parsed::Fail(e),
        Parsed::Abort => Parsed::Abort,
    }
}



/// Reads an edge: its id and label, those of its in and out vertices, its parent vertex and
/// its properties, either of which may be absent.
pub open spec fn parse_edge(t: Seq<u8>) -> Parsed<GValue>
    decreases t.len(), 3int,
{
    match parse_id_label(t) {
        Parsed::Done(h, n1) => if 0 <= n1 <= t.len() {
            match parse_id_label(t.skip(n1)) {
                Parsed::Done(i, n2) => if 0 <= n1 + n2 <= t.len() {
                    match parse_id_label(t.skip(n1 + n2)) {
                        Parsed::Done(o, n3) => if 0 <= n1 + n2 + n3 <= t.len() {
                            match parse_links(t.skip(n1 + n2 + n3)) {
                                Parsed::Done(l, n4) => Parsed::Done(GValue::Edge {
            id: Box::new(h.0),
            label: h.1,
            in_id: Box::new(i.0),
            in_label: i.1,
            out_id: Box::new(o.0),
            out_label: o.1,
            parent: l.0,
            properties: l.1,
        }, n1 + n2 + n3 + n4),
                                Parsed::Fail(e) => Parsed::Fail(e),
                                Parsed::Abort => Parsed::Abort,
                            }
                        } else {
                            Parsed::Fail(DecodeError::UnexpectedEof)
                        },
                        Parsed::Fail(e) => Parsed::Fail(e),
                        Parsed::Abort => Parsed::Abort,
                    }
                } else {
                    Parsed::Fail(DecodeError::UnexpectedEof)
                },
                Parsed::Fail(e) => Parsed::Fail(e),
                Parsed::Abort => Parsed::Abort,
            }
        } else {
            Parsed::Fail(DecodeError::UnexpectedEof)
        },
        Parsed::Fail(e) => Parsed::Fail(e),
        Parsed::Abort => Parsed::Abort,
    }
}

/// Reads `n` values one after another.
pub open spec fn parse_values(s: Seq<u8>, n: nat) -> Parsed<Seq<GValue>>
    decreases s.len(), n + 3,
{
    if n == 0 {
        Parsed::Done(seq![], 0)
    } else {
        match parse_values(s, (n - 1) as nat) {
            Parsed::Done(vs, k) => if 0 <= k <= s.len() {
                match parse_value(s.skip(k)) {
                    Parsed::Done(v, m) => Parsed::Done(vs.push(v), k + m),
                    Parsed::Fail(e) => Parsed::Fail(e),
                    Parsed::Abort => Parsed::Abort,
                }
            } else {
                Parsed::Fail(DecodeError::UnexpectedEof)
            },
            Parsed::Fail(e) => Parsed::Fail(e),
            Parsed::Abort => Parsed::Abort,
        }
    }
}

/// Reads a list of values: a 32-bit count, then that many values; a negative count is
/// `NegativeLength`.
pub open spec fn parse_value_list(t: Seq<u8>) -> Parsed<Seq<GValue>>
    decreases t.len(), 1int,
{
    match parse_i32(t) {
        Parsed::Done(len, _) => if len < 0 {
            Parsed::Fail(DecodeError::NegativeLength)
        } else {
            shift(parse_values(t.skip(4), len as nat), 4)
        },
        Parsed::Fail(e) => Parsed::Fail(e),
        Parsed::Abort => Parsed::Abort,
    }
}

/// Reads a map entry: a value that must be a key (else `InvalidMapKey`), then a value.
pub open spec fn parse_entry(s: Seq<u8>) -> Parsed<(KeyModel, GValue)>
    decreases s.len(), 1int,
{
    match parse_value(s) {
        Parsed::Done(kv, m1) => match value_key(kv) {
            None => Parsed::Fail(DecodeError::InvalidMapKey),
            Some(key) => if 0 <= m1 <= s.len() {
                match parse_value(s.skip(m1)) {
                    Parsed::Done(v, m2) => Parsed::Done((key, v), m1 + m2),
                    Parsed::Fail(e) => Parsed::Fail(e),
                    Parsed::Abort => Parsed::Abort,
                }
            } else {
                Parsed::Fail(DecodeError::UnexpectedEof)
            },
        },
        Parsed::Fail(e) => Parsed::Fail(e),
        Parsed::Abort => Parsed::Abort,
    }
}

/// Reads `n` map entries one after another.
pub open spec fn parse_entries(s: Seq<u8>, n: nat) -> Parsed<Seq<(KeyModel, GValue)>>
    decreases s.len(), n + 3,
{
    if n == 0 {
        Parsed::Done(seq![], 0)
    } else {
        match parse_entries(s, (n - 1) as nat) {
            Parsed::Done(es, k) => if 0 <= k <= s.len() {
                match parse_entry(s.skip(k)) {
                    Parsed::Done(e, m) => Parsed::Done(es.push(e), k + m),
                    Parsed::Fail(e) => Parsed::Fail(e),
                    Parsed::Abort => Parsed::Abort,
                }
            } else {
                Parsed::Fail(DecodeError::UnexpectedEof)
            },
            Parsed::Fail(e) => Parsed::Fail(e),
            Parsed::Abort => Parsed::Abort,
        }
    }
}

/// Reads a map: a 32-bit count, then that many entries, inserted in order so that a later
/// entry replaces an earlier one of the same key. A negative count is not read (the reader
/// gives up).
pub open spec fn parse_map(t: Seq<u8>) -> Parsed<GValue>
    decreases t.len(), 1int,
{
    match parse_i32(t) {
        Parsed::Done(len, _) => if len < 0 {
            Parsed::Abort
        } else {
            match parse_entries(t.skip(4), len as nat) {
                Parsed::Done(es, n) => Parsed::Done(GValue::MapValue(map_from_entries(es)), n + 4),
                Parsed::Fail(e) => Parsed::Fail(e),
                Parsed::Abort => Parsed::Abort,
            }
        },
        Parsed::Fail(e) => Parsed::Fail(e),
        Parsed::Abort => Parsed::Abort,
    }
}

/// Reads a binding: a text, then a value.
pub open spec fn parse_binding(t: Seq<u8>) -> Parsed<GValue>
    decreases t.len(), 1int,
{
    match parse_string(t) {
        Parsed::Done(key, n1) => if 0 <= n1 <= t.len() {
            match parse_value(t.skip(n1)) {
                Parsed::Done(v, n2) => Parsed::Done(GValue::Binding(key, Box::new(v)), n1 + n2),
                Parsed::Fail(e) => Parsed::Fail(e),
                Parsed::Abort => Parsed::Abort,
            }
        } else {
            Parsed::Fail(DecodeError::UnexpectedEof)
        },
        Parsed::Fail(e) => Parsed::Fail(e),
        Parsed::Abort => Parsed::Abort,
    }
}

/// Reads a traverser: a 64-bit bulk, then a value.
pub open spec fn parse_traverser(t: Seq<u8>) -> Parsed<GValue>
    decreases t.len(), 1int,
{
    match parse_i64(t) {
        Parsed::Done(bulk, _) => match parse_value(t.skip(8)) {
            Parsed::Done(v, n) => Parsed::Done(GValue::Traverser(bulk, Box::new(v)), 8 + n),
            Parsed::Fail(e) => Parsed::Fail(e),
            Parsed::Abort => Parsed::Abort,
        },
        Parsed::Fail(e) => Parsed::Fail(e),
        Parsed::Abort => Parsed::Abort,
    }
}

/// Reads `n` bulk set items one after another: a value, then a 64-bit multiplicity.
pub open spec fn parse_bulk_items(s: Seq<u8>, n: nat) -> Parsed<Seq<(GValue, i64)>>
    decreases s.len(), n + 3,
{
    if n == 0 {
        Parsed::Done(seq![], 0)
    } else {
        match parse_bulk_items(s, (n - 1) as nat) {
            Parsed::Done(items, k) => if 0 <= k <= s.len() {
                match parse_value(s.skip(k)) {
                    Parsed::Done(v, m) => if 0 <= k + m <= s.len() {
                        match parse_i64(s.skip(k + m)) {
                            Parsed::Done(bulk, _) => Parsed::Done(items.push((v, bulk)), k + m + 8),
                            Parsed::Fail(e) => Parsed::Fail(e),
                            Parsed::Abort => Parsed::Abort,
                        }
                    } else {
                        Parsed::Fail(DecodeError::UnexpectedEof)
                    },
                    Parsed::Fail(e) => Parsed::Fail(e),
                    Parsed::Abort => Parsed::Abort,
                }
            } else {
                Parsed::Fail(DecodeError::UnexpectedEof)
            },
            Parsed::Fail(e) => Parsed::Fail(e),
            Parsed::Abort => Parsed::Abort,
        }
    }
}

/// Reads a bulk set: a 32-bit count, then that many items; a negative count is
/// `NegativeLength`.
pub open spec fn parse_bulk_set(t: Seq<u8>) -> Parsed<GValue>
    decreases t.len(), 1int,
{
    match parse_i32(t) {
        Parsed::Done(len, _) => if len < 0 {
            Parsed::Fail(DecodeError::NegativeLength)
        } else {
            match parse_bulk_items(t.skip(4), len as nat) {
                Parsed::Done(items, n) => Parsed::Done(GValue::BulkSet(items), n + 4),
                Parsed::Fail(e) => Parsed::Fail(e),
                Parsed::Abort => Parsed::Abort,
            }
        },
        Parsed::Fail(e) => Parsed::Fail(e),
        Parsed::Abort => Parsed::Abort,
    }
}


// ---------------------------------------------------------------------------
// Facts about the model
// ---------------------------------------------------------------------------

/// The models of a sequence of values, element by element.
pub proof fn lemma_values_view(s: Seq<GremlinValue>)
    ensures
        values_view(s).len() == s.len(),
        forall|i: int| 0 <= i < s.len() ==> #[trigger] values_view(s)[i] == value_view(s[i]),
    decreases s.len(),
{
    if s.len() > 0 {
        lemma_values_view(s.subrange(0, s.len() - 1));
    }
}

/// The models of vertex properties, one by one.
pub proof fn lemma_vertex_properties_view(s: Seq<VertexProperty>)
    ensures
        vertex_properties_view(s).len() == s.len(),
        forall|i: int| 0 <= i < s.len() ==> #[trigger] vertex_properties_view(s)[i] == vertex_property_view(s[i]),
    decreases s.len(),
{
    if s.len() > 0 {
        lemma_vertex_properties_view(s.subrange(0, s.len() - 1));
    }
}

/// The models of properties, one by one.
pub proof fn lemma_properties_view(s: Seq<Property>)
    ensures
        properties_view(s).len() == s.len(),
        forall|i: int| 0 <= i < s.len() ==> #[trigger] properties_view(s)[i] == property_view(s[i]),
    decreases s.len(),
{
    if s.len() > 0 {
        lemma_properties_view(s.subrange(0, s.len() - 1));
    }
}

/// The models of map entries, entry by entry.
pub proof fn lemma_entries_view(s: Seq<(MapKeys, GremlinValue)>)
    ensures
        entries_view(s).len() == s.len(),
        forall|i: int|
            0 <= i < s.len() ==> #[trigger] entries_view(s)[i] == (
                key_view(s[i].0),
                value_view(s[i].1),
            ),
    decreases s.len(),
{
    if s.len() > 0 {
        lemma_entries_view(s.subrange(0, s.len() - 1));
    }
}

/// The models of bulk set items, item by item.
pub proof fn lemma_bulk_view(s: Seq<(GremlinValue, i64)>)
    ensures
        bulk_view(s).len() == s.len(),
        forall|i: int|
            0 <= i < s.len() ==> #[trigger] bulk_view(s)[i] == (value_view(s[i].0), s[i].1),
    decreases s.len(),
{
    if s.len() > 0 {
        lemma_bulk_view(s.subrange(0, s.len() - 1));
    }
}

/// Values that have a written form: no date, timestamp or bulk set anywhere in them.
pub open spec fn encodable(g: GValue) -> bool
    decreases g,
{
    match g {
        GValue::Date(_) => false,
        GValue::Timestamp(_) => false,
        GValue::BulkSet(_) => false,
        GValue::List(xs) => all_encodable(xs),
        GValue::SetValue(xs) => all_encodable(xs),
        GValue::MapValue(es) => entries_encodable(es),
        GValue::Binding(_, v) => encodable(*v),
        GValue::Traverser(_, v) => encodable(*v),
        GValue::Edge { id, in_id, out_id, parent, properties, .. } => encodable(*id) && encodable(
            *in_id,
        ) && encodable(*out_id) && (match parent {
            Some(v) => encodable(*v),
            None => true,
        }) && (match properties {
            Some(xs) => all_encodable(xs),
            None => true,
        }),
        GValue::Path { objects, .. } => all_encodable(objects),
        GValue::Property { value, parent, .. } => encodable(*value) && encodable(*parent),
        GValue::Vertex { id, properties, .. } => encodable(*id) && (match properties {
            Some(xs) => all_encodable(xs),
            None => true,
        }),
        GValue::VertexProperty { id, value, parent, properties, .. } => encodable(*id) && encodable(
            *value,
        ) && (match parent {
            Some(v) => encodable(*v),
            None => true,
        }) && (match properties {
            Some(xs) => all_encodable(xs),
            None => true,
        }),
        _ => true,
    }
}

/// Every value of the sequence has a written form.
pub open spec fn all_encodable(s: Seq<GValue>) -> bool
    decreases s,
{
    if s.len() == 0 {
        true
    } else {
        all_encodable(s.subrange(0, s.len() - 1)) && encodable(s[s.len() - 1])
    }
}

/// Every value of the entries has a written form.
pub open spec fn entries_encodable(s: Seq<(KeyModel, GValue)>) -> bool
    decreases s,
{
    if s.len() == 0 {
        true
    } else {
        entries_encodable(s.subrange(0, s.len() - 1)) && encodable(s[s.len() - 1].1)
    }
}

pub proof fn lemma_all_encodable(s: Seq<GValue>, i: int)
    requires
        all_encodable(s),
        0 <= i < s.len(),
    ensures
        encodable(s[i]),
    decreases s.len(),
{
    if i < s.len() - 1 {
        lemma_all_encodable(s.subrange(0, s.len() - 1), i);
    }
}

proof fn lemma_entries_encodable(s: Seq<(KeyModel, GValue)>, i: int)
    requires
        entries_encodable(s),
        0 <= i < s.len(),
    ensures
        encodable(s[i].1),
    decreases s.len(),
{
    if i < s.len() - 1 {
        lemma_entries_encodable(s.subrange(0, s.len() - 1), i);
    }
}

// ---------------------------------------------------------------------------
// Writing
// ---------------------------------------------------------------------------

impl MapKeys {
    /// Appends the fully qualified bytes of the key.
    pub fn encode(&self, out: &mut Vec<u8>)
        ensures
            final(out)@ == old(out)@ + key_bytes(key_view(*self)),
    {
        match self {
            MapKeys::Int(x) => x.encode(out),
            MapKeys::String(x) => x.encode(out),
            MapKeys::Long(x) => x.encode(out),
            MapKeys::Uuid(x) => x.encode(out),
            MapKeys::T(x) => x.encode(out),
            MapKeys::Direction(x) => x.encode(out),
        }
    }
}

/// Appends the fully qualified bytes of a text of the given type code.
fn encode_text_as(code: u8, s: &String, out: &mut Vec<u8>)
    ensures
        final(out)@ == old(out)@ + fq_bytes(code, string_partial_bytes(s@)),
{
    out.push(code);
    out.push(0x00u8);
    partial_encode_str(s.as_str(), out);
    assert(out@ =~= old(out)@ + fq_bytes(code, string_partial_bytes(s@)));
}

impl GremlinValue {
    /// Appends the fully qualified bytes of the value. Dates, timestamps and bulk sets have no
    /// written form, so a value that holds one is not accepted.
    #[verifier::rlimit(60)]
    #[verifier::spinoff_prover]
    pub fn build_fq_bytes(&self, out: &mut Vec<u8>)
        requires
            encodable(value_view(*self)),
        ensures
            final(out)@ == old(out)@ + value_bytes(value_view(*self)),
        decreases self,
    {
        proof {
            reveal_with_fuel(value_bytes, 1);
        }
        match self {
            GremlinValue::Int(x) => x.encode(out),
            GremlinValue::Long(x) => x.encode(out),
            GremlinValue::String(x) => x.encode(out),
            GremlinValue::Class(x) => encode_text_as(0x06u8, x, out),
            GremlinValue::Double(x) => {
                out.push(0x07u8);
                out.push(0x00u8);
                push_u64(out, *x);
                assert(out@ =~= old(out)@ + value_bytes(value_view(*self)));
            },
            GremlinValue::Float(x) => {
                out.push(0x08u8);
                out.push(0x00u8);
                push_u32(out, *x);
                assert(out@ =~= old(out)@ + value_bytes(value_view(*self)));
            },
            GremlinValue::List(xs) => {
                out.push(0x09u8);
                out.push(0x00u8);
                encode_values(xs, out);
                assert(out@ =~= old(out)@ + value_bytes(value_view(*self)));
            },
            GremlinValue::SetValue(xs) => {
                out.push(0x0bu8);
                out.push(0x00u8);
                encode_values(xs, out);
                assert(out@ =~= old(out)@ + value_bytes(value_view(*self)));
            },
            GremlinValue::MapValue(es) => {
                out.push(0x0au8);
                out.push(0x00u8);
                encode_entries(es, out);
                assert(out@ =~= old(out)@ + value_bytes(value_view(*self)));
            },
            GremlinValue::Uuid(x) => x.encode(out),
            GremlinValue::Edge(e) => encode_edge(e, out),
            GremlinValue::Path(p) => encode_path(p, out),
            GremlinValue::Property(p) => encode_property(p, out),
            GremlinValue::Vertex(v) => encode_vertex(v, out),
            GremlinValue::VertexProperty(p) => encode_vertex_property(p, out),
            GremlinValue::Barrier(x) => x.encode(out),
            GremlinValue::Binding { key, value } => {
                out.push(0x14u8);
                out.push(0x00u8);
                partial_encode_str(key.as_str(), out);
                value.build_fq_bytes(out);
                assert(out@ =~= old(out)@ + value_bytes(value_view(*self)));
            },
            GremlinValue::Cardinality(x) => x.encode(out),
            GremlinValue::Column(x) => x.encode(out),
            GremlinValue::Direction(x) => x.encode(out),
            GremlinValue::Operator(x) => x.encode(out),
            GremlinValue::Order(x) => x.encode(out),
            GremlinValue::Pick(x) => x.encode(out),
            GremlinValue::Pop(x) => x.encode(out),
            GremlinValue::Lambda(x) => x.encode(out),
            GremlinValue::Scope(x) => x.encode(out),
            GremlinValue::T(x) => x.encode(out),
            GremlinValue::Traverser { bulk, value } => {
                out.push(0x21u8);
                out.push(0x00u8);
                push_i64(out, *bulk);
                value.build_fq_bytes(out);
                assert(out@ =~= old(out)@ + value_bytes(value_view(*self)));
            },
            GremlinValue::Byte(x) => x.encode(out),
            GremlinValue::ByteBuffer(x) => x.encode(out),
            GremlinValue::Short(x) => x.encode(out),
            GremlinValue::Boolean(x) => x.encode(out),
            GremlinValue::Merge(x) => x.encode(out),
            GremlinValue::UnspecifiedNullObject => encode_null_object(out),
            GremlinValue::Char(x) => x.encode(out),
            GremlinValue::Date(_) => {},
            GremlinValue::Timestamp(_) => {},
            GremlinValue::BulkSet(_) => {},
        }
    }
}

/// Appends the fully qualified bytes of a vertex: its id, its label, and its properties as a
/// list, or the null object where they are absent.
pub(crate) fn encode_vertex(v: &Vertex, out: &mut Vec<u8>)
    requires
        encodable(vertex_view(*v)),
    ensures
        final(out)@ == old(out)@ + value_bytes(vertex_view(*v)),
    decreases v,
{
    proof {
        reveal_with_fuel(vertex_view, 1);
    }
    proof {
        reveal_with_fuel(value_bytes, 1);
    }
    out.push(0x11u8);
    out.push(0x00u8);
    v.id.build_fq_bytes(out);
    partial_encode_str(v.label.as_str(), out);
    match &v.properties {
        Some(ps) => encode_vertex_property_list(ps, out),
        None => encode_null_object(out),
    }
    assert(out@ =~= old(out)@ + value_bytes(vertex_view(*v)));
}

/// Appends the fully qualified bytes of a vertex property: its id, label and value, its
/// parent vertex and its properties, each absent one as the null object.
fn encode_vertex_property(p: &VertexProperty, out: &mut Vec<u8>)
    requires
        encodable(vertex_property_view(*p)),
    ensures
        final(out)@ == old(out)@ + value_bytes(vertex_property_view(*p)),
    decreases p,
{
    proof {
        reveal_with_fuel(vertex_property_view, 1);
    }
    proof {
        reveal_with_fuel(value_bytes, 1);
    }
    out.push(0x12u8);
    out.push(0x00u8);
    p.id.build_fq_bytes(out);
    partial_encode_str(p.label.as_str(), out);
    p.value.build_fq_bytes(out);
    match &p.parent {
        Some(v) => encode_vertex(v, out),
        None => encode_null_object(out),
    }
    match &p.properties {
        Some(ps) => encode_property_list(ps, out),
        None => encode_null_object(out),
    }
    assert(out@ =~= old(out)@ + value_bytes(vertex_property_view(*p)));
}

/// Appends the fully qualified bytes of a property: its key, its value and its parent
/// element, the null object where there is none.
pub(crate) fn encode_property(p: &Property, out: &mut Vec<u8>)
    requires
        encodable(property_view(*p)),
    ensures
        final(out)@ == old(out)@ + value_bytes(property_view(*p)),
    decreases p,
{
    proof {
        reveal_with_fuel(property_view, 1);
        reveal_with_fuel(parent_view, 1);
    }
    proof {
        reveal_with_fuel(value_bytes, 1);
    }
    out.push(0x0fu8);
    out.push(0x00u8);
    partial_encode_str(p.key.as_str(), out);
    p.value.build_fq_bytes(out);
    let ghost mid = out@;
    match &p.parent {
        EitherParent::Edge(e) => {
            encode_edge(e, out);
            assert(parent_view(p.parent) == edge_view(*e));
        },
        EitherParent::VertexProperty(vp) => {
            encode_vertex_property(vp, out);
            assert(parent_view(p.parent) == vertex_property_view(*vp));
        },
        EitherParent::NoParent => {
            encode_null_object(out);
            assert(parent_view(p.parent) == GValue::Null);
        },
    }
    assert(out@ == mid + value_bytes(parent_view(p.parent)));
    assert(out@ =~= old(out)@ + value_bytes(property_view(*p)));
}

/// Appends the fully qualified bytes of an edge: its id and label, those of its in and out
/// vertices, its parent vertex and its properties, each absent one as the null object.
#[verifier::rlimit(40)]
#[verifier::spinoff_prover]
fn encode_edge(e: &Edge, out: &mut Vec<u8>)
    requires
        encodable(edge_view(*e)),
    ensures
        final(out)@ == old(out)@ + value_bytes(edge_view(*e)),
    decreases e,
{
    proof {
        reveal_with_fuel(edge_view, 1);
    }
    proof {
        reveal_with_fuel(value_bytes, 1);
    }
    out.push(0x0du8);
    out.push(0x00u8);
    e.id.build_fq_bytes(out);
    partial_encode_str(e.label.as_str(), out);
    e.in_v_id.build_fq_bytes(out);
    partial_encode_str(e.in_v_label.as_str(), out);
    e.out_v_id.build_fq_bytes(out);
    partial_encode_str(e.out_v_label.as_str(), out);
    match &e.parent {
        Some(v) => encode_vertex(v, out),
        None => encode_null_object(out),
    }
    match &e.properties {
        Some(ps) => encode_property_list(ps, out),
        None => encode_null_object(out),
    }
    assert(out@ =~= old(out)@ + value_bytes(edge_view(*e)));
}

/// Appends the fully qualified bytes of a path: its labels, then its objects as a fully
/// qualified list.
fn encode_path(p: &Path, out: &mut Vec<u8>)
    requires
        encodable(path_view(*p)),
    ensures
        final(out)@ == old(out)@ + value_bytes(path_view(*p)),
    decreases p,
{
    proof {
        reveal_with_fuel(value_bytes, 1);
    }
    out.push(0x0eu8);
    out.push(0x00u8);
    encode_path_labels(&p.labels, out);
    out.push(0x09u8);
    out.push(0x00u8);
    encode_values(&p.objects, out);
    assert(out@ =~= old(out)@ + value_bytes(path_view(*p)));
}

/// Appends a fully qualified list of vertex properties.
fn encode_vertex_property_list(ps: &Vec<VertexProperty>, out: &mut Vec<u8>)
    requires
        all_encodable(vertex_properties_view(ps@)),
    ensures
        final(out)@ == old(out)@ + fq_bytes(
            0x09u8,
            be_i32(vertex_properties_view(ps@).len() as i32) + values_bytes(vertex_properties_view(ps@)),
        ),
    decreases ps, 0int,
{
    proof {
        lemma_vertex_properties_view(ps@);
        reveal_with_fuel(value_bytes, 1);
    }
    out.push(0x09u8);
    out.push(0x00u8);
    push_i32(out, ps.len() as i32);
    let ghost start = out@;
    let mut i: usize = 0;
    while i < ps.len()
        invariant
            i <= ps@.len(),
            all_encodable(vertex_properties_view(ps@)),
            vertex_properties_view(ps@).len() == ps@.len(),
            forall|k: int| 0 <= k < ps@.len() ==> #[trigger] vertex_properties_view(ps@)[k] == vertex_property_view(ps@[k]),
            out@ == start + values_bytes(vertex_properties_view(ps@.subrange(0, i as int))),
        decreases ps@.len() - i,
    {
        proof {
            lemma_all_encodable(vertex_properties_view(ps@), i as int);
            assert(ps@.subrange(0, i + 1).subrange(0, i as int) =~= ps@.subrange(0, i as int));
            let vs = vertex_properties_view(ps@.subrange(0, i + 1));
            assert(vs.subrange(0, vs.len() - 1) =~= vertex_properties_view(ps@.subrange(0, i as int)));
        }
        encode_vertex_property(&ps[i], out);
        i = i + 1;
        proof {
            reveal_with_fuel(value_bytes, 1);
            assert(out@ =~= start + values_bytes(vertex_properties_view(ps@.subrange(0, i as int))));
        }
    }
    proof {
        assert(ps@.subrange(0, i as int) =~= ps@);
        assert(out@ =~= old(out)@ + fq_bytes(
            0x09u8,
            be_i32(vertex_properties_view(ps@).len() as i32) + values_bytes(vertex_properties_view(ps@)),
        ));
    }
}

/// Appends a fully qualified list of properties.
fn encode_property_list(ps: &Vec<Property>, out: &mut Vec<u8>)
    requires
        all_encodable(properties_view(ps@)),
    ensures
        final(out)@ == old(out)@ + fq_bytes(
            0x09u8,
            be_i32(properties_view(ps@).len() as i32) + values_bytes(properties_view(ps@)),
        ),
    decreases ps, 0int,
{
    proof {
        lemma_properties_view(ps@);
        reveal_with_fuel(value_bytes, 1);
    }
    out.push(0x09u8);
    out.push(0x00u8);
    push_i32(out, ps.len() as i32);
    let ghost start = out@;
    let mut i: usize = 0;
    while i < ps.len()
        invariant
            i <= ps@.len(),
            all_encodable(properties_view(ps@)),
            properties_view(ps@).len() == ps@.len(),
            forall|k: int| 0 <= k < ps@.len() ==> #[trigger] properties_view(ps@)[k] == property_view(ps@[k]),
            out@ == start + values_bytes(properties_view(ps@.subrange(0, i as int))),
        decreases ps@.len() - i,
    {
        proof {
            lemma_all_encodable(properties_view(ps@), i as int);
            assert(ps@.subrange(0, i + 1).subrange(0, i as int) =~= ps@.subrange(0, i as int));
            let vs = properties_view(ps@.subrange(0, i + 1));
            assert(vs.subrange(0, vs.len() - 1) =~= properties_view(ps@.subrange(0, i as int)));
        }
        encode_property(&ps[i], out);
        i = i + 1;
        proof {
            reveal_with_fuel(value_bytes, 1);
            assert(out@ =~= start + values_bytes(properties_view(ps@.subrange(0, i as int))));
        }
    }
    proof {
        assert(ps@.subrange(0, i as int) =~= ps@);
        assert(out@ =~= old(out)@ + fq_bytes(
            0x09u8,
            be_i32(properties_view(ps@).len() as i32) + values_bytes(properties_view(ps@)),
        ));
    }
}

/// Appends a count and the values of a list.
pub(crate) fn encode_values(xs: &Vec<GremlinValue>, out: &mut Vec<u8>)
    requires
        all_encodable(values_view(xs@)),
    ensures
        final(out)@ == old(out)@ + be_i32(values_view(xs@).len() as i32) + values_bytes(
            values_view(xs@),
        ),
    decreases xs, 0int,
{
    proof {
        lemma_values_view(xs@);
        reveal_with_fuel(value_bytes, 1);
    }
    push_i32(out, xs.len() as i32);
    let ghost start = out@;
    let mut i: usize = 0;
    while i < xs.len()
        invariant
            i <= xs@.len(),
            all_encodable(values_view(xs@)),
            values_view(xs@).len() == xs@.len(),
            forall|k: int| 0 <= k < xs@.len() ==> #[trigger] values_view(xs@)[k] == value_view(xs@[k]),
            out@ == start + values_bytes(values_view(xs@.subrange(0, i as int))),
        decreases xs@.len() - i,
    {
        proof {
            lemma_all_encodable(values_view(xs@), i as int);
            assert(xs@.subrange(0, i + 1).subrange(0, i as int) =~= xs@.subrange(0, i as int));
            let vs = values_view(xs@.subrange(0, i + 1));
            assert(vs.subrange(0, vs.len() - 1) =~= values_view(xs@.subrange(0, i as int)));
        }
        xs[i].build_fq_bytes(out);
        i = i + 1;
        proof {
            reveal_with_fuel(value_bytes, 1);
            assert(out@ =~= start + values_bytes(values_view(xs@.subrange(0, i as int))));
        }
    }
    proof {
        assert(xs@.subrange(0, i as int) =~= xs@);
    }
}

/// Appends a count and the entries of a map.
fn encode_entries(es: &Vec<(MapKeys, GremlinValue)>, out: &mut Vec<u8>)
    requires
        entries_encodable(entries_view(es@)),
    ensures
        final(out)@ == old(out)@ + be_i32(entries_view(es@).len() as i32) + entries_bytes(
            entries_view(es@),
        ),
    decreases es, 0int,
{
    proof {
        lemma_entries_view(es@);
        reveal_with_fuel(value_bytes, 1);
    }
    push_i32(out, es.len() as i32);
    let ghost start = out@;
    let mut i: usize = 0;
    while i < es.len()
        invariant
            i <= es@.len(),
            entries_encodable(entries_view(es@)),
            entries_view(es@).len() == es@.len(),
            forall|k: int|
                0 <= k < es@.len() ==> #[trigger] entries_view(es@)[k] == (
                    key_view(es@[k].0),
                    value_view(es@[k].1),
                ),
            out@ == start + entries_bytes(entries_view(es@.subrange(0, i as int))),
        decreases es@.len() - i,
    {
        proof {
            lemma_entries_encodable(entries_view(es@), i as int);
            assert(es@.subrange(0, i + 1).subrange(0, i as int) =~= es@.subrange(0, i as int));
            let vs = entries_view(es@.subrange(0, i + 1));
            assert(vs.subrange(0, vs.len() - 1) =~= entries_view(es@.subrange(0, i as int)));
        }
        let (k, v) = &es[i];
        k.encode(out);
        v.build_fq_bytes(out);
        i = i + 1;
        proof {
            reveal_with_fuel(value_bytes, 1);
            assert(out@ =~= start + entries_bytes(entries_view(es@.subrange(0, i as int))));
        }
    }
    proof {
        assert(es@.subrange(0, i as int) =~= es@);
    }
}


// ---------------------------------------------------------------------------
// Copies
// ---------------------------------------------------------------------------

impl MapKeys {
    /// A copy of the key.
    pub fn copy(&self) -> (r: MapKeys)
        ensures
            key_view(r) == key_view(*self),
    {
        match self {
            MapKeys::Int(x) => MapKeys::Int(*x),
            MapKeys::String(x) => MapKeys::String(x.clone()),
            MapKeys::Long(x) => MapKeys::Long(*x),
            MapKeys::Uuid(x) => MapKeys::Uuid(*x),
            MapKeys::T(x) => MapKeys::T(*x),
            MapKeys::Direction(x) => MapKeys::Direction(*x),
        }
    }
}

impl Clone for GremlinValue {
    /// A copy of the value, all the way down.
    fn clone(&self) -> (r: GremlinValue)
        ensures
            value_view(r) == value_view(*self),
        decreases self,
    {
        match self {
            GremlinValue::Int(x) => GremlinValue::Int(*x),
            GremlinValue::Long(x) => GremlinValue::Long(*x),
            GremlinValue::String(x) => GremlinValue::String(x.clone()),
            GremlinValue::Date(x) => GremlinValue::Date(*x),
            GremlinValue::Timestamp(x) => GremlinValue::Timestamp(*x),
            GremlinValue::Class(x) => GremlinValue::Class(x.clone()),
            GremlinValue::Double(x) => GremlinValue::Double(*x),
            GremlinValue::Float(x) => GremlinValue::Float(*x),
            GremlinValue::List(xs) => GremlinValue::List(clone_values(xs)),
            GremlinValue::SetValue(xs) => GremlinValue::SetValue(clone_values(xs)),
            GremlinValue::MapValue(es) => GremlinValue::MapValue(clone_entries(es)),
            GremlinValue::Uuid(x) => GremlinValue::Uuid(*x),
            GremlinValue::Edge(e) => GremlinValue::Edge(e.clone()),
            GremlinValue::Path(p) => GremlinValue::Path(p.clone()),
            GremlinValue::Property(p) => GremlinValue::Property(p.clone()),
            GremlinValue::Vertex(v) => GremlinValue::Vertex(v.clone()),
            GremlinValue::VertexProperty(p) => GremlinValue::VertexProperty(p.clone()),
            GremlinValue::Barrier(x) => GremlinValue::Barrier(*x),
            GremlinValue::Binding { key, value } => {
                let v = (**value).clone();
                GremlinValue::Binding { key: key.clone(), value: Box::new(v) }
            },
            GremlinValue::Cardinality(x) => GremlinValue::Cardinality(*x),
            GremlinValue::Column(x) => GremlinValue::Column(*x),
            GremlinValue::Direction(x) => GremlinValue::Direction(*x),
            GremlinValue::Operator(x) => GremlinValue::Operator(*x),
            GremlinValue::Order(x) => GremlinValue::Order(*x),
            GremlinValue::Pick(x) => GremlinValue::Pick(*x),
            GremlinValue::Pop(x) => GremlinValue::Pop(*x),
            GremlinValue::Lambda(l) => GremlinValue::Lambda(
                Lambda {
                    language: l.language.clone(),
                    script: l.script.clone(),
                    arguments_length: l.arguments_length,
                },
            ),
            GremlinValue::Scope(x) => GremlinValue::Scope(*x),
            GremlinValue::T(x) => GremlinValue::T(*x),
            GremlinValue::Traverser { bulk, value } => {
                let v = (**value).clone();
                GremlinValue::Traverser { bulk: *bulk, value: Box::new(v) }
            },
            GremlinValue::Byte(x) => GremlinValue::Byte(*x),
            GremlinValue::ByteBuffer(b) => GremlinValue::ByteBuffer(ByteBuffer::new(b.as_bytes())),
            GremlinValue::Short(x) => GremlinValue::Short(*x),
            GremlinValue::Boolean(x) => GremlinValue::Boolean(*x),
            GremlinValue::BulkSet(items) => GremlinValue::BulkSet(clone_bulk(items)),
            GremlinValue::Merge(x) => GremlinValue::Merge(*x),
            GremlinValue::UnspecifiedNullObject => GremlinValue::UnspecifiedNullObject,
            GremlinValue::Char(x) => GremlinValue::Char(*x),
        }
    }
}

impl Clone for Path {
    /// A copy of the path, all the way down.
    fn clone(&self) -> (r: Path)
        ensures
            path_view(r) == path_view(*self),
        decreases self,
    {
        Path { labels: clone_path_labels(&self.labels), objects: clone_values(&self.objects) }
    }
}

impl Clone for Vertex {
    /// A copy of the vertex, all the way down.
    fn clone(&self) -> (r: Vertex)
        ensures
            vertex_view(r) == vertex_view(*self),
        decreases self,
    {
        proof {
            reveal_with_fuel(vertex_view, 1);
        }
        let id = (*self.id).clone();
        let properties = match &self.properties {
            Some(ps) => Some(clone_vertex_properties(ps)),
            None => None,
        };
        Vertex { id: Box::new(id), label: self.label.clone(), properties }
    }
}

impl Clone for VertexProperty {
    /// A copy of the vertex property, all the way down.
    fn clone(&self) -> (r: VertexProperty)
        ensures
            vertex_property_view(r) == vertex_property_view(*self),
        decreases self,
    {
        proof {
            reveal_with_fuel(vertex_property_view, 1);
        }
        let id = (*self.id).clone();
        let value = (*self.value).clone();
        let parent = match &self.parent {
            Some(v) => Some(v.clone()),
            None => None,
        };
        let properties = match &self.properties {
            Some(ps) => Some(clone_properties(ps)),
            None => None,
        };
        VertexProperty {
            id: Box::new(id),
            label: self.label.clone(),
            value: Box::new(value),
            parent,
            properties,
        }
    }
}

impl Clone for Property {
    /// A copy of the property, all the way down.
    fn clone(&self) -> (r: Property)
        ensures
            property_view(r) == property_view(*self),
        decreases self,
    {
        proof {
            reveal_with_fuel(property_view, 1);
            reveal_with_fuel(parent_view, 1);
        }
        let value = (*self.value).clone();
        let parent = match &self.parent {
            EitherParent::Edge(e) => EitherParent::Edge(e.clone()),
            EitherParent::VertexProperty(vp) => EitherParent::VertexProperty(vp.clone()),
            EitherParent::NoParent => EitherParent::NoParent,
        };
        Property { key: self.key.clone(), value: Box::new(value), parent }
    }
}

impl Clone for Edge {
    /// A copy of the edge, all the way down.
    fn clone(&self) -> (r: Edge)
        ensures
            edge_view(r) == edge_view(*self),
        decreases self,
    {
        proof {
            reveal_with_fuel(edge_view, 1);
        }
        let id = (*self.id).clone();
        let in_v_id = (*self.in_v_id).clone();
        let out_v_id = (*self.out_v_id).clone();
        let parent = match &self.parent {
            Some(v) => Some(v.clone()),
            None => None,
        };
        let properties = match &self.properties {
            Some(ps) => Some(clone_properties(ps)),
            None => None,
        };
        Edge {
            id: Box::new(id),
            label: self.label.clone(),
            in_v_id: Box::new(in_v_id),
            in_v_label: self.in_v_label.clone(),
            out_v_id: Box::new(out_v_id),
            out_v_label: self.out_v_label.clone(),
            parent,
            properties,
        }
    }
}

fn clone_vertex_properties(ps: &Vec<VertexProperty>) -> (r: Vec<VertexProperty>)
    ensures
        vertex_properties_view(r@) == vertex_properties_view(ps@),
    decreases ps, 0int,
{
    let mut r: Vec<VertexProperty> = Vec::new();
    let mut i: usize = 0;
    while i < ps.len()
        invariant
            i <= ps@.len(),
            vertex_properties_view(r@) == vertex_properties_view(ps@.subrange(0, i as int)),
        decreases ps@.len() - i,
    {
        let x = ps[i].clone();
        proof {
            assert(ps@.subrange(0, i + 1).subrange(0, i as int) =~= ps@.subrange(0, i as int));
            assert(r@.push(x).subrange(0, r@.len() as int) =~= r@);
        }
        r.push(x);
        i = i + 1;
    }
    proof {
        assert(ps@.subrange(0, i as int) =~= ps@);
    }
    r
}

fn clone_properties(ps: &Vec<Property>) -> (r: Vec<Property>)
    ensures
        properties_view(r@) == properties_view(ps@),
    decreases ps, 0int,
{
    let mut r: Vec<Property> = Vec::new();
    let mut i: usize = 0;
    while i < ps.len()
        invariant
            i <= ps@.len(),
            properties_view(r@) == properties_view(ps@.subrange(0, i as int)),
        decreases ps@.len() - i,
    {
        let x = ps[i].clone();
        proof {
            assert(ps@.subrange(0, i + 1).subrange(0, i as int) =~= ps@.subrange(0, i as int));
            assert(r@.push(x).subrange(0, r@.len() as int) =~= r@);
        }
        r.push(x);
        i = i + 1;
    }
    proof {
        assert(ps@.subrange(0, i as int) =~= ps@);
    }
    r
}

pub(crate) fn clone_values(xs: &Vec<GremlinValue>) -> (r: Vec<GremlinValue>)
    ensures
        values_view(r@) == values_view(xs@),
    decreases xs, 0int,
{
    let mut r: Vec<GremlinValue> = Vec::new();
    let mut i: usize = 0;
    while i < xs.len()
        invariant
            i <= xs@.len(),
            values_view(r@) == values_view(xs@.subrange(0, i as int)),
        decreases xs@.len() - i,
    {
        let x = xs[i].clone();
        proof {
            assert(xs@.subrange(0, i + 1).subrange(0, i as int) =~= xs@.subrange(0, i as int));
            assert(r@.push(x).subrange(0, r@.len() as int) =~= r@);
        }
        r.push(x);
        i = i + 1;
    }
    proof {
        assert(xs@.subrange(0, i as int) =~= xs@);
    }
    r
}

fn clone_entries(es: &Vec<(MapKeys, GremlinValue)>) -> (r: Vec<(MapKeys, GremlinValue)>)
    ensures
        entries_view(r@) == entries_view(es@),
    decreases es, 0int,
{
    let mut r: Vec<(MapKeys, GremlinValue)> = Vec::new();
    let mut i: usize = 0;
    while i < es.len()
        invariant
            i <= es@.len(),
            entries_view(r@) == entries_view(es@.subrange(0, i as int)),
        decreases es@.len() - i,
    {
        let (k, v) = &es[i];
        let e = (k.copy(), v.clone());
        proof {
            assert(es@.subrange(0, i + 1).subrange(0, i as int) =~= es@.subrange(0, i as int));
            assert(r@.push(e).subrange(0, r@.len() as int) =~= r@);
        }
        r.push(e);
        i = i + 1;
    }
    proof {
        assert(es@.subrange(0, i as int) =~= es@);
    }
    r
}

fn clone_bulk(items: &Vec<(GremlinValue, i64)>) -> (r: Vec<(GremlinValue, i64)>)
    ensures
        bulk_view(r@) == bulk_view(items@),
    decreases items, 0int,
{
    let mut r: Vec<(GremlinValue, i64)> = Vec::new();
    let mut i: usize = 0;
    while i < items.len()
        invariant
            i <= items@.len(),
            bulk_view(r@) == bulk_view(items@.subrange(0, i as int)),
        decreases items@.len() - i,
    {
        let (v, b) = &items[i];
        let e = (v.clone(), *b);
        proof {
            assert(items@.subrange(0, i + 1).subrange(0, i as int) =~= items@.subrange(0, i as int));
            assert(r@.push(e).subrange(0, r@.len() as int) =~= r@);
        }
        r.push(e);
        i = i + 1;
    }
    proof {
        assert(items@.subrange(0, i as int) =~= items@);
    }
    r
}


// ---------------------------------------------------------------------------
// Reading, executably
// ---------------------------------------------------------------------------

/// An executable reader's result `r`, started at `pos` in a buffer of `end` bytes, is the
/// outcome `p`, the value read being taken by `m`.
pub open spec fn read_as<T, V>(
    p: Parsed<V>,
    r: Result<(T, usize), DecodeError>,
    pos: int,
    end: int,
    m: spec_fn(T) -> V,
) -> bool {
    match p {
        Parsed::Done(v, n) => r matches Ok((x, q)) && m(x) == v && q == pos + n && pos <= q <= end,
        Parsed::Fail(e) => r == Err::<(T, usize), DecodeError>(e),
        Parsed::Abort => false,
    }
}

/// Once reading `i` values has failed or given up, so has reading more.
pub proof fn lemma_values_stuck(s: Seq<u8>, i: nat, n: nat)
    requires
        i <= n,
        !(parse_values(s, i) is Done),
    ensures
        parse_values(s, n) == parse_values(s, i),
    decreases n,
{
    reveal_with_fuel(parse_values, 1);
    if n > i {
        lemma_values_stuck(s, i, (n - 1) as nat);
    }
}

/// Once reading `i` map entries has failed or given up, so has reading more.
pub proof fn lemma_entries_stuck(s: Seq<u8>, i: nat, n: nat)
    requires
        i <= n,
        !(parse_entries(s, i) is Done),
    ensures
        parse_entries(s, n) == parse_entries(s, i),
    decreases n,
{
    reveal_with_fuel(parse_entries, 1);
    if n > i {
        lemma_entries_stuck(s, i, (n - 1) as nat);
    }
}

/// Once reading `i` bulk set items has failed or given up, so has reading more.
pub proof fn lemma_bulk_items_stuck(s: Seq<u8>, i: nat, n: nat)
    requires
        i <= n,
        !(parse_bulk_items(s, i) is Done),
    ensures
        parse_bulk_items(s, n) == parse_bulk_items(s, i),
    decreases n,
{
    reveal_with_fuel(parse_bulk_items, 1);
    if n > i {
        lemma_bulk_items_stuck(s, i, (n - 1) as nat);
    }
}

/// Reads a fully qualified value at `pos`; returns it and the position after it.
pub fn decode(buf: &[u8], pos: usize) -> (r: Result<(GremlinValue, usize), DecodeError>)
    requires
        pos <= buf@.len(),
        !(parse_value(buf@.skip(pos as int)) is Abort),
    ensures
        decoded(parse_value(buf@.skip(pos as int)), r, pos as int, buf@.len() as int),
    decreases buf@.len() - pos, 0int,
{
    if buf.len() - pos < 2 {
        return Err(DecodeError::UnexpectedEof);
    }
    let ct = match CoreType::try_from_code(buf[pos]) {
        Ok(c) => c,
        Err(e) => return Err(e),
    };
    let flag = match ValueFlag::try_from_byte(buf[pos + 1]) {
        Ok(f) => f,
        Err(e) => return Err(e),
    };
    match flag {
        ValueFlag::Null => Ok((GremlinValue::UnspecifiedNullObject, pos + 2)),
        ValueFlag::Present => {
            proof {
                assert(buf@.skip(pos as int).skip(2) =~= buf@.skip(pos + 2));
            }
            decode_partial_value(ct, buf, pos + 2)
        },
    }
}

/// Reads the partial form of a value of type `ct` at `pos`.
#[verifier::rlimit(100)]
#[verifier::spinoff_prover]
fn decode_partial_value(ct: CoreType, buf: &[u8], pos: usize) -> (r: Result<(GremlinValue, usize), DecodeError>)
    requires
        pos <= buf@.len(),
        !(parse_partial_value(ct, buf@.skip(pos as int)) is Abort),
    ensures
        decoded(parse_partial_value(ct, buf@.skip(pos as int)), r, pos as int, buf@.len() as int),
    decreases buf@.len() - pos, 5int,
{
    proof {
        reveal_with_fuel(parse_partial_value, 1);
        reveal(parse_leaf);
    }
    match ct {
        CoreType::Int32 => match i32::partial_decode(buf, pos) {
            Ok((x, q)) => Ok((GremlinValue::Int(x), q)),
            Err(e) => Err(e),
        },
        CoreType::Long => match i64::partial_decode(buf, pos) {
            Ok((x, q)) => Ok((GremlinValue::Long(x), q)),
            Err(e) => Err(e),
        },
        CoreType::String => match partial_decode_string(buf, pos) {
            Ok((x, q)) => Ok((GremlinValue::String(x), q)),
            Err(e) => Err(e),
        },
        CoreType::Class => match partial_decode_string(buf, pos) {
            Ok((x, q)) => Ok((GremlinValue::Class(x), q)),
            Err(e) => Err(e),
        },
        CoreType::Double => {
            if buf.len() - pos < 8 {
                Err(DecodeError::UnexpectedEof)
            } else {
                Ok((GremlinValue::Double(read_u64(buf, pos)), pos + 8))
            }
        },
        CoreType::Float => {
            if buf.len() - pos < 4 {
                Err(DecodeError::UnexpectedEof)
            } else {
                Ok((GremlinValue::Float(read_u32(buf, pos)), pos + 4))
            }
        },
        CoreType::List => match decode_value_list(buf, pos) {
            Ok((xs, q)) => Ok((GremlinValue::List(xs), q)),
            Err(e) => Err(e),
        },
        CoreType::SetType => match decode_value_list(buf, pos) {
            Ok((xs, q)) => Ok((GremlinValue::SetValue(xs), q)),
            Err(e) => Err(e),
        },
        CoreType::MapType => match decode_map(buf, pos) {
            Ok((es, q)) => Ok((GremlinValue::MapValue(es), q)),
            Err(e) => Err(e),
        },
        CoreType::Uuid => match u128::partial_decode(buf, pos) {
            Ok((x, q)) => Ok((GremlinValue::Uuid(x), q)),
            Err(e) => Err(e),
        },
        CoreType::Barrier => match Barrier::partial_decode(buf, pos) {
            Ok((x, q)) => Ok((GremlinValue::Barrier(x), q)),
            Err(e) => Err(e),
        },
        CoreType::Binding => decode_binding(buf, pos),
        CoreType::Edge => decode_element(ct, buf, pos),
        CoreType::Path => decode_element(ct, buf, pos),
        CoreType::Property => decode_element(ct, buf, pos),
        CoreType::Vertex => decode_element(ct, buf, pos),
        CoreType::VertexProperty => decode_element(ct, buf, pos),
        CoreType::Cardinality => match Cardinality::partial_decode(buf, pos) {
            Ok((x, q)) => Ok((GremlinValue::Cardinality(x), q)),
            Err(e) => Err(e),
        },
        CoreType::Column => match Column::partial_decode(buf, pos) {
            Ok((x, q)) => Ok((GremlinValue::Column(x), q)),
            Err(e) => Err(e),
        },
        CoreType::Direction => match Direction::partial_decode(buf, pos) {
            Ok((x, q)) => Ok((GremlinValue::Direction(x), q)),
            Err(e) => Err(e),
        },
        CoreType::Operator => match Operator::partial_decode(buf, pos) {
            Ok((x, q)) => Ok((GremlinValue::Operator(x), q)),
            Err(e) => Err(e),
        },
        CoreType::Order => match Order::partial_decode(buf, pos) {
            Ok((x, q)) => Ok((GremlinValue::Order(x), q)),
            Err(e) => Err(e),
        },
        CoreType::Pick => match Pick::partial_decode(buf, pos) {
            Ok((x, q)) => Ok((GremlinValue::Pick(x), q)),
            Err(e) => Err(e),
        },
        CoreType::Pop => match Pop::partial_decode(buf, pos) {
            Ok((x, q)) => Ok((GremlinValue::Pop(x), q)),
            Err(e) => Err(e),
        },
        CoreType::Lambda => match Lambda::partial_decode(buf, pos) {
            Ok((x, q)) => Ok((GremlinValue::Lambda(x), q)),
            Err(e) => Err(e),
        },
        CoreType::Scope => match Scope::partial_decode(buf, pos) {
            Ok((x, q)) => Ok((GremlinValue::Scope(x), q)),
            Err(e) => Err(e),
        },
        CoreType::T => match T::partial_decode(buf, pos) {
            Ok((x, q)) => Ok((GremlinValue::T(x), q)),
            Err(e) => Err(e),
        },
        CoreType::Traverser => decode_traverser(buf, pos),
        CoreType::Byte => match u8::partial_decode(buf, pos) {
            Ok((x, q)) => Ok((GremlinValue::Byte(x), q)),
            Err(e) => Err(e),
        },
        CoreType::ByteBuffer => match ByteBuffer::partial_decode(buf, pos) {
            Ok((x, q)) => Ok((GremlinValue::ByteBuffer(x), q)),
            Err(e) => Err(e),
        },
        CoreType::Short => match i16::partial_decode(buf, pos) {
            Ok((x, q)) => Ok((GremlinValue::Short(x), q)),
            Err(e) => Err(e),
        },
        CoreType::Boolean => match bool::partial_decode(buf, pos) {
            Ok((x, q)) => Ok((GremlinValue::Boolean(x), q)),
            Err(e) => Err(e),
        },
        CoreType::BulkSet => decode_bulk_set(buf, pos),
        CoreType::Merge => match Merge::partial_decode(buf, pos) {
            Ok((x, q)) => Ok((GremlinValue::Merge(x), q)),
            Err(e) => Err(e),
        },
        CoreType::Char => match char::partial_decode(buf, pos) {
            Ok((x, q)) => Ok((GremlinValue::Char(x), q)),
            Err(e) => Err(e),
        },
        CoreType::UnspecifiedNullObject => Err(DecodeError::InvalidValueFlag),
        _ => Err(DecodeError::UnsupportedType),
    }
}

/// Reads a list of values at `pos`: a count, then the values.
pub(crate) fn decode_value_list(buf: &[u8], pos: usize) -> (r: Result<(Vec<GremlinValue>, usize), DecodeError>)
    requires
        pos <= buf@.len(),
        !(parse_value_list(buf@.skip(pos as int)) is Abort),
    ensures
        read_as(
            parse_value_list(buf@.skip(pos as int)),
            r,
            pos as int,
            buf@.len() as int,
            |xs: Vec<GremlinValue>| values_view(xs@),
        ),
    decreases buf@.len() - pos, 1int,
{
    proof {
        reveal_with_fuel(parse_value_list, 1);
        reveal_with_fuel(parse_values, 1);
    }
    let (len, p4) = match decode_i32_at(buf, pos) {
        Ok(x) => x,
        Err(e) => return Err(e),
    };
    if len < 0 {
        return Err(DecodeError::NegativeLength);
    }
    let n = len as usize;
    let ghost s = buf@.skip(p4 as int);
    proof {
        assert(buf@.skip(pos as int).skip(4) =~= s);
    }
    let mut xs: Vec<GremlinValue> = Vec::new();
    let mut q = p4;
    let mut i: usize = 0;
    while i < n
        invariant
            p4 == pos + 4,
            p4 <= q <= buf@.len(),
            i <= n,
            n == len,
            s == buf@.skip(p4 as int),
            buf@.skip(pos as int).skip(4) == s,
            parse_i32(buf@.skip(pos as int)) == Parsed::Done(len, 4),
            parse_values(s, i as nat) == Parsed::Done(values_view(xs@), q - p4),
            !(parse_values(s, n as nat) is Abort),
        decreases n - i,
    {
        proof {
            assert(s.skip(q - p4) =~= buf@.skip(q as int));
            if parse_value(buf@.skip(q as int)) is Abort {
                lemma_values_stuck(s, (i + 1) as nat, n as nat);
            }
        }
        let (x, q2) = match decode(buf, q) {
            Ok(r) => r,
            Err(e) => {
                proof {
                    assert(parse_value(s.skip(q - p4)) == Parsed::<GValue>::Fail(e));
                    assert(parse_values(s, (i + 1) as nat) == Parsed::<Seq<GValue>>::Fail(e));
                    lemma_values_stuck(s, (i + 1) as nat, n as nat);
                }
                return Err(e);
            },
        };
        proof {
            assert(xs@.push(x).subrange(0, xs@.len() as int) =~= xs@);
        }
        xs.push(x);
        q = q2;
        i = i + 1;
    }
    Ok((xs, q))
}

/// Whether two keys are equal.
fn keys_equal(a: &MapKeys, b: &MapKeys) -> (r: bool)
    ensures
        r == (key_view(*a) == key_view(*b)),
{
    match a {
        MapKeys::Int(x) => match b {
            MapKeys::Int(y) => *x == *y,
            _ => false,
        },
        MapKeys::String(x) => match b {
            MapKeys::String(y) => str_eq(x.as_str(), y.as_str()),
            _ => false,
        },
        MapKeys::Long(x) => match b {
            MapKeys::Long(y) => *x == *y,
            _ => false,
        },
        MapKeys::Uuid(x) => match b {
            MapKeys::Uuid(y) => *x == *y,
            _ => false,
        },
        MapKeys::T(x) => match b {
            MapKeys::T(y) => *x == *y,
            _ => false,
        },
        MapKeys::Direction(x) => match b {
            MapKeys::Direction(y) => *x == *y,
            _ => false,
        },
    }
}

/// The key that a value stands for, if it can be one.
pub fn value_to_key(v: GremlinValue) -> (r: Option<MapKeys>)
    ensures
        r matches Some(k) ==> value_key(value_view(v)) == Some(key_view(k)),
        r is None <==> value_key(value_view(v)) is None,
{
    proof {
        reveal_with_fuel(edge_view, 1);
        reveal_with_fuel(property_view, 1);
        reveal_with_fuel(vertex_view, 1);
        reveal_with_fuel(vertex_property_view, 1);
    }
    proof {
        reveal_with_fuel(value_view, 2);
    }
    match v {
        GremlinValue::Int(x) => Some(MapKeys::Int(x)),
        GremlinValue::String(x) => Some(MapKeys::String(x)),
        GremlinValue::Long(x) => Some(MapKeys::Long(x)),
        GremlinValue::Uuid(x) => Some(MapKeys::Uuid(x)),
        GremlinValue::T(x) => Some(MapKeys::T(x)),
        GremlinValue::Direction(x) => Some(MapKeys::Direction(x)),
        _ => None,
    }
}

/// The key index of a map is found among its first `j` entries when none after them has the
/// key.
proof fn lemma_key_index_prefix(m: Seq<(KeyModel, GValue)>, k: KeyModel, j: int)
    requires
        0 <= j <= m.len(),
        forall|t: int| j <= t < m.len() ==> m[t].0 != k,
    ensures
        key_index(m, k) == key_index(m.subrange(0, j), k),
    decreases m.len(),
{
    if j < m.len() {
        lemma_key_index_prefix(m.subrange(0, m.len() - 1), k, j);
        assert(m.subrange(0, m.len() - 1).subrange(0, j) =~= m.subrange(0, j));
    } else {
        assert(m.subrange(0, j) =~= m);
    }
}

/// Puts `v` at key `k`: replaces the entry of `k` where there is one, else adds it at the end.
fn map_insert_entry(m: &mut Vec<(MapKeys, GremlinValue)>, k: MapKeys, v: GremlinValue)
    ensures
        entries_view(final(m)@) == map_insert(entries_view(old(m)@), key_view(k), value_view(v)),
{
    let ghost kv = key_view(k);
    let ghost mv = entries_view(m@);
    proof {
        lemma_entries_view(m@);
    }
    let mut j: usize = m.len();
    while j > 0
        invariant
            j <= m@.len(),
            m@ == old(m)@,
            kv == key_view(k),
            mv == entries_view(m@),
            mv.len() == m@.len(),
            forall|t: int| 0 <= t < m@.len() ==> #[trigger] mv[t] == (key_view(m@[t].0), value_view(m@[t].1)),
            forall|t: int| j <= t < m@.len() ==> mv[t].0 != kv,
        decreases j,
    {
        if keys_equal(&m[j - 1].0, &k) {
            proof {
                lemma_key_index_prefix(mv, kv, j as int);
                assert(mv.subrange(0, j as int).subrange(0, j - 1) =~= mv.subrange(0, j - 1));
            }
            let ghost old_m = m@;
            let ghost vv = value_view(v);
            m.set(j - 1, (k, v));
            proof {
                lemma_entries_view(m@);
                assert(m@ == old_m.update(j - 1, (k, v)));
                assert(m@[j - 1] == (k, v));
                assert(entries_view(m@)[j - 1] == (key_view(k), value_view(v)));
                assert(entries_view(m@)[j - 1] == (kv, vv));
                assert forall|t: int| 0 <= t < m@.len() && t != j - 1 implies #[trigger] entries_view(m@)[t] == mv[t] by {
                    assert(m@[t] == old_m[t]);
                    assert(mv[t] == (key_view(old_m[t].0), value_view(old_m[t].1)));
                }
                assert(entries_view(m@) =~= mv.update(j - 1, (kv, vv)));
                assert(key_index(mv, kv) == j - 1);
            }
            return;
        }
        j = j - 1;
    }
    proof {
        lemma_key_index_prefix(mv, kv, 0);
    }
    let ghost old_m = m@;
    let ghost vv = value_view(v);
    m.push((k, v));
    proof {
        lemma_entries_view(m@);
        assert forall|t: int| 0 <= t < m@.len() implies #[trigger] entries_view(m@)[t] == mv.push((kv, vv))[t] by {
            if t < old_m.len() {
                assert(m@[t] == old_m[t]);
            }
        }
        assert(entries_view(m@) =~= mv.push((kv, vv)));
    }
}

/// Reads a map entry at `pos`: a key, then a value.
#[verifier::rlimit(100)]
#[verifier::spinoff_prover]
fn decode_entry(buf: &[u8], pos: usize) -> (r: Result<(MapKeys, GremlinValue, usize), DecodeError>)
    requires
        pos <= buf@.len(),
        !(parse_entry(buf@.skip(pos as int)) is Abort),
    ensures
        match parse_entry(buf@.skip(pos as int)) {
            Parsed::Done((k, v), n) => r matches Ok((kk, vv, q)) && key_view(kk) == k
                && value_view(vv) == v && q == pos + n && pos <= q <= buf@.len(),
            Parsed::Fail(e) => r == Err::<(MapKeys, GremlinValue, usize), DecodeError>(e),
            Parsed::Abort => false,
        },
    decreases buf@.len() - pos, 1int,
{
    proof {
        reveal_with_fuel(parse_entry, 1);
    }
    let (kv, q1) = match decode(buf, pos) {
        Ok(r) => r,
        Err(e) => return Err(e),
    };
    let ghost kview = value_view(kv);
    let key = match value_to_key(kv) {
        Some(k) => k,
        None => return Err(DecodeError::InvalidMapKey),
    };
    proof {
        assert(buf@.skip(pos as int).skip(q1 - pos) =~= buf@.skip(q1 as int));
    }
    match decode(buf, q1) {
        Ok((v, q2)) => Ok((key, v, q2)),
        Err(e) => Err(e),
    }
}

/// Reads a map at `pos`: a count, then the entries, inserted in order.
#[verifier::rlimit(100)]
#[verifier::spinoff_prover]
fn decode_map(buf: &[u8], pos: usize) -> (r: Result<(Vec<(MapKeys, GremlinValue)>, usize), DecodeError>)
    requires
        pos <= buf@.len(),
        !(parse_map(buf@.skip(pos as int)) is Abort),
    ensures
        read_as(
            parse_map(buf@.skip(pos as int)),
            r,
            pos as int,
            buf@.len() as int,
            |es: Vec<(MapKeys, GremlinValue)>| GValue::MapValue(entries_view(es@)),
        ),
    decreases buf@.len() - pos, 1int,
{
    proof {
        reveal_with_fuel(parse_map, 1);
        reveal_with_fuel(parse_entries, 1);
    }
    let (len, p4) = match decode_i32_at(buf, pos) {
        Ok(x) => x,
        Err(e) => return Err(e),
    };
    let n = len as usize;
    let ghost s = buf@.skip(p4 as int);
    proof {
        assert(buf@.skip(pos as int).skip(4) =~= s);
    }
    let mut m: Vec<(MapKeys, GremlinValue)> = Vec::new();
    let ghost mut raw: Seq<(KeyModel, GValue)> = seq![];
    let mut q = p4;
    let mut i: usize = 0;
    while i < n
        invariant
            p4 == pos + 4,
            p4 <= q <= buf@.len(),
            len >= 0,
            i <= n,
            n == len,
            s == buf@.skip(p4 as int),
            buf@.skip(pos as int).skip(4) == s,
            parse_i32(buf@.skip(pos as int)) == Parsed::Done(len, 4),
            parse_entries(s, i as nat) == Parsed::Done(raw, q - p4),
            entries_view(m@) == map_from_entries(raw),
            !(parse_entries(s, n as nat) is Abort),
        decreases n - i,
    {
        proof {
            assert(s.skip(q - p4) =~= buf@.skip(q as int));
            if parse_entry(buf@.skip(q as int)) is Abort {
                lemma_entries_stuck(s, (i + 1) as nat, n as nat);
            }
        }
        let (key, v, q2) = match decode_entry(buf, q) {
            Ok(r) => r,
            Err(e) => {
                proof {
                    assert(parse_entries(s, (i + 1) as nat) == Parsed::<Seq<(KeyModel, GValue)>>::Fail(e));
                    lemma_entries_stuck(s, (i + 1) as nat, n as nat);
                }
                return Err(e);
            },
        };
        let ghost e = (key_view(key), value_view(v));
        proof {
            let r2 = raw.push(e);
            assert(r2.subrange(0, r2.len() - 1) =~= raw);
        }
        map_insert_entry(&mut m, key, v);
        proof {
            raw = raw.push(e);
        }
        q = q2;
        i = i + 1;
    }
    Ok((m, q))
}

/// Reads the partial form of a graph element of type `ct` at `pos`.
fn decode_element(ct: CoreType, buf: &[u8], pos: usize) -> (r: Result<(GremlinValue, usize), DecodeError>)
    requires
        pos <= buf@.len(),
        !(parse_element(ct, buf@.skip(pos as int)) is Abort),
    ensures
        decoded(parse_element(ct, buf@.skip(pos as int)), r, pos as int, buf@.len() as int),
    decreases buf@.len() - pos, 4int,
{
    match ct {
        CoreType::Edge => match decode_edge(buf, pos) {
            Ok((x, q)) => Ok((GremlinValue::Edge(x), q)),
            Err(e) => Err(e),
        },
        CoreType::Path => match decode_path(buf, pos) {
            Ok((x, q)) => Ok((GremlinValue::Path(x), q)),
            Err(e) => Err(e),
        },
        CoreType::Property => match decode_property(buf, pos) {
            Ok((x, q)) => Ok((GremlinValue::Property(x), q)),
            Err(e) => Err(e),
        },
        CoreType::Vertex => match decode_vertex(buf, pos) {
            Ok((x, q)) => Ok((GremlinValue::Vertex(x), q)),
            Err(e) => Err(e),
        },
        CoreType::VertexProperty => match decode_vertex_property(buf, pos) {
            Ok((x, q)) => Ok((GremlinValue::VertexProperty(x), q)),
            Err(e) => Err(e),
        },
        _ => Err(DecodeError::UnsupportedType),
    }
}

/// Reads a fully qualified list of values at `pos`.
fn decode_fq_value_list(buf: &[u8], pos: usize) -> (r: Result<(Vec<GremlinValue>, usize), DecodeError>)
    requires
        pos <= buf@.len(),
        !(parse_fq_value_list(buf@.skip(pos as int)) is Abort),
    ensures
        read_as(
            parse_fq_value_list(buf@.skip(pos as int)),
            r,
            pos as int,
            buf@.len() as int,
            |xs: Vec<GremlinValue>| values_view(xs@),
        ),
    decreases buf@.len() - pos, 1int,
{
    if buf.len() - pos < 2 {
        return Err(DecodeError::UnexpectedEof);
    }
    if buf[pos] == 0x09u8 && buf[pos + 1] == 0x00u8 {
        proof {
            assert(buf@.skip(pos as int).skip(2) =~= buf@.skip(pos + 2));
        }
        decode_value_list(buf, pos + 2)
    } else {
        Err(DecodeError::TypeMismatch)
    }
}

/// Reads the partial form of a path at `pos`: its labels, then its objects.
#[verifier::rlimit(100)]
#[verifier::spinoff_prover]
fn decode_path(buf: &[u8], pos: usize) -> (r: Result<(Path, usize), DecodeError>)
    requires
        pos <= buf@.len(),
        !(parse_path(buf@.skip(pos as int)) is Abort),
    ensures
        read_as(parse_path(buf@.skip(pos as int)), r, pos as int, buf@.len() as int, |x: Path| path_view(x)),
    decreases buf@.len() - pos, 3int,
{
    let (labels, q1) = match decode_path_labels(buf, pos) {
        Ok(x) => x,
        Err(e) => return Err(e),
    };
    proof {
        assert(buf@.skip(pos as int).skip(q1 - pos) =~= buf@.skip(q1 as int));
    }
    let (objects, q2) = match decode_fq_value_list(buf, q1) {
        Ok(x) => x,
        Err(e) => return Err(e),
    };
    Ok((Path { labels, objects }, q2))
}

/// The models of a list of vertex properties that may be absent.
pub open spec fn opt_vertex_properties_view(o: Option<Vec<VertexProperty>>) -> Option<Seq<GValue>> {
    match o {
        Some(ps) => Some(vertex_properties_view(ps@)),
        None => None,
    }
}

/// The models of a list of properties that may be absent.
pub open spec fn opt_properties_view(o: Option<Vec<Property>>) -> Option<Seq<GValue>> {
    match o {
        Some(ps) => Some(properties_view(ps@)),
        None => None,
    }
}

/// The model of a vertex that may be absent.
pub open spec fn opt_vertex_view(o: Option<Vertex>) -> Option<Box<GValue>> {
    match o {
        Some(v) => Some(Box::new(vertex_view(v))),
        None => None,
    }
}

/// Once reading `i` values of a type has failed or given up, so has reading more.
pub proof fn lemma_typed_values_stuck(ct: CoreType, s: Seq<u8>, i: nat, n: nat)
    requires
        i <= n,
        !(parse_typed_values(ct, s, i) is Done),
    ensures
        parse_typed_values(ct, s, n) == parse_typed_values(ct, s, i),
    decreases n,
{
    reveal_with_fuel(parse_typed_values, 1);
    if n > i {
        lemma_typed_values_stuck(ct, s, i, (n - 1) as nat);
    }
}

/// Reads a vertex property behind its type code and the set flag.
fn decode_typed_vertex_property(buf: &[u8], pos: usize) -> (r: Result<(VertexProperty, usize), DecodeError>)
    requires
        pos <= buf@.len(),
        !(parse_typed(CoreType::VertexProperty, buf@.skip(pos as int)) is Abort),
    ensures
        read_as(
            parse_typed(CoreType::VertexProperty, buf@.skip(pos as int)),
            r,
            pos as int,
            buf@.len() as int,
            |x: VertexProperty| vertex_property_view(x),
        ),
    decreases buf@.len() - pos, 1int,
{
    proof {
        reveal_with_fuel(parse_typed, 1);
    }
    if buf.len() - pos < 2 {
        return Err(DecodeError::UnexpectedEof);
    }
    if buf[pos] == 0x12u8 && buf[pos + 1] == 0x00u8 {
        proof {
            assert(buf@.skip(pos as int).skip(2) =~= buf@.skip(pos + 2));
            assert(parse_element(CoreType::VertexProperty, buf@.skip(pos + 2)) == parse_vertex_property(
                buf@.skip(pos + 2),
            ));
        }
        decode_vertex_property(buf, pos + 2)
    } else {
        Err(DecodeError::TypeMismatch)
    }
}

/// Reads a property behind its type code and the set flag.
pub(crate) fn decode_typed_property(buf: &[u8], pos: usize) -> (r: Result<(Property, usize), DecodeError>)
    requires
        pos <= buf@.len(),
        !(parse_typed(CoreType::Property, buf@.skip(pos as int)) is Abort),
    ensures
        read_as(
            parse_typed(CoreType::Property, buf@.skip(pos as int)),
            r,
            pos as int,
            buf@.len() as int,
            |x: Property| property_view(x),
        ),
    decreases buf@.len() - pos, 1int,
{
    proof {
        reveal_with_fuel(parse_typed, 1);
    }
    if buf.len() - pos < 2 {
        return Err(DecodeError::UnexpectedEof);
    }
    if buf[pos] == 0x0fu8 && buf[pos + 1] == 0x00u8 {
        proof {
            assert(buf@.skip(pos as int).skip(2) =~= buf@.skip(pos + 2));
            assert(parse_element(CoreType::Property, buf@.skip(pos + 2)) == parse_property(
                buf@.skip(pos + 2),
            ));
        }
        decode_property(buf, pos + 2)
    } else {
        Err(DecodeError::TypeMismatch)
    }
}

/// Reads a list of vertex properties that may be absent.
#[verifier::rlimit(100)]
#[verifier::spinoff_prover]
fn decode_opt_vertex_properties(buf: &[u8], pos: usize) -> (r: Result<(Option<Vec<VertexProperty>>, usize), DecodeError>)
    requires
        pos <= buf@.len(),
        !(parse_opt_list(CoreType::VertexProperty, buf@.skip(pos as int)) is Abort),
    ensures
        read_as(
            parse_opt_list(CoreType::VertexProperty, buf@.skip(pos as int)),
            r,
            pos as int,
            buf@.len() as int,
            |o: Option<Vec<VertexProperty>>| opt_vertex_properties_view(o),
        ),
    decreases buf@.len() - pos, 0int,
{
    proof {
        reveal_with_fuel(parse_opt_list, 1);
        reveal_with_fuel(parse_typed_values, 1);
    }
    if buf.len() - pos < 2 {
        return Err(DecodeError::UnexpectedEof);
    }
    let code = buf[pos];
    let flag = buf[pos + 1];
    if code == 0x09u8 && flag == 0x00u8 {
        proof {
            assert(buf@.skip(pos as int).skip(2) =~= buf@.skip(pos + 2));
        }
        let (len, p6) = match decode_i32_at(buf, pos + 2) {
            Ok(x) => x,
            Err(e) => return Err(e),
        };
        if len < 0 {
            return Err(DecodeError::NegativeLength);
        }
        let n = len as usize;
        let ghost s = buf@.skip(p6 as int);
        proof {
            assert(buf@.skip(pos as int).skip(6) =~= s);
        }
        let mut xs: Vec<VertexProperty> = Vec::new();
        let mut q = p6;
        let mut i: usize = 0;
        while i < n
            invariant
                p6 == pos + 6,
                p6 <= q <= buf@.len(),
                buf@[pos as int] == 0x09u8,
                buf@[pos + 1] == 0x00u8,
                len >= 0,
                i <= n,
                n == len,
                s == buf@.skip(p6 as int),
                buf@.skip(pos as int).skip(6) == s,
                parse_i32(buf@.skip(pos as int).skip(2)) == Parsed::Done(len, 4),
                parse_typed_values(CoreType::VertexProperty, s, i as nat) == Parsed::Done(
                    vertex_properties_view(xs@),
                    q - p6,
                ),
                !(parse_typed_values(CoreType::VertexProperty, s, n as nat) is Abort),
            decreases n - i,
        {
            proof {
                assert(s.skip(q - p6) =~= buf@.skip(q as int));
                if parse_typed(CoreType::VertexProperty, buf@.skip(q as int)) is Abort {
                    lemma_typed_values_stuck(CoreType::VertexProperty, s, (i + 1) as nat, n as nat);
                }
            }
            let (x, q2) = match decode_typed_vertex_property(buf, q) {
                Ok(r) => r,
                Err(e) => {
                    proof {
                        assert(parse_typed(CoreType::VertexProperty, s.skip(q - p6)) == Parsed::<GValue>::Fail(e));
                        assert(parse_typed_values(CoreType::VertexProperty, s, (i + 1) as nat)
                            == Parsed::<Seq<GValue>>::Fail(e));
                        lemma_typed_values_stuck(CoreType::VertexProperty, s, (i + 1) as nat, n as nat);
                    }
                    return Err(e);
                },
            };
            proof {
                assert(xs@.push(x).subrange(0, xs@.len() as int) =~= xs@);
            }
            xs.push(x);
            q = q2;
            i = i + 1;
        }
        Ok((Some(xs), q))
    } else if code == 0xfeu8 && flag == 0x01u8 {
        Ok((None, pos + 2))
    } else if code == 0x09u8 && flag == 0x01u8 {
        Ok((None, pos + 2))
    } else if flag >= 2 {
        Err(DecodeError::InvalidValueFlag)
    } else {
        Err(DecodeError::TypeMismatch)
    }
}

/// Reads a list of properties that may be absent.
#[verifier::rlimit(100)]
#[verifier::spinoff_prover]
fn decode_opt_properties(buf: &[u8], pos: usize) -> (r: Result<(Option<Vec<Property>>, usize), DecodeError>)
    requires
        pos <= buf@.len(),
        !(parse_opt_list(CoreType::Property, buf@.skip(pos as int)) is Abort),
    ensures
        read_as(
            parse_opt_list(CoreType::Property, buf@.skip(pos as int)),
            r,
            pos as int,
            buf@.len() as int,
            |o: Option<Vec<Property>>| opt_properties_view(o),
        ),
    decreases buf@.len() - pos, 0int,
{
    proof {
        reveal_with_fuel(parse_opt_list, 1);
        reveal_with_fuel(parse_typed_values, 1);
    }
    if buf.len() - pos < 2 {
        return Err(DecodeError::UnexpectedEof);
    }
    let code = buf[pos];
    let flag = buf[pos + 1];
    if code == 0x09u8 && flag == 0x00u8 {
        proof {
            assert(buf@.skip(pos as int).skip(2) =~= buf@.skip(pos + 2));
        }
        let (len, p6) = match decode_i32_at(buf, pos + 2) {
            Ok(x) => x,
            Err(e) => return Err(e),
        };
        if len < 0 {
            return Err(DecodeError::NegativeLength);
        }
        let n = len as usize;
        let ghost s = buf@.skip(p6 as int);
        proof {
            assert(buf@.skip(pos as int).skip(6) =~= s);
        }
        let mut xs: Vec<Property> = Vec::new();
        let mut q = p6;
        let mut i: usize = 0;
        while i < n
            invariant
                p6 == pos + 6,
                p6 <= q <= buf@.len(),
                buf@[pos as int] == 0x09u8,
                buf@[pos + 1] == 0x00u8,
                len >= 0,
                i <= n,
                n == len,
                s == buf@.skip(p6 as int),
                buf@.skip(pos as int).skip(6) == s,
                parse_i32(buf@.skip(pos as int).skip(2)) == Parsed::Done(len, 4),
                parse_typed_values(CoreType::Property, s, i as nat) == Parsed::Done(
                    properties_view(xs@),
                    q - p6,
                ),
                !(parse_typed_values(CoreType::Property, s, n as nat) is Abort),
            decreases n - i,
        {
            proof {
                assert(s.skip(q - p6) =~= buf@.skip(q as int));
                if parse_typed(CoreType::Property, buf@.skip(q as int)) is Abort {
                    lemma_typed_values_stuck(CoreType::Property, s, (i + 1) as nat, n as nat);
                }
            }
            let (x, q2) = match decode_typed_property(buf, q) {
                Ok(r) => r,
                Err(e) => {
                    proof {
                        assert(parse_typed(CoreType::Property, s.skip(q - p6)) == Parsed::<GValue>::Fail(e));
                        assert(parse_typed_values(CoreType::Property, s, (i + 1) as nat)
                            == Parsed::<Seq<GValue>>::Fail(e));
                        lemma_typed_values_stuck(CoreType::Property, s, (i + 1) as nat, n as nat);
                    }
                    return Err(e);
                },
            };
            proof {
                assert(xs@.push(x).subrange(0, xs@.len() as int) =~= xs@);
            }
            xs.push(x);
            q = q2;
            i = i + 1;
        }
        Ok((Some(xs), q))
    } else if code == 0xfeu8 && flag == 0x01u8 {
        Ok((None, pos + 2))
    } else if code == 0x09u8 && flag == 0x01u8 {
        Ok((None, pos + 2))
    } else if flag >= 2 {
        Err(DecodeError::InvalidValueFlag)
    } else {
        Err(DecodeError::TypeMismatch)
    }
}

/// Reads a vertex that may be absent.
pub(crate) fn decode_opt_vertex(buf: &[u8], pos: usize) -> (r: Result<(Option<Vertex>, usize), DecodeError>)
    requires
        pos <= buf@.len(),
        !(parse_opt_typed(CoreType::Vertex, buf@.skip(pos as int)) is Abort),
    ensures
        read_as(
            parse_opt_typed(CoreType::Vertex, buf@.skip(pos as int)),
            r,
            pos as int,
            buf@.len() as int,
            |o: Option<Vertex>| opt_vertex_view(o),
        ),
    decreases buf@.len() - pos, 0int,
{
    proof {
        reveal_with_fuel(parse_opt_typed, 1);
    }
    if buf.len() - pos < 2 {
        return Err(DecodeError::UnexpectedEof);
    }
    let code = buf[pos];
    let flag = buf[pos + 1];
    if code == 0x11u8 && flag == 0x00u8 {
        proof {
            assert(buf@.skip(pos as int).skip(2) =~= buf@.skip(pos + 2));
            assert(parse_element(CoreType::Vertex, buf@.skip(pos + 2)) == parse_vertex(
                buf@.skip(pos + 2),
            ));
        }
        match decode_vertex(buf, pos + 2) {
            Ok((v, q)) => Ok((Some(v), q)),
            Err(e) => Err(e),
        }
    } else if code == 0xfeu8 && flag == 0x01u8 {
        Ok((None, pos + 2))
    } else if code == 0x11u8 && flag == 0x01u8 {
        Ok((None, pos + 2))
    } else if flag >= 2 {
        Err(DecodeError::InvalidValueFlag)
    } else {
        Err(DecodeError::TypeMismatch)
    }
}

/// Reads the element a property belongs to.
#[verifier::rlimit(100)]
#[verifier::spinoff_prover]
fn decode_parent(buf: &[u8], pos: usize) -> (r: Result<(EitherParent, usize), DecodeError>)
    requires
        pos <= buf@.len(),
        !(parse_parent(buf@.skip(pos as int)) is Abort),
    ensures
        read_as(
            parse_parent(buf@.skip(pos as int)),
            r,
            pos as int,
            buf@.len() as int,
            |p: EitherParent| parent_view(p),
        ),
    decreases buf@.len() - pos, 0int,
{
    proof {
        reveal_with_fuel(parent_view, 1);
    }
    proof {
        reveal_with_fuel(parse_parent, 1);
    }
    if buf.len() - pos < 2 {
        return Err(DecodeError::UnexpectedEof);
    }
    let ct = match CoreType::try_from_code(buf[pos]) {
        Ok(c) => c,
        Err(e) => return Err(e),
    };
    let flag = match ValueFlag::try_from_byte(buf[pos + 1]) {
        Ok(f) => f,
        Err(e) => return Err(e),
    };
    proof {
        assert(buf@.skip(pos as int).skip(2) =~= buf@.skip(pos + 2));
    }
    match (ct, flag) {
        (CoreType::Edge, ValueFlag::Present) => match decode_edge(buf, pos + 2) {
            Ok((e, q)) => Ok((EitherParent::Edge(e), q)),
            Err(e) => Err(e),
        },
        (CoreType::VertexProperty, ValueFlag::Present) => match decode_vertex_property(buf, pos + 2) {
            Ok((vp, q)) => Ok((EitherParent::VertexProperty(vp), q)),
            Err(e) => Err(e),
        },
        (CoreType::UnspecifiedNullObject, ValueFlag::Null) => Ok((EitherParent::NoParent, pos + 2)),
        _ => Err(DecodeError::TypeMismatch),
    }
}

/// Reads an id and a label at `pos`.
#[verifier::rlimit(100)]
#[verifier::spinoff_prover]
pub(crate) fn decode_id_label(buf: &[u8], pos: usize) -> (r: Result<(GremlinValue, String, usize), DecodeError>)
    requires
        pos <= buf@.len(),
        !(parse_id_label(buf@.skip(pos as int)) is Abort),
    ensures
        match parse_id_label(buf@.skip(pos as int)) {
            Parsed::Done((a, b), n) => r matches Ok((ra, rb, q)) && value_view(ra) == a && rb@ == b
                && q == pos + n && pos <= q <= buf@.len(),
            Parsed::Fail(err) => r == Err::<(GremlinValue, String, usize), DecodeError>(err),
            Parsed::Abort => false,
        },
    decreases buf@.len() - pos, 1int,
{
    proof {
        reveal_with_fuel(parse_id_label, 1);
    }
    let (id, q1) = match decode(buf, pos) {
        Ok(x) => x,
        Err(e) => return Err(e),
    };
    proof {
        assert(buf@.skip(pos as int).skip(q1 - pos) =~= buf@.skip(q1 as int));
    }
    let (label, q2) = match partial_decode_string(buf, q1) {
        Ok(x) => x,
        Err(e) => return Err(e),
    };
    proof {
        assert(buf@.skip(pos as int).skip(q2 - pos) =~= buf@.skip(q2 as int));
    }
    Ok((id, label, q2))
}

/// Reads the partial form of a vertex at `pos`.
#[verifier::rlimit(100)]
#[verifier::spinoff_prover]
fn decode_vertex(buf: &[u8], pos: usize) -> (r: Result<(Vertex, usize), DecodeError>)
    requires
        pos <= buf@.len(),
        !(parse_vertex(buf@.skip(pos as int)) is Abort),
    ensures
        read_as(parse_vertex(buf@.skip(pos as int)), r, pos as int, buf@.len() as int, |x: Vertex| vertex_view(x)),
    decreases buf@.len() - pos, 3int,
{
    proof {
        reveal_with_fuel(parse_vertex, 1);
    }
    let (id, label, q1) = match decode_id_label(buf, pos) {
        Ok(x) => x,
        Err(e) => return Err(e),
    };
    proof {
        assert(buf@.skip(pos as int).skip(q1 - pos) =~= buf@.skip(q1 as int));
    }
    let (properties, q2) = match decode_opt_vertex_properties(buf, q1) {
        Ok(x) => x,
        Err(e) => return Err(e),
    };
    Ok((Vertex { id: Box::new(id), label, properties }, q2))
}


/// Reads the links of an edge or a vertex property at `pos`: its parent vertex and its
/// properties.
#[verifier::rlimit(100)]
#[verifier::spinoff_prover]
fn decode_links(buf: &[u8], pos: usize) -> (r: Result<(Option<Vertex>, Option<Vec<Property>>, usize), DecodeError>)
    requires
        pos <= buf@.len(),
        !(parse_links(buf@.skip(pos as int)) is Abort),
    ensures
        match parse_links(buf@.skip(pos as int)) {
            Parsed::Done((a, b), n) => r matches Ok((ra, rb, q)) && opt_vertex_view(ra) == a
                && opt_properties_view(rb) == b && q == pos + n && pos <= q <= buf@.len(),
            Parsed::Fail(err) => r == Err::<(Option<Vertex>, Option<Vec<Property>>, usize), DecodeError>(err),
            Parsed::Abort => false,
        },
    decreases buf@.len() - pos, 1int,
{
    proof {
        reveal_with_fuel(parse_links, 1);
    }
    let (parent, q1) = match decode_opt_vertex(buf, pos) {
        Ok(x) => x,
        Err(e) => return Err(e),
    };
    proof {
        assert(buf@.skip(pos as int).skip(q1 - pos) =~= buf@.skip(q1 as int));
    }
    let (properties, q2) = match decode_opt_properties(buf, q1) {
        Ok(x) => x,
        Err(e) => return Err(e),
    };
    proof {
        assert(buf@.skip(pos as int).skip(q2 - pos) =~= buf@.skip(q2 as int));
    }
    Ok((parent, properties, q2))
}

/// Reads the partial form of a vertex property at `pos`.
#[verifier::rlimit(100)]
#[verifier::spinoff_prover]
fn decode_vertex_property(buf: &[u8], pos: usize) -> (r: Result<(VertexProperty, usize), DecodeError>)
    requires
        pos <= buf@.len(),
        !(parse_vertex_property(buf@.skip(pos as int)) is Abort),
    ensures
        read_as(
            parse_vertex_property(buf@.skip(pos as int)),
            r,
            pos as int,
            buf@.len() as int,
            |x: VertexProperty| vertex_property_view(x),
        ),
    decreases buf@.len() - pos, 3int,
{
    proof {
        reveal_with_fuel(parse_vertex_property, 1);
    }
    let (id, label, q1) = match decode_id_label(buf, pos) {
        Ok(x) => x,
        Err(e) => return Err(e),
    };
    proof {
        assert(buf@.skip(pos as int).skip(q1 - pos) =~= buf@.skip(q1 as int));
    }
    let (value, q2) = match decode(buf, q1) {
        Ok(x) => x,
        Err(e) => return Err(e),
    };
    proof {
        assert(buf@.skip(pos as int).skip(q2 - pos) =~= buf@.skip(q2 as int));
    }
    let (parent, properties, q3) = match decode_links(buf, q2) {
        Ok(x) => x,
        Err(e) => return Err(e),
    };
    Ok((
        VertexProperty { id: Box::new(id), label, value: Box::new(value), parent, properties },
        q3,
    ))
}

/// Reads the first fields of a property at `pos`: its key and its value.
#[verifier::rlimit(100)]
#[verifier::spinoff_prover]
fn decode_property_head(buf: &[u8], pos: usize) -> (r: Result<(String, GremlinValue, usize), DecodeError>)
    requires
        pos <= buf@.len(),
        !(parse_property_head(buf@.skip(pos as int)) is Abort),
    ensures
        match parse_property_head(buf@.skip(pos as int)) {
            Parsed::Done((a, b), n) => r matches Ok((ra, rb, q)) && ra@ == a && value_view(rb) == b
                && q == pos + n && pos <= q <= buf@.len(),
            Parsed::Fail(err) => r == Err::<(String, GremlinValue, usize), DecodeError>(err),
            Parsed::Abort => false,
        },
    decreases buf@.len() - pos, 1int,
{
    proof {
        reveal_with_fuel(parse_property_head, 1);
    }
    let (key, q1) = match partial_decode_string(buf, pos) {
        Ok(x) => x,
        Err(e) => return Err(e),
    };
    proof {
        assert(buf@.skip(pos as int).skip(q1 - pos) =~= buf@.skip(q1 as int));
    }
    let (value, q2) = match decode(buf, q1) {
        Ok(x) => x,
        Err(e) => return Err(e),
    };
    proof {
        assert(buf@.skip(pos as int).skip(q2 - pos) =~= buf@.skip(q2 as int));
    }
    Ok((key, value, q2))
}

/// Reads the partial form of a property at `pos`.
#[verifier::rlimit(100)]
#[verifier::spinoff_prover]
fn decode_property(buf: &[u8], pos: usize) -> (r: Result<(Property, usize), DecodeError>)
    requires
        pos <= buf@.len(),
        !(parse_property(buf@.skip(pos as int)) is Abort),
    ensures
        read_as(parse_property(buf@.skip(pos as int)), r, pos as int, buf@.len() as int, |x: Property| property_view(x)),
    decreases buf@.len() - pos, 3int,
{
    proof {
        reveal_with_fuel(parse_property, 1);
    }
    let (key, value, q1) = match decode_property_head(buf, pos) {
        Ok(x) => x,
        Err(e) => return Err(e),
    };
    proof {
        assert(buf@.skip(pos as int).skip(q1 - pos) =~= buf@.skip(q1 as int));
    }
    let (parent, q2) = match decode_parent(buf, q1) {
        Ok(x) => x,
        Err(e) => return Err(e),
    };
    Ok((Property { key, value: Box::new(value), parent }, q2))
}



/// Reads the partial form of an edge at `pos`.
#[verifier::rlimit(100)]
#[verifier::spinoff_prover]
fn decode_edge(buf: &[u8], pos: usize) -> (r: Result<(Edge, usize), DecodeError>)
    requires
        pos <= buf@.len(),
        !(parse_edge(buf@.skip(pos as int)) is Abort),
    ensures
        read_as(parse_edge(buf@.skip(pos as int)), r, pos as int, buf@.len() as int, |x: Edge| edge_view(x)),
    decreases buf@.len() - pos, 3int,
{
    proof {
        reveal_with_fuel(parse_edge, 1);
    }
    let (id, label, q1) = match decode_id_label(buf, pos) {
        Ok(x) => x,
        Err(e) => return Err(e),
    };
    proof {
        assert(buf@.skip(pos as int).skip(q1 - pos) =~= buf@.skip(q1 as int));
    }
    let (in_v_id, in_v_label, q2) = match decode_id_label(buf, q1) {
        Ok(x) => x,
        Err(e) => return Err(e),
    };
    proof {
        assert(buf@.skip(pos as int).skip(q2 - pos) =~= buf@.skip(q2 as int));
    }
    let (out_v_id, out_v_label, q3) = match decode_id_label(buf, q2) {
        Ok(x) => x,
        Err(e) => return Err(e),
    };
    proof {
        assert(buf@.skip(pos as int).skip(q3 - pos) =~= buf@.skip(q3 as int));
    }
    let (parent, properties, q4) = match decode_links(buf, q3) {
        Ok(x) => x,
        Err(e) => return Err(e),
    };
    Ok((
        Edge {
            id: Box::new(id),
            label,
            in_v_id: Box::new(in_v_id),
            in_v_label,
            out_v_id: Box::new(out_v_id),
            out_v_label,
            parent,
            properties,
        },
        q4,
    ))
}

/// Reads a binding at `pos`: a text, then a value.
fn decode_binding(buf: &[u8], pos: usize) -> (r: Result<(GremlinValue, usize), DecodeError>)
    requires
        pos <= buf@.len(),
        !(parse_binding(buf@.skip(pos as int)) is Abort),
    ensures
        decoded(parse_binding(buf@.skip(pos as int)), r, pos as int, buf@.len() as int),
    decreases buf@.len() - pos, 1int,
{
    proof {
        reveal_with_fuel(parse_binding, 1);
    }
    let (key, p1) = match partial_decode_string(buf, pos) {
        Ok(x) => x,
        Err(e) => return Err(e),
    };
    proof {
        assert(buf@.skip(pos as int).skip(p1 - pos) =~= buf@.skip(p1 as int));
    }
    match decode(buf, p1) {
        Ok((v, p2)) => Ok((GremlinValue::Binding { key, value: Box::new(v) }, p2)),
        Err(e) => Err(e),
    }
}

/// Reads a traverser at `pos`: a 64-bit bulk, then a value.
fn decode_traverser(buf: &[u8], pos: usize) -> (r: Result<(GremlinValue, usize), DecodeError>)
    requires
        pos <= buf@.len(),
        !(parse_traverser(buf@.skip(pos as int)) is Abort),
    ensures
        decoded(parse_traverser(buf@.skip(pos as int)), r, pos as int, buf@.len() as int),
    decreases buf@.len() - pos, 1int,
{
    proof {
        reveal_with_fuel(parse_traverser, 1);
    }
    let (bulk, p1) = match decode_i64_at(buf, pos) {
        Ok(x) => x,
        Err(e) => return Err(e),
    };
    proof {
        assert(buf@.skip(pos as int).skip(8) =~= buf@.skip(p1 as int));
    }
    match decode(buf, p1) {
        Ok((v, p2)) => Ok((GremlinValue::Traverser { bulk, value: Box::new(v) }, p2)),
        Err(e) => Err(e),
    }
}

/// Reads a bulk set at `pos`: a count, then the items.
#[verifier::rlimit(100)]
#[verifier::spinoff_prover]
fn decode_bulk_set(buf: &[u8], pos: usize) -> (r: Result<(GremlinValue, usize), DecodeError>)
    requires
        pos <= buf@.len(),
        !(parse_bulk_set(buf@.skip(pos as int)) is Abort),
    ensures
        decoded(parse_bulk_set(buf@.skip(pos as int)), r, pos as int, buf@.len() as int),
    decreases buf@.len() - pos, 1int,
{
    proof {
        reveal_with_fuel(parse_bulk_set, 1);
        reveal_with_fuel(parse_bulk_items, 1);
    }
    let (len, p4) = match decode_i32_at(buf, pos) {
        Ok(x) => x,
        Err(e) => return Err(e),
    };
    if len < 0 {
        return Err(DecodeError::NegativeLength);
    }
    let n = len as usize;
    let ghost s = buf@.skip(p4 as int);
    proof {
        assert(buf@.skip(pos as int).skip(4) =~= s);
    }
    let mut items: Vec<(GremlinValue, i64)> = Vec::new();
    let mut q = p4;
    let mut i: usize = 0;
    while i < n
        invariant
            p4 == pos + 4,
            p4 <= q <= buf@.len(),
            i <= n,
            n == len,
            s == buf@.skip(p4 as int),
            buf@.skip(pos as int).skip(4) == s,
            parse_i32(buf@.skip(pos as int)) == Parsed::Done(len, 4),
            parse_bulk_items(s, i as nat) == Parsed::Done(bulk_view(items@), q - p4),
            !(parse_bulk_items(s, n as nat) is Abort),
        decreases n - i,
    {
        proof {
            assert(s.skip(q - p4) =~= buf@.skip(q as int));
            if parse_value(buf@.skip(q as int)) is Abort {
                lemma_bulk_items_stuck(s, (i + 1) as nat, n as nat);
            }
        }
        let (v, q1) = match decode(buf, q) {
            Ok(r) => r,
            Err(e) => {
                proof {
                    assert(parse_value(s.skip(q - p4)) == Parsed::<GValue>::Fail(e));
                    assert(parse_bulk_items(s, (i + 1) as nat) == Parsed::<Seq<(GValue, i64)>>::Fail(e));
                    lemma_bulk_items_stuck(s, (i + 1) as nat, n as nat);
                }
                return Err(e);
            },
        };
        proof {
            assert(s.skip(q1 - p4) =~= buf@.skip(q1 as int));
            assert(parse_value(s.skip(q - p4)) == Parsed::Done(value_view(v), q1 - q));
        }
        let (bulk, q2) = match decode_i64_at(buf, q1) {
            Ok(x) => x,
            Err(e) => {
                proof {
                    assert(parse_i64(s.skip(q1 - p4)) == Parsed::<i64>::Fail(e));
                    assert(parse_bulk_items(s, (i + 1) as nat) == Parsed::<Seq<(GValue, i64)>>::Fail(e));
                    lemma_bulk_items_stuck(s, (i + 1) as nat, n as nat);
                }
                return Err(e);
            },
        };
        proof {
            assert(items@.push((v, bulk)).subrange(0, items@.len() as int) =~= items@);
        }
        items.push((v, bulk));
        q = q2;
        i = i + 1;
    }
    Ok((GremlinValue::BulkSet(items), q))
}

impl Vertex {
    /// Appends the fully qualified bytes of the vertex; a vertex that holds a value without a
    /// written form is not accepted.
    pub fn encode(&self, out: &mut Vec<u8>)
        requires
            encodable(vertex_view(*self)),
        ensures
            final(out)@ == old(out)@ + value_bytes(vertex_view(*self)),
    {
        encode_vertex(self, out)
    }
}

impl VertexProperty {
    /// Appends the fully qualified bytes of the vertex property; one that holds a value
    /// without a written form is not accepted.
    pub fn encode(&self, out: &mut Vec<u8>)
        requires
            encodable(vertex_property_view(*self)),
        ensures
            final(out)@ == old(out)@ + value_bytes(vertex_property_view(*self)),
    {
        encode_vertex_property(self, out)
    }
}

impl Property {
    /// Appends the fully qualified bytes of the property; one that holds a value without a
    /// written form is not accepted.
    pub fn encode(&self, out: &mut Vec<u8>)
        requires
            encodable(property_view(*self)),
        ensures
            final(out)@ == old(out)@ + value_bytes(property_view(*self)),
    {
        encode_property(self, out)
    }
}

impl Edge {
    /// Appends the fully qualified bytes of the edge; an edge that holds a value without a
    /// written form is not accepted.
    pub fn encode(&self, out: &mut Vec<u8>)
        requires
            encodable(edge_view(*self)),
        ensures
            final(out)@ == old(out)@ + value_bytes(edge_view(*self)),
    {
        encode_edge(self, out)
    }
}

impl Path {
    /// Appends the fully qualified bytes of the path; a path that holds a value without a
    /// written form is not accepted.
    pub fn encode(&self, out: &mut Vec<u8>)
        requires
            encodable(path_view(*self)),
        ensures
            final(out)@ == old(out)@ + value_bytes(path_view(*self)),
    {
        encode_path(self, out)
    }
}

impl DeepView for Path {
    type V = GValue;

    open spec fn deep_view(&self) -> GValue {
        path_view(*self)
    }
}

impl Decode for Path {
    /// A path behind its type code and the set flag.
    open spec fn spec_parse(s: Seq<u8>) -> Parsed<GValue> {
        parse_typed(CoreType::Path, s)
    }

    #[verifier::rlimit(100)]
    #[verifier::spinoff_prover]
    fn decode(buf: &[u8], pos: usize) -> (r: Result<(Path, usize), DecodeError>) {
        if buf.len() - pos < 2 {
            return Err(DecodeError::UnexpectedEof);
        }
        if buf[pos] == 0x0eu8 && buf[pos + 1] == 0x00u8 {
            proof {
                assert(buf@.skip(pos as int).skip(2) =~= buf@.skip(pos + 2));
                assert(parse_element(CoreType::Path, buf@.skip(pos + 2)) == parse_path(
                    buf@.skip(pos + 2),
                ));
            }
            decode_path(buf, pos + 2)
        } else {
            Err(DecodeError::TypeMismatch)
        }
    }
}

impl Decode for Vertex {
    /// A vertex behind its type code and the set flag.
    open spec fn spec_parse(s: Seq<u8>) -> Parsed<GValue> {
        parse_typed(CoreType::Vertex, s)
    }

    #[verifier::rlimit(100)]
    #[verifier::spinoff_prover]
    fn decode(buf: &[u8], pos: usize) -> (r: Result<(Vertex, usize), DecodeError>) {
        if buf.len() - pos < 2 {
            return Err(DecodeError::UnexpectedEof);
        }
        if buf[pos] == 0x11u8 && buf[pos + 1] == 0x00u8 {
            proof {
                assert(buf@.skip(pos as int).skip(2) =~= buf@.skip(pos + 2));
                assert(parse_element(CoreType::Vertex, buf@.skip(pos + 2)) == parse_vertex(
                    buf@.skip(pos + 2),
                ));
            }
            decode_vertex(buf, pos + 2)
        } else {
            Err(DecodeError::TypeMismatch)
        }
    }
}

impl Decode for VertexProperty {
    /// A vertex property behind its type code and the set flag.
    open spec fn spec_parse(s: Seq<u8>) -> Parsed<GValue> {
        parse_typed(CoreType::VertexProperty, s)
    }

    fn decode(buf: &[u8], pos: usize) -> (r: Result<(VertexProperty, usize), DecodeError>) {
        decode_typed_vertex_property(buf, pos)
    }
}

impl Decode for Property {
    /// A property behind its type code and the set flag.
    open spec fn spec_parse(s: Seq<u8>) -> Parsed<GValue> {
        parse_typed(CoreType::Property, s)
    }

    fn decode(buf: &[u8], pos: usize) -> (r: Result<(Property, usize), DecodeError>) {
        decode_typed_property(buf, pos)
    }
}

impl Decode for Edge {
    /// An edge behind its type code and the set flag.
    open spec fn spec_parse(s: Seq<u8>) -> Parsed<GValue> {
        parse_typed(CoreType::Edge, s)
    }

    #[verifier::rlimit(100)]
    #[verifier::spinoff_prover]
    fn decode(buf: &[u8], pos: usize) -> (r: Result<(Edge, usize), DecodeError>) {
        if buf.len() - pos < 2 {
            return Err(DecodeError::UnexpectedEof);
        }
        if buf[pos] == 0x0du8 && buf[pos + 1] == 0x00u8 {
            proof {
                assert(buf@.skip(pos as int).skip(2) =~= buf@.skip(pos + 2));
                assert(parse_element(CoreType::Edge, buf@.skip(pos + 2)) == parse_edge(
                    buf@.skip(pos + 2),
                ));
            }
            decode_edge(buf, pos + 2)
        } else {
            Err(DecodeError::TypeMismatch)
        }
    }
}

impl Decode for GremlinValue {
    open spec fn spec_parse(s: Seq<u8>) -> Parsed<GValue> {
        parse_value(s)
    }

    fn decode(buf: &[u8], pos: usize) -> (r: Result<(GremlinValue, usize), DecodeError>) {
        decode(buf, pos)
    }
}


// ---------------------------------------------------------------------------
// Conversions
// ---------------------------------------------------------------------------

impl GremlinValue {
    /// Appends the fully qualified bytes of the value (see `build_fq_bytes`).
    pub fn encode(&self, out: &mut Vec<u8>)
        requires
            encodable(value_view(*self)),
        ensures
            final(out)@ == old(out)@ + value_bytes(value_view(*self)),
    {
        self.build_fq_bytes(out)
    }

    /// The value, or nothing for the unspecified null object.
    pub fn to_option(self) -> (r: Option<GremlinValue>)
        ensures
            self is UnspecifiedNullObject ==> r is None,
            !(self is UnspecifiedNullObject) ==> r == Some(self),
    {
        match self {
            GremlinValue::UnspecifiedNullObject => None,
            v => Some(v),
        }
    }
}

impl Default for GremlinValue {
    /// The unspecified null object.
    fn default() -> (r: GremlinValue)
        ensures
            r is UnspecifiedNullObject,
    {
        GremlinValue::UnspecifiedNullObject
    }
}

impl MapKeys {
    /// The value that the key stands for.
    pub fn into_value(self) -> (r: GremlinValue)
        ensures
            value_view(r) == key_value(key_view(self)),
    {
        match self {
            MapKeys::Int(x) => GremlinValue::Int(x),
            MapKeys::String(x) => GremlinValue::String(x),
            MapKeys::Long(x) => GremlinValue::Long(x),
            MapKeys::Uuid(x) => GremlinValue::Uuid(x),
            MapKeys::T(x) => GremlinValue::T(x),
            MapKeys::Direction(x) => GremlinValue::Direction(x),
        }
    }
}

} // verus!
