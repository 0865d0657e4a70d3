//! Reading values from their GraphSON 3 form.

use vstd::prelude::*;
use crate::enums::{Barrier, Cardinality, Column, Direction, Merge, Operator, Order, Pick, Pop, Scope, T};
use crate::error::GraphSonError;
use crate::element::{Edge, EitherParent, Path, Property, Vertex, VertexProperty};
use crate::extended::chars_of;
use crate::json::{json_view, jsons_view, lemma_jsons_view_len, lemma_members_view_len, members_view, Json, JsonView};
use crate::key_text::uuid_text;
use crate::primitives::str_eq;
use crate::structure::{ByteBuffer, Lambda, LambdaView, SetList};
use crate::value::{
    edge_view, entries_view, key_view, path_view, properties_view, property_view, value_view,
    values_view, vertex_properties_view, vertex_property_view, vertex_view, GValue, GremlinValue,
    KeyModel, MapKeys,
};

verus! {

/// The position of the last member named `k`, or -1 where there is none.
pub open spec fn last_index(ms: Seq<(Seq<char>, JsonView)>, k: Seq<char>) -> int
    decreases ms.len(),
{
    if ms.len() == 0 {
        -1
    } else if ms[ms.len() - 1].0 == k {
        ms.len() - 1
    } else {
        last_index(ms.subrange(0, ms.len() - 1), k)
    }
}

/// The position of a member lies among the members.
pub proof fn lemma_last_index(ms: Seq<(Seq<char>, JsonView)>, k: Seq<char>)
    ensures
        -1 <= last_index(ms, k) < ms.len(),
        last_index(ms, k) >= 0 ==> ms[last_index(ms, k)].0 == k,
    decreases ms.len(),
{
    if ms.len() > 0 && ms[ms.len() - 1].0 != k {
        let t = ms.subrange(0, ms.len() - 1);
        lemma_last_index(t, k);
        if last_index(t, k) >= 0 {
            assert(t[last_index(t, k)] == ms[last_index(t, k)]);
        }
    }
}

/// The type names whose values are read here.
pub open spec fn is_known_type(t: Seq<char>) -> bool {
    ||| t == "g:Int32"@ ||| t == "g:Int64"@ ||| t == "g:Class"@ ||| t == "g:Date"@
    ||| t == "g:Timestamp"@ ||| t == "g:Double"@ ||| t == "g:Float"@ ||| t == "g:List"@
    ||| t == "g:Map"@ ||| t == "g:UUID"@ ||| t == "g:Edge"@ ||| t == "g:Path"@
    ||| t == "g:Property"@ ||| t == "g:Vertex"@ ||| t == "g:VertexProperty"@
    ||| t == "g:Barrier"@ ||| t == "g:Binding"@ ||| t == "g:Cardinality"@ ||| t == "g:Column"@
    ||| t == "g:Direction"@ ||| t == "g:Lambda"@ ||| t == "g:Merge"@ ||| t == "g:Operator"@
    ||| t == "g:Order"@ ||| t == "g:Pick"@ ||| t == "g:Pop"@ ||| t == "g:Scope"@
    ||| t == "g:T"@ ||| t == "g:Traverser"@ ||| t == "gx:Byte"@ ||| t == "gx:ByteBuffer"@
    ||| t == "gx:Int16"@ ||| t == "gx:Char"@
}

/// The type names of values that a `GremlinValue` does not hold: graphs, bytecode, metrics,
/// predicates and numbers of any size.
pub open spec fn is_unheld_type(t: Seq<char>) -> bool {
    ||| t == "g:tinker:graph"@ ||| t == "g:Bytecode"@ ||| t == "g:Metrics"@ ||| t == "g:P"@
    ||| t == "g:TextP"@ ||| t == "g:TraversalMetrics"@ ||| t == "gx:BigDecimal"@
    ||| t == "gx:BigInteger"@
}

/// The error where a typed value of type `t` has no `@value` member: a class, a date, a
/// timestamp, a list or a character are of the wrong kind, others lack a member.
pub open spec fn missing_value_error(t: Seq<char>) -> GraphSonError {
    if t == "g:Class"@ || t == "g:Date"@ || t == "g:Timestamp"@ || t == "g:List"@ || t == "gx:Char"@ {
        GraphSonError::WrongJsonType
    } else {
        GraphSonError::KeyNotFound
    }
}

/// A text member of an object: the text, `KeyNotFound` where there is no member named `k`,
/// `WrongJsonType` where it is no text.
pub open spec fn text_member(ms: Seq<(Seq<char>, JsonView)>, k: Seq<char>) -> Result<Seq<char>, GraphSonError> {
    let i = last_index(ms, k);
    if i < 0 {
        Err(GraphSonError::KeyNotFound)
    } else {
        match ms[i].1 {
            JsonView::Str(s) => Ok(s),
            _ => Err(GraphSonError::WrongJsonType),
        }
    }
}

/// An element of an enum from a text: `UnknownEnumValue` for any other text, `WrongJsonType`
/// where the value is no text.
pub open spec fn enum_value(t: Seq<char>, v: JsonView) -> Result<GValue, GraphSonError> {
    match v {
        JsonView::Str(s) => {
            let r: Option<GValue> = if t == "g:Barrier"@ {
                match Barrier::spec_from_name(s) { Some(x) => Some(GValue::Barrier(x)), None => None }
            } else if t == "g:Cardinality"@ {
                match Cardinality::spec_from_name(s) { Some(x) => Some(GValue::Cardinality(x)), None => None }
            } else if t == "g:Column"@ {
                match Column::spec_from_name(s) { Some(x) => Some(GValue::Column(x)), None => None }
            } else if t == "g:Direction"@ {
                match Direction::spec_from_name(s) { Some(x) => Some(GValue::Direction(x)), None => None }
            } else if t == "g:Merge"@ {
                match Merge::spec_from_name(s) { Some(x) => Some(GValue::Merge(x)), None => None }
            } else if t == "g:Operator"@ {
                match Operator::spec_from_name(s) { Some(x) => Some(GValue::Operator(x)), None => None }
            } else if t == "g:Order"@ {
                match Order::spec_from_name(s) { Some(x) => Some(GValue::Order(x)), None => None }
            } else if t == "g:Pick"@ {
                match Pick::spec_from_name(s) { Some(x) => Some(GValue::Pick(x)), None => None }
            } else if t == "g:Pop"@ {
                match Pop::spec_from_name(s) { Some(x) => Some(GValue::Pop(x)), None => None }
            } else if t == "g:Scope"@ {
                match Scope::spec_from_name(s) { Some(x) => Some(GValue::Scope(x)), None => None }
            } else {
                match T::spec_from_name(s) { Some(x) => Some(GValue::T(x)), None => None }
            };
            match r {
                Some(g) => Ok(g),
                None => Err(GraphSonError::UnknownEnumValue),
            }
        },
        _ => Err(GraphSonError::WrongJsonType),
    }
}

/// Whether `t` names an enum.
pub open spec fn is_enum_type(t: Seq<char>) -> bool {
    ||| t == "g:Barrier"@ ||| t == "g:Cardinality"@ ||| t == "g:Column"@ ||| t == "g:Direction"@
    ||| t == "g:Merge"@ ||| t == "g:Operator"@ ||| t == "g:Order"@ ||| t == "g:Pick"@
    ||| t == "g:Pop"@ ||| t == "g:Scope"@ ||| t == "g:T"@
}

/// The key that a value stands for in a map, where it can be one.
pub open spec fn gvalue_key(g: GValue) -> Option<KeyModel> {
    match g {
        GValue::Int(x) => Some(KeyModel::Int(x)),
        GValue::Str(s) => Some(KeyModel::Str(s)),
        GValue::Long(x) => Some(KeyModel::Long(x)),
        GValue::Uuid(x) => Some(KeyModel::Uuid(x)),
        GValue::T(x) => Some(KeyModel::T(x)),
        GValue::Direction(x) => Some(KeyModel::Direction(x)),
        _ => None,
    }
}

/// The UUID that a text names, as `uuid::Uuid::parse_str` reads it.
pub uninterp spec fn uuid_text_value(s: Seq<char>) -> Option<u128>;

/// `uuid::Uuid::parse_str`, with the UUID taken as its 128-bit number (`as_u128`). Claimed:
/// the result depends on the text alone, and the hyphenated lower-case text of a UUID, which
/// the parser takes in its hyphenated form, reads back as that UUID. Which other texts it
/// takes (simple, braced, URN forms) is left to the name.
#[verifier::external_body]
fn uuid_parse(s: &str) -> (r: Option<u128>)
    ensures
        r == uuid_text_value(s@),
        forall|u: u128| s@ == uuid_text(u) ==> r == Some(u),
{
    match uuid::Uuid::parse_str(s) {
        Ok(u) => Some(u.as_u128()),
        Err(_) => None,
    }
}

/// The bytes of a text of one character per byte: each character cut to its low byte.
pub open spec fn latin1_bytes(s: Seq<char>) -> Seq<u8> {
    s.map_values(|c: char| (c as u32) as u8)
}

/// Reads a value from its GraphSON 3 form: the null value as the null object, booleans and
/// texts plain, and typed values by their type name. An object without a text `@type` is
/// `KeyNotFound`, a number or an array `WrongJsonType`, a type name that names no value
/// `WrongTypeIdentifier`, and that of a value that a `GremlinValue` does not hold
/// `UnsupportedType`.
pub open spec fn read_v3(j: JsonView) -> Result<GValue, GraphSonError>
    decreases j, 0int,
{
    match j {
        JsonView::Null => Ok(GValue::Null),
        JsonView::Bool(b) => Ok(GValue::Boolean(b)),
        JsonView::Str(s) => Ok(GValue::Str(s)),
        JsonView::Object(ms) => {
            let ti = last_index(ms, "@type"@);
            let vi = last_index(ms, "@value"@);
            proof {
                lemma_last_index(ms, "@type"@);
                lemma_last_index(ms, "@value"@);
            }
            if ti < 0 || !(ms[ti].1 is Str) {
                Err(GraphSonError::KeyNotFound)
            } else {
                let t = ms[ti].1->Str_0;
                if is_unheld_type(t) {
                    Err(GraphSonError::UnsupportedType)
                } else if !is_known_type(t) {
                    Err(GraphSonError::WrongTypeIdentifier)
                } else if vi < 0 {
                    Err(missing_value_error(t))
                } else {
                    read_typed_v3(t, ms[vi].1)
                }
            }
        },
        _ => Err(GraphSonError::WrongJsonType),
    }
}

/// Reads the `@value` member `v` of a value whose type name is `t`.
pub open spec fn read_typed_v3(t: Seq<char>, v: JsonView) -> Result<GValue, GraphSonError>
    decreases v, 0int,
{
    if t == "g:Int32"@ {
        match v {
            JsonView::Int(x) => if i32::MIN <= x <= i32::MAX {
                Ok(GValue::Int(x as i32))
            } else {
                Err(GraphSonError::WrongJsonType)
            },
            _ => Err(GraphSonError::WrongJsonType),
        }
    } else if t == "g:Int64"@ || t == "g:Date"@ || t == "g:Timestamp"@ {
        match v {
            JsonView::Int(x) => Ok(
                if t == "g:Int64"@ {
                    GValue::Long(x)
                } else if t == "g:Date"@ {
                    GValue::Date(x)
                } else {
                    GValue::Timestamp(x)
                },
            ),
            _ => Err(GraphSonError::WrongJsonType),
        }
    } else if t == "gx:Int16"@ {
        match v {
            JsonView::Int(x) => if i16::MIN <= x <= i16::MAX {
                Ok(GValue::Short(x as i16))
            } else {
                Err(GraphSonError::WrongJsonType)
            },
            _ => Err(GraphSonError::WrongJsonType),
        }
    } else if t == "gx:Byte"@ {
        match v {
            JsonView::Int(x) => if 0 <= x <= 255 {
                Ok(GValue::Byte(x as u8))
            } else {
                Err(GraphSonError::WrongJsonType)
            },
            _ => Err(GraphSonError::WrongJsonType),
        }
    } else if t == "g:Class"@ {
        match v {
            JsonView::Str(s) => Ok(GValue::Class(s)),
            _ => Err(GraphSonError::WrongJsonType),
        }
    } else if t == "g:Double"@ {
        match v {
            JsonView::Double(b) => Ok(GValue::Double(b)),
            _ => Err(GraphSonError::WrongJsonType),
        }
    } else if t == "g:Float"@ {
        match v {
            JsonView::Float(b) => Ok(GValue::Float(b)),
            _ => Err(GraphSonError::WrongJsonType),
        }
    } else if t == "g:UUID"@ {
        match v {
            JsonView::Str(s) => match uuid_text_value(s) {
                Some(u) => Ok(GValue::Uuid(u)),
                None => Err(GraphSonError::InvalidUuid),
            },
            _ => Err(GraphSonError::WrongJsonType),
        }
    } else if t == "gx:ByteBuffer"@ {
        match v {
            JsonView::Str(s) => Ok(GValue::ByteBuffer(latin1_bytes(s))),
            _ => Err(GraphSonError::WrongJsonType),
        }
    } else if t == "gx:Char"@ {
        match v {
            JsonView::Str(s) => if s.len() > 0 {
                Ok(GValue::Char(s[0]))
            } else {
                Err(GraphSonError::WrongJsonType)
            },
            _ => Err(GraphSonError::WrongJsonType),
        }
    } else if is_enum_type(t) {
        enum_value(t, v)
    } else if t == "g:List"@ {
        match v {
            JsonView::Array(xs) => match read_list_v3(xs) {
                Ok(gs) => Ok(GValue::List(gs)),
                Err(e) => Err(e),
            },
            _ => Err(GraphSonError::WrongJsonType),
        }
    } else if t == "g:Map"@ {
        match v {
            JsonView::Array(xs) => match read_entries_v3(xs) {
                Ok(es) => Ok(GValue::MapValue(es)),
                Err(e) => Err(e),
            },
            _ => Err(GraphSonError::WrongJsonType),
        }
    } else {
        match v {
            JsonView::Object(ms) => read_members_v3(t, ms),
            _ => Err(GraphSonError::KeyNotFound),
        }
    }
}

/// Reads the values of an array, in order; the first error stops the reading.
pub open spec fn read_list_v3(xs: Seq<JsonView>) -> Result<Seq<GValue>, GraphSonError>
    decreases xs, 0int,
{
    if xs.len() == 0 {
        Ok(seq![])
    } else {
        match read_list_v3(xs.subrange(0, xs.len() - 1)) {
            Ok(gs) => match read_v3(xs[xs.len() - 1]) {
                Ok(g) => Ok(gs.push(g)),
                Err(e) => Err(e),
            },
            Err(e) => Err(e),
        }
    }
}

/// Reads the entries of a map from an array of keys each followed by its value; a last key
/// without a value is left out.
pub open spec fn read_entries_v3(xs: Seq<JsonView>) -> Result<Seq<(KeyModel, GValue)>, GraphSonError>
    decreases xs, 0int,
{
    if xs.len() < 2 {
        Ok(seq![])
    } else if xs.len() % 2 == 1 {
        read_entries_v3(xs.subrange(0, xs.len() - 1))
    } else {
        match read_entries_v3(xs.subrange(0, xs.len() - 2)) {
            Ok(es) => match read_v3(xs[xs.len() - 2]) {
                Ok(kg) => match gvalue_key(kg) {
                    Some(k) => match read_v3(xs[xs.len() - 1]) {
                        Ok(g) => Ok(es.push((k, g))),
                        Err(e) => Err(e),
                    },
                    None => Err(GraphSonError::InvalidMapKey),
                },
                Err(e) => Err(e),
            },
            Err(e) => Err(e),
        }
    }
}

/// A value member of an object: the value read, `KeyNotFound` where there is no member
/// named `k`.
pub open spec fn value_member_v3(ms: Seq<(Seq<char>, JsonView)>, k: Seq<char>) -> Result<GValue, GraphSonError>
    decreases ms, 0int,
{
    let i = last_index(ms, k);
    proof {
        lemma_last_index(ms, k);
    }
    if i < 0 {
        Err(GraphSonError::KeyNotFound)
    } else {
        read_v3(ms[i].1)
    }
}

/// Reads the contents of an element, a path, a binding, a lambda or a traverser.
pub open spec fn read_members_v3(t: Seq<char>, ms: Seq<(Seq<char>, JsonView)>) -> Result<GValue, GraphSonError>
    decreases ms, 1int,
{
    if t == "g:Binding"@ || t == "g:Property"@ {
        match text_member(ms, "key"@) {
            Ok(k) => match value_member_v3(ms, "value"@) {
                Ok(g) => Ok(
                    if t == "g:Binding"@ {
                        GValue::Binding(k, Box::new(g))
                    } else {
                        GValue::Property { key: k, value: Box::new(g), parent: Box::new(GValue::Null) }
                    },
                ),
                Err(e) => Err(e),
            },
            Err(e) => Err(e),
        }
    } else if t == "g:Traverser"@ {
        match value_member_v3(ms, "bulk"@) {
            Ok(GValue::Long(b)) => match value_member_v3(ms, "value"@) {
                Ok(g) => Ok(GValue::Traverser(b, Box::new(g))),
                Err(e) => Err(e),
            },
            Ok(_) => Err(GraphSonError::WrongJsonType),
            Err(e) => Err(e),
        }
    } else if t == "g:Lambda"@ {
        match text_member(ms, "script"@) {
            Ok(script) => match text_member(ms, "language"@) {
                Ok(language) => {
                    let i = last_index(ms, "arguments"@);
                    if i < 0 {
                        Err(GraphSonError::KeyNotFound)
                    } else {
                        match ms[i].1 {
                            JsonView::Int(n) => Ok(
                                GValue::Lambda(LambdaView { language, script, arguments_length: n as i32 }),
                            ),
                            _ => Err(GraphSonError::WrongJsonType),
                        }
                    }
                },
                Err(e) => Err(e),
            },
            Err(e) => Err(e),
        }
    } else if t == "g:Edge"@ {
        match value_member_v3(ms, "id"@) {
            Ok(id) => match text_member(ms, "label"@) {
                Ok(label) => match value_member_v3(ms, "inV"@) {
                    Ok(in_id) => match text_member(ms, "inVLabel"@) {
                        Ok(in_label) => match value_member_v3(ms, "outV"@) {
                            Ok(out_id) => match text_member(ms, "outVLabel"@) {
                                Ok(out_label) => match object_member_v3(ms, "properties"@, 0) {
                                    Ok(properties) => Ok(GValue::Edge {
                                        id: Box::new(id),
                                        label,
                                        in_id: Box::new(in_id),
                                        in_label,
                                        out_id: Box::new(out_id),
                                        out_label,
                                        parent: None,
                                        properties,
                                    }),
                                    Err(e) => Err(e),
                                },
                                Err(e) => Err(e),
                            },
                            Err(e) => Err(e),
                        },
                        Err(e) => Err(e),
                    },
                    Err(e) => Err(e),
                },
                Err(e) => Err(e),
            },
            Err(e) => Err(e),
        }
    } else if t == "g:Vertex"@ {
        match value_member_v3(ms, "id"@) {
            Ok(id) => match text_member(ms, "label"@) {
                Ok(label) => match object_member_v3(ms, "properties"@, 1) {
                    Ok(properties) => Ok(GValue::Vertex { id: Box::new(id), label, properties }),
                    Err(e) => Err(e),
                },
                Err(e) => Err(e),
            },
            Err(e) => Err(e),
        }
    } else if t == "g:VertexProperty"@ {
        match value_member_v3(ms, "id"@) {
            Ok(id) => match text_member(ms, "label"@) {
                Ok(label) => match value_member_v3(ms, "value"@) {
                    Ok(value) => match object_member_v3(ms, "properties"@, 2) {
                        Ok(properties) => Ok(GValue::VertexProperty {
                            id: Box::new(id),
                            label,
                            value: Box::new(value),
                            parent: None,
                            properties,
                        }),
                        Err(e) => Err(e),
                    },
                    Err(e) => Err(e),
                },
                Err(e) => Err(e),
            },
            Err(e) => Err(e),
        }
    } else if t == "g:Path"@ {
        let li = last_index(ms, "labels"@);
        proof {
            lemma_last_index(ms, "labels"@);
        }
        if li < 0 {
            Err(GraphSonError::KeyNotFound)
        } else {
            match path_labels_value(ms[li].1) {
                Some(labels) => {
                    let oi = last_index(ms, "objects"@);
                    proof {
                        lemma_last_index(ms, "objects"@);
                    }
                    if oi < 0 {
                        Err(GraphSonError::KeyNotFound)
                    } else {
                        match ms[oi].1 {
                            JsonView::Object(lms) => match read_list_member_v3(lms) {
                                Ok(objects) => Ok(GValue::Path { labels, objects }),
                                Err(e) => Err(e),
                            },
                            _ => Err(GraphSonError::WrongJsonType),
                        }
                    }
                },
                None => Err(GraphSonError::WrongJsonType),
            }
        }
    } else {
        Err(GraphSonError::WrongTypeIdentifier)
    }
}

/// The `@value` array of a typed list `{"@type": "g:List", "@value": [...]}`, its values
/// read; `WrongJsonType` where the object is no such list.
pub open spec fn read_list_member_v3(lms: Seq<(Seq<char>, JsonView)>) -> Result<Seq<GValue>, GraphSonError>
    decreases lms, 0int,
{
    let ti = last_index(lms, "@type"@);
    let vi = last_index(lms, "@value"@);
    proof {
        lemma_last_index(lms, "@type"@);
        lemma_last_index(lms, "@value"@);
    }
    if ti >= 0 && lms[ti].1 == JsonView::Str("g:List"@) && vi >= 0 {
        match lms[vi].1 {
            JsonView::Array(xs) => read_list_v3(xs),
            _ => Err(GraphSonError::WrongJsonType),
        }
    } else {
        Err(GraphSonError::WrongJsonType)
    }
}

/// The elements of a typed collection `{"@type": t, "@value": [...]}`.
pub open spec fn typed_array(j: JsonView, t: Seq<char>) -> Option<Seq<JsonView>> {
    match j {
        JsonView::Object(ms) => {
            let ti = last_index(ms, "@type"@);
            let vi = last_index(ms, "@value"@);
            if ti >= 0 && ms[ti].1 == JsonView::Str(t) && vi >= 0 {
                match ms[vi].1 {
                    JsonView::Array(xs) => Some(xs),
                    _ => None,
                }
            } else {
                None
            }
        },
        _ => None,
    }
}

/// The texts of an array, where each element is one.
pub open spec fn texts_of(xs: Seq<JsonView>) -> Option<Seq<Seq<char>>>
    decreases xs.len(),
{
    if xs.len() == 0 {
        Some(seq![])
    } else {
        match texts_of(xs.subrange(0, xs.len() - 1)) {
            Some(ts) => match xs[xs.len() - 1] {
                JsonView::Str(s) => Some(ts.push(s)),
                _ => None,
            },
            None => None,
        }
    }
}

/// The label sets of a list of sets of texts.
pub open spec fn label_sets_of(xs: Seq<JsonView>) -> Option<Seq<Seq<Seq<char>>>>
    decreases xs.len(),
{
    if xs.len() == 0 {
        Some(seq![])
    } else {
        match label_sets_of(xs.subrange(0, xs.len() - 1)) {
            Some(ls) => match typed_array(xs[xs.len() - 1], "g:Set"@) {
                Some(ys) => match texts_of(ys) {
                    Some(ts) => Some(ls.push(ts)),
                    None => None,
                },
                None => None,
            },
            None => None,
        }
    }
}

/// The labels of a path: a list of sets of texts.
pub open spec fn path_labels_value(j: JsonView) -> Option<Seq<Seq<Seq<char>>>> {
    match typed_array(j, "g:List"@) {
        Some(xs) => label_sets_of(xs),
        None => None,
    }
}

/// The optional properties member of an element: absent or no object, none; else the
/// properties read from the object's members, as the kind `kind` says: an edge's (0), each
/// member a property; a vertex's (1), each member an array of vertex properties; a vertex
/// property's (2), each member a key and its value.
pub open spec fn object_member_v3(ms: Seq<(Seq<char>, JsonView)>, k: Seq<char>, kind: int) -> Result<Option<Seq<GValue>>, GraphSonError>
    decreases ms, 0int,
{
    let i = last_index(ms, k);
    proof {
        lemma_last_index(ms, k);
    }
    if i < 0 {
        Ok(None)
    } else {
        match ms[i].1 {
            JsonView::Object(pms) => match properties_v3(pms, kind) {
                Ok(ps) => Ok(Some(ps)),
                Err(e) => Err(e),
            },
            _ => Ok(None),
        }
    }
}

/// The properties read from the members of a properties object (see `object_member_v3`).
pub open spec fn properties_v3(pms: Seq<(Seq<char>, JsonView)>, kind: int) -> Result<Seq<GValue>, GraphSonError>
    decreases pms, 0int,
{
    if pms.len() == 0 {
        Ok(seq![])
    } else {
        match properties_v3(pms.subrange(0, pms.len() - 1), kind) {
            Ok(ps) => {
                let m = pms[pms.len() - 1];
                if kind == 0 {
                    match read_as_type_v3(m.1, "g:Property"@) {
                        Ok(p) => Ok(ps.push(p)),
                        Err(e) => Err(e),
                    }
                } else if kind == 1 {
                    match m.1 {
                        JsonView::Array(xs) => match vertex_properties_v3(xs) {
                            Ok(vps) => Ok(ps + vps),
                            Err(e) => Err(e),
                        },
                        _ => Ok(ps),
                    }
                } else {
                    match read_v3(m.1) {
                        Ok(g) => Ok(
                            ps.push(GValue::Property { key: m.0, value: Box::new(g), parent: Box::new(GValue::Null) }),
                        ),
                        Err(e) => Err(e),
                    }
                }
            },
            Err(e) => Err(e),
        }
    }
}

/// The vertex properties of an array, in order.
pub open spec fn vertex_properties_v3(xs: Seq<JsonView>) -> Result<Seq<GValue>, GraphSonError>
    decreases xs, 0int,
{
    if xs.len() == 0 {
        Ok(seq![])
    } else {
        match vertex_properties_v3(xs.subrange(0, xs.len() - 1)) {
            Ok(ps) => match read_as_type_v3(xs[xs.len() - 1], "g:VertexProperty"@) {
                Ok(p) => Ok(ps.push(p)),
                Err(e) => Err(e),
            },
            Err(e) => Err(e),
        }
    }
}

/// Reads a value that must be of type `t`: an object whose text `@type` is `t` and whose
/// `@value` is an object of the type's members. No object, no `@type` or no `@value` is
/// `KeyNotFound`, a `@type` that is no text `WrongJsonType`, another type name
/// `WrongTypeIdentifier`.
pub open spec fn read_as_type_v3(j: JsonView, t: Seq<char>) -> Result<GValue, GraphSonError>
    decreases j, 0int,
{
    match j {
        JsonView::Object(ms) => {
            let ti = last_index(ms, "@type"@);
            let vi = last_index(ms, "@value"@);
            proof {
                lemma_last_index(ms, "@type"@);
                lemma_last_index(ms, "@value"@);
            }
            if ti < 0 {
                Err(GraphSonError::KeyNotFound)
            } else {
                match ms[ti].1 {
                    JsonView::Str(tt) => if tt != t {
                        Err(GraphSonError::WrongTypeIdentifier)
                    } else if vi < 0 {
                        Err(GraphSonError::KeyNotFound)
                    } else {
                        match ms[vi].1 {
                            JsonView::Object(vms) => read_members_v3(t, vms),
                            _ => Err(GraphSonError::KeyNotFound),
                        }
                    },
                    _ => Err(GraphSonError::WrongJsonType),
                }
            }
        },
        _ => Err(GraphSonError::KeyNotFound),
    }
}

/// An executable reader's result `r` is the outcome `p` over the model `m`.
pub open spec fn read_as<T, V>(p: Result<V, GraphSonError>, r: Result<T, GraphSonError>, m: spec_fn(T) -> V) -> bool {
    match p {
        Ok(v) => r matches Ok(x) && m(x) == v,
        Err(e) => r == Err::<T, GraphSonError>(e),
    }
}

/// The position of the last member named `k`.
#[verifier::spinoff_prover]
fn find_member(ms: &Vec<(String, Json)>, k: &str) -> (r: Option<usize>)
    ensures
        match r {
            Some(i) => last_index(members_view(ms@), k@) == i && i < ms@.len(),
            None => last_index(members_view(ms@), k@) == -1,
        },
{
    let ghost mv = members_view(ms@);
    proof {
        lemma_members_view_len(ms@);
        assert(mv.subrange(0, 0).len() == 0);
    }
    let mut r: Option<usize> = None;
    let mut i: usize = 0;
    while i < ms.len()
        invariant
            i <= ms@.len(),
            mv == members_view(ms@),
            mv.len() == ms@.len(),
            forall|j: int| 0 <= j < ms@.len() ==> #[trigger] mv[j] == (ms@[j].0@, json_view(ms@[j].1)),
            match r {
                Some(x) => last_index(mv.subrange(0, i as int), k@) == x && x < i,
                None => last_index(mv.subrange(0, i as int), k@) == -1,
            },
        decreases ms@.len() - i,
    {
        let ghost b = mv.subrange(0, i + 1);
        proof {
            assert(b.subrange(0, i as int) =~= mv.subrange(0, i as int));
            assert(b[i as int].0 == ms@[i as int].0@);
        }
        if str_eq(ms[i].0.as_str(), k) {
            r = Some(i);
        }
        i = i + 1;
    }
    proof {
        assert(mv.subrange(0, i as int) =~= mv);
    }
    r
}

/// A text member (see `text_member`).
#[verifier::spinoff_prover]
fn text_member_exec(ms: &Vec<(String, Json)>, k: &str) -> (r: Result<String, GraphSonError>)
    ensures
        read_as(text_member(members_view(ms@), k@), r, |s: String| s@),
{
    proof {
        lemma_members_view_len(ms@);
    }
    match find_member(ms, k) {
        None => Err(GraphSonError::KeyNotFound),
        Some(i) => match &ms[i].1 {
            Json::Str(s) => Ok(s.clone()),
            _ => Err(GraphSonError::WrongJsonType),
        },
    }
}

/// An element of an enum from a text (see `enum_value`).
#[verifier::spinoff_prover]
fn enum_exec(t: &str, v: &Json) -> (r: Result<GremlinValue, GraphSonError>)
    requires
        is_enum_type(t@),
    ensures
        read_as(enum_value(t@, json_view(*v)), r, |x: GremlinValue| value_view(x)),
{
    match v {
        Json::Str(s) => {
            let n = s.as_str();
            if str_eq(t, "g:Barrier") {
                match Barrier::try_from_str(n) { Ok(x) => Ok(GremlinValue::Barrier(x)), Err(_) => Err(GraphSonError::UnknownEnumValue) }
            } else if str_eq(t, "g:Cardinality") {
                match Cardinality::try_from_str(n) { Ok(x) => Ok(GremlinValue::Cardinality(x)), Err(_) => Err(GraphSonError::UnknownEnumValue) }
            } else if str_eq(t, "g:Column") {
                match Column::try_from_str(n) { Ok(x) => Ok(GremlinValue::Column(x)), Err(_) => Err(GraphSonError::UnknownEnumValue) }
            } else if str_eq(t, "g:Direction") {
                match Direction::try_from_str(n) { Ok(x) => Ok(GremlinValue::Direction(x)), Err(_) => Err(GraphSonError::UnknownEnumValue) }
            } else if str_eq(t, "g:Merge") {
                match Merge::try_from_str(n) { Ok(x) => Ok(GremlinValue::Merge(x)), Err(_) => Err(GraphSonError::UnknownEnumValue) }
            } else if str_eq(t, "g:Operator") {
                match Operator::try_from_str(n) { Ok(x) => Ok(GremlinValue::Operator(x)), Err(_) => Err(GraphSonError::UnknownEnumValue) }
            } else if str_eq(t, "g:Order") {
                match Order::try_from_str(n) { Ok(x) => Ok(GremlinValue::Order(x)), Err(_) => Err(GraphSonError::UnknownEnumValue) }
            } else if str_eq(t, "g:Pick") {
                match Pick::try_from_str(n) { Ok(x) => Ok(GremlinValue::Pick(x)), Err(_) => Err(GraphSonError::UnknownEnumValue) }
            } else if str_eq(t, "g:Pop") {
                match Pop::try_from_str(n) { Ok(x) => Ok(GremlinValue::Pop(x)), Err(_) => Err(GraphSonError::UnknownEnumValue) }
            } else if str_eq(t, "g:Scope") {
                match Scope::try_from_str(n) { Ok(x) => Ok(GremlinValue::Scope(x)), Err(_) => Err(GraphSonError::UnknownEnumValue) }
            } else {
                match T::try_from_str(n) { Ok(x) => Ok(GremlinValue::T(x)), Err(_) => Err(GraphSonError::UnknownEnumValue) }
            }
        },
        _ => Err(GraphSonError::WrongJsonType),
    }
}

/// The bytes of a text of one character per byte.
#[verifier::spinoff_prover]
fn latin1_exec(s: &String) -> (r: Vec<u8>)
    ensures
        r@ == latin1_bytes(s@),
{
    let cs = chars_of(s.as_str());
    let mut r: Vec<u8> = Vec::new();
    let mut i: usize = 0;
    while i < cs.len()
        invariant
            i <= cs@.len(),
            cs@ == s@,
            r@ == latin1_bytes(cs@.subrange(0, i as int)),
        decreases cs@.len() - i,
    {
        let c = cs[i];
        #[verifier::truncate]
        let b = (c as u32) as u8;
        proof {
            assert(latin1_bytes(cs@.subrange(0, i + 1)) =~= latin1_bytes(cs@.subrange(0, i as int)).push(b));
        }
        r.push(b);
        i = i + 1;
    }
    proof {
        assert(cs@.subrange(0, i as int) =~= cs@);
    }
    r
}

/// The key that a value stands for in a map.
#[verifier::spinoff_prover]
fn value_to_key(v: GremlinValue) -> (r: Option<MapKeys>)
    ensures
        gvalue_key(value_view(v)) is None <==> r is None,
        r matches Some(x) ==> gvalue_key(value_view(v)) == Some(key_view(x)),
{
    let ghost g = value_view(v);
    proof {
        reveal_with_fuel(edge_view, 1);
        reveal_with_fuel(property_view, 1);
        reveal_with_fuel(vertex_view, 1);
        reveal_with_fuel(vertex_property_view, 1);
        reveal_with_fuel(path_view, 1);
    }
    let r = match v {
        GremlinValue::Int(x) => {
            assert(gvalue_key(g) == Some(KeyModel::Int(x)));
            assert(key_view(MapKeys::Int(x)) == KeyModel::Int(x));
            Some(MapKeys::Int(x))
        },
        GremlinValue::String(s) => {
            assert(gvalue_key(g) == Some(KeyModel::Str(s@)));
            Some(MapKeys::String(s))
        },
        GremlinValue::Long(x) => Some(MapKeys::Long(x)),
        GremlinValue::Uuid(x) => Some(MapKeys::Uuid(x)),
        GremlinValue::T(x) => Some(MapKeys::T(x)),
        GremlinValue::Direction(x) => Some(MapKeys::Direction(x)),
        GremlinValue::Date(_) => {
            assert(gvalue_key(g) is None);
            None
        },
        GremlinValue::Timestamp(_) => {
            assert(gvalue_key(g) is None);
            None
        },
        GremlinValue::Class(_) => {
            assert(gvalue_key(g) is None);
            None
        },
        GremlinValue::Double(_) => {
            assert(gvalue_key(g) is None);
            None
        },
        GremlinValue::Float(_) => {
            assert(gvalue_key(g) is None);
            None
        },
        GremlinValue::List(_) => {
            assert(gvalue_key(g) is None);
            None
        },
        GremlinValue::SetValue(_) => {
            assert(gvalue_key(g) is None);
            None
        },
        GremlinValue::MapValue(_) => {
            assert(gvalue_key(g) is None);
            None
        },
        GremlinValue::Edge(x) => {
            proof {
                reveal_with_fuel(edge_view, 1);
            }
            assert(g == edge_view(x));
            assert(gvalue_key(g) is None);
            None
        },
        GremlinValue::Path(x) => {
            proof {
                reveal_with_fuel(path_view, 1);
            }
            assert(g == path_view(x));
            assert(gvalue_key(g) is None);
            None
        },
        GremlinValue::Property(x) => {
            proof {
                reveal_with_fuel(property_view, 1);
            }
            assert(g == property_view(x));
            assert(gvalue_key(g) is None);
            None
        },
        GremlinValue::Vertex(x) => {
            proof {
                reveal_with_fuel(vertex_view, 1);
            }
            assert(g == vertex_view(x));
            assert(gvalue_key(g) is None);
            None
        },
        GremlinValue::VertexProperty(x) => {
            proof {
                reveal_with_fuel(vertex_property_view, 1);
            }
            assert(g == vertex_property_view(x));
            assert(gvalue_key(g) is None);
            None
        },
        GremlinValue::Barrier(_) => {
            assert(gvalue_key(g) is None);
            None
        },
        GremlinValue::Binding { .. } => {
            assert(gvalue_key(g) is None);
            None
        },
        GremlinValue::Cardinality(_) => {
            assert(gvalue_key(g) is None);
            None
        },
        GremlinValue::Column(_) => {
            assert(gvalue_key(g) is None);
            None
        },
        GremlinValue::Operator(_) => {
            assert(gvalue_key(g) is None);
            None
        },
        GremlinValue::Order(_) => {
            assert(gvalue_key(g) is None);
            None
        },
        GremlinValue::Pick(_) => {
            assert(gvalue_key(g) is None);
            None
        },
        GremlinValue::Pop(_) => {
            assert(gvalue_key(g) is None);
            None
        },
        GremlinValue::Lambda(_) => {
            assert(gvalue_key(g) is None);
            None
        },
        GremlinValue::Scope(_) => {
            assert(gvalue_key(g) is None);
            None
        },
        GremlinValue::Traverser { .. } => {
            assert(gvalue_key(g) is None);
            None
        },
        GremlinValue::Byte(_) => {
            assert(gvalue_key(g) is None);
            None
        },
        GremlinValue::ByteBuffer(_) => {
            assert(gvalue_key(g) is None);
            None
        },
        GremlinValue::Short(_) => {
            assert(gvalue_key(g) is None);
            None
        },
        GremlinValue::Boolean(_) => {
            assert(gvalue_key(g) is None);
            None
        },
        GremlinValue::BulkSet(_) => {
            assert(gvalue_key(g) is None);
            None
        },
        GremlinValue::Merge(_) => {
            assert(gvalue_key(g) is None);
            None
        },
        GremlinValue::UnspecifiedNullObject => {
            assert(gvalue_key(g) is None);
            None
        },
        GremlinValue::Char(_) => {
            assert(gvalue_key(g) is None);
            None
        },
    };
    proof {
        if gvalue_key(g) is Some {
            assert(g is Int || g is Str || g is Long || g is Uuid || g is T || g is Direction);
        }
    }
    r
}

/// A read stopped by an error in its first values stops with that error.
proof fn lemma_list_err(xs: Seq<JsonView>, k: int)
    requires
        0 <= k <= xs.len(),
        read_list_v3(xs.subrange(0, k)) is Err,
    ensures
        read_list_v3(xs) == read_list_v3(xs.subrange(0, k)),
    decreases xs.len(),
{
    if k == xs.len() {
        assert(xs.subrange(0, k) =~= xs);
    } else {
        let t = xs.subrange(0, xs.len() - 1);
        assert(t.subrange(0, k) =~= xs.subrange(0, k));
        lemma_list_err(t, k);
    }
}

/// A read of entries stopped by an error in its first entries stops with that error.
proof fn lemma_entries_err(xs: Seq<JsonView>, k: int, m: int)
    requires
        0 <= k <= m <= xs.len(),
        k % 2 == 0,
        read_entries_v3(xs.subrange(0, k)) is Err,
    ensures
        read_entries_v3(xs.subrange(0, m)) == read_entries_v3(xs.subrange(0, k)),
    decreases m,
{
    if m > k {
        let s = xs.subrange(0, m);
        if m % 2 == 1 {
            assert(s.subrange(0, m - 1) =~= xs.subrange(0, m - 1));
            lemma_entries_err(xs, k, m - 1);
        } else {
            assert(s.subrange(0, m - 2) =~= xs.subrange(0, m - 2));
            lemma_entries_err(xs, k, m - 2);
        }
    }
}

/// A read of properties stopped by an error in its first members stops with that error.
proof fn lemma_properties_err(pms: Seq<(Seq<char>, JsonView)>, kind: int, k: int)
    requires
        0 <= k <= pms.len(),
        properties_v3(pms.subrange(0, k), kind) is Err,
    ensures
        properties_v3(pms, kind) == properties_v3(pms.subrange(0, k), kind),
    decreases pms.len(),
{
    if k == pms.len() {
        assert(pms.subrange(0, k) =~= pms);
    } else {
        let t = pms.subrange(0, pms.len() - 1);
        assert(t.subrange(0, k) =~= pms.subrange(0, k));
        lemma_properties_err(t, kind, k);
    }
}

/// A read of vertex properties stopped by an error in its first values stops with that error.
proof fn lemma_vertex_properties_err(xs: Seq<JsonView>, k: int)
    requires
        0 <= k <= xs.len(),
        vertex_properties_v3(xs.subrange(0, k)) is Err,
    ensures
        vertex_properties_v3(xs) == vertex_properties_v3(xs.subrange(0, k)),
    decreases xs.len(),
{
    if k == xs.len() {
        assert(xs.subrange(0, k) =~= xs);
    } else {
        let t = xs.subrange(0, xs.len() - 1);
        assert(t.subrange(0, k) =~= xs.subrange(0, k));
        lemma_vertex_properties_err(t, k);
    }
}

/// Whether `t` names a value that a `GremlinValue` does not hold.
#[verifier::spinoff_prover]
fn is_unheld_exec(t: &str) -> (r: bool)
    ensures
        r == is_unheld_type(t@),
{
    str_eq(t, "g:tinker:graph") || str_eq(t, "g:Bytecode") || str_eq(t, "g:Metrics") || str_eq(t, "g:P")
        || str_eq(t, "g:TextP") || str_eq(t, "g:TraversalMetrics") || str_eq(t, "gx:BigDecimal")
        || str_eq(t, "gx:BigInteger")
}

/// Whether `t` names an enum.
#[verifier::spinoff_prover]
fn is_enum_exec(t: &str) -> (r: bool)
    ensures
        r == is_enum_type(t@),
{
    str_eq(t, "g:Barrier") || str_eq(t, "g:Cardinality") || str_eq(t, "g:Column") || str_eq(t, "g:Direction")
        || str_eq(t, "g:Merge") || str_eq(t, "g:Operator") || str_eq(t, "g:Order") || str_eq(t, "g:Pick")
        || str_eq(t, "g:Pop") || str_eq(t, "g:Scope") || str_eq(t, "g:T")
}

/// Whether `t` names a value that is read here.
#[verifier::spinoff_prover]
fn is_known_exec(t: &str) -> (r: bool)
    ensures
        r == is_known_type(t@),
{
    str_eq(t, "g:Int32") || str_eq(t, "g:Int64") || str_eq(t, "g:Class") || str_eq(t, "g:Date")
        || str_eq(t, "g:Timestamp") || str_eq(t, "g:Double") || str_eq(t, "g:Float") || str_eq(t, "g:List")
        || str_eq(t, "g:Map") || str_eq(t, "g:UUID") || str_eq(t, "g:Edge") || str_eq(t, "g:Path")
        || str_eq(t, "g:Property") || str_eq(t, "g:Vertex") || str_eq(t, "g:VertexProperty")
        || str_eq(t, "g:Barrier") || str_eq(t, "g:Binding") || str_eq(t, "g:Cardinality") || str_eq(t, "g:Column")
        || str_eq(t, "g:Direction") || str_eq(t, "g:Lambda") || str_eq(t, "g:Merge") || str_eq(t, "g:Operator")
        || str_eq(t, "g:Order") || str_eq(t, "g:Pick") || str_eq(t, "g:Pop") || str_eq(t, "g:Scope")
        || str_eq(t, "g:T") || str_eq(t, "g:Traverser") || str_eq(t, "gx:Byte") || str_eq(t, "gx:ByteBuffer")
        || str_eq(t, "gx:Int16") || str_eq(t, "gx:Char")
}

/// The error for a typed value without `@value` (see `missing_value_error`).
#[verifier::spinoff_prover]
fn missing_value_exec(t: &str) -> (r: GraphSonError)
    ensures
        r == missing_value_error(t@),
{
    if str_eq(t, "g:Class") || str_eq(t, "g:Date") || str_eq(t, "g:Timestamp") || str_eq(t, "g:List")
        || str_eq(t, "gx:Char") {
        GraphSonError::WrongJsonType
    } else {
        GraphSonError::KeyNotFound
    }
}

/// Reads a value from its GraphSON 3 form (see `read_v3`).
#[verifier::spinoff_prover]
fn decode_value_v3(j: &Json) -> (r: Result<GremlinValue, GraphSonError>)
    ensures
        read_as(read_v3(json_view(*j)), r, |x: GremlinValue| value_view(x)),
    decreases j, 0int,
{
    match j {
        Json::Null => Ok(GremlinValue::UnspecifiedNullObject),
        Json::Bool(b) => Ok(GremlinValue::Boolean(*b)),
        Json::Str(s) => Ok(GremlinValue::String(s.clone())),
        Json::Object(ms) => {
            proof {
                lemma_members_view_len(ms@);
            }
            let ti = find_member(ms, "@type");
            let vi = find_member(ms, "@value");
            match ti {
                None => Err(GraphSonError::KeyNotFound),
                Some(i) => match &ms[i].1 {
                    Json::Str(ts) => {
                        let t = ts.as_str();
                        if is_unheld_exec(t) {
                            Err(GraphSonError::UnsupportedType)
                        } else if !is_known_exec(t) {
                            Err(GraphSonError::WrongTypeIdentifier)
                        } else {
                            match vi {
                                None => Err(missing_value_exec(t)),
                                Some(k) => decode_typed_v3(t, &ms[k].1),
                            }
                        }
                    },
                    _ => Err(GraphSonError::KeyNotFound),
                },
            }
        },
        _ => Err(GraphSonError::WrongJsonType),
    }
}

/// Reads the `@value` member of a value whose type name is `t` (see `read_typed_v3`).
#[verifier::spinoff_prover]
#[verifier::rlimit(40)]
fn decode_typed_v3(t: &str, v: &Json) -> (r: Result<GremlinValue, GraphSonError>)
    ensures
        read_as(read_typed_v3(t@, json_view(*v)), r, |x: GremlinValue| value_view(x)),
    decreases v, 2int,
{
    if str_eq(t, "g:Int32") {
        match v {
            Json::Int(x) => if -2147483648 <= *x && *x <= 2147483647 {
                Ok(GremlinValue::Int(*x as i32))
            } else {
                Err(GraphSonError::WrongJsonType)
            },
            _ => Err(GraphSonError::WrongJsonType),
        }
    } else if str_eq(t, "g:Int64") || str_eq(t, "g:Date") || str_eq(t, "g:Timestamp") {
        match v {
            Json::Int(x) => if str_eq(t, "g:Int64") {
                Ok(GremlinValue::Long(*x))
            } else if str_eq(t, "g:Date") {
                Ok(GremlinValue::Date(*x))
            } else {
                Ok(GremlinValue::Timestamp(*x))
            },
            _ => Err(GraphSonError::WrongJsonType),
        }
    } else if str_eq(t, "gx:Int16") {
        match v {
            Json::Int(x) => if -32768 <= *x && *x <= 32767 {
                Ok(GremlinValue::Short(*x as i16))
            } else {
                Err(GraphSonError::WrongJsonType)
            },
            _ => Err(GraphSonError::WrongJsonType),
        }
    } else if str_eq(t, "gx:Byte") {
        match v {
            Json::Int(x) => if 0 <= *x && *x <= 255 {
                Ok(GremlinValue::Byte(*x as u8))
            } else {
                Err(GraphSonError::WrongJsonType)
            },
            _ => Err(GraphSonError::WrongJsonType),
        }
    } else if str_eq(t, "g:Class") {
        match v {
            Json::Str(s) => Ok(GremlinValue::Class(s.clone())),
            _ => Err(GraphSonError::WrongJsonType),
        }
    } else if str_eq(t, "g:Double") {
        match v {
            Json::Double(b) => Ok(GremlinValue::Double(*b)),
            _ => Err(GraphSonError::WrongJsonType),
        }
    } else if str_eq(t, "g:Float") {
        match v {
            Json::Float(b) => Ok(GremlinValue::Float(*b)),
            _ => Err(GraphSonError::WrongJsonType),
        }
    } else {
        decode_typed_rest_v3(t, v)
    }
}

/// Reads the `@value` member of a value whose type name is `t`, for the type names that
/// `decode_typed_v3` leaves to it.
#[verifier::spinoff_prover]
fn decode_typed_rest_v3(t: &str, v: &Json) -> (r: Result<GremlinValue, GraphSonError>)
    requires
        t@ != "g:Int32"@,
        t@ != "g:Int64"@,
        t@ != "g:Date"@,
        t@ != "g:Timestamp"@,
        t@ != "gx:Int16"@,
        t@ != "gx:Byte"@,
        t@ != "g:Class"@,
        t@ != "g:Double"@,
        t@ != "g:Float"@,
    ensures
        read_as(read_typed_v3(t@, json_view(*v)), r, |x: GremlinValue| value_view(x)),
    decreases v, 1int,
{
    if str_eq(t, "g:UUID") {
        match v {
            Json::Str(s) => match uuid_parse(s.as_str()) {
                Some(u) => {
                    proof {
                        assert(read_typed_v3(t@, json_view(*v)) == Ok::<GValue, GraphSonError>(GValue::Uuid(u)));
                    }
                    let res = Ok(GremlinValue::Uuid(u));
                    proof { assert(read_as(read_typed_v3(t@, json_view(*v)), res, |x: GremlinValue| value_view(x))); }
                    res
                },
                None => { let res = Err(GraphSonError::InvalidUuid); proof { assert(read_as(read_typed_v3(t@, json_view(*v)), res, |x: GremlinValue| value_view(x))); } res },
            },
            _ => Err(GraphSonError::WrongJsonType),
        }
    } else if str_eq(t, "gx:ByteBuffer") {
        match v {
            Json::Str(s) => {
                let bs = latin1_exec(s);
                let b = ByteBuffer::new(bs.as_slice());
                proof {
                    assert(read_typed_v3(t@, json_view(*v)) == Ok::<GValue, GraphSonError>(GValue::ByteBuffer(bs@)));
                    assert(value_view(GremlinValue::ByteBuffer(b)) == GValue::ByteBuffer(bs@));
                }
                let res = Ok(GremlinValue::ByteBuffer(b));
                proof { assert(read_as(read_typed_v3(t@, json_view(*v)), res, |x: GremlinValue| value_view(x))); }
                res
            },
            _ => Err(GraphSonError::WrongJsonType),
        }
    } else if str_eq(t, "gx:Char") {
        match v {
            Json::Str(s) => {
                let cs = chars_of(s.as_str());
                if cs.len() > 0 {
                    proof {
                        assert(read_typed_v3(t@, json_view(*v)) == Ok::<GValue, GraphSonError>(GValue::Char(cs@[0])));
                    }
                    let c = cs[0];
                    proof {
                        lemma_char_view(c);
                    }
                    let res = Ok(GremlinValue::Char(c));
                    proof { assert(read_as(read_typed_v3(t@, json_view(*v)), res, |x: GremlinValue| value_view(x))); }
                    res
                } else {
                    let res = Err(GraphSonError::WrongJsonType);
                    proof { assert(read_as(read_typed_v3(t@, json_view(*v)), res, |x: GremlinValue| value_view(x))); }
                    res
                }
            },
            _ => Err(GraphSonError::WrongJsonType),
        }
    } else {
        let res = decode_typed_tail_v3(t, v);
        proof { assert(read_as(read_typed_v3(t@, json_view(*v)), res, |x: GremlinValue| value_view(x))); }
        res
    }
}

/// Reads the `@value` member of an enumeration, a list, a map, or a value held as an
/// object's members (see `read_typed_v3`).
#[verifier::spinoff_prover]
fn decode_typed_tail_v3(t: &str, v: &Json) -> (r: Result<GremlinValue, GraphSonError>)
    requires
        t@ != "g:Int32"@,
        t@ != "g:Int64"@,
        t@ != "g:Date"@,
        t@ != "g:Timestamp"@,
        t@ != "gx:Int16"@,
        t@ != "gx:Byte"@,
        t@ != "g:Class"@,
        t@ != "g:Double"@,
        t@ != "g:Float"@,
        t@ != "g:UUID"@,
        t@ != "gx:ByteBuffer"@,
        t@ != "gx:Char"@,
    ensures
        read_as(read_typed_v3(t@, json_view(*v)), r, |x: GremlinValue| value_view(x)),
    decreases v, 0int,
{
    if is_enum_exec(t) {
        proof {
            assert(read_typed_v3(t@, json_view(*v)) == enum_value(t@, json_view(*v)));
        }
        enum_exec(t, v)
    } else if str_eq(t, "g:List") {
        match v {
            Json::Array(xs) => match decode_list_v3(xs) {
                Ok(gs) => {
                    proof {
                        assert(read_typed_v3(t@, json_view(*v)) == Ok::<GValue, GraphSonError>(GValue::List(values_view(gs@))));
                    }
                    Ok(GremlinValue::List(gs))
                },
                Err(e) => Err(e),
            },
            _ => Err(GraphSonError::WrongJsonType),
        }
    } else if str_eq(t, "g:Map") {
        match v {
            Json::Array(xs) => match decode_entries_v3(xs) {
                Ok(es) => {
                    proof {
                        assert(read_typed_v3(t@, json_view(*v)) == Ok::<GValue, GraphSonError>(GValue::MapValue(entries_view(es@))));
                    }
                    Ok(GremlinValue::MapValue(es))
                },
                Err(e) => Err(e),
            },
            _ => Err(GraphSonError::WrongJsonType),
        }
    } else {
        match v {
            Json::Object(ms) => {
                proof {
                    assert(read_typed_v3(t@, json_view(*v)) == read_members_v3(t@, members_view(ms@)));
                }
                decode_members_v3(t, ms)
            },
            _ => Err(GraphSonError::KeyNotFound),
        }
    }
}

/// Reads the values of an array (see `read_list_v3`).
#[verifier::spinoff_prover]
fn decode_list_v3(xs: &Vec<Json>) -> (r: Result<Vec<GremlinValue>, GraphSonError>)
    ensures
        read_as(read_list_v3(jsons_view(xs@)), r, |v: Vec<GremlinValue>| values_view(v@)),
    decreases xs, 0int,
{
    let ghost jv = jsons_view(xs@);
    proof {
        lemma_jsons_view_len(xs@);
        assert(jv.subrange(0, 0) =~= Seq::<JsonView>::empty());
        assert(values_view(Seq::<GremlinValue>::empty()) =~= Seq::<GValue>::empty());
    }
    let mut r: Vec<GremlinValue> = Vec::new();
    let mut i: usize = 0;
    while i < xs.len()
        invariant
            i <= xs@.len(),
            jv == jsons_view(xs@),
            jv.len() == xs@.len(),
            forall|k: int| 0 <= k < xs@.len() ==> #[trigger] jv[k] == json_view(xs@[k]),
            read_list_v3(jv.subrange(0, i as int)) == Ok::<Seq<GValue>, GraphSonError>(values_view(r@)),
        decreases xs@.len() - i,
    {
        let ghost b = jv.subrange(0, i + 1);
        proof {
            assert(b.subrange(0, i as int) =~= jv.subrange(0, i as int));
            assert(b[i as int] == json_view(xs@[i as int]));
        }
        match decode_value_v3(&xs[i]) {
            Ok(g) => {
                proof {
                    assert(r@.push(g).subrange(0, r@.len() as int) =~= r@);
                }
                r.push(g);
            },
            Err(e) => {
                proof {
                    lemma_list_err(jv, i + 1);
                    assert(jv.subrange(0, jv.len() as int) =~= jv);
                }
                return Err(e);
            },
        }
        i = i + 1;
    }
    proof {
        assert(jv.subrange(0, i as int) =~= jv);
    }
    Ok(r)
}

/// Reads the entries of a map (see `read_entries_v3`).
#[verifier::spinoff_prover]
#[verifier::rlimit(40)]
fn decode_entries_v3(xs: &Vec<Json>) -> (r: Result<Vec<(MapKeys, GremlinValue)>, GraphSonError>)
    ensures
        read_as(read_entries_v3(jsons_view(xs@)), r, |v: Vec<(MapKeys, GremlinValue)>| entries_view(v@)),
    decreases xs, 0int,
{
    let ghost jv = jsons_view(xs@);
    proof {
        lemma_jsons_view_len(xs@);
        assert(jv.subrange(0, 0) =~= Seq::<JsonView>::empty());
        assert(entries_view(Seq::<(MapKeys, GremlinValue)>::empty()) =~= Seq::<(KeyModel, GValue)>::empty());
    }
    let len = xs.len();
    let n = len / 2;
    let mut r: Vec<(MapKeys, GremlinValue)> = Vec::new();
    let mut p: usize = 0;
    while p < n
        invariant
            len == xs@.len(),
            p <= n,
            n == xs@.len() / 2,
            2 * n <= xs@.len(),
            jv == jsons_view(xs@),
            jv.len() == xs@.len(),
            forall|k: int| 0 <= k < xs@.len() ==> #[trigger] jv[k] == json_view(xs@[k]),
            read_entries_v3(jv.subrange(0, 2 * p)) == Ok::<Seq<(KeyModel, GValue)>, GraphSonError>(entries_view(r@)),
        decreases n - p,
    {
        assert(p + p + 1 < len);
        let at: usize = p + p;
        let ghost b = jv.subrange(0, 2 * p + 2);
        proof {
            assert(b.subrange(0, 2 * p as int) =~= jv.subrange(0, 2 * p));
            assert(b[2 * p as int] == json_view(xs@[2 * p as int]));
            assert(b[2 * p + 1] == json_view(xs@[2 * p + 1]));
            assert(b.len() == 2 * p + 2);
            assert((2 * p + 2) % 2 == 0);
        }
        let kg = match decode_value_v3(&xs[at]) {
            Ok(g) => g,
            Err(e) => {
                proof {
                    lemma_entries_err(jv, 2 * p + 2, jv.len() as int);
                    assert(jv.subrange(0, jv.len() as int) =~= jv);
                }
                return Err(e);
            },
        };
        let k = match value_to_key(kg) {
            Some(k) => k,
            None => {
                proof {
                    lemma_entries_err(jv, 2 * p + 2, jv.len() as int);
                    assert(jv.subrange(0, jv.len() as int) =~= jv);
                }
                return Err(GraphSonError::InvalidMapKey);
            },
        };
        let g = match decode_value_v3(&xs[at + 1]) {
            Ok(g) => g,
            Err(e) => {
                proof {
                    lemma_entries_err(jv, 2 * p + 2, jv.len() as int);
                    assert(jv.subrange(0, jv.len() as int) =~= jv);
                }
                return Err(e);
            },
        };
        proof {
            let q = (k, g);
            assert(r@.push(q).subrange(0, r@.len() as int) =~= r@);
        }
        r.push((k, g));
        p = p + 1;
    }
    proof {
        if xs@.len() % 2 == 1 {
            assert(jv.subrange(0, jv.len() - 1) =~= jv.subrange(0, 2 * n));
        } else {
            assert(jv.subrange(0, 2 * n) =~= jv);
        }
    }
    Ok(r)
}

/// A value member of an object (see `value_member_v3`).
#[verifier::spinoff_prover]
fn value_member_exec(ms: &Vec<(String, Json)>, k: &str) -> (r: Result<GremlinValue, GraphSonError>)
    ensures
        read_as(value_member_v3(members_view(ms@), k@), r, |x: GremlinValue| value_view(x)),
    decreases ms, 0int,
{
    proof {
        lemma_members_view_len(ms@);
    }
    match find_member(ms, k) {
        None => Err(GraphSonError::KeyNotFound),
        Some(i) => decode_value_v3(&ms[i].1),
    }
}

/// Reads the members of a key and a value: a binding, or a property without parent.
#[verifier::spinoff_prover]
fn decode_key_value_v3(binding: bool, ms: &Vec<(String, Json)>) -> (r: Result<GremlinValue, GraphSonError>)
    ensures
        read_as(
            match text_member(members_view(ms@), "key"@) {
                Ok(k) => match value_member_v3(members_view(ms@), "value"@) {
                    Ok(g) => Ok(
                        if binding {
                            GValue::Binding(k, Box::new(g))
                        } else {
                            GValue::Property { key: k, value: Box::new(g), parent: Box::new(GValue::Null) }
                        },
                    ),
                    Err(e) => Err(e),
                },
                Err(e) => Err(e),
            },
            r,
            |x: GremlinValue| value_view(x),
        ),
    decreases ms, 1int,
{
    let key = match text_member_exec(ms, "key") {
        Ok(k) => k,
        Err(e) => return Err(e),
    };
    let value = match value_member_exec(ms, "value") {
        Ok(g) => g,
        Err(e) => return Err(e),
    };
    let ghost kv = key@;
    let ghost gv = value_view(value);
    proof {
        assert(text_member(members_view(ms@), "key"@) == Ok::<Seq<char>, GraphSonError>(kv));
        assert(value_member_v3(members_view(ms@), "value"@) == Ok::<GValue, GraphSonError>(gv));
    }
    if binding {
        let b = GremlinValue::Binding { key, value: Box::new(value) };
        proof {
            assert(value_view(b) == GValue::Binding(kv, Box::new(gv)));
        }
        Ok(b)
    } else {
        let p = Property { key, value: Box::new(value), parent: EitherParent::NoParent };
        proof {
            reveal_with_fuel(property_view, 1);
            reveal_with_fuel(crate::value::parent_view, 1);
            assert(property_view(p) == GValue::Property {
                key: kv,
                value: Box::new(gv),
                parent: Box::new(GValue::Null),
            });
            assert(value_view(GremlinValue::Property(p)) == property_view(p));
        }
        Ok(GremlinValue::Property(p))
    }
}

/// The type names of the members readers are distinct from each other.
proof fn lemma_member_type_names()
    ensures
        "g:Vertex"@ != "g:Binding"@,
        "g:Vertex"@ != "g:Property"@,
        "g:Vertex"@ != "g:Traverser"@,
        "g:Vertex"@ != "g:Lambda"@,
        "g:Vertex"@ != "g:Edge"@,
        "g:VertexProperty"@ != "g:Binding"@,
        "g:VertexProperty"@ != "g:Property"@,
        "g:VertexProperty"@ != "g:Traverser"@,
        "g:VertexProperty"@ != "g:Lambda"@,
        "g:VertexProperty"@ != "g:Edge"@,
        "g:VertexProperty"@ != "g:Vertex"@,
        "g:Edge"@ != "g:Binding"@,
        "g:Edge"@ != "g:Property"@,
        "g:Edge"@ != "g:Traverser"@,
        "g:Edge"@ != "g:Lambda"@,
        "g:Traverser"@ != "g:Binding"@,
        "g:Traverser"@ != "g:Property"@,
        "g:Lambda"@ != "g:Binding"@,
        "g:Lambda"@ != "g:Property"@,
        "g:Lambda"@ != "g:Traverser"@,
        "g:Path"@ != "g:Binding"@,
        "g:Path"@ != "g:Property"@,
        "g:Path"@ != "g:Traverser"@,
        "g:Path"@ != "g:Lambda"@,
        "g:Path"@ != "g:Edge"@,
        "g:Path"@ != "g:Vertex"@,
        "g:Path"@ != "g:VertexProperty"@,
{
    reveal_strlit("g:Path");
    reveal_strlit("g:Vertex");
    reveal_strlit("g:VertexProperty");
    reveal_strlit("g:Binding");
    reveal_strlit("g:Property");
    reveal_strlit("g:Traverser");
    reveal_strlit("g:Lambda");
    reveal_strlit("g:Edge");
    assert("g:Vertex"@.len() != "g:Binding"@.len());
    assert("g:Vertex"@.len() != "g:Property"@.len());
    assert("g:Vertex"@.len() != "g:Traverser"@.len());
    assert("g:Vertex"@[2] != "g:Lambda"@[2]);
    assert("g:Vertex"@.len() != "g:Edge"@.len());
    assert("g:VertexProperty"@.len() != "g:Binding"@.len());
    assert("g:VertexProperty"@.len() != "g:Property"@.len());
    assert("g:VertexProperty"@.len() != "g:Traverser"@.len());
    assert("g:VertexProperty"@.len() != "g:Lambda"@.len());
    assert("g:VertexProperty"@.len() != "g:Edge"@.len());
    assert("g:VertexProperty"@.len() != "g:Vertex"@.len());
    assert("g:Edge"@.len() != "g:Binding"@.len());
    assert("g:Edge"@.len() != "g:Property"@.len());
    assert("g:Edge"@.len() != "g:Traverser"@.len());
    assert("g:Edge"@.len() != "g:Lambda"@.len());
    assert("g:Traverser"@.len() != "g:Binding"@.len());
    assert("g:Traverser"@.len() != "g:Property"@.len());
    assert("g:Lambda"@.len() != "g:Binding"@.len());
    assert("g:Lambda"@.len() != "g:Property"@.len());
    assert("g:Lambda"@.len() != "g:Traverser"@.len());
    assert("g:Path"@.len() != "g:Binding"@.len());
    assert("g:Path"@.len() != "g:Property"@.len());
    assert("g:Path"@.len() != "g:Traverser"@.len());
    assert("g:Path"@.len() != "g:Lambda"@.len());
    assert("g:Path"@[2] != "g:Edge"@[2]);
    assert("g:Path"@.len() != "g:Vertex"@.len());
    assert("g:Path"@.len() != "g:VertexProperty"@.len());
}

/// The model of a character value.
proof fn lemma_char_view(c: char)
    ensures
        value_view(GremlinValue::Char(c)) == GValue::Char(c),
{
    let x = GremlinValue::Char(c);
    assert(x is Char);
    assert(value_view(x) == GValue::Char(c));
}

/// What is read as a property is a property.
proof fn lemma_read_property_kind(j: JsonView)
    ensures
        read_as_type_v3(j, "g:Property"@) matches Ok(g) ==> g is Property,
{
    reveal_strlit("g:Property");
    reveal_strlit("g:Binding");
    assert("g:Property"@.len() != "g:Binding"@.len());
    match j {
        JsonView::Object(ms) => {
            let vi = last_index(ms, "@value"@);
            lemma_last_index(ms, "@value"@);
            if 0 <= vi {
                match ms[vi].1 {
                    JsonView::Object(vms) => {
                        assert(read_members_v3("g:Property"@, vms) matches Ok(g) ==> g is Property);
                    },
                    _ => {},
                }
            }
        },
        _ => {},
    }
}

/// What is read as a vertex property is a vertex property.
proof fn lemma_read_vertex_property_kind(j: JsonView)
    ensures
        read_as_type_v3(j, "g:VertexProperty"@) matches Ok(g) ==> g is VertexProperty,
{
    lemma_member_type_names();
    reveal_strlit("g:Path");
    reveal_strlit("g:VertexProperty");
    match j {
        JsonView::Object(ms) => {
            let vi = last_index(ms, "@value"@);
            lemma_last_index(ms, "@value"@);
            if 0 <= vi {
                match ms[vi].1 {
                    JsonView::Object(vms) => {
                        assert(read_members_v3("g:VertexProperty"@, vms) matches Ok(g) ==> g is VertexProperty);
                    },
                    _ => {},
                }
            }
        },
        _ => {},
    }
}

/// Only a property stands for a property, and only a vertex property for a vertex property.
proof fn lemma_view_kind(x: GremlinValue)
    ensures
        value_view(x) is Property ==> x is Property,
        value_view(x) is VertexProperty ==> x is VertexProperty,
        value_view(x) is Long ==> x is Long,
{
    reveal_with_fuel(edge_view, 1);
    reveal_with_fuel(property_view, 1);
    reveal_with_fuel(vertex_view, 1);
    reveal_with_fuel(vertex_property_view, 1);
    reveal_with_fuel(path_view, 1);
    match x {
        GremlinValue::Edge(e) => assert(value_view(x) == edge_view(e)),
        GremlinValue::Path(p) => assert(value_view(x) == path_view(p)),
        GremlinValue::Property(p) => assert(value_view(x) == property_view(p)),
        GremlinValue::Vertex(v) => assert(value_view(x) == vertex_view(v)),
        GremlinValue::VertexProperty(p) => assert(value_view(x) == vertex_property_view(p)),
        _ => {},
    }
}

/// Reads a value that must be of type `t` (see `read_as_type_v3`).
#[verifier::spinoff_prover]
fn decode_as_type_v3(j: &Json, t: &str) -> (r: Result<GremlinValue, GraphSonError>)
    ensures
        read_as(read_as_type_v3(json_view(*j), t@), r, |x: GremlinValue| value_view(x)),
    decreases j, 0int,
{
    match j {
        Json::Object(ms) => {
            proof {
                lemma_members_view_len(ms@);
            }
            let ti = find_member(ms, "@type");
            let vi = find_member(ms, "@value");
            match ti {
                None => Err(GraphSonError::KeyNotFound),
                Some(i) => match &ms[i].1 {
                    Json::Str(tt) => if !str_eq(tt.as_str(), t) {
                        Err(GraphSonError::WrongTypeIdentifier)
                    } else {
                        match vi {
                            None => Err(GraphSonError::KeyNotFound),
                            Some(k) => match &ms[k].1 {
                                Json::Object(vms) => decode_members_v3(t, vms),
                                _ => Err(GraphSonError::KeyNotFound),
                            },
                        }
                    },
                    _ => Err(GraphSonError::WrongJsonType),
                },
            }
        },
        _ => Err(GraphSonError::KeyNotFound),
    }
}

/// Reads a value that must be a property.
#[verifier::spinoff_prover]
fn decode_property_v3(j: &Json) -> (r: Result<Property, GraphSonError>)
    ensures
        read_as(read_as_type_v3(json_view(*j), "g:Property"@), r, |p: Property| property_view(p)),
    decreases j, 1int,
{
    let res = decode_as_type_v3(j, "g:Property");
    proof {
        reveal_strlit("g:Property");
        reveal_strlit("g:Binding");
    }
    match res {
        Ok(GremlinValue::Property(p)) => Ok(p),
        Ok(x) => {
            proof {
                lemma_read_property_kind(json_view(*j));
                lemma_view_kind(x);
            }
            Err(GraphSonError::KeyNotFound)
        },
        Err(e) => Err(e),
    }
}

/// Reads a value that must be a vertex property.
#[verifier::spinoff_prover]
fn decode_vertex_property_v3(j: &Json) -> (r: Result<VertexProperty, GraphSonError>)
    ensures
        read_as(read_as_type_v3(json_view(*j), "g:VertexProperty"@), r, |p: VertexProperty| vertex_property_view(p)),
    decreases j, 1int,
{
    let res = decode_as_type_v3(j, "g:VertexProperty");
    proof {
        lemma_member_type_names();
        reveal_strlit("g:VertexProperty");
        reveal_strlit("g:Binding");
        reveal_strlit("g:Property");
        reveal_strlit("g:Traverser");
        reveal_strlit("g:Lambda");
        reveal_strlit("g:Edge");
        reveal_strlit("g:Vertex");
    }
    match res {
        Ok(GremlinValue::VertexProperty(p)) => Ok(p),
        Ok(x) => {
            proof {
                lemma_read_vertex_property_kind(json_view(*j));
                lemma_view_kind(x);
            }
            Err(GraphSonError::KeyNotFound)
        },
        Err(e) => Err(e),
    }
}

/// The properties of an edge (see `object_member_v3`, kind 0).
#[verifier::spinoff_prover]
fn edge_properties_v3(ms: &Vec<(String, Json)>) -> (r: Result<Option<Vec<Property>>, GraphSonError>)
    ensures
        read_as(
            object_member_v3(members_view(ms@), "properties"@, 0),
            r,
            |o: Option<Vec<Property>>| match o {
                Some(v) => Some(properties_view(v@)),
                None => None,
            },
        ),
    decreases ms, 0int,
{
    proof {
        lemma_members_view_len(ms@);
    }
    let i = match find_member(ms, "properties") {
        None => return Ok(None),
        Some(i) => i,
    };
    let pms = match &ms[i].1 {
        Json::Object(pms) => pms,
        _ => return Ok(None),
    };
    match edge_property_members_v3(pms) {
        Ok(v) => Ok(Some(v)),
        Err(e) => Err(e),
    }
}

/// The properties read from the members of a properties object (see `properties_v3`, kind 0).
#[verifier::spinoff_prover]
fn edge_property_members_v3(pms: &Vec<(String, Json)>) -> (r: Result<Vec<Property>, GraphSonError>)
    ensures
        read_as(properties_v3(members_view(pms@), 0), r, |v: Vec<Property>| properties_view(v@)),
    decreases pms, 0int,
{
    let ghost pv = members_view(pms@);
    proof {
        lemma_members_view_len(pms@);
        assert(pv.subrange(0, 0) =~= Seq::<(Seq<char>, JsonView)>::empty());
        assert(properties_view(Seq::<Property>::empty()) =~= Seq::<GValue>::empty());
    }
    let mut r: Vec<Property> = Vec::new();
    let mut k: usize = 0;
    while k < pms.len()
        invariant
            k <= pms@.len(),
            pv == members_view(pms@),
            pv.len() == pms@.len(),
            forall|x: int| 0 <= x < pms@.len() ==> #[trigger] pv[x] == (pms@[x].0@, json_view(pms@[x].1)),
            properties_v3(pv.subrange(0, k as int), 0) == Ok::<Seq<GValue>, GraphSonError>(properties_view(r@)),
        decreases pms@.len() - k,
    {
        let ghost b = pv.subrange(0, k + 1);
        proof {
            assert(b.subrange(0, k as int) =~= pv.subrange(0, k as int));
            assert(b[k as int] == pv[k as int]);
        }
        match decode_property_v3(&pms[k].1) {
            Ok(p) => {
                proof {
                    assert(r@.push(p).subrange(0, r@.len() as int) =~= r@);
                }
                r.push(p);
            },
            Err(e) => {
                proof {
                    lemma_properties_err(pv, 0, k + 1);
                    assert(pv.subrange(0, pv.len() as int) =~= pv);
                }
                return Err(e);
            },
        }
        k = k + 1;
    }
    proof {
        assert(pv.subrange(0, k as int) =~= pv);
    }
    Ok(r)
}

/// The properties of a vertex property (see `object_member_v3`, kind 2).
#[verifier::spinoff_prover]
fn vertex_property_properties_v3(ms: &Vec<(String, Json)>) -> (r: Result<Option<Vec<Property>>, GraphSonError>)
    ensures
        read_as(
            object_member_v3(members_view(ms@), "properties"@, 2),
            r,
            |o: Option<Vec<Property>>| match o {
                Some(v) => Some(properties_view(v@)),
                None => None,
            },
        ),
    decreases ms, 0int,
{
    proof {
        lemma_members_view_len(ms@);
    }
    let i = match find_member(ms, "properties") {
        None => return Ok(None),
        Some(i) => i,
    };
    let pms = match &ms[i].1 {
        Json::Object(pms) => pms,
        _ => return Ok(None),
    };
    match vertex_property_property_members_v3(pms) {
        Ok(v) => Ok(Some(v)),
        Err(e) => Err(e),
    }
}

/// The properties read from the members of a properties object (see `properties_v3`, kind 2).
#[verifier::spinoff_prover]
fn vertex_property_property_members_v3(pms: &Vec<(String, Json)>) -> (r: Result<Vec<Property>, GraphSonError>)
    ensures
        read_as(properties_v3(members_view(pms@), 2), r, |v: Vec<Property>| properties_view(v@)),
    decreases pms, 0int,
{
    let ghost pv = members_view(pms@);
    proof {
        lemma_members_view_len(pms@);
        assert(pv.subrange(0, 0) =~= Seq::<(Seq<char>, JsonView)>::empty());
        assert(properties_view(Seq::<Property>::empty()) =~= Seq::<GValue>::empty());
    }
    let mut r: Vec<Property> = Vec::new();
    let mut k: usize = 0;
    while k < pms.len()
        invariant
            k <= pms@.len(),
            pv == members_view(pms@),
            pv.len() == pms@.len(),
            forall|x: int| 0 <= x < pms@.len() ==> #[trigger] pv[x] == (pms@[x].0@, json_view(pms@[x].1)),
            properties_v3(pv.subrange(0, k as int), 2) == Ok::<Seq<GValue>, GraphSonError>(properties_view(r@)),
        decreases pms@.len() - k,
    {
        let ghost b = pv.subrange(0, k + 1);
        proof {
            assert(b.subrange(0, k as int) =~= pv.subrange(0, k as int));
            assert(b[k as int] == pv[k as int]);
        }
        match decode_value_v3(&pms[k].1) {
            Ok(g) => {
                let p = Property { key: pms[k].0.clone(), value: Box::new(g), parent: EitherParent::NoParent };
                proof {
                    reveal_with_fuel(property_view, 1);
                    reveal_with_fuel(crate::value::parent_view, 1);
                    assert(r@.push(p).subrange(0, r@.len() as int) =~= r@);
                    let m = pv[k as int];
                    assert(m.0 == pms@[k as int].0@);
                    assert(read_v3(m.1) == Ok::<GValue, GraphSonError>(value_view(g)));
                    assert(property_view(p) == GValue::Property {
                        key: m.0,
                        value: Box::new(value_view(g)),
                        parent: Box::new(GValue::Null),
                    });
                    assert(properties_view(r@.push(p)) == properties_view(r@).push(property_view(p)));
                    assert(properties_v3(b, 2) == Ok::<Seq<GValue>, GraphSonError>(
                        properties_view(r@).push(property_view(p)),
                    ));
                }
                r.push(p);
            },
            Err(e) => {
                proof {
                    lemma_properties_err(pv, 2, k + 1);
                    assert(pv.subrange(0, pv.len() as int) =~= pv);
                }
                return Err(e);
            },
        }
        k = k + 1;
    }
    proof {
        assert(pv.subrange(0, k as int) =~= pv);
    }
    Ok(r)
}

/// The vertex properties of an array (see `vertex_properties_v3`), appended to `r`.
#[verifier::spinoff_prover]
fn vertex_property_array_v3(xs: &Vec<Json>, r: &mut Vec<VertexProperty>) -> (res: Result<(), GraphSonError>)
    ensures
        match vertex_properties_v3(jsons_view(xs@)) {
            Ok(ps) => res is Ok && vertex_properties_view(final(r)@) == vertex_properties_view(old(r)@) + ps,
            Err(e) => res == Err::<(), GraphSonError>(e),
        },
    decreases xs, 0int,
{
    let ghost jv = jsons_view(xs@);
    let ghost start = vertex_properties_view(r@);
    proof {
        lemma_jsons_view_len(xs@);
        assert(jv.subrange(0, 0) =~= Seq::<JsonView>::empty());
        assert(start + Seq::<GValue>::empty() =~= start);
    }
    let mut k: usize = 0;
    while k < xs.len()
        invariant
            k <= xs@.len(),
            jv == jsons_view(xs@),
            jv.len() == xs@.len(),
            forall|x: int| 0 <= x < xs@.len() ==> #[trigger] jv[x] == json_view(xs@[x]),
            match vertex_properties_v3(jv.subrange(0, k as int)) {
                Ok(ps) => vertex_properties_view(r@) == start + ps,
                Err(_) => false,
            },
        decreases xs@.len() - k,
    {
        let ghost b = jv.subrange(0, k + 1);
        proof {
            assert(b.subrange(0, k as int) =~= jv.subrange(0, k as int));
            assert(b[k as int] == jv[k as int]);
        }
        match decode_vertex_property_v3(&xs[k]) {
            Ok(p) => {
                proof {
                    assert(r@.push(p).subrange(0, r@.len() as int) =~= r@);
                    let ps = vertex_properties_v3(jv.subrange(0, k as int))->Ok_0;
                    assert(start + ps.push(vertex_property_view(p)) =~= (start + ps).push(vertex_property_view(p)));
                }
                r.push(p);
            },
            Err(e) => {
                proof {
                    lemma_vertex_properties_err(jv, k + 1);
                    assert(jv.subrange(0, jv.len() as int) =~= jv);
                }
                return Err(e);
            },
        }
        k = k + 1;
    }
    proof {
        assert(jv.subrange(0, k as int) =~= jv);
    }
    Ok(())
}

/// The properties of a vertex (see `object_member_v3`, kind 1).
#[verifier::spinoff_prover]
fn vertex_properties_exec(ms: &Vec<(String, Json)>) -> (r: Result<Option<Vec<VertexProperty>>, GraphSonError>)
    ensures
        read_as(
            object_member_v3(members_view(ms@), "properties"@, 1),
            r,
            |o: Option<Vec<VertexProperty>>| match o {
                Some(v) => Some(vertex_properties_view(v@)),
                None => None,
            },
        ),
    decreases ms, 0int,
{
    proof {
        lemma_members_view_len(ms@);
    }
    let i = match find_member(ms, "properties") {
        None => return Ok(None),
        Some(i) => i,
    };
    let pms = match &ms[i].1 {
        Json::Object(pms) => pms,
        _ => return Ok(None),
    };
    match vertex_property_groups_v3(pms) {
        Ok(v) => Ok(Some(v)),
        Err(e) => Err(e),
    }
}

/// The properties read from the members of a properties object (see `properties_v3`, kind 1).
#[verifier::spinoff_prover]
fn vertex_property_groups_v3(pms: &Vec<(String, Json)>) -> (r: Result<Vec<VertexProperty>, GraphSonError>)
    ensures
        read_as(properties_v3(members_view(pms@), 1), r, |v: Vec<VertexProperty>| vertex_properties_view(v@)),
    decreases pms, 0int,
{
    let ghost pv = members_view(pms@);
    proof {
        lemma_members_view_len(pms@);
        assert(pv.subrange(0, 0) =~= Seq::<(Seq<char>, JsonView)>::empty());
        assert(vertex_properties_view(Seq::<VertexProperty>::empty()) =~= Seq::<GValue>::empty());
    }
    let mut r: Vec<VertexProperty> = Vec::new();
    let mut k: usize = 0;
    while k < pms.len()
        invariant
            k <= pms@.len(),
            pv == members_view(pms@),
            pv.len() == pms@.len(),
            forall|x: int| 0 <= x < pms@.len() ==> #[trigger] pv[x] == (pms@[x].0@, json_view(pms@[x].1)),
            properties_v3(pv.subrange(0, k as int), 1) == Ok::<Seq<GValue>, GraphSonError>(vertex_properties_view(r@)),
        decreases pms@.len() - k,
    {
        let ghost b = pv.subrange(0, k + 1);
        proof {
            assert(b.subrange(0, k as int) =~= pv.subrange(0, k as int));
            assert(b[k as int] == pv[k as int]);
        }
        match &pms[k].1 {
            Json::Array(xs) => {
                match vertex_property_array_v3(xs, &mut r) {
                    Ok(()) => {},
                    Err(e) => {
                        proof {
                            lemma_properties_err(pv, 1, k + 1);
                            assert(pv.subrange(0, pv.len() as int) =~= pv);
                        }
                        return Err(e);
                    },
                }
            },
            _ => {},
        }
        k = k + 1;
    }
    proof {
        assert(pv.subrange(0, k as int) =~= pv);
    }
    Ok(r)
}

/// The elements of a typed collection (see `typed_array`).
#[verifier::spinoff_prover]
fn typed_array_exec<'a>(j: &'a Json, t: &str) -> (r: Option<&'a Vec<Json>>)
    ensures
        match typed_array(json_view(*j), t@) {
            Some(xs) => r matches Some(v) && jsons_view(v@) == xs,
            None => r is None,
        },
{
    match j {
        Json::Object(ms) => {
            proof {
                lemma_members_view_len(ms@);
            }
            let ti = find_member(ms, "@type");
            let vi = find_member(ms, "@value");
            match (ti, vi) {
                (Some(i), Some(k)) => {
                    let ok = match &ms[i].1 {
                        Json::Str(s) => str_eq(s.as_str(), t),
                        _ => false,
                    };
                    if ok {
                        match &ms[k].1 {
                            Json::Array(xs) => Some(xs),
                            _ => None,
                        }
                    } else {
                        None
                    }
                },
                _ => None,
            }
        },
        _ => None,
    }
}

/// The texts of an array (see `texts_of`).
#[verifier::spinoff_prover]
fn texts_exec(xs: &Vec<Json>) -> (r: Option<Vec<String>>)
    ensures
        match texts_of(jsons_view(xs@)) {
            Some(ts) => r matches Some(v) && v.deep_view() == ts,
            None => r is None,
        },
{
    let ghost jv = jsons_view(xs@);
    proof {
        lemma_jsons_view_len(xs@);
        assert(jv.subrange(0, 0) =~= Seq::<JsonView>::empty());
    }
    let mut r: Vec<String> = Vec::new();
    proof {
        assert(r.deep_view() =~= Seq::<Seq<char>>::empty());
    }
    let mut k: usize = 0;
    while k < xs.len()
        invariant
            k <= xs@.len(),
            jv == jsons_view(xs@),
            jv.len() == xs@.len(),
            forall|x: int| 0 <= x < xs@.len() ==> #[trigger] jv[x] == json_view(xs@[x]),
            texts_of(jv.subrange(0, k as int)) == Some(r.deep_view()),
        decreases xs@.len() - k,
    {
        let ghost b = jv.subrange(0, k + 1);
        proof {
            assert(b.subrange(0, k as int) =~= jv.subrange(0, k as int));
            assert(b[k as int] == jv[k as int]);
        }
        match &xs[k] {
            Json::Str(s) => {
                let c = s.clone();
                proof {
                    assert(r@.push(c).map_values(|x: String| x.deep_view()) =~= r.deep_view().push(c@));
                }
                r.push(c);
            },
            _ => {
                proof {
                    assert(texts_of(b) is None);
                    lemma_texts_none(jv, k + 1);
                    assert(jv.subrange(0, jv.len() as int) =~= jv);
                }
                return None;
            },
        }
        k = k + 1;
    }
    proof {
        assert(jv.subrange(0, k as int) =~= jv);
    }
    Some(r)
}

/// Texts that stop being texts stay so.
proof fn lemma_texts_none(xs: Seq<JsonView>, k: int)
    requires
        0 <= k <= xs.len(),
        texts_of(xs.subrange(0, k)) is None,
    ensures
        texts_of(xs) is None,
    decreases xs.len(),
{
    if k == xs.len() {
        assert(xs.subrange(0, k) =~= xs);
    } else {
        let t = xs.subrange(0, xs.len() - 1);
        assert(t.subrange(0, k) =~= xs.subrange(0, k));
        lemma_texts_none(t, k);
    }
}

/// Label sets that stop being label sets stay so.
proof fn lemma_label_sets_none(xs: Seq<JsonView>, k: int)
    requires
        0 <= k <= xs.len(),
        label_sets_of(xs.subrange(0, k)) is None,
    ensures
        label_sets_of(xs) is None,
    decreases xs.len(),
{
    if k == xs.len() {
        assert(xs.subrange(0, k) =~= xs);
    } else {
        let t = xs.subrange(0, xs.len() - 1);
        assert(t.subrange(0, k) =~= xs.subrange(0, k));
        lemma_label_sets_none(t, k);
    }
}

/// The labels of a path (see `path_labels_value`).
#[verifier::spinoff_prover]
fn path_labels_exec(j: &Json) -> (r: Option<Vec<SetList<String>>>)
    ensures
        match path_labels_value(json_view(*j)) {
            Some(ls) => r matches Some(v) && v.deep_view() == ls,
            None => r is None,
        },
{
    let xs = match typed_array_exec(j, "g:List") {
        Some(xs) => xs,
        None => return None,
    };
    let ghost jv = jsons_view(xs@);
    proof {
        lemma_jsons_view_len(xs@);
        assert(jv.subrange(0, 0) =~= Seq::<JsonView>::empty());
    }
    let mut r: Vec<SetList<String>> = Vec::new();
    proof {
        assert(path_labels_value(json_view(*j)) == label_sets_of(jv));
        assert(r.deep_view() =~= Seq::<Seq<Seq<char>>>::empty());
    }
    let mut k: usize = 0;
    while k < xs.len()
        invariant
            k <= xs@.len(),
            jv == jsons_view(xs@),
            jv.len() == xs@.len(),
            forall|x: int| 0 <= x < xs@.len() ==> #[trigger] jv[x] == json_view(xs@[x]),
            path_labels_value(json_view(*j)) == label_sets_of(jv),
            label_sets_of(jv.subrange(0, k as int)) == Some(r.deep_view()),
        decreases xs@.len() - k,
    {
        let ghost b = jv.subrange(0, k + 1);
        proof {
            assert(b.subrange(0, k as int) =~= jv.subrange(0, k as int));
            assert(b[k as int] == jv[k as int]);
        }
        let set = match typed_array_exec(&xs[k], "g:Set") {
            Some(ys) => match texts_exec(ys) {
                Some(ts) => ts,
                None => {
                    proof {
                        assert(label_sets_of(b) is None);
                        lemma_label_sets_none(jv, k + 1);
                        assert(jv.subrange(0, jv.len() as int) =~= jv);
                    }
                    return None;
                },
            },
            None => {
                proof {
                    assert(label_sets_of(b) is None);
                    lemma_label_sets_none(jv, k + 1);
                    assert(jv.subrange(0, jv.len() as int) =~= jv);
                }
                return None;
            },
        };
        let sl = SetList(set);
        proof {
            assert(r@.push(sl).map_values(|x: SetList<String>| x.deep_view()) =~= r.deep_view().push(sl.deep_view()));
        }
        r.push(sl);
        k = k + 1;
    }
    proof {
        assert(jv.subrange(0, k as int) =~= jv);
    }
    Some(r)
}

/// The values of a typed list held as an object's members (see `read_list_member_v3`).
#[verifier::spinoff_prover]
fn list_member_exec(lms: &Vec<(String, Json)>) -> (r: Result<Vec<GremlinValue>, GraphSonError>)
    ensures
        read_as(read_list_member_v3(members_view(lms@)), r, |v: Vec<GremlinValue>| values_view(v@)),
    decreases lms, 0int,
{
    proof {
        lemma_members_view_len(lms@);
    }
    let ti = find_member(lms, "@type");
    let vi = find_member(lms, "@value");
    match (ti, vi) {
        (Some(i), Some(k)) => {
            let ok = match &lms[i].1 {
                Json::Str(s) => str_eq(s.as_str(), "g:List"),
                _ => false,
            };
            if ok {
                match &lms[k].1 {
                    Json::Array(xs) => decode_list_v3(xs),
                    _ => Err(GraphSonError::WrongJsonType),
                }
            } else {
                Err(GraphSonError::WrongJsonType)
            }
        },
        _ => Err(GraphSonError::WrongJsonType),
    }
}

/// Reads the contents of an element, a path, a binding, a lambda or a traverser (see
/// `read_members_v3`).
#[verifier::rlimit(60)]
#[verifier::spinoff_prover]
fn decode_members_v3(t: &str, ms: &Vec<(String, Json)>) -> (r: Result<GremlinValue, GraphSonError>)
    ensures
        read_as(read_members_v3(t@, members_view(ms@)), r, |x: GremlinValue| value_view(x)),
    decreases ms, 2int,
{
    proof {
        lemma_members_view_len(ms@);
    }
    let binding = str_eq(t, "g:Binding");
    if binding || str_eq(t, "g:Property") {
        decode_key_value_v3(binding, ms)
    } else if str_eq(t, "g:Traverser") {
        decode_traverser_members_v3(ms)
    } else if str_eq(t, "g:Lambda") {
        decode_lambda_members_v3(ms)
    } else if str_eq(t, "g:Edge") {
        decode_edge_members_v3(ms)
    } else if str_eq(t, "g:Vertex") {
        decode_vertex_members_v3(ms)
    } else if str_eq(t, "g:VertexProperty") {
        decode_vertex_property_members_v3(ms)
    } else if str_eq(t, "g:Path") {
        decode_path_members_v3(ms)
    } else {
        Err(GraphSonError::WrongTypeIdentifier)
    }
}

/// Reads the members of a traverser.
#[verifier::spinoff_prover]
fn decode_traverser_members_v3(ms: &Vec<(String, Json)>) -> (r: Result<GremlinValue, GraphSonError>)
    ensures
        read_as(read_members_v3("g:Traverser"@, members_view(ms@)), r, |x: GremlinValue| value_view(x)),
    decreases ms, 1int,
{
    proof {
        lemma_member_type_names();
        lemma_members_view_len(ms@);
    }
    match value_member_exec(ms, "bulk") {
        Ok(GremlinValue::Long(b)) => match value_member_exec(ms, "value") {
            Ok(g) => Ok(GremlinValue::Traverser { bulk: b, value: Box::new(g) }),
            Err(e) => Err(e),
        },
        Ok(x) => {
            proof {
                lemma_view_kind(x);
            }
            Err(GraphSonError::WrongJsonType)
        },
        Err(e) => Err(e),
    }
}

/// Reads the members of a lambda.
#[verifier::spinoff_prover]
fn decode_lambda_members_v3(ms: &Vec<(String, Json)>) -> (r: Result<GremlinValue, GraphSonError>)
    ensures
        read_as(read_members_v3("g:Lambda"@, members_view(ms@)), r, |x: GremlinValue| value_view(x)),
    decreases ms, 1int,
{
    proof {
        lemma_member_type_names();
        lemma_members_view_len(ms@);
    }
    let script = match text_member_exec(ms, "script") {
        Ok(s) => s,
        Err(e) => return Err(e),
    };
    let language = match text_member_exec(ms, "language") {
        Ok(s) => s,
        Err(e) => return Err(e),
    };
    match find_member(ms, "arguments") {
        None => Err(GraphSonError::KeyNotFound),
        Some(i) => match &ms[i].1 {
            Json::Int(n) => {
                #[verifier::truncate]
                let a = *n as i32;
                Ok(GremlinValue::Lambda(Lambda { language, script, arguments_length: a }))
            },
            _ => Err(GraphSonError::WrongJsonType),
        },
    }
}

/// Reads the members of a path.
#[verifier::spinoff_prover]
fn decode_path_members_v3(ms: &Vec<(String, Json)>) -> (r: Result<GremlinValue, GraphSonError>)
    ensures
        read_as(read_members_v3("g:Path"@, members_view(ms@)), r, |x: GremlinValue| value_view(x)),
    decreases ms, 1int,
{
    proof {
        lemma_member_type_names();
        lemma_members_view_len(ms@);
    }
    let li = match find_member(ms, "labels") {
        None => return Err(GraphSonError::KeyNotFound),
        Some(i) => i,
    };
    let labels = match path_labels_exec(&ms[li].1) {
        Some(l) => l,
        None => return Err(GraphSonError::WrongJsonType),
    };
    let oi = match find_member(ms, "objects") {
        None => return Err(GraphSonError::KeyNotFound),
        Some(i) => i,
    };
    match &ms[oi].1 {
        Json::Object(lms) => match list_member_exec(lms) {
            Ok(objects) => {
                let p = Path { labels, objects };
                proof {
                    reveal_with_fuel(path_view, 1);
                    assert(path_view(p) == GValue::Path {
                        labels: p.labels.deep_view(),
                        objects: values_view(p.objects@),
                    });
                    assert(read_members_v3("g:Path"@, members_view(ms@)) == Ok::<GValue, GraphSonError>(path_view(p)));
                }
                Ok(GremlinValue::Path(p))
            },
            Err(e) => Err(e),
        },
        _ => Err(GraphSonError::WrongJsonType),
    }
}

/// Reads the members of an edge.
#[verifier::spinoff_prover]
fn decode_edge_members_v3(ms: &Vec<(String, Json)>) -> (r: Result<GremlinValue, GraphSonError>)
    ensures
        read_as(read_members_v3("g:Edge"@, members_view(ms@)), r, |x: GremlinValue| value_view(x)),
    decreases ms, 1int,
{
    proof {
        lemma_member_type_names();
        reveal_strlit("g:Edge");
        reveal_strlit("g:Binding");
        reveal_strlit("g:Property");
        reveal_strlit("g:Traverser");
        reveal_strlit("g:Lambda");
    }
    let id = match value_member_exec(ms, "id") {
        Ok(g) => g,
        Err(e) => return Err(e),
    };
    let label = match text_member_exec(ms, "label") {
        Ok(s) => s,
        Err(e) => return Err(e),
    };
    let in_id = match value_member_exec(ms, "inV") {
        Ok(g) => g,
        Err(e) => return Err(e),
    };
    let in_label = match text_member_exec(ms, "inVLabel") {
        Ok(s) => s,
        Err(e) => return Err(e),
    };
    let out_id = match value_member_exec(ms, "outV") {
        Ok(g) => g,
        Err(e) => return Err(e),
    };
    let out_label = match text_member_exec(ms, "outVLabel") {
        Ok(s) => s,
        Err(e) => return Err(e),
    };
    let properties = match edge_properties_v3(ms) {
        Ok(p) => p,
        Err(e) => return Err(e),
    };
    let e = Edge {
        id: Box::new(id),
        label,
        in_v_id: Box::new(in_id),
        in_v_label: in_label,
        out_v_id: Box::new(out_id),
        out_v_label: out_label,
        parent: None,
        properties,
    };
    proof {
        reveal_with_fuel(edge_view, 1);
        assert(read_members_v3("g:Edge"@, members_view(ms@)) == Ok::<GValue, GraphSonError>(edge_view(e)));
    }
    Ok(GremlinValue::Edge(e))
}

/// Reads the members of a vertex.
#[verifier::spinoff_prover]
fn decode_vertex_members_v3(ms: &Vec<(String, Json)>) -> (r: Result<GremlinValue, GraphSonError>)
    ensures
        read_as(read_members_v3("g:Vertex"@, members_view(ms@)), r, |x: GremlinValue| value_view(x)),
    decreases ms, 1int,
{
    proof {
        lemma_member_type_names();
        reveal_strlit("g:Vertex");
        reveal_strlit("g:Edge");
        reveal_strlit("g:Binding");
        reveal_strlit("g:Property");
        reveal_strlit("g:Traverser");
        reveal_strlit("g:Lambda");
    }
    let id = match value_member_exec(ms, "id") {
        Ok(g) => g,
        Err(e) => return Err(e),
    };
    let label = match text_member_exec(ms, "label") {
        Ok(s) => s,
        Err(e) => return Err(e),
    };
    let properties = match vertex_properties_exec(ms) {
        Ok(p) => p,
        Err(e) => return Err(e),
    };
    let v = Vertex { id: Box::new(id), label, properties };
    proof {
        reveal_with_fuel(vertex_view, 1);
        assert(read_members_v3("g:Vertex"@, members_view(ms@)) == Ok::<GValue, GraphSonError>(vertex_view(v)));
    }
    Ok(GremlinValue::Vertex(v))
}

/// Reads the members of a vertex property.
#[verifier::spinoff_prover]
fn decode_vertex_property_members_v3(ms: &Vec<(String, Json)>) -> (r: Result<GremlinValue, GraphSonError>)
    ensures
        read_as(read_members_v3("g:VertexProperty"@, members_view(ms@)), r, |x: GremlinValue| value_view(x)),
    decreases ms, 1int,
{
    proof {
        lemma_member_type_names();
        reveal_strlit("g:VertexProperty");
        reveal_strlit("g:Vertex");
        reveal_strlit("g:Edge");
        reveal_strlit("g:Binding");
        reveal_strlit("g:Property");
        reveal_strlit("g:Traverser");
        reveal_strlit("g:Lambda");
    }
    let id = match value_member_exec(ms, "id") {
        Ok(g) => g,
        Err(e) => return Err(e),
    };
    let label = match text_member_exec(ms, "label") {
        Ok(s) => s,
        Err(e) => return Err(e),
    };
    let value = match value_member_exec(ms, "value") {
        Ok(g) => g,
        Err(e) => return Err(e),
    };
    let properties = match vertex_property_properties_v3(ms) {
        Ok(p) => p,
        Err(e) => return Err(e),
    };
    let p = VertexProperty { id: Box::new(id), label, value: Box::new(value), parent: None, properties };
    proof {
        reveal_with_fuel(vertex_property_view, 1);
        assert(read_members_v3("g:VertexProperty"@, members_view(ms@)) == Ok::<GValue, GraphSonError>(vertex_property_view(p)));
    }
    Ok(GremlinValue::VertexProperty(p))
}

impl GremlinValue {
    /// Reads a value from its GraphSON 3 form: the outcome is `read_v3` of the JSON value,
    /// the value read taken by its model.
    pub fn decode_v3(j: &Json) -> (r: Result<GremlinValue, GraphSonError>)
        ensures
            read_as(read_v3(json_view(*j)), r, |x: GremlinValue| value_view(x)),
    {
        decode_value_v3(j)
    }
}

} // verus!
