//! GraphSON 3: values as typed JSON trees, each value an object of its type name `@type`
//! and its contents `@value`, texts, booleans and the null object as plain JSON.

use vstd::prelude::*;
use vstd::utf8::encode_utf8;
use crate::element::{Edge, EitherParent, Path, Property, Vertex, VertexProperty};
use crate::json::{json_view, jsons_view, lemma_jsons_view_len, lemma_jsons_view_push, lemma_members_view_push, members_view, Json, JsonView};
use crate::key_text::{uuid_text, uuid_to_text};
use crate::primitives::{push_char_utf8, str_eq};
use crate::structure::{ByteBuffer, Lambda, LambdaView};
use crate::structure_text::{lemma_encode_utf8_concat, utf8_string};
use crate::value::{
    bulk_view, edge_view, entries_view, key_view, lemma_bulk_view, lemma_entries_view,
    lemma_properties_view, lemma_values_view, lemma_vertex_properties_view, path_view,
    properties_view, property_view, value_view, values_view, vertex_properties_view,
    vertex_property_view, vertex_view, GValue, GremlinValue, KeyModel, MapKeys,
};

verus! {

/// A typed value: an object of its type name and its contents.
pub open spec fn typed_json(t: Seq<char>, v: JsonView) -> JsonView {
    JsonView::Object(seq![("@type"@, JsonView::Str(t)), ("@value"@, v)])
}

/// A 64-bit integer as a typed value.
pub open spec fn long_json(x: i64) -> JsonView {
    typed_json("g:Int64"@, JsonView::Int(x))
}

/// A map key as a typed value: an integer, a long, a UUID, a `T` or a `Direction` typed, a
/// text plain.
pub open spec fn key_json(k: KeyModel) -> JsonView {
    match k {
        KeyModel::Int(x) => typed_json("g:Int32"@, JsonView::Int(x as i64)),
        KeyModel::Str(s) => JsonView::Str(s),
        KeyModel::Long(x) => long_json(x),
        KeyModel::Uuid(u) => typed_json("g:UUID"@, JsonView::Str(uuid_text(u))),
        KeyModel::T(x) => typed_json("g:T"@, JsonView::Str(x.spec_name())),
        KeyModel::Direction(x) => typed_json("g:Direction"@, JsonView::Str(x.spec_name())),
    }
}

/// The bytes of a byte buffer as text, one character per byte of the same number.
pub open spec fn latin1_text(bs: Seq<u8>) -> Seq<char> {
    bs.map_values(|b: u8| b as char)
}

/// The labels of a path: a list of sets of texts.
pub open spec fn path_labels_json(labels: Seq<Seq<Seq<char>>>) -> JsonView {
    typed_json(
        "g:List"@,
        JsonView::Array(
            labels.map_values(
                |ls: Seq<Seq<char>>|
                    typed_json("g:Set"@, JsonView::Array(ls.map_values(|s: Seq<char>| JsonView::Str(s)))),
            ),
        ),
    )
}

/// The key of a property, its label for a vertex property.
pub open spec fn member_key(g: GValue) -> Seq<char> {
    match g {
        GValue::Property { key, .. } => key,
        GValue::VertexProperty { label, .. } => label,
        _ => seq![],
    }
}

/// Members named by `ks` with the values `vs`, in order.
pub open spec fn zip_members(ks: Seq<Seq<char>>, vs: Seq<JsonView>) -> Seq<(Seq<char>, JsonView)> {
    Seq::new(ks.len(), |i: int| (ks[i], vs[i]))
}

/// The labels of `ls`, each once, in the order of their first occurrence.
pub open spec fn distinct_labels(ls: Seq<Seq<char>>) -> Seq<Seq<char>>
    decreases ls.len(),
{
    if ls.len() == 0 {
        seq![]
    } else {
        let d = distinct_labels(ls.subrange(0, ls.len() - 1));
        if d.contains(ls[ls.len() - 1]) {
            d
        } else {
            d.push(ls[ls.len() - 1])
        }
    }
}

/// The values among `vs` whose labels in `ls` are `l`, in order.
pub open spec fn labelled(ls: Seq<Seq<char>>, vs: Seq<JsonView>, l: Seq<char>) -> Seq<JsonView>
    decreases ls.len(),
{
    if ls.len() == 0 {
        seq![]
    } else {
        labelled(ls.subrange(0, ls.len() - 1), vs, l) + if ls[ls.len() - 1] == l {
            seq![vs[ls.len() - 1]]
        } else {
            seq![]
        }
    }
}

/// Values grouped by their labels: one member per label, in the order of the labels' first
/// occurrence, holding the array of the values with that label in order.
pub open spec fn grouped_members(ls: Seq<Seq<char>>, vs: Seq<JsonView>) -> Seq<(Seq<char>, JsonView)> {
    distinct_labels(ls).map_values(|l: Seq<char>| (l, JsonView::Array(labelled(ls, vs, l))))
}

/// The GraphSON 3 form of a value.
pub open spec fn graphson_v3(g: GValue) -> JsonView
    decreases g,
{
    match g {
        GValue::Int(x) => typed_json("g:Int32"@, JsonView::Int(x as i64)),
        GValue::Long(x) => long_json(x),
        GValue::Str(s) => JsonView::Str(s),
        GValue::Date(x) => typed_json("g:Date"@, JsonView::Int(x)),
        GValue::Timestamp(x) => typed_json("g:Timestamp"@, JsonView::Int(x)),
        GValue::Class(s) => typed_json("g:Class"@, JsonView::Str(s)),
        GValue::Double(b) => typed_json("g:Double"@, JsonView::Double(b)),
        GValue::Float(b) => typed_json("g:Float"@, JsonView::Float(b)),
        GValue::List(xs) => typed_json("g:List"@, JsonView::Array(graphson_list(xs))),
        GValue::SetValue(xs) => typed_json("g:List"@, JsonView::Array(graphson_list(xs))),
        GValue::MapValue(es) => typed_json("g:Map"@, JsonView::Array(graphson_entries(es))),
        GValue::Uuid(u) => typed_json("g:UUID"@, JsonView::Str(uuid_text(u))),
        GValue::Edge { id, label, in_id, in_label, out_id, out_label, parent, properties } => typed_json(
            "g:Edge"@,
            JsonView::Object(
                seq![
                    ("id"@, graphson_v3(*id)),
                    ("label"@, JsonView::Str(label)),
                    ("inVLabel"@, JsonView::Str(in_label)),
                    ("outVLabel"@, JsonView::Str(out_label)),
                    ("inV"@, graphson_v3(*in_id)),
                    ("outV"@, graphson_v3(*out_id)),
                ] + match properties {
                    Some(ps) => seq![
                        ("properties"@, JsonView::Object(zip_members(ps.map_values(|p: GValue| member_key(p)), graphson_list(ps)))),
                    ],
                    None => seq![],
                },
            ),
        ),
        GValue::Path { labels, objects } => typed_json(
            "g:Path"@,
            JsonView::Object(
                seq![
                    ("labels"@, path_labels_json(labels)),
                    ("objects"@, typed_json("g:List"@, JsonView::Array(graphson_list(objects)))),
                ],
            ),
        ),
        GValue::Property { key, value, parent } => typed_json(
            "g:Property"@,
            JsonView::Object(seq![("key"@, JsonView::Str(key)), ("value"@, graphson_v3(*value))]),
        ),
        GValue::Vertex { id, label, properties } => typed_json(
            "g:Vertex"@,
            JsonView::Object(
                seq![("id"@, graphson_v3(*id)), ("label"@, JsonView::Str(label))] + match properties {
                    Some(ps) => seq![
                        ("properties"@, JsonView::Object(grouped_members(ps.map_values(|p: GValue| member_key(p)), graphson_list(ps)))),
                    ],
                    None => seq![],
                },
            ),
        ),
        GValue::VertexProperty { id, label, value, parent, properties } => typed_json(
            "g:VertexProperty"@,
            JsonView::Object(
                seq![
                    ("id"@, graphson_v3(*id)),
                    ("value"@, graphson_v3(*value)),
                    ("label"@, JsonView::Str(label)),
                ] + match properties {
                    Some(ps) => seq![
                        ("properties"@, JsonView::Object(zip_members(ps.map_values(|p: GValue| member_key(p)), graphson_property_values(ps)))),
                    ],
                    None => seq![],
                },
            ),
        ),
        GValue::Barrier(x) => typed_json("g:Barrier"@, JsonView::Str(x.spec_name())),
        GValue::Binding(k, v) => typed_json(
            "g:Binding"@,
            JsonView::Object(seq![("key"@, JsonView::Str(k)), ("value"@, graphson_v3(*v))]),
        ),
        GValue::Cardinality(x) => typed_json("g:Cardinality"@, JsonView::Str(x.spec_name())),
        GValue::Column(x) => typed_json("g:Column"@, JsonView::Str(x.spec_name())),
        GValue::Direction(x) => typed_json("g:Direction"@, JsonView::Str(x.spec_name())),
        GValue::Operator(x) => typed_json("g:Operator"@, JsonView::Str(x.spec_name())),
        GValue::Order(x) => typed_json("g:Order"@, JsonView::Str(x.spec_name())),
        GValue::Pick(x) => typed_json("g:Pick"@, JsonView::Str(x.spec_name())),
        GValue::Pop(x) => typed_json("g:Pop"@, JsonView::Str(x.spec_name())),
        GValue::Lambda(l) => typed_json(
            "g:Lambda"@,
            JsonView::Object(
                seq![
                    ("script"@, JsonView::Str(l.script)),
                    ("language"@, JsonView::Str(l.language)),
                    ("arguments"@, JsonView::Int(l.arguments_length as i64)),
                ],
            ),
        ),
        GValue::Scope(x) => typed_json("g:Scope"@, JsonView::Str(x.spec_name())),
        GValue::T(x) => typed_json("g:T"@, JsonView::Str(x.spec_name())),
        GValue::Traverser(b, v) => typed_json(
            "g:Traverser"@,
            JsonView::Object(seq![("bulk"@, long_json(b)), ("value"@, graphson_v3(*v))]),
        ),
        GValue::Byte(x) => typed_json("gx:Byte"@, JsonView::Int(x as i64)),
        GValue::ByteBuffer(bs) => typed_json("gx:ByteBuffer"@, JsonView::Str(latin1_text(bs))),
        GValue::Short(x) => typed_json("gx:Int16"@, JsonView::Int(x as i64)),
        GValue::Boolean(b) => JsonView::Bool(b),
        GValue::BulkSet(items) => typed_json("g:BulkSet"@, JsonView::Array(graphson_bulk(items))),
        GValue::Merge(x) => typed_json("g:Merge"@, JsonView::Str(x.spec_name())),
        GValue::Null => JsonView::Null,
        GValue::Char(c) => typed_json("gx:Char"@, JsonView::Str(seq![c])),
    }
}

/// The GraphSON 3 forms of values, in order.
pub open spec fn graphson_list(s: Seq<GValue>) -> Seq<JsonView>
    decreases s,
{
    if s.len() == 0 {
        seq![]
    } else {
        graphson_list(s.subrange(0, s.len() - 1)).push(graphson_v3(s[s.len() - 1]))
    }
}

/// The GraphSON 3 forms of the values of properties, in order.
pub open spec fn graphson_property_values(s: Seq<GValue>) -> Seq<JsonView>
    decreases s,
{
    if s.len() == 0 {
        seq![]
    } else {
        graphson_property_values(s.subrange(0, s.len() - 1)).push(
            match s[s.len() - 1] {
                GValue::Property { value, .. } => graphson_v3(*value),
                _ => JsonView::Null,
            },
        )
    }
}

/// The entries of a map, each key then its value.
pub open spec fn graphson_entries(s: Seq<(KeyModel, GValue)>) -> Seq<JsonView>
    decreases s,
{
    if s.len() == 0 {
        seq![]
    } else {
        graphson_entries(s.subrange(0, s.len() - 1)) + seq![
            key_json(s[s.len() - 1].0),
            graphson_v3(s[s.len() - 1].1),
        ]
    }
}

/// The items of a bulk set, each value then its multiplicity as a long.
pub open spec fn graphson_bulk(s: Seq<(GValue, i64)>) -> Seq<JsonView>
    decreases s,
{
    if s.len() == 0 {
        seq![]
    } else {
        graphson_bulk(s.subrange(0, s.len() - 1)) + seq![
            graphson_v3(s[s.len() - 1].0),
            long_json(s[s.len() - 1].1),
        ]
    }
}

/// The GraphSON 3 forms of values have one form per value.
pub proof fn lemma_graphson_list(s: Seq<GValue>)
    ensures
        graphson_list(s).len() == s.len(),
        forall|i: int| 0 <= i < s.len() ==> #[trigger] graphson_list(s)[i] == graphson_v3(s[i]),
    decreases s.len(),
{
    if s.len() > 0 {
        let t = s.subrange(0, s.len() - 1);
        lemma_graphson_list(t);
        assert forall|i: int| 0 <= i < s.len() implies #[trigger] graphson_list(s)[i] == graphson_v3(s[i]) by {
            if i < s.len() - 1 {
                assert(t[i] == s[i]);
            }
        }
    }
}

/// A text as a JSON text.
fn str_json(s: &str) -> (r: Json)
    ensures
        json_view(r) == JsonView::Str(s@),
{
    Json::Str(s.to_owned())
}

/// A typed value of type name `t`.
fn typed(t: &str, v: Json) -> (r: Json)
    ensures
        json_view(r) == typed_json(t@, json_view(v)),
{
    object2("@type", str_json(t), "@value", v)
}

/// A 64-bit integer as a typed value.
fn long_to_json(x: i64) -> (r: Json)
    ensures
        json_view(r) == long_json(x),
{
    typed("g:Int64", Json::Int(x))
}

/// A map key as a typed value.
fn key_to_json(k: &MapKeys) -> (r: Json)
    ensures
        json_view(r) == key_json(key_view(*k)),
{
    match k {
        MapKeys::Int(x) => typed("g:Int32", Json::Int(*x as i64)),
        MapKeys::String(s) => Json::Str(s.clone()),
        MapKeys::Long(x) => long_to_json(*x),
        MapKeys::Uuid(u) => typed("g:UUID", Json::Str(uuid_to_text(*u))),
        MapKeys::T(x) => typed("g:T", str_json(x.as_str())),
        MapKeys::Direction(x) => typed("g:Direction", str_json(x.as_str())),
    }
}

/// A text of one character per byte, of the byte's number.
fn latin1_string(bs: &Vec<u8>) -> (r: String)
    ensures
        r@ == latin1_text(bs@),
{
    let mut out: Vec<u8> = Vec::new();
    let mut i: usize = 0;
    proof {
        assert(latin1_text(bs@.subrange(0, 0)) =~= Seq::<char>::empty());
    }
    while i < bs.len()
        invariant
            i <= bs@.len(),
            out@ == encode_utf8(latin1_text(bs@.subrange(0, i as int))),
        decreases bs@.len() - i,
    {
        let c = bs[i] as char;
        let ghost pre = latin1_text(bs@.subrange(0, i as int));
        push_char_utf8(&mut out, c);
        proof {
            assert(latin1_text(bs@.subrange(0, i + 1)) =~= pre + seq![c]);
            lemma_encode_utf8_concat(pre, seq![c]);
            lemma_encode_one(c);
        }
        i = i + 1;
    }
    proof {
        assert(bs@.subrange(0, i as int) =~= bs@);
    }
    utf8_string(out, Ghost(latin1_text(bs@)))
}

/// The UTF-8 bytes of one character.
proof fn lemma_encode_one(c: char)
    ensures
        encode_utf8(seq![c]) == vstd::utf8::encode_scalar(c as u32),
{
    reveal_with_fuel(encode_utf8, 2);
    assert(seq![c].drop_first() =~= Seq::<char>::empty());
    assert(encode_utf8(seq![c]) =~= vstd::utf8::encode_scalar(c as u32));
}

/// A text of one character.
fn char_string(c: char) -> (r: String)
    ensures
        r@ == seq![c],
{
    let mut out: Vec<u8> = Vec::new();
    push_char_utf8(&mut out, c);
    proof {
        lemma_encode_one(c);
        assert(out@ =~= encode_utf8(seq![c]));
    }
    let ghost t = seq![c];
    utf8_string(out, Ghost(t))
}

/// Members from pairs written in order.
proof fn lemma_members3(a: (String, Json), b: (String, Json), c: (String, Json))
    ensures
        members_view(seq![a, b, c]) == seq![(a.0@, json_view(a.1)), (b.0@, json_view(b.1)), (c.0@, json_view(c.1))],
{
    lemma_members2(a, b);
    lemma_members_view_push(seq![a, b], c);
    assert(seq![a, b].push(c) =~= seq![a, b, c]);
    assert(seq![(a.0@, json_view(a.1)), (b.0@, json_view(b.1))].push((c.0@, json_view(c.1))) =~= seq![(a.0@, json_view(a.1)), (b.0@, json_view(b.1)), (c.0@, json_view(c.1))]);
}

/// Members from two pairs written in order.
proof fn lemma_members2(a: (String, Json), b: (String, Json))
    ensures
        members_view(seq![a, b]) == seq![(a.0@, json_view(a.1)), (b.0@, json_view(b.1))],
{
    let e = Seq::<(String, Json)>::empty();
    lemma_members_view_push(e, a);
    lemma_members_view_push(e.push(a), b);
    assert(e.push(a).push(b) =~= seq![a, b]);
    assert(members_view(e) =~= Seq::<(Seq<char>, JsonView)>::empty());
    assert(members_view(e).push((a.0@, json_view(a.1))).push((b.0@, json_view(b.1))) =~= seq![(a.0@, json_view(a.1)), (b.0@, json_view(b.1))]);
}

/// An object of two members.
fn object2(k1: &str, v1: Json, k2: &str, v2: Json) -> (r: Json)
    ensures
        json_view(r) == JsonView::Object(seq![(k1@, json_view(v1)), (k2@, json_view(v2))]),
{
    let a = (k1.to_owned(), v1);
    let b = (k2.to_owned(), v2);
    proof {
        lemma_members2(a, b);
    }
    Json::Object(vec![a, b])
}

/// An object of three members.
fn object3(k1: &str, v1: Json, k2: &str, v2: Json, k3: &str, v3: Json) -> (r: Json)
    ensures
        json_view(r) == JsonView::Object(
            seq![(k1@, json_view(v1)), (k2@, json_view(v2)), (k3@, json_view(v3))],
        ),
{
    let a = (k1.to_owned(), v1);
    let b = (k2.to_owned(), v2);
    let c = (k3.to_owned(), v3);
    proof {
        lemma_members3(a, b, c);
    }
    Json::Object(vec![a, b, c])
}

/// The GraphSON 3 forms of values built one after another.
proof fn lemma_graphson_list_push(s: Seq<GValue>, x: GValue)
    ensures
        graphson_list(s.push(x)) == graphson_list(s).push(graphson_v3(x)),
{
    assert(s.push(x).subrange(0, s.len() as int) =~= s);
}

/// The values of properties have one form per property.
proof fn lemma_graphson_property_values(s: Seq<GValue>)
    ensures
        graphson_property_values(s).len() == s.len(),
        forall|i: int| 0 <= i < s.len() ==> #[trigger] graphson_property_values(s)[i] == match s[i] {
            GValue::Property { value, .. } => graphson_v3(*value),
            _ => JsonView::Null,
        },
    decreases s.len(),
{
    if s.len() > 0 {
        let t = s.subrange(0, s.len() - 1);
        lemma_graphson_property_values(t);
        assert forall|i: int| 0 <= i < s.len() implies #[trigger] graphson_property_values(s)[i] == match s[i] {
            GValue::Property { value, .. } => graphson_v3(*value),
            _ => JsonView::Null,
        } by {
            if i < s.len() - 1 {
                assert(t[i] == s[i]);
            }
        }
    }
}

/// Appends a member named `k`.
fn push_member(ms: &mut Vec<(String, Json)>, k: String, v: Json)
    ensures
        members_view(final(ms)@) == members_view(old(ms)@).push((k@, json_view(v))),
{
    proof {
        lemma_members_view_push(old(ms)@, (k, v));
    }
    ms.push((k, v));
}

/// The GraphSON 3 forms of values.
fn encode_list_v3(xs: &Vec<GremlinValue>) -> (r: Vec<Json>)
    ensures
        jsons_view(r@) == graphson_list(values_view(xs@)),
    decreases xs, 0int,
{
    let mut r: Vec<Json> = Vec::new();
    let mut i: usize = 0;
    proof {
        assert(xs@.subrange(0, 0) =~= Seq::<GremlinValue>::empty());
    }
    while i < xs.len()
        invariant
            i <= xs@.len(),
            jsons_view(r@) == graphson_list(values_view(xs@.subrange(0, i as int))),
        decreases xs@.len() - i,
    {
        let j = xs[i].encode_v3();
        proof {
            lemma_jsons_view_push(r@, j);
            let a = xs@.subrange(0, i as int);
            let b = xs@.subrange(0, i + 1);
            assert(b.subrange(0, i as int) =~= a);
            assert(values_view(b) == values_view(a).push(value_view(xs@[i as int])));
            lemma_graphson_list_push(values_view(a), value_view(xs@[i as int]));
        }
        r.push(j);
        i = i + 1;
    }
    proof {
        assert(xs@.subrange(0, i as int) =~= xs@);
    }
    r
}

/// The entries of a map, each key then its value.
fn encode_entries_v3(es: &Vec<(MapKeys, GremlinValue)>) -> (r: Vec<Json>)
    ensures
        jsons_view(r@) == graphson_entries(entries_view(es@)),
    decreases es, 0int,
{
    let mut r: Vec<Json> = Vec::new();
    let mut i: usize = 0;
    proof {
        assert(es@.subrange(0, 0) =~= Seq::<(MapKeys, GremlinValue)>::empty());
    }
    while i < es.len()
        invariant
            i <= es@.len(),
            jsons_view(r@) == graphson_entries(entries_view(es@.subrange(0, i as int))),
        decreases es@.len() - i,
    {
        let k = key_to_json(&es[i].0);
        let v = es[i].1.encode_v3();
        proof {
            lemma_jsons_view_push(r@, k);
            lemma_jsons_view_push(r@.push(k), v);
            let a = es@.subrange(0, i as int);
            let b = es@.subrange(0, i + 1);
            assert(b.subrange(0, i as int) =~= a);
            let ea = entries_view(a);
            let eb = entries_view(b);
            assert(eb == ea.push((key_view(es@[i as int].0), value_view(es@[i as int].1))));
            assert(eb.subrange(0, eb.len() - 1) =~= ea);
            assert(graphson_entries(eb) =~= graphson_entries(ea) + seq![json_view(k), json_view(v)]);
        }
        r.push(k);
        r.push(v);
        proof {
            assert(jsons_view(r@) =~= graphson_entries(entries_view(es@.subrange(0, i + 1))));
        }
        i = i + 1;
    }
    proof {
        assert(es@.subrange(0, i as int) =~= es@);
    }
    r
}

/// The items of a bulk set, each value then its multiplicity.
fn encode_bulk_v3(items: &Vec<(GremlinValue, i64)>) -> (r: Vec<Json>)
    ensures
        jsons_view(r@) == graphson_bulk(bulk_view(items@)),
    decreases items, 0int,
{
    let mut r: Vec<Json> = Vec::new();
    let mut i: usize = 0;
    proof {
        assert(items@.subrange(0, 0) =~= Seq::<(GremlinValue, i64)>::empty());
    }
    while i < items.len()
        invariant
            i <= items@.len(),
            jsons_view(r@) == graphson_bulk(bulk_view(items@.subrange(0, i as int))),
        decreases items@.len() - i,
    {
        let v = items[i].0.encode_v3();
        let b = long_to_json(items[i].1);
        proof {
            lemma_jsons_view_push(r@, v);
            lemma_jsons_view_push(r@.push(v), b);
            let a = items@.subrange(0, i as int);
            let c = items@.subrange(0, i + 1);
            assert(c.subrange(0, i as int) =~= a);
            let ba = bulk_view(a);
            let bc = bulk_view(c);
            assert(bc == ba.push((value_view(items@[i as int].0), items@[i as int].1)));
            assert(bc.subrange(0, bc.len() - 1) =~= ba);
            assert(graphson_bulk(bc) =~= graphson_bulk(ba) + seq![json_view(v), json_view(b)]);
        }
        r.push(v);
        r.push(b);
        proof {
            assert(jsons_view(r@) =~= graphson_bulk(bulk_view(items@.subrange(0, i + 1))));
        }
        i = i + 1;
    }
    proof {
        assert(items@.subrange(0, i as int) =~= items@);
    }
    r
}

/// The GraphSON 3 form of a property: its key and its value.
fn encode_property_v3(p: &Property) -> (r: Json)
    ensures
        json_view(r) == graphson_v3(property_view(*p)),
    decreases p,
{
    proof {
        reveal_with_fuel(property_view, 1);
    }
    let v = p.value.encode_v3();
    typed("g:Property", object2("key", Json::Str(p.key.clone()), "value", v))
}

/// The members of an edge's properties: each key with the property's form.
fn encode_edge_properties_v3(ps: &Vec<Property>) -> (r: Vec<(String, Json)>)
    ensures
        members_view(r@) == zip_members(
            properties_view(ps@).map_values(|p: GValue| member_key(p)),
            graphson_list(properties_view(ps@)),
        ),
    decreases ps, 0int,
{
    let ghost pv = properties_view(ps@);
    let ghost z = zip_members(pv.map_values(|p: GValue| member_key(p)), graphson_list(pv));
    proof {
        lemma_properties_view(ps@);
        lemma_graphson_list(pv);
        assert(members_view(Seq::<(String, Json)>::empty()) =~= z.subrange(0, 0));
    }
    let mut r: Vec<(String, Json)> = Vec::new();
    let mut i: usize = 0;
    while i < ps.len()
        invariant
            i <= ps@.len(),
            pv == properties_view(ps@),
            pv.len() == ps@.len(),
            graphson_list(pv).len() == pv.len(),
            forall|k: int| 0 <= k < ps@.len() ==> #[trigger] pv[k] == property_view(ps@[k]),
            forall|k: int| 0 <= k < pv.len() ==> #[trigger] graphson_list(pv)[k] == graphson_v3(pv[k]),
            z == zip_members(pv.map_values(|p: GValue| member_key(p)), graphson_list(pv)),
            members_view(r@) == z.subrange(0, i as int),
        decreases ps@.len() - i,
    {
        let j = encode_property_v3(&ps[i]);
        let k = ps[i].key.clone();
        proof {
            reveal_with_fuel(property_view, 1);
            assert(member_key(pv[i as int]) == k@);
            assert(z[i as int] == (k@, json_view(j)));
            assert(z.subrange(0, i + 1) =~= z.subrange(0, i as int).push(z[i as int]));
        }
        push_member(&mut r, k, j);
        i = i + 1;
    }
    proof {
        assert(z.subrange(0, i as int) =~= z);
    }
    r
}

/// The members of a vertex property's properties: each key with the form of its value.
fn encode_property_values_v3(ps: &Vec<Property>) -> (r: Vec<(String, Json)>)
    ensures
        members_view(r@) == zip_members(
            properties_view(ps@).map_values(|p: GValue| member_key(p)),
            graphson_property_values(properties_view(ps@)),
        ),
    decreases ps, 0int,
{
    let ghost pv = properties_view(ps@);
    let ghost z = zip_members(pv.map_values(|p: GValue| member_key(p)), graphson_property_values(pv));
    proof {
        lemma_properties_view(ps@);
        lemma_graphson_property_values(pv);
        assert(members_view(Seq::<(String, Json)>::empty()) =~= z.subrange(0, 0));
    }
    let mut r: Vec<(String, Json)> = Vec::new();
    let mut i: usize = 0;
    while i < ps.len()
        invariant
            i <= ps@.len(),
            pv == properties_view(ps@),
            pv.len() == ps@.len(),
            graphson_property_values(pv).len() == pv.len(),
            forall|k: int| 0 <= k < ps@.len() ==> #[trigger] pv[k] == property_view(ps@[k]),
            forall|k: int| 0 <= k < pv.len() ==> #[trigger] graphson_property_values(pv)[k] == match pv[k] {
                GValue::Property { value, .. } => graphson_v3(*value),
                _ => JsonView::Null,
            },
            z == zip_members(pv.map_values(|p: GValue| member_key(p)), graphson_property_values(pv)),
            members_view(r@) == z.subrange(0, i as int),
        decreases ps@.len() - i,
    {
        let j = ps[i].value.encode_v3();
        let k = ps[i].key.clone();
        proof {
            reveal_with_fuel(property_view, 1);
            assert(member_key(pv[i as int]) == k@);
            assert(z[i as int] == (k@, json_view(j)));
            assert(z.subrange(0, i + 1) =~= z.subrange(0, i as int).push(z[i as int]));
        }
        push_member(&mut r, k, j);
        i = i + 1;
    }
    proof {
        assert(z.subrange(0, i as int) =~= z);
    }
    r
}

/// The GraphSON 3 form of an edge: its id and label, the ids and labels of its vertices, and
/// its properties by key where it has them.
#[verifier::rlimit(40)]
fn encode_edge_v3(e: &Edge) -> (r: Json)
    ensures
        json_view(r) == graphson_v3(edge_view(*e)),
    decreases e,
{
    proof {
        reveal_with_fuel(edge_view, 1);
    }
    let mut ms: Vec<(String, Json)> = Vec::new();
    push_member(&mut ms, "id".to_owned(), e.id.encode_v3());
    push_member(&mut ms, "label".to_owned(), Json::Str(e.label.clone()));
    push_member(&mut ms, "inVLabel".to_owned(), Json::Str(e.in_v_label.clone()));
    push_member(&mut ms, "outVLabel".to_owned(), Json::Str(e.out_v_label.clone()));
    push_member(&mut ms, "inV".to_owned(), e.in_v_id.encode_v3());
    push_member(&mut ms, "outV".to_owned(), e.out_v_id.encode_v3());
    let ghost base = seq![
        ("id"@, graphson_v3(value_view(*e.id))),
        ("label"@, JsonView::Str(e.label@)),
        ("inVLabel"@, JsonView::Str(e.in_v_label@)),
        ("outVLabel"@, JsonView::Str(e.out_v_label@)),
        ("inV"@, graphson_v3(value_view(*e.in_v_id))),
        ("outV"@, graphson_v3(value_view(*e.out_v_id))),
    ];
    proof {
        assert(members_view(Seq::<(String, Json)>::empty()) =~= Seq::<(Seq<char>, JsonView)>::empty());
        assert(members_view(ms@) =~= base);
    }
    match &e.properties {
        Some(ps) => {
            let pm = encode_edge_properties_v3(ps);
            push_member(&mut ms, "properties".to_owned(), Json::Object(pm));
            proof {
                assert(members_view(ms@) =~= base + seq![
                    ("properties"@, JsonView::Object(zip_members(properties_view(ps@).map_values(|q: GValue| member_key(q)), graphson_list(properties_view(ps@))))),
                ]);
            }
        },
        None => {
            proof {
                assert(members_view(ms@) =~= base + Seq::<(Seq<char>, JsonView)>::empty());
            }
        },
    }
    typed("g:Edge", Json::Object(ms))
}

/// The GraphSON 3 form of a path: its labels and its objects.
fn encode_path_v3(p: &Path) -> (r: Json)
    ensures
        json_view(r) == graphson_v3(path_view(*p)),
    decreases p,
{
    let labels = encode_path_labels_v3(p);
    let objects = typed("g:List", Json::Array(encode_list_v3(&p.objects)));
    typed("g:Path", object2("labels", labels, "objects", objects))
}

/// The labels of a path as a list of sets of texts.
fn encode_path_labels_v3(p: &Path) -> (r: Json)
    ensures
        json_view(r) == path_labels_json(p.labels.deep_view()),
{
    let ghost ls = p.labels.deep_view();
    let mut outer: Vec<Json> = Vec::new();
    let mut i: usize = 0;
    while i < p.labels.len()
        invariant
            i <= p.labels@.len(),
            ls == p.labels.deep_view(),
            ls.len() == p.labels@.len(),
            jsons_view(outer@) =~= ls.subrange(0, i as int).map_values(
                |l: Seq<Seq<char>>|
                    typed_json("g:Set"@, JsonView::Array(l.map_values(|s: Seq<char>| JsonView::Str(s)))),
            ),
        decreases p.labels@.len() - i,
    {
        let set = &p.labels[i].0;
        let mut inner: Vec<Json> = Vec::new();
        let mut k: usize = 0;
        while k < set.len()
            invariant
                k <= set@.len(),
                jsons_view(inner@) =~= set.deep_view().subrange(0, k as int).map_values(
                    |s: Seq<char>| JsonView::Str(s),
                ),
            decreases set@.len() - k,
        {
            let t = Json::Str(set[k].clone());
            proof {
                lemma_jsons_view_push(inner@, t);
                assert(set.deep_view()[k as int] == set@[k as int]@);
                assert(set.deep_view().subrange(0, k + 1).map_values(|s: Seq<char>| JsonView::Str(s))
                    =~= set.deep_view().subrange(0, k as int).map_values(|s: Seq<char>| JsonView::Str(s)).push(JsonView::Str(set@[k as int]@)));
            }
            inner.push(t);
            k = k + 1;
        }
        let t = typed("g:Set", Json::Array(inner));
        proof {
            lemma_jsons_view_push(outer@, t);
            assert(set.deep_view().subrange(0, k as int) =~= set.deep_view());
            assert(ls[i as int] == p.labels@[i as int].deep_view());
            assert(ls.subrange(0, i + 1).map_values(
                |l: Seq<Seq<char>>|
                    typed_json("g:Set"@, JsonView::Array(l.map_values(|s: Seq<char>| JsonView::Str(s)))),
            ) =~= ls.subrange(0, i as int).map_values(
                |l: Seq<Seq<char>>|
                    typed_json("g:Set"@, JsonView::Array(l.map_values(|s: Seq<char>| JsonView::Str(s)))),
            ).push(json_view(t)));
        }
        outer.push(t);
        i = i + 1;
    }
    proof {
        assert(ls.subrange(0, i as int) =~= ls);
    }
    typed("g:List", Json::Array(outer))
}

/// The GraphSON 3 form of a vertex property: its id, value and label, and the values of its
/// properties by key where it has them.
fn encode_vertex_property_v3(p: &VertexProperty) -> (r: Json)
    ensures
        json_view(r) == graphson_v3(vertex_property_view(*p)),
    decreases p,
{
    proof {
        reveal_with_fuel(vertex_property_view, 1);
    }
    let mut ms: Vec<(String, Json)> = Vec::new();
    push_member(&mut ms, "id".to_owned(), p.id.encode_v3());
    push_member(&mut ms, "value".to_owned(), p.value.encode_v3());
    push_member(&mut ms, "label".to_owned(), Json::Str(p.label.clone()));
    let ghost base = seq![
        ("id"@, graphson_v3(value_view(*p.id))),
        ("value"@, graphson_v3(value_view(*p.value))),
        ("label"@, JsonView::Str(p.label@)),
    ];
    proof {
        assert(members_view(Seq::<(String, Json)>::empty()) =~= Seq::<(Seq<char>, JsonView)>::empty());
        assert(members_view(ms@) =~= base);
    }
    match &p.properties {
        Some(ps) => {
            let pm = encode_property_values_v3(ps);
            push_member(&mut ms, "properties".to_owned(), Json::Object(pm));
            proof {
                assert(members_view(ms@) =~= base + seq![
                    ("properties"@, JsonView::Object(zip_members(properties_view(ps@).map_values(|q: GValue| member_key(q)), graphson_property_values(properties_view(ps@))))),
                ]);
            }
        },
        None => {
            proof {
                assert(members_view(ms@) =~= base + Seq::<(Seq<char>, JsonView)>::empty());
            }
        },
    }
    typed("g:VertexProperty", Json::Object(ms))
}

/// The GraphSON 3 forms of vertex properties, in order.
fn encode_vertex_property_list_v3(ps: &Vec<VertexProperty>) -> (r: Vec<Json>)
    ensures
        jsons_view(r@) == graphson_list(vertex_properties_view(ps@)),
    decreases ps, 0int,
{
    let mut r: Vec<Json> = Vec::new();
    let mut i: usize = 0;
    proof {
        assert(ps@.subrange(0, 0) =~= Seq::<VertexProperty>::empty());
    }
    while i < ps.len()
        invariant
            i <= ps@.len(),
            jsons_view(r@) == graphson_list(vertex_properties_view(ps@.subrange(0, i as int))),
        decreases ps@.len() - i,
    {
        let j = encode_vertex_property_v3(&ps[i]);
        proof {
            lemma_jsons_view_push(r@, j);
            let a = ps@.subrange(0, i as int);
            let b = ps@.subrange(0, i + 1);
            assert(b.subrange(0, i as int) =~= a);
            assert(vertex_properties_view(b) == vertex_properties_view(a).push(vertex_property_view(ps@[i as int])));
            lemma_graphson_list_push(vertex_properties_view(a), vertex_property_view(ps@[i as int]));
        }
        r.push(j);
        i = i + 1;
    }
    proof {
        assert(ps@.subrange(0, i as int) =~= ps@);
    }
    r
}

/// The labels of vertex properties, each once, in the order of their first occurrence.
fn distinct_vertex_labels(ps: &Vec<VertexProperty>) -> (r: Vec<String>)
    ensures
        r@.map_values(|s: String| s@) == distinct_labels(
            vertex_properties_view(ps@).map_values(|p: GValue| member_key(p)),
        ),
{
    let ghost ls = vertex_properties_view(ps@).map_values(|p: GValue| member_key(p));
    proof {
        lemma_vertex_properties_view(ps@);
        reveal_with_fuel(vertex_property_view, 1);
        assert(ls.subrange(0, 0) =~= Seq::<Seq<char>>::empty());
    }
    let mut r: Vec<String> = Vec::new();
    let mut i: usize = 0;
    while i < ps.len()
        invariant
            i <= ps@.len(),
            ls.len() == ps@.len(),
            forall|k: int| 0 <= k < ps@.len() ==> #[trigger] ls[k] == ps@[k].label@,
            r@.map_values(|s: String| s@) == distinct_labels(ls.subrange(0, i as int)),
        decreases ps@.len() - i,
    {
        let l = &ps[i].label;
        let mut found = false;
        let mut j: usize = 0;
        while j < r.len()
            invariant
                j <= r@.len(),
                found == exists|k: int| 0 <= k < j && (#[trigger] r@[k])@ == l@,
            decreases r@.len() - j,
        {
            if str_eq(r[j].as_str(), l.as_str()) {
                found = true;
            }
            j = j + 1;
        }
        let ghost d = distinct_labels(ls.subrange(0, i as int));
        proof {
            let b = ls.subrange(0, i + 1);
            assert(b.subrange(0, i as int) =~= ls.subrange(0, i as int));
            assert(b[i as int] == l@);
            if found {
                let k = choose|k: int| 0 <= k < r@.len() && (#[trigger] r@[k])@ == l@;
                assert(d[k] == r@[k]@);
                assert(d.contains(l@));
            } else {
                assert forall|k: int| 0 <= k < d.len() implies d[k] != l@ by {
                    assert(d[k] == r@[k]@);
                }
                assert(!d.contains(l@));
            }
        }
        if !found {
            let c = l.clone();
            proof {
                assert(r@.push(c).map_values(|s: String| s@) =~= d.push(l@));
            }
            r.push(c);
        }
        i = i + 1;
    }
    proof {
        assert(ls.subrange(0, i as int) =~= ls);
    }
    r
}

/// The forms of the vertex properties labelled `l`, in order.
fn labelled_vertex_properties_v3(ps: &Vec<VertexProperty>, l: &String) -> (r: Vec<Json>)
    ensures
        jsons_view(r@) == labelled(
            vertex_properties_view(ps@).map_values(|p: GValue| member_key(p)),
            graphson_list(vertex_properties_view(ps@)),
            l@,
        ),
    decreases ps, 0int,
{
    let ghost pv = vertex_properties_view(ps@);
    let ghost ls = pv.map_values(|p: GValue| member_key(p));
    let ghost vs = graphson_list(pv);
    proof {
        lemma_vertex_properties_view(ps@);
        lemma_graphson_list(pv);
        reveal_with_fuel(vertex_property_view, 1);
        assert(ls.subrange(0, 0) =~= Seq::<Seq<char>>::empty());
    }
    let mut r: Vec<Json> = Vec::new();
    let mut i: usize = 0;
    while i < ps.len()
        invariant
            i <= ps@.len(),
            pv == vertex_properties_view(ps@),
            ls == pv.map_values(|p: GValue| member_key(p)),
            vs == graphson_list(pv),
            ls.len() == ps@.len(),
            vs.len() == ps@.len(),
            forall|k: int| 0 <= k < ps@.len() ==> #[trigger] ls[k] == ps@[k].label@,
            forall|k: int| 0 <= k < ps@.len() ==> #[trigger] vs[k] == graphson_v3(vertex_property_view(ps@[k])),
            jsons_view(r@) == labelled(ls.subrange(0, i as int), vs, l@),
        decreases ps@.len() - i,
    {
        let ghost b = ls.subrange(0, i + 1);
        proof {
            assert(b.subrange(0, i as int) =~= ls.subrange(0, i as int));
            assert(b[i as int] == ps@[i as int].label@);
        }
        if str_eq(ps[i].label.as_str(), l.as_str()) {
            let j = encode_vertex_property_v3(&ps[i]);
            proof {
                lemma_jsons_view_push(r@, j);
                assert(labelled(b, vs, l@) =~= labelled(ls.subrange(0, i as int), vs, l@).push(vs[i as int]));
            }
            r.push(j);
        } else {
            proof {
                assert(labelled(b, vs, l@) =~= labelled(ls.subrange(0, i as int), vs, l@));
            }
        }
        i = i + 1;
    }
    proof {
        assert(ls.subrange(0, i as int) =~= ls);
    }
    r
}

/// The properties of a vertex grouped by label.
fn encode_vertex_groups_v3(ps: &Vec<VertexProperty>) -> (r: Vec<(String, Json)>)
    ensures
        members_view(r@) == grouped_members(
            vertex_properties_view(ps@).map_values(|p: GValue| member_key(p)),
            graphson_list(vertex_properties_view(ps@)),
        ),
    decreases ps, 1int,
{
    let ghost ls = vertex_properties_view(ps@).map_values(|p: GValue| member_key(p));
    let ghost vs = graphson_list(vertex_properties_view(ps@));
    let labels = distinct_vertex_labels(ps);
    let ghost g = grouped_members(ls, vs);
    proof {
        assert(g.len() == labels@.len());
        assert(members_view(Seq::<(String, Json)>::empty()) =~= g.subrange(0, 0));
    }
    let mut r: Vec<(String, Json)> = Vec::new();
    let mut k: usize = 0;
    while k < labels.len()
        invariant
            k <= labels@.len(),
            g == grouped_members(ls, vs),
            ls == vertex_properties_view(ps@).map_values(|p: GValue| member_key(p)),
            vs == graphson_list(vertex_properties_view(ps@)),
            labels@.map_values(|s: String| s@) == distinct_labels(ls),
            g.len() == labels@.len(),
            members_view(r@) == g.subrange(0, k as int),
        decreases labels@.len() - k,
    {
        let arr = labelled_vertex_properties_v3(ps, &labels[k]);
        let name = labels[k].clone();
        proof {
            assert(distinct_labels(ls)[k as int] == labels@[k as int]@);
            assert(g[k as int] == (name@, JsonView::Array(jsons_view(arr@))));
            assert(g.subrange(0, k + 1) =~= g.subrange(0, k as int).push(g[k as int]));
        }
        push_member(&mut r, name, Json::Array(arr));
        k = k + 1;
    }
    proof {
        assert(g.subrange(0, k as int) =~= g);
    }
    r
}

/// The GraphSON 3 form of a vertex: its id and label, and its properties grouped by label
/// where it has them.
fn encode_vertex_v3(v: &Vertex) -> (r: Json)
    ensures
        json_view(r) == graphson_v3(vertex_view(*v)),
    decreases v,
{
    proof {
        reveal_with_fuel(vertex_view, 1);
    }
    let mut ms: Vec<(String, Json)> = Vec::new();
    push_member(&mut ms, "id".to_owned(), v.id.encode_v3());
    push_member(&mut ms, "label".to_owned(), Json::Str(v.label.clone()));
    let ghost base = seq![("id"@, graphson_v3(value_view(*v.id))), ("label"@, JsonView::Str(v.label@))];
    proof {
        assert(members_view(Seq::<(String, Json)>::empty()) =~= Seq::<(Seq<char>, JsonView)>::empty());
        assert(members_view(ms@) =~= base);
    }
    match &v.properties {
        Some(ps) => {
            let pm = encode_vertex_groups_v3(ps);
            push_member(&mut ms, "properties".to_owned(), Json::Object(pm));
            proof {
                assert(members_view(ms@) =~= base + seq![
                    ("properties"@, JsonView::Object(grouped_members(vertex_properties_view(ps@).map_values(|q: GValue| member_key(q)), graphson_list(vertex_properties_view(ps@))))),
                ]);
            }
        },
        None => {
            proof {
                assert(members_view(ms@) =~= base + Seq::<(Seq<char>, JsonView)>::empty());
            }
        },
    }
    typed("g:Vertex", Json::Object(ms))
}

impl GremlinValue {
    /// The GraphSON 3 form of the value (see `graphson_v3`).
    pub fn encode_v3(&self) -> (r: Json)
        ensures
            json_view(r) == graphson_v3(value_view(*self)),
        decreases self,
    {
        match self {
            GremlinValue::Int(x) => typed("g:Int32", Json::Int(*x as i64)),
            GremlinValue::Long(x) => long_to_json(*x),
            GremlinValue::String(s) => Json::Str(s.clone()),
            GremlinValue::Date(x) => typed("g:Date", Json::Int(*x)),
            GremlinValue::Timestamp(x) => typed("g:Timestamp", Json::Int(*x)),
            GremlinValue::Class(s) => typed("g:Class", Json::Str(s.clone())),
            GremlinValue::Double(b) => typed("g:Double", Json::Double(*b)),
            GremlinValue::Float(b) => typed("g:Float", Json::Float(*b)),
            GremlinValue::List(xs) => typed("g:List", Json::Array(encode_list_v3(xs))),
            GremlinValue::SetValue(xs) => typed("g:List", Json::Array(encode_list_v3(xs))),
            GremlinValue::MapValue(es) => typed("g:Map", Json::Array(encode_entries_v3(es))),
            GremlinValue::Uuid(u) => typed("g:UUID", Json::Str(uuid_to_text(*u))),
            GremlinValue::Edge(e) => encode_edge_v3(e),
            GremlinValue::Path(p) => encode_path_v3(p),
            GremlinValue::Property(p) => encode_property_v3(p),
            GremlinValue::Vertex(v) => encode_vertex_v3(v),
            GremlinValue::VertexProperty(p) => encode_vertex_property_v3(p),
            GremlinValue::Barrier(x) => typed("g:Barrier", str_json(x.as_str())),
            GremlinValue::Binding { key, value } => {
                let v = value.encode_v3();
                typed("g:Binding", object2("key", Json::Str(key.clone()), "value", v))
            },
            GremlinValue::Cardinality(x) => typed("g:Cardinality", str_json(x.as_str())),
            GremlinValue::Column(x) => typed("g:Column", str_json(x.as_str())),
            GremlinValue::Direction(x) => typed("g:Direction", str_json(x.as_str())),
            GremlinValue::Operator(x) => typed("g:Operator", str_json(x.as_str())),
            GremlinValue::Order(x) => typed("g:Order", str_json(x.as_str())),
            GremlinValue::Pick(x) => typed("g:Pick", str_json(x.as_str())),
            GremlinValue::Pop(x) => typed("g:Pop", str_json(x.as_str())),
            GremlinValue::Lambda(l) => typed(
                "g:Lambda",
                object3(
                    "script",
                    Json::Str(l.script.clone()),
                    "language",
                    Json::Str(l.language.clone()),
                    "arguments",
                    Json::Int(l.arguments_length as i64),
                ),
            ),
            GremlinValue::Scope(x) => typed("g:Scope", str_json(x.as_str())),
            GremlinValue::T(x) => typed("g:T", str_json(x.as_str())),
            GremlinValue::Traverser { bulk, value } => {
                let v = value.encode_v3();
                typed("g:Traverser", object2("bulk", long_to_json(*bulk), "value", v))
            },
            GremlinValue::Byte(x) => typed("gx:Byte", Json::Int(*x as i64)),
            GremlinValue::ByteBuffer(b) => typed("gx:ByteBuffer", Json::Str(latin1_string(b.bytes()))),
            GremlinValue::Short(x) => typed("gx:Int16", Json::Int(*x as i64)),
            GremlinValue::Boolean(b) => Json::Bool(*b),
            GremlinValue::BulkSet(items) => typed("g:BulkSet", Json::Array(encode_bulk_v3(items))),
            GremlinValue::Merge(x) => typed("g:Merge", str_json(x.as_str())),
            GremlinValue::UnspecifiedNullObject => Json::Null,
            GremlinValue::Char(c) => typed("gx:Char", Json::Str(char_string(*c))),
        }
    }
}

} // verus!
