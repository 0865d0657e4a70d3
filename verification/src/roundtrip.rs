use vstd::prelude::*;
use crate::binary::{be_i32, be_i64, lemma_parse_i32_prefix, lemma_parse_i64_prefix};
use crate::codec::{fq_bytes, shift, Codec, Decode, Encode, Parsed, PartialDecode, PartialEncode};
use crate::core_type::{lemma_code_from_code, CoreType};

use crate::binary::be_i16;
use crate::primitives::{lemma_string_roundtrip, string_partial_bytes, string_wf};

use vstd::utf8::encode_scalar;
use crate::leaf_laws::{leaf_wf, lemma_fq_step, lemma_leaf_roundtrip};
use crate::path_labels::{lemma_path_labels_roundtrip, path_labels_bytes, text_sets_wf};
use crate::value::{entries_bytes, key_bytes, key_index, key_value, keys_distinct, map_from_entries, parse_binding, parse_entries, parse_entry, parse_map, parse_partial_value, parse_traverser, parse_value, parse_value_list, parse_values, value_bytes, parse_element, parse_typed, parse_typed_values, parse_opt_list, parse_opt_typed, parse_parent, parse_id_label, parse_links, parse_property_head, value_key, values_bytes, GValue, KeyModel, encodable, all_encodable, entries_encodable};

verus! {

// ---------------------------------------------------------------------------
// Values that read back as themselves
// ---------------------------------------------------------------------------

/// A key whose text, if it has one, fits the 32-bit length prefix.
pub open spec fn key_wf(k: KeyModel) -> bool {
    match k {
        KeyModel::Str(cs) => string_wf(cs),
        _ => true,
    }
}

/// Values that are written so that they read back as themselves: they have a written form,
/// their texts, lists, maps and byte buffers fit the 32-bit length prefixes, and no map has
/// two entries with the same key.
#[verifier::opaque]
pub open spec fn value_wf(g: GValue) -> bool
    decreases g,
{
    match g {
        GValue::Date(_) => false,
        GValue::Timestamp(_) => false,
        GValue::BulkSet(_) => false,
        GValue::Edge { id, label, in_id, in_label, out_id, out_label, parent, properties } => {
            &&& value_wf(*id)
            &&& string_wf(label)
            &&& value_wf(*in_id)
            &&& string_wf(in_label)
            &&& value_wf(*out_id)
            &&& string_wf(out_label)
            &&& (match parent {
                Some(v) => *v is Vertex && value_wf(*v),
                None => true,
            })
            &&& (match properties {
                Some(xs) => xs.len() <= i32::MAX && values_wf(xs) && forall|i: int|
                    0 <= i < xs.len() ==> has_type(#[trigger] xs[i], CoreType::Property),
                None => true,
            })
        },
        GValue::Path { labels, objects } => {
            &&& text_sets_wf(labels)
            &&& objects.len() <= i32::MAX
            &&& values_wf(objects)
        },
        GValue::Property { key, value, parent } => {
            &&& string_wf(key)
            &&& value_wf(*value)
            &&& (*parent is Edge || *parent is VertexProperty || *parent is Null)
            &&& value_wf(*parent)
        },
        GValue::Vertex { id, label, properties } => {
            &&& value_wf(*id)
            &&& string_wf(label)
            &&& (match properties {
                Some(xs) => xs.len() <= i32::MAX && values_wf(xs) && forall|i: int|
                    0 <= i < xs.len() ==> has_type(#[trigger] xs[i], CoreType::VertexProperty),
                None => true,
            })
        },
        GValue::VertexProperty { id, label, value, parent, properties } => {
            &&& value_wf(*id)
            &&& string_wf(label)
            &&& value_wf(*value)
            &&& (match parent {
                Some(v) => *v is Vertex && value_wf(*v),
                None => true,
            })
            &&& (match properties {
                Some(xs) => xs.len() <= i32::MAX && values_wf(xs) && forall|i: int|
                    0 <= i < xs.len() ==> has_type(#[trigger] xs[i], CoreType::Property),
                None => true,
            })
        },
        GValue::Str(cs) => string_wf(cs),
        GValue::Class(cs) => string_wf(cs),
        GValue::List(xs) => xs.len() <= i32::MAX && values_wf(xs),
        GValue::SetValue(xs) => xs.len() <= i32::MAX && values_wf(xs),
        GValue::MapValue(es) => es.len() <= i32::MAX && keys_distinct(es) && entries_wf(es),
        GValue::Binding(k, v) => string_wf(k) && value_wf(*v),
        GValue::Traverser(_, v) => value_wf(*v),
        GValue::Lambda(l) => string_wf(l.language) && string_wf(l.script),
        GValue::ByteBuffer(bs) => bs.len() <= i32::MAX,
        _ => true,
    }
}

/// Every value of the sequence reads back as itself.
pub open spec fn values_wf(xs: Seq<GValue>) -> bool
    decreases xs,
{
    if xs.len() == 0 {
        true
    } else {
        values_wf(xs.subrange(0, xs.len() - 1)) && value_wf(xs[xs.len() - 1])
    }
}

/// Every key and value of the entries reads back as itself.
pub open spec fn entries_wf(es: Seq<(KeyModel, GValue)>) -> bool
    decreases es,
{
    if es.len() == 0 {
        true
    } else {
        entries_wf(es.subrange(0, es.len() - 1)) && key_wf(es[es.len() - 1].0) && value_wf(
            es[es.len() - 1].1,
        )
    }
}

/// Values that read back as themselves have a written form.
pub proof fn lemma_wf_encodable(g: GValue)
    requires
        value_wf(g),
    ensures
        encodable(g),
    decreases g,
{
    reveal_with_fuel(value_wf, 1);
    match g {
        GValue::List(xs) => lemma_values_wf_encodable(xs),
        GValue::SetValue(xs) => lemma_values_wf_encodable(xs),
        GValue::MapValue(es) => lemma_entries_wf_encodable(es),
        GValue::Binding(_, v) => lemma_wf_encodable(*v),
        GValue::Traverser(_, v) => lemma_wf_encodable(*v),
        GValue::Edge { id, in_id, out_id, parent, properties, .. } => {
            lemma_wf_encodable(*id);
            lemma_wf_encodable(*in_id);
            lemma_wf_encodable(*out_id);
            if let Some(v) = parent {
                lemma_wf_encodable(*v);
            }
            if let Some(xs) = properties {
                lemma_values_wf_encodable(xs);
            }
        },
        GValue::Path { objects, .. } => lemma_values_wf_encodable(objects),
        GValue::Property { value, parent, .. } => {
            lemma_wf_encodable(*value);
            lemma_wf_encodable(*parent);
        },
        GValue::Vertex { id, properties, .. } => {
            lemma_wf_encodable(*id);
            if let Some(xs) = properties {
                lemma_values_wf_encodable(xs);
            }
        },
        GValue::VertexProperty { id, value, parent, properties, .. } => {
            lemma_wf_encodable(*id);
            lemma_wf_encodable(*value);
            if let Some(v) = parent {
                lemma_wf_encodable(*v);
            }
            if let Some(xs) = properties {
                lemma_values_wf_encodable(xs);
            }
        },
        _ => {},
    }
}

proof fn lemma_values_wf_encodable(xs: Seq<GValue>)
    requires
        values_wf(xs),
    ensures
        all_encodable(xs),
    decreases xs,
{
    reveal_with_fuel(value_wf, 1);
    if xs.len() > 0 {
        lemma_values_wf_encodable(xs.subrange(0, xs.len() - 1));
        lemma_wf_encodable(xs[xs.len() - 1]);
    }
}

proof fn lemma_entries_wf_encodable(es: Seq<(KeyModel, GValue)>)
    requires
        entries_wf(es),
    ensures
        entries_encodable(es),
    decreases es,
{
    reveal_with_fuel(value_wf, 1);
    if es.len() > 0 {
        lemma_entries_wf_encodable(es.subrange(0, es.len() - 1));
        lemma_wf_encodable(es[es.len() - 1].1);
    }
}

// ---------------------------------------------------------------------------
// Steps of the proof
// ---------------------------------------------------------------------------

/// A key is written as the value it stands for, and reads back as itself.
proof fn lemma_key(k: KeyModel)
    ensures
        key_bytes(k) == value_bytes(key_value(k)),
        value_key(key_value(k)) == Some(k),
        key_wf(k) ==> value_wf(key_value(k)),
{
    reveal_with_fuel(value_wf, 1);
    reveal_with_fuel(value_bytes, 1);
}

/// A map whose keys differ is built back by inserting its entries in order.
pub proof fn lemma_map_from_distinct(es: Seq<(KeyModel, GValue)>)
    requires
        keys_distinct(es),
    ensures
        map_from_entries(es) == es,
    decreases es.len(),
{
    if es.len() > 0 {
        let init = es.subrange(0, es.len() - 1);
        assert(keys_distinct(init));
        lemma_map_from_distinct(init);
        let k = es[es.len() - 1].0;
        lemma_key_absent(init, k);
        assert(init.push(es[es.len() - 1]) =~= es);
    }
}

/// A key held by no entry has no index.
proof fn lemma_key_absent(m: Seq<(KeyModel, GValue)>, k: KeyModel)
    requires
        forall|i: int| 0 <= i < m.len() ==> m[i].0 != k,
    ensures
        key_index(m, k) == -1,
    decreases m.len(),
{
    if m.len() > 0 {
        lemma_key_absent(m.subrange(0, m.len() - 1), k);
    }
}

// ---------------------------------------------------------------------------
// The round trip
// ---------------------------------------------------------------------------

/// Reading the bytes that `build_fq_bytes` writes for a value, whatever follows them, gives
/// the value back and takes exactly its bytes.
pub proof fn lemma_value_roundtrip(g: GValue, rest: Seq<u8>)
    requires
        value_wf(g),
    ensures
        parse_value(value_bytes(g) + rest) == Parsed::Done(g, value_bytes(g).len() as int),
    decreases g, 5int,
{
    reveal_with_fuel(value_wf, 1);
    match g {
        GValue::Vertex { .. } => lemma_element_roundtrip(g, rest),
        GValue::VertexProperty { .. } => lemma_element_roundtrip(g, rest),
        GValue::Property { .. } => lemma_element_roundtrip(g, rest),
        GValue::Path { .. } => lemma_element_roundtrip(g, rest),
        GValue::Edge { .. } => lemma_element_roundtrip(g, rest),
        GValue::List(xs) => {
            let p = be_i32(xs.len() as i32) + values_bytes(xs);
            assert(value_bytes(g) == fq_bytes(0x09u8, p)) by {
                reveal_with_fuel(value_bytes, 1);
            }
            lemma_list_partial(xs, rest);
            lemma_fq_step(0x09u8, CoreType::List, p, rest, g);
        },
        GValue::SetValue(xs) => {
            let p = be_i32(xs.len() as i32) + values_bytes(xs);
            assert(value_bytes(g) == fq_bytes(0x0bu8, p)) by {
                reveal_with_fuel(value_bytes, 1);
            }
            lemma_list_partial(xs, rest);
            lemma_fq_step(0x0bu8, CoreType::SetType, p, rest, g);
        },
        GValue::MapValue(es) => {
            let p = be_i32(es.len() as i32) + entries_bytes(es);
            assert(value_bytes(g) == fq_bytes(0x0au8, p)) by {
                reveal_with_fuel(value_bytes, 1);
            }
            lemma_map_partial(es, rest);
            lemma_fq_step(0x0au8, CoreType::MapType, p, rest, g);
        },
        GValue::Binding(k, v) => {
            assert(value_bytes(g) == fq_bytes(0x14u8, string_partial_bytes(k) + value_bytes(*v))) by {
                reveal_with_fuel(value_bytes, 1);
            }
            lemma_binding_partial(k, *v, rest);
            lemma_fq_step(
                0x14u8,
                CoreType::Binding,
                string_partial_bytes(k) + value_bytes(*v),
                rest,
                g,
            );
        },
        GValue::Traverser(bulk, v) => {
            assert(value_bytes(g) == fq_bytes(0x21u8, be_i64(bulk) + value_bytes(*v))) by {
                reveal_with_fuel(value_bytes, 1);
            }
            lemma_traverser_partial(bulk, *v, rest);
            lemma_fq_step(0x21u8, CoreType::Traverser, be_i64(bulk) + value_bytes(*v), rest, g);
        },
        _ => {
            assert(leaf_wf(g));
            lemma_leaf_roundtrip(g, rest);
        },
    }
}

/// The partial form of a list of values reads back as the list.
pub(crate) proof fn lemma_list_partial(xs: Seq<GValue>, rest: Seq<u8>)
    requires
        xs.len() <= i32::MAX,
        values_wf(xs),
    ensures
        parse_value_list(be_i32(xs.len() as i32) + values_bytes(xs) + rest) == Parsed::Done(
            xs,
            (be_i32(xs.len() as i32) + values_bytes(xs)).len() as int,
        ),
    decreases xs, 1int,
{
    reveal_with_fuel(value_wf, 1);
    let b = values_bytes(xs);
    let s = be_i32(xs.len() as i32) + b + rest;
    assert(s =~= be_i32(xs.len() as i32) + (b + rest));
    lemma_parse_i32_prefix(xs.len() as i32, b + rest);
    assert(s.skip(4) =~= b + rest);
    lemma_values_roundtrip(xs, rest);
}

/// The bytes of values written one after another end with those of the last value.
proof fn lemma_values_bytes_last(xs: Seq<GValue>)
    requires
        xs.len() > 0,
    ensures
        values_bytes(xs) == values_bytes(xs.subrange(0, xs.len() - 1)) + value_bytes(
            xs[xs.len() - 1],
        ),
{
    reveal_with_fuel(value_bytes, 1);
}

/// Values written one after another read back as themselves.
proof fn lemma_values_roundtrip(xs: Seq<GValue>, rest: Seq<u8>)
    requires
        values_wf(xs),
    ensures
        parse_values(values_bytes(xs) + rest, xs.len()) == Parsed::Done(
            xs,
            values_bytes(xs).len() as int,
        ),
    decreases xs, 0int,
{
    reveal_with_fuel(value_wf, 1);
    if xs.len() > 0 {
        let init = xs.subrange(0, xs.len() - 1);
        let last = xs[xs.len() - 1];
        let a = values_bytes(init);
        let b = value_bytes(last);
        let s = values_bytes(xs) + rest;
        lemma_values_bytes_last(xs);
        assert(s =~= a + (b + rest));
        lemma_values_roundtrip(init, b + rest);
        assert(parse_values(s, (xs.len() - 1) as nat) == Parsed::Done(init, a.len() as int));
        assert(s.skip(a.len() as int) =~= b + rest);
        lemma_value_roundtrip(last, rest);
        assert(parse_value(s.skip(a.len() as int)) == Parsed::Done(last, b.len() as int));
        assert(init.push(last) =~= xs);
        assert(parse_values(s, xs.len()) == Parsed::Done(init.push(last), (a.len() + b.len()) as int));
    } else {
        assert(xs =~= Seq::<GValue>::empty());
        assert(values_bytes(xs) == Seq::<u8>::empty()) by {
            reveal_with_fuel(value_bytes, 1);
        }
    }
}

/// The partial form of a map whose keys differ reads back as the map.
proof fn lemma_map_partial(es: Seq<(KeyModel, GValue)>, rest: Seq<u8>)
    requires
        es.len() <= i32::MAX,
        keys_distinct(es),
        entries_wf(es),
    ensures
        parse_map(be_i32(es.len() as i32) + entries_bytes(es) + rest) == Parsed::Done(
            GValue::MapValue(es),
            (be_i32(es.len() as i32) + entries_bytes(es)).len() as int,
        ),
    decreases es, 1int,
{
    reveal_with_fuel(value_wf, 1);
    let b = entries_bytes(es);
    let s = be_i32(es.len() as i32) + b + rest;
    assert(s =~= be_i32(es.len() as i32) + (b + rest));
    lemma_parse_i32_prefix(es.len() as i32, b + rest);
    assert(s.skip(4) =~= b + rest);
    lemma_entries_roundtrip(es, rest);
    lemma_map_from_distinct(es);
}

/// The bytes of map entries end with those of the last entry.
proof fn lemma_entries_bytes_last(es: Seq<(KeyModel, GValue)>)
    requires
        es.len() > 0,
    ensures
        entries_bytes(es) == entries_bytes(es.subrange(0, es.len() - 1)) + key_bytes(
            es[es.len() - 1].0,
        ) + value_bytes(es[es.len() - 1].1),
{
    reveal_with_fuel(value_bytes, 1);
}

/// Map entries written one after another read back as themselves.
#[verifier::rlimit(100)]
#[verifier::spinoff_prover]
proof fn lemma_entries_roundtrip(es: Seq<(KeyModel, GValue)>, rest: Seq<u8>)
    requires
        entries_wf(es),
    ensures
        parse_entries(entries_bytes(es) + rest, es.len()) == Parsed::Done(
            es,
            entries_bytes(es).len() as int,
        ),
    decreases es, 0int,
{
    reveal_with_fuel(value_wf, 1);
    if es.len() > 0 {
        let init = es.subrange(0, es.len() - 1);
        let (k, v) = es[es.len() - 1];
        let a = entries_bytes(init);
        let kb = key_bytes(k);
        let vb = value_bytes(v);
        let s = entries_bytes(es) + rest;
        lemma_entries_bytes_last(es);
        assert(s =~= a + (kb + vb + rest));
        lemma_entries_roundtrip(init, kb + vb + rest);
        assert(parse_entries(s, (es.len() - 1) as nat) == Parsed::Done(init, a.len() as int));
        let t = kb + vb + rest;
        assert(s.skip(a.len() as int) =~= t);
        lemma_entry_roundtrip(k, v, rest);
        assert(init.push((k, v)) =~= es);
        assert(parse_entries(s, es.len()) == Parsed::Done(init.push((k, v)), (a.len() + kb.len() + vb.len()) as int));
    } else {
        assert(es =~= Seq::<(KeyModel, GValue)>::empty());
        assert(entries_bytes(es) == Seq::<u8>::empty()) by {
            reveal_with_fuel(value_bytes, 1);
        }
    }
}

/// A map entry reads back as itself.
#[verifier::rlimit(100)]
#[verifier::spinoff_prover]
proof fn lemma_entry_roundtrip(k: KeyModel, v: GValue, rest: Seq<u8>)
    requires
        key_wf(k),
        value_wf(v),
    ensures
        parse_entry(key_bytes(k) + value_bytes(v) + rest) == Parsed::Done(
            (k, v),
            (key_bytes(k).len() + value_bytes(v).len()) as int,
        ),
    decreases v, 6int,
{
    reveal_with_fuel(value_wf, 1);
    let kb = key_bytes(k);
    let vb = value_bytes(v);
    let t = kb + vb + rest;
    lemma_key(k);
    assert(t =~= kb + (vb + rest));
    lemma_leaf_roundtrip(key_value(k), vb + rest);
    assert(parse_value(t) == Parsed::Done(key_value(k), kb.len() as int));
    assert(t.skip(kb.len() as int) =~= vb + rest);
    lemma_value_roundtrip(v, rest);
    assert(parse_value(t.skip(kb.len() as int)) == Parsed::Done(v, vb.len() as int));
}

/// The partial form of a binding reads back as the binding.
proof fn lemma_binding_partial(k: Seq<char>, v: GValue, rest: Seq<u8>)
    requires
        string_wf(k),
        value_wf(v),
    ensures
        parse_binding(string_partial_bytes(k) + value_bytes(v) + rest) == Parsed::Done(
            GValue::Binding(k, Box::new(v)),
            (string_partial_bytes(k) + value_bytes(v)).len() as int,
        ),
    decreases v, 6int,
{
    reveal_with_fuel(value_wf, 1);
    let a = string_partial_bytes(k);
    let s = a + value_bytes(v) + rest;
    assert(s =~= a + (value_bytes(v) + rest));
    lemma_string_roundtrip(k, value_bytes(v) + rest);
    assert(s.skip(a.len() as int) =~= value_bytes(v) + rest);
    lemma_value_roundtrip(v, rest);
}

/// The partial form of a traverser reads back as the traverser.
proof fn lemma_traverser_partial(bulk: i64, v: GValue, rest: Seq<u8>)
    requires
        value_wf(v),
    ensures
        parse_traverser(be_i64(bulk) + value_bytes(v) + rest) == Parsed::Done(
            GValue::Traverser(bulk, Box::new(v)),
            (be_i64(bulk) + value_bytes(v)).len() as int,
        ),
    decreases v, 6int,
{
    reveal_with_fuel(value_wf, 1);
    let s = be_i64(bulk) + value_bytes(v) + rest;
    assert(s =~= be_i64(bulk) + (value_bytes(v) + rest));
    lemma_parse_i64_prefix(bulk, value_bytes(v) + rest);
    assert(s.skip(8) =~= value_bytes(v) + rest);
    lemma_value_roundtrip(v, rest);
}


// ---------------------------------------------------------------------------
// Graph elements
// ---------------------------------------------------------------------------

/// A graph element reads back as itself.
#[verifier::rlimit(100)]
#[verifier::spinoff_prover]
proof fn lemma_element_roundtrip(g: GValue, rest: Seq<u8>)
    requires
        g is Vertex || g is VertexProperty || g is Property || g is Edge || g is Path,
        value_wf(g),
    ensures
        parse_value(value_bytes(g) + rest) == Parsed::Done(g, value_bytes(g).len() as int),
    decreases g, 4int,
{
    match g {
        GValue::Path { labels, objects } => {
            let p = path_labels_bytes(labels) + fq_bytes(
                0x09u8,
                be_i32(objects.len() as i32) + values_bytes(objects),
            );
            assert(value_bytes(g) == fq_bytes(0x0eu8, p)) by {
                reveal_with_fuel(value_bytes, 1);
            }
            lemma_path_partial(g, rest);
            lemma_fq_step(0x0eu8, CoreType::Path, p, rest, g);
        },
        GValue::Vertex { id, label, properties } => {
            let p = (value_bytes(*id) + string_partial_bytes(label)) + opt_list_bytes(properties);
            assert(value_bytes(g) == fq_bytes(0x11u8, p)) by {
                reveal_with_fuel(value_bytes, 1);
            }
            lemma_vertex_partial(g, rest);
            lemma_fq_step(0x11u8, CoreType::Vertex, p, rest, g);
        },
        GValue::VertexProperty { id, label, value, parent, properties } => {
            let p = (value_bytes(*id) + string_partial_bytes(label)) + value_bytes(*value) + (
            opt_value_bytes(parent) + opt_list_bytes(properties));
            assert(value_bytes(g) == fq_bytes(0x12u8, p)) by {
                reveal_with_fuel(value_bytes, 1);
            }
            lemma_vertex_property_partial(g, rest);
            lemma_fq_step(0x12u8, CoreType::VertexProperty, p, rest, g);
        },
        GValue::Property { key, value, parent } => {
            let p = string_partial_bytes(key) + value_bytes(*value) + value_bytes(*parent);
            assert(value_bytes(g) == fq_bytes(0x0fu8, p)) by {
                reveal_with_fuel(value_bytes, 1);
            }
            lemma_property_partial(g, rest);
            lemma_fq_step(0x0fu8, CoreType::Property, p, rest, g);
        },
        GValue::Edge { id, label, in_id, in_label, out_id, out_label, parent, properties } => {
            let p = (value_bytes(*id) + string_partial_bytes(label)) + (value_bytes(*in_id)
                + string_partial_bytes(in_label)) + (value_bytes(*out_id) + string_partial_bytes(
                out_label,
            )) + (opt_value_bytes(parent) + opt_list_bytes(properties));
            assert(value_bytes(g) == fq_bytes(0x0du8, p)) by {
                reveal_with_fuel(value_bytes, 1);
            }
            lemma_edge_partial(g, rest);
            lemma_fq_step(0x0du8, CoreType::Edge, p, rest, g);
        },
        _ => {},
    }
}

/// A value of a graph element has the element type `ct`.
pub open spec fn has_type(g: GValue, ct: CoreType) -> bool {
    match ct {
        CoreType::Edge => g is Edge,
        CoreType::Property => g is Property,
        CoreType::Vertex => g is Vertex,
        CoreType::VertexProperty => g is VertexProperty,
        _ => false,
    }
}

/// The graph element types.
pub open spec fn is_element_type(ct: CoreType) -> bool {
    ct is Edge || ct is Property || ct is Vertex || ct is VertexProperty
}

/// The bytes of a list that may be absent: the fully qualified list, or the null object.
pub open spec fn opt_list_bytes(o: Option<Seq<GValue>>) -> Seq<u8> {
    match o {
        Some(xs) => fq_bytes(0x09u8, be_i32(xs.len() as i32) + values_bytes(xs)),
        None => seq![0xfeu8, 0x01u8],
    }
}

/// The bytes of a value that may be absent: the value, or the null object.
pub open spec fn opt_value_bytes(o: Option<Box<GValue>>) -> Seq<u8> {
    match o {
        Some(v) => value_bytes(*v),
        None => seq![0xfeu8, 0x01u8],
    }
}

/// A value of an element type begins with that type's code and the set flag.
proof fn lemma_element_bytes_head(g: GValue, ct: CoreType)
    requires
        has_type(g, ct),
    ensures
        value_bytes(g).len() >= 2,
        value_bytes(g)[0] == ct.spec_code(),
        value_bytes(g)[1] == 0x00u8,
{
    reveal_with_fuel(value_bytes, 1);
}

/// Behind its own type code and the set flag, a graph element reads the same as a value.
proof fn lemma_typed_as_value(ct: CoreType, s: Seq<u8>)
    requires
        is_element_type(ct),
        s.len() >= 2,
        s[0] == ct.spec_code(),
        s[1] == 0x00u8,
    ensures
        parse_typed(ct, s) == parse_value(s),
{
    lemma_code_from_code(ct);
    assert(parse_partial_value(ct, s.skip(2)) == parse_element(ct, s.skip(2)));
}

/// Graph elements of type `ct` written one after another read back as themselves.
#[verifier::rlimit(100)]
#[verifier::spinoff_prover]
pub(crate) proof fn lemma_typed_values_roundtrip(ct: CoreType, xs: Seq<GValue>, rest: Seq<u8>)
    requires
        is_element_type(ct),
        values_wf(xs),
        forall|i: int| 0 <= i < xs.len() ==> has_type(#[trigger] xs[i], ct),
    ensures
        parse_typed_values(ct, values_bytes(xs) + rest, xs.len()) == Parsed::Done(
            xs,
            values_bytes(xs).len() as int,
        ),
    decreases xs, 0int,
{
    if xs.len() > 0 {
        let init = xs.subrange(0, xs.len() - 1);
        let last = xs[xs.len() - 1];
        assert(values_wf(init) && value_wf(last)) by {
            reveal_with_fuel(value_wf, 1);
        }
        let a = values_bytes(init);
        let b = value_bytes(last);
        let s = values_bytes(xs) + rest;
        lemma_values_bytes_last(xs);
        assert(s =~= a + (b + rest));
        assert forall|i: int| 0 <= i < init.len() implies has_type(#[trigger] init[i], ct) by {
            assert(init[i] == xs[i]);
        }
        lemma_typed_values_roundtrip(ct, init, b + rest);
        assert(s.skip(a.len() as int) =~= b + rest);
        lemma_value_roundtrip(last, rest);
        assert(has_type(xs[xs.len() - 1], ct));
        lemma_element_bytes_head(last, ct);
        lemma_typed_as_value(ct, b + rest);
        assert(parse_typed_values(ct, s, (xs.len() - 1) as nat) == Parsed::Done(init, a.len() as int));
        assert(parse_typed(ct, s.skip(a.len() as int)) == Parsed::Done(last, b.len() as int));
        assert(init.push(last) =~= xs);
    } else {
        assert(xs =~= Seq::<GValue>::empty());
        assert(values_bytes(xs) == Seq::<u8>::empty()) by {
            reveal_with_fuel(value_bytes, 1);
        }
    }
}

/// A list of graph elements of type `ct` that may be absent reads back as itself.
proof fn lemma_opt_list_roundtrip(ct: CoreType, o: Option<Seq<GValue>>, rest: Seq<u8>)
    requires
        is_element_type(ct),
        o matches Some(xs) ==> xs.len() <= i32::MAX && values_wf(xs) && forall|i: int|
            0 <= i < xs.len() ==> has_type(#[trigger] xs[i], ct),
    ensures
        parse_opt_list(ct, opt_list_bytes(o) + rest) == Parsed::Done(o, opt_list_bytes(o).len() as int),
    decreases o, 1int,
{
    match o {
        Some(xs) => {
            let b = values_bytes(xs);
            let s = opt_list_bytes(o) + rest;
            assert(s.skip(2) =~= be_i32(xs.len() as i32) + (b + rest));
            lemma_parse_i32_prefix(xs.len() as i32, b + rest);
            assert(s.skip(6) =~= b + rest);
            lemma_typed_values_roundtrip(ct, xs, rest);
        },
        None => {},
    }
}

/// A vertex that may be absent reads back as itself.
pub(crate) proof fn lemma_opt_vertex_roundtrip(o: Option<Box<GValue>>, rest: Seq<u8>)
    requires
        o matches Some(v) ==> *v is Vertex && value_wf(*v),
    ensures
        parse_opt_typed(CoreType::Vertex, opt_value_bytes(o) + rest) == Parsed::Done(
            o,
            opt_value_bytes(o).len() as int,
        ),
    decreases o, 1int,
{
    match o {
        Some(v) => {
            let s = value_bytes(*v) + rest;
            lemma_value_roundtrip(*v, rest);
            lemma_element_bytes_head(*v, CoreType::Vertex);
            lemma_typed_as_value(CoreType::Vertex, s);
            assert(parse_element(CoreType::Vertex, s.skip(2)) == parse_partial_value(
                CoreType::Vertex,
                s.skip(2),
            ));
            assert(parse_typed(CoreType::Vertex, s) == shift(
                parse_element(CoreType::Vertex, s.skip(2)),
                2,
            ));
        },
        None => {},
    }
}

/// The element a property belongs to reads back as itself.
proof fn lemma_parent_roundtrip(p: GValue, rest: Seq<u8>)
    requires
        p is Edge || p is VertexProperty || p is Null,
        value_wf(p),
    ensures
        parse_parent(value_bytes(p) + rest) == Parsed::Done(p, value_bytes(p).len() as int),
    decreases p, 6int,
{
    let s = value_bytes(p) + rest;
    lemma_value_roundtrip(p, rest);
    if p is Edge {
        lemma_element_bytes_head(p, CoreType::Edge);
        lemma_code_from_code(CoreType::Edge);
        assert(parse_partial_value(CoreType::Edge, s.skip(2)) == parse_element(CoreType::Edge, s.skip(2)));
    } else if p is VertexProperty {
        lemma_element_bytes_head(p, CoreType::VertexProperty);
        lemma_code_from_code(CoreType::VertexProperty);
        assert(parse_partial_value(CoreType::VertexProperty, s.skip(2)) == parse_element(
            CoreType::VertexProperty,
            s.skip(2),
        ));
    } else {
        assert(value_bytes(p) == seq![0xfeu8, 0x01u8]) by {
            reveal_with_fuel(value_bytes, 1);
        }
        lemma_code_from_code(CoreType::UnspecifiedNullObject);
    }
}

/// The partial form of a path reads back as the path.
#[verifier::rlimit(100)]
#[verifier::spinoff_prover]
proof fn lemma_path_partial(g: GValue, rest: Seq<u8>)
    requires
        g is Path,
        value_wf(g),
    ensures
        ({
            let p = path_labels_bytes(g->Path_labels) + fq_bytes(
                0x09u8,
                be_i32(g->Path_objects.len() as i32) + values_bytes(g->Path_objects),
            );
            parse_partial_value(CoreType::Path, p + rest) == Parsed::Done(g, p.len() as int)
        }),
    decreases g, 3int,
{
    let labels = g->Path_labels;
    let objects = g->Path_objects;
    assert(text_sets_wf(labels) && objects.len() <= i32::MAX && values_wf(objects)) by {
        reveal_with_fuel(value_wf, 1);
    }
    let a = path_labels_bytes(labels);
    let l = be_i32(objects.len() as i32) + values_bytes(objects);
    let b = fq_bytes(0x09u8, l);
    let s = a + b + rest;
    assert(parse_partial_value(CoreType::Path, s) == parse_element(CoreType::Path, s));
    assert(s =~= a + (b + rest));
    lemma_path_labels_roundtrip(labels, b + rest);
    assert(s.skip(a.len() as int) =~= b + rest);
    assert((b + rest).skip(2) =~= l + rest);
    lemma_list_partial(objects, rest);
}

/// An id and a label read back as themselves.
#[verifier::rlimit(100)]
#[verifier::spinoff_prover]
pub(crate) proof fn lemma_id_label(id: GValue, label: Seq<char>, rest: Seq<u8>)
    requires
        value_wf(id),
        string_wf(label),
    ensures
        parse_id_label(value_bytes(id) + string_partial_bytes(label) + rest) == Parsed::Done(
            (id, label),
            (value_bytes(id) + string_partial_bytes(label)).len() as int,
        ),
    decreases id, 6int,
{
    let a = value_bytes(id);
    let b = string_partial_bytes(label);
    let s = a + b + rest;
    assert(s =~= a + (b + rest));
    lemma_value_roundtrip(id, b + rest);
    assert(s.skip(a.len() as int) =~= b + rest);
    lemma_string_roundtrip(label, rest);
}

/// The partial form of a vertex reads back as the vertex.
#[verifier::rlimit(100)]
#[verifier::spinoff_prover]
proof fn lemma_vertex_partial(g: GValue, rest: Seq<u8>)
    requires
        g is Vertex,
        value_wf(g),
    ensures
        ({
            let p = (value_bytes(*g->Vertex_id) + string_partial_bytes(g->Vertex_label))
                + opt_list_bytes(g->Vertex_properties);
            parse_partial_value(CoreType::Vertex, p + rest) == Parsed::Done(g, p.len() as int)
        }),
    decreases g, 3int,
{
    let id = g->Vertex_id;
    let label = g->Vertex_label;
    let properties = g->Vertex_properties;
    assert(value_wf(*id) && string_wf(label) && (properties matches Some(xs) ==> xs.len() <= i32::MAX && values_wf(xs) && forall|i: int| 0 <= i < xs.len() ==> has_type(#[trigger] xs[i], CoreType::VertexProperty))) by {
        reveal_with_fuel(value_wf, 1);
    }
    let a = value_bytes(*id) + string_partial_bytes(label);
    let c = opt_list_bytes(properties);
    let s = a + c + rest;
    assert(parse_partial_value(CoreType::Vertex, s) == parse_element(CoreType::Vertex, s));
    assert(s =~= a + (c + rest));
    lemma_id_label(*id, label, c + rest);
    assert(s.skip(a.len() as int) =~= c + rest);
    lemma_opt_list_roundtrip(CoreType::VertexProperty, properties, rest);
}

/// The partial form of a vertex property reads back as the vertex property.
#[verifier::rlimit(100)]
#[verifier::spinoff_prover]
proof fn lemma_vertex_property_partial(g: GValue, rest: Seq<u8>)
    requires
        g is VertexProperty,
        value_wf(g),
    ensures
        ({
            let p = (value_bytes(*g->VertexProperty_id) + string_partial_bytes(
                g->VertexProperty_label,
            )) + value_bytes(*g->VertexProperty_value) + (opt_value_bytes(g->VertexProperty_parent)
                + opt_list_bytes(g->VertexProperty_properties));
            parse_partial_value(CoreType::VertexProperty, p + rest) == Parsed::Done(g, p.len() as int)
        }),
    decreases g, 3int,
{
    let id = g->VertexProperty_id;
    let label = g->VertexProperty_label;
    let value = g->VertexProperty_value;
    let parent = g->VertexProperty_parent;
    let properties = g->VertexProperty_properties;
    assert(value_wf(*id) && string_wf(label) && value_wf(*value)) by {
        reveal_with_fuel(value_wf, 1);
    }
    let a = value_bytes(*id) + string_partial_bytes(label);
    let b = value_bytes(*value);
    let l = opt_value_bytes(parent) + opt_list_bytes(properties);
    let s = a + b + l + rest;
    assert(parse_partial_value(CoreType::VertexProperty, s) == parse_element(
        CoreType::VertexProperty,
        s,
    ));
    assert(s =~= a + (b + (l + rest)));
    lemma_id_label(*id, label, b + (l + rest));
    assert(s.skip(a.len() as int) =~= b + (l + rest));
    lemma_value_roundtrip(*value, l + rest);
    assert(s.skip((a.len() + b.len()) as int) =~= l + rest);
    lemma_links(g, rest);
}


/// The links of an edge or of a vertex property, its parent vertex and its properties, read
/// back as themselves.
#[verifier::rlimit(100)]
#[verifier::spinoff_prover]
proof fn lemma_links(g: GValue, rest: Seq<u8>)
    requires
        g is Edge || g is VertexProperty,
        value_wf(g),
    ensures
        g matches GValue::Edge { parent, properties, .. } ==> parse_links(
            opt_value_bytes(parent) + opt_list_bytes(properties) + rest,
        ) == Parsed::Done(
            (parent, properties),
            (opt_value_bytes(parent) + opt_list_bytes(properties)).len() as int,
        ),
        g matches GValue::VertexProperty { parent, properties, .. } ==> parse_links(
            opt_value_bytes(parent) + opt_list_bytes(properties) + rest,
        ) == Parsed::Done(
            (parent, properties),
            (opt_value_bytes(parent) + opt_list_bytes(properties)).len() as int,
        ),
    decreases g, 1int,
{
    match g {
        GValue::Edge { parent, properties, .. } => {
            assert((parent matches Some(v) ==> *v is Vertex && value_wf(*v)) && (properties matches Some(xs) ==> xs.len() <= i32::MAX && values_wf(xs) && forall|i: int| 0 <= i < xs.len() ==> has_type(#[trigger] xs[i], CoreType::Property))) by {
                reveal_with_fuel(value_wf, 1);
            }
            let c = opt_value_bytes(parent);
            let d = opt_list_bytes(properties);
            let s = c + d + rest;
            assert(s =~= c + (d + rest));
            lemma_opt_vertex_roundtrip(parent, d + rest);
            assert(s.skip(c.len() as int) =~= d + rest);
            lemma_opt_list_roundtrip(CoreType::Property, properties, rest);
        },
        GValue::VertexProperty { parent, properties, .. } => {
            assert((parent matches Some(v) ==> *v is Vertex && value_wf(*v)) && (properties matches Some(xs) ==> xs.len() <= i32::MAX && values_wf(xs) && forall|i: int| 0 <= i < xs.len() ==> has_type(#[trigger] xs[i], CoreType::Property))) by {
                reveal_with_fuel(value_wf, 1);
            }
            let c = opt_value_bytes(parent);
            let d = opt_list_bytes(properties);
            let s = c + d + rest;
            assert(s =~= c + (d + rest));
            lemma_opt_vertex_roundtrip(parent, d + rest);
            assert(s.skip(c.len() as int) =~= d + rest);
            lemma_opt_list_roundtrip(CoreType::Property, properties, rest);
        },
        _ => {},
    }
}

/// The key and value of a property read back as themselves.
#[verifier::rlimit(100)]
#[verifier::spinoff_prover]
proof fn lemma_property_head(key: Seq<char>, value: GValue, rest: Seq<u8>)
    requires
        string_wf(key),
        value_wf(value),
    ensures
        parse_property_head(string_partial_bytes(key) + value_bytes(value) + rest) == Parsed::Done(
            (key, value),
            (string_partial_bytes(key) + value_bytes(value)).len() as int,
        ),
    decreases value, 6int,
{
    let a = string_partial_bytes(key);
    let b = value_bytes(value);
    let s = a + b + rest;
    assert(s =~= a + (b + rest));
    lemma_string_roundtrip(key, b + rest);
    assert(s.skip(a.len() as int) =~= b + rest);
    lemma_value_roundtrip(value, rest);
}

/// The partial form of a property reads back as the property.
#[verifier::rlimit(100)]
#[verifier::spinoff_prover]
proof fn lemma_property_partial(g: GValue, rest: Seq<u8>)
    requires
        g is Property,
        value_wf(g),
    ensures
        ({
            let p = string_partial_bytes(g->Property_key) + value_bytes(*g->Property_value)
                + value_bytes(*g->Property_parent);
            parse_partial_value(CoreType::Property, p + rest) == Parsed::Done(g, p.len() as int)
        }),
    decreases g, 3int,
{
    let key = g->Property_key;
    let value = g->Property_value;
    let parent = g->Property_parent;
    assert(string_wf(key) && value_wf(*value) && (*parent is Edge || *parent is VertexProperty
        || *parent is Null) && value_wf(*parent)) by {
        reveal_with_fuel(value_wf, 1);
    }
    let h = string_partial_bytes(key) + value_bytes(*value);
    let c = value_bytes(*parent);
    let s = h + c + rest;
    assert(parse_partial_value(CoreType::Property, s) == parse_element(CoreType::Property, s));
    assert(s =~= h + (c + rest));
    lemma_property_head(key, *value, c + rest);
    assert(s.skip(h.len() as int) =~= c + rest);
    lemma_parent_roundtrip(*parent, rest);
}



/// The partial form of an edge reads back as the edge.
#[verifier::rlimit(100)]
#[verifier::spinoff_prover]
proof fn lemma_edge_partial(g: GValue, rest: Seq<u8>)
    requires
        g is Edge,
        value_wf(g),
    ensures
        ({
            let p = (value_bytes(*g->Edge_id) + string_partial_bytes(g->Edge_label)) + (
            value_bytes(*g->Edge_in_id) + string_partial_bytes(g->Edge_in_label)) + (value_bytes(
                *g->Edge_out_id,
            ) + string_partial_bytes(g->Edge_out_label)) + (opt_value_bytes(g->Edge_parent)
                + opt_list_bytes(g->Edge_properties));
            parse_partial_value(CoreType::Edge, p + rest) == Parsed::Done(g, p.len() as int)
        }),
    decreases g, 3int,
{
    let id = g->Edge_id;
    let label = g->Edge_label;
    let in_id = g->Edge_in_id;
    let in_label = g->Edge_in_label;
    let out_id = g->Edge_out_id;
    let out_label = g->Edge_out_label;
    assert(value_wf(*id) && string_wf(label) && value_wf(*in_id) && string_wf(in_label)
        && value_wf(*out_id) && string_wf(out_label)) by {
        reveal_with_fuel(value_wf, 1);
    }
    let a = value_bytes(*id) + string_partial_bytes(label);
    let b = value_bytes(*in_id) + string_partial_bytes(in_label);
    let c = value_bytes(*out_id) + string_partial_bytes(out_label);
    let l = opt_value_bytes(g->Edge_parent) + opt_list_bytes(g->Edge_properties);
    let s = a + b + c + l + rest;
    assert(parse_partial_value(CoreType::Edge, s) == parse_element(CoreType::Edge, s));
    assert(s =~= a + (b + (c + (l + rest))));
    lemma_id_label(*id, label, b + (c + (l + rest)));
    assert(s.skip(a.len() as int) =~= b + (c + (l + rest)));
    lemma_id_label(*in_id, in_label, c + (l + rest));
    assert(s.skip((a.len() + b.len()) as int) =~= c + (l + rest));
    lemma_id_label(*out_id, out_label, l + rest);
    assert(s.skip((a.len() + b.len() + c.len()) as int) =~= l + rest);
    lemma_links(g, rest);
}

} // verus!
