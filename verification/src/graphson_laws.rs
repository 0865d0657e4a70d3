//! What reading gives back of the GraphSON 3 form of a value.

use vstd::prelude::*;
use crate::enums::{
    lemma_barrier_names, lemma_cardinality_names, lemma_column_names, lemma_direction_names,
    lemma_merge_names, lemma_operator_names, lemma_order_names, lemma_pick_names, lemma_pop_names,
    lemma_scope_names, lemma_t_names,
};
use crate::error::GraphSonError;
use crate::graphson::{
    graphson_entries, graphson_list, graphson_property_values, graphson_v3, key_json, latin1_text, long_json, member_key,
    path_labels_json, typed_json, zip_members,
};
use crate::graphson_read::{
    gvalue_key, is_enum_type, is_known_type, is_unheld_type, last_index, read_entries_v3, read_list_v3,
    label_sets_of, latin1_bytes, path_labels_value, properties_v3, read_as_type_v3, read_list_member_v3,
    read_members_v3, read_typed_v3, read_v3, texts_of, typed_array,
};
use crate::enums::{Barrier, Cardinality, Column, Direction, Merge, Operator, Order, Pick, Pop, Scope, T};
use crate::json::JsonView;
use crate::value::{GValue, KeyModel};

verus! {

/// A typed value whose type name is read, and is none of a value that is not held, reads
/// as its `@value` read for that type name.
proof fn lemma_read_typed_json(t: Seq<char>, v: JsonView)
    requires
        is_known_type(t),
        !is_unheld_type(t),
    ensures
        read_v3(typed_json(t, v)) == read_typed_v3(t, v),
{
    reveal_strlit("@type");
    reveal_strlit("@value");
    let ms = seq![("@type"@, JsonView::Str(t)), ("@value"@, v)];
    assert("@value"@.len() != "@type"@.len());
    assert(ms.subrange(0, 1) =~= seq![("@type"@, JsonView::Str(t))]);
    reveal_with_fuel(last_index, 2);
    assert(last_index(ms, "@type"@) == 0);
    assert(last_index(ms, "@value"@) == 1);
}

/// The lengths of the type names, and the characters that tell apart those of one length.
proof fn lemma_type_name_facts()
    ensures
        "g:Int32"@.len() == 7 && "g:Int32"@[2] == 'I' && "g:Int32"@[5] == '3' && "g:Int32"@[6] == '2',
        "g:Int64"@.len() == 7 && "g:Int64"@[2] == 'I' && "g:Int64"@[5] == '6' && "g:Int64"@[6] == '4',
        "g:Date"@.len() == 6 && "g:Date"@[2] == 'D' && "g:Date"@[5] == 'e',
        "g:Timestamp"@.len() == 11 && "g:Timestamp"@[2] == 'T' && "g:Timestamp"@[5] == 'e' && "g:Timestamp"@[6] == 's',
        "gx:Int16"@.len() == 8 && "gx:Int16"@[2] == ':' && "gx:Int16"@[5] == 't' && "gx:Int16"@[6] == '1',
        "gx:Byte"@.len() == 7 && "gx:Byte"@[2] == ':' && "gx:Byte"@[5] == 't' && "gx:Byte"@[6] == 'e',
        "g:Class"@.len() == 7 && "g:Class"@[2] == 'C' && "g:Class"@[5] == 's' && "g:Class"@[6] == 's',
        "g:Double"@.len() == 8 && "g:Double"@[2] == 'D' && "g:Double"@[5] == 'b' && "g:Double"@[6] == 'l',
        "g:Float"@.len() == 7 && "g:Float"@[2] == 'F' && "g:Float"@[5] == 'a' && "g:Float"@[6] == 't',
        "g:UUID"@.len() == 6 && "g:UUID"@[2] == 'U' && "g:UUID"@[5] == 'D',
        "gx:ByteBuffer"@.len() == 13 && "gx:ByteBuffer"@[2] == ':' && "gx:ByteBuffer"@[5] == 't' && "gx:ByteBuffer"@[6] == 'e',
        "gx:Char"@.len() == 7 && "gx:Char"@[2] == ':' && "gx:Char"@[5] == 'a' && "gx:Char"@[6] == 'r',
        "g:tinker:graph"@.len() == 14 && "g:tinker:graph"@[2] == 't' && "g:tinker:graph"@[5] == 'k' && "g:tinker:graph"@[6] == 'e',
        "g:Bytecode"@.len() == 10 && "g:Bytecode"@[2] == 'B' && "g:Bytecode"@[5] == 'e' && "g:Bytecode"@[6] == 'c',
        "g:Metrics"@.len() == 9 && "g:Metrics"@[2] == 'M' && "g:Metrics"@[5] == 'r' && "g:Metrics"@[6] == 'i',
        "g:P"@.len() == 3 && "g:P"@[2] == 'P',
        "g:TextP"@.len() == 7 && "g:TextP"@[2] == 'T' && "g:TextP"@[5] == 't' && "g:TextP"@[6] == 'P',
        "g:TraversalMetrics"@.len() == 18 && "g:TraversalMetrics"@[2] == 'T' && "g:TraversalMetrics"@[5] == 'v' && "g:TraversalMetrics"@[6] == 'e',
        "gx:BigDecimal"@.len() == 13 && "gx:BigDecimal"@[2] == ':' && "gx:BigDecimal"@[5] == 'g' && "gx:BigDecimal"@[6] == 'D',
        "gx:BigInteger"@.len() == 13 && "gx:BigInteger"@[2] == ':' && "gx:BigInteger"@[5] == 'g' && "gx:BigInteger"@[6] == 'I',
        "g:Barrier"@.len() == 9 && "g:Barrier"@[2] == 'B' && "g:Barrier"@[5] == 'r' && "g:Barrier"@[6] == 'i',
        "g:Cardinality"@.len() == 13 && "g:Cardinality"@[2] == 'C' && "g:Cardinality"@[5] == 'd' && "g:Cardinality"@[6] == 'i',
        "g:Column"@.len() == 8 && "g:Column"@[2] == 'C' && "g:Column"@[5] == 'u' && "g:Column"@[6] == 'm',
        "g:Direction"@.len() == 11 && "g:Direction"@[2] == 'D' && "g:Direction"@[5] == 'e' && "g:Direction"@[6] == 'c',
        "g:Merge"@.len() == 7 && "g:Merge"@[2] == 'M' && "g:Merge"@[5] == 'g' && "g:Merge"@[6] == 'e',
        "g:Operator"@.len() == 10 && "g:Operator"@[2] == 'O' && "g:Operator"@[5] == 'r' && "g:Operator"@[6] == 'a',
        "g:Order"@.len() == 7 && "g:Order"@[2] == 'O' && "g:Order"@[5] == 'e' && "g:Order"@[6] == 'r',
        "g:Pick"@.len() == 6 && "g:Pick"@[2] == 'P' && "g:Pick"@[5] == 'k',
        "g:Pop"@.len() == 5 && "g:Pop"@[2] == 'P',
        "g:Scope"@.len() == 7 && "g:Scope"@[2] == 'S' && "g:Scope"@[5] == 'p' && "g:Scope"@[6] == 'e',
        "g:T"@.len() == 3 && "g:T"@[2] == 'T',
        "g:List"@.len() == 6 && "g:List"@[2] == 'L' && "g:List"@[5] == 't',
        "g:Map"@.len() == 5 && "g:Map"@[2] == 'M',
        "g:Binding"@.len() == 9 && "g:Binding"@[2] == 'B' && "g:Binding"@[5] == 'd' && "g:Binding"@[6] == 'i',
        "g:Property"@.len() == 10 && "g:Property"@[2] == 'P' && "g:Property"@[5] == 'p' && "g:Property"@[6] == 'e',
        "g:Traverser"@.len() == 11 && "g:Traverser"@[2] == 'T' && "g:Traverser"@[5] == 'v' && "g:Traverser"@[6] == 'e',
        "g:Lambda"@.len() == 8 && "g:Lambda"@[2] == 'L' && "g:Lambda"@[5] == 'b' && "g:Lambda"@[6] == 'd',
        "g:Edge"@.len() == 6 && "g:Edge"@[2] == 'E' && "g:Edge"@[5] == 'e',
        "g:Vertex"@.len() == 8 && "g:Vertex"@[2] == 'V' && "g:Vertex"@[5] == 't' && "g:Vertex"@[6] == 'e',
        "g:VertexProperty"@.len() == 16 && "g:VertexProperty"@[2] == 'V' && "g:VertexProperty"@[5] == 't' && "g:VertexProperty"@[6] == 'e',
        "g:Path"@.len() == 6 && "g:Path"@[2] == 'P' && "g:Path"@[5] == 'h',
        "g:Set"@.len() == 5 && "g:Set"@[2] == 'S',
{
    reveal_strlit("g:Int32");
    reveal_strlit("g:Int64");
    reveal_strlit("g:Date");
    reveal_strlit("g:Timestamp");
    reveal_strlit("gx:Int16");
    reveal_strlit("gx:Byte");
    reveal_strlit("g:Class");
    reveal_strlit("g:Double");
    reveal_strlit("g:Float");
    reveal_strlit("g:UUID");
    reveal_strlit("gx:ByteBuffer");
    reveal_strlit("gx:Char");
    reveal_strlit("g:tinker:graph");
    reveal_strlit("g:Bytecode");
    reveal_strlit("g:Metrics");
    reveal_strlit("g:P");
    reveal_strlit("g:TextP");
    reveal_strlit("g:TraversalMetrics");
    reveal_strlit("gx:BigDecimal");
    reveal_strlit("gx:BigInteger");
    reveal_strlit("g:Barrier");
    reveal_strlit("g:Cardinality");
    reveal_strlit("g:Column");
    reveal_strlit("g:Direction");
    reveal_strlit("g:Merge");
    reveal_strlit("g:Operator");
    reveal_strlit("g:Order");
    reveal_strlit("g:Pick");
    reveal_strlit("g:Pop");
    reveal_strlit("g:Scope");
    reveal_strlit("g:T");
    reveal_strlit("g:List");
    reveal_strlit("g:Map");
    reveal_strlit("g:Binding");
    reveal_strlit("g:Property");
    reveal_strlit("g:Traverser");
    reveal_strlit("g:Lambda");
    reveal_strlit("g:Edge");
    reveal_strlit("g:Vertex");
    reveal_strlit("g:VertexProperty");
    reveal_strlit("g:Path");
    reveal_strlit("g:Set");
}




/// Reading the GraphSON 3 form of an element of `Barrier` gives it back.
proof fn lemma_barrier_round_trip_v3(x: Barrier)
    ensures
        read_v3(graphson_v3(GValue::Barrier(x))) == Ok::<GValue, GraphSonError>(GValue::Barrier(x)),
{
    lemma_type_name_facts();
    lemma_barrier_names(x);
    lemma_read_typed_json("g:Barrier"@, JsonView::Str(x.spec_name()));
}

/// Reading the GraphSON 3 form of an element of `Cardinality` gives it back.
proof fn lemma_cardinality_round_trip_v3(x: Cardinality)
    ensures
        read_v3(graphson_v3(GValue::Cardinality(x))) == Ok::<GValue, GraphSonError>(GValue::Cardinality(x)),
{
    lemma_type_name_facts();
    lemma_cardinality_names(x);
    lemma_read_typed_json("g:Cardinality"@, JsonView::Str(x.spec_name()));
}

/// Reading the GraphSON 3 form of an element of `Column` gives it back.
proof fn lemma_column_round_trip_v3(x: Column)
    ensures
        read_v3(graphson_v3(GValue::Column(x))) == Ok::<GValue, GraphSonError>(GValue::Column(x)),
{
    lemma_type_name_facts();
    lemma_column_names(x);
    lemma_read_typed_json("g:Column"@, JsonView::Str(x.spec_name()));
}

/// Reading the GraphSON 3 form of an element of `Direction` gives it back.
proof fn lemma_direction_round_trip_v3(x: Direction)
    ensures
        read_v3(graphson_v3(GValue::Direction(x))) == Ok::<GValue, GraphSonError>(GValue::Direction(x)),
{
    lemma_type_name_facts();
    lemma_direction_names(x);
    lemma_read_typed_json("g:Direction"@, JsonView::Str(x.spec_name()));
}

/// Reading the GraphSON 3 form of an element of `Merge` gives it back.
proof fn lemma_merge_round_trip_v3(x: Merge)
    ensures
        read_v3(graphson_v3(GValue::Merge(x))) == Ok::<GValue, GraphSonError>(GValue::Merge(x)),
{
    lemma_type_name_facts();
    lemma_merge_names(x);
    lemma_read_typed_json("g:Merge"@, JsonView::Str(x.spec_name()));
}

/// Reading the GraphSON 3 form of an element of `Operator` gives it back.
proof fn lemma_operator_round_trip_v3(x: Operator)
    ensures
        read_v3(graphson_v3(GValue::Operator(x))) == Ok::<GValue, GraphSonError>(GValue::Operator(x)),
{
    lemma_type_name_facts();
    lemma_operator_names(x);
    lemma_read_typed_json("g:Operator"@, JsonView::Str(x.spec_name()));
}

/// Reading the GraphSON 3 form of an element of `Order` gives it back.
proof fn lemma_order_round_trip_v3(x: Order)
    ensures
        read_v3(graphson_v3(GValue::Order(x))) == Ok::<GValue, GraphSonError>(GValue::Order(x)),
{
    lemma_type_name_facts();
    lemma_order_names(x);
    lemma_read_typed_json("g:Order"@, JsonView::Str(x.spec_name()));
}

/// Reading the GraphSON 3 form of an element of `Pick` gives it back.
proof fn lemma_pick_round_trip_v3(x: Pick)
    ensures
        read_v3(graphson_v3(GValue::Pick(x))) == Ok::<GValue, GraphSonError>(GValue::Pick(x)),
{
    lemma_type_name_facts();
    lemma_pick_names(x);
    lemma_read_typed_json("g:Pick"@, JsonView::Str(x.spec_name()));
}

/// Reading the GraphSON 3 form of an element of `Pop` gives it back.
proof fn lemma_pop_round_trip_v3(x: Pop)
    ensures
        read_v3(graphson_v3(GValue::Pop(x))) == Ok::<GValue, GraphSonError>(GValue::Pop(x)),
{
    lemma_type_name_facts();
    lemma_pop_names(x);
    lemma_read_typed_json("g:Pop"@, JsonView::Str(x.spec_name()));
}

/// Reading the GraphSON 3 form of an element of `Scope` gives it back.
proof fn lemma_scope_round_trip_v3(x: Scope)
    ensures
        read_v3(graphson_v3(GValue::Scope(x))) == Ok::<GValue, GraphSonError>(GValue::Scope(x)),
{
    lemma_type_name_facts();
    lemma_scope_names(x);
    lemma_read_typed_json("g:Scope"@, JsonView::Str(x.spec_name()));
}

/// Reading the GraphSON 3 form of an element of `T` gives it back.
proof fn lemma_t_round_trip_v3(x: T)
    ensures
        read_v3(graphson_v3(GValue::T(x))) == Ok::<GValue, GraphSonError>(GValue::T(x)),
{
    lemma_type_name_facts();
    lemma_t_names(x);
    lemma_read_typed_json("g:T"@, JsonView::Str(x.spec_name()));
}

/// Reading the GraphSON 3 form of an element of an enumeration gives it back.
proof fn lemma_enum_round_trip_v3(g: GValue)
    requires
        is_enum_v3(g),
    ensures
        read_v3(graphson_v3(g)) == Ok::<GValue, GraphSonError>(g),
{
    match g {
        GValue::Barrier(x) => lemma_barrier_round_trip_v3(x),
        GValue::Cardinality(x) => lemma_cardinality_round_trip_v3(x),
        GValue::Column(x) => lemma_column_round_trip_v3(x),
        GValue::Direction(x) => lemma_direction_round_trip_v3(x),
        GValue::Merge(x) => lemma_merge_round_trip_v3(x),
        GValue::Operator(x) => lemma_operator_round_trip_v3(x),
        GValue::Order(x) => lemma_order_round_trip_v3(x),
        GValue::Pick(x) => lemma_pick_round_trip_v3(x),
        GValue::Pop(x) => lemma_pop_round_trip_v3(x),
        GValue::Scope(x) => lemma_scope_round_trip_v3(x),
        GValue::T(x) => lemma_t_round_trip_v3(x),
        _ => {},
    }
}

/// A typed object of type `g:Binding` reads as its members.
proof fn lemma_read_binding_json(ms: Seq<(Seq<char>, JsonView)>)
    ensures
        read_v3(typed_json("g:Binding"@, JsonView::Object(ms))) == read_members_v3("g:Binding"@, ms),
{
    lemma_type_name_facts();
    assert(!is_unheld_type("g:Binding"@));
    assert(!is_enum_type("g:Binding"@));
    lemma_read_typed_json("g:Binding"@, JsonView::Object(ms));
}

/// A typed object of type `g:Traverser` reads as its members.
proof fn lemma_read_traverser_json(ms: Seq<(Seq<char>, JsonView)>)
    ensures
        read_v3(typed_json("g:Traverser"@, JsonView::Object(ms))) == read_members_v3("g:Traverser"@, ms),
        "g:Traverser"@ != "g:Binding"@,
        "g:Traverser"@ != "g:Property"@,
{
    lemma_type_name_facts();
    assert(!is_unheld_type("g:Traverser"@));
    assert(!is_enum_type("g:Traverser"@));
    lemma_read_typed_json("g:Traverser"@, JsonView::Object(ms));
}

/// A typed object of type `g:Lambda` reads as its members.
proof fn lemma_read_lambda_json(ms: Seq<(Seq<char>, JsonView)>)
    ensures
        read_v3(typed_json("g:Lambda"@, JsonView::Object(ms))) == read_members_v3("g:Lambda"@, ms),
        "g:Lambda"@ != "g:Binding"@,
        "g:Lambda"@ != "g:Property"@,
        "g:Lambda"@ != "g:Traverser"@,
{
    lemma_type_name_facts();
    assert(!is_unheld_type("g:Lambda"@));
    assert(!is_enum_type("g:Lambda"@));
    lemma_read_typed_json("g:Lambda"@, JsonView::Object(ms));
}

/// Reading the GraphSON 3 form of a lambda gives it back.
proof fn lemma_lambda_round_trip_v3(g: GValue)
    requires
        g is Lambda,
    ensures
        read_v3(graphson_v3(g)) == Ok::<GValue, GraphSonError>(g),
{
    let l = g->Lambda_0;
    let ms = seq![
        ("script"@, JsonView::Str(l.script)),
        ("language"@, JsonView::Str(l.language)),
        ("arguments"@, JsonView::Int(l.arguments_length as i64)),
    ];
    reveal_strlit("script");
    reveal_strlit("language");
    reveal_strlit("arguments");
    assert("script"@.len() != "language"@.len());
    assert("script"@.len() != "arguments"@.len());
    assert("language"@.len() != "arguments"@.len());
    reveal_with_fuel(last_index, 3);
    assert(ms.subrange(0, 2) =~= seq![("script"@, JsonView::Str(l.script)), ("language"@, JsonView::Str(l.language))]);
    assert(ms.subrange(0, 2).subrange(0, 1) =~= seq![("script"@, JsonView::Str(l.script))]);
    assert(last_index(ms, "arguments"@) == 2);
    assert(last_index(ms, "language"@) == 1);
    assert(last_index(ms, "script"@) == 0);
    lemma_read_lambda_json(ms);
}

/// The members of a key and a value read as those of a binding.
proof fn lemma_key_value_members(k: Seq<char>, ks: Seq<char>, v: JsonView)
    requires
        k.len() != "value"@.len(),
    ensures
        last_index(seq![(k, JsonView::Str(ks)), ("value"@, v)], k) == 0,
        last_index(seq![(k, JsonView::Str(ks)), ("value"@, v)], "value"@) == 1,
{
    let ms = seq![(k, JsonView::Str(ks)), ("value"@, v)];
    reveal_with_fuel(last_index, 2);
    assert(ms.subrange(0, 1) =~= seq![(k, JsonView::Str(ks))]);
}

/// A typed object of type `g:Property` reads as its members.
proof fn lemma_read_property_json(ms: Seq<(Seq<char>, JsonView)>)
    ensures
        read_v3(typed_json("g:Property"@, JsonView::Object(ms))) == read_members_v3("g:Property"@, ms),
        "g:Property"@ != "g:Binding"@,
{
    lemma_type_name_facts();
    assert(!is_unheld_type("g:Property"@));
    assert(!is_enum_type("g:Property"@));
    lemma_read_typed_json("g:Property"@, JsonView::Object(ms));
}

/// Reading the GraphSON 3 form of a byte buffer gives it back.
proof fn lemma_byte_buffer_round_trip_v3(bs: Seq<u8>)
    ensures
        read_v3(graphson_v3(GValue::ByteBuffer(bs))) == Ok::<GValue, GraphSonError>(GValue::ByteBuffer(bs)),
{
    lemma_type_name_facts();
    assert(!is_unheld_type("gx:ByteBuffer"@));
    assert forall|i: int| 0 <= i < bs.len() implies #[trigger] latin1_bytes(latin1_text(bs))[i] == bs[i] by {
        let b = bs[i];
        let x: u32 = (b as char) as u32;
        assert(x == b);
        assert(x as u8 == b);
    }
    assert(latin1_bytes(latin1_text(bs)) =~= bs);
    lemma_read_typed_json("gx:ByteBuffer"@, JsonView::Str(latin1_text(bs)));
}

/// A typed object of type `g:Edge` reads as its members.
proof fn lemma_read_edge_json(ms: Seq<(Seq<char>, JsonView)>)
    ensures
        read_v3(typed_json("g:Edge"@, JsonView::Object(ms))) == read_members_v3("g:Edge"@, ms),
        "g:Edge"@ != "g:Binding"@,
        "g:Edge"@ != "g:Property"@,
        "g:Edge"@ != "g:Traverser"@,
        "g:Edge"@ != "g:Lambda"@,
{
    lemma_type_name_facts();
    assert(!is_unheld_type("g:Edge"@));
    assert(!is_enum_type("g:Edge"@));
    lemma_read_typed_json("g:Edge"@, JsonView::Object(ms));
}

/// A property without parent, of a plain value, reads back where a property is expected.
proof fn lemma_read_as_property(p: GValue)
    requires
        p is Property,
        is_plain_v3(p),
    ensures
        read_as_type_v3(graphson_v3(p), "g:Property"@) == Ok::<GValue, GraphSonError>(p),
    decreases p, 2int,
{
    let key = p->Property_key;
    let value = p->Property_value;
    let vms = seq![("key"@, JsonView::Str(key)), ("value"@, graphson_v3(*value))];
    lemma_plain_round_trip_v3(p);
    lemma_read_property_json(vms);
    reveal_strlit("@type");
    reveal_strlit("@value");
    let ms = seq![("@type"@, JsonView::Str("g:Property"@)), ("@value"@, JsonView::Object(vms))];
    assert("@value"@.len() != "@type"@.len());
    assert(ms.subrange(0, 1) =~= seq![("@type"@, JsonView::Str("g:Property"@))]);
    reveal_with_fuel(last_index, 2);
    assert(last_index(ms, "@type"@) == 0);
    assert(last_index(ms, "@value"@) == 1);
    assert(graphson_v3(p) == JsonView::Object(ms));
}

/// The forms of values are as many as the values.
pub proof fn lemma_graphson_list_len(s: Seq<GValue>)
    ensures
        graphson_list(s).len() == s.len(),
    decreases s.len(),
{
    if s.len() > 0 {
        lemma_graphson_list_len(s.subrange(0, s.len() - 1));
    }
}

/// The properties of an edge, without parents and of plain values, read back in order from
/// the members named by their keys.
proof fn lemma_edge_properties_round_trip(ps: Seq<GValue>)
    requires
        forall|i: int| 0 <= i < ps.len() ==> is_plain_v3(#[trigger] ps[i]) && ps[i] is Property,
    ensures
        properties_v3(zip_members(ps.map_values(|p: GValue| member_key(p)), graphson_list(ps)), 0)
            == Ok::<Seq<GValue>, GraphSonError>(ps),
    decreases ps, 0int,
{
    let pms = zip_members(ps.map_values(|p: GValue| member_key(p)), graphson_list(ps));
    lemma_graphson_list_len(ps);
    if ps.len() > 0 {
        let n = ps.len();
        let init = ps.subrange(0, n - 1);
        assert forall|i: int| 0 <= i < init.len() implies is_plain_v3(#[trigger] init[i]) && init[i] is Property by {
            assert(init[i] == ps[i]);
        }
        lemma_edge_properties_round_trip(init);
        lemma_graphson_list_len(init);
        let ipms = zip_members(init.map_values(|p: GValue| member_key(p)), graphson_list(init));
        assert(graphson_list(ps) == graphson_list(init).push(graphson_v3(ps[n - 1])));
        assert(pms.subrange(0, n - 1) =~= ipms);
        assert(pms[n - 1].1 == graphson_v3(ps[n - 1]));
        assert(ps[n - 1] is Property && is_plain_v3(ps[n - 1]));
        lemma_read_as_property(ps[n - 1]);
        assert(init.push(ps[n - 1]) =~= ps);
    } else {
        assert(pms.len() == 0);
        assert(ps =~= Seq::<GValue>::empty());
    }
}


/// The members of an edge are found by their names.
proof fn lemma_edge_member_indices(ms: Seq<(Seq<char>, JsonView)>, has_properties: bool)
    requires
        ms.len() == if has_properties { 7int } else { 6int },
        ms[0].0 == "id"@,
        ms[1].0 == "label"@,
        ms[2].0 == "inVLabel"@,
        ms[3].0 == "outVLabel"@,
        ms[4].0 == "inV"@,
        ms[5].0 == "outV"@,
        has_properties ==> ms[6].0 == "properties"@,
    ensures
        last_index(ms, "id"@) == 0,
        last_index(ms, "label"@) == 1,
        last_index(ms, "inVLabel"@) == 2,
        last_index(ms, "outVLabel"@) == 3,
        last_index(ms, "inV"@) == 4,
        last_index(ms, "outV"@) == 5,
        last_index(ms, "properties"@) == if has_properties { 6int } else { -1int },
{
    reveal_strlit("id");
    reveal_strlit("label");
    reveal_strlit("inVLabel");
    reveal_strlit("outVLabel");
    reveal_strlit("inV");
    reveal_strlit("outV");
    reveal_strlit("properties");
    assert("id"@.len() == 2 && "label"@.len() == 5 && "inVLabel"@.len() == 8 && "outVLabel"@.len() == 9);
    assert("inV"@.len() == 3 && "outV"@.len() == 4 && "properties"@.len() == 10);
    reveal_with_fuel(last_index, 8);
}

/// The elements of the enumerations.
pub open spec fn is_enum_v3(g: GValue) -> bool {
    ||| g is Barrier ||| g is Cardinality ||| g is Column ||| g is Direction ||| g is Merge
    ||| g is Operator ||| g is Order ||| g is Pick ||| g is Pop ||| g is Scope ||| g is T
}

/// The values whose GraphSON 3 form is a plain JSON value or a typed number, text or
/// character.
pub open spec fn is_scalar_v3(g: GValue) -> bool {
    ||| g is Int ||| g is Long ||| g is Str ||| g is Boolean ||| g is Null ||| g is Date
    ||| g is Timestamp ||| g is Class ||| g is Double ||| g is Float ||| g is Short ||| g is Byte
    ||| g is Char
}

/// Reading the GraphSON 3 form of a number, a text, a boolean, the null value, a date, a
/// timestamp, a class name or a character gives the value back.
pub proof fn lemma_scalar_round_trip_v3(g: GValue)
    requires
        is_scalar_v3(g),
    ensures
        read_v3(graphson_v3(g)) == Ok::<GValue, GraphSonError>(g),
{
    lemma_type_name_facts();
    match g {
        GValue::Int(x) => {
            lemma_read_typed_json("g:Int32"@, JsonView::Int(x as i64));
        },
        GValue::Long(x) => {
            assert(graphson_v3(g) == long_json(x));
            lemma_read_typed_json("g:Int64"@, JsonView::Int(x));
        },
        GValue::Date(x) => {
            lemma_read_typed_json("g:Date"@, JsonView::Int(x));
        },
        GValue::Timestamp(x) => {
            lemma_read_typed_json("g:Timestamp"@, JsonView::Int(x));
        },
        GValue::Class(s) => {
            lemma_read_typed_json("g:Class"@, JsonView::Str(s));
        },
        GValue::Double(b) => {
            lemma_read_typed_json("g:Double"@, JsonView::Double(b));
        },
        GValue::Float(b) => {
            lemma_read_typed_json("g:Float"@, JsonView::Float(b));
        },
        GValue::Short(x) => {
            lemma_read_typed_json("gx:Int16"@, JsonView::Int(x as i64));
        },
        GValue::Byte(x) => {
            lemma_read_typed_json("gx:Byte"@, JsonView::Int(x as i64));
        },
        GValue::Char(c) => {
            lemma_read_typed_json("gx:Char"@, JsonView::Str(seq![c]));
        },
        _ => {},
    }
}

/// The type name `g:List` is read, differs from those tried before it, and names neither an
/// enumeration nor a value that is not held.
proof fn lemma_list_type_name()
    ensures
        !is_unheld_type("g:List"@),
        !is_enum_type("g:List"@),
        "g:List"@ != "g:Int32"@,
        "g:List"@ != "g:Int64"@,
        "g:List"@ != "g:Date"@,
        "g:List"@ != "g:Timestamp"@,
        "g:List"@ != "gx:Int16"@,
        "g:List"@ != "gx:Byte"@,
        "g:List"@ != "g:Class"@,
        "g:List"@ != "g:Double"@,
        "g:List"@ != "g:Float"@,
        "g:List"@ != "g:UUID"@,
        "g:List"@ != "gx:ByteBuffer"@,
        "g:List"@ != "gx:Char"@,
{
    lemma_type_name_facts();
}

/// The type name `g:Map` is read, differs from those tried before it, and names neither an
/// enumeration nor a value that is not held.
proof fn lemma_map_type_name()
    ensures
        !is_unheld_type("g:Map"@),
        !is_enum_type("g:Map"@),
        "g:Map"@ != "g:Int32"@,
        "g:Map"@ != "g:Int64"@,
        "g:Map"@ != "g:Date"@,
        "g:Map"@ != "g:Timestamp"@,
        "g:Map"@ != "gx:Int16"@,
        "g:Map"@ != "gx:Byte"@,
        "g:Map"@ != "g:Class"@,
        "g:Map"@ != "g:Double"@,
        "g:Map"@ != "g:Float"@,
        "g:Map"@ != "g:UUID"@,
        "g:Map"@ != "gx:ByteBuffer"@,
        "g:Map"@ != "gx:Char"@,
        "g:Map"@ != "g:List"@,
{
    lemma_type_name_facts();
}

/// The map keys that are numbers or texts.
pub open spec fn is_plain_key(k: KeyModel) -> bool {
    k is Int || k is Str || k is Long
}

/// The values built from numbers, texts, booleans, the null value, dates, timestamps, class
/// names, characters, elements of enumerations, lambdas and byte buffers by lists, by maps
/// whose keys are numbers or texts, by bindings, by traversers, by properties whose parent is
/// not known, by edges whose parent vertex is not known and whose properties are such
/// properties, by vertices sent without properties, by vertex properties sent without their
/// vertex whose properties are such properties, and by paths.
pub open spec fn is_plain_v3(g: GValue) -> bool
    decreases g,
{
    match g {
        GValue::List(xs) => forall|i: int| 0 <= i < xs.len() ==> is_plain_v3(#[trigger] xs[i]),
        GValue::MapValue(es) => forall|i: int|
            0 <= i < es.len() ==> is_plain_key(#[trigger] es[i].0) && is_plain_v3(es[i].1),
        GValue::Binding(_, v) => is_plain_v3(*v),
        GValue::Traverser(_, v) => is_plain_v3(*v),
        GValue::Property { key: _, value, parent } => *parent == GValue::Null && is_plain_v3(*value),
        GValue::Vertex { id, label: _, properties } => properties is None && is_plain_v3(*id),
        GValue::Path { labels: _, objects } => forall|i: int| 0 <= i < objects.len() ==> is_plain_v3(#[trigger] objects[i]),
        GValue::VertexProperty { id, label: _, value, parent, properties } => {
            &&& parent is None
            &&& is_plain_v3(*id)
            &&& is_plain_v3(*value)
            &&& match properties {
                Some(ps) => forall|i: int| 0 <= i < ps.len() ==> is_plain_v3(#[trigger] ps[i]) && ps[i] is Property,
                None => true,
            }
        },
        GValue::Edge { id, label: _, in_id, in_label: _, out_id, out_label: _, parent, properties } => {
            &&& parent is None
            &&& is_plain_v3(*id)
            &&& is_plain_v3(*in_id)
            &&& is_plain_v3(*out_id)
            &&& match properties {
                Some(ps) => forall|i: int| 0 <= i < ps.len() ==> is_plain_v3(#[trigger] ps[i]) && ps[i] is Property,
                None => true,
            }
        },
        _ => is_scalar_v3(g) || is_enum_v3(g) || g is Lambda || g is ByteBuffer,
    }
}

/// Reading the GraphSON 3 form of an edge without parent vertex, whose ids are plain values
/// and whose properties are properties without parent of plain values, gives it back.
proof fn lemma_edge_round_trip_v3(g: GValue)
    requires
        g is Edge,
        is_plain_v3(g),
    ensures
        read_v3(graphson_v3(g)) == Ok::<GValue, GraphSonError>(g),
    decreases g, 0int,
{
    match g {
        GValue::Edge { id, label, in_id, in_label, out_id, out_label, parent, properties } => {
        let head = seq![
            ("id"@, graphson_v3(*id)),
            ("label"@, JsonView::Str(label)),
            ("inVLabel"@, JsonView::Str(in_label)),
            ("outVLabel"@, JsonView::Str(out_label)),
            ("inV"@, graphson_v3(*in_id)),
            ("outV"@, graphson_v3(*out_id)),
        ];
        let tail: Seq<(Seq<char>, JsonView)> = match properties {
            Some(ps) => seq![
                ("properties"@, JsonView::Object(zip_members(ps.map_values(|p: GValue| member_key(p)), graphson_list(ps)))),
            ],
            None => seq![],
        };
        let ms = head + tail;
        assert(graphson_v3(g) == typed_json("g:Edge"@, JsonView::Object(ms)));
        lemma_edge_member_indices(ms, properties is Some);
        lemma_plain_round_trip_v3(*id);
        lemma_plain_round_trip_v3(*in_id);
        lemma_plain_round_trip_v3(*out_id);
        match properties {
            Some(ps) => {
                assert forall|i: int| 0 <= i < ps.len() implies is_plain_v3(#[trigger] ps[i]) && ps[i] is Property by {
                    assert(is_plain_v3(ps[i]) && ps[i] is Property);
                }
                lemma_edge_properties_round_trip(ps);
            },
            None => {},
        }
        lemma_read_edge_json(ms);
        },
        _ => {},
    }
}

/// A typed object of type `g:Vertex` reads as its members.
pub proof fn lemma_read_vertex_json(ms: Seq<(Seq<char>, JsonView)>)
    ensures
        read_v3(typed_json("g:Vertex"@, JsonView::Object(ms))) == read_members_v3("g:Vertex"@, ms),
        "g:Vertex"@ != "g:Binding"@,
        "g:Vertex"@ != "g:Property"@,
        "g:Vertex"@ != "g:Traverser"@,
        "g:Vertex"@ != "g:Lambda"@,
        "g:Vertex"@ != "g:Edge"@,
{
    lemma_type_name_facts();
    assert(!is_unheld_type("g:Vertex"@));
    assert(!is_enum_type("g:Vertex"@));
    lemma_read_typed_json("g:Vertex"@, JsonView::Object(ms));
}

/// A typed object of type `g:VertexProperty` reads as its members.
pub proof fn lemma_read_vertex_property_json(ms: Seq<(Seq<char>, JsonView)>)
    ensures
        read_v3(typed_json("g:VertexProperty"@, JsonView::Object(ms))) == read_members_v3("g:VertexProperty"@, ms),
        "g:VertexProperty"@ != "g:Binding"@,
        "g:VertexProperty"@ != "g:Property"@,
        "g:VertexProperty"@ != "g:Traverser"@,
        "g:VertexProperty"@ != "g:Lambda"@,
        "g:VertexProperty"@ != "g:Edge"@,
        "g:VertexProperty"@ != "g:Vertex"@,
{
    lemma_type_name_facts();
    assert(!is_unheld_type("g:VertexProperty"@));
    assert(!is_enum_type("g:VertexProperty"@));
    lemma_read_typed_json("g:VertexProperty"@, JsonView::Object(ms));
}

/// Reading the GraphSON 3 form of a vertex sent without properties, whose id is a plain
/// value, gives it back.
proof fn lemma_vertex_round_trip_v3(g: GValue)
    requires
        g is Vertex,
        is_plain_v3(g),
    ensures
        read_v3(graphson_v3(g)) == Ok::<GValue, GraphSonError>(g),
    decreases g, 0int,
{
    match g {
        GValue::Vertex { id, label, properties } => {
            let ms = seq![("id"@, graphson_v3(*id)), ("label"@, JsonView::Str(label))];
            assert(ms =~= seq![("id"@, graphson_v3(*id)), ("label"@, JsonView::Str(label))] + Seq::<(Seq<char>, JsonView)>::empty());
            assert(graphson_v3(g) == typed_json("g:Vertex"@, JsonView::Object(ms)));
            reveal_strlit("id");
            reveal_strlit("label");
            reveal_strlit("properties");
            assert("id"@.len() != "label"@.len());
            assert("properties"@.len() != "label"@.len());
            assert("properties"@.len() != "id"@.len());
            reveal_with_fuel(last_index, 3);
            assert(ms.subrange(0, 1) =~= seq![("id"@, graphson_v3(*id))]);
            assert(last_index(ms, "id"@) == 0);
            assert(last_index(ms, "label"@) == 1);
            assert(last_index(ms, "properties"@) == -1);
            lemma_plain_round_trip_v3(*id);
            lemma_read_vertex_json(ms);
        },
        _ => {},
    }
}

/// The forms of the values of properties are as many as the properties.
proof fn lemma_property_values_len(s: Seq<GValue>)
    ensures
        graphson_property_values(s).len() == s.len(),
    decreases s.len(),
{
    if s.len() > 0 {
        lemma_property_values_len(s.subrange(0, s.len() - 1));
    }
}

/// The properties of a vertex property, without parents and of plain values, read back in
/// order from the members that name their keys and hold their values.
proof fn lemma_meta_properties_round_trip(ps: Seq<GValue>)
    requires
        forall|i: int| 0 <= i < ps.len() ==> is_plain_v3(#[trigger] ps[i]) && ps[i] is Property,
    ensures
        properties_v3(zip_members(ps.map_values(|p: GValue| member_key(p)), graphson_property_values(ps)), 2)
            == Ok::<Seq<GValue>, GraphSonError>(ps),
    decreases ps, 0int,
{
    let pms = zip_members(ps.map_values(|p: GValue| member_key(p)), graphson_property_values(ps));
    lemma_property_values_len(ps);
    if ps.len() > 0 {
        let n = ps.len();
        let init = ps.subrange(0, n - 1);
        assert forall|i: int| 0 <= i < init.len() implies is_plain_v3(#[trigger] init[i]) && init[i] is Property by {
            assert(init[i] == ps[i]);
        }
        lemma_meta_properties_round_trip(init);
        lemma_property_values_len(init);
        let ipms = zip_members(init.map_values(|p: GValue| member_key(p)), graphson_property_values(init));
        assert(pms.subrange(0, n - 1) =~= ipms);
        let last = ps[n - 1];
        assert(is_plain_v3(last) && last is Property);
        match last {
            GValue::Property { key, value, parent } => {
                assert(pms[n - 1] == (key, graphson_v3(*value)));
                lemma_plain_round_trip_v3(*value);
                assert(GValue::Property { key, value: Box::new(*value), parent: Box::new(GValue::Null) } == last);
            },
            _ => {},
        }
        assert(init.push(last) =~= ps);
    } else {
        assert(pms.len() == 0);
        assert(ps =~= Seq::<GValue>::empty());
    }
}

/// The members of the form of a vertex property: its id, value and label, then its
/// properties where it has them.
pub open spec fn vertex_property_members(g: GValue) -> Seq<(Seq<char>, JsonView)> {
    match g {
        GValue::VertexProperty { id, label, value, properties, .. } => seq![
            ("id"@, graphson_v3(*id)),
            ("value"@, graphson_v3(*value)),
            ("label"@, JsonView::Str(label)),
        ] + match properties {
            Some(ps) => seq![
                ("properties"@, JsonView::Object(zip_members(ps.map_values(|p: GValue| member_key(p)), graphson_property_values(ps)))),
            ],
            None => seq![],
        },
        _ => seq![],
    }
}

/// Reading the GraphSON 3 form of a vertex property sent without its vertex, whose id and
/// value are plain values and whose properties, where it has them, are properties without
/// parent of plain values, gives it back.
pub proof fn lemma_vertex_property_round_trip_v3(g: GValue)
    requires
        g is VertexProperty,
        is_plain_v3(g),
    ensures
        read_v3(graphson_v3(g)) == Ok::<GValue, GraphSonError>(g),
        graphson_v3(g) == typed_json("g:VertexProperty"@, JsonView::Object(vertex_property_members(g))),
    decreases g, 0int,
{
    match g {
        GValue::VertexProperty { id, label, value, parent, properties } => {
            let ms = vertex_property_members(g);
            assert(graphson_v3(g) == typed_json("g:VertexProperty"@, JsonView::Object(ms)));
            reveal_strlit("id");
            reveal_strlit("label");
            reveal_strlit("value");
            reveal_strlit("properties");
            assert("id"@.len() != "label"@.len());
            assert("id"@.len() != "value"@.len());
            assert("value"@[0] != "label"@[0]);
            assert("properties"@.len() != "label"@.len());
            assert("properties"@.len() != "value"@.len());
            assert("properties"@.len() != "id"@.len());
            reveal_with_fuel(last_index, 5);
            assert(ms[0] == ("id"@, graphson_v3(*id)));
            assert(ms[1] == ("value"@, graphson_v3(*value)));
            assert(ms[2] == ("label"@, JsonView::Str(label)));
            assert(ms.subrange(0, 2) =~= seq![("id"@, graphson_v3(*id)), ("value"@, graphson_v3(*value))]);
            assert(ms.subrange(0, 2).subrange(0, 1) =~= seq![("id"@, graphson_v3(*id))]);
            match properties {
                Some(ps) => {
                    assert(ms.len() == 4);
                    assert(ms.subrange(0, 3) =~= seq![
                        ("id"@, graphson_v3(*id)),
                        ("value"@, graphson_v3(*value)),
                        ("label"@, JsonView::Str(label)),
                    ]);
                    assert(last_index(ms, "properties"@) == 3);
                    assert forall|i: int| 0 <= i < ps.len() implies is_plain_v3(#[trigger] ps[i]) && ps[i] is Property by {
                        assert(is_plain_v3(ps[i]) && ps[i] is Property);
                    }
                    lemma_meta_properties_round_trip(ps);
                },
                None => {
                    assert(ms.len() == 3);
                    assert(last_index(ms, "properties"@) == -1);
                },
            }
            assert(last_index(ms, "id"@) == 0);
            assert(last_index(ms, "value"@) == 1);
            assert(last_index(ms, "label"@) == 2);
            lemma_plain_round_trip_v3(*id);
            lemma_plain_round_trip_v3(*value);
            lemma_read_vertex_property_json(ms);
        },
        _ => {},
    }
}

/// The two members of a typed value are found by their names.
pub proof fn lemma_typed_members(t: Seq<char>, v: JsonView)
    ensures
        last_index(seq![("@type"@, JsonView::Str(t)), ("@value"@, v)], "@type"@) == 0,
        last_index(seq![("@type"@, JsonView::Str(t)), ("@value"@, v)], "@value"@) == 1,
{
    reveal_strlit("@type");
    reveal_strlit("@value");
    let ms = seq![("@type"@, JsonView::Str(t)), ("@value"@, v)];
    assert("@value"@.len() != "@type"@.len());
    assert(ms.subrange(0, 1) =~= seq![("@type"@, JsonView::Str(t))]);
    reveal_with_fuel(last_index, 2);
}

/// The texts of an array of texts are those texts.
proof fn lemma_texts_of(ts: Seq<Seq<char>>)
    ensures
        texts_of(ts.map_values(|s: Seq<char>| JsonView::Str(s))) == Some(ts),
    decreases ts.len(),
{
    if ts.len() > 0 {
        let init = ts.subrange(0, ts.len() - 1);
        lemma_texts_of(init);
        let xs = ts.map_values(|s: Seq<char>| JsonView::Str(s));
        assert(xs.subrange(0, xs.len() - 1) =~= init.map_values(|s: Seq<char>| JsonView::Str(s)));
        assert(init.push(ts[ts.len() - 1]) =~= ts);
    } else {
        assert(ts =~= Seq::<Seq<char>>::empty());
    }
}

/// The form of one set of labels.
pub open spec fn label_set_json(ls: Seq<Seq<char>>) -> JsonView {
    typed_json("g:Set"@, JsonView::Array(ls.map_values(|s: Seq<char>| JsonView::Str(s))))
}

/// The label sets of a list of sets of texts are those sets.
proof fn lemma_label_sets_of(labels: Seq<Seq<Seq<char>>>)
    ensures
        label_sets_of(labels.map_values(|ls: Seq<Seq<char>>| label_set_json(ls))) == Some(labels),
    decreases labels.len(),
{
    if labels.len() > 0 {
        let n = labels.len();
        let init = labels.subrange(0, n - 1);
        lemma_label_sets_of(init);
        let xs = labels.map_values(|ls: Seq<Seq<char>>| label_set_json(ls));
        assert(xs.subrange(0, n - 1) =~= init.map_values(|ls: Seq<Seq<char>>| label_set_json(ls)));
        let last = labels[n - 1];
        lemma_typed_members("g:Set"@, JsonView::Array(last.map_values(|s: Seq<char>| JsonView::Str(s))));
        assert(typed_array(xs[n - 1], "g:Set"@) == Some(last.map_values(|s: Seq<char>| JsonView::Str(s))));
        lemma_texts_of(last);
        assert(init.push(last) =~= labels);
    } else {
        assert(labels =~= Seq::<Seq<Seq<char>>>::empty());
    }
}

/// A typed object of type `g:Path` reads as its members.
proof fn lemma_read_path_json(ms: Seq<(Seq<char>, JsonView)>)
    ensures
        read_v3(typed_json("g:Path"@, JsonView::Object(ms))) == read_members_v3("g:Path"@, ms),
        "g:Path"@ != "g:Binding"@,
        "g:Path"@ != "g:Property"@,
        "g:Path"@ != "g:Traverser"@,
        "g:Path"@ != "g:Lambda"@,
        "g:Path"@ != "g:Edge"@,
        "g:Path"@ != "g:Vertex"@,
        "g:Path"@ != "g:VertexProperty"@,
{
    lemma_type_name_facts();
    assert(!is_unheld_type("g:Path"@));
    assert(!is_enum_type("g:Path"@));
    lemma_read_typed_json("g:Path"@, JsonView::Object(ms));
}

/// Reading the GraphSON 3 form of a path whose objects are plain values gives it back.
proof fn lemma_path_round_trip_v3(g: GValue)
    requires
        g is Path,
        is_plain_v3(g),
    ensures
        read_v3(graphson_v3(g)) == Ok::<GValue, GraphSonError>(g),
    decreases g, 0int,
{
    match g {
        GValue::Path { labels, objects } => {
            let lj = path_labels_json(labels);
            let oj = typed_json("g:List"@, JsonView::Array(graphson_list(objects)));
            let ms = seq![("labels"@, lj), ("objects"@, oj)];
            assert(graphson_v3(g) == typed_json("g:Path"@, JsonView::Object(ms)));
            reveal_strlit("labels");
            reveal_strlit("objects");
            assert("labels"@.len() != "objects"@.len());
            reveal_with_fuel(last_index, 2);
            assert(ms.subrange(0, 1) =~= seq![("labels"@, lj)]);
            assert(last_index(ms, "labels"@) == 0);
            assert(last_index(ms, "objects"@) == 1);
            // The labels.
            let sets = labels.map_values(|ls: Seq<Seq<char>>| label_set_json(ls));
            assert(lj == typed_json("g:List"@, JsonView::Array(sets))) by {
                assert(sets =~= labels.map_values(
                    |ls: Seq<Seq<char>>|
                        typed_json("g:Set"@, JsonView::Array(ls.map_values(|s: Seq<char>| JsonView::Str(s)))),
                ));
            }
            lemma_typed_members("g:List"@, JsonView::Array(sets));
            lemma_label_sets_of(labels);
            assert(path_labels_value(lj) == Some(labels));
            // The objects.
            lemma_typed_members("g:List"@, JsonView::Array(graphson_list(objects)));
            assert forall|i: int| 0 <= i < objects.len() implies is_plain_v3(#[trigger] objects[i]) by {}
            lemma_plain_list_round_trip_v3(objects);
            assert(read_list_member_v3(seq![("@type"@, JsonView::Str("g:List"@)), ("@value"@, JsonView::Array(graphson_list(objects)))])
                == Ok::<Seq<GValue>, GraphSonError>(objects));
            lemma_read_path_json(ms);
        },
        _ => {},
    }
}

/// Reading the GraphSON 3 form of a plain value (see `is_plain_v3`) gives the value back:
/// numbers, texts, booleans, the null value, dates, timestamps, class names, characters,
/// elements of enumerations, lambdas and byte buffers, and lists, maps keyed by numbers or
/// texts, bindings, traversers, properties without parent, edges without parent vertex,
/// vertices without properties, vertex properties without vertex, and paths of such values,
/// nested to any depth.
pub proof fn lemma_plain_round_trip_v3(g: GValue)
    requires
        is_plain_v3(g),
    ensures
        read_v3(graphson_v3(g)) == Ok::<GValue, GraphSonError>(g),
    decreases g, 1int,
{
    match g {
        GValue::List(xs) => {
            lemma_list_type_name();
            lemma_plain_list_round_trip_v3(xs);
            lemma_read_typed_json("g:List"@, JsonView::Array(graphson_list(xs)));
        },
        GValue::MapValue(es) => {
            lemma_map_type_name();
            lemma_plain_entries_round_trip_v3(es);
            lemma_read_typed_json("g:Map"@, JsonView::Array(graphson_entries(es)));
        },
        GValue::Binding(k, v) => {
            reveal_strlit("key");
            reveal_strlit("value");
            lemma_key_value_members("key"@, k, graphson_v3(*v));
            lemma_plain_round_trip_v3(*v);
            lemma_read_binding_json(seq![("key"@, JsonView::Str(k)), ("value"@, graphson_v3(*v))]);
        },
        GValue::Property { key, value, parent } => {
            reveal_strlit("key");
            reveal_strlit("value");
            lemma_key_value_members("key"@, key, graphson_v3(*value));
            lemma_plain_round_trip_v3(*value);
            lemma_read_property_json(seq![("key"@, JsonView::Str(key)), ("value"@, graphson_v3(*value))]);
        },
        GValue::Edge { .. } => lemma_edge_round_trip_v3(g),
        GValue::Vertex { .. } => lemma_vertex_round_trip_v3(g),
        GValue::Path { .. } => lemma_path_round_trip_v3(g),
        GValue::VertexProperty { .. } => lemma_vertex_property_round_trip_v3(g),
        GValue::Traverser(b, v) => {
            reveal_strlit("bulk");
            reveal_strlit("value");
            let ms = seq![("bulk"@, long_json(b)), ("value"@, graphson_v3(*v))];
            reveal_with_fuel(last_index, 2);
            assert(ms.subrange(0, 1) =~= seq![("bulk"@, long_json(b))]);
            assert("bulk"@.len() != "value"@.len());
            assert(last_index(ms, "bulk"@) == 0);
            assert(last_index(ms, "value"@) == 1);
            assert(long_json(b) == graphson_v3(GValue::Long(b)));
            lemma_scalar_round_trip_v3(GValue::Long(b));
            lemma_plain_round_trip_v3(*v);
            lemma_read_traverser_json(ms);
        },
        _ => if is_scalar_v3(g) {
            lemma_scalar_round_trip_v3(g)
        } else if is_enum_v3(g) {
            lemma_enum_round_trip_v3(g)
        } else if g is Lambda {
            lemma_lambda_round_trip_v3(g)
        } else {
            lemma_byte_buffer_round_trip_v3(g->ByteBuffer_0)
        },
    }
}

/// The elements of a list of plain values read back in order.
proof fn lemma_plain_list_round_trip_v3(xs: Seq<GValue>)
    requires
        forall|i: int| 0 <= i < xs.len() ==> is_plain_v3(#[trigger] xs[i]),
    ensures
        read_list_v3(graphson_list(xs)) == Ok::<Seq<GValue>, GraphSonError>(xs),
    decreases xs, 0int,
{
    if xs.len() > 0 {
        let init = xs.subrange(0, xs.len() - 1);
        assert forall|i: int| 0 <= i < init.len() implies is_plain_v3(#[trigger] init[i]) by {
            assert(init[i] == xs[i]);
        }
        lemma_plain_list_round_trip_v3(init);
        assert(is_plain_v3(xs[xs.len() - 1]));
        lemma_plain_round_trip_v3(xs[xs.len() - 1]);
        let js = graphson_list(xs);
        assert(js.subrange(0, js.len() - 1) =~= graphson_list(init));
        assert(init.push(xs[xs.len() - 1]) =~= xs);
    } else {
        assert(xs =~= Seq::<GValue>::empty());
    }
}

/// The form of a map's entries holds two values for each.
proof fn lemma_entries_len(es: Seq<(KeyModel, GValue)>)
    ensures
        graphson_entries(es).len() == 2 * es.len(),
    decreases es.len(),
{
    if es.len() > 0 {
        lemma_entries_len(es.subrange(0, es.len() - 1));
    }
}

/// A key that is a number or a text reads back as a value that stands for it.
proof fn lemma_plain_key_round_trip_v3(k: KeyModel)
    requires
        is_plain_key(k),
    ensures
        read_v3(key_json(k)) matches Ok(g) && gvalue_key(g) == Some(k),
{
    match k {
        KeyModel::Int(x) => {
            assert(key_json(k) == graphson_v3(GValue::Int(x)));
            lemma_scalar_round_trip_v3(GValue::Int(x));
        },
        KeyModel::Long(x) => {
            assert(key_json(k) == graphson_v3(GValue::Long(x)));
            lemma_scalar_round_trip_v3(GValue::Long(x));
        },
        _ => {},
    }
}

/// The entries of a map of plain values, keyed by numbers or texts, read back in order.
proof fn lemma_plain_entries_round_trip_v3(es: Seq<(KeyModel, GValue)>)
    requires
        forall|i: int| 0 <= i < es.len() ==> is_plain_key(#[trigger] es[i].0) && is_plain_v3(es[i].1),
    ensures
        read_entries_v3(graphson_entries(es)) == Ok::<Seq<(KeyModel, GValue)>, GraphSonError>(es),
    decreases es, 0int,
{
    if es.len() > 0 {
        let n = es.len();
        let init = es.subrange(0, n - 1);
        assert forall|i: int| 0 <= i < init.len() implies is_plain_key(#[trigger] init[i].0) && is_plain_v3(init[i].1) by {
            assert(init[i] == es[i]);
        }
        lemma_plain_entries_round_trip_v3(init);
        let e = es[n - 1];
        assert(is_plain_key(e.0) && is_plain_v3(e.1));
        lemma_plain_key_round_trip_v3(e.0);
        lemma_plain_round_trip_v3(e.1);
        lemma_entries_len(es);
        lemma_entries_len(init);
        let js = graphson_entries(es);
        assert(js =~= graphson_entries(init) + seq![key_json(e.0), graphson_v3(e.1)]);
        assert(js.subrange(0, js.len() - 2) =~= graphson_entries(init));
        assert(js[js.len() - 2] == key_json(e.0));
        assert(js[js.len() - 1] == graphson_v3(e.1));
        assert(js.len() % 2 == 0);
        assert(init.push(e) =~= es);
    } else {
        assert(es =~= Seq::<(KeyModel, GValue)>::empty());
    }
}

} // verus!
