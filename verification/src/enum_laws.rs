//! The names of the elements of the traversal enumerations are those of the Gremlin
//! language, and each name reads back as its element only.

use vstd::prelude::*;
use crate::enums::{
    lemma_barrier_names, lemma_cardinality_names, lemma_column_names, lemma_direction_names,
    lemma_merge_names, lemma_operator_names, lemma_order_names, lemma_pick_names, lemma_pop_names,
    lemma_scope_names, lemma_t_names, Barrier, Cardinality, Column, Direction, Merge, Operator, Order,
    Pick, Pop, Scope, T,
};

use crate::codec::PartialEncode;
use crate::value::{value_bytes, GValue};

verus! {

/// The name of each element of `Barrier` is its Gremlin name, and a text names an element
/// exactly where it is that element's name.
pub proof fn lemma_barrier_gremlin_names(x: Barrier, s: Seq<char>)
    ensures
        x.spec_name() == match x {
            Barrier::NormSack => "normSack"@,
        },
        Barrier::spec_from_name(s) == Some(x) <==> s == x.spec_name(),
{
    reveal_strlit("normSack");
    lemma_barrier_names(x);
}

/// The name of each element of `Cardinality` is its Gremlin name, and a text names an element
/// exactly where it is that element's name.
pub proof fn lemma_cardinality_gremlin_names(x: Cardinality, s: Seq<char>)
    ensures
        x.spec_name() == match x {
            Cardinality::List => "list"@,
            Cardinality::UniqueSet => "set"@,
            Cardinality::Single => "single"@,
        },
        Cardinality::spec_from_name(s) == Some(x) <==> s == x.spec_name(),
{
    reveal_strlit("list");
    reveal_strlit("set");
    reveal_strlit("single");
    lemma_cardinality_names(x);
}

/// The name of each element of `Column` is its Gremlin name, and a text names an element
/// exactly where it is that element's name.
pub proof fn lemma_column_gremlin_names(x: Column, s: Seq<char>)
    ensures
        x.spec_name() == match x {
            Column::Keys => "keys"@,
            Column::Values => "values"@,
        },
        Column::spec_from_name(s) == Some(x) <==> s == x.spec_name(),
{
    reveal_strlit("keys");
    reveal_strlit("values");
    lemma_column_names(x);
}

/// The name of each element of `Direction` is its Gremlin name, and a text names an element
/// exactly where it is that element's name.
pub proof fn lemma_direction_gremlin_names(x: Direction, s: Seq<char>)
    ensures
        x.spec_name() == match x {
            Direction::Both => "BOTH"@,
            Direction::In => "IN"@,
            Direction::Out => "OUT"@,
        },
        Direction::spec_from_name(s) == Some(x) <==> s == x.spec_name(),
{
    reveal_strlit("BOTH");
    reveal_strlit("IN");
    reveal_strlit("OUT");
    lemma_direction_names(x);
}

/// The name of each element of `Merge` is its Gremlin name, and a text names an element
/// exactly where it is that element's name.
pub proof fn lemma_merge_gremlin_names(x: Merge, s: Seq<char>)
    ensures
        x.spec_name() == match x {
            Merge::OnCreate => "onCreate"@,
            Merge::OnMatch => "onMatch"@,
        },
        Merge::spec_from_name(s) == Some(x) <==> s == x.spec_name(),
{
    reveal_strlit("onCreate");
    reveal_strlit("onMatch");
    lemma_merge_names(x);
}

/// The name of each element of `Operator` is its Gremlin name, and a text names an element
/// exactly where it is that element's name.
pub proof fn lemma_operator_gremlin_names(x: Operator, s: Seq<char>)
    ensures
        x.spec_name() == match x {
            Operator::AddAll => "addAll"@,
            Operator::And => "and"@,
            Operator::Assign => "assign"@,
            Operator::Div => "div"@,
            Operator::Max => "max"@,
            Operator::Min => "min"@,
            Operator::Minus => "minus"@,
            Operator::Mult => "mult"@,
            Operator::Or => "or"@,
            Operator::Sum => "sum"@,
            Operator::SumLong => "sumLong"@,
        },
        Operator::spec_from_name(s) == Some(x) <==> s == x.spec_name(),
{
    reveal_strlit("addAll");
    reveal_strlit("and");
    reveal_strlit("assign");
    reveal_strlit("div");
    reveal_strlit("max");
    reveal_strlit("min");
    reveal_strlit("minus");
    reveal_strlit("mult");
    reveal_strlit("or");
    reveal_strlit("sum");
    reveal_strlit("sumLong");
    lemma_operator_names(x);
}

/// The name of each element of `Order` is its Gremlin name, and a text names an element
/// exactly where it is that element's name.
pub proof fn lemma_order_gremlin_names(x: Order, s: Seq<char>)
    ensures
        x.spec_name() == match x {
            Order::Shuffle => "shuffle"@,
            Order::Asc => "asc"@,
            Order::Desc => "desc"@,
        },
        Order::spec_from_name(s) == Some(x) <==> s == x.spec_name(),
{
    reveal_strlit("shuffle");
    reveal_strlit("asc");
    reveal_strlit("desc");
    lemma_order_names(x);
}

/// The name of each element of `Pick` is its Gremlin name, and a text names an element
/// exactly where it is that element's name.
pub proof fn lemma_pick_gremlin_names(x: Pick, s: Seq<char>)
    ensures
        x.spec_name() == match x {
            Pick::Any => "any"@,
            Pick::NoPick => "none"@,
        },
        Pick::spec_from_name(s) == Some(x) <==> s == x.spec_name(),
{
    reveal_strlit("any");
    reveal_strlit("none");
    lemma_pick_names(x);
}

/// The name of each element of `Pop` is its Gremlin name, and a text names an element
/// exactly where it is that element's name.
pub proof fn lemma_pop_gremlin_names(x: Pop, s: Seq<char>)
    ensures
        x.spec_name() == match x {
            Pop::All => "all"@,
            Pop::First => "first"@,
            Pop::Last => "last"@,
            Pop::Mixed => "mixed"@,
        },
        Pop::spec_from_name(s) == Some(x) <==> s == x.spec_name(),
{
    reveal_strlit("all");
    reveal_strlit("first");
    reveal_strlit("last");
    reveal_strlit("mixed");
    lemma_pop_names(x);
}

/// The name of each element of `Scope` is its Gremlin name, and a text names an element
/// exactly where it is that element's name.
pub proof fn lemma_scope_gremlin_names(x: Scope, s: Seq<char>)
    ensures
        x.spec_name() == match x {
            Scope::Local => "local"@,
            Scope::Global => "global"@,
        },
        Scope::spec_from_name(s) == Some(x) <==> s == x.spec_name(),
{
    reveal_strlit("local");
    reveal_strlit("global");
    lemma_scope_names(x);
}

/// The name of each element of `T` is its Gremlin name, and a text names an element
/// exactly where it is that element's name.
pub proof fn lemma_t_gremlin_names(x: T, s: Seq<char>)
    ensures
        x.spec_name() == match x {
            T::Id => "id"@,
            T::Key => "key"@,
            T::Label => "label"@,
            T::Value => "value"@,
        },
        T::spec_from_name(s) == Some(x) <==> s == x.spec_name(),
{
    reveal_strlit("id");
    reveal_strlit("key");
    reveal_strlit("label");
    reveal_strlit("value");
    lemma_t_names(x);
}

/// An element of `Barrier` is written in GraphBinary as the text of its name.
pub proof fn lemma_barrier_written_as_name(x: Barrier)
    ensures
        x.spec_partial_bytes() == value_bytes(GValue::Str(x.spec_name())),
{
    reveal_with_fuel(value_bytes, 1);
}

/// An element of `Cardinality` is written in GraphBinary as the text of its name.
pub proof fn lemma_cardinality_written_as_name(x: Cardinality)
    ensures
        x.spec_partial_bytes() == value_bytes(GValue::Str(x.spec_name())),
{
    reveal_with_fuel(value_bytes, 1);
}

/// An element of `Column` is written in GraphBinary as the text of its name.
pub proof fn lemma_column_written_as_name(x: Column)
    ensures
        x.spec_partial_bytes() == value_bytes(GValue::Str(x.spec_name())),
{
    reveal_with_fuel(value_bytes, 1);
}

/// An element of `Direction` is written in GraphBinary as the text of its name.
pub proof fn lemma_direction_written_as_name(x: Direction)
    ensures
        x.spec_partial_bytes() == value_bytes(GValue::Str(x.spec_name())),
{
    reveal_with_fuel(value_bytes, 1);
}

/// An element of `Merge` is written in GraphBinary as the text of its name.
pub proof fn lemma_merge_written_as_name(x: Merge)
    ensures
        x.spec_partial_bytes() == value_bytes(GValue::Str(x.spec_name())),
{
    reveal_with_fuel(value_bytes, 1);
}

/// An element of `Operator` is written in GraphBinary as the text of its name.
pub proof fn lemma_operator_written_as_name(x: Operator)
    ensures
        x.spec_partial_bytes() == value_bytes(GValue::Str(x.spec_name())),
{
    reveal_with_fuel(value_bytes, 1);
}

/// An element of `Order` is written in GraphBinary as the text of its name.
pub proof fn lemma_order_written_as_name(x: Order)
    ensures
        x.spec_partial_bytes() == value_bytes(GValue::Str(x.spec_name())),
{
    reveal_with_fuel(value_bytes, 1);
}

/// An element of `Pick` is written in GraphBinary as the text of its name.
pub proof fn lemma_pick_written_as_name(x: Pick)
    ensures
        x.spec_partial_bytes() == value_bytes(GValue::Str(x.spec_name())),
{
    reveal_with_fuel(value_bytes, 1);
}

/// An element of `Pop` is written in GraphBinary as the text of its name.
pub proof fn lemma_pop_written_as_name(x: Pop)
    ensures
        x.spec_partial_bytes() == value_bytes(GValue::Str(x.spec_name())),
{
    reveal_with_fuel(value_bytes, 1);
}

/// An element of `Scope` is written in GraphBinary as the text of its name.
pub proof fn lemma_scope_written_as_name(x: Scope)
    ensures
        x.spec_partial_bytes() == value_bytes(GValue::Str(x.spec_name())),
{
    reveal_with_fuel(value_bytes, 1);
}

/// An element of `T` is written in GraphBinary as the text of its name.
pub proof fn lemma_t_written_as_name(x: T)
    ensures
        x.spec_partial_bytes() == value_bytes(GValue::Str(x.spec_name())),
{
    reveal_with_fuel(value_bytes, 1);
}

} // verus!
