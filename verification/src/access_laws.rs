//! What taking a value out of a `GremlinValue` gives: exactly what the variant of its type
//! holds, and nothing from any other variant.

use vstd::prelude::*;
use crate::access::TryFromValue;
use crate::element::{Edge, Path, Property, Vertex, VertexProperty};
use crate::enums::{Barrier, Cardinality, Column, Direction, Merge, Operator, Order, Pick, Pop, Scope, T};
use crate::structure::Lambda;
use crate::value::GremlinValue;

verus! {

/// A `String` is taken exactly out of a `GremlinValue::String` that holds it, and the value that
/// holds `x` is `GremlinValue::String(x)`.
pub proof fn lemma_access_string(v: GremlinValue, x: String)
    ensures
        <String as TryFromValue>::held(v) == Some(x) <==> v == GremlinValue::String(x),
        (<String as TryFromValue>::held(v) is None) <==> !(v is String),
        <String as TryFromValue>::wrapped(x) == GremlinValue::String(x),
{
}

/// A `u8` is taken exactly out of a `GremlinValue::Byte` that holds it, and the value that
/// holds `x` is `GremlinValue::Byte(x)`.
pub proof fn lemma_access_u8(v: GremlinValue, x: u8)
    ensures
        <u8 as TryFromValue>::held(v) == Some(x) <==> v == GremlinValue::Byte(x),
        (<u8 as TryFromValue>::held(v) is None) <==> !(v is Byte),
        <u8 as TryFromValue>::wrapped(x) == GremlinValue::Byte(x),
{
}

/// A `i16` is taken exactly out of a `GremlinValue::Short` that holds it, and the value that
/// holds `x` is `GremlinValue::Short(x)`.
pub proof fn lemma_access_i16(v: GremlinValue, x: i16)
    ensures
        <i16 as TryFromValue>::held(v) == Some(x) <==> v == GremlinValue::Short(x),
        (<i16 as TryFromValue>::held(v) is None) <==> !(v is Short),
        <i16 as TryFromValue>::wrapped(x) == GremlinValue::Short(x),
{
}

/// A `i32` is taken exactly out of a `GremlinValue::Int` that holds it, and the value that
/// holds `x` is `GremlinValue::Int(x)`.
pub proof fn lemma_access_i32(v: GremlinValue, x: i32)
    ensures
        <i32 as TryFromValue>::held(v) == Some(x) <==> v == GremlinValue::Int(x),
        (<i32 as TryFromValue>::held(v) is None) <==> !(v is Int),
        <i32 as TryFromValue>::wrapped(x) == GremlinValue::Int(x),
{
}

/// A `i64` is taken exactly out of a `GremlinValue::Long` that holds it, and the value that
/// holds `x` is `GremlinValue::Long(x)`.
pub proof fn lemma_access_i64(v: GremlinValue, x: i64)
    ensures
        <i64 as TryFromValue>::held(v) == Some(x) <==> v == GremlinValue::Long(x),
        (<i64 as TryFromValue>::held(v) is None) <==> !(v is Long),
        <i64 as TryFromValue>::wrapped(x) == GremlinValue::Long(x),
{
}

/// A `bool` is taken exactly out of a `GremlinValue::Boolean` that holds it, and the value that
/// holds `x` is `GremlinValue::Boolean(x)`.
pub proof fn lemma_access_bool(v: GremlinValue, x: bool)
    ensures
        <bool as TryFromValue>::held(v) == Some(x) <==> v == GremlinValue::Boolean(x),
        (<bool as TryFromValue>::held(v) is None) <==> !(v is Boolean),
        <bool as TryFromValue>::wrapped(x) == GremlinValue::Boolean(x),
{
}

/// A `u128` is taken exactly out of a `GremlinValue::Uuid` that holds it, and the value that
/// holds `x` is `GremlinValue::Uuid(x)`.
pub proof fn lemma_access_u128(v: GremlinValue, x: u128)
    ensures
        <u128 as TryFromValue>::held(v) == Some(x) <==> v == GremlinValue::Uuid(x),
        (<u128 as TryFromValue>::held(v) is None) <==> !(v is Uuid),
        <u128 as TryFromValue>::wrapped(x) == GremlinValue::Uuid(x),
{
}

/// A `char` is taken exactly out of a `GremlinValue::Char` that holds it, and the value that
/// holds `x` is `GremlinValue::Char(x)`.
pub proof fn lemma_access_char(v: GremlinValue, x: char)
    ensures
        <char as TryFromValue>::held(v) == Some(x) <==> v == GremlinValue::Char(x),
        (<char as TryFromValue>::held(v) is None) <==> !(v is Char),
        <char as TryFromValue>::wrapped(x) == GremlinValue::Char(x),
{
}

/// A `Edge` is taken exactly out of a `GremlinValue::Edge` that holds it, and the value that
/// holds `x` is `GremlinValue::Edge(x)`.
pub proof fn lemma_access_edge(v: GremlinValue, x: Edge)
    ensures
        <Edge as TryFromValue>::held(v) == Some(x) <==> v == GremlinValue::Edge(x),
        (<Edge as TryFromValue>::held(v) is None) <==> !(v is Edge),
        <Edge as TryFromValue>::wrapped(x) == GremlinValue::Edge(x),
{
}

/// A `Path` is taken exactly out of a `GremlinValue::Path` that holds it, and the value that
/// holds `x` is `GremlinValue::Path(x)`.
pub proof fn lemma_access_path(v: GremlinValue, x: Path)
    ensures
        <Path as TryFromValue>::held(v) == Some(x) <==> v == GremlinValue::Path(x),
        (<Path as TryFromValue>::held(v) is None) <==> !(v is Path),
        <Path as TryFromValue>::wrapped(x) == GremlinValue::Path(x),
{
}

/// A `Property` is taken exactly out of a `GremlinValue::Property` that holds it, and the value that
/// holds `x` is `GremlinValue::Property(x)`.
pub proof fn lemma_access_property(v: GremlinValue, x: Property)
    ensures
        <Property as TryFromValue>::held(v) == Some(x) <==> v == GremlinValue::Property(x),
        (<Property as TryFromValue>::held(v) is None) <==> !(v is Property),
        <Property as TryFromValue>::wrapped(x) == GremlinValue::Property(x),
{
}

/// A `Vertex` is taken exactly out of a `GremlinValue::Vertex` that holds it, and the value that
/// holds `x` is `GremlinValue::Vertex(x)`.
pub proof fn lemma_access_vertex(v: GremlinValue, x: Vertex)
    ensures
        <Vertex as TryFromValue>::held(v) == Some(x) <==> v == GremlinValue::Vertex(x),
        (<Vertex as TryFromValue>::held(v) is None) <==> !(v is Vertex),
        <Vertex as TryFromValue>::wrapped(x) == GremlinValue::Vertex(x),
{
}

/// A `VertexProperty` is taken exactly out of a `GremlinValue::VertexProperty` that holds it, and the value that
/// holds `x` is `GremlinValue::VertexProperty(x)`.
pub proof fn lemma_access_vertex_property(v: GremlinValue, x: VertexProperty)
    ensures
        <VertexProperty as TryFromValue>::held(v) == Some(x) <==> v == GremlinValue::VertexProperty(x),
        (<VertexProperty as TryFromValue>::held(v) is None) <==> !(v is VertexProperty),
        <VertexProperty as TryFromValue>::wrapped(x) == GremlinValue::VertexProperty(x),
{
}

/// A `Lambda` is taken exactly out of a `GremlinValue::Lambda` that holds it, and the value that
/// holds `x` is `GremlinValue::Lambda(x)`.
pub proof fn lemma_access_lambda(v: GremlinValue, x: Lambda)
    ensures
        <Lambda as TryFromValue>::held(v) == Some(x) <==> v == GremlinValue::Lambda(x),
        (<Lambda as TryFromValue>::held(v) is None) <==> !(v is Lambda),
        <Lambda as TryFromValue>::wrapped(x) == GremlinValue::Lambda(x),
{
}

/// A `Barrier` is taken exactly out of a `GremlinValue::Barrier` that holds it, and the value that
/// holds `x` is `GremlinValue::Barrier(x)`.
pub proof fn lemma_access_barrier(v: GremlinValue, x: Barrier)
    ensures
        <Barrier as TryFromValue>::held(v) == Some(x) <==> v == GremlinValue::Barrier(x),
        (<Barrier as TryFromValue>::held(v) is None) <==> !(v is Barrier),
        <Barrier as TryFromValue>::wrapped(x) == GremlinValue::Barrier(x),
{
}

/// A `Cardinality` is taken exactly out of a `GremlinValue::Cardinality` that holds it, and the value that
/// holds `x` is `GremlinValue::Cardinality(x)`.
pub proof fn lemma_access_cardinality(v: GremlinValue, x: Cardinality)
    ensures
        <Cardinality as TryFromValue>::held(v) == Some(x) <==> v == GremlinValue::Cardinality(x),
        (<Cardinality as TryFromValue>::held(v) is None) <==> !(v is Cardinality),
        <Cardinality as TryFromValue>::wrapped(x) == GremlinValue::Cardinality(x),
{
}

/// A `Column` is taken exactly out of a `GremlinValue::Column` that holds it, and the value that
/// holds `x` is `GremlinValue::Column(x)`.
pub proof fn lemma_access_column(v: GremlinValue, x: Column)
    ensures
        <Column as TryFromValue>::held(v) == Some(x) <==> v == GremlinValue::Column(x),
        (<Column as TryFromValue>::held(v) is None) <==> !(v is Column),
        <Column as TryFromValue>::wrapped(x) == GremlinValue::Column(x),
{
}

/// A `Direction` is taken exactly out of a `GremlinValue::Direction` that holds it, and the value that
/// holds `x` is `GremlinValue::Direction(x)`.
pub proof fn lemma_access_direction(v: GremlinValue, x: Direction)
    ensures
        <Direction as TryFromValue>::held(v) == Some(x) <==> v == GremlinValue::Direction(x),
        (<Direction as TryFromValue>::held(v) is None) <==> !(v is Direction),
        <Direction as TryFromValue>::wrapped(x) == GremlinValue::Direction(x),
{
}

/// A `Operator` is taken exactly out of a `GremlinValue::Operator` that holds it, and the value that
/// holds `x` is `GremlinValue::Operator(x)`.
pub proof fn lemma_access_operator(v: GremlinValue, x: Operator)
    ensures
        <Operator as TryFromValue>::held(v) == Some(x) <==> v == GremlinValue::Operator(x),
        (<Operator as TryFromValue>::held(v) is None) <==> !(v is Operator),
        <Operator as TryFromValue>::wrapped(x) == GremlinValue::Operator(x),
{
}

/// A `Order` is taken exactly out of a `GremlinValue::Order` that holds it, and the value that
/// holds `x` is `GremlinValue::Order(x)`.
pub proof fn lemma_access_order(v: GremlinValue, x: Order)
    ensures
        <Order as TryFromValue>::held(v) == Some(x) <==> v == GremlinValue::Order(x),
        (<Order as TryFromValue>::held(v) is None) <==> !(v is Order),
        <Order as TryFromValue>::wrapped(x) == GremlinValue::Order(x),
{
}

/// A `Pick` is taken exactly out of a `GremlinValue::Pick` that holds it, and the value that
/// holds `x` is `GremlinValue::Pick(x)`.
pub proof fn lemma_access_pick(v: GremlinValue, x: Pick)
    ensures
        <Pick as TryFromValue>::held(v) == Some(x) <==> v == GremlinValue::Pick(x),
        (<Pick as TryFromValue>::held(v) is None) <==> !(v is Pick),
        <Pick as TryFromValue>::wrapped(x) == GremlinValue::Pick(x),
{
}

/// A `Pop` is taken exactly out of a `GremlinValue::Pop` that holds it, and the value that
/// holds `x` is `GremlinValue::Pop(x)`.
pub proof fn lemma_access_pop(v: GremlinValue, x: Pop)
    ensures
        <Pop as TryFromValue>::held(v) == Some(x) <==> v == GremlinValue::Pop(x),
        (<Pop as TryFromValue>::held(v) is None) <==> !(v is Pop),
        <Pop as TryFromValue>::wrapped(x) == GremlinValue::Pop(x),
{
}

/// A `Scope` is taken exactly out of a `GremlinValue::Scope` that holds it, and the value that
/// holds `x` is `GremlinValue::Scope(x)`.
pub proof fn lemma_access_scope(v: GremlinValue, x: Scope)
    ensures
        <Scope as TryFromValue>::held(v) == Some(x) <==> v == GremlinValue::Scope(x),
        (<Scope as TryFromValue>::held(v) is None) <==> !(v is Scope),
        <Scope as TryFromValue>::wrapped(x) == GremlinValue::Scope(x),
{
}

/// A `T` is taken exactly out of a `GremlinValue::T` that holds it, and the value that
/// holds `x` is `GremlinValue::T(x)`.
pub proof fn lemma_access_t(v: GremlinValue, x: T)
    ensures
        <T as TryFromValue>::held(v) == Some(x) <==> v == GremlinValue::T(x),
        (<T as TryFromValue>::held(v) is None) <==> !(v is T),
        <T as TryFromValue>::wrapped(x) == GremlinValue::T(x),
{
}

/// A `Merge` is taken exactly out of a `GremlinValue::Merge` that holds it, and the value that
/// holds `x` is `GremlinValue::Merge(x)`.
pub proof fn lemma_access_merge(v: GremlinValue, x: Merge)
    ensures
        <Merge as TryFromValue>::held(v) == Some(x) <==> v == GremlinValue::Merge(x),
        (<Merge as TryFromValue>::held(v) is None) <==> !(v is Merge),
        <Merge as TryFromValue>::wrapped(x) == GremlinValue::Merge(x),
{
}

} // verus!
