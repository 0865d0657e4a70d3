//! Taking the value out of the variant of a `GremlinValue` that holds it.

use vstd::prelude::*;
use crate::element::{Edge, Path, Property, Vertex, VertexProperty};
use crate::enums::{Barrier, Cardinality, Column, Direction, Merge, Operator, Order, Pick, Pop, Scope, T};
use crate::structure::Lambda;
use crate::value::GremlinValue;

verus! {

/// Types that one variant of `GremlinValue` holds, and that can be taken out of it.
pub trait TryFromValue: Sized {
    /// What `v` holds, where `v` is of this type's variant.
    spec fn held(v: GremlinValue) -> Option<Self>;

    /// The value of this type's variant that holds `x`.
    spec fn wrapped(x: Self) -> GremlinValue;

    /// Takes what `v` holds, where `v` is of this type's variant.
    fn try_from_value(v: GremlinValue) -> (r: Option<Self>)
        ensures
            r == Self::held(v),
    ;

    /// Borrows what `v` holds, where `v` is of this type's variant.
    fn try_borrow_from(v: &GremlinValue) -> (r: Option<&Self>)
        ensures
            r is None <==> Self::held(*v) is None,
            r matches Some(x) ==> Self::held(*v) == Some(*x),
    ;

    /// Borrows what `v` holds, to be changed in place, where `v` is of this type's variant.
    fn try_mut_borrow_from(v: &mut GremlinValue) -> (r: Option<&mut Self>)
        ensures
            r is None <==> Self::held(*old(v)) is None,
            r is None ==> *final(v) == *old(v),
            r matches Some(x) ==> Self::held(*old(v)) == Some(*x) && *final(v) == Self::wrapped(*final(x)),
    ;
}

impl GremlinValue {
    /// What the value holds, where it is of the variant of `X`; `None` otherwise.
    pub fn get<X: TryFromValue>(self) -> (r: Option<X>)
        ensures
            r == X::held(self),
    {
        X::try_from_value(self)
    }

    /// A reference to what the value holds, where it is of the variant of `X`; `None`
    /// otherwise.
    pub fn get_ref<X: TryFromValue>(&self) -> (r: Option<&X>)
        ensures
            r is None <==> X::held(*self) is None,
            r matches Some(x) ==> X::held(*self) == Some(*x),
    {
        X::try_borrow_from(self)
    }

    /// A mutable reference to what the value holds, where it is of the variant of `X`;
    /// `None` otherwise. A change through it is a change of the value.
    pub fn get_ref_mut<X: TryFromValue>(&mut self) -> (r: Option<&mut X>)
        ensures
            r is None <==> X::held(*old(self)) is None,
            r is None ==> *final(self) == *old(self),
            r matches Some(x) ==> X::held(*old(self)) == Some(*x) && *final(self) == X::wrapped(*final(x)),
    {
        X::try_mut_borrow_from(self)
    }
}

impl TryFromValue for String {
    open spec fn held(v: GremlinValue) -> Option<String> {
        match v {
            GremlinValue::String(x) => Some(x),
            _ => None,
        }
    }

    open spec fn wrapped(x: String) -> GremlinValue {
        GremlinValue::String(x)
    }

    fn try_from_value(v: GremlinValue) -> (r: Option<String>) {
        match v {
            GremlinValue::String(x) => Some(x),
            _ => None,
        }
    }

    fn try_borrow_from(v: &GremlinValue) -> (r: Option<&String>) {
        match v {
            GremlinValue::String(x) => Some(x),
            _ => None,
        }
    }

    fn try_mut_borrow_from(v: &mut GremlinValue) -> (r: Option<&mut String>) {
        match v {
            GremlinValue::String(x) => Some(x),
            _ => None,
        }
    }
}

impl TryFromValue for u8 {
    open spec fn held(v: GremlinValue) -> Option<u8> {
        match v {
            GremlinValue::Byte(x) => Some(x),
            _ => None,
        }
    }

    open spec fn wrapped(x: u8) -> GremlinValue {
        GremlinValue::Byte(x)
    }

    fn try_from_value(v: GremlinValue) -> (r: Option<u8>) {
        match v {
            GremlinValue::Byte(x) => Some(x),
            _ => None,
        }
    }

    fn try_borrow_from(v: &GremlinValue) -> (r: Option<&u8>) {
        match v {
            GremlinValue::Byte(x) => Some(x),
            _ => None,
        }
    }

    fn try_mut_borrow_from(v: &mut GremlinValue) -> (r: Option<&mut u8>) {
        match v {
            GremlinValue::Byte(x) => Some(x),
            _ => None,
        }
    }
}

impl TryFromValue for i16 {
    open spec fn held(v: GremlinValue) -> Option<i16> {
        match v {
            GremlinValue::Short(x) => Some(x),
            _ => None,
        }
    }

    open spec fn wrapped(x: i16) -> GremlinValue {
        GremlinValue::Short(x)
    }

    fn try_from_value(v: GremlinValue) -> (r: Option<i16>) {
        match v {
            GremlinValue::Short(x) => Some(x),
            _ => None,
        }
    }

    fn try_borrow_from(v: &GremlinValue) -> (r: Option<&i16>) {
        match v {
            GremlinValue::Short(x) => Some(x),
            _ => None,
        }
    }

    fn try_mut_borrow_from(v: &mut GremlinValue) -> (r: Option<&mut i16>) {
        match v {
            GremlinValue::Short(x) => Some(x),
            _ => None,
        }
    }
}

impl TryFromValue for i32 {
    open spec fn held(v: GremlinValue) -> Option<i32> {
        match v {
            GremlinValue::Int(x) => Some(x),
            _ => None,
        }
    }

    open spec fn wrapped(x: i32) -> GremlinValue {
        GremlinValue::Int(x)
    }

    fn try_from_value(v: GremlinValue) -> (r: Option<i32>) {
        match v {
            GremlinValue::Int(x) => Some(x),
            _ => None,
        }
    }

    fn try_borrow_from(v: &GremlinValue) -> (r: Option<&i32>) {
        match v {
            GremlinValue::Int(x) => Some(x),
            _ => None,
        }
    }

    fn try_mut_borrow_from(v: &mut GremlinValue) -> (r: Option<&mut i32>) {
        match v {
            GremlinValue::Int(x) => Some(x),
            _ => None,
        }
    }
}

impl TryFromValue for i64 {
    open spec fn held(v: GremlinValue) -> Option<i64> {
        match v {
            GremlinValue::Long(x) => Some(x),
            _ => None,
        }
    }

    open spec fn wrapped(x: i64) -> GremlinValue {
        GremlinValue::Long(x)
    }

    fn try_from_value(v: GremlinValue) -> (r: Option<i64>) {
        match v {
            GremlinValue::Long(x) => Some(x),
            _ => None,
        }
    }

    fn try_borrow_from(v: &GremlinValue) -> (r: Option<&i64>) {
        match v {
            GremlinValue::Long(x) => Some(x),
            _ => None,
        }
    }

    fn try_mut_borrow_from(v: &mut GremlinValue) -> (r: Option<&mut i64>) {
        match v {
            GremlinValue::Long(x) => Some(x),
            _ => None,
        }
    }
}

impl TryFromValue for bool {
    open spec fn held(v: GremlinValue) -> Option<bool> {
        match v {
            GremlinValue::Boolean(x) => Some(x),
            _ => None,
        }
    }

    open spec fn wrapped(x: bool) -> GremlinValue {
        GremlinValue::Boolean(x)
    }

    fn try_from_value(v: GremlinValue) -> (r: Option<bool>) {
        match v {
            GremlinValue::Boolean(x) => Some(x),
            _ => None,
        }
    }

    fn try_borrow_from(v: &GremlinValue) -> (r: Option<&bool>) {
        match v {
            GremlinValue::Boolean(x) => Some(x),
            _ => None,
        }
    }

    fn try_mut_borrow_from(v: &mut GremlinValue) -> (r: Option<&mut bool>) {
        match v {
            GremlinValue::Boolean(x) => Some(x),
            _ => None,
        }
    }
}

impl TryFromValue for u128 {
    open spec fn held(v: GremlinValue) -> Option<u128> {
        match v {
            GremlinValue::Uuid(x) => Some(x),
            _ => None,
        }
    }

    open spec fn wrapped(x: u128) -> GremlinValue {
        GremlinValue::Uuid(x)
    }

    fn try_from_value(v: GremlinValue) -> (r: Option<u128>) {
        match v {
            GremlinValue::Uuid(x) => Some(x),
            _ => None,
        }
    }

    fn try_borrow_from(v: &GremlinValue) -> (r: Option<&u128>) {
        match v {
            GremlinValue::Uuid(x) => Some(x),
            _ => None,
        }
    }

    fn try_mut_borrow_from(v: &mut GremlinValue) -> (r: Option<&mut u128>) {
        match v {
            GremlinValue::Uuid(x) => Some(x),
            _ => None,
        }
    }
}

impl TryFromValue for char {
    open spec fn held(v: GremlinValue) -> Option<char> {
        match v {
            GremlinValue::Char(x) => Some(x),
            _ => None,
        }
    }

    open spec fn wrapped(x: char) -> GremlinValue {
        GremlinValue::Char(x)
    }

    fn try_from_value(v: GremlinValue) -> (r: Option<char>) {
        match v {
            GremlinValue::Char(x) => Some(x),
            _ => None,
        }
    }

    fn try_borrow_from(v: &GremlinValue) -> (r: Option<&char>) {
        match v {
            GremlinValue::Char(x) => Some(x),
            _ => None,
        }
    }

    fn try_mut_borrow_from(v: &mut GremlinValue) -> (r: Option<&mut char>) {
        match v {
            GremlinValue::Char(x) => Some(x),
            _ => None,
        }
    }
}

impl TryFromValue for Edge {
    open spec fn held(v: GremlinValue) -> Option<Edge> {
        match v {
            GremlinValue::Edge(x) => Some(x),
            _ => None,
        }
    }

    open spec fn wrapped(x: Edge) -> GremlinValue {
        GremlinValue::Edge(x)
    }

    fn try_from_value(v: GremlinValue) -> (r: Option<Edge>) {
        match v {
            GremlinValue::Edge(x) => Some(x),
            _ => None,
        }
    }

    fn try_borrow_from(v: &GremlinValue) -> (r: Option<&Edge>) {
        match v {
            GremlinValue::Edge(x) => Some(x),
            _ => None,
        }
    }

    fn try_mut_borrow_from(v: &mut GremlinValue) -> (r: Option<&mut Edge>) {
        match v {
            GremlinValue::Edge(x) => Some(x),
            _ => None,
        }
    }
}

impl TryFromValue for Path {
    open spec fn held(v: GremlinValue) -> Option<Path> {
        match v {
            GremlinValue::Path(x) => Some(x),
            _ => None,
        }
    }

    open spec fn wrapped(x: Path) -> GremlinValue {
        GremlinValue::Path(x)
    }

    fn try_from_value(v: GremlinValue) -> (r: Option<Path>) {
        match v {
            GremlinValue::Path(x) => Some(x),
            _ => None,
        }
    }

    fn try_borrow_from(v: &GremlinValue) -> (r: Option<&Path>) {
        match v {
            GremlinValue::Path(x) => Some(x),
            _ => None,
        }
    }

    fn try_mut_borrow_from(v: &mut GremlinValue) -> (r: Option<&mut Path>) {
        match v {
            GremlinValue::Path(x) => Some(x),
            _ => None,
        }
    }
}

impl TryFromValue for Property {
    open spec fn held(v: GremlinValue) -> Option<Property> {
        match v {
            GremlinValue::Property(x) => Some(x),
            _ => None,
        }
    }

    open spec fn wrapped(x: Property) -> GremlinValue {
        GremlinValue::Property(x)
    }

    fn try_from_value(v: GremlinValue) -> (r: Option<Property>) {
        match v {
            GremlinValue::Property(x) => Some(x),
            _ => None,
        }
    }

    fn try_borrow_from(v: &GremlinValue) -> (r: Option<&Property>) {
        match v {
            GremlinValue::Property(x) => Some(x),
            _ => None,
        }
    }

    fn try_mut_borrow_from(v: &mut GremlinValue) -> (r: Option<&mut Property>) {
        match v {
            GremlinValue::Property(x) => Some(x),
            _ => None,
        }
    }
}

impl TryFromValue for Vertex {
    open spec fn held(v: GremlinValue) -> Option<Vertex> {
        match v {
            GremlinValue::Vertex(x) => Some(x),
            _ => None,
        }
    }

    open spec fn wrapped(x: Vertex) -> GremlinValue {
        GremlinValue::Vertex(x)
    }

    fn try_from_value(v: GremlinValue) -> (r: Option<Vertex>) {
        match v {
            GremlinValue::Vertex(x) => Some(x),
            _ => None,
        }
    }

    fn try_borrow_from(v: &GremlinValue) -> (r: Option<&Vertex>) {
        match v {
            GremlinValue::Vertex(x) => Some(x),
            _ => None,
        }
    }

    fn try_mut_borrow_from(v: &mut GremlinValue) -> (r: Option<&mut Vertex>) {
        match v {
            GremlinValue::Vertex(x) => Some(x),
            _ => None,
        }
    }
}

impl TryFromValue for VertexProperty {
    open spec fn held(v: GremlinValue) -> Option<VertexProperty> {
        match v {
            GremlinValue::VertexProperty(x) => Some(x),
            _ => None,
        }
    }

    open spec fn wrapped(x: VertexProperty) -> GremlinValue {
        GremlinValue::VertexProperty(x)
    }

    fn try_from_value(v: GremlinValue) -> (r: Option<VertexProperty>) {
        match v {
            GremlinValue::VertexProperty(x) => Some(x),
            _ => None,
        }
    }

    fn try_borrow_from(v: &GremlinValue) -> (r: Option<&VertexProperty>) {
        match v {
            GremlinValue::VertexProperty(x) => Some(x),
            _ => None,
        }
    }

    fn try_mut_borrow_from(v: &mut GremlinValue) -> (r: Option<&mut VertexProperty>) {
        match v {
            GremlinValue::VertexProperty(x) => Some(x),
            _ => None,
        }
    }
}

impl TryFromValue for Lambda {
    open spec fn held(v: GremlinValue) -> Option<Lambda> {
        match v {
            GremlinValue::Lambda(x) => Some(x),
            _ => None,
        }
    }

    open spec fn wrapped(x: Lambda) -> GremlinValue {
        GremlinValue::Lambda(x)
    }

    fn try_from_value(v: GremlinValue) -> (r: Option<Lambda>) {
        match v {
            GremlinValue::Lambda(x) => Some(x),
            _ => None,
        }
    }

    fn try_borrow_from(v: &GremlinValue) -> (r: Option<&Lambda>) {
        match v {
            GremlinValue::Lambda(x) => Some(x),
            _ => None,
        }
    }

    fn try_mut_borrow_from(v: &mut GremlinValue) -> (r: Option<&mut Lambda>) {
        match v {
            GremlinValue::Lambda(x) => Some(x),
            _ => None,
        }
    }
}

impl TryFromValue for Barrier {
    open spec fn held(v: GremlinValue) -> Option<Barrier> {
        match v {
            GremlinValue::Barrier(x) => Some(x),
            _ => None,
        }
    }

    open spec fn wrapped(x: Barrier) -> GremlinValue {
        GremlinValue::Barrier(x)
    }

    fn try_from_value(v: GremlinValue) -> (r: Option<Barrier>) {
        match v {
            GremlinValue::Barrier(x) => Some(x),
            _ => None,
        }
    }

    fn try_borrow_from(v: &GremlinValue) -> (r: Option<&Barrier>) {
        match v {
            GremlinValue::Barrier(x) => Some(x),
            _ => None,
        }
    }

    fn try_mut_borrow_from(v: &mut GremlinValue) -> (r: Option<&mut Barrier>) {
        match v {
            GremlinValue::Barrier(x) => Some(x),
            _ => None,
        }
    }
}

impl TryFromValue for Cardinality {
    open spec fn held(v: GremlinValue) -> Option<Cardinality> {
        match v {
            GremlinValue::Cardinality(x) => Some(x),
            _ => None,
        }
    }

    open spec fn wrapped(x: Cardinality) -> GremlinValue {
        GremlinValue::Cardinality(x)
    }

    fn try_from_value(v: GremlinValue) -> (r: Option<Cardinality>) {
        match v {
            GremlinValue::Cardinality(x) => Some(x),
            _ => None,
        }
    }

    fn try_borrow_from(v: &GremlinValue) -> (r: Option<&Cardinality>) {
        match v {
            GremlinValue::Cardinality(x) => Some(x),
            _ => None,
        }
    }

    fn try_mut_borrow_from(v: &mut GremlinValue) -> (r: Option<&mut Cardinality>) {
        match v {
            GremlinValue::Cardinality(x) => Some(x),
            _ => None,
        }
    }
}

impl TryFromValue for Column {
    open spec fn held(v: GremlinValue) -> Option<Column> {
        match v {
            GremlinValue::Column(x) => Some(x),
            _ => None,
        }
    }

    open spec fn wrapped(x: Column) -> GremlinValue {
        GremlinValue::Column(x)
    }

    fn try_from_value(v: GremlinValue) -> (r: Option<Column>) {
        match v {
            GremlinValue::Column(x) => Some(x),
            _ => None,
        }
    }

    fn try_borrow_from(v: &GremlinValue) -> (r: Option<&Column>) {
        match v {
            GremlinValue::Column(x) => Some(x),
            _ => None,
        }
    }

    fn try_mut_borrow_from(v: &mut GremlinValue) -> (r: Option<&mut Column>) {
        match v {
            GremlinValue::Column(x) => Some(x),
            _ => None,
        }
    }
}

impl TryFromValue for Direction {
    open spec fn held(v: GremlinValue) -> Option<Direction> {
        match v {
            GremlinValue::Direction(x) => Some(x),
            _ => None,
        }
    }

    open spec fn wrapped(x: Direction) -> GremlinValue {
        GremlinValue::Direction(x)
    }

    fn try_from_value(v: GremlinValue) -> (r: Option<Direction>) {
        match v {
            GremlinValue::Direction(x) => Some(x),
            _ => None,
        }
    }

    fn try_borrow_from(v: &GremlinValue) -> (r: Option<&Direction>) {
        match v {
            GremlinValue::Direction(x) => Some(x),
            _ => None,
        }
    }

    fn try_mut_borrow_from(v: &mut GremlinValue) -> (r: Option<&mut Direction>) {
        match v {
            GremlinValue::Direction(x) => Some(x),
            _ => None,
        }
    }
}

impl TryFromValue for Operator {
    open spec fn held(v: GremlinValue) -> Option<Operator> {
        match v {
            GremlinValue::Operator(x) => Some(x),
            _ => None,
        }
    }

    open spec fn wrapped(x: Operator) -> GremlinValue {
        GremlinValue::Operator(x)
    }

    fn try_from_value(v: GremlinValue) -> (r: Option<Operator>) {
        match v {
            GremlinValue::Operator(x) => Some(x),
            _ => None,
        }
    }

    fn try_borrow_from(v: &GremlinValue) -> (r: Option<&Operator>) {
        match v {
            GremlinValue::Operator(x) => Some(x),
            _ => None,
        }
    }

    fn try_mut_borrow_from(v: &mut GremlinValue) -> (r: Option<&mut Operator>) {
        match v {
            GremlinValue::Operator(x) => Some(x),
            _ => None,
        }
    }
}

impl TryFromValue for Order {
    open spec fn held(v: GremlinValue) -> Option<Order> {
        match v {
            GremlinValue::Order(x) => Some(x),
            _ => None,
        }
    }

    open spec fn wrapped(x: Order) -> GremlinValue {
        GremlinValue::Order(x)
    }

    fn try_from_value(v: GremlinValue) -> (r: Option<Order>) {
        match v {
            GremlinValue::Order(x) => Some(x),
            _ => None,
        }
    }

    fn try_borrow_from(v: &GremlinValue) -> (r: Option<&Order>) {
        match v {
            GremlinValue::Order(x) => Some(x),
            _ => None,
        }
    }

    fn try_mut_borrow_from(v: &mut GremlinValue) -> (r: Option<&mut Order>) {
        match v {
            GremlinValue::Order(x) => Some(x),
            _ => None,
        }
    }
}

impl TryFromValue for Pick {
    open spec fn held(v: GremlinValue) -> Option<Pick> {
        match v {
            GremlinValue::Pick(x) => Some(x),
            _ => None,
        }
    }

    open spec fn wrapped(x: Pick) -> GremlinValue {
        GremlinValue::Pick(x)
    }

    fn try_from_value(v: GremlinValue) -> (r: Option<Pick>) {
        match v {
            GremlinValue::Pick(x) => Some(x),
            _ => None,
        }
    }

    fn try_borrow_from(v: &GremlinValue) -> (r: Option<&Pick>) {
        match v {
            GremlinValue::Pick(x) => Some(x),
            _ => None,
        }
    }

    fn try_mut_borrow_from(v: &mut GremlinValue) -> (r: Option<&mut Pick>) {
        match v {
            GremlinValue::Pick(x) => Some(x),
            _ => None,
        }
    }
}

impl TryFromValue for Pop {
    open spec fn held(v: GremlinValue) -> Option<Pop> {
        match v {
            GremlinValue::Pop(x) => Some(x),
            _ => None,
        }
    }

    open spec fn wrapped(x: Pop) -> GremlinValue {
        GremlinValue::Pop(x)
    }

    fn try_from_value(v: GremlinValue) -> (r: Option<Pop>) {
        match v {
            GremlinValue::Pop(x) => Some(x),
            _ => None,
        }
    }

    fn try_borrow_from(v: &GremlinValue) -> (r: Option<&Pop>) {
        match v {
            GremlinValue::Pop(x) => Some(x),
            _ => None,
        }
    }

    fn try_mut_borrow_from(v: &mut GremlinValue) -> (r: Option<&mut Pop>) {
        match v {
            GremlinValue::Pop(x) => Some(x),
            _ => None,
        }
    }
}

impl TryFromValue for Scope {
    open spec fn held(v: GremlinValue) -> Option<Scope> {
        match v {
            GremlinValue::Scope(x) => Some(x),
            _ => None,
        }
    }

    open spec fn wrapped(x: Scope) -> GremlinValue {
        GremlinValue::Scope(x)
    }

    fn try_from_value(v: GremlinValue) -> (r: Option<Scope>) {
        match v {
            GremlinValue::Scope(x) => Some(x),
            _ => None,
        }
    }

    fn try_borrow_from(v: &GremlinValue) -> (r: Option<&Scope>) {
        match v {
            GremlinValue::Scope(x) => Some(x),
            _ => None,
        }
    }

    fn try_mut_borrow_from(v: &mut GremlinValue) -> (r: Option<&mut Scope>) {
        match v {
            GremlinValue::Scope(x) => Some(x),
            _ => None,
        }
    }
}

impl TryFromValue for T {
    open spec fn held(v: GremlinValue) -> Option<T> {
        match v {
            GremlinValue::T(x) => Some(x),
            _ => None,
        }
    }

    open spec fn wrapped(x: T) -> GremlinValue {
        GremlinValue::T(x)
    }

    fn try_from_value(v: GremlinValue) -> (r: Option<T>) {
        match v {
            GremlinValue::T(x) => Some(x),
            _ => None,
        }
    }

    fn try_borrow_from(v: &GremlinValue) -> (r: Option<&T>) {
        match v {
            GremlinValue::T(x) => Some(x),
            _ => None,
        }
    }

    fn try_mut_borrow_from(v: &mut GremlinValue) -> (r: Option<&mut T>) {
        match v {
            GremlinValue::T(x) => Some(x),
            _ => None,
        }
    }
}

impl TryFromValue for Merge {
    open spec fn held(v: GremlinValue) -> Option<Merge> {
        match v {
            GremlinValue::Merge(x) => Some(x),
            _ => None,
        }
    }

    open spec fn wrapped(x: Merge) -> GremlinValue {
        GremlinValue::Merge(x)
    }

    fn try_from_value(v: GremlinValue) -> (r: Option<Merge>) {
        match v {
            GremlinValue::Merge(x) => Some(x),
            _ => None,
        }
    }

    fn try_borrow_from(v: &GremlinValue) -> (r: Option<&Merge>) {
        match v {
            GremlinValue::Merge(x) => Some(x),
            _ => None,
        }
    }

    fn try_mut_borrow_from(v: &mut GremlinValue) -> (r: Option<&mut Merge>) {
        match v {
            GremlinValue::Merge(x) => Some(x),
            _ => None,
        }
    }
}

} // verus!
