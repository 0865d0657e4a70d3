//! The identifier of an element: a text, an integer, a long or a UUID.

use vstd::prelude::*;
use crate::value::GremlinValue;

verus! {

/// The identifier of a vertex, an edge or a property; a UUID is held as its 128-bit value.
#[derive(Debug, PartialEq, Eq, PartialOrd, Ord, Clone)]
pub enum ElementId {
    String(String),
    Int(i32),
    Long(i64),
    Uuid(u128),
}

impl ElementId {
    /// The text, where the identifier is one.
    pub fn as_str(&self) -> (r: Option<&str>)
        ensures
            match *self {
                ElementId::String(s) => r matches Some(x) && x@ == s@,
                _ => r is None,
            },
    {
        match self {
            ElementId::String(val) => Some(val.as_str()),
            _ => None,
        }
    }

    /// The integer, where the identifier is one.
    pub fn as_i32(&self) -> (r: Option<i32>)
        ensures
            match *self {
                ElementId::Int(x) => r == Some(x),
                _ => r is None,
            },
    {
        match self {
            ElementId::Int(val) => Some(*val),
            _ => None,
        }
    }

    /// The long, where the identifier is one.
    pub fn as_i64(&self) -> (r: Option<i64>)
        ensures
            match *self {
                ElementId::Long(x) => r == Some(x),
                _ => r is None,
            },
    {
        match self {
            ElementId::Long(val) => Some(*val),
            _ => None,
        }
    }

    /// The UUID, where the identifier is one.
    pub fn as_uuid(&self) -> (r: Option<u128>)
        ensures
            match *self {
                ElementId::Uuid(x) => r == Some(x),
                _ => r is None,
            },
    {
        match self {
            ElementId::Uuid(val) => Some(*val),
            _ => None,
        }
    }

    /// The identifier as a value of the type system.
    pub fn into_value(self) -> (v: GremlinValue)
        ensures
            v == id_value(self),
    {
        match self {
            ElementId::String(s) => GremlinValue::String(s),
            ElementId::Int(i) => GremlinValue::Int(i),
            ElementId::Long(l) => GremlinValue::Long(l),
            ElementId::Uuid(u) => GremlinValue::Uuid(u),
        }
    }
}

/// The value that an identifier stands for.
pub open spec fn id_value(id: ElementId) -> GremlinValue {
    match id {
        ElementId::String(s) => GremlinValue::String(s),
        ElementId::Int(i) => GremlinValue::Int(i),
        ElementId::Long(l) => GremlinValue::Long(l),
        ElementId::Uuid(u) => GremlinValue::Uuid(u),
    }
}

impl From<String> for ElementId {
    fn from(value: String) -> (r: ElementId) {
        ElementId::String(value)
    }
}

impl vstd::std_specs::convert::FromSpecImpl<String> for ElementId {
    open spec fn obeys_from_spec() -> bool {
        true
    }

    open spec fn from_spec(v: String) -> ElementId {
        ElementId::String(v)
    }
}

impl From<i32> for ElementId {
    fn from(value: i32) -> (r: ElementId) {
        ElementId::Int(value)
    }
}

impl vstd::std_specs::convert::FromSpecImpl<i32> for ElementId {
    open spec fn obeys_from_spec() -> bool {
        true
    }

    open spec fn from_spec(v: i32) -> ElementId {
        ElementId::Int(v)
    }
}

impl From<i64> for ElementId {
    fn from(value: i64) -> (r: ElementId) {
        ElementId::Long(value)
    }
}

impl vstd::std_specs::convert::FromSpecImpl<i64> for ElementId {
    open spec fn obeys_from_spec() -> bool {
        true
    }

    open spec fn from_spec(v: i64) -> ElementId {
        ElementId::Long(v)
    }
}

impl From<u128> for ElementId {
    fn from(value: u128) -> (r: ElementId) {
        ElementId::Uuid(value)
    }
}

impl vstd::std_specs::convert::FromSpecImpl<u128> for ElementId {
    open spec fn obeys_from_spec() -> bool {
        true
    }

    open spec fn from_spec(v: u128) -> ElementId {
        ElementId::Uuid(v)
    }
}

} // verus!
