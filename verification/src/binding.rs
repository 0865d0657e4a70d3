//! A binding: a name given to a value in a traversal.

use vstd::prelude::*;
use crate::value::GremlinValue;

verus! {

/// A value with the name it is bound to.
#[derive(Debug, PartialEq)]
pub struct Binding {
    key: String,
    value: Box<GremlinValue>,
}

impl Binding {
    /// The binding of `value` to `key`.
    pub fn new(key: &str, value: GremlinValue) -> (b: Binding)
        ensures
            b.spec_key() == key@,
            b.spec_value() == value,
    {
        Binding { key: key.to_string(), value: Box::new(value) }
    }

    /// The name.
    pub closed spec fn spec_key(&self) -> Seq<char> {
        self.key@
    }

    /// The value.
    pub closed spec fn spec_value(&self) -> GremlinValue {
        *self.value
    }

    /// The name.
    pub fn key(&self) -> (r: &str)
        ensures
            r@ == self.spec_key(),
    {
        self.key.as_str()
    }

    /// The value.
    pub fn value(&self) -> (r: &GremlinValue)
        ensures
            *r == self.spec_value(),
    {
        &self.value
    }

    /// The binding as a value of the type system.
    pub fn into_value(self) -> (v: GremlinValue)
        ensures
            v matches GremlinValue::Binding { key, value } && key@ == self.spec_key() && *value
                == self.spec_value(),
    {
        GremlinValue::Binding { key: self.key, value: self.value }
    }
}

} // verus!
