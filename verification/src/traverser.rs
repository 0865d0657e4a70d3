//! A traverser: a value with the number of times it stands in a traversal's result.

use vstd::prelude::*;
use crate::value::GremlinValue;

verus! {

/// A value of a traversal's result and its bulk, the number of times it occurs.
#[derive(Debug, PartialEq)]
pub struct Traverser {
    pub bulk: i64,
    pub value: Box<GremlinValue>,
}

impl Traverser {
    /// The traverser of `value` with the given bulk.
    pub fn new(bulk: i64, value: GremlinValue) -> (t: Traverser)
        ensures
            t.bulk == bulk,
            *t.value == value,
    {
        Traverser { bulk, value: Box::new(value) }
    }

    /// The bulk.
    pub fn bulk(&self) -> (r: &i64)
        ensures
            *r == self.bulk,
    {
        &self.bulk
    }

    /// The value.
    pub fn value(&self) -> (r: &GremlinValue)
        ensures
            *r == *self.value,
    {
        &self.value
    }

    /// A cursor that gives the value as many times as the bulk says, the bulk taken as an
    /// unsigned machine word.
    pub fn iter(&self) -> (it: TraverserIter<'_>)
        ensures
            it.remaining() == self.bulk as usize,
            *it.item() == *self.value,
    {
        TraverserIter { bulk: self.bulk as usize, val: &self.value }
    }

    /// The traverser as a value of the type system.
    pub fn into_value(self) -> (v: GremlinValue)
        ensures
            v == (GremlinValue::Traverser { bulk: self.bulk, value: self.value }),
    {
        GremlinValue::Traverser { bulk: self.bulk, value: self.value }
    }
}

/// A cursor over the occurrences of a traverser's value.
pub struct TraverserIter<'a> {
    bulk: usize,
    val: &'a GremlinValue,
}

impl<'a> TraverserIter<'a> {
    /// How many more times the value is given.
    pub closed spec fn remaining(&self) -> usize {
        self.bulk
    }

    /// The value that is given.
    pub closed spec fn item(&self) -> &'a GremlinValue {
        self.val
    }

    /// The value once more, while any occurrence is left.
    pub fn next(&mut self) -> (r: Option<&'a GremlinValue>)
        ensures
            old(self).remaining() > 0 ==> r == Some(old(self).item()) && final(self).remaining()
                == old(self).remaining() - 1,
            old(self).remaining() == 0 ==> r is None && final(self).remaining() == 0,
            final(self).item() == old(self).item(),
    {
        if self.bulk > 0 {
            self.bulk = self.bulk - 1;
            Some(self.val)
        } else {
            None
        }
    }

    /// The number of values left, as a lower and an upper bound.
    pub fn size_hint(&self) -> (r: (usize, Option<usize>))
        ensures
            r == (self.remaining(), Some(self.remaining())),
    {
        (self.bulk, Some(self.bulk))
    }
}

} // verus!
