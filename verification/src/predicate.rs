//! Predicates of the Gremlin language: a name and the values it compares with.

use vstd::prelude::*;
use crate::value::GremlinValue;

verus! {

/// A predicate on values, such as `gt(5)` or `within(1, 2, 3)`: its name and its operands.
#[derive(Debug, PartialEq)]
pub struct P {
    pub predicate: String,
    pub value: Vec<GremlinValue>,
}

/// A predicate on texts, such as `startingWith("ma")`: its name and its operand.
#[derive(Debug, PartialEq)]
pub struct TextP {
    pub predicate: String,
    pub value: Vec<GremlinValue>,
}

impl P {
    /// The predicate `eq` of `a`.
    pub fn eq(a: GremlinValue) -> (r: P)
        ensures
            r.predicate@ == "eq"@,
            r.value@ == seq![a],
    {
        P { predicate: "eq".to_owned(), value: vec![a] }
    }

    /// The predicate `neq` of `a`.
    pub fn neq(a: GremlinValue) -> (r: P)
        ensures
            r.predicate@ == "neq"@,
            r.value@ == seq![a],
    {
        P { predicate: "neq".to_owned(), value: vec![a] }
    }

    /// The predicate `gt` of `a`.
    pub fn gt(a: GremlinValue) -> (r: P)
        ensures
            r.predicate@ == "gt"@,
            r.value@ == seq![a],
    {
        P { predicate: "gt".to_owned(), value: vec![a] }
    }

    /// The predicate `gte` of `a`.
    pub fn gte(a: GremlinValue) -> (r: P)
        ensures
            r.predicate@ == "gte"@,
            r.value@ == seq![a],
    {
        P { predicate: "gte".to_owned(), value: vec![a] }
    }

    /// The predicate `lt` of `a`.
    pub fn lt(a: GremlinValue) -> (r: P)
        ensures
            r.predicate@ == "lt"@,
            r.value@ == seq![a],
    {
        P { predicate: "lt".to_owned(), value: vec![a] }
    }

    /// The predicate `lte` of `a`.
    pub fn lte(a: GremlinValue) -> (r: P)
        ensures
            r.predicate@ == "lte"@,
            r.value@ == seq![a],
    {
        P { predicate: "lte".to_owned(), value: vec![a] }
    }

    /// The predicate `between` of `first` and `second`.
    pub fn between(first: GremlinValue, second: GremlinValue) -> (r: P)
        ensures
            r.predicate@ == "between"@,
            r.value@ == seq![first, second],
    {
        P { predicate: "between".to_owned(), value: vec![first, second] }
    }

    /// The predicate `inside` of `first` and `second`.
    pub fn inside(first: GremlinValue, second: GremlinValue) -> (r: P)
        ensures
            r.predicate@ == "inside"@,
            r.value@ == seq![first, second],
    {
        P { predicate: "inside".to_owned(), value: vec![first, second] }
    }

    /// The predicate `outside` of `first` and `second`.
    pub fn outside(first: GremlinValue, second: GremlinValue) -> (r: P)
        ensures
            r.predicate@ == "outside"@,
            r.value@ == seq![first, second],
    {
        P { predicate: "outside".to_owned(), value: vec![first, second] }
    }

    /// The predicate `within` of `values`.
    pub fn within(values: Vec<GremlinValue>) -> (r: P)
        ensures
            r.predicate@ == "within"@,
            r.value@ == values@,
    {
        P { predicate: "within".to_owned(), value: values }
    }

    /// The predicate `without` of `values`.
    pub fn without(values: Vec<GremlinValue>) -> (r: P)
        ensures
            r.predicate@ == "without"@,
            r.value@ == values@,
    {
        P { predicate: "without".to_owned(), value: values }
    }

}

impl TextP {
    /// The predicate `startingWith` of the text `val`.
    pub fn starting_with(val: &str) -> (r: TextP)
        ensures
            r.predicate@ == "startingWith"@,
            r.value@.len() == 1,
            r.value@[0] matches GremlinValue::String(s) && s@ == val@,
    {
        TextP { predicate: "startingWith".to_owned(), value: vec![GremlinValue::String(val.to_owned())] }
    }

    /// The predicate `notStartingWith` of the text `val`.
    pub fn not_starting_with(val: &str) -> (r: TextP)
        ensures
            r.predicate@ == "notStartingWith"@,
            r.value@.len() == 1,
            r.value@[0] matches GremlinValue::String(s) && s@ == val@,
    {
        TextP { predicate: "notStartingWith".to_owned(), value: vec![GremlinValue::String(val.to_owned())] }
    }

    /// The predicate `endingWith` of the text `val`.
    pub fn ending_with(val: &str) -> (r: TextP)
        ensures
            r.predicate@ == "endingWith"@,
            r.value@.len() == 1,
            r.value@[0] matches GremlinValue::String(s) && s@ == val@,
    {
        TextP { predicate: "endingWith".to_owned(), value: vec![GremlinValue::String(val.to_owned())] }
    }

    /// The predicate `notEndingWith` of the text `val`.
    pub fn not_ending_with(val: &str) -> (r: TextP)
        ensures
            r.predicate@ == "notEndingWith"@,
            r.value@.len() == 1,
            r.value@[0] matches GremlinValue::String(s) && s@ == val@,
    {
        TextP { predicate: "notEndingWith".to_owned(), value: vec![GremlinValue::String(val.to_owned())] }
    }

    /// The predicate `containing` of the text `val`.
    pub fn containing(val: &str) -> (r: TextP)
        ensures
            r.predicate@ == "containing"@,
            r.value@.len() == 1,
            r.value@[0] matches GremlinValue::String(s) && s@ == val@,
    {
        TextP { predicate: "containing".to_owned(), value: vec![GremlinValue::String(val.to_owned())] }
    }

    /// The predicate `notContaining` of the text `val`.
    pub fn not_containing(val: &str) -> (r: TextP)
        ensures
            r.predicate@ == "notContaining"@,
            r.value@.len() == 1,
            r.value@[0] matches GremlinValue::String(s) && s@ == val@,
    {
        TextP { predicate: "notContaining".to_owned(), value: vec![GremlinValue::String(val.to_owned())] }
    }

    /// The predicate `regex` of the text `val`.
    pub fn regex(val: &str) -> (r: TextP)
        ensures
            r.predicate@ == "regex"@,
            r.value@.len() == 1,
            r.value@[0] matches GremlinValue::String(s) && s@ == val@,
    {
        TextP { predicate: "regex".to_owned(), value: vec![GremlinValue::String(val.to_owned())] }
    }

    /// The predicate `notRegex` of the text `val`.
    pub fn not_regex(val: &str) -> (r: TextP)
        ensures
            r.predicate@ == "notRegex"@,
            r.value@.len() == 1,
            r.value@[0] matches GremlinValue::String(s) && s@ == val@,
    {
        TextP { predicate: "notRegex".to_owned(), value: vec![GremlinValue::String(val.to_owned())] }
    }

}

} // verus!

