//! Map keys as texts: the conversion that a map keyed by texts reads its keys with.

use vstd::prelude::*;
use crate::calendar_text::int_string;
use crate::error::DecodeError;
use crate::id::ElementId;
use crate::period_text::int_text;
use crate::value::MapKeys;

verus! {

/// The lower-case hexadecimal digit of a number under sixteen.
pub open spec fn hex_char(d: int) -> char {
    if d < 10 {
        (48 + d) as char
    } else {
        (87 + d) as char
    }
}

/// The index among the 32 hexadecimal digits of a UUID of the character at position `i` of
/// its hyphenated text.
pub open spec fn uuid_digit_index(i: int) -> int {
    if i < 8 {
        i
    } else if i < 13 {
        i - 1
    } else if i < 18 {
        i - 2
    } else if i < 23 {
        i - 3
    } else {
        i - 4
    }
}

/// The hyphenated text of a UUID: its 32 lower-case hexadecimal digits, most significant
/// first, in groups of 8, 4, 4, 4 and 12 joined by hyphens.
pub open spec fn uuid_text(v: u128) -> Seq<char> {
    Seq::new(
        36,
        |i: int|
            if i == 8 || i == 13 || i == 18 || i == 23 {
                '-'
            } else {
                hex_char(((v >> (((31 - uuid_digit_index(i)) * 4) as u128)) & 0xfu128) as int)
            },
    )
}

/// `uuid::Uuid::from_u128(v).to_string()`: the text of the UUID `v` in its hyphenated,
/// lower-case form (`Display` for `Uuid` writes `as_hyphenated` in lower-case hexadecimal).
#[verifier::external_body]
pub(crate) fn uuid_to_text(v: u128) -> (r: String)
    ensures
        r@ == uuid_text(v),
{
    uuid::Uuid::from_u128(v).to_string()
}

impl MapKeys {
    /// The key as a text: a text as itself, a UUID in its hyphenated form, a `T` or a
    /// `Direction` by its name; an integer or a long does not convert (`NotConvertible`).
    pub fn try_into_string(self) -> (r: Result<String, DecodeError>)
        ensures
            match self {
                MapKeys::String(s) => r matches Ok(t) && t@ == s@,
                MapKeys::Uuid(u) => r matches Ok(t) && t@ == uuid_text(u),
                MapKeys::T(x) => r matches Ok(t) && t@ == x.spec_name(),
                MapKeys::Direction(x) => r matches Ok(t) && t@ == x.spec_name(),
                MapKeys::Int(_) => r == Err::<String, DecodeError>(DecodeError::NotConvertible),
                MapKeys::Long(_) => r == Err::<String, DecodeError>(DecodeError::NotConvertible),
            },
    {
        match self {
            MapKeys::Int(_) => Err(DecodeError::NotConvertible),
            MapKeys::String(s) => Ok(s),
            MapKeys::Long(_) => Err(DecodeError::NotConvertible),
            MapKeys::Uuid(u) => Ok(uuid_to_text(u)),
            MapKeys::T(t) => Ok(t.as_str().to_string()),
            MapKeys::Direction(d) => Ok(d.as_str().to_string()),
        }
    }

    /// The key as text: a text as itself, an integer or a long in decimal, a UUID in its
    /// hyphenated form, a `T` or a `Direction` by its name.
    pub fn to_string(&self) -> (r: String)
        ensures
            r@ == match *self {
                MapKeys::String(s) => s@,
                MapKeys::Int(x) => int_text(x as int),
                MapKeys::Long(x) => int_text(x as int),
                MapKeys::Uuid(u) => uuid_text(u),
                MapKeys::T(x) => x.spec_name(),
                MapKeys::Direction(x) => x.spec_name(),
            },
    {
        match self {
            MapKeys::Int(x) => int_string(*x as i64),
            MapKeys::String(s) => s.clone(),
            MapKeys::Long(x) => int_string(*x),
            MapKeys::Uuid(u) => uuid_to_text(*u),
            MapKeys::T(t) => t.as_str().to_string(),
            MapKeys::Direction(d) => d.as_str().to_string(),
        }
    }
}

impl ElementId {
    /// The identifier as text: a text as itself, an integer or a long in decimal, a UUID in
    /// its hyphenated form.
    pub fn to_string(&self) -> (r: String)
        ensures
            r@ == match *self {
                ElementId::String(s) => s@,
                ElementId::Int(x) => int_text(x as int),
                ElementId::Long(x) => int_text(x as int),
                ElementId::Uuid(u) => uuid_text(u),
            },
    {
        match self {
            ElementId::Int(x) => int_string(*x as i64),
            ElementId::String(s) => s.clone(),
            ElementId::Long(x) => int_string(*x),
            ElementId::Uuid(u) => uuid_to_text(*u),
        }
    }
}

} // verus!
