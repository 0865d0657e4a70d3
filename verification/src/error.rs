use vstd::prelude::*;

verus! {

/// Why a sequence of bytes was not accepted as a GraphBinary value.
#[derive(Debug, Clone, Copy, PartialEq, Eq, Structural)]
pub enum DecodeError {
    /// The input ended before the value did.
    UnexpectedEof,
    /// A type code that names no GraphBinary type.
    InvalidTypeCode,
    /// A value flag other than 0x00 (set) and 0x01 (null).
    InvalidValueFlag,
    /// The type code or value flag is not the one the decoded type expects.
    TypeMismatch,
    /// A length prefix that is negative where the format forbids it.
    NegativeLength,
    /// Bytes that are not valid UTF-8 where text is expected.
    InvalidUtf8,
    /// A well-formed field whose value is out of range for its type.
    InvalidValue,
    /// A string that names no element of the expected enum.
    UnknownEnumValue,
    /// A value that cannot be used as a map key.
    InvalidMapKey,
    /// A known type code for which no value is decoded.
    UnsupportedType,
    /// A value that does not convert to the type asked for.
    NotConvertible,
}

/// Why a value has no GraphBinary form.
#[derive(Debug, Clone, Copy, PartialEq, Eq, Structural)]
pub enum EncodeError {
    /// A value out of the range that the format can hold, such as a negative duration.
    OutOfRange,
}

/// Why a text was not accepted as a GraphSON value.
#[derive(Debug, Clone, Copy, PartialEq, Eq, Structural)]
pub enum GraphSonError {
    /// The text does not begin with the letter that its format requires.
    MissingPrefix,
    /// A number in the text is not a decimal integer that fits its type.
    InvalidNumber,
    /// A letter that names no unit where a unit is expected.
    InvalidDesignator,
    /// A member that a value of its type must have is missing.
    KeyNotFound,
    /// A JSON value of another kind than the one expected (a text for a number, say).
    WrongJsonType,
    /// A type name that names no value.
    WrongTypeIdentifier,
    /// A text that names no element of the expected enum.
    UnknownEnumValue,
    /// A value that cannot be a map key.
    InvalidMapKey,
    /// A text that is not a UUID.
    InvalidUuid,
    /// A type name of a value that a `GremlinValue` does not hold.
    UnsupportedType,
}

} // verus!
