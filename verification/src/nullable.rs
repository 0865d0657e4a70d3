use vstd::prelude::*;
use crate::codec::{shift, Decode, Encode, Parsed, PartialDecode, PartialEncode};
use crate::core_type::{CoreType, ValueFlag};
use crate::error::DecodeError;

verus! {

/// The two bytes of the unspecified null object: its type code 0xFE and the null flag.
pub open spec fn null_object_bytes() -> Seq<u8> {
    seq![0xfeu8, 0x01u8]
}

/// Appends the unspecified null object.
pub fn encode_null_object(out: &mut Vec<u8>)
    ensures
        final(out)@ == old(out)@ + null_object_bytes(),
{
    let code = CoreType::UnspecifiedNullObject.code();
    let flag = ValueFlag::Null.to_byte();
    out.push(code);
    out.push(flag);
    assert(out@ =~= old(out)@ + null_object_bytes());
}

/// A present value wrapped in `Some`.
pub open spec fn map_some<V>(p: Parsed<V>) -> Parsed<Option<V>> {
    match p {
        Parsed::Done(v, n) => Parsed::Done(Some(v), n),
        Parsed::Fail(e) => Parsed::Fail(e),
        Parsed::Abort => Parsed::Abort,
    }
}

/// Reads a value that may be absent: the type code of `T` with the set flag and `T`'s
/// partial form is a present value; the null object, or `T`'s type code with the null
/// flag, is an absent one; a flag of 2 or more is `InvalidValueFlag`; anything else is a
/// `TypeMismatch`.
pub open spec fn parse_option<T: PartialDecode>(s: Seq<u8>) -> Parsed<Option<T::V>> {
    let code = T::spec_expected_type_code();
    if s.len() < 2 {
        Parsed::Fail(DecodeError::UnexpectedEof)
    } else if s[0] == code && s[1] == 0x00u8 {
        shift(map_some(T::spec_parse_partial(s.skip(2))), 2)
    } else if s[0] == 0xfeu8 && s[1] == 0x01u8 {
        Parsed::Done(None, 2)
    } else if s[0] == code && s[1] == 0x01u8 {
        Parsed::Done(None, 2)
    } else if s[1] >= 2 {
        Parsed::Fail(DecodeError::InvalidValueFlag)
    } else {
        Parsed::Fail(DecodeError::TypeMismatch)
    }
}

impl<T: Encode> Encode for Option<T> {
    /// A present value is written as itself; an absent one as the null object.
    open spec fn spec_bytes(&self) -> Seq<u8> {
        match self {
            Some(x) => x.spec_bytes(),
            None => null_object_bytes(),
        }
    }

    fn encode(&self, out: &mut Vec<u8>) {
        match self {
            Some(x) => x.encode(out),
            None => encode_null_object(out),
        }
    }
}

impl<T: PartialEncode> PartialEncode for Option<T> {
    open spec fn spec_type_code() -> u8 {
        T::spec_type_code()
    }

    /// A present value's partial form is its own; an absent one is written as the null
    /// object.
    open spec fn spec_partial_bytes(&self) -> Seq<u8> {
        match self {
            Some(x) => x.spec_partial_bytes(),
            None => null_object_bytes(),
        }
    }

    fn type_code() -> (code: u8) {
        T::type_code()
    }

    fn partial_encode(&self, out: &mut Vec<u8>) {
        match self {
            Some(x) => x.partial_encode(out),
            None => encode_null_object(out),
        }
    }
}

/// The nullable partial form of a value that may be absent: the flag 0x00 and the partial
/// form of a present value, or the flag 0x01 alone.
pub open spec fn partial_nullable_bytes<T: PartialEncode>(v: Option<T>) -> Seq<u8> {
    match v {
        Some(x) => seq![0x00u8] + x.spec_partial_bytes(),
        None => seq![0x01u8],
    }
}

/// Appends the nullable partial form of a value that may be absent.
pub fn write_partial_nullable_bytes<T: PartialEncode>(v: &Option<T>, out: &mut Vec<u8>)
    ensures
        final(out)@ == old(out)@ + partial_nullable_bytes(*v),
{
    match v {
        Some(x) => {
            x.nullable_encode(out);
            assert(out@ =~= old(out)@ + partial_nullable_bytes(*v));
        },
        None => {
            out.push(0x01u8);
            assert(out@ =~= old(out)@ + partial_nullable_bytes(*v));
        },
    }
}

impl<T: PartialDecode> Decode for Option<T> {
    open spec fn spec_parse(s: Seq<u8>) -> Parsed<Option<T::V>> {
        parse_option::<T>(s)
    }

    fn decode(buf: &[u8], pos: usize) -> (r: Result<(Option<T>, usize), DecodeError>) {
        if buf.len() - pos < 2 {
            return Err(DecodeError::UnexpectedEof);
        }
        let code = buf[pos];
        let flag = buf[pos + 1];
        let expected = T::expected_type_code();
        if code == expected && flag == 0x00 {
            proof {
                assert(buf@.skip(pos as int).skip(2) =~= buf@.skip(pos + 2));
            }
            match T::partial_decode(buf, pos + 2) {
                Ok((x, p)) => Ok((Some(x), p)),
                Err(e) => Err(e),
            }
        } else if code == 0xfe && flag == 0x01 {
            Ok((None, pos + 2))
        } else if code == expected && flag == 0x01 {
            Ok((None, pos + 2))
        } else if flag >= 2 {
            Err(DecodeError::InvalidValueFlag)
        } else {
            Err(DecodeError::TypeMismatch)
        }
    }
}

impl<T: PartialDecode> PartialDecode for Option<T> {
    open spec fn spec_expected_type_code() -> u8 {
        T::spec_expected_type_code()
    }

    open spec fn spec_parse_partial(s: Seq<u8>) -> Parsed<Option<T::V>> {
        map_some(T::spec_parse_partial(s))
    }

    fn expected_type_code() -> (code: u8) {
        T::expected_type_code()
    }

    fn partial_decode(buf: &[u8], pos: usize) -> (r: Result<(Option<T>, usize), DecodeError>) {
        match T::partial_decode(buf, pos) {
            Ok((x, p)) => Ok((Some(x), p)),
            Err(e) => Err(e),
        }
    }
}

/// What is written for a value that may be absent reads back as that value, where the
/// present value's partial form reads back as itself and its full form is its type code,
/// the set flag and its partial form.
pub proof fn lemma_option_roundtrip<T: Encode + PartialEncode + PartialDecode>(
    v: Option<T>,
    rest: Seq<u8>,
)
    requires
        T::spec_type_code() == T::spec_expected_type_code(),
        v matches Some(x) ==> x.spec_bytes() == seq![T::spec_type_code(), 0x00u8]
            + x.spec_partial_bytes(),
        v matches Some(x) ==> T::spec_parse_partial(x.spec_partial_bytes() + rest)
            == Parsed::Done(x.deep_view(), x.spec_partial_bytes().len() as int),
    ensures
        parse_option::<T>(v.spec_bytes() + rest) == Parsed::Done(
            v.deep_view(),
            v.spec_bytes().len() as int,
        ),
{
    match v {
        Some(x) => {
            let p = x.spec_partial_bytes();
            let s = v.spec_bytes() + rest;
            assert(s.skip(2) =~= p + rest);
        },
        None => {
            let s = v.spec_bytes() + rest;
            assert(s[0] == 0xfeu8 && s[1] == 0x01u8);
        },
    }
}

} // verus!
