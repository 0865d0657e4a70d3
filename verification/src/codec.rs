use vstd::prelude::*;
use crate::error::DecodeError;

verus! {

/// The outcome of reading a value from the front of a byte sequence.
pub enum Parsed<T> {
    /// The value and the number of bytes it took.
    Done(T, int),
    /// The bytes are not a value of the type.
    Fail(DecodeError),
    /// Bytes on which the reader gives up without an answer (an allocation it cannot make).
    Abort,
}

/// The outcome of a reader that ran after `k` bytes were already taken.
pub open spec fn shift<T>(p: Parsed<T>, k: int) -> Parsed<T> {
    match p {
        Parsed::Done(v, n) => Parsed::Done(v, n + k),
        Parsed::Fail(e) => Parsed::Fail(e),
        Parsed::Abort => Parsed::Abort,
    }
}

/// An executable decoder's result `r`, started at `pos`, is the outcome `p` over a model `m`.
pub open spec fn decoded_as<T, V>(p: Parsed<V>, r: Result<(T, usize), DecodeError>, pos: int, m: spec_fn(T) -> V) -> bool {
    match p {
        Parsed::Done(v, n) => r matches Ok((x, q)) && m(x) == v && q == pos + n,
        Parsed::Fail(e) => r == Err::<(T, usize), DecodeError>(e),
        Parsed::Abort => false,
    }
}

/// The bytes of a fully qualified value: its type code, the value flag 0x00, its partial form.
pub open spec fn fq_bytes(code: u8, partial: Seq<u8>) -> Seq<u8> {
    seq![code, 0x00u8] + partial
}

/// Reads a fully qualified value whose partial form is read by `f`: the type code must be
/// `code` and the value flag 0x00, else the outcome is `TypeMismatch`.
pub open spec fn parse_fq_with<V>(s: Seq<u8>, code: u8, f: spec_fn(Seq<u8>) -> Parsed<V>) -> Parsed<V> {
    if s.len() < 2 {
        Parsed::Fail(DecodeError::UnexpectedEof)
    } else if s[0] == code && s[1] == 0x00u8 {
        shift(f(s.skip(2)), 2)
    } else {
        Parsed::Fail(DecodeError::TypeMismatch)
    }
}

/// An executable decoder's result `r`, started at `pos` in a buffer of `end` bytes, is the
/// outcome `p` over deep views.
pub open spec fn decoded<T: DeepView>(
    p: Parsed<T::V>,
    r: Result<(T, usize), DecodeError>,
    pos: int,
    end: int,
) -> bool {
    match p {
        Parsed::Done(v, n) => r matches Ok((x, q)) && x.deep_view() == v && q == pos + n && pos <= q <= end,
        Parsed::Fail(e) => r == Err::<(T, usize), DecodeError>(e),
        Parsed::Abort => false,
    }
}

/// Types with a GraphBinary form.
pub trait Encode {
    /// The bytes written for the value.
    spec fn spec_bytes(&self) -> Seq<u8>;

    /// Appends the bytes of the value.
    fn encode(&self, out: &mut Vec<u8>)
        ensures
            final(out)@ == old(out)@ + self.spec_bytes(),
    ;
}

/// Types read back from their GraphBinary form.
pub trait Decode: Sized + DeepView {
    /// Reads a value from the front of `s`.
    spec fn spec_parse(s: Seq<u8>) -> Parsed<Self::V>;

    /// Reads a value at `pos`; returns it and the position after it.
    fn decode(buf: &[u8], pos: usize) -> (r: Result<(Self, usize), DecodeError>)
        requires
            pos <= buf@.len(),
            !(Self::spec_parse(buf@.skip(pos as int)) is Abort),
        ensures
            decoded(Self::spec_parse(buf@.skip(pos as int)), r, pos as int, buf@.len() as int),
    ;

    /// The number of bytes that the value at the front of `buf` takes.
    fn get_len(buf: &[u8]) -> (r: Result<usize, DecodeError>)
        requires
            !(Self::spec_parse(buf@) is Abort),
        ensures
            match Self::spec_parse(buf@) {
                Parsed::Done(_, n) => r == Ok::<usize, DecodeError>(n as usize),
                Parsed::Fail(e) => r == Err::<usize, DecodeError>(e),
                Parsed::Abort => false,
            },
    {
        proof {
            assert(buf@.skip(0) =~= buf@);
        }
        match Self::decode(buf, 0) {
            Ok((_, q)) => Ok(q),
            Err(e) => Err(e),
        }
    }
}

/// Types whose form is a type code of their own, a value flag and a partial form.
pub trait PartialEncode {
    /// The type code written in front of the value.
    spec fn spec_type_code() -> u8;

    /// The bytes of the value without type code and value flag.
    spec fn spec_partial_bytes(&self) -> Seq<u8>;

    /// The type code written in front of the value.
    fn type_code() -> (code: u8)
        ensures
            code == Self::spec_type_code(),
    ;

    /// Appends the partial form of the value.
    fn partial_encode(&self, out: &mut Vec<u8>)
        ensures
            final(out)@ == old(out)@ + self.spec_partial_bytes(),
    ;

    /// Appends a null of this type: its type code and the value flag 0x01.
    fn null_encode(out: &mut Vec<u8>)
        ensures
            final(out)@ == old(out)@ + seq![Self::spec_type_code(), 0x01u8],
    {
        let code = Self::type_code();
        out.push(code);
        out.push(0x01u8);
    }

    /// Appends a nullable value that is present: the value flag 0x00, then the partial form.
    fn nullable_encode(&self, out: &mut Vec<u8>)
        ensures
            final(out)@ == old(out)@ + seq![0x00u8] + self.spec_partial_bytes(),
    {
        out.push(0x00u8);
        self.partial_encode(out);
    }
}

/// Appends the fully qualified form of a value: its type code, the value flag 0x00 and its
/// partial form.
pub fn encode_fq<T: PartialEncode>(x: &T, out: &mut Vec<u8>)
    ensures
        final(out)@ == old(out)@ + fq_bytes(T::spec_type_code(), x.spec_partial_bytes()),
{
    let code = T::type_code();
    out.push(code);
    out.push(0x00u8);
    x.partial_encode(out);
    assert(out@ =~= old(out)@ + fq_bytes(T::spec_type_code(), x.spec_partial_bytes()));
}

/// Types read back from a partial form behind a type code of their own.
pub trait PartialDecode: Sized + DeepView {
    /// The type code expected in front of the value.
    spec fn spec_expected_type_code() -> u8;

    /// Reads the partial form of a value from the front of `s`.
    spec fn spec_parse_partial(s: Seq<u8>) -> Parsed<Self::V>;

    /// The type code expected in front of the value.
    fn expected_type_code() -> (code: u8)
        ensures
            code == Self::spec_expected_type_code(),
    ;

    /// Reads the partial form of a value at `pos`; returns it and the position after it.
    fn partial_decode(buf: &[u8], pos: usize) -> (r: Result<(Self, usize), DecodeError>)
        requires
            pos <= buf@.len(),
            !(Self::spec_parse_partial(buf@.skip(pos as int)) is Abort),
        ensures
            decoded(Self::spec_parse_partial(buf@.skip(pos as int)), r, pos as int, buf@.len() as int),
    ;

    /// The number of bytes that the partial form at the front of `buf` takes.
    fn get_partial_len(buf: &[u8]) -> (r: Result<usize, DecodeError>)
        requires
            !(Self::spec_parse_partial(buf@) is Abort),
        ensures
            match Self::spec_parse_partial(buf@) {
                Parsed::Done(_, n) => r == Ok::<usize, DecodeError>(n as usize),
                Parsed::Fail(e) => r == Err::<usize, DecodeError>(e),
                Parsed::Abort => false,
            },
    {
        proof {
            assert(buf@.skip(0) =~= buf@);
        }
        match Self::partial_decode(buf, 0) {
            Ok((_, q)) => Ok(q),
            Err(e) => Err(e),
        }
    }
}

/// Reads a fully qualified value of a type with a partial reader.
pub open spec fn parse_fq<T: PartialDecode>(s: Seq<u8>) -> Parsed<T::V> {
    parse_fq_with(s, T::spec_expected_type_code(), |t: Seq<u8>| T::spec_parse_partial(t))
}

/// Reads a fully qualified value at `pos`: the expected type code, the value flag 0x00, and
/// the partial form; any other code or flag is a `TypeMismatch`.
pub fn decode_fq<T: PartialDecode>(buf: &[u8], pos: usize) -> (r: Result<(T, usize), DecodeError>)
    requires
        pos <= buf@.len(),
        !(parse_fq::<T>(buf@.skip(pos as int)) is Abort),
    ensures
        decoded(parse_fq::<T>(buf@.skip(pos as int)), r, pos as int, buf@.len() as int),
{
    if buf.len() - pos < 2 {
        return Err(DecodeError::UnexpectedEof);
    }
    let code = buf[pos];
    let flag = buf[pos + 1];
    let expected = T::expected_type_code();
    if code == expected && flag == 0x00 {
        proof {
            assert(buf@.skip(pos as int).skip(2) =~= buf@.skip(pos + 2));
        }
        T::partial_decode(buf, pos + 2)
    } else {
        Err(DecodeError::TypeMismatch)
    }
}

/// Types whose readers give back what their writers wrote.
pub trait Codec: Encode + Decode {
    /// The values that are written so that they can be read back: lengths fit the format's
    /// 32-bit length prefixes, and the like.
    spec fn spec_wf(&self) -> bool;

    /// Reading a well-formed value's bytes, whatever bytes follow them, gives the value
    /// back and takes exactly its bytes.
    proof fn lemma_roundtrip(&self, rest: Seq<u8>)
        requires
            self.spec_wf(),
        ensures
            Self::spec_parse(self.spec_bytes() + rest) == Parsed::Done(
                self.deep_view(),
                self.spec_bytes().len() as int,
            ),
    ;
}

/// A partial form that reads back as its value gives a fully qualified form that does too.
pub proof fn lemma_fq_roundtrip<T: Encode + Decode + PartialEncode + PartialDecode>(
    x: &T,
    rest: Seq<u8>,
)
    requires
        T::spec_type_code() == T::spec_expected_type_code(),
        x.spec_bytes() == fq_bytes(T::spec_type_code(), x.spec_partial_bytes()),
        forall|s: Seq<u8>| #[trigger] T::spec_parse(s) == parse_fq::<T>(s),
        T::spec_parse_partial(x.spec_partial_bytes() + rest) == Parsed::Done(
            x.deep_view(),
            x.spec_partial_bytes().len() as int,
        ),
    ensures
        T::spec_parse(x.spec_bytes() + rest) == Parsed::Done(
            x.deep_view(),
            x.spec_bytes().len() as int,
        ),
{
    let p = x.spec_partial_bytes();
    let s = fq_bytes(T::spec_type_code(), p) + rest;
    assert(T::spec_parse(s) == parse_fq::<T>(s));
    assert(s.skip(2) =~= p + rest);
}

} // verus!
