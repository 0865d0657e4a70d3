//! Values of types that the user of the library defines: written as a custom value, with
//! the name of the type, a description of it and the value's own bytes.

use vstd::prelude::*;
use crate::binary::{be_i32, lemma_parse_i32_prefix};
use crate::codec::{fq_bytes, shift, Parsed, PartialDecode, PartialEncode};
use crate::error::DecodeError;
use crate::primitives::{
    lemma_string_roundtrip, parse_string, partial_decode_string, partial_encode_str,
    string_partial_bytes, string_wf,
};
use crate::structure::{parse_byte_buffer, ByteBuffer};
use crate::value::read_as;

verus! {

/// A type of the user's own, written as a custom value: the name of the type, the bytes
/// that describe it and the bytes of the value. Nothing is stated of what an implementation
/// returns; the functions below state what they do with it.
pub trait Custom: Sized {
    /// The name of the type.
    fn custom_name() -> &'static str;

    /// The bytes that describe the type.
    fn custom_type_info() -> ByteBuffer;

    /// The bytes of the value.
    fn partial_encode(&self) -> ByteBuffer;

    /// The value that the bytes stand for.
    fn partial_decode(blob: ByteBuffer) -> Self;
}

/// The partial form of a custom value: the name of its type as a text, then the description
/// of the type and the bytes of the value, each as a byte buffer.
pub open spec fn custom_partial_bytes(name: Seq<char>, info: Seq<u8>, blob: Seq<u8>) -> Seq<u8> {
    string_partial_bytes(name) + ((be_i32(info.len() as i32) + info) + (be_i32(blob.len() as i32)
        + blob))
}

/// Appends the fully qualified bytes of a custom value from its parts: the type code 0x00,
/// the set flag, the name of the type, its description and the bytes of the value.
pub fn encode_custom_parts(name: &str, info: &ByteBuffer, blob: &ByteBuffer, out: &mut Vec<u8>)
    ensures
        final(out)@ == old(out)@ + fq_bytes(
            0x00u8,
            custom_partial_bytes(name@, info.deep_view(), blob.deep_view()),
        ),
{
    out.push(0x00u8);
    out.push(0x00u8);
    partial_encode_str(name, out);
    PartialEncode::partial_encode(info, out);
    PartialEncode::partial_encode(blob, out);
    assert(out@ =~= old(out)@ + fq_bytes(
        0x00u8,
        custom_partial_bytes(name@, info.deep_view(), blob.deep_view()),
    ));
}

/// Appends the fully qualified bytes of a custom value of type `X`: its parts as the type's
/// implementation gives them, written by `encode_custom_parts`.
pub fn encode_custom<X: Custom>(x: &X, out: &mut Vec<u8>)
    ensures
        exists|name: &'static str, info: ByteBuffer, blob: ByteBuffer|
            #![trigger call_ensures(X::custom_name, (), name), call_ensures(X::custom_type_info, (), info), call_ensures(X::partial_encode, (x,), blob)]
            call_ensures(X::custom_name, (), name) && call_ensures(X::custom_type_info, (), info)
                && call_ensures(X::partial_encode, (x,), blob) && final(out)@ == old(out)@
                + fq_bytes(0x00u8, custom_partial_bytes(name@, info.deep_view(), blob.deep_view())),
{
    let name = X::custom_name();
    let info = X::custom_type_info();
    let blob = Custom::partial_encode(x);
    encode_custom_parts(name, &info, &blob, out);
}

/// Reads the partial form of a custom value: the name of the type, its description and the
/// bytes of the value. The name and the description are read, not compared with those of
/// the type that is expected.
pub open spec fn parse_custom_partial(t: Seq<u8>) -> Parsed<(Seq<char>, Seq<u8>, Seq<u8>)> {
    match parse_string(t) {
        Parsed::Done(name, n1) => if 0 <= n1 <= t.len() {
            match parse_byte_buffer(t.skip(n1)) {
                Parsed::Done(info, n2) => if 0 <= n1 + n2 <= t.len() {
                    match parse_byte_buffer(t.skip(n1 + n2)) {
                        Parsed::Done(blob, n3) => Parsed::Done((name, info, blob), n1 + n2 + n3),
                        Parsed::Fail(e) => Parsed::Fail(e),
                        Parsed::Abort => Parsed::Abort,
                    }
                } else {
                    Parsed::Fail(DecodeError::UnexpectedEof)
                },
                Parsed::Fail(e) => Parsed::Fail(e),
                Parsed::Abort => Parsed::Abort,
            }
        } else {
            Parsed::Fail(DecodeError::UnexpectedEof)
        },
        Parsed::Fail(e) => Parsed::Fail(e),
        Parsed::Abort => Parsed::Abort,
    }
}

/// Reads a fully qualified custom value: the type code 0x00 and the set flag, else a
/// `TypeMismatch`, then the partial form.
pub open spec fn parse_custom(s: Seq<u8>) -> Parsed<(Seq<char>, Seq<u8>, Seq<u8>)> {
    if s.len() < 2 {
        Parsed::Fail(DecodeError::UnexpectedEof)
    } else if s[0] == 0x00u8 && s[1] == 0x00u8 {
        shift(parse_custom_partial(s.skip(2)), 2)
    } else {
        Parsed::Fail(DecodeError::TypeMismatch)
    }
}

/// Reads the partial form of a custom value at `pos`: the name of the type, its
/// description and the bytes of the value.
pub fn decode_custom_parts(buf: &[u8], pos: usize) -> (r: Result<((String, ByteBuffer, ByteBuffer), usize), DecodeError>)
    requires
        pos <= buf@.len(),
        !(parse_custom_partial(buf@.skip(pos as int)) is Abort),
    ensures
        read_as(
            parse_custom_partial(buf@.skip(pos as int)),
            r,
            pos as int,
            buf@.len() as int,
            |x: (String, ByteBuffer, ByteBuffer)| (x.0@, x.1.deep_view(), x.2.deep_view()),
        ),
{
    let ghost t = buf@.skip(pos as int);
    let (name, q1) = match partial_decode_string(buf, pos) {
        Ok(x) => x,
        Err(e) => return Err(e),
    };
    proof {
        assert(t.skip(q1 - pos) =~= buf@.skip(q1 as int));
    }
    let (info, q2) = match ByteBuffer::partial_decode(buf, q1) {
        Ok(x) => x,
        Err(e) => return Err(e),
    };
    proof {
        assert(t.skip(q2 - pos) =~= buf@.skip(q2 as int));
    }
    let (blob, q3) = match ByteBuffer::partial_decode(buf, q2) {
        Ok(x) => x,
        Err(e) => return Err(e),
    };
    Ok(((name, info, blob), q3))
}

/// Reads a fully qualified custom value of type `X` at `pos`: on success, the value that the
/// type's implementation makes of the bytes read, and the position after them.
pub fn decode_custom<X: Custom>(buf: &[u8], pos: usize) -> (r: Result<(X, usize), DecodeError>)
    requires
        pos <= buf@.len(),
        !(parse_custom(buf@.skip(pos as int)) is Abort),
    ensures
        match parse_custom(buf@.skip(pos as int)) {
            Parsed::Done(_, n) => r matches Ok((_, q)) && q == pos + n,
            Parsed::Fail(e) => r == Err::<(X, usize), DecodeError>(e),
            Parsed::Abort => false,
        },
        r matches Ok((x, _)) ==> exists|b: ByteBuffer|
            #[trigger] b.deep_view() == parse_custom(buf@.skip(pos as int))->Done_0.2
                && call_ensures(X::partial_decode, (b,), x),
{
    if buf.len() - pos < 2 {
        return Err(DecodeError::UnexpectedEof);
    }
    if buf[pos] == 0x00u8 && buf[pos + 1] == 0x00u8 {
        proof {
            assert(buf@.skip(pos as int).skip(2) =~= buf@.skip(pos + 2));
        }
        match decode_custom_parts(buf, pos + 2) {
            Ok(((_name, _info, blob), q)) => Ok((X::partial_decode(blob), q)),
            Err(e) => Err(e),
        }
    } else {
        Err(DecodeError::TypeMismatch)
    }
}

/// A byte buffer's partial form, whatever follows it, reads back as its bytes.
proof fn lemma_byte_buffer_prefix(b: Seq<u8>, rest: Seq<u8>)
    requires
        b.len() <= i32::MAX,
    ensures
        parse_byte_buffer((be_i32(b.len() as i32) + b) + rest) == Parsed::Done(b, 4 + b.len() as int),
{
    reveal(parse_byte_buffer);
    let s = (be_i32(b.len() as i32) + b) + rest;
    assert(s =~= be_i32(b.len() as i32) + (b + rest));
    lemma_parse_i32_prefix(b.len() as i32, b + rest);
    assert(s.subrange(4, 4 + b.len() as int) =~= b);
}

/// Reading the bytes of a custom value, whatever bytes follow them, gives back the name of
/// the type, its description and the bytes of the value, where the name and both byte
/// sequences fit their 32-bit lengths.
pub proof fn lemma_custom_roundtrip(name: Seq<char>, info: Seq<u8>, blob: Seq<u8>, rest: Seq<u8>)
    requires
        string_wf(name),
        info.len() <= i32::MAX,
        blob.len() <= i32::MAX,
    ensures
        parse_custom(fq_bytes(0x00u8, custom_partial_bytes(name, info, blob)) + rest)
            == Parsed::Done(
            (name, info, blob),
            fq_bytes(0x00u8, custom_partial_bytes(name, info, blob)).len() as int,
        ),
{
    let sn = string_partial_bytes(name);
    let bi = be_i32(info.len() as i32) + info;
    let bb = be_i32(blob.len() as i32) + blob;
    let s = fq_bytes(0x00u8, custom_partial_bytes(name, info, blob)) + rest;
    let t = s.skip(2);
    assert(t =~= sn + (bi + (bb + rest)));
    lemma_string_roundtrip(name, bi + (bb + rest));
    assert(t.skip(sn.len() as int) =~= bi + (bb + rest));
    lemma_byte_buffer_prefix(info, bb + rest);
    assert(t.skip((sn.len() + bi.len()) as int) =~= bb + rest);
    lemma_byte_buffer_prefix(blob, rest);
}

} // verus!
