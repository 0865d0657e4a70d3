use vstd::prelude::*;
use crate::binary::{be_i32, copy_bytes, decode_i32_at, lemma_parse_i32_prefix, parse_i32, push_bytes, push_i32};
use crate::codec::{decode_fq, encode_fq, fq_bytes, lemma_fq_roundtrip, parse_fq, Codec, Decode, Encode, Parsed, PartialDecode, PartialEncode};
use crate::collections::{list_partial_bytes, parse_list, partial_decode_list};
use crate::core_type::CoreType;
use crate::error::DecodeError;
use crate::primitives::{lemma_string_roundtrip, partial_decode_string, partial_encode_str, parse_string, string_partial_bytes, string_wf};

verus! {

// ---------------------------------------------------------------------------
// ByteBuffer
// ---------------------------------------------------------------------------

/// An opaque sequence of bytes.
#[derive(Debug, Clone, PartialEq, Eq, PartialOrd, Ord)]
pub struct ByteBuffer(pub(crate) Vec<u8>);

impl DeepView for ByteBuffer {
    type V = Seq<u8>;

    closed spec fn deep_view(&self) -> Seq<u8> {
        self.0@
    }
}

impl ByteBuffer {
    /// A buffer holding a copy of `buf`.
    pub fn new(buf: &[u8]) -> (r: ByteBuffer)
        ensures
            r.deep_view() == buf@,
    {
        ByteBuffer(copy_bytes(buf, 0, buf.len()))
    }

    /// The bytes held.
    pub fn bytes(&self) -> (r: &Vec<u8>)
        ensures
            r@ == self.deep_view(),
    {
        &self.0
    }

    /// The bytes held, to be changed in place.
    pub fn bytes_mut(&mut self) -> (r: &mut Vec<u8>)
        ensures
            r@ == old(self).deep_view(),
            final(self).deep_view() == final(r)@,
    {
        &mut self.0
    }

    /// The bytes held, as a slice.
    pub fn as_bytes(&self) -> (r: &[u8])
        ensures
            r@ == self.deep_view(),
    {
        self.0.as_slice()
    }
}

/// Reads a byte buffer: a 32-bit length, then that many bytes. A negative length is taken
/// as an allocation of nearly all the address space, which the reader cannot make.
#[verifier::opaque]
pub open spec fn parse_byte_buffer(s: Seq<u8>) -> Parsed<Seq<u8>> {
    match parse_i32(s) {
        Parsed::Done(len, _) => {
            if len < 0 {
                Parsed::Abort
            } else if s.len() - 4 < len {
                Parsed::Fail(DecodeError::UnexpectedEof)
            } else {
                Parsed::Done(s.subrange(4, 4 + len), 4 + len)
            }
        },
        Parsed::Fail(e) => Parsed::Fail(e),
        Parsed::Abort => Parsed::Abort,
    }
}


impl Encode for ByteBuffer {
    open spec fn spec_bytes(&self) -> Seq<u8> {
        fq_bytes(0x25u8, be_i32(self.deep_view().len() as i32) + self.deep_view())
    }

    fn encode(&self, out: &mut Vec<u8>) {
        encode_fq(self, out);
    }
}

impl PartialEncode for ByteBuffer {
    open spec fn spec_type_code() -> u8 {
        0x25u8
    }

    open spec fn spec_partial_bytes(&self) -> Seq<u8> {
        be_i32(self.deep_view().len() as i32) + self.deep_view()
    }

    fn type_code() -> (code: u8) {
        CoreType::ByteBuffer.code()
    }

    fn partial_encode(&self, out: &mut Vec<u8>) {
        let len = self.0.len() as i32;
        push_i32(out, len);
        push_bytes(out, self.0.as_slice());
        assert(out@ =~= old(out)@ + (be_i32(self.0@.len() as i32) + self.0@));
    }
}

impl Decode for ByteBuffer {
    open spec fn spec_parse(s: Seq<u8>) -> Parsed<Seq<u8>> {
        parse_fq::<ByteBuffer>(s)
    }

    fn decode(buf: &[u8], pos: usize) -> (r: Result<(ByteBuffer, usize), DecodeError>) {
        decode_fq(buf, pos)
    }
}

impl PartialDecode for ByteBuffer {
    open spec fn spec_expected_type_code() -> u8 {
        0x25u8
    }

    open spec fn spec_parse_partial(s: Seq<u8>) -> Parsed<Seq<u8>> {
        parse_byte_buffer(s)
    }

    fn expected_type_code() -> (code: u8) {
        CoreType::ByteBuffer.code()
    }

    fn partial_decode(buf: &[u8], pos: usize) -> (r: Result<(ByteBuffer, usize), DecodeError>) {
        proof {
            reveal(parse_byte_buffer);
        }
        let (len, p) = match decode_i32_at(buf, pos) {
            Ok(x) => x,
            Err(e) => return Err(e),
        };
        if buf.len() - p < len as usize {
            return Err(DecodeError::UnexpectedEof);
        }
        let bytes = copy_bytes(buf, p, len as usize);
        proof {
            assert(bytes@ =~= buf@.skip(pos as int).subrange(4, 4 + len));
        }
        Ok((ByteBuffer(bytes), p + len as usize))
    }
}

impl Codec for ByteBuffer {
    open spec fn spec_wf(&self) -> bool {
        self.deep_view().len() <= i32::MAX
    }

    proof fn lemma_roundtrip(&self, rest: Seq<u8>) {
        reveal(parse_byte_buffer);
        let b = self.0@;
        lemma_parse_i32_prefix(b.len() as i32, b + rest);
        assert(be_i32(b.len() as i32) + b + rest =~= be_i32(b.len() as i32) + (b + rest));
        assert((be_i32(b.len() as i32) + b + rest).subrange(4, 4 + b.len() as int) =~= b);
        lemma_fq_roundtrip(self, rest);
    }
}


// ---------------------------------------------------------------------------
// Lambda
// ---------------------------------------------------------------------------

/// A function written in a script language.
#[derive(Debug, Clone, PartialEq)]
pub struct Lambda {
    pub language: String,
    pub script: String,
    pub arguments_length: i32,
}

/// What a lambda holds, as texts and a number.
pub struct LambdaView {
    pub language: Seq<char>,
    pub script: Seq<char>,
    pub arguments_length: i32,
}

impl DeepView for Lambda {
    type V = LambdaView;

    open spec fn deep_view(&self) -> LambdaView {
        LambdaView {
            language: self.language@,
            script: self.script@,
            arguments_length: self.arguments_length,
        }
    }
}

impl Lambda {
    /// A Groovy lambda of one argument with the given script.
    pub fn new(script: &str) -> (r: Lambda)
        ensures
            r.language@ == "gremlin-groovy"@,
            r.script@ == script@,
            r.arguments_length == 1,
    {
        Lambda {
            language: "gremlin-groovy".to_string(),
            script: script.to_string(),
            arguments_length: 1,
        }
    }
}

/// The partial form of a lambda: its language, its script, its number of arguments.
pub open spec fn lambda_partial_bytes(v: LambdaView) -> Seq<u8> {
    string_partial_bytes(v.language) + string_partial_bytes(v.script) + be_i32(v.arguments_length)
}

/// Reads a lambda: two texts and a 32-bit integer.
pub open spec fn parse_lambda(s: Seq<u8>) -> Parsed<LambdaView> {
    match parse_string(s) {
        Parsed::Done(language, n1) => match parse_string(s.skip(n1)) {
            Parsed::Done(script, n2) => match parse_i32(s.skip(n1 + n2)) {
                Parsed::Done(arguments_length, n3) => Parsed::Done(
                    LambdaView { language, script, arguments_length },
                    n1 + n2 + n3,
                ),
                Parsed::Fail(e) => Parsed::Fail(e),
                Parsed::Abort => Parsed::Abort,
            },
            Parsed::Fail(e) => Parsed::Fail(e),
            Parsed::Abort => Parsed::Abort,
        },
        Parsed::Fail(e) => Parsed::Fail(e),
        Parsed::Abort => Parsed::Abort,
    }
}


impl Encode for Lambda {
    open spec fn spec_bytes(&self) -> Seq<u8> {
        fq_bytes(0x1du8, lambda_partial_bytes(self.deep_view()))
    }

    fn encode(&self, out: &mut Vec<u8>) {
        encode_fq(self, out);
    }
}

impl PartialEncode for Lambda {
    open spec fn spec_type_code() -> u8 {
        0x1du8
    }

    open spec fn spec_partial_bytes(&self) -> Seq<u8> {
        lambda_partial_bytes(self.deep_view())
    }

    fn type_code() -> (code: u8) {
        CoreType::Lambda.code()
    }

    fn partial_encode(&self, out: &mut Vec<u8>) {
        partial_encode_str(self.language.as_str(), out);
        partial_encode_str(self.script.as_str(), out);
        push_i32(out, self.arguments_length);
        assert(out@ =~= old(out)@ + lambda_partial_bytes(self.deep_view()));
    }
}

impl Decode for Lambda {
    open spec fn spec_parse(s: Seq<u8>) -> Parsed<LambdaView> {
        parse_fq::<Lambda>(s)
    }

    fn decode(buf: &[u8], pos: usize) -> (r: Result<(Lambda, usize), DecodeError>) {
        decode_fq(buf, pos)
    }
}

impl PartialDecode for Lambda {
    open spec fn spec_expected_type_code() -> u8 {
        0x1du8
    }

    open spec fn spec_parse_partial(s: Seq<u8>) -> Parsed<LambdaView> {
        parse_lambda(s)
    }

    fn expected_type_code() -> (code: u8) {
        CoreType::Lambda.code()
    }

    fn partial_decode(buf: &[u8], pos: usize) -> (r: Result<(Lambda, usize), DecodeError>) {
        let (language, p1) = match partial_decode_string(buf, pos) {
            Ok(x) => x,
            Err(e) => return Err(e),
        };
        proof {
            assert(buf@.skip(pos as int).skip(p1 - pos) =~= buf@.skip(p1 as int));
        }
        let (script, p2) = match partial_decode_string(buf, p1) {
            Ok(x) => x,
            Err(e) => return Err(e),
        };
        proof {
            assert(buf@.skip(pos as int).skip(p2 - pos) =~= buf@.skip(p2 as int));
        }
        let (arguments_length, p3) = match decode_i32_at(buf, p2) {
            Ok(x) => x,
            Err(e) => return Err(e),
        };
        Ok((Lambda { language, script, arguments_length }, p3))
    }
}

impl Codec for Lambda {
    open spec fn spec_wf(&self) -> bool {
        string_wf(self.language@) && string_wf(self.script@)
    }

    proof fn lemma_roundtrip(&self, rest: Seq<u8>) {
        let v = self.deep_view();
        let a = string_partial_bytes(v.language);
        let b = string_partial_bytes(v.script);
        let c = be_i32(v.arguments_length);
        let s = lambda_partial_bytes(v) + rest;
        assert(s =~= a + (b + c + rest));
        lemma_string_roundtrip(v.language, b + c + rest);
        assert(s.skip(a.len() as int) =~= b + (c + rest));
        lemma_string_roundtrip(v.script, c + rest);
        assert(s.skip((a.len() + b.len()) as int) =~= c + rest);
        lemma_parse_i32_prefix(v.arguments_length, rest);
        lemma_fq_roundtrip(self, rest);
    }
}


// ---------------------------------------------------------------------------
// Sets
// ---------------------------------------------------------------------------

/// A list of values read and written as a GraphBinary set.
#[derive(Debug, Clone, PartialEq)]
pub struct SetList<T>(pub Vec<T>);

impl<T: DeepView> DeepView for SetList<T> {
    type V = Seq<T::V>;

    open spec fn deep_view(&self) -> Seq<T::V> {
        self.0.deep_view()
    }
}

impl<T> SetList<T> {
    /// A set holding the values of `v`, in their order.
    pub fn new(v: Vec<T>) -> (r: SetList<T>)
        ensures
            r.0 == v,
    {
        SetList(v)
    }

    /// The values held.
    pub fn as_vec(&self) -> (r: &Vec<T>)
        ensures
            *r == self.0,
    {
        &self.0
    }
}

impl<T: Encode> Encode for SetList<T> {
    open spec fn spec_bytes(&self) -> Seq<u8> {
        fq_bytes(0x0bu8, list_partial_bytes(self.0@))
    }

    fn encode(&self, out: &mut Vec<u8>) {
        encode_fq(self, out);
    }
}

impl<T: Encode> PartialEncode for SetList<T> {
    open spec fn spec_type_code() -> u8 {
        0x0bu8
    }

    open spec fn spec_partial_bytes(&self) -> Seq<u8> {
        list_partial_bytes(self.0@)
    }

    fn type_code() -> (code: u8) {
        CoreType::SetType.code()
    }

    fn partial_encode(&self, out: &mut Vec<u8>) {
        self.0.partial_encode(out);
    }
}

impl<T: Decode> Decode for SetList<T> {
    open spec fn spec_parse(s: Seq<u8>) -> Parsed<Seq<T::V>> {
        parse_fq::<SetList<T>>(s)
    }

    fn decode(buf: &[u8], pos: usize) -> (r: Result<(SetList<T>, usize), DecodeError>) {
        decode_fq(buf, pos)
    }
}

impl<T: Decode> PartialDecode for SetList<T> {
    open spec fn spec_expected_type_code() -> u8 {
        0x0bu8
    }

    open spec fn spec_parse_partial(s: Seq<u8>) -> Parsed<Seq<T::V>> {
        parse_list::<T>(s)
    }

    fn expected_type_code() -> (code: u8) {
        CoreType::SetType.code()
    }

    fn partial_decode(buf: &[u8], pos: usize) -> (r: Result<(SetList<T>, usize), DecodeError>) {
        match partial_decode_list::<T>(buf, pos) {
            Ok((v, p)) => Ok((SetList(v), p)),
            Err(e) => Err(e),
        }
    }
}

} // verus!
