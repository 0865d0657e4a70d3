//! Integers and decimals of any size, held as the two's-complement bytes that GraphBinary
//! writes for them.

use vstd::prelude::*;
use crate::binary::{be_i32, decode_i32_at, lemma_parse_i32_prefix, parse_i32, push_bytes, push_i32};
use crate::codec::{
    decode_fq, encode_fq, fq_bytes, lemma_fq_roundtrip, parse_fq, Codec, Decode, Encode,
    Parsed, PartialDecode, PartialEncode,
};
use crate::core_type::CoreType;
use crate::error::DecodeError;
use crate::structure::{parse_byte_buffer, ByteBuffer};

verus! {

/// The number that big-endian bytes spell as an unsigned integer.
pub open spec fn unsigned_be(s: Seq<u8>) -> nat
    decreases s.len(),
{
    if s.len() == 0 {
        0
    } else {
        unsigned_be(s.drop_last()) * 256 + s.last() as nat
    }
}

/// 256 to the power `n`.
pub open spec fn pow256(n: nat) -> nat
    decreases n,
{
    if n == 0 {
        1
    } else {
        256 * pow256((n - 1) as nat)
    }
}

/// The number that big-endian bytes spell in two's complement: the top bit of the first byte
/// is the sign. No bytes spell 0.
pub open spec fn twos_value(s: Seq<u8>) -> int {
    if s.len() == 0 {
        0
    } else if s[0] >= 0x80u8 {
        unsigned_be(s) - pow256(s.len())
    } else {
        unsigned_be(s) as int
    }
}

/// Two's-complement bytes with no byte to spare: at least one byte, and no leading byte that
/// only repeats the sign of the next.
pub open spec fn is_minimal_twos(s: Seq<u8>) -> bool {
    &&& s.len() >= 1
    &&& !(s.len() >= 2 && s[0] == 0x00u8 && s[1] < 0x80u8)
    &&& !(s.len() >= 2 && s[0] == 0xffu8 && s[1] >= 0x80u8)
}

/// An integer of any size, held as its shortest two's-complement bytes, most significant
/// first (zero is the single byte 0).
#[derive(Debug, Clone, PartialEq, Eq)]
pub struct BigInteger {
    bytes: Vec<u8>,
}

impl DeepView for BigInteger {
    type V = int;

    closed spec fn deep_view(&self) -> int {
        twos_value(self.bytes@)
    }
}

/// `num::BigInt::from_signed_bytes_be`, with the result taken back out by
/// `BigInt::to_signed_bytes_be`. Claimed: the integer is the one that the bytes spell in
/// two's complement (no bytes give 0), and the bytes taken out are its shortest form, which
/// is what `to_signed_bytes_be` builds from the magnitude's bytes.
#[verifier::external_body]
fn big_int_from_signed_bytes_be(b: &[u8]) -> (r: BigInteger)
    ensures
        r.deep_view() == twos_value(b@),
        is_minimal_twos(r.spec_bytes()),
{
    BigInteger { bytes: num::BigInt::from_signed_bytes_be(b).to_signed_bytes_be() }
}

impl BigInteger {
    /// The shortest two's-complement bytes of the integer.
    pub closed spec fn spec_bytes(&self) -> Seq<u8> {
        self.bytes@
    }

    /// The integer that `b` spells in two's complement, most significant byte first; no
    /// bytes give 0.
    pub fn from_signed_bytes_be(b: &[u8]) -> (r: BigInteger)
        ensures
            r.deep_view() == twos_value(b@),
            is_minimal_twos(r.spec_bytes()),
    {
        big_int_from_signed_bytes_be(b)
    }

    /// The shortest two's-complement bytes of the integer, most significant first.
    pub fn to_signed_bytes_be(&self) -> (r: Vec<u8>)
        ensures
            r@ == self.spec_bytes(),
            twos_value(r@) == self.deep_view(),
    {
        let mut r: Vec<u8> = Vec::new();
        push_bytes(&mut r, self.bytes.as_slice());
        assert(r@ =~= self.bytes@);
        r
    }
}

/// The partial form of a big integer: the number of its bytes as a 32-bit integer, then the
/// bytes.
pub open spec fn big_integer_partial_bytes(b: Seq<u8>) -> Seq<u8> {
    be_i32(b.len() as i32) + b
}

/// Reads the partial form of a big integer: a byte buffer, whose bytes are read in two's
/// complement.
pub open spec fn parse_big_integer(s: Seq<u8>) -> Parsed<int> {
    match parse_byte_buffer(s) {
        Parsed::Done(b, n) => Parsed::Done(twos_value(b), n),
        Parsed::Fail(e) => Parsed::Fail(e),
        Parsed::Abort => Parsed::Abort,
    }
}

impl PartialEncode for BigInteger {
    open spec fn spec_type_code() -> u8 {
        0x23u8
    }

    open spec fn spec_partial_bytes(&self) -> Seq<u8> {
        big_integer_partial_bytes(self.spec_bytes())
    }

    fn type_code() -> (code: u8) {
        CoreType::BigInteger.code()
    }

    fn partial_encode(&self, out: &mut Vec<u8>) {
        let len = self.bytes.len() as i32;
        push_i32(out, len);
        push_bytes(out, self.bytes.as_slice());
        assert(out@ =~= old(out)@ + (be_i32(self.bytes@.len() as i32) + self.bytes@));
    }
}

impl Encode for BigInteger {
    open spec fn spec_bytes(&self) -> Seq<u8> {
        fq_bytes(0x23u8, big_integer_partial_bytes(self.spec_bytes()))
    }

    fn encode(&self, out: &mut Vec<u8>) {
        encode_fq(self, out);
    }
}

impl PartialDecode for BigInteger {
    open spec fn spec_expected_type_code() -> u8 {
        0x23u8
    }

    open spec fn spec_parse_partial(s: Seq<u8>) -> Parsed<int> {
        parse_big_integer(s)
    }

    fn expected_type_code() -> (code: u8) {
        CoreType::BigInteger.code()
    }

    fn partial_decode(buf: &[u8], pos: usize) -> (r: Result<(BigInteger, usize), DecodeError>) {
        match ByteBuffer::partial_decode(buf, pos) {
            Ok((b, p)) => Ok((big_int_from_signed_bytes_be(b.bytes().as_slice()), p)),
            Err(e) => Err(e),
        }
    }
}

impl Decode for BigInteger {
    open spec fn spec_parse(s: Seq<u8>) -> Parsed<int> {
        parse_fq::<BigInteger>(s)
    }

    fn decode(buf: &[u8], pos: usize) -> (r: Result<(BigInteger, usize), DecodeError>) {
        decode_fq(buf, pos)
    }
}

/// The bytes of a byte buffer, whatever bytes follow them, read back as that buffer.
proof fn lemma_byte_buffer_prefix(b: Seq<u8>, rest: Seq<u8>)
    requires
        b.len() <= i32::MAX,
    ensures
        parse_byte_buffer(big_integer_partial_bytes(b) + rest) == Parsed::Done(b, 4 + b.len() as int),
{
    reveal(parse_byte_buffer);
    lemma_parse_i32_prefix(b.len() as i32, b + rest);
    assert(be_i32(b.len() as i32) + b + rest =~= be_i32(b.len() as i32) + (b + rest));
    assert((be_i32(b.len() as i32) + b + rest).subrange(4, 4 + b.len() as int) =~= b);
}

impl Codec for BigInteger {
    open spec fn spec_wf(&self) -> bool {
        self.spec_bytes().len() <= i32::MAX
    }

    proof fn lemma_roundtrip(&self, rest: Seq<u8>) {
        lemma_byte_buffer_prefix(self.spec_bytes(), rest);
        lemma_fq_roundtrip(self, rest);
    }
}

/// A decimal of any size: an unscaled integer and a scale, the number of digits after the
/// decimal point (a negative scale stands for trailing zeros). Its value is the unscaled
/// integer times ten to the power of minus the scale.
#[derive(Debug, Clone, PartialEq, Eq)]
pub struct BigDecimal {
    pub int_val: BigInteger,
    pub scale: i64,
}

impl DeepView for BigDecimal {
    type V = (int, i64);

    open spec fn deep_view(&self) -> (int, i64) {
        (self.int_val.deep_view(), self.scale)
    }
}

impl BigDecimal {
    /// The decimal with unscaled integer `digits` and scale `scale`.
    pub fn new(digits: BigInteger, scale: i64) -> (r: BigDecimal)
        ensures
            r.int_val == digits,
            r.scale == scale,
    {
        BigDecimal { int_val: digits, scale }
    }
}

/// The partial form of a big decimal: its scale cut to a 32-bit integer, then the partial
/// form of its unscaled integer.
pub open spec fn big_decimal_partial_bytes(d: BigDecimal) -> Seq<u8> {
    be_i32(d.scale as i32) + big_integer_partial_bytes(d.int_val.spec_bytes())
}

/// Reads the partial form of a big decimal: a 32-bit scale, then a big integer.
pub open spec fn parse_big_decimal(s: Seq<u8>) -> Parsed<(int, i64)> {
    match parse_i32(s) {
        Parsed::Done(scale, _) => match parse_big_integer(s.skip(4)) {
            Parsed::Done(v, n) => Parsed::Done((v, scale as i64), 4 + n),
            Parsed::Fail(e) => Parsed::Fail(e),
            Parsed::Abort => Parsed::Abort,
        },
        Parsed::Fail(e) => Parsed::Fail(e),
        Parsed::Abort => Parsed::Abort,
    }
}

impl PartialEncode for BigDecimal {
    open spec fn spec_type_code() -> u8 {
        0x22u8
    }

    open spec fn spec_partial_bytes(&self) -> Seq<u8> {
        big_decimal_partial_bytes(*self)
    }

    fn type_code() -> (code: u8) {
        CoreType::BigDecimal.code()
    }

    fn partial_encode(&self, out: &mut Vec<u8>) {
        #[verifier::truncate]
        let scale = self.scale as i32;
        push_i32(out, scale);
        self.int_val.partial_encode(out);
        assert(out@ =~= old(out)@ + big_decimal_partial_bytes(*self));
    }
}

impl Encode for BigDecimal {
    open spec fn spec_bytes(&self) -> Seq<u8> {
        fq_bytes(0x22u8, big_decimal_partial_bytes(*self))
    }

    fn encode(&self, out: &mut Vec<u8>) {
        encode_fq(self, out);
    }
}

impl PartialDecode for BigDecimal {
    open spec fn spec_expected_type_code() -> u8 {
        0x22u8
    }

    open spec fn spec_parse_partial(s: Seq<u8>) -> Parsed<(int, i64)> {
        parse_big_decimal(s)
    }

    fn expected_type_code() -> (code: u8) {
        CoreType::BigDecimal.code()
    }

    fn partial_decode(buf: &[u8], pos: usize) -> (r: Result<(BigDecimal, usize), DecodeError>) {
        let (scale, p) = match decode_i32_at(buf, pos) {
            Ok(x) => x,
            Err(e) => return Err(e),
        };
        proof {
            assert(buf@.skip(pos as int).skip(4) =~= buf@.skip(p as int));
        }
        match BigInteger::partial_decode(buf, p) {
            Ok((v, q)) => Ok((BigDecimal { int_val: v, scale: scale as i64 }, q)),
            Err(e) => Err(e),
        }
    }
}

impl Decode for BigDecimal {
    open spec fn spec_parse(s: Seq<u8>) -> Parsed<(int, i64)> {
        parse_fq::<BigDecimal>(s)
    }

    fn decode(buf: &[u8], pos: usize) -> (r: Result<(BigDecimal, usize), DecodeError>) {
        decode_fq(buf, pos)
    }
}

impl Codec for BigDecimal {
    open spec fn spec_wf(&self) -> bool {
        &&& self.int_val.spec_wf()
        &&& i32::MIN <= self.scale <= i32::MAX
    }

    proof fn lemma_roundtrip(&self, rest: Seq<u8>) {
        let b = self.int_val.spec_bytes();
        lemma_byte_buffer_prefix(b, rest);
        lemma_parse_i32_prefix(self.scale as i32, big_integer_partial_bytes(b) + rest);
        let s = big_decimal_partial_bytes(*self) + rest;
        assert(s =~= be_i32(self.scale as i32) + (big_integer_partial_bytes(b) + rest));
        assert(s.skip(4) =~= big_integer_partial_bytes(b) + rest);
        lemma_fq_roundtrip(self, rest);
    }
}

} // verus!
