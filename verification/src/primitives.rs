use vstd::prelude::*;
use vstd::utf8::{
    char_u32_cast,
    decode_utf8, encode_scalar, encode_utf8, encode_utf8_decode_utf8, encode_utf8_valid_utf8,
    valid_utf8, char_is_scalar, has_width_1_encoding, has_width_2_encoding, has_width_3_encoding,
    has_width_4_encoding,
};
use crate::binary::{
    be_u128, lemma_u128_bytes, u128_of,
    be_i16, be_i32, be_i64, copy_bytes, decode_i32_at, decode_i64_at, lemma_parse_i16_prefix,
    lemma_parse_i32_prefix, lemma_parse_i64_prefix, parse_i16, parse_i32, parse_i64, parse_u8,
    push_bytes, push_i32, push_i64, push_u16, read_u16,
};
use crate::codec::{
    decode_fq, decoded, encode_fq, fq_bytes, lemma_fq_roundtrip, parse_fq, Codec, Decode, Encode,
    Parsed, PartialDecode, PartialEncode,
};
use crate::core_type::CoreType;
use crate::error::DecodeError;

verus! {

/// `String::from_utf8`: the text whose UTF-8 bytes are `bytes`, or nothing where the bytes
/// are not UTF-8.
#[verifier::external_body]
pub(crate) fn string_from_utf8(bytes: Vec<u8>) -> (r: Option<String>)
    ensures
        r is Some <==> valid_utf8(bytes@),
        r matches Some(s) ==> s@ == decode_utf8(bytes@),
{
    String::from_utf8(bytes).ok()
}

// Byte

impl Encode for u8 {
    open spec fn spec_bytes(&self) -> Seq<u8> {
        fq_bytes(0x24u8, seq![*self])
    }

    fn encode(&self, out: &mut Vec<u8>) {
        encode_fq(self, out);
    }
}

impl PartialEncode for u8 {
    open spec fn spec_type_code() -> u8 {
        0x24u8
    }

    open spec fn spec_partial_bytes(&self) -> Seq<u8> {
        seq![*self]
    }

    fn type_code() -> (code: u8) {
        CoreType::Byte.code()
    }

    fn partial_encode(&self, out: &mut Vec<u8>) {
        out.push(*self);
    }
}

impl Decode for u8 {
    open spec fn spec_parse(s: Seq<u8>) -> Parsed<u8> {
        parse_fq::<u8>(s)
    }

    fn decode(buf: &[u8], pos: usize) -> (r: Result<(u8, usize), DecodeError>) {
        decode_fq(buf, pos)
    }
}

impl PartialDecode for u8 {
    open spec fn spec_expected_type_code() -> u8 {
        0x24u8
    }

    open spec fn spec_parse_partial(s: Seq<u8>) -> Parsed<u8> {
        parse_u8(s)
    }

    fn expected_type_code() -> (code: u8) {
        CoreType::Byte.code()
    }

    fn partial_decode(buf: &[u8], pos: usize) -> (r: Result<(u8, usize), DecodeError>) {
        if pos < buf.len() {
            Ok((buf[pos], pos + 1))
        } else {
            Err(DecodeError::UnexpectedEof)
        }
    }
}

impl Codec for u8 {
    open spec fn spec_wf(&self) -> bool {
        true
    }

    proof fn lemma_roundtrip(&self, rest: Seq<u8>) {

        lemma_fq_roundtrip(self, rest);
    }
}

// Short

impl Encode for i16 {
    open spec fn spec_bytes(&self) -> Seq<u8> {
        fq_bytes(0x26u8, be_i16(*self))
    }

    fn encode(&self, out: &mut Vec<u8>) {
        encode_fq(self, out);
    }
}

impl PartialEncode for i16 {
    open spec fn spec_type_code() -> u8 {
        0x26u8
    }

    open spec fn spec_partial_bytes(&self) -> Seq<u8> {
        be_i16(*self)
    }

    fn type_code() -> (code: u8) {
        CoreType::Short.code()
    }

    fn partial_encode(&self, out: &mut Vec<u8>) {
        push_u16(out, *self as u16);
    }
}

impl Decode for i16 {
    open spec fn spec_parse(s: Seq<u8>) -> Parsed<i16> {
        parse_fq::<i16>(s)
    }

    fn decode(buf: &[u8], pos: usize) -> (r: Result<(i16, usize), DecodeError>) {
        decode_fq(buf, pos)
    }
}

impl PartialDecode for i16 {
    open spec fn spec_expected_type_code() -> u8 {
        0x26u8
    }

    open spec fn spec_parse_partial(s: Seq<u8>) -> Parsed<i16> {
        parse_i16(s)
    }

    fn expected_type_code() -> (code: u8) {
        CoreType::Short.code()
    }

    fn partial_decode(buf: &[u8], pos: usize) -> (r: Result<(i16, usize), DecodeError>) {
        if buf.len() - pos < 2 {
            Err(DecodeError::UnexpectedEof)
        } else {
            Ok((read_u16(buf, pos) as i16, pos + 2))
        }
    }
}

impl Codec for i16 {
    open spec fn spec_wf(&self) -> bool {
        true
    }

    proof fn lemma_roundtrip(&self, rest: Seq<u8>) {
        lemma_parse_i16_prefix(*self, rest);
        lemma_fq_roundtrip(self, rest);
    }
}

// Int

impl Encode for i32 {
    open spec fn spec_bytes(&self) -> Seq<u8> {
        fq_bytes(0x01u8, be_i32(*self))
    }

    fn encode(&self, out: &mut Vec<u8>) {
        encode_fq(self, out);
    }
}

impl PartialEncode for i32 {
    open spec fn spec_type_code() -> u8 {
        0x01u8
    }

    open spec fn spec_partial_bytes(&self) -> Seq<u8> {
        be_i32(*self)
    }

    fn type_code() -> (code: u8) {
        CoreType::Int32.code()
    }

    fn partial_encode(&self, out: &mut Vec<u8>) {
        push_i32(out, *self);
    }
}

impl Decode for i32 {
    open spec fn spec_parse(s: Seq<u8>) -> Parsed<i32> {
        parse_fq::<i32>(s)
    }

    fn decode(buf: &[u8], pos: usize) -> (r: Result<(i32, usize), DecodeError>) {
        decode_fq(buf, pos)
    }
}

impl PartialDecode for i32 {
    open spec fn spec_expected_type_code() -> u8 {
        0x01u8
    }

    open spec fn spec_parse_partial(s: Seq<u8>) -> Parsed<i32> {
        parse_i32(s)
    }

    fn expected_type_code() -> (code: u8) {
        CoreType::Int32.code()
    }

    fn partial_decode(buf: &[u8], pos: usize) -> (r: Result<(i32, usize), DecodeError>) {
        decode_i32_at(buf, pos)
    }
}

impl Codec for i32 {
    open spec fn spec_wf(&self) -> bool {
        true
    }

    proof fn lemma_roundtrip(&self, rest: Seq<u8>) {
        lemma_parse_i32_prefix(*self, rest);
        lemma_fq_roundtrip(self, rest);
    }
}

// Long

impl Encode for i64 {
    open spec fn spec_bytes(&self) -> Seq<u8> {
        fq_bytes(0x02u8, be_i64(*self))
    }

    fn encode(&self, out: &mut Vec<u8>) {
        encode_fq(self, out);
    }
}

impl PartialEncode for i64 {
    open spec fn spec_type_code() -> u8 {
        0x02u8
    }

    open spec fn spec_partial_bytes(&self) -> Seq<u8> {
        be_i64(*self)
    }

    fn type_code() -> (code: u8) {
        CoreType::Long.code()
    }

    fn partial_encode(&self, out: &mut Vec<u8>) {
        push_i64(out, *self);
    }
}

impl Decode for i64 {
    open spec fn spec_parse(s: Seq<u8>) -> Parsed<i64> {
        parse_fq::<i64>(s)
    }

    fn decode(buf: &[u8], pos: usize) -> (r: Result<(i64, usize), DecodeError>) {
        decode_fq(buf, pos)
    }
}

impl PartialDecode for i64 {
    open spec fn spec_expected_type_code() -> u8 {
        0x02u8
    }

    open spec fn spec_parse_partial(s: Seq<u8>) -> Parsed<i64> {
        parse_i64(s)
    }

    fn expected_type_code() -> (code: u8) {
        CoreType::Long.code()
    }

    fn partial_decode(buf: &[u8], pos: usize) -> (r: Result<(i64, usize), DecodeError>) {
        decode_i64_at(buf, pos)
    }
}

impl Codec for i64 {
    open spec fn spec_wf(&self) -> bool {
        true
    }

    proof fn lemma_roundtrip(&self, rest: Seq<u8>) {
        lemma_parse_i64_prefix(*self, rest);
        lemma_fq_roundtrip(self, rest);
    }
}

/// The byte that stands for a boolean: 0x00 for `true`, 0x01 for `false`.
pub open spec fn bool_byte(b: bool) -> u8 {
    if b {
        0x00
    } else {
        0x01
    }
}

/// Reads a boolean: 0x00 is `true`, 0x01 is `false`, any other byte is `InvalidValue`.
pub open spec fn parse_bool(s: Seq<u8>) -> Parsed<bool> {
    if s.len() < 1 {
        Parsed::Fail(DecodeError::UnexpectedEof)
    } else if s[0] == 0x00u8 {
        Parsed::Done(true, 1)
    } else if s[0] == 0x01u8 {
        Parsed::Done(false, 1)
    } else {
        Parsed::Fail(DecodeError::InvalidValue)
    }
}

// Boolean

impl Encode for bool {
    open spec fn spec_bytes(&self) -> Seq<u8> {
        fq_bytes(0x27u8, seq![bool_byte(*self)])
    }

    fn encode(&self, out: &mut Vec<u8>) {
        encode_fq(self, out);
    }
}

impl PartialEncode for bool {
    open spec fn spec_type_code() -> u8 {
        0x27u8
    }

    open spec fn spec_partial_bytes(&self) -> Seq<u8> {
        seq![bool_byte(*self)]
    }

    fn type_code() -> (code: u8) {
        CoreType::Boolean.code()
    }

    fn partial_encode(&self, out: &mut Vec<u8>) {
        let b: u8 = if *self {
            0x00
        } else {
            0x01
        };
        out.push(b);
    }
}

impl Decode for bool {
    open spec fn spec_parse(s: Seq<u8>) -> Parsed<bool> {
        parse_fq::<bool>(s)
    }

    fn decode(buf: &[u8], pos: usize) -> (r: Result<(bool, usize), DecodeError>) {
        decode_fq(buf, pos)
    }
}

impl PartialDecode for bool {
    open spec fn spec_expected_type_code() -> u8 {
        0x27u8
    }

    open spec fn spec_parse_partial(s: Seq<u8>) -> Parsed<bool> {
        parse_bool(s)
    }

    fn expected_type_code() -> (code: u8) {
        CoreType::Boolean.code()
    }

    fn partial_decode(buf: &[u8], pos: usize) -> (r: Result<(bool, usize), DecodeError>) {
        if pos >= buf.len() {
            Err(DecodeError::UnexpectedEof)
        } else if buf[pos] == 0x00 {
            Ok((true, pos + 1))
        } else if buf[pos] == 0x01 {
            Ok((false, pos + 1))
        } else {
            Err(DecodeError::InvalidValue)
        }
    }
}

impl Codec for bool {
    open spec fn spec_wf(&self) -> bool {
        true
    }

    proof fn lemma_roundtrip(&self, rest: Seq<u8>) {

        lemma_fq_roundtrip(self, rest);
    }
}

// ---------------------------------------------------------------------------
// String
// ---------------------------------------------------------------------------

/// The partial form of a text: its UTF-8 byte length as a 32-bit integer, then the bytes.
pub open spec fn string_partial_bytes(cs: Seq<char>) -> Seq<u8> {
    be_i32(encode_utf8(cs).len() as i32) + encode_utf8(cs)
}

/// Texts whose UTF-8 byte length fits the 32-bit length prefix.
pub open spec fn string_wf(cs: Seq<char>) -> bool {
    encode_utf8(cs).len() <= i32::MAX
}

/// Reads a text: a 32-bit length, then that many bytes of UTF-8. A negative length is
/// `NegativeLength`; the bytes that are there are checked for UTF-8 before their number.
pub open spec fn parse_string(s: Seq<u8>) -> Parsed<Seq<char>> {
    match parse_i32(s) {
        Parsed::Done(len, _) => {
            if len < 0 {
                Parsed::Fail(DecodeError::NegativeLength)
            } else {
                let avail = if len <= s.len() - 4 {
                    len as int
                } else {
                    s.len() - 4
                };
                let b = s.subrange(4, 4 + avail);
                if !valid_utf8(b) {
                    Parsed::Fail(DecodeError::InvalidUtf8)
                } else if avail < len {
                    Parsed::Fail(DecodeError::UnexpectedEof)
                } else {
                    Parsed::Done(decode_utf8(b), 4 + len)
                }
            }
        },
        Parsed::Fail(e) => Parsed::Fail(e),
        Parsed::Abort => Parsed::Abort,
    }
}

/// Appends the partial form of a text.
pub fn partial_encode_str(s: &str, out: &mut Vec<u8>)
    ensures
        final(out)@ == old(out)@ + string_partial_bytes(s@),
{
    let bytes = s.as_bytes();
    let len = bytes.len() as i32;
    push_i32(out, len);
    push_bytes(out, bytes);
    assert(out@ =~= old(out)@ + string_partial_bytes(s@));
}

/// Reads the partial form of a text at `pos`.
pub fn partial_decode_string(buf: &[u8], pos: usize) -> (r: Result<(String, usize), DecodeError>)
    requires
        pos <= buf@.len(),
    ensures
        decoded(parse_string(buf@.skip(pos as int)), r, pos as int, buf@.len() as int),
{
    let (len, p) = match decode_i32_at(buf, pos) {
        Ok(x) => x,
        Err(e) => return Err(e),
    };
    if len < 0 {
        return Err(DecodeError::NegativeLength);
    }
    let remaining = buf.len() - p;
    let wanted = len as usize;
    let avail = if wanted <= remaining {
        wanted
    } else {
        remaining
    };
    let bytes = copy_bytes(buf, p, avail);
    proof {
        assert(bytes@ =~= buf@.skip(pos as int).subrange(4, 4 + avail));
    }
    match string_from_utf8(bytes) {
        None => Err(DecodeError::InvalidUtf8),
        Some(s) => {
            if avail < wanted {
                Err(DecodeError::UnexpectedEof)
            } else {
                Ok((s, p + avail))
            }
        },
    }
}

/// A text's partial form, whatever follows it, reads back as the text.
pub proof fn lemma_string_roundtrip(cs: Seq<char>, rest: Seq<u8>)
    requires
        string_wf(cs),
    ensures
        parse_string(string_partial_bytes(cs) + rest) == Parsed::Done(
            cs,
            string_partial_bytes(cs).len() as int,
        ),
{
    let e = encode_utf8(cs);
    let len = e.len() as i32;
    let s = string_partial_bytes(cs) + rest;
    lemma_parse_i32_prefix(len, e + rest);
    assert(s =~= be_i32(len) + (e + rest));
    assert(s.subrange(4, 4 + e.len() as int) =~= e);
    encode_utf8_valid_utf8(cs);
    encode_utf8_decode_utf8(cs);
}


impl Encode for String {
    open spec fn spec_bytes(&self) -> Seq<u8> {
        fq_bytes(0x03u8, string_partial_bytes(self@))
    }

    fn encode(&self, out: &mut Vec<u8>) {
        encode_fq(self, out);
    }
}

impl PartialEncode for String {
    open spec fn spec_type_code() -> u8 {
        0x03u8
    }

    open spec fn spec_partial_bytes(&self) -> Seq<u8> {
        string_partial_bytes(self@)
    }

    fn type_code() -> (code: u8) {
        CoreType::String.code()
    }

    fn partial_encode(&self, out: &mut Vec<u8>) {
        partial_encode_str(self.as_str(), out);
    }
}

impl Decode for String {
    open spec fn spec_parse(s: Seq<u8>) -> Parsed<Seq<char>> {
        parse_fq::<String>(s)
    }

    fn decode(buf: &[u8], pos: usize) -> (r: Result<(String, usize), DecodeError>) {
        decode_fq(buf, pos)
    }
}

impl PartialDecode for String {
    open spec fn spec_expected_type_code() -> u8 {
        0x03u8
    }

    open spec fn spec_parse_partial(s: Seq<u8>) -> Parsed<Seq<char>> {
        parse_string(s)
    }

    fn expected_type_code() -> (code: u8) {
        CoreType::String.code()
    }

    fn partial_decode(buf: &[u8], pos: usize) -> (r: Result<(String, usize), DecodeError>) {
        partial_decode_string(buf, pos)
    }
}

impl Codec for String {
    open spec fn spec_wf(&self) -> bool {
        string_wf(self@)
    }

    proof fn lemma_roundtrip(&self, rest: Seq<u8>) {
        lemma_string_roundtrip(self@, rest);
        lemma_fq_roundtrip(self, rest);
    }
}

// ---------------------------------------------------------------------------
// UUID
// ---------------------------------------------------------------------------

/// `uuid::Uuid::from_u128(v).as_bytes()`: the sixteen bytes of the identifier `v`, most
/// significant first (`from_u128` takes `v` big-endian, `as_bytes` gives the bytes held).
#[verifier::external_body]
fn uuid_bytes(v: u128) -> (r: Vec<u8>)
    ensures
        r@ == be_u128(v),
{
    uuid::Uuid::from_u128(v).as_bytes().to_vec()
}

/// `uuid::Uuid::from_slice(b)` read back with `as_u128`: the identifier whose sixteen bytes,
/// most significant first, are `b`; nothing where `b` does not have sixteen bytes.
#[verifier::external_body]
fn uuid_from_slice(b: &[u8]) -> (r: Option<u128>)
    ensures
        r is Some <==> b@.len() == 16,
        r matches Some(v) ==> v == u128_of(b@),
{
    uuid::Uuid::from_slice(b).ok().map(|u| u.as_u128())
}

/// Reads a 128-bit identifier, most significant byte first.
pub open spec fn parse_uuid(s: Seq<u8>) -> Parsed<u128> {
    if s.len() < 16 {
        Parsed::Fail(DecodeError::UnexpectedEof)
    } else {
        Parsed::Done(u128_of(s), 16)
    }
}

impl Encode for u128 {
    open spec fn spec_bytes(&self) -> Seq<u8> {
        fq_bytes(0x0cu8, be_u128(*self))
    }

    fn encode(&self, out: &mut Vec<u8>) {
        encode_fq(self, out);
    }
}

impl PartialEncode for u128 {
    open spec fn spec_type_code() -> u8 {
        0x0cu8
    }

    open spec fn spec_partial_bytes(&self) -> Seq<u8> {
        be_u128(*self)
    }

    fn type_code() -> (code: u8) {
        CoreType::Uuid.code()
    }

    fn partial_encode(&self, out: &mut Vec<u8>) {
        let bytes = uuid_bytes(*self);
        push_bytes(out, bytes.as_slice());
    }
}

impl Decode for u128 {
    open spec fn spec_parse(s: Seq<u8>) -> Parsed<u128> {
        parse_fq::<u128>(s)
    }

    fn decode(buf: &[u8], pos: usize) -> (r: Result<(u128, usize), DecodeError>) {
        decode_fq(buf, pos)
    }
}

impl PartialDecode for u128 {
    open spec fn spec_expected_type_code() -> u8 {
        0x0cu8
    }

    open spec fn spec_parse_partial(s: Seq<u8>) -> Parsed<u128> {
        parse_uuid(s)
    }

    fn expected_type_code() -> (code: u8) {
        CoreType::Uuid.code()
    }

    fn partial_decode(buf: &[u8], pos: usize) -> (r: Result<(u128, usize), DecodeError>) {
        if buf.len() - pos < 16 {
            return Err(DecodeError::UnexpectedEof);
        }
        let bytes = copy_bytes(buf, pos, 16);
        match uuid_from_slice(bytes.as_slice()) {
            Some(v) => {
                proof {
                    assert(bytes@ =~= buf@.skip(pos as int).take(16));
                    assert(u128_of(bytes@) == u128_of(buf@.skip(pos as int)));
                }
                Ok((v, pos + 16))
            },
            None => Err(DecodeError::UnexpectedEof),
        }
    }
}

impl Codec for u128 {
    open spec fn spec_wf(&self) -> bool {
        true
    }

    proof fn lemma_roundtrip(&self, rest: Seq<u8>) {
        lemma_u128_bytes(*self);
        assert(u128_of(be_u128(*self) + rest) == u128_of(be_u128(*self)));
        lemma_fq_roundtrip(self, rest);
    }
}

// ---------------------------------------------------------------------------
// Char
// ---------------------------------------------------------------------------

/// The number of UTF-8 bytes announced by a leading byte; 0 for a byte that leads nothing.
pub open spec fn utf8_width(b: u8) -> int {
    if b < 0x80u8 {
        1
    } else if 0xC0u8 <= b < 0xE0u8 {
        2
    } else if 0xE0u8 <= b < 0xF0u8 {
        3
    } else if 0xF0u8 <= b < 0xF8u8 {
        4
    } else {
        0
    }
}

/// Reads one character in UTF-8: the leading byte tells the width; a byte that leads
/// nothing, or bytes that are not UTF-8, are `InvalidUtf8`.
pub open spec fn parse_char(s: Seq<u8>) -> Parsed<char> {
    if s.len() < 1 {
        Parsed::Fail(DecodeError::UnexpectedEof)
    } else {
        let w = utf8_width(s[0]);
        if w == 0 {
            Parsed::Fail(DecodeError::InvalidUtf8)
        } else if w == 1 {
            Parsed::Done(s[0] as char, 1)
        } else if s.len() < w {
            Parsed::Fail(DecodeError::UnexpectedEof)
        } else if valid_utf8(s.take(w)) {
            Parsed::Done(decode_utf8(s.take(w))[0], w)
        } else {
            Parsed::Fail(DecodeError::InvalidUtf8)
        }
    }
}

/// Appends the UTF-8 bytes of a character.
pub fn push_char_utf8(out: &mut Vec<u8>, c: char)
    ensures
        final(out)@ == old(out)@ + encode_scalar(c as u32),
{
    let v = c as u32;
    if v <= 0x7F {
        out.push((v & 0x7F) as u8);
    } else if v <= 0x7FF {
        out.push(0xC0u8 | ((v >> 6u32) & 0x1F) as u8);
        out.push(0x80u8 | (v & 0x3F) as u8);
    } else if v <= 0xFFFF {
        out.push(0xE0u8 | ((v >> 12u32) & 0x0F) as u8);
        out.push(0x80u8 | ((v >> 6u32) & 0x3F) as u8);
        out.push(0x80u8 | (v & 0x3F) as u8);
    } else {
        out.push(0xF0u8 | ((v >> 18u32) & 0x7) as u8);
        out.push(0x80u8 | ((v >> 12u32) & 0x3F) as u8);
        out.push(0x80u8 | ((v >> 6u32) & 0x3F) as u8);
        out.push(0x80u8 | (v & 0x3F) as u8);
    }
    proof {
        char_is_scalar(c);
    }
    assert(out@ =~= old(out)@ + encode_scalar(c as u32));
}

/// A leading byte of the UTF-8 form of a scalar announces that form's width.
proof fn lemma_utf8_width(v: u32)
    requires
        has_width_1_encoding(v) || has_width_2_encoding(v) || has_width_3_encoding(v)
            || has_width_4_encoding(v),
    ensures
        utf8_width(encode_scalar(v)[0]) == encode_scalar(v).len(),
{
    if has_width_1_encoding(v) {
        assert(((v & 0x7F) as u8) < 0x80u8) by (bit_vector);
    } else if has_width_2_encoding(v) {
        assert(0xC0u8 <= (0xC0u8 | ((v >> 6u32) & 0x1F) as u8) < 0xE0u8) by (bit_vector);
    } else if has_width_3_encoding(v) {
        assert(0xE0u8 <= (0xE0u8 | ((v >> 12u32) & 0x0F) as u8) < 0xF0u8) by (bit_vector);
    } else {
        assert(0xF0u8 <= (0xF0u8 | ((v >> 18u32) & 0x7) as u8) < 0xF8u8) by (bit_vector);
    }
}

/// A character's UTF-8 form, whatever follows it, reads back as the character.
pub proof fn lemma_char_roundtrip(c: char, rest: Seq<u8>)
    ensures
        parse_char(encode_scalar(c as u32) + rest) == Parsed::Done(
            c,
            encode_scalar(c as u32).len() as int,
        ),
{
    let v = c as u32;
    char_is_scalar(c);
    let e = encode_scalar(v);
    let s = e + rest;
    lemma_utf8_width(v);
    assert(encode_utf8(seq![c]) =~= e) by {
        assert(seq![c].drop_first() =~= Seq::<char>::empty());
        reveal_with_fuel(encode_utf8, 2);
    }
    if has_width_1_encoding(v) {
        let b = (v & 0x7F) as u8;
        assert(b as u32 == v) by (bit_vector)
            requires
                v <= 0x7F,
                b == (v & 0x7F) as u8,
        ;
        char_u32_cast(c, v);
    } else {
        assert(s.take(e.len() as int) =~= e);
        encode_utf8_valid_utf8(seq![c]);
        encode_utf8_decode_utf8(seq![c]);
    }
}

/// A valid nonempty UTF-8 text decodes to at least one character.
proof fn lemma_decode_nonempty(b: Seq<u8>)
    requires
        valid_utf8(b),
        b.len() > 0,
    ensures
        decode_utf8(b).len() > 0,
{
}

impl Encode for char {
    open spec fn spec_bytes(&self) -> Seq<u8> {
        fq_bytes(0x80u8, encode_scalar(*self as u32))
    }

    fn encode(&self, out: &mut Vec<u8>) {
        encode_fq(self, out);
    }
}

impl PartialEncode for char {
    open spec fn spec_type_code() -> u8 {
        0x80u8
    }

    open spec fn spec_partial_bytes(&self) -> Seq<u8> {
        encode_scalar(*self as u32)
    }

    fn type_code() -> (code: u8) {
        CoreType::Char.code()
    }

    fn partial_encode(&self, out: &mut Vec<u8>) {
        push_char_utf8(out, *self);
    }
}

impl Decode for char {
    open spec fn spec_parse(s: Seq<u8>) -> Parsed<char> {
        parse_fq::<char>(s)
    }

    fn decode(buf: &[u8], pos: usize) -> (r: Result<(char, usize), DecodeError>) {
        decode_fq(buf, pos)
    }
}

impl PartialDecode for char {
    open spec fn spec_expected_type_code() -> u8 {
        0x80u8
    }

    open spec fn spec_parse_partial(s: Seq<u8>) -> Parsed<char> {
        parse_char(s)
    }

    fn expected_type_code() -> (code: u8) {
        CoreType::Char.code()
    }

    fn partial_decode(buf: &[u8], pos: usize) -> (r: Result<(char, usize), DecodeError>) {
        if pos >= buf.len() {
            return Err(DecodeError::UnexpectedEof);
        }
        let b0 = buf[pos];
        let w: usize = if b0 < 0x80 {
            1
        } else if 0xC0 <= b0 && b0 < 0xE0 {
            2
        } else if 0xE0 <= b0 && b0 < 0xF0 {
            3
        } else if 0xF0 <= b0 && b0 < 0xF8 {
            4
        } else {
            0
        };
        if w == 0 {
            return Err(DecodeError::InvalidUtf8);
        }
        if w == 1 {
            return Ok((b0 as char, pos + 1));
        }
        if buf.len() - pos < w {
            return Err(DecodeError::UnexpectedEof);
        }
        let bytes = copy_bytes(buf, pos, w);
        proof {
            assert(bytes@ =~= buf@.skip(pos as int).take(w as int));
        }
        match string_from_utf8(bytes) {
            Some(text) => {
                proof {
                    lemma_decode_nonempty(bytes@);
                }
                let c = text.as_str().get_char(0);
                Ok((c, pos + w))
            },
            None => Err(DecodeError::InvalidUtf8),
        }
    }
}

impl Codec for char {
    open spec fn spec_wf(&self) -> bool {
        true
    }

    proof fn lemma_roundtrip(&self, rest: Seq<u8>) {
        lemma_char_roundtrip(*self, rest);
        lemma_fq_roundtrip(self, rest);
    }
}

// ---------------------------------------------------------------------------
// Text equality
// ---------------------------------------------------------------------------

/// Texts with the same UTF-8 bytes are the same text.
pub proof fn lemma_utf8_injective(a: Seq<char>, b: Seq<char>)
    requires
        encode_utf8(a) == encode_utf8(b),
    ensures
        a == b,
{
    encode_utf8_decode_utf8(a);
    encode_utf8_decode_utf8(b);
}

/// Whether two texts are equal, compared byte by byte.
pub fn str_eq(a: &str, b: &str) -> (r: bool)
    ensures
        r == (a@ == b@),
{
    let x = a.as_bytes();
    let y = b.as_bytes();
    proof {
        if a@ == b@ {
            assert(x@ == encode_utf8(a@));
            assert(x@ =~= y@);
        }
    }
    if x.len() != y.len() {
        return false;
    }
    let mut i: usize = 0;
    while i < x.len()
        invariant
            i <= x@.len(),
            x@.len() == y@.len(),
            forall|j: int| 0 <= j < i ==> x@[j] == y@[j],
            a@ == b@ ==> x@ == y@,
        decreases x@.len() - i,
    {
        if x[i] != y[i] {
            return false;
        }
        i = i + 1;
    }
    proof {
        assert(x@ =~= y@);
        lemma_utf8_injective(a@, b@);
    }
    true
}

/// The UTF-8 form of a text has at most four bytes per character.
pub proof fn lemma_utf8_len_bound(cs: Seq<char>)
    ensures
        encode_utf8(cs).len() <= 4 * cs.len(),
    decreases cs.len(),
{
    if cs.len() > 0 {
        lemma_utf8_len_bound(cs.drop_first());
    }
}

/// A text's fully qualified form, whatever follows it, reads back as the text.
pub proof fn lemma_fq_string_roundtrip(cs: Seq<char>, rest: Seq<u8>)
    requires
        string_wf(cs),
    ensures
        parse_fq::<String>(fq_bytes(0x03u8, string_partial_bytes(cs)) + rest) == Parsed::Done(
            cs,
            string_partial_bytes(cs).len() + 2int,
        ),
{
    let s = fq_bytes(0x03u8, string_partial_bytes(cs)) + rest;
    assert(s.skip(2) =~= string_partial_bytes(cs) + rest);
    lemma_string_roundtrip(cs, rest);
}

} // verus!
