use vstd::prelude::*;
use vstd::utf8::*;
use crate::codec::{decoded, Parsed};

use crate::error::DecodeError;

verus! {

// ---------------------------------------------------------------------------
// Big-endian integers
// ---------------------------------------------------------------------------

/// The two bytes of `x`, most significant first.
pub open spec fn be_u16(x: u16) -> Seq<u8> {
    seq![(x >> 8u16) as u8, x as u8]
}

/// The `u16` whose bytes, most significant first, are `b0 b1`.
pub open spec fn u16_of(b0: u8, b1: u8) -> u16 {
    ((b0 as u16) << 8u16) | (b1 as u16)
}

/// The four bytes of `x`, most significant first.
pub open spec fn be_u32(x: u32) -> Seq<u8> {
    seq![(x >> 24u32) as u8, (x >> 16u32) as u8, (x >> 8u32) as u8, x as u8]
}

/// The `u32` whose bytes, most significant first, are `b0 .. b3`.
pub open spec fn u32_of(b0: u8, b1: u8, b2: u8, b3: u8) -> u32 {
    ((b0 as u32) << 24u32) | ((b1 as u32) << 16u32) | ((b2 as u32) << 8u32) | (b3 as u32)
}

/// The eight bytes of `x`, most significant first.
pub open spec fn be_u64(x: u64) -> Seq<u8> {
    seq![
        (x >> 56u64) as u8,
        (x >> 48u64) as u8,
        (x >> 40u64) as u8,
        (x >> 32u64) as u8,
        (x >> 24u64) as u8,
        (x >> 16u64) as u8,
        (x >> 8u64) as u8,
        x as u8,
    ]
}

/// The `u64` whose bytes, most significant first, are the first eight of `s`.
pub open spec fn u64_of(s: Seq<u8>) -> u64 {
    ((s[0] as u64) << 56u64) | ((s[1] as u64) << 48u64) | ((s[2] as u64) << 40u64) | ((
    s[3] as u64) << 32u64) | ((s[4] as u64) << 24u64) | ((s[5] as u64) << 16u64) | ((
    s[6] as u64) << 8u64) | (s[7] as u64)
}

/// The two's-complement bytes of `x`, most significant first.
pub open spec fn be_i16(x: i16) -> Seq<u8> {
    be_u16(x as u16)
}

/// The two's-complement bytes of `x`, most significant first.
pub open spec fn be_i32(x: i32) -> Seq<u8> {
    be_u32(x as u32)
}

/// The two's-complement bytes of `x`, most significant first.
pub open spec fn be_i64(x: i64) -> Seq<u8> {
    be_u64(x as u64)
}

pub proof fn lemma_u16_bytes(x: u16)
    ensures
        u16_of((x >> 8u16) as u8, x as u8) == x,
{
    assert(u16_of((x >> 8u16) as u8, x as u8) == x) by (bit_vector);
}

pub proof fn lemma_i16_bytes(x: i16)
    ensures
        u16_of(((x as u16) >> 8u16) as u8, (x as u16) as u8) as i16 == x,
{
    assert((((((x as u16) >> 8u16) as u8 as u16) << 8u16) | ((x as u16) as u8 as u16)) as i16 == x)
        by (bit_vector);
}

pub proof fn lemma_u32_bytes(x: u32)
    ensures
        u32_of((x >> 24u32) as u8, (x >> 16u32) as u8, (x >> 8u32) as u8, x as u8) == x,
{
    assert(u32_of((x >> 24u32) as u8, (x >> 16u32) as u8, (x >> 8u32) as u8, x as u8) == x)
        by (bit_vector);
}

pub proof fn lemma_i32_bytes(x: i32)
    ensures
        u32_of(
            ((x as u32) >> 24u32) as u8,
            ((x as u32) >> 16u32) as u8,
            ((x as u32) >> 8u32) as u8,
            (x as u32) as u8,
        ) as i32 == x,
{
    let u = x as u32;
    lemma_u32_bytes(u);
    assert((x as u32) as i32 == x) by (bit_vector);
}

pub proof fn lemma_u64_bytes(x: u64)
    ensures
        u64_of(be_u64(x)) == x,
{
    let s = be_u64(x);
    assert(((((x >> 56u64) as u8) as u64) << 56u64) | ((((x >> 48u64) as u8) as u64) << 48u64)
        | ((((x >> 40u64) as u8) as u64) << 40u64) | ((((x >> 32u64) as u8) as u64) << 32u64)
        | ((((x >> 24u64) as u8) as u64) << 24u64) | ((((x >> 16u64) as u8) as u64) << 16u64)
        | ((((x >> 8u64) as u8) as u64) << 8u64) | ((x as u8) as u64) == x) by (bit_vector);
}

pub proof fn lemma_i64_bytes(x: i64)
    ensures
        u64_of(be_i64(x)) as i64 == x,
{
    lemma_u64_bytes(x as u64);
    assert((x as u64) as i64 == x) by (bit_vector);
}

/// Reads one byte.
pub open spec fn parse_u8(s: Seq<u8>) -> Parsed<u8> {
    if s.len() < 1 {
        Parsed::Fail(DecodeError::UnexpectedEof)
    } else {
        Parsed::Done(s[0], 1)
    }
}

/// Reads a big-endian two's-complement `i16`.
pub open spec fn parse_i16(s: Seq<u8>) -> Parsed<i16> {
    if s.len() < 2 {
        Parsed::Fail(DecodeError::UnexpectedEof)
    } else {
        Parsed::Done(u16_of(s[0], s[1]) as i16, 2)
    }
}

/// Reads a big-endian two's-complement `i32`.
pub open spec fn parse_i32(s: Seq<u8>) -> Parsed<i32> {
    if s.len() < 4 {
        Parsed::Fail(DecodeError::UnexpectedEof)
    } else {
        Parsed::Done(u32_of(s[0], s[1], s[2], s[3]) as i32, 4)
    }
}

/// Reads a big-endian `u32`.
pub open spec fn parse_u32(s: Seq<u8>) -> Parsed<u32> {
    if s.len() < 4 {
        Parsed::Fail(DecodeError::UnexpectedEof)
    } else {
        Parsed::Done(u32_of(s[0], s[1], s[2], s[3]), 4)
    }
}

/// Reads a big-endian two's-complement `i64`.
pub open spec fn parse_i64(s: Seq<u8>) -> Parsed<i64> {
    if s.len() < 8 {
        Parsed::Fail(DecodeError::UnexpectedEof)
    } else {
        Parsed::Done(u64_of(s) as i64, 8)
    }
}

/// Reads a big-endian `u64`.
pub open spec fn parse_u64(s: Seq<u8>) -> Parsed<u64> {
    if s.len() < 8 {
        Parsed::Fail(DecodeError::UnexpectedEof)
    } else {
        Parsed::Done(u64_of(s), 8)
    }
}

pub fn push_u16(out: &mut Vec<u8>, x: u16)
    ensures
        final(out)@ == old(out)@ + be_u16(x),
{
    out.push((x >> 8u16) as u8);
    out.push(x as u8);
    assert(out@ =~= old(out)@ + be_u16(x));
}

pub fn push_u32(out: &mut Vec<u8>, x: u32)
    ensures
        final(out)@ == old(out)@ + be_u32(x),
{
    out.push((x >> 24u32) as u8);
    out.push((x >> 16u32) as u8);
    out.push((x >> 8u32) as u8);
    out.push(x as u8);
    assert(out@ =~= old(out)@ + be_u32(x));
}

pub fn push_u64(out: &mut Vec<u8>, x: u64)
    ensures
        final(out)@ == old(out)@ + be_u64(x),
{
    out.push((x >> 56u64) as u8);
    out.push((x >> 48u64) as u8);
    out.push((x >> 40u64) as u8);
    out.push((x >> 32u64) as u8);
    out.push((x >> 24u64) as u8);
    out.push((x >> 16u64) as u8);
    out.push((x >> 8u64) as u8);
    out.push(x as u8);
    assert(out@ =~= old(out)@ + be_u64(x));
}

pub fn push_i32(out: &mut Vec<u8>, x: i32)
    ensures
        final(out)@ == old(out)@ + be_i32(x),
{
    push_u32(out, x as u32);
}

pub fn push_i64(out: &mut Vec<u8>, x: i64)
    ensures
        final(out)@ == old(out)@ + be_i64(x),
{
    push_u64(out, x as u64);
}

/// Appends every byte of `bytes`.
pub fn push_bytes(out: &mut Vec<u8>, bytes: &[u8])
    ensures
        final(out)@ == old(out)@ + bytes@,
{
    let mut i: usize = 0;
    while i < bytes.len()
        invariant
            i <= bytes@.len(),
            out@ == old(out)@ + bytes@.subrange(0, i as int),
        decreases bytes@.len() - i,
    {
        out.push(bytes[i]);
        i = i + 1;
        assert(out@ =~= old(out)@ + bytes@.subrange(0, i as int));
    }
    assert(bytes@.subrange(0, bytes@.len() as int) =~= bytes@);
}

/// The bytes `buf[pos .. pos + n]`.
pub fn copy_bytes(buf: &[u8], pos: usize, n: usize) -> (r: Vec<u8>)
    requires
        pos + n <= buf@.len(),
    ensures
        r@ == buf@.subrange(pos as int, pos + n),
{
    let mut r: Vec<u8> = Vec::new();
    let mut i: usize = 0;
    let blen = buf.len();
    while i < n
        invariant
            i <= n,
            blen == buf@.len(),
            pos + n <= buf@.len(),
            r@ == buf@.subrange(pos as int, pos + i),
        decreases n - i,
    {
        r.push(buf[pos + i]);
        i = i + 1;
        assert(r@ =~= buf@.subrange(pos as int, pos + i));
    }
    r
}

pub fn read_u16(buf: &[u8], pos: usize) -> (r: u16)
    requires
        pos + 2 <= buf@.len(),
    ensures
        r == u16_of(buf@[pos as int], buf@[pos + 1]),
{
    ((buf[pos] as u16) << 8u16) | (buf[pos + 1] as u16)
}

pub fn read_u32(buf: &[u8], pos: usize) -> (r: u32)
    requires
        pos + 4 <= buf@.len(),
    ensures
        r == u32_of(buf@[pos as int], buf@[pos + 1], buf@[pos + 2], buf@[pos + 3]),
{
    ((buf[pos] as u32) << 24u32) | ((buf[pos + 1] as u32) << 16u32) | ((buf[pos + 2] as u32)
        << 8u32) | (buf[pos + 3] as u32)
}

pub fn read_u64(buf: &[u8], pos: usize) -> (r: u64)
    requires
        pos + 8 <= buf@.len(),
    ensures
        r == u64_of(buf@.skip(pos as int)),
{
    ((buf[pos] as u64) << 56u64) | ((buf[pos + 1] as u64) << 48u64) | ((buf[pos + 2] as u64)
        << 40u64) | ((buf[pos + 3] as u64) << 32u64) | ((buf[pos + 4] as u64) << 24u64) | ((buf[pos
        + 5] as u64) << 16u64) | ((buf[pos + 6] as u64) << 8u64) | (buf[pos + 7] as u64)
}

/// Reads a big-endian `i32` at `pos`.
pub fn decode_i32_at(buf: &[u8], pos: usize) -> (r: Result<(i32, usize), DecodeError>)
    requires
        pos <= buf@.len(),
    ensures
        decoded(parse_i32(buf@.skip(pos as int)), r, pos as int, buf@.len() as int),
{
    if buf.len() - pos < 4 {
        Err(DecodeError::UnexpectedEof)
    } else {
        Ok((read_u32(buf, pos) as i32, pos + 4))
    }
}

/// Reads a big-endian `i64` at `pos`.
pub fn decode_i64_at(buf: &[u8], pos: usize) -> (r: Result<(i64, usize), DecodeError>)
    requires
        pos <= buf@.len(),
    ensures
        decoded(parse_i64(buf@.skip(pos as int)), r, pos as int, buf@.len() as int),
{
    if buf.len() - pos < 8 {
        Err(DecodeError::UnexpectedEof)
    } else {
        let v = read_u64(buf, pos);
        proof {
            assert(buf@.skip(pos as int) =~= buf@.skip(pos as int));
        }
        Ok((v as i64, pos + 8))
    }
}

/// A parsed integer followed by more bytes is read the same.
pub proof fn lemma_parse_i32_prefix(x: i32, rest: Seq<u8>)
    ensures
        parse_i32(be_i32(x) + rest) == Parsed::Done(x, 4),
{
    lemma_i32_bytes(x);
}

pub proof fn lemma_parse_i64_prefix(x: i64, rest: Seq<u8>)
    ensures
        parse_i64(be_i64(x) + rest) == Parsed::Done(x, 8),
{
    lemma_i64_bytes(x);
    assert(u64_of(be_i64(x) + rest) == u64_of(be_i64(x)));
}

pub proof fn lemma_parse_i16_prefix(x: i16, rest: Seq<u8>)
    ensures
        parse_i16(be_i16(x) + rest) == Parsed::Done(x, 2),
{
    lemma_i16_bytes(x);
}

/// The sixteen bytes of `x`, most significant first.
pub open spec fn be_u128(x: u128) -> Seq<u8> {
    be_u64((x >> 64u128) as u64) + be_u64(x as u64)
}

/// The `u128` whose bytes, most significant first, are the first sixteen of `s`.
pub open spec fn u128_of(s: Seq<u8>) -> u128 {
    ((u64_of(s) as u128) << 64u128) | (u64_of(s.skip(8)) as u128)
}

pub proof fn lemma_u128_bytes(x: u128)
    ensures
        u128_of(be_u128(x)) == x,
{
    let hi = (x >> 64u128) as u64;
    let lo = x as u64;
    lemma_u64_bytes(hi);
    lemma_u64_bytes(lo);
    assert(be_u128(x).skip(8) =~= be_u64(lo));
    assert(u64_of(be_u128(x)) == u64_of(be_u64(hi)));
    assert((((x >> 64u128) as u64) as u128) << 64u128 | ((x as u64) as u128) == x) by (bit_vector);
}

} // verus!
