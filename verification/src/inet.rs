//! An internet address: four bytes of IPv4 or sixteen of IPv6, written behind their number.

use vstd::prelude::*;
use crate::binary::{
    be_i32, be_u128, be_u32, decode_i32_at, lemma_parse_i32_prefix, lemma_u128_bytes,
    lemma_u32_bytes, parse_i32, push_i32, push_u32, push_u64, read_u32, read_u64, u128_of,
    u32_of, u64_of,
};
use crate::codec::{decoded, fq_bytes, shift, Parsed};
use crate::error::DecodeError;

verus! {

/// An internet address, held as the number that its bytes spell, most significant first.
#[derive(Debug, Clone, Copy, PartialEq, Eq, Structural)]
pub enum InetAddress {
    V4(u32),
    V6(u128),
}

impl DeepView for InetAddress {
    type V = InetAddress;

    open spec fn deep_view(&self) -> InetAddress {
        *self
    }
}

/// The partial form of an address: the number of its bytes as a 32-bit integer (4 or 16),
/// then the bytes.
pub open spec fn inet_partial_bytes(a: InetAddress) -> Seq<u8> {
    match a {
        InetAddress::V4(x) => be_i32(4) + be_u32(x),
        InetAddress::V6(x) => be_i32(16) + be_u128(x),
    }
}

/// Reads the partial form of an address: a length of 4 or 16, then that many bytes; any
/// other length is an `InvalidValue`.
pub open spec fn parse_inet_partial(s: Seq<u8>) -> Parsed<InetAddress> {
    match parse_i32(s) {
        Parsed::Done(len, _) => if len == 4 {
            if s.len() < 8 {
                Parsed::Fail(DecodeError::UnexpectedEof)
            } else {
                Parsed::Done(InetAddress::V4(u32_of(s[4], s[5], s[6], s[7])), 8)
            }
        } else if len == 16 {
            if s.len() < 20 {
                Parsed::Fail(DecodeError::UnexpectedEof)
            } else {
                Parsed::Done(InetAddress::V6(u128_of(s.skip(4))), 20)
            }
        } else {
            Parsed::Fail(DecodeError::InvalidValue)
        },
        Parsed::Fail(e) => Parsed::Fail(e),
        Parsed::Abort => Parsed::Abort,
    }
}

/// Reads a fully qualified address: the type code 0x82 and the set flag, else a
/// `TypeMismatch`, then the partial form.
pub open spec fn parse_inet(s: Seq<u8>) -> Parsed<InetAddress> {
    if s.len() < 2 {
        Parsed::Fail(DecodeError::UnexpectedEof)
    } else if s[0] == 0x82u8 && s[1] == 0x00u8 {
        shift(parse_inet_partial(s.skip(2)), 2)
    } else {
        Parsed::Fail(DecodeError::TypeMismatch)
    }
}

impl InetAddress {
    /// Appends the partial form of the address.
    pub fn partial_encode(&self, out: &mut Vec<u8>)
        ensures
            final(out)@ == old(out)@ + inet_partial_bytes(*self),
    {
        match self {
            InetAddress::V4(x) => {
                push_i32(out, 4);
                push_u32(out, *x);
            },
            InetAddress::V6(x) => {
                push_i32(out, 16);
                push_u64(out, (*x >> 64u128) as u64);
                push_u64(out, *x as u64);
            },
        }
        assert(out@ =~= old(out)@ + inet_partial_bytes(*self));
    }

    /// Appends the fully qualified bytes of the address: the type code 0x82, the set flag
    /// and the partial form.
    pub fn encode(&self, out: &mut Vec<u8>)
        ensures
            final(out)@ == old(out)@ + fq_bytes(0x82u8, inet_partial_bytes(*self)),
    {
        out.push(0x82u8);
        out.push(0x00u8);
        self.partial_encode(out);
        assert(out@ =~= old(out)@ + fq_bytes(0x82u8, inet_partial_bytes(*self)));
    }

    /// Reads the partial form of an address at `pos`.
    pub fn partial_decode(buf: &[u8], pos: usize) -> (r: Result<(InetAddress, usize), DecodeError>)
        requires
            pos <= buf@.len(),
        ensures
            decoded(parse_inet_partial(buf@.skip(pos as int)), r, pos as int, buf@.len() as int),
    {
        let (len, p) = match decode_i32_at(buf, pos) {
            Ok(x) => x,
            Err(e) => return Err(e),
        };
        if len == 4 {
            if buf.len() - p < 4 {
                return Err(DecodeError::UnexpectedEof);
            }
            let x = read_u32(buf, p);
            Ok((InetAddress::V4(x), p + 4))
        } else if len == 16 {
            if buf.len() - p < 16 {
                return Err(DecodeError::UnexpectedEof);
            }
            let hi = read_u64(buf, p);
            let lo = read_u64(buf, p + 8);
            proof {
                assert(buf@.skip(pos as int).skip(4) =~= buf@.skip(p as int));
                assert(buf@.skip(p as int).skip(8) =~= buf@.skip(p + 8));
            }
            Ok((InetAddress::V6(((hi as u128) << 64u128) | (lo as u128)), p + 16))
        } else {
            Err(DecodeError::InvalidValue)
        }
    }

    /// Reads a fully qualified address at `pos`.
    pub fn decode(buf: &[u8], pos: usize) -> (r: Result<(InetAddress, usize), DecodeError>)
        requires
            pos <= buf@.len(),
        ensures
            decoded(parse_inet(buf@.skip(pos as int)), r, pos as int, buf@.len() as int),
    {
        if buf.len() - pos < 2 {
            return Err(DecodeError::UnexpectedEof);
        }
        if buf[pos] == 0x82u8 && buf[pos + 1] == 0x00u8 {
            proof {
                assert(buf@.skip(pos as int).skip(2) =~= buf@.skip(pos + 2));
            }
            Self::partial_decode(buf, pos + 2)
        } else {
            Err(DecodeError::TypeMismatch)
        }
    }
}

/// Reading the bytes of an address, whatever bytes follow them, gives the address back and
/// takes exactly its bytes.
pub proof fn lemma_inet_roundtrip(a: InetAddress, rest: Seq<u8>)
    ensures
        parse_inet(fq_bytes(0x82u8, inet_partial_bytes(a)) + rest) == Parsed::Done(
            a,
            fq_bytes(0x82u8, inet_partial_bytes(a)).len() as int,
        ),
{
    let s = fq_bytes(0x82u8, inet_partial_bytes(a)) + rest;
    let t = s.skip(2);
    assert(t =~= inet_partial_bytes(a) + rest);
    match a {
        InetAddress::V4(x) => {
            assert(t =~= be_i32(4) + (be_u32(x) + rest));
            lemma_parse_i32_prefix(4, be_u32(x) + rest);
            lemma_u32_bytes(x);
        },
        InetAddress::V6(x) => {
            assert(t =~= be_i32(16) + (be_u128(x) + rest));
            lemma_parse_i32_prefix(16, be_u128(x) + rest);
            lemma_u128_bytes(x);
            let b = t.skip(4);
            assert(b =~= be_u128(x) + rest);
            assert(u64_of(b) == u64_of(be_u128(x)));
            assert(b.skip(8) =~= be_u128(x).skip(8) + rest);
            assert(u64_of(b.skip(8)) == u64_of(be_u128(x).skip(8)));
        },
    }
}

} // verus!
