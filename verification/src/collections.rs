use vstd::prelude::*;
use crate::binary::{be_i32, decode_i32_at, parse_i32, push_i32};
use crate::codec::{decode_fq, decoded, encode_fq, fq_bytes, parse_fq_with, shift, Decode, Encode, Parsed, PartialDecode, PartialEncode};
use crate::core_type::CoreType;
use crate::error::DecodeError;

verus! {

// ---------------------------------------------------------------------------
// Lists
// ---------------------------------------------------------------------------

/// The fully qualified forms of the items of `s`, one after another.
pub open spec fn items_bytes<T: Encode>(s: Seq<T>) -> Seq<u8>
    decreases s.len(),
{
    if s.len() == 0 {
        seq![]
    } else {
        items_bytes(s.drop_last()) + s.last().spec_bytes()
    }
}

/// The partial form of a list: the number of items as a 32-bit integer, then the items.
pub open spec fn list_partial_bytes<T: Encode>(s: Seq<T>) -> Seq<u8> {
    be_i32(s.len() as i32) + items_bytes(s)
}

/// Reads `n` values one after another from the front of `s`.
pub open spec fn parse_items<T: Decode>(s: Seq<u8>, n: nat) -> Parsed<Seq<T::V>>
    decreases n,
{
    if n == 0 {
        Parsed::Done(seq![], 0)
    } else {
        match parse_items::<T>(s, (n - 1) as nat) {
            Parsed::Done(vs, k) => match T::spec_parse(s.skip(k)) {
                Parsed::Done(v, m) => Parsed::Done(vs.push(v), k + m),
                Parsed::Fail(e) => Parsed::Fail(e),
                Parsed::Abort => Parsed::Abort,
            },
            Parsed::Fail(e) => Parsed::Fail(e),
            Parsed::Abort => Parsed::Abort,
        }
    }
}

/// Reads a list: a 32-bit count, negative being `NegativeLength`, then that many values.
pub open spec fn parse_list<T: Decode>(s: Seq<u8>) -> Parsed<Seq<T::V>> {
    match parse_i32(s) {
        Parsed::Done(len, _) => {
            if len < 0 {
                Parsed::Fail(DecodeError::NegativeLength)
            } else {
                shift(parse_items::<T>(s.skip(4), len as nat), 4)
            }
        },
        Parsed::Fail(e) => Parsed::Fail(e),
        Parsed::Abort => Parsed::Abort,
    }
}

/// Once reading `i` items did not succeed, reading more items ends the same way.
pub proof fn lemma_items_stuck<T: Decode>(s: Seq<u8>, i: nat, n: nat)
    requires
        i <= n,
        !(parse_items::<T>(s, i) is Done),
    ensures
        parse_items::<T>(s, n) == parse_items::<T>(s, i),
    decreases n,
{
    if n > i {
        lemma_items_stuck::<T>(s, i, (n - 1) as nat);
    }
}

/// Appends the fully qualified forms of the items of `v`.
pub fn encode_items<T: Encode>(v: &Vec<T>, out: &mut Vec<u8>)
    ensures
        final(out)@ == old(out)@ + items_bytes(v@),
{
    let mut i: usize = 0;
    while i < v.len()
        invariant
            i <= v@.len(),
            out@ == old(out)@ + items_bytes(v@.subrange(0, i as int)),
        decreases v@.len() - i,
    {
        v[i].encode(out);
        proof {
            let s = v@.subrange(0, i + 1);
            assert(s.drop_last() =~= v@.subrange(0, i as int));
            assert(out@ =~= old(out)@ + items_bytes(s));
        }
        i = i + 1;
    }
    assert(v@.subrange(0, v@.len() as int) =~= v@);
}

/// Reads `n` values one after another, starting at `pos`.
pub fn decode_items<T: Decode>(buf: &[u8], pos: usize, n: usize) -> (r: Result<(Vec<T>, usize), DecodeError>)
    requires
        pos <= buf@.len(),
        !(parse_items::<T>(buf@.skip(pos as int), n as nat) is Abort),
    ensures
        decoded(parse_items::<T>(buf@.skip(pos as int), n as nat), r, pos as int, buf@.len() as int),
{
    let ghost s = buf@.skip(pos as int);
    let mut v: Vec<T> = Vec::new();
    let mut p: usize = pos;
    let mut i: usize = 0;
    proof {
        assert(v.deep_view() =~= Seq::<T::V>::empty());
    }
    while i < n
        invariant
            i <= n,
            pos <= p <= buf@.len(),
            s == buf@.skip(pos as int),
            !(parse_items::<T>(s, n as nat) is Abort),
            parse_items::<T>(s, i as nat) == Parsed::Done(v.deep_view(), p - pos),
        decreases n - i,
    {
        proof {
            assert(s.skip(p - pos) =~= buf@.skip(p as int));
        }
        let ghost before = v.deep_view();
        proof {
            if T::spec_parse(buf@.skip(p as int)) is Abort {
                lemma_items_stuck::<T>(s, (i + 1) as nat, n as nat);
            }
        }
        match T::decode(buf, p) {
            Ok((x, q)) => {
                v.push(x);
                p = q;
                proof {
                    assert(v.deep_view() =~= before.push(x.deep_view()));
                }
            },
            Err(e) => {
                proof {
                    lemma_items_stuck::<T>(s, (i + 1) as nat, n as nat);
                }
                return Err(e);
            },
        }
        i = i + 1;
    }
    Ok((v, p))
}

impl<T: Encode> Encode for Vec<T> {
    open spec fn spec_bytes(&self) -> Seq<u8> {
        fq_bytes(0x09u8, list_partial_bytes(self@))
    }

    fn encode(&self, out: &mut Vec<u8>) {
        encode_fq(self, out);
    }
}

impl<T: Encode> PartialEncode for Vec<T> {
    open spec fn spec_type_code() -> u8 {
        0x09u8
    }

    open spec fn spec_partial_bytes(&self) -> Seq<u8> {
        list_partial_bytes(self@)
    }

    fn type_code() -> (code: u8) {
        CoreType::List.code()
    }

    fn partial_encode(&self, out: &mut Vec<u8>) {
        let len = self.len() as i32;
        push_i32(out, len);
        encode_items(self, out);
        assert(out@ =~= old(out)@ + list_partial_bytes(self@));
    }
}

/// Reads the partial form of a list at `pos`.
pub fn partial_decode_list<T: Decode>(buf: &[u8], pos: usize) -> (r: Result<(Vec<T>, usize), DecodeError>)
    requires
        pos <= buf@.len(),
        !(parse_list::<T>(buf@.skip(pos as int)) is Abort),
    ensures
        decoded(parse_list::<T>(buf@.skip(pos as int)), r, pos as int, buf@.len() as int),
{
    let (len, p) = match decode_i32_at(buf, pos) {
        Ok(x) => x,
        Err(e) => return Err(e),
    };
    if len < 0 {
        return Err(DecodeError::NegativeLength);
    }
    proof {
        assert(buf@.skip(pos as int).skip(4) =~= buf@.skip(p as int));
    }
    decode_items(buf, p, len as usize)
}

impl<T: Decode> Decode for Vec<T> {
    open spec fn spec_parse(s: Seq<u8>) -> Parsed<Seq<T::V>> {
        parse_fq_with(s, 0x09u8, |t: Seq<u8>| parse_list::<T>(t))
    }

    fn decode(buf: &[u8], pos: usize) -> (r: Result<(Vec<T>, usize), DecodeError>) {
        decode_fq(buf, pos)
    }
}

impl<T: Decode> PartialDecode for Vec<T> {
    open spec fn spec_expected_type_code() -> u8 {
        0x09u8
    }

    open spec fn spec_parse_partial(s: Seq<u8>) -> Parsed<Seq<T::V>> {
        parse_list::<T>(s)
    }

    fn expected_type_code() -> (code: u8) {
        CoreType::List.code()
    }

    fn partial_decode(buf: &[u8], pos: usize) -> (r: Result<(Vec<T>, usize), DecodeError>) {
        partial_decode_list(buf, pos)
    }
}

} // verus!
