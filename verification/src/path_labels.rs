//! The labels of a path: a list of sets of texts, each step of the path having a set.

use vstd::prelude::*;
use crate::binary::{be_i32, decode_i32_at, lemma_parse_i32_prefix, parse_i32, push_i32};
use crate::codec::{fq_bytes, parse_fq, shift, Decode, Encode, Parsed, PartialDecode};
use crate::collections::{parse_items, parse_list};
use crate::error::DecodeError;
use crate::primitives::{lemma_string_roundtrip, string_partial_bytes, string_wf};
use crate::structure::SetList;

verus! {

/// The fully qualified forms of texts, one after another.
pub open spec fn texts_bytes(ss: Seq<Seq<char>>) -> Seq<u8>
    decreases ss.len(),
{
    if ss.len() == 0 {
        seq![]
    } else {
        texts_bytes(ss.drop_last()) + fq_bytes(0x03u8, string_partial_bytes(ss.last()))
    }
}

/// The fully qualified forms of sets of texts, one after another.
pub open spec fn text_sets_bytes(ls: Seq<Seq<Seq<char>>>) -> Seq<u8>
    decreases ls.len(),
{
    if ls.len() == 0 {
        seq![]
    } else {
        text_sets_bytes(ls.drop_last()) + fq_bytes(
            0x0bu8,
            be_i32(ls.last().len() as i32) + texts_bytes(ls.last()),
        )
    }
}

/// The bytes of the labels of a path: a list type code with the set flag, the number of
/// sets, then the sets.
pub open spec fn path_labels_bytes(ls: Seq<Seq<Seq<char>>>) -> Seq<u8> {
    seq![0x09u8, 0x00u8] + be_i32(ls.len() as i32) + text_sets_bytes(ls)
}

/// Reads `n` sets of texts, each behind two bytes that are not looked at.
pub open spec fn parse_text_sets(s: Seq<u8>, n: nat) -> Parsed<Seq<Seq<Seq<char>>>>
    decreases n,
{
    if n == 0 {
        Parsed::Done(seq![], 0)
    } else {
        match parse_text_sets(s, (n - 1) as nat) {
            Parsed::Done(ls, k) => if 0 <= k && k + 2 <= s.len() {
                match parse_list::<String>(s.skip(k + 2)) {
                    Parsed::Done(set, m) => Parsed::Done(ls.push(set), k + 2 + m),
                    Parsed::Fail(e) => Parsed::Fail(e),
                    Parsed::Abort => Parsed::Abort,
                }
            } else {
                Parsed::Fail(DecodeError::UnexpectedEof)
            },
            Parsed::Fail(e) => Parsed::Fail(e),
            Parsed::Abort => Parsed::Abort,
        }
    }
}

/// Reads the labels of a path: two bytes that are not looked at, a count, then that many
/// sets of texts. A negative count is not read (the reader gives up).
pub open spec fn parse_path_labels(s: Seq<u8>) -> Parsed<Seq<Seq<Seq<char>>>> {
    if s.len() < 2 {
        Parsed::Fail(DecodeError::UnexpectedEof)
    } else {
        match parse_i32(s.skip(2)) {
            Parsed::Done(len, _) => if len < 0 {
                Parsed::Abort
            } else {
                shift(parse_text_sets(s.skip(6), len as nat), 6)
            },
            Parsed::Fail(e) => Parsed::Fail(e),
            Parsed::Abort => Parsed::Abort,
        }
    }
}

/// Texts whose bytes and number fit the 32-bit length prefixes.
pub open spec fn texts_wf(ss: Seq<Seq<char>>) -> bool {
    ss.len() <= i32::MAX && forall|i: int| 0 <= i < ss.len() ==> string_wf(#[trigger] ss[i])
}

/// Sets of texts whose bytes and numbers fit the 32-bit length prefixes.
pub open spec fn text_sets_wf(ls: Seq<Seq<Seq<char>>>) -> bool {
    ls.len() <= i32::MAX && forall|i: int| 0 <= i < ls.len() ==> texts_wf(#[trigger] ls[i])
}

/// Appends the fully qualified forms of the texts of a set.
fn encode_texts(v: &Vec<String>, out: &mut Vec<u8>)
    ensures
        final(out)@ == old(out)@ + texts_bytes(v.deep_view()),
{
    let ghost dv = v.deep_view();
    let ghost start = out@;
    let mut i: usize = 0;
    while i < v.len()
        invariant
            i <= v@.len(),
            dv == v.deep_view(),
            dv.len() == v@.len(),
            out@ == start + texts_bytes(dv.subrange(0, i as int)),
        decreases v@.len() - i,
    {
        v[i].encode(out);
        proof {
            let t = dv.subrange(0, i + 1);
            assert(t.drop_last() =~= dv.subrange(0, i as int));
            assert(t.last() == v@[i as int]@);
            assert(out@ =~= start + texts_bytes(dv.subrange(0, i + 1)));
        }
        i = i + 1;
    }
    proof {
        assert(dv.subrange(0, i as int) =~= dv);
    }
}

/// Appends the labels of a path.
pub fn encode_path_labels(labels: &Vec<SetList<String>>, out: &mut Vec<u8>)
    ensures
        final(out)@ == old(out)@ + path_labels_bytes(labels.deep_view()),
{
    let ghost dv = labels.deep_view();
    out.push(0x09u8);
    out.push(0x00u8);
    push_i32(out, labels.len() as i32);
    let ghost start = out@;
    let mut i: usize = 0;
    while i < labels.len()
        invariant
            i <= labels@.len(),
            dv == labels.deep_view(),
            dv.len() == labels@.len(),
            out@ == start + text_sets_bytes(dv.subrange(0, i as int)),
        decreases labels@.len() - i,
    {
        let set = &labels[i].0;
        let ghost before = out@;
        out.push(0x0bu8);
        out.push(0x00u8);
        push_i32(out, set.len() as i32);
        encode_texts(set, out);
        proof {
            let t = dv.subrange(0, i + 1);
            assert(t.drop_last() =~= dv.subrange(0, i as int));
            assert(t.last() == labels@[i as int].deep_view());
            assert(labels@[i as int].deep_view() == set.deep_view());
            assert(out@ =~= start + text_sets_bytes(dv.subrange(0, i + 1)));
        }
        i = i + 1;
    }
    proof {
        assert(dv.subrange(0, i as int) =~= dv);
        assert(out@ =~= old(out)@ + path_labels_bytes(dv));
    }
}

/// Once reading `i` sets has failed or given up, so has reading more.
proof fn lemma_text_sets_stuck(s: Seq<u8>, i: nat, n: nat)
    requires
        i <= n,
        !(parse_text_sets(s, i) is Done),
    ensures
        parse_text_sets(s, n) == parse_text_sets(s, i),
    decreases n,
{
    if n > i {
        lemma_text_sets_stuck(s, i, (n - 1) as nat);
    }
}

/// Reads the labels of a path at `pos`.
pub fn decode_path_labels(buf: &[u8], pos: usize) -> (r: Result<(Vec<SetList<String>>, usize), DecodeError>)
    requires
        pos <= buf@.len(),
        !(parse_path_labels(buf@.skip(pos as int)) is Abort),
    ensures
        match parse_path_labels(buf@.skip(pos as int)) {
            Parsed::Done(v, n) => r matches Ok((x, q)) && x.deep_view() == v && q == pos + n && pos
                <= q <= buf@.len(),
            Parsed::Fail(e) => r == Err::<(Vec<SetList<String>>, usize), DecodeError>(e),
            Parsed::Abort => false,
        },
{
    if buf.len() - pos < 2 {
        return Err(DecodeError::UnexpectedEof);
    }
    proof {
        assert(buf@.skip(pos as int).skip(2) =~= buf@.skip(pos + 2));
    }
    let (len, p6) = match decode_i32_at(buf, pos + 2) {
        Ok(x) => x,
        Err(e) => return Err(e),
    };
    let n = len as usize;
    let ghost s = buf@.skip(p6 as int);
    proof {
        assert(buf@.skip(pos as int).skip(6) =~= s);
    }
    let mut sets: Vec<SetList<String>> = Vec::new();
    proof {
        assert(sets.deep_view() =~= Seq::<Seq<Seq<char>>>::empty());
    }
    let mut q = p6;
    let mut i: usize = 0;
    while i < n
        invariant
            p6 == pos + 6,
            p6 <= q <= buf@.len(),
            len >= 0,
            i <= n,
            n == len,
            s == buf@.skip(p6 as int),
            buf@.skip(pos as int).skip(6) == s,
            buf@.skip(pos as int).len() >= 2,
            parse_i32(buf@.skip(pos as int).skip(2)) == Parsed::Done(len, 4),
            parse_text_sets(s, i as nat) == Parsed::Done(sets.deep_view(), q - p6),
            !(parse_text_sets(s, n as nat) is Abort),
        decreases n - i,
    {
        if buf.len() - q < 2 {
            proof {
                assert(parse_text_sets(s, (i + 1) as nat) == Parsed::<Seq<Seq<Seq<char>>>>::Fail(
                    DecodeError::UnexpectedEof,
                ));
                lemma_text_sets_stuck(s, (i + 1) as nat, n as nat);
            }
            return Err(DecodeError::UnexpectedEof);
        }
        proof {
            assert(s.skip(q - p6 + 2) =~= buf@.skip(q + 2));
            if parse_list::<String>(buf@.skip(q + 2)) is Abort {
                lemma_text_sets_stuck(s, (i + 1) as nat, n as nat);
            }
        }
        let (set, q2) = match SetList::<String>::partial_decode(buf, q + 2) {
            Ok(r) => r,
            Err(e) => {
                proof {
                    assert(parse_list::<String>(s.skip(q - p6 + 2)) == Parsed::<Seq<Seq<char>>>::Fail(e));
                    assert(parse_text_sets(s, (i + 1) as nat) == Parsed::<Seq<Seq<Seq<char>>>>::Fail(e));
                    lemma_text_sets_stuck(s, (i + 1) as nat, n as nat);
                }
                return Err(e);
            },
        };
        let ghost old_dv = sets.deep_view();
        sets.push(set);
        proof {
            assert(sets.deep_view() =~= old_dv.push(set.deep_view()));
        }
        q = q2;
        i = i + 1;
    }
    Ok((sets, q))
}

/// Texts written one after another read back as themselves.
proof fn lemma_texts_roundtrip(ss: Seq<Seq<char>>, rest: Seq<u8>)
    requires
        forall|i: int| 0 <= i < ss.len() ==> string_wf(#[trigger] ss[i]),
    ensures
        parse_items::<String>(texts_bytes(ss) + rest, ss.len()) == Parsed::Done(
            ss,
            texts_bytes(ss).len() as int,
        ),
    decreases ss.len(),
{
    if ss.len() > 0 {
        let init = ss.drop_last();
        let a = texts_bytes(init);
        let b = fq_bytes(0x03u8, string_partial_bytes(ss.last()));
        let s = texts_bytes(ss) + rest;
        assert(s =~= a + (b + rest));
        assert forall|i: int| 0 <= i < init.len() implies string_wf(#[trigger] init[i]) by {
            assert(init[i] == ss[i]);
        }
        lemma_texts_roundtrip(init, b + rest);
        assert(s.skip(a.len() as int) =~= b + rest);
        let t = b + rest;
        assert(string_wf(ss[ss.len() - 1]));
        lemma_string_roundtrip(ss.last(), rest);
        assert(t.skip(2) =~= string_partial_bytes(ss.last()) + rest);
        assert(<String as Decode>::spec_parse(t) == parse_fq::<String>(t));
        assert(init.push(ss.last()) =~= ss);
    } else {
        assert(ss =~= Seq::<Seq<char>>::empty());
    }
}

/// Sets of texts written one after another read back as themselves.
proof fn lemma_text_sets_roundtrip(ls: Seq<Seq<Seq<char>>>, rest: Seq<u8>)
    requires
        forall|i: int| 0 <= i < ls.len() ==> texts_wf(#[trigger] ls[i]),
    ensures
        parse_text_sets(text_sets_bytes(ls) + rest, ls.len()) == Parsed::Done(
            ls,
            text_sets_bytes(ls).len() as int,
        ),
    decreases ls.len(),
{
    if ls.len() > 0 {
        let init = ls.drop_last();
        let set = ls.last();
        let a = text_sets_bytes(init);
        let b = fq_bytes(0x0bu8, be_i32(set.len() as i32) + texts_bytes(set));
        let s = text_sets_bytes(ls) + rest;
        assert(s =~= a + (b + rest));
        assert forall|i: int| 0 <= i < init.len() implies texts_wf(#[trigger] init[i]) by {
            assert(init[i] == ls[i]);
        }
        lemma_text_sets_roundtrip(init, b + rest);
        assert(texts_wf(ls[ls.len() - 1]));
        let u = be_i32(set.len() as i32) + texts_bytes(set) + rest;
        assert(s.skip(a.len() + 2int) =~= u);
        assert(u =~= be_i32(set.len() as i32) + (texts_bytes(set) + rest));
        lemma_parse_i32_prefix(set.len() as i32, texts_bytes(set) + rest);
        assert(u.skip(4) =~= texts_bytes(set) + rest);
        lemma_texts_roundtrip(set, rest);
        assert(init.push(set) =~= ls);
    } else {
        assert(ls =~= Seq::<Seq<Seq<char>>>::empty());
    }
}

/// The labels of a path read back as themselves.
pub proof fn lemma_path_labels_roundtrip(ls: Seq<Seq<Seq<char>>>, rest: Seq<u8>)
    requires
        text_sets_wf(ls),
    ensures
        parse_path_labels(path_labels_bytes(ls) + rest) == Parsed::Done(
            ls,
            path_labels_bytes(ls).len() as int,
        ),
{
    let b = text_sets_bytes(ls);
    let s = path_labels_bytes(ls) + rest;
    assert(s.skip(2) =~= be_i32(ls.len() as i32) + (b + rest));
    lemma_parse_i32_prefix(ls.len() as i32, b + rest);
    assert(s.skip(6) =~= b + rest);
    lemma_text_sets_roundtrip(ls, rest);
}

/// A copy of texts.
fn clone_texts(v: &Vec<String>) -> (r: Vec<String>)
    ensures
        r.deep_view() == v.deep_view(),
{
    let mut r: Vec<String> = Vec::new();
    let mut i: usize = 0;
    while i < v.len()
        invariant
            i <= v@.len(),
            r@.len() == i,
            forall|k: int| 0 <= k < i ==> #[trigger] r@[k]@ == v@[k]@,
        decreases v@.len() - i,
    {
        r.push(v[i].clone());
        i = i + 1;
    }
    assert(r.deep_view() =~= v.deep_view());
    r
}

/// A copy of the labels of a path.
pub fn clone_path_labels(labels: &Vec<SetList<String>>) -> (r: Vec<SetList<String>>)
    ensures
        r.deep_view() == labels.deep_view(),
{
    let mut r: Vec<SetList<String>> = Vec::new();
    let mut i: usize = 0;
    while i < labels.len()
        invariant
            i <= labels@.len(),
            r@.len() == i,
            forall|k: int| 0 <= k < i ==> #[trigger] r@[k].deep_view() == labels@[k].deep_view(),
        decreases labels@.len() - i,
    {
        r.push(SetList(clone_texts(&labels[i].0)));
        i = i + 1;
    }
    assert(r.deep_view() =~= labels.deep_view());
    r
}

} // verus!
