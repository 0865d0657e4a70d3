use vstd::prelude::*;
use crate::binary::{be_i32, decode_i32_at, parse_i32, push_i32};
use crate::codec::{decode_fq, encode_fq, fq_bytes, parse_fq, Decode, Encode, Parsed, PartialDecode, PartialEncode};
use crate::core_type::CoreType;
use crate::enums::{Direction, T};
use crate::error::DecodeError;
use crate::primitives::str_eq;
use crate::value::{MapKeys};

verus! {

// ---------------------------------------------------------------------------
// Keys
// ---------------------------------------------------------------------------

/// Keys that can be told apart by what they stand for.
pub trait KeyEq: DeepView + Sized {
    /// Whether the two keys stand for the same value.
    fn key_eq(&self, other: &Self) -> (r: bool)
        ensures
            r == (self.deep_view() == other.deep_view()),
    ;
}

impl KeyEq for i32 {
    fn key_eq(&self, other: &Self) -> (r: bool) {
        *self == *other
    }
}

impl KeyEq for i64 {
    fn key_eq(&self, other: &Self) -> (r: bool) {
        *self == *other
    }
}

impl KeyEq for u128 {
    fn key_eq(&self, other: &Self) -> (r: bool) {
        *self == *other
    }
}

impl KeyEq for String {
    fn key_eq(&self, other: &Self) -> (r: bool) {
        str_eq(self.as_str(), other.as_str())
    }
}

impl KeyEq for T {
    fn key_eq(&self, other: &Self) -> (r: bool) {
        *self == *other
    }
}

impl KeyEq for Direction {
    fn key_eq(&self, other: &Self) -> (r: bool) {
        *self == *other
    }
}

impl KeyEq for MapKeys {
    fn key_eq(&self, other: &Self) -> (r: bool) {
        match self {
            MapKeys::Int(x) => match other {
                MapKeys::Int(y) => *x == *y,
                _ => false,
            },
            MapKeys::String(x) => match other {
                MapKeys::String(y) => str_eq(x.as_str(), y.as_str()),
                _ => false,
            },
            MapKeys::Long(x) => match other {
                MapKeys::Long(y) => *x == *y,
                _ => false,
            },
            MapKeys::Uuid(x) => match other {
                MapKeys::Uuid(y) => *x == *y,
                _ => false,
            },
            MapKeys::T(x) => match other {
                MapKeys::T(y) => *x == *y,
                _ => false,
            },
            MapKeys::Direction(x) => match other {
                MapKeys::Direction(y) => *x == *y,
                _ => false,
            },
        }
    }
}

// ---------------------------------------------------------------------------
// Maps as lists of entries
// ---------------------------------------------------------------------------

/// The position of the last entry with key `k`, or -1.
pub open spec fn assoc_index<A, B>(m: Seq<(A, B)>, k: A) -> int
    decreases m.len(),
{
    if m.len() == 0 {
        -1
    } else if m[m.len() - 1].0 == k {
        m.len() - 1
    } else {
        assoc_index(m.subrange(0, m.len() - 1), k)
    }
}

/// A map with `v` at key `k`: the entry of `k` is replaced where there is one, else the
/// entry is added at the end.
pub open spec fn assoc_insert<A, B>(m: Seq<(A, B)>, k: A, v: B) -> Seq<(A, B)> {
    let i = assoc_index(m, k);
    if i >= 0 {
        m.update(i, (k, v))
    } else {
        m.push((k, v))
    }
}

/// The map built by inserting the entries in order.
pub open spec fn assoc_from<A, B>(es: Seq<(A, B)>) -> Seq<(A, B)>
    decreases es.len(),
{
    if es.len() == 0 {
        seq![]
    } else {
        assoc_insert(assoc_from(es.subrange(0, es.len() - 1)), es[es.len() - 1].0, es[es.len() - 1].1)
    }
}

/// No two entries have the same key.
pub open spec fn assoc_distinct<A, B>(m: Seq<(A, B)>) -> bool {
    forall|i: int, j: int| 0 <= i < j < m.len() ==> m[i].0 != m[j].0
}

/// A map of keys to values, kept as its entries in the order in which their keys were first
/// inserted; no two entries have keys that stand for the same value.
#[derive(Debug, Clone, PartialEq)]
pub struct EntryMap<K, V> {
    pub entries: Vec<(K, V)>,
}

impl<K: DeepView, V: DeepView> DeepView for EntryMap<K, V> {
    type V = Seq<(K::V, V::V)>;

    open spec fn deep_view(&self) -> Seq<(K::V, V::V)> {
        self.entries.deep_view()
    }
}

impl<K: KeyEq, V: DeepView> EntryMap<K, V> {
    /// The empty map.
    pub fn new() -> (r: EntryMap<K, V>)
        ensures
            r.deep_view() == Seq::<(K::V, V::V)>::empty(),
    {
        let r = EntryMap { entries: Vec::new() };
        assert(r.deep_view() =~= Seq::<(K::V, V::V)>::empty());
        r
    }

    /// The number of entries.
    pub fn len(&self) -> (n: usize)
        ensures
            n == self.deep_view().len(),
    {
        self.entries.len()
    }

    /// Puts `v` at key `k`: replaces the value of `k` where it has one, else adds the entry
    /// at the end.
    pub fn insert(&mut self, k: K, v: V)
        ensures
            final(self).deep_view() == assoc_insert(old(self).deep_view(), k.deep_view(), v.deep_view()),
    {
        let ghost m = self.deep_view();
        let ghost kv = k.deep_view();
        let mut j: usize = self.entries.len();
        while j > 0
            invariant
                j <= self.entries@.len(),
                self.entries@ == old(self).entries@,
                m == old(self).deep_view(),
                m.len() == self.entries@.len(),
                kv == k.deep_view(),
                forall|t: int| j <= t < m.len() ==> m[t].0 != kv,
            decreases j,
        {
            if self.entries[j - 1].0.key_eq(&k) {
                proof {
                    lemma_assoc_index_prefix(m, kv, j as int);
                    assert(m.subrange(0, j as int)[j - 1].0 == kv);
                }
                let ghost old_e = self.entries@;
                let ghost vv = v.deep_view();
                self.entries.set(j - 1, (k, v));
                proof {
                    assert(self.deep_view() =~= m.update(j - 1, (kv, vv)));
                }
                return;
            }
            j = j - 1;
        }
        proof {
            lemma_assoc_index_prefix(m, kv, 0);
        }
        let ghost vv = v.deep_view();
        self.entries.push((k, v));
        proof {
            assert(self.deep_view() =~= m.push((kv, vv)));
        }
    }

    /// The value at key `k`, if there is one.
    pub fn get(&self, k: &K) -> (r: Option<&V>)
        ensures
            assoc_index(self.deep_view(), k.deep_view()) == -1 ==> r is None,
            assoc_index(self.deep_view(), k.deep_view()) >= 0 ==> (r matches Some(v)
                && v.deep_view() == self.deep_view()[assoc_index(self.deep_view(), k.deep_view())].1),
    {
        let ghost m = self.deep_view();
        let ghost kv = k.deep_view();
        let mut j: usize = self.entries.len();
        while j > 0
            invariant
                j <= self.entries@.len(),
                m == self.deep_view(),
                m.len() == self.entries@.len(),
                kv == k.deep_view(),
                forall|t: int| j <= t < m.len() ==> m[t].0 != kv,
            decreases j,
        {
            if self.entries[j - 1].0.key_eq(k) {
                proof {
                    lemma_assoc_index_prefix(m, kv, j as int);
                    assert(m.subrange(0, j as int)[j - 1].0 == kv);
                }
                return Some(&self.entries[j - 1].1);
            }
            j = j - 1;
        }
        proof {
            lemma_assoc_index_prefix(m, kv, 0);
        }
        None
    }
}

/// The index of a key is found among the first `j` entries when none after them has it.
proof fn lemma_assoc_index_prefix<A, B>(m: Seq<(A, B)>, k: A, j: int)
    requires
        0 <= j <= m.len(),
        forall|t: int| j <= t < m.len() ==> m[t].0 != k,
    ensures
        assoc_index(m, k) == assoc_index(m.subrange(0, j), k),
    decreases m.len(),
{
    if j < m.len() {
        lemma_assoc_index_prefix(m.subrange(0, m.len() - 1), k, j);
        assert(m.subrange(0, m.len() - 1).subrange(0, j) =~= m.subrange(0, j));
    } else {
        assert(m.subrange(0, j) =~= m);
    }
}

/// A key held by no entry has no index.
proof fn lemma_assoc_absent<A, B>(m: Seq<(A, B)>, k: A)
    requires
        forall|i: int| 0 <= i < m.len() ==> m[i].0 != k,
    ensures
        assoc_index(m, k) == -1,
    decreases m.len(),
{
    if m.len() > 0 {
        lemma_assoc_absent(m.subrange(0, m.len() - 1), k);
    }
}

/// Inserting in order the entries of a map whose keys differ builds that map back.
pub proof fn lemma_assoc_from_distinct<A, B>(es: Seq<(A, B)>)
    requires
        assoc_distinct(es),
    ensures
        assoc_from(es) == es,
    decreases es.len(),
{
    if es.len() > 0 {
        let init = es.subrange(0, es.len() - 1);
        assert(assoc_distinct(init));
        lemma_assoc_from_distinct(init);
        lemma_assoc_absent(init, es[es.len() - 1].0);
        assert(init.push(es[es.len() - 1]) =~= es);
    }
}

// ---------------------------------------------------------------------------
// The written form
// ---------------------------------------------------------------------------

/// The bytes of entries: each key, then its value, fully qualified.
pub open spec fn pairs_bytes<K: Encode, V: Encode>(es: Seq<(K, V)>) -> Seq<u8>
    decreases es.len(),
{
    if es.len() == 0 {
        seq![]
    } else {
        pairs_bytes(es.subrange(0, es.len() - 1)) + es[es.len() - 1].0.spec_bytes()
            + es[es.len() - 1].1.spec_bytes()
    }
}

/// The partial form of a map: the number of entries as a 32-bit integer, then the entries.
pub open spec fn entry_map_partial_bytes<K: Encode, V: Encode>(es: Seq<(K, V)>) -> Seq<u8> {
    be_i32(es.len() as i32) + pairs_bytes(es)
}

/// Reads `n` entries one after another: a key, then a value.
pub open spec fn parse_pairs<K: Decode, V: Decode>(s: Seq<u8>, n: nat) -> Parsed<Seq<(K::V, V::V)>>
    decreases n,
{
    if n == 0 {
        Parsed::Done(seq![], 0)
    } else {
        match parse_pairs::<K, V>(s, (n - 1) as nat) {
            Parsed::Done(ps, k) => match K::spec_parse(s.skip(k)) {
                Parsed::Done(kv, m1) => match V::spec_parse(s.skip(k + m1)) {
                    Parsed::Done(vv, m2) => Parsed::Done(ps.push((kv, vv)), k + m1 + m2),
                    Parsed::Fail(e) => Parsed::Fail(e),
                    Parsed::Abort => Parsed::Abort,
                },
                Parsed::Fail(e) => Parsed::Fail(e),
                Parsed::Abort => Parsed::Abort,
            },
            Parsed::Fail(e) => Parsed::Fail(e),
            Parsed::Abort => Parsed::Abort,
        }
    }
}

/// Reads the partial form of a map: a 32-bit count, then that many entries, inserted in
/// order so that a later entry replaces an earlier one of the same key. A negative count is
/// not read (the reader gives up).
pub open spec fn parse_entry_map<K: Decode, V: Decode>(s: Seq<u8>) -> Parsed<Seq<(K::V, V::V)>> {
    match parse_i32(s) {
        Parsed::Done(len, _) => if len < 0 {
            Parsed::Abort
        } else {
            match parse_pairs::<K, V>(s.skip(4), len as nat) {
                Parsed::Done(ps, n) => Parsed::Done(assoc_from(ps), n + 4),
                Parsed::Fail(e) => Parsed::Fail(e),
                Parsed::Abort => Parsed::Abort,
            }
        },
        Parsed::Fail(e) => Parsed::Fail(e),
        Parsed::Abort => Parsed::Abort,
    }
}

/// Once reading `i` entries did not succeed, reading more ends the same way.
proof fn lemma_pairs_stuck<K: Decode, V: Decode>(s: Seq<u8>, i: nat, n: nat)
    requires
        i <= n,
        !(parse_pairs::<K, V>(s, i) is Done),
    ensures
        parse_pairs::<K, V>(s, n) == parse_pairs::<K, V>(s, i),
    decreases n,
{
    if n > i {
        lemma_pairs_stuck::<K, V>(s, i, (n - 1) as nat);
    }
}

impl<K: Encode, V: Encode> Encode for EntryMap<K, V> {
    open spec fn spec_bytes(&self) -> Seq<u8> {
        fq_bytes(0x0au8, entry_map_partial_bytes(self.entries@))
    }

    fn encode(&self, out: &mut Vec<u8>) {
        encode_fq(self, out);
    }
}

impl<K: Encode, V: Encode> PartialEncode for EntryMap<K, V> {
    open spec fn spec_type_code() -> u8 {
        0x0au8
    }

    open spec fn spec_partial_bytes(&self) -> Seq<u8> {
        entry_map_partial_bytes(self.entries@)
    }

    fn type_code() -> (code: u8) {
        CoreType::MapType.code()
    }

    fn partial_encode(&self, out: &mut Vec<u8>) {
        push_i32(out, self.entries.len() as i32);
        let ghost start = out@;
        let mut i: usize = 0;
        while i < self.entries.len()
            invariant
                i <= self.entries@.len(),
                out@ == start + pairs_bytes(self.entries@.subrange(0, i as int)),
            decreases self.entries@.len() - i,
        {
            self.entries[i].0.encode(out);
            self.entries[i].1.encode(out);
            proof {
                let s = self.entries@.subrange(0, i + 1);
                assert(s.subrange(0, s.len() - 1) =~= self.entries@.subrange(0, i as int));
                assert(out@ =~= start + pairs_bytes(s));
            }
            i = i + 1;
        }
        assert(self.entries@.subrange(0, i as int) =~= self.entries@);
        assert(out@ =~= old(out)@ + entry_map_partial_bytes(self.entries@));
    }
}

impl<K: Decode + KeyEq, V: Decode> Decode for EntryMap<K, V> {
    open spec fn spec_parse(s: Seq<u8>) -> Parsed<Seq<(K::V, V::V)>> {
        parse_fq::<EntryMap<K, V>>(s)
    }

    fn decode(buf: &[u8], pos: usize) -> (r: Result<(EntryMap<K, V>, usize), DecodeError>) {
        decode_fq(buf, pos)
    }
}

impl<K: Decode + KeyEq, V: Decode> PartialDecode for EntryMap<K, V> {
    open spec fn spec_expected_type_code() -> u8 {
        0x0au8
    }

    open spec fn spec_parse_partial(s: Seq<u8>) -> Parsed<Seq<(K::V, V::V)>> {
        parse_entry_map::<K, V>(s)
    }

    fn expected_type_code() -> (code: u8) {
        CoreType::MapType.code()
    }

    fn partial_decode(buf: &[u8], pos: usize) -> (r: Result<(EntryMap<K, V>, usize), DecodeError>) {
        let (len, p4) = match decode_i32_at(buf, pos) {
            Ok(x) => x,
            Err(e) => return Err(e),
        };
        let n = len as usize;
        let ghost s = buf@.skip(p4 as int);
        proof {
            assert(buf@.skip(pos as int).skip(4) =~= s);
        }
        let mut m: EntryMap<K, V> = EntryMap::new();
        let ghost mut raw: Seq<(K::V, V::V)> = seq![];
        let mut q = p4;
        let mut i: usize = 0;
        while i < n
            invariant
                p4 == pos + 4,
                p4 <= q <= buf@.len(),
                len >= 0,
                i <= n,
                n == len,
                s == buf@.skip(p4 as int),
                buf@.skip(pos as int).skip(4) == s,
                parse_i32(buf@.skip(pos as int)) == Parsed::Done(len, 4),
                parse_pairs::<K, V>(s, i as nat) == Parsed::Done(raw, q - p4),
                m.deep_view() == assoc_from(raw),
                !(parse_pairs::<K, V>(s, n as nat) is Abort),
            decreases n - i,
        {
            proof {
                assert(s.skip(q - p4) =~= buf@.skip(q as int));
                if K::spec_parse(buf@.skip(q as int)) is Abort {
                    lemma_pairs_stuck::<K, V>(s, (i + 1) as nat, n as nat);
                }
            }
            let (k, q1) = match K::decode(buf, q) {
                Ok(r) => r,
                Err(e) => {
                    proof {
                        lemma_pairs_stuck::<K, V>(s, (i + 1) as nat, n as nat);
                    }
                    return Err(e);
                },
            };
            proof {
                assert(s.skip(q1 - p4) =~= buf@.skip(q1 as int));
                if V::spec_parse(buf@.skip(q1 as int)) is Abort {
                    lemma_pairs_stuck::<K, V>(s, (i + 1) as nat, n as nat);
                }
            }
            let (v, q2) = match V::decode(buf, q1) {
                Ok(r) => r,
                Err(e) => {
                    proof {
                        lemma_pairs_stuck::<K, V>(s, (i + 1) as nat, n as nat);
                    }
                    return Err(e);
                },
            };
            let ghost e = (k.deep_view(), v.deep_view());
            proof {
                let r2 = raw.push(e);
                assert(r2.subrange(0, r2.len() - 1) =~= raw);
            }
            m.insert(k, v);
            proof {
                raw = raw.push(e);
            }
            q = q2;
            i = i + 1;
        }
        Ok((m, q))
    }
}

} // verus!
