//! What a server reports of a profiled traversal: the metrics of its steps, and the
//! strategies that a traversal is run with.

use vstd::prelude::*;
use crate::binary::{
    be_i32, be_i64, decode_i32_at, decode_i64_at, lemma_parse_i32_prefix, lemma_parse_i64_prefix,
    parse_i32, parse_i64, push_i32, push_i64,
};
use crate::codec::{decoded, fq_bytes, parse_fq_with, shift, Codec, Decode, Encode, Parsed, PartialDecode};
use crate::entry_map::{assoc_distinct, lemma_assoc_from_distinct, parse_entry_map, parse_pairs, EntryMap};
use crate::error::DecodeError;
use crate::primitives::{
    lemma_fq_string_roundtrip, lemma_string_roundtrip, parse_string, partial_decode_string,
    partial_encode_str, string_partial_bytes, string_wf,
};
use crate::roundtrip::{lemma_value_roundtrip, value_wf};
use crate::value::{encodable, read_as, value_bytes, value_view, GValue, GremlinValue};

verus! {

/// The metrics of a step of a profiled traversal, with those of the steps nested in it.
#[derive(Debug, PartialEq)]
pub struct Metrics {
    pub id: String,
    pub name: String,
    pub duration: i64,
    pub counts: EntryMap<String, i64>,
    pub annotations: EntryMap<String, GremlinValue>,
    pub nested_metrics: Vec<Metrics>,
}

/// The metrics of a profiled traversal: its duration and the metrics of its steps.
#[derive(Debug, PartialEq)]
pub struct TraversalMetrics {
    pub duration: i64,
    pub metrics: Vec<Metrics>,
}

/// A strategy of a traversal: the name of its class and its configuration.
#[derive(Debug, Clone, PartialEq)]
pub struct TraversalStrategy {
    pub strategy_class: String,
    pub configuration: EntryMap<String, GremlinValue>,
}

/// The model of metrics: texts as sequences of characters, maps as their entries in order,
/// values by their models.
pub struct MetricsView {
    pub id: Seq<char>,
    pub name: Seq<char>,
    pub duration: i64,
    pub counts: Seq<(Seq<char>, i64)>,
    pub annotations: Seq<(Seq<char>, GValue)>,
    pub nested: Seq<MetricsView>,
}

/// The model of metrics.
pub open spec fn metrics_view(m: Metrics) -> MetricsView
    decreases m,
{
    MetricsView {
        id: m.id@,
        name: m.name@,
        duration: m.duration,
        counts: m.counts.deep_view(),
        annotations: m.annotations.deep_view(),
        nested: metrics_list_view(m.nested_metrics@),
    }
}

/// The models of a list of metrics.
pub open spec fn metrics_list_view(s: Seq<Metrics>) -> Seq<MetricsView>
    decreases s,
{
    if s.len() == 0 {
        seq![]
    } else {
        metrics_list_view(s.subrange(0, s.len() - 1)).push(metrics_view(s[s.len() - 1]))
    }
}

impl DeepView for Metrics {
    type V = MetricsView;

    open spec fn deep_view(&self) -> MetricsView {
        metrics_view(*self)
    }
}

impl DeepView for TraversalMetrics {
    type V = (i64, Seq<MetricsView>);

    open spec fn deep_view(&self) -> (i64, Seq<MetricsView>) {
        (self.duration, metrics_list_view(self.metrics@))
    }
}

impl DeepView for TraversalStrategy {
    type V = (Seq<char>, Seq<(Seq<char>, GValue)>);

    open spec fn deep_view(&self) -> (Seq<char>, Seq<(Seq<char>, GValue)>) {
        (self.strategy_class@, self.configuration.deep_view())
    }
}

// ---------------------------------------------------------------------------
// The written form
// ---------------------------------------------------------------------------

/// The entries of a map of texts to longs: each key and each value fully qualified.
pub open spec fn counts_bytes(es: Seq<(Seq<char>, i64)>) -> Seq<u8>
    decreases es.len(),
{
    if es.len() == 0 {
        seq![]
    } else {
        counts_bytes(es.drop_last()) + (fq_bytes(0x03u8, string_partial_bytes(es.last().0))
            + fq_bytes(0x02u8, be_i64(es.last().1)))
    }
}

/// The entries of a map of texts to values: each key and each value fully qualified.
pub open spec fn text_values_bytes(es: Seq<(Seq<char>, GValue)>) -> Seq<u8>
    decreases es.len(),
{
    if es.len() == 0 {
        seq![]
    } else {
        text_values_bytes(es.drop_last()) + (fq_bytes(0x03u8, string_partial_bytes(es.last().0))
            + value_bytes(es.last().1))
    }
}

/// The values of a map of texts to values have a written form.
pub open spec fn text_values_encodable(es: Seq<(Seq<char>, GValue)>) -> bool {
    forall|i: int| 0 <= i < es.len() ==> encodable(#[trigger] es[i].1)
}

/// The partial form of metrics: id and name as texts, the duration, the counts and the
/// annotations as maps, and the nested metrics as a list of fully qualified metrics.
pub open spec fn metrics_partial_bytes(m: MetricsView) -> Seq<u8>
    decreases m,
{
    ((string_partial_bytes(m.id) + string_partial_bytes(m.name)) + be_i64(m.duration)) + ((
    be_i32(m.counts.len() as i32) + counts_bytes(m.counts)) + (be_i32(m.annotations.len() as i32)
        + text_values_bytes(m.annotations))) + (be_i32(m.nested.len() as i32) + metrics_seq_bytes(
        m.nested,
    ))
}

/// Metrics written one after another, each fully qualified behind the type code 0x2c.
pub open spec fn metrics_seq_bytes(s: Seq<MetricsView>) -> Seq<u8>
    decreases s,
{
    if s.len() == 0 {
        seq![]
    } else {
        metrics_seq_bytes(s.subrange(0, s.len() - 1)) + fq_bytes(
            0x2cu8,
            metrics_partial_bytes(s[s.len() - 1]),
        )
    }
}

/// Every annotation of the metrics and of the metrics nested in them has a written form.
pub open spec fn metrics_encodable(m: MetricsView) -> bool
    decreases m,
{
    &&& text_values_encodable(m.annotations)
    &&& forall|i: int| 0 <= i < m.nested.len() ==> metrics_encodable(#[trigger] m.nested[i])
}

/// The partial form of traversal metrics: the duration, then the metrics as a list.
pub open spec fn traversal_metrics_partial_bytes(t: (i64, Seq<MetricsView>)) -> Seq<u8> {
    be_i64(t.0) + (be_i32(t.1.len() as i32) + metrics_seq_bytes(t.1))
}

/// The partial form of a strategy: the class name as a text, then the configuration as a map.
pub open spec fn strategy_partial_bytes(t: (Seq<char>, Seq<(Seq<char>, GValue)>)) -> Seq<u8> {
    string_partial_bytes(t.0) + (be_i32(t.1.len() as i32) + text_values_bytes(t.1))
}

/// Appends a count and the entries of a map of texts to longs.
fn encode_counts(m: &EntryMap<String, i64>, out: &mut Vec<u8>)
    ensures
        final(out)@ == old(out)@ + (be_i32(m.deep_view().len() as i32) + counts_bytes(
            m.deep_view(),
        )),
{
    push_i32(out, m.entries.len() as i32);
    let ghost start = out@;
    let ghost es = m.deep_view();
    let mut i: usize = 0;
    while i < m.entries.len()
        invariant
            i <= m.entries@.len(),
            es == m.deep_view(),
            es.len() == m.entries@.len(),
            out@ == start + counts_bytes(es.subrange(0, i as int)),
        decreases m.entries@.len() - i,
    {
        m.entries[i].0.encode(out);
        m.entries[i].1.encode(out);
        proof {
            let s = es.subrange(0, i + 1);
            assert(s.drop_last() =~= es.subrange(0, i as int));
            assert(s.last() == (m.entries@[i as int].0@, m.entries@[i as int].1));
        }
        i = i + 1;
        proof {
            assert(out@ =~= start + counts_bytes(es.subrange(0, i as int)));
        }
    }
    proof {
        assert(es.subrange(0, i as int) =~= es);
    }
}

/// Appends a count and the entries of a map of texts to values.
fn encode_text_values(m: &EntryMap<String, GremlinValue>, out: &mut Vec<u8>)
    requires
        text_values_encodable(m.deep_view()),
    ensures
        final(out)@ == old(out)@ + (be_i32(m.deep_view().len() as i32) + text_values_bytes(
            m.deep_view(),
        )),
{
    push_i32(out, m.entries.len() as i32);
    let ghost start = out@;
    let ghost es = m.deep_view();
    let mut i: usize = 0;
    while i < m.entries.len()
        invariant
            i <= m.entries@.len(),
            es == m.deep_view(),
            es.len() == m.entries@.len(),
            text_values_encodable(es),
            out@ == start + text_values_bytes(es.subrange(0, i as int)),
        decreases m.entries@.len() - i,
    {
        proof {
            assert(es[i as int] == (m.entries@[i as int].0@, value_view(m.entries@[i as int].1)));
            assert(encodable(es[i as int].1));
        }
        m.entries[i].0.encode(out);
        m.entries[i].1.encode(out);
        proof {
            let s = es.subrange(0, i + 1);
            assert(s.drop_last() =~= es.subrange(0, i as int));
            assert(s.last() == es[i as int]);
        }
        i = i + 1;
        proof {
            assert(out@ =~= start + text_values_bytes(es.subrange(0, i as int)));
        }
    }
    proof {
        assert(es.subrange(0, i as int) =~= es);
    }
}

/// The models of a list of metrics, one by one.
pub proof fn lemma_metrics_list_view(s: Seq<Metrics>)
    ensures
        metrics_list_view(s).len() == s.len(),
        forall|i: int| 0 <= i < s.len() ==> #[trigger] metrics_list_view(s)[i] == metrics_view(s[i]),
    decreases s.len(),
{
    if s.len() > 0 {
        lemma_metrics_list_view(s.subrange(0, s.len() - 1));
        assert forall|i: int| 0 <= i < s.len() implies #[trigger] metrics_list_view(s)[i]
            == metrics_view(s[i]) by {
            if i < s.len() - 1 {
                assert(s.subrange(0, s.len() - 1)[i] == s[i]);
            }
        }
    }
}

/// Appends the partial form of metrics.
fn encode_metrics_partial(m: &Metrics, out: &mut Vec<u8>)
    requires
        metrics_encodable(metrics_view(*m)),
    ensures
        final(out)@ == old(out)@ + metrics_partial_bytes(metrics_view(*m)),
    decreases m, 1int,
{
    partial_encode_str(m.id.as_str(), out);
    partial_encode_str(m.name.as_str(), out);
    push_i64(out, m.duration);
    encode_counts(&m.counts, out);
    encode_text_values(&m.annotations, out);
    proof {
        let v = metrics_view(*m);
        lemma_metrics_list_view(m.nested_metrics@);
        assert forall|i: int| 0 <= i < m.nested_metrics@.len() implies metrics_encodable(
            #[trigger] metrics_view(m.nested_metrics@[i]),
        ) by {
            assert(v.nested[i] == metrics_view(m.nested_metrics@[i]));
        }
    }
    encode_metrics_list(&m.nested_metrics, out);
    proof {
        let v = metrics_view(*m);
        assert(out@ =~= old(out)@ + metrics_partial_bytes(v));
    }
}

/// Appends a count and metrics, each fully qualified.
fn encode_metrics_list(ms: &Vec<Metrics>, out: &mut Vec<u8>)
    requires
        forall|i: int| 0 <= i < ms@.len() ==> metrics_encodable(#[trigger] metrics_view(ms@[i])),
    ensures
        final(out)@ == old(out)@ + (be_i32(metrics_list_view(ms@).len() as i32) + metrics_seq_bytes(
            metrics_list_view(ms@),
        )),
    decreases ms, 0int,
{
    proof {
        lemma_metrics_list_view(ms@);
    }
    push_i32(out, ms.len() as i32);
    let ghost start = out@;
    let mut i: usize = 0;
    while i < ms.len()
        invariant
            i <= ms@.len(),
            forall|k: int| 0 <= k < ms@.len() ==> metrics_encodable(#[trigger] metrics_view(ms@[k])),
            out@ == start + metrics_seq_bytes(metrics_list_view(ms@.subrange(0, i as int))),
        decreases ms@.len() - i,
    {
        proof {
            assert(metrics_encodable(metrics_view(ms@[i as int])));
        }
        out.push(0x2cu8);
        out.push(0x00u8);
        encode_metrics_partial(&ms[i], out);
        proof {
            let s = ms@.subrange(0, i + 1);
            assert(s.subrange(0, s.len() - 1) =~= ms@.subrange(0, i as int));
            lemma_metrics_list_view(s);
            lemma_metrics_list_view(ms@.subrange(0, i as int));
            let vs = metrics_list_view(s);
            assert(vs.subrange(0, vs.len() - 1) =~= metrics_list_view(ms@.subrange(0, i as int)));
            assert(vs[vs.len() - 1] == metrics_view(ms@[i as int]));
        }
        i = i + 1;
        proof {
            assert(out@ =~= start + metrics_seq_bytes(metrics_list_view(ms@.subrange(0, i as int))));
        }
    }
    proof {
        assert(ms@.subrange(0, i as int) =~= ms@);
    }
}

impl Metrics {
    /// Appends the fully qualified bytes of the metrics: the type code 0x2c, the set flag and
    /// the partial form. Metrics with an annotation that has no written form are not accepted.
    pub fn encode(&self, out: &mut Vec<u8>)
        requires
            metrics_encodable(self.deep_view()),
        ensures
            final(out)@ == old(out)@ + fq_bytes(0x2cu8, metrics_partial_bytes(self.deep_view())),
    {
        out.push(0x2cu8);
        out.push(0x00u8);
        encode_metrics_partial(self, out);
        assert(out@ =~= old(out)@ + fq_bytes(0x2cu8, metrics_partial_bytes(self.deep_view())));
    }
}

impl TraversalMetrics {
    /// Appends the fully qualified bytes of the traversal metrics: the type code 0x2d, the
    /// set flag, the duration and the metrics as a list.
    pub fn encode(&self, out: &mut Vec<u8>)
        requires
            forall|i: int| 0 <= i < self.metrics@.len() ==> metrics_encodable(
                #[trigger] metrics_view(self.metrics@[i]),
            ),
        ensures
            final(out)@ == old(out)@ + fq_bytes(
                0x2du8,
                traversal_metrics_partial_bytes(self.deep_view()),
            ),
    {
        out.push(0x2du8);
        out.push(0x00u8);
        push_i64(out, self.duration);
        encode_metrics_list(&self.metrics, out);
        assert(out@ =~= old(out)@ + fq_bytes(0x2du8, traversal_metrics_partial_bytes(self.deep_view())));
    }
}

impl TraversalStrategy {
    /// Appends the fully qualified bytes of the strategy: the type code 0x29, the set flag,
    /// the class name and the configuration as a map.
    pub fn encode(&self, out: &mut Vec<u8>)
        requires
            text_values_encodable(self.configuration.deep_view()),
        ensures
            final(out)@ == old(out)@ + fq_bytes(0x29u8, strategy_partial_bytes(self.deep_view())),
    {
        out.push(0x29u8);
        out.push(0x00u8);
        partial_encode_str(self.strategy_class.as_str(), out);
        encode_text_values(&self.configuration, out);
        assert(out@ =~= old(out)@ + fq_bytes(0x29u8, strategy_partial_bytes(self.deep_view())));
    }
}

// ---------------------------------------------------------------------------
// Reading
// ---------------------------------------------------------------------------

/// Reads the first fields of metrics: the id and the name as texts, then the duration.
pub open spec fn parse_metrics_head(t: Seq<u8>) -> Parsed<(Seq<char>, Seq<char>, i64)> {
    match parse_string(t) {
        Parsed::Done(id, n1) => if 0 <= n1 <= t.len() {
            match parse_string(t.skip(n1)) {
                Parsed::Done(name, n2) => if 0 <= n1 + n2 <= t.len() {
                    match parse_i64(t.skip(n1 + n2)) {
                        Parsed::Done(d, n3) => Parsed::Done((id, name, d), n1 + n2 + n3),
                        Parsed::Fail(e) => Parsed::Fail(e),
                        Parsed::Abort => Parsed::Abort,
                    }
                } else {
                    Parsed::Fail(DecodeError::UnexpectedEof)
                },
                Parsed::Fail(e) => Parsed::Fail(e),
                Parsed::Abort => Parsed::Abort,
            }
        } else {
            Parsed::Fail(DecodeError::UnexpectedEof)
        },
        Parsed::Fail(e) => Parsed::Fail(e),
        Parsed::Abort => Parsed::Abort,
    }
}

/// Reads the maps of metrics: the counts, then the annotations.
pub open spec fn parse_metrics_maps(t: Seq<u8>) -> Parsed<
    (Seq<(Seq<char>, i64)>, Seq<(Seq<char>, GValue)>),
> {
    match parse_entry_map::<String, i64>(t) {
        Parsed::Done(c, n1) => if 0 <= n1 <= t.len() {
            match parse_entry_map::<String, GremlinValue>(t.skip(n1)) {
                Parsed::Done(a, n2) => Parsed::Done((c, a), n1 + n2),
                Parsed::Fail(e) => Parsed::Fail(e),
                Parsed::Abort => Parsed::Abort,
            }
        } else {
            Parsed::Fail(DecodeError::UnexpectedEof)
        },
        Parsed::Fail(e) => Parsed::Fail(e),
        Parsed::Abort => Parsed::Abort,
    }
}

/// Reads fully qualified metrics: the type code 0x2c and the set flag, else a
/// `TypeMismatch`, then the partial form.
pub open spec fn parse_metrics(s: Seq<u8>) -> Parsed<MetricsView>
    decreases s.len(), 0int,
{
    if s.len() < 2 {
        Parsed::Fail(DecodeError::UnexpectedEof)
    } else if s[0] == 0x2cu8 && s[1] == 0x00u8 {
        shift(parse_metrics_partial(s.skip(2)), 2)
    } else {
        Parsed::Fail(DecodeError::TypeMismatch)
    }
}

/// Reads the partial form of metrics: the first fields, the maps, then the nested metrics.
pub open spec fn parse_metrics_partial(t: Seq<u8>) -> Parsed<MetricsView>
    decreases t.len(), 4int,
{
    match parse_metrics_head(t) {
        Parsed::Done(h, n1) => if 0 <= n1 <= t.len() {
            match parse_metrics_maps(t.skip(n1)) {
                Parsed::Done(mp, n2) => if 0 <= n1 + n2 <= t.len() {
                    match parse_metrics_list(t.skip(n1 + n2)) {
                        Parsed::Done(nested, n3) => Parsed::Done(
                            MetricsView {
                                id: h.0,
                                name: h.1,
                                duration: h.2,
                                counts: mp.0,
                                annotations: mp.1,
                                nested,
                            },
                            n1 + n2 + n3,
                        ),
                        Parsed::Fail(e) => Parsed::Fail(e),
                        Parsed::Abort => Parsed::Abort,
                    }
                } else {
                    Parsed::Fail(DecodeError::UnexpectedEof)
                },
                Parsed::Fail(e) => Parsed::Fail(e),
                Parsed::Abort => Parsed::Abort,
            }
        } else {
            Parsed::Fail(DecodeError::UnexpectedEof)
        },
        Parsed::Fail(e) => Parsed::Fail(e),
        Parsed::Abort => Parsed::Abort,
    }
}

/// Reads a list of metrics: a 32-bit count, then that many fully qualified metrics; a
/// negative count is `NegativeLength`.
pub open spec fn parse_metrics_list(t: Seq<u8>) -> Parsed<Seq<MetricsView>>
    decreases t.len(), 2int,
{
    match parse_i32(t) {
        Parsed::Done(len, _) => if len < 0 {
            Parsed::Fail(DecodeError::NegativeLength)
        } else {
            shift(parse_metrics_seq(t.skip(4), len as nat), 4)
        },
        Parsed::Fail(e) => Parsed::Fail(e),
        Parsed::Abort => Parsed::Abort,
    }
}

/// Reads `n` fully qualified metrics one after another.
pub open spec fn parse_metrics_seq(s: Seq<u8>, n: nat) -> Parsed<Seq<MetricsView>>
    decreases s.len(), n + 3,
{
    if n == 0 {
        Parsed::Done(seq![], 0)
    } else {
        match parse_metrics_seq(s, (n - 1) as nat) {
            Parsed::Done(ms, k) => if 0 <= k <= s.len() {
                match parse_metrics(s.skip(k)) {
                    Parsed::Done(m, j) => Parsed::Done(ms.push(m), k + j),
                    Parsed::Fail(e) => Parsed::Fail(e),
                    Parsed::Abort => Parsed::Abort,
                }
            } else {
                Parsed::Fail(DecodeError::UnexpectedEof)
            },
            Parsed::Fail(e) => Parsed::Fail(e),
            Parsed::Abort => Parsed::Abort,
        }
    }
}

/// Reads the partial form of traversal metrics: the duration, then a list of metrics.
pub open spec fn parse_traversal_metrics_partial(t: Seq<u8>) -> Parsed<(i64, Seq<MetricsView>)> {
    match parse_i64(t) {
        Parsed::Done(d, n1) => match parse_metrics_list(t.skip(n1)) {
            Parsed::Done(ms, n2) => Parsed::Done((d, ms), n1 + n2),
            Parsed::Fail(e) => Parsed::Fail(e),
            Parsed::Abort => Parsed::Abort,
        },
        Parsed::Fail(e) => Parsed::Fail(e),
        Parsed::Abort => Parsed::Abort,
    }
}

/// Reads the partial form of a strategy: the class name as a text, then the configuration.
pub open spec fn parse_strategy_partial(t: Seq<u8>) -> Parsed<(Seq<char>, Seq<(Seq<char>, GValue)>)> {
    match parse_string(t) {
        Parsed::Done(c, n1) => if 0 <= n1 <= t.len() {
            match parse_entry_map::<String, GremlinValue>(t.skip(n1)) {
                Parsed::Done(cfg, n2) => Parsed::Done((c, cfg), n1 + n2),
                Parsed::Fail(e) => Parsed::Fail(e),
                Parsed::Abort => Parsed::Abort,
            }
        } else {
            Parsed::Fail(DecodeError::UnexpectedEof)
        },
        Parsed::Fail(e) => Parsed::Fail(e),
        Parsed::Abort => Parsed::Abort,
    }
}

/// Reads fully qualified traversal metrics: the type code 0x2d and the set flag, else a
/// `TypeMismatch`, then the partial form.
pub open spec fn parse_traversal_metrics(s: Seq<u8>) -> Parsed<(i64, Seq<MetricsView>)> {
    parse_fq_with(s, 0x2du8, |t: Seq<u8>| parse_traversal_metrics_partial(t))
}

/// Reads a fully qualified strategy: the type code 0x29 and the set flag, else a
/// `TypeMismatch`, then the partial form.
pub open spec fn parse_strategy(s: Seq<u8>) -> Parsed<(Seq<char>, Seq<(Seq<char>, GValue)>)> {
    parse_fq_with(s, 0x29u8, |t: Seq<u8>| parse_strategy_partial(t))
}

/// Reads the first fields of metrics at `pos`.
fn decode_metrics_head(buf: &[u8], pos: usize) -> (r: Result<((String, String, i64), usize), DecodeError>)
    requires
        pos <= buf@.len(),
    ensures
        read_as(
            parse_metrics_head(buf@.skip(pos as int)),
            r,
            pos as int,
            buf@.len() as int,
            |h: (String, String, i64)| (h.0@, h.1@, h.2),
        ),
{
    let ghost t = buf@.skip(pos as int);
    let (id, q1) = match partial_decode_string(buf, pos) {
        Ok(x) => x,
        Err(e) => return Err(e),
    };
    proof {
        assert(t.skip(q1 - pos) =~= buf@.skip(q1 as int));
    }
    let (name, q2) = match partial_decode_string(buf, q1) {
        Ok(x) => x,
        Err(e) => return Err(e),
    };
    proof {
        assert(t.skip(q2 - pos) =~= buf@.skip(q2 as int));
    }
    let (d, q3) = match decode_i64_at(buf, q2) {
        Ok(x) => x,
        Err(e) => return Err(e),
    };
    Ok(((id, name, d), q3))
}

/// Reads the maps of metrics at `pos`.
fn decode_metrics_maps(buf: &[u8], pos: usize) -> (r: Result<
    ((EntryMap<String, i64>, EntryMap<String, GremlinValue>), usize),
    DecodeError,
>)
    requires
        pos <= buf@.len(),
        !(parse_metrics_maps(buf@.skip(pos as int)) is Abort),
    ensures
        read_as(
            parse_metrics_maps(buf@.skip(pos as int)),
            r,
            pos as int,
            buf@.len() as int,
            |m: (EntryMap<String, i64>, EntryMap<String, GremlinValue>)| (m.0.deep_view(), m.1.deep_view()),
        ),
{
    let ghost t = buf@.skip(pos as int);
    let (c, q1) = match EntryMap::<String, i64>::partial_decode(buf, pos) {
        Ok(x) => x,
        Err(e) => return Err(e),
    };
    proof {
        assert(t.skip(q1 - pos) =~= buf@.skip(q1 as int));
    }
    let (a, q2) = match EntryMap::<String, GremlinValue>::partial_decode(buf, q1) {
        Ok(x) => x,
        Err(e) => return Err(e),
    };
    Ok(((c, a), q2))
}

/// Once reading `i` metrics has failed or given up, so has reading more.
proof fn lemma_metrics_seq_stuck(s: Seq<u8>, i: nat, n: nat)
    requires
        i <= n,
        !(parse_metrics_seq(s, i) is Done),
    ensures
        parse_metrics_seq(s, n) == parse_metrics_seq(s, i),
    decreases n,
{
    if n > i {
        lemma_metrics_seq_stuck(s, i, (n - 1) as nat);
    }
}

/// Reads fully qualified metrics at `pos`.
fn decode_metrics_fq(buf: &[u8], pos: usize) -> (r: Result<(Metrics, usize), DecodeError>)
    requires
        pos <= buf@.len(),
        !(parse_metrics(buf@.skip(pos as int)) is Abort),
    ensures
        read_as(
            parse_metrics(buf@.skip(pos as int)),
            r,
            pos as int,
            buf@.len() as int,
            |m: Metrics| metrics_view(m),
        ),
    decreases buf@.len() - pos, 0int,
{
    if buf.len() - pos < 2 {
        return Err(DecodeError::UnexpectedEof);
    }
    if buf[pos] == 0x2cu8 && buf[pos + 1] == 0x00u8 {
        proof {
            assert(buf@.skip(pos as int).skip(2) =~= buf@.skip(pos + 2));
        }
        decode_metrics_partial(buf, pos + 2)
    } else {
        Err(DecodeError::TypeMismatch)
    }
}

/// Reads the partial form of metrics at `pos`.
#[verifier::rlimit(60)]
#[verifier::spinoff_prover]
fn decode_metrics_partial(buf: &[u8], pos: usize) -> (r: Result<(Metrics, usize), DecodeError>)
    requires
        pos <= buf@.len(),
        !(parse_metrics_partial(buf@.skip(pos as int)) is Abort),
    ensures
        read_as(
            parse_metrics_partial(buf@.skip(pos as int)),
            r,
            pos as int,
            buf@.len() as int,
            |m: Metrics| metrics_view(m),
        ),
    decreases buf@.len() - pos, 2int,
{
    let ghost t = buf@.skip(pos as int);
    let ((id, name, duration), q1) = match decode_metrics_head(buf, pos) {
        Ok(x) => x,
        Err(e) => return Err(e),
    };
    proof {
        assert(t.skip(q1 - pos) =~= buf@.skip(q1 as int));
    }
    let ((counts, annotations), q2) = match decode_metrics_maps(buf, q1) {
        Ok(x) => x,
        Err(e) => return Err(e),
    };
    proof {
        assert(t.skip(q2 - pos) =~= buf@.skip(q2 as int));
    }
    let (nested_metrics, q3) = match decode_metrics_list(buf, q2) {
        Ok(x) => x,
        Err(e) => return Err(e),
    };
    Ok((Metrics { id, name, duration, counts, annotations, nested_metrics }, q3))
}

/// Reads a list of metrics at `pos`: a count, then fully qualified metrics.
#[verifier::rlimit(60)]
#[verifier::spinoff_prover]
fn decode_metrics_list(buf: &[u8], pos: usize) -> (r: Result<(Vec<Metrics>, usize), DecodeError>)
    requires
        pos <= buf@.len(),
        !(parse_metrics_list(buf@.skip(pos as int)) is Abort),
    ensures
        read_as(
            parse_metrics_list(buf@.skip(pos as int)),
            r,
            pos as int,
            buf@.len() as int,
            |ms: Vec<Metrics>| metrics_list_view(ms@),
        ),
    decreases buf@.len() - pos, 1int,
{
    let (len, p4) = match decode_i32_at(buf, pos) {
        Ok(x) => x,
        Err(e) => return Err(e),
    };
    if len < 0 {
        return Err(DecodeError::NegativeLength);
    }
    let n = len as usize;
    let ghost s = buf@.skip(p4 as int);
    proof {
        assert(buf@.skip(pos as int).skip(4) =~= s);
    }
    let mut ms: Vec<Metrics> = Vec::new();
    let mut q = p4;
    let mut i: usize = 0;
    while i < n
        invariant
            p4 == pos + 4,
            p4 <= q <= buf@.len(),
            len >= 0,
            i <= n,
            n == len,
            s == buf@.skip(p4 as int),
            buf@.skip(pos as int).skip(4) == s,
            parse_i32(buf@.skip(pos as int)) == Parsed::Done(len, 4),
            parse_metrics_seq(s, i as nat) == Parsed::Done(metrics_list_view(ms@), q - p4),
            !(parse_metrics_seq(s, n as nat) is Abort),
        decreases n - i,
    {
        proof {
            assert(s.skip(q - p4) =~= buf@.skip(q as int));
            if parse_metrics(buf@.skip(q as int)) is Abort {
                lemma_metrics_seq_stuck(s, (i + 1) as nat, n as nat);
            }
        }
        let (m, q1) = match decode_metrics_fq(buf, q) {
            Ok(x) => x,
            Err(e) => {
                proof {
                    lemma_metrics_seq_stuck(s, (i + 1) as nat, n as nat);
                }
                return Err(e);
            },
        };
        proof {
            assert(ms@.push(m).subrange(0, ms@.len() as int) =~= ms@);
        }
        ms.push(m);
        q = q1;
        i = i + 1;
    }
    Ok((ms, q))
}

impl Metrics {
    /// Reads fully qualified metrics at `pos`: the type code 0x2c, the set flag and the
    /// partial form; returns them and the position after them.
    pub fn decode(buf: &[u8], pos: usize) -> (r: Result<(Metrics, usize), DecodeError>)
        requires
            pos <= buf@.len(),
            !(parse_metrics(buf@.skip(pos as int)) is Abort),
        ensures
            decoded(parse_metrics(buf@.skip(pos as int)), r, pos as int, buf@.len() as int),
    {
        decode_metrics_fq(buf, pos)
    }

    /// Reads the partial form of metrics at `pos`.
    pub fn partial_decode(buf: &[u8], pos: usize) -> (r: Result<(Metrics, usize), DecodeError>)
        requires
            pos <= buf@.len(),
            !(parse_metrics_partial(buf@.skip(pos as int)) is Abort),
        ensures
            decoded(parse_metrics_partial(buf@.skip(pos as int)), r, pos as int, buf@.len() as int),
    {
        decode_metrics_partial(buf, pos)
    }
}

impl TraversalMetrics {
    /// Reads the partial form of traversal metrics at `pos`: the duration, then a list of
    /// metrics.
    pub fn partial_decode(buf: &[u8], pos: usize) -> (r: Result<(TraversalMetrics, usize), DecodeError>)
        requires
            pos <= buf@.len(),
            !(parse_traversal_metrics_partial(buf@.skip(pos as int)) is Abort),
        ensures
            decoded(
                parse_traversal_metrics_partial(buf@.skip(pos as int)),
                r,
                pos as int,
                buf@.len() as int,
            ),
    {
        let (duration, q1) = match decode_i64_at(buf, pos) {
            Ok(x) => x,
            Err(e) => return Err(e),
        };
        proof {
            assert(buf@.skip(pos as int).skip(q1 - pos) =~= buf@.skip(q1 as int));
        }
        let (metrics, q2) = match decode_metrics_list(buf, q1) {
            Ok(x) => x,
            Err(e) => return Err(e),
        };
        Ok((TraversalMetrics { duration, metrics }, q2))
    }

    /// Reads fully qualified traversal metrics at `pos`: the type code 0x2d, the set flag
    /// and the partial form.
    pub fn decode(buf: &[u8], pos: usize) -> (r: Result<(TraversalMetrics, usize), DecodeError>)
        requires
            pos <= buf@.len(),
            !(parse_traversal_metrics(buf@.skip(pos as int)) is Abort),
        ensures
            decoded(parse_traversal_metrics(buf@.skip(pos as int)), r, pos as int, buf@.len() as int),
    {
        if buf.len() - pos < 2 {
            return Err(DecodeError::UnexpectedEof);
        }
        if buf[pos] == 0x2du8 && buf[pos + 1] == 0x00u8 {
            proof {
                assert(buf@.skip(pos as int).skip(2) =~= buf@.skip(pos + 2));
            }
            Self::partial_decode(buf, pos + 2)
        } else {
            Err(DecodeError::TypeMismatch)
        }
    }
}

impl TraversalStrategy {
    /// Reads the partial form of a strategy at `pos`: the class name, then the configuration.
    pub fn partial_decode(buf: &[u8], pos: usize) -> (r: Result<(TraversalStrategy, usize), DecodeError>)
        requires
            pos <= buf@.len(),
            !(parse_strategy_partial(buf@.skip(pos as int)) is Abort),
        ensures
            decoded(parse_strategy_partial(buf@.skip(pos as int)), r, pos as int, buf@.len() as int),
    {
        let (strategy_class, q1) = match partial_decode_string(buf, pos) {
            Ok(x) => x,
            Err(e) => return Err(e),
        };
        proof {
            assert(buf@.skip(pos as int).skip(q1 - pos) =~= buf@.skip(q1 as int));
        }
        let (configuration, q2) = match EntryMap::<String, GremlinValue>::partial_decode(buf, q1) {
            Ok(x) => x,
            Err(e) => return Err(e),
        };
        Ok((TraversalStrategy { strategy_class, configuration }, q2))
    }

    /// Reads a fully qualified strategy at `pos`: the type code 0x29, the set flag and the
    /// partial form.
    pub fn decode(buf: &[u8], pos: usize) -> (r: Result<(TraversalStrategy, usize), DecodeError>)
        requires
            pos <= buf@.len(),
            !(parse_strategy(buf@.skip(pos as int)) is Abort),
        ensures
            decoded(parse_strategy(buf@.skip(pos as int)), r, pos as int, buf@.len() as int),
    {
        if buf.len() - pos < 2 {
            return Err(DecodeError::UnexpectedEof);
        }
        if buf[pos] == 0x29u8 && buf[pos + 1] == 0x00u8 {
            proof {
                assert(buf@.skip(pos as int).skip(2) =~= buf@.skip(pos + 2));
            }
            Self::partial_decode(buf, pos + 2)
        } else {
            Err(DecodeError::TypeMismatch)
        }
    }
}

// ---------------------------------------------------------------------------
// Reading back what was written
// ---------------------------------------------------------------------------

/// A map of texts to longs that reads back as itself: it fits the 32-bit count, its keys
/// fit the 32-bit text lengths and no two entries have the same key.
pub open spec fn counts_wf(es: Seq<(Seq<char>, i64)>) -> bool {
    &&& es.len() <= i32::MAX
    &&& assoc_distinct(es)
    &&& forall|i: int| 0 <= i < es.len() ==> string_wf(#[trigger] es[i].0)
}

/// A map of texts to values that reads back as itself: as for counts, and every value is
/// well formed.
pub open spec fn text_values_wf(es: Seq<(Seq<char>, GValue)>) -> bool {
    &&& es.len() <= i32::MAX
    &&& assoc_distinct(es)
    &&& forall|i: int| 0 <= i < es.len() ==> string_wf(#[trigger] es[i].0) && value_wf(es[i].1)
}

/// Metrics that read back as themselves: texts, maps and lists fit their 32-bit prefixes,
/// no map has two entries with the same key, and so for the nested metrics.
pub open spec fn metrics_wf(m: MetricsView) -> bool
    decreases m,
{
    &&& string_wf(m.id)
    &&& string_wf(m.name)
    &&& counts_wf(m.counts)
    &&& text_values_wf(m.annotations)
    &&& m.nested.len() <= i32::MAX
    &&& forall|i: int| 0 <= i < m.nested.len() ==> metrics_wf(#[trigger] m.nested[i])
}

/// The entries of counts read back one by one.
#[verifier::rlimit(100)]
#[verifier::spinoff_prover]
proof fn lemma_counts_pairs(es: Seq<(Seq<char>, i64)>, rest: Seq<u8>)
    requires
        forall|i: int| 0 <= i < es.len() ==> string_wf(#[trigger] es[i].0),
    ensures
        parse_pairs::<String, i64>(counts_bytes(es) + rest, es.len()) == Parsed::Done(
            es,
            counts_bytes(es).len() as int,
        ),
    decreases es.len(),
{
    if es.len() > 0 {
        let init = es.drop_last();
        let k = es.last().0;
        let v = es.last().1;
        let a = fq_bytes(0x03u8, string_partial_bytes(k));
        let b = fq_bytes(0x02u8, be_i64(v));
        let s = counts_bytes(es) + rest;
        assert(s =~= counts_bytes(init) + ((a + b) + rest));
        assert forall|i: int| 0 <= i < init.len() implies string_wf(#[trigger] init[i].0) by {
            assert(init[i] == es[i]);
        }
        lemma_counts_pairs(init, (a + b) + rest);
        let n0 = counts_bytes(init).len() as int;
        assert(s.skip(n0) =~= a + (b + rest));
        assert(string_wf(es[es.len() - 1].0));
        lemma_fq_string_roundtrip(k, b + rest);
        assert(s.skip(n0 + a.len()) =~= b + rest);
        v.lemma_roundtrip(rest);
        assert(init.len() == (es.len() - 1) as nat);
        assert(parse_pairs::<String, i64>(s, init.len()) == Parsed::Done(init, n0));
        assert(<String as Decode>::spec_parse(s.skip(n0)) == Parsed::Done(k, a.len() as int));
        assert(<i64 as Decode>::spec_parse(s.skip(n0 + a.len())) == Parsed::Done(v, b.len() as int));
        assert(init.push((k, v)) =~= es);
    } else {
        assert(es =~= seq![]);
    }
}

/// The entries of a map of texts to values read back one by one.
#[verifier::rlimit(100)]
#[verifier::spinoff_prover]
proof fn lemma_text_values_pairs(es: Seq<(Seq<char>, GValue)>, rest: Seq<u8>)
    requires
        forall|i: int| 0 <= i < es.len() ==> string_wf(#[trigger] es[i].0) && value_wf(es[i].1),
    ensures
        parse_pairs::<String, GremlinValue>(text_values_bytes(es) + rest, es.len())
            == Parsed::Done(es, text_values_bytes(es).len() as int),
    decreases es.len(),
{
    if es.len() > 0 {
        let init = es.drop_last();
        let k = es.last().0;
        let v = es.last().1;
        let a = fq_bytes(0x03u8, string_partial_bytes(k));
        let b = value_bytes(v);
        let s = text_values_bytes(es) + rest;
        assert(s =~= text_values_bytes(init) + ((a + b) + rest));
        assert forall|i: int| 0 <= i < init.len() implies string_wf(#[trigger] init[i].0)
            && value_wf(init[i].1) by {
            assert(init[i] == es[i]);
        }
        lemma_text_values_pairs(init, (a + b) + rest);
        let n0 = text_values_bytes(init).len() as int;
        assert(s.skip(n0) =~= a + (b + rest));
        assert(string_wf(es[es.len() - 1].0) && value_wf(es[es.len() - 1].1));
        lemma_fq_string_roundtrip(k, b + rest);
        assert(s.skip(n0 + a.len()) =~= b + rest);
        lemma_value_roundtrip(v, rest);
        assert(init.len() == (es.len() - 1) as nat);
        assert(parse_pairs::<String, GremlinValue>(s, init.len()) == Parsed::Done(init, n0));
        assert(<String as Decode>::spec_parse(s.skip(n0)) == Parsed::Done(k, a.len() as int));
        assert(<GremlinValue as Decode>::spec_parse(s.skip(n0 + a.len())) == Parsed::Done(
            v,
            b.len() as int,
        ));
        assert(init.push((k, v)) =~= es);
    } else {
        assert(es =~= seq![]);
    }
}

/// Counts read back as themselves.
#[verifier::rlimit(100)]
#[verifier::spinoff_prover]
proof fn lemma_counts_roundtrip(es: Seq<(Seq<char>, i64)>, rest: Seq<u8>)
    requires
        counts_wf(es),
    ensures
        parse_entry_map::<String, i64>((be_i32(es.len() as i32) + counts_bytes(es)) + rest)
            == Parsed::Done(es, 4 + counts_bytes(es).len() as int),
{
    let c = counts_bytes(es);
    let s = (be_i32(es.len() as i32) + c) + rest;
    assert(s =~= be_i32(es.len() as i32) + (c + rest));
    lemma_parse_i32_prefix(es.len() as i32, c + rest);
    assert(s.skip(4) =~= c + rest);
    lemma_counts_pairs(es, rest);
    lemma_assoc_from_distinct(es);
}

/// A map of texts to values reads back as itself.
#[verifier::rlimit(100)]
#[verifier::spinoff_prover]
proof fn lemma_text_values_roundtrip(es: Seq<(Seq<char>, GValue)>, rest: Seq<u8>)
    requires
        text_values_wf(es),
    ensures
        parse_entry_map::<String, GremlinValue>(
            (be_i32(es.len() as i32) + text_values_bytes(es)) + rest,
        ) == Parsed::Done(es, 4 + text_values_bytes(es).len() as int),
{
    let c = text_values_bytes(es);
    let s = (be_i32(es.len() as i32) + c) + rest;
    assert(s =~= be_i32(es.len() as i32) + (c + rest));
    lemma_parse_i32_prefix(es.len() as i32, c + rest);
    assert(s.skip(4) =~= c + rest);
    lemma_text_values_pairs(es, rest);
    lemma_assoc_from_distinct(es);
}

/// The first fields of metrics read back.
#[verifier::rlimit(100)]
#[verifier::spinoff_prover]
proof fn lemma_metrics_head_roundtrip(id: Seq<char>, name: Seq<char>, d: i64, x: Seq<u8>)
    requires
        string_wf(id),
        string_wf(name),
    ensures
        parse_metrics_head(((string_partial_bytes(id) + string_partial_bytes(name)) + be_i64(d)) + x)
            == Parsed::Done(
            (id, name, d),
            ((string_partial_bytes(id) + string_partial_bytes(name)) + be_i64(d)).len() as int,
        ),
{
    let s1 = string_partial_bytes(id);
    let s2 = string_partial_bytes(name);
    let db = be_i64(d);
    let t = ((s1 + s2) + db) + x;
    assert(t =~= s1 + (s2 + (db + x)));
    lemma_string_roundtrip(id, s2 + (db + x));
    assert(t.skip(s1.len() as int) =~= s2 + (db + x));
    lemma_string_roundtrip(name, db + x);
    assert(t.skip((s1.len() + s2.len()) as int) =~= db + x);
    lemma_parse_i64_prefix(d, x);
}

/// The maps of metrics read back.
#[verifier::rlimit(100)]
#[verifier::spinoff_prover]
proof fn lemma_metrics_maps_roundtrip(
    c: Seq<(Seq<char>, i64)>,
    a: Seq<(Seq<char>, GValue)>,
    x: Seq<u8>,
)
    requires
        counts_wf(c),
        text_values_wf(a),
    ensures
        parse_metrics_maps(
            ((be_i32(c.len() as i32) + counts_bytes(c)) + (be_i32(a.len() as i32)
                + text_values_bytes(a))) + x,
        ) == Parsed::Done(
            (c, a),
            ((be_i32(c.len() as i32) + counts_bytes(c)) + (be_i32(a.len() as i32)
                + text_values_bytes(a))).len() as int,
        ),
{
    let cb = be_i32(c.len() as i32) + counts_bytes(c);
    let ab = be_i32(a.len() as i32) + text_values_bytes(a);
    let u = (cb + ab) + x;
    assert(u =~= cb + (ab + x));
    lemma_counts_roundtrip(c, ab + x);
    assert(u.skip(cb.len() as int) =~= ab + x);
    lemma_text_values_roundtrip(a, x);
}

/// A list of well-formed metrics reads back.
#[verifier::rlimit(100)]
#[verifier::spinoff_prover]
proof fn lemma_metrics_list_roundtrip(ms: Seq<MetricsView>, rest: Seq<u8>)
    requires
        ms.len() <= i32::MAX,
        forall|i: int| 0 <= i < ms.len() ==> metrics_wf(#[trigger] ms[i]),
    ensures
        parse_metrics_list((be_i32(ms.len() as i32) + metrics_seq_bytes(ms)) + rest)
            == Parsed::Done(ms, (be_i32(ms.len() as i32) + metrics_seq_bytes(ms)).len() as int),
    decreases ms, 1int,
{
    let w = (be_i32(ms.len() as i32) + metrics_seq_bytes(ms)) + rest;
    assert(w =~= be_i32(ms.len() as i32) + (metrics_seq_bytes(ms) + rest));
    lemma_parse_i32_prefix(ms.len() as i32, metrics_seq_bytes(ms) + rest);
    assert(w.skip(4) =~= metrics_seq_bytes(ms) + rest);
    lemma_metrics_seq_roundtrip(ms, rest);
}

/// The partial form of well-formed metrics, whatever follows it, reads back as them.
#[verifier::rlimit(100)]
#[verifier::spinoff_prover]
proof fn lemma_metrics_partial_roundtrip(m: MetricsView, rest: Seq<u8>)
    requires
        metrics_wf(m),
    ensures
        parse_metrics_partial(metrics_partial_bytes(m) + rest) == Parsed::Done(
            m,
            metrics_partial_bytes(m).len() as int,
        ),
    decreases m, 2int,
{
    let h = (string_partial_bytes(m.id) + string_partial_bytes(m.name)) + be_i64(m.duration);
    let mp = (be_i32(m.counts.len() as i32) + counts_bytes(m.counts)) + (be_i32(
        m.annotations.len() as i32,
    ) + text_values_bytes(m.annotations));
    let l = be_i32(m.nested.len() as i32) + metrics_seq_bytes(m.nested);
    let t = metrics_partial_bytes(m) + rest;
    assert(metrics_partial_bytes(m) == (h + mp) + l);
    assert(t =~= h + (mp + (l + rest)));
    lemma_metrics_head_roundtrip(m.id, m.name, m.duration, mp + (l + rest));
    let u = t.skip(h.len() as int);
    assert(u =~= mp + (l + rest));
    lemma_metrics_maps_roundtrip(m.counts, m.annotations, l + rest);
    let w = t.skip((h.len() + mp.len()) as int);
    assert(w =~= l + rest);
    lemma_metrics_list_roundtrip(m.nested, rest);
}

/// Fully qualified well-formed metrics written one after another read back as themselves.
#[verifier::rlimit(100)]
#[verifier::spinoff_prover]
proof fn lemma_metrics_seq_roundtrip(ms: Seq<MetricsView>, rest: Seq<u8>)
    requires
        forall|i: int| 0 <= i < ms.len() ==> metrics_wf(#[trigger] ms[i]),
    ensures
        parse_metrics_seq(metrics_seq_bytes(ms) + rest, ms.len()) == Parsed::Done(
            ms,
            metrics_seq_bytes(ms).len() as int,
        ),
    decreases ms, 0int,
{
    if ms.len() > 0 {
        let init = ms.subrange(0, ms.len() - 1);
        let last = ms[ms.len() - 1];
        let f = fq_bytes(0x2cu8, metrics_partial_bytes(last));
        let s = metrics_seq_bytes(ms) + rest;
        assert(s =~= metrics_seq_bytes(init) + (f + rest));
        assert forall|i: int| 0 <= i < init.len() implies metrics_wf(#[trigger] init[i]) by {
            assert(init[i] == ms[i]);
        }
        lemma_metrics_seq_roundtrip(init, f + rest);
        let k = metrics_seq_bytes(init).len() as int;
        assert(s.skip(k) =~= f + rest);
        assert((f + rest).skip(2) =~= metrics_partial_bytes(last) + rest);
        lemma_metrics_partial_roundtrip(last, rest);
        assert(init.len() == (ms.len() - 1) as nat);
        assert(parse_metrics_seq(s, init.len()) == Parsed::Done(init, k));
        assert(parse_metrics(s.skip(k)) == Parsed::Done(last, f.len() as int));
        assert(init.push(last) =~= ms);
    } else {
        assert(ms =~= seq![]);
    }
}

/// Reading the bytes of well-formed metrics, whatever bytes follow them, gives the metrics
/// back and takes exactly their bytes.
#[verifier::rlimit(100)]
#[verifier::spinoff_prover]
pub proof fn lemma_metrics_roundtrip(m: MetricsView, rest: Seq<u8>)
    requires
        metrics_wf(m),
    ensures
        parse_metrics(fq_bytes(0x2cu8, metrics_partial_bytes(m)) + rest) == Parsed::Done(
            m,
            fq_bytes(0x2cu8, metrics_partial_bytes(m)).len() as int,
        ),
{
    let s = fq_bytes(0x2cu8, metrics_partial_bytes(m)) + rest;
    assert(s.skip(2) =~= metrics_partial_bytes(m) + rest);
    lemma_metrics_partial_roundtrip(m, rest);
}

/// The partial form of traversal metrics reads back.
#[verifier::rlimit(100)]
#[verifier::spinoff_prover]
proof fn lemma_traversal_metrics_partial(d: i64, ms: Seq<MetricsView>, rest: Seq<u8>)
    requires
        ms.len() <= i32::MAX,
        forall|i: int| 0 <= i < ms.len() ==> metrics_wf(#[trigger] ms[i]),
    ensures
        parse_traversal_metrics_partial(traversal_metrics_partial_bytes((d, ms)) + rest)
            == Parsed::Done((d, ms), traversal_metrics_partial_bytes((d, ms)).len() as int),
{
    let l = be_i32(ms.len() as i32) + metrics_seq_bytes(ms);
    let u = traversal_metrics_partial_bytes((d, ms)) + rest;
    assert(u =~= be_i64(d) + (l + rest));
    lemma_parse_i64_prefix(d, l + rest);
    assert(u.skip(8) =~= l + rest);
    lemma_metrics_list_roundtrip(ms, rest);
}

/// Reading the bytes of traversal metrics whose metrics are well formed and fit the 32-bit
/// count, whatever bytes follow them, gives them back and takes exactly their bytes.
#[verifier::rlimit(100)]
#[verifier::spinoff_prover]
pub proof fn lemma_traversal_metrics_roundtrip(t: (i64, Seq<MetricsView>), rest: Seq<u8>)
    requires
        t.1.len() <= i32::MAX,
        forall|i: int| 0 <= i < t.1.len() ==> metrics_wf(#[trigger] t.1[i]),
    ensures
        parse_traversal_metrics(fq_bytes(0x2du8, traversal_metrics_partial_bytes(t)) + rest)
            == Parsed::Done(t, fq_bytes(0x2du8, traversal_metrics_partial_bytes(t)).len() as int),
{
    let s = fq_bytes(0x2du8, traversal_metrics_partial_bytes(t)) + rest;
    assert(s.skip(2) =~= traversal_metrics_partial_bytes(t) + rest);
    lemma_traversal_metrics_partial(t.0, t.1, rest);
    assert((t.0, t.1) == t);
}

/// Reading the bytes of a strategy whose class name and configuration are well formed,
/// whatever bytes follow them, gives the strategy back and takes exactly its bytes.
#[verifier::rlimit(100)]
#[verifier::spinoff_prover]
pub proof fn lemma_strategy_roundtrip(t: (Seq<char>, Seq<(Seq<char>, GValue)>), rest: Seq<u8>)
    requires
        string_wf(t.0),
        text_values_wf(t.1),
    ensures
        parse_strategy(fq_bytes(0x29u8, strategy_partial_bytes(t)) + rest) == Parsed::Done(
            t,
            fq_bytes(0x29u8, strategy_partial_bytes(t)).len() as int,
        ),
{
    let p = strategy_partial_bytes(t);
    let s = fq_bytes(0x29u8, p) + rest;
    let u = p + rest;
    assert(s.skip(2) =~= u);
    let c = be_i32(t.1.len() as i32) + text_values_bytes(t.1);
    assert(u =~= string_partial_bytes(t.0) + (c + rest));
    lemma_string_roundtrip(t.0, c + rest);
    assert(u.skip(string_partial_bytes(t.0).len() as int) =~= c + rest);
    lemma_text_values_roundtrip(t.1, rest);
    assert(parse_strategy_partial(u) == Parsed::Done(t, p.len() as int));
}

} // verus!
