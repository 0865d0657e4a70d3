//! A whole graph, or a part of one: its vertices with their properties, and its edges.

use vstd::prelude::*;
use crate::binary::{be_i32, decode_i32_at, lemma_parse_i32_prefix, parse_i32, push_i32};
use crate::codec::{fq_bytes, shift, Encode, Parsed};
use crate::core_type::CoreType;
use crate::element::{Property, Vertex, VertexProperty};
use crate::error::DecodeError;
use crate::nullable::{encode_null_object, null_object_bytes};
use crate::primitives::{
    lemma_string_roundtrip, parse_string, partial_decode_string, partial_encode_str,
    string_partial_bytes, string_wf,
};
use crate::roundtrip::{
    has_type, lemma_id_label, lemma_opt_vertex_roundtrip, lemma_typed_values_roundtrip,
    lemma_value_roundtrip, opt_value_bytes, value_wf, values_wf,
};
use crate::value::{
    all_encodable, decode, decode_opt_vertex, decode_typed_property, encodable, encode_property,
    encode_vertex, lemma_all_encodable, lemma_typed_values_stuck, parse_id_label, parse_typed,
    decode_id_label, lemma_properties_view, lemma_vertex_properties_view,
    property_view, vertex_properties_view, vertex_property_view, opt_vertex_view, parse_opt_typed, parse_typed_values,
    parse_value, properties_view, read_as, value_bytes, value_view, values_bytes, vertex_view,
    GValue, GremlinValue,
};

verus! {

/// An edge of a graph: its id and label, the ids of its in and out vertices with their
/// labels where known, its parent vertex where known, and its properties.
#[derive(Debug, PartialEq)]
pub struct GraphEdge {
    pub id: GremlinValue,
    pub label: String,
    pub in_v_id: GremlinValue,
    pub in_v_label: Option<String>,
    pub out_v_id: GremlinValue,
    pub out_v_label: Option<String>,
    pub parent: Option<Vertex>,
    pub properties: Vec<Property>,
}

/// A graph: its vertices and its edges.
#[derive(Debug, PartialEq)]
pub struct Graph {
    pub vertices: Vec<Vertex>,
    pub edges: Vec<GraphEdge>,
}

/// The model of an edge of a graph.
pub struct GraphEdgeView {
    pub id: GValue,
    pub label: Seq<char>,
    pub in_id: GValue,
    pub in_label: Option<Seq<char>>,
    pub out_id: GValue,
    pub out_label: Option<Seq<char>>,
    pub parent: Option<Box<GValue>>,
    pub properties: Seq<GValue>,
}

/// The model of a text that may be absent.
pub open spec fn opt_text_view(o: Option<String>) -> Option<Seq<char>> {
    match o {
        Some(s) => Some(s@),
        None => None,
    }
}

/// The model of an edge of a graph.
pub open spec fn graph_edge_view(e: GraphEdge) -> GraphEdgeView {
    GraphEdgeView {
        id: value_view(e.id),
        label: e.label@,
        in_id: value_view(e.in_v_id),
        in_label: opt_text_view(e.in_v_label),
        out_id: value_view(e.out_v_id),
        out_label: opt_text_view(e.out_v_label),
        parent: opt_vertex_view(e.parent),
        properties: properties_view(e.properties@),
    }
}

impl DeepView for Graph {
    type V = (Seq<GValue>, Seq<GraphEdgeView>);

    open spec fn deep_view(&self) -> (Seq<GValue>, Seq<GraphEdgeView>) {
        (
            self.vertices@.map_values(|v: Vertex| vertex_view(v)),
            self.edges@.map_values(|e: GraphEdge| graph_edge_view(e)),
        )
    }
}

// ---------------------------------------------------------------------------
// The written form
// ---------------------------------------------------------------------------

/// A vertex that may be absent: the vertex, fully qualified, or the null object.
pub open spec fn opt_vertex_bytes(o: Option<Box<GValue>>) -> Seq<u8> {
    match o {
        Some(v) => value_bytes(*v),
        None => null_object_bytes(),
    }
}

/// A text that may be absent: the text, fully qualified, or the null object.
pub open spec fn opt_text_bytes(o: Option<Seq<char>>) -> Seq<u8> {
    match o {
        Some(s) => fq_bytes(0x03u8, string_partial_bytes(s)),
        None => null_object_bytes(),
    }
}

/// A list of properties: their number as a 32-bit integer, then each fully qualified.
pub open spec fn property_list_bytes(ps: Seq<GValue>) -> Seq<u8> {
    be_i32(ps.len() as i32) + values_bytes(ps)
}

/// A vertex property in a graph: its id, label and value, its parent vertex or the null
/// object, and its properties as a list or the null object.
pub open spec fn graph_vp_bytes(p: GValue) -> Seq<u8> {
    match p {
        GValue::VertexProperty { id, label, value, parent, properties } => ((value_bytes(*id)
            + string_partial_bytes(label)) + value_bytes(*value)) + (opt_vertex_bytes(parent)
            + match properties {
            Some(ps) => property_list_bytes(ps),
            None => null_object_bytes(),
        }),
        _ => seq![],
    }
}

/// Vertex properties in a graph, one after another.
pub open spec fn graph_vps_bytes(s: Seq<GValue>) -> Seq<u8>
    decreases s.len(),
{
    if s.len() == 0 {
        seq![]
    } else {
        graph_vps_bytes(s.drop_last()) + graph_vp_bytes(s.last())
    }
}

/// A vertex in a graph: its id and label, then its properties as a count and the properties,
/// or the null object.
pub open spec fn graph_vertex_bytes(v: GValue) -> Seq<u8> {
    match v {
        GValue::Vertex { id, label, properties } => (value_bytes(*id) + string_partial_bytes(label))
            + match properties {
            Some(ps) => be_i32(ps.len() as i32) + graph_vps_bytes(ps),
            None => null_object_bytes(),
        },
        _ => seq![],
    }
}

/// Vertices in a graph, one after another.
pub open spec fn graph_vertices_bytes(s: Seq<GValue>) -> Seq<u8>
    decreases s.len(),
{
    if s.len() == 0 {
        seq![]
    } else {
        graph_vertices_bytes(s.drop_last()) + graph_vertex_bytes(s.last())
    }
}

/// An edge in a graph: its id and label, the id and label of its in vertex, those of its out
/// vertex, its parent vertex and its properties as a list.
pub open spec fn graph_edge_bytes(e: GraphEdgeView) -> Seq<u8> {
    ((value_bytes(e.id) + string_partial_bytes(e.label)) + (value_bytes(e.in_id) + opt_text_bytes(
        e.in_label,
    ))) + ((value_bytes(e.out_id) + opt_text_bytes(e.out_label)) + (opt_vertex_bytes(e.parent)
        + property_list_bytes(e.properties)))
}

/// Edges in a graph, one after another.
pub open spec fn graph_edges_bytes(s: Seq<GraphEdgeView>) -> Seq<u8>
    decreases s.len(),
{
    if s.len() == 0 {
        seq![]
    } else {
        graph_edges_bytes(s.drop_last()) + graph_edge_bytes(s.last())
    }
}

/// The partial form of a graph: the number of vertices and the vertices, then the number of
/// edges and the edges.
pub open spec fn graph_partial_bytes(g: (Seq<GValue>, Seq<GraphEdgeView>)) -> Seq<u8> {
    (be_i32(g.0.len() as i32) + graph_vertices_bytes(g.0)) + (be_i32(g.1.len() as i32)
        + graph_edges_bytes(g.1))
}

/// A vertex that may be absent has a written form.
pub open spec fn opt_encodable(o: Option<Box<GValue>>) -> bool {
    match o {
        Some(v) => encodable(*v),
        None => true,
    }
}

/// The values of a vertex property in a graph have a written form.
pub open spec fn graph_vp_encodable(p: GValue) -> bool {
    match p {
        GValue::VertexProperty { id, value, parent, properties, .. } => encodable(*id) && encodable(
            *value,
        ) && opt_encodable(parent) && match properties {
            Some(ps) => all_encodable(ps),
            None => true,
        },
        _ => true,
    }
}

/// The values of the vertex properties of a vertex in a graph, where there are any, have a
/// written form.
pub open spec fn graph_vps_encodable(o: Option<Seq<GValue>>) -> bool {
    match o {
        Some(ps) => forall|i: int| 0 <= i < ps.len() ==> graph_vp_encodable(#[trigger] ps[i]),
        None => true,
    }
}

/// The values of a vertex in a graph have a written form.
pub open spec fn graph_vertex_encodable(v: GValue) -> bool {
    match v {
        GValue::Vertex { id, properties, .. } => encodable(*id) && graph_vps_encodable(properties),
        _ => true,
    }
}

/// The values of an edge in a graph have a written form.
pub open spec fn graph_edge_encodable(e: GraphEdgeView) -> bool {
    encodable(e.id) && encodable(e.in_id) && encodable(e.out_id) && opt_encodable(e.parent)
        && all_encodable(e.properties)
}

/// The values of a graph have a written form.
pub open spec fn graph_encodable(g: (Seq<GValue>, Seq<GraphEdgeView>)) -> bool {
    &&& forall|i: int| 0 <= i < g.0.len() ==> graph_vertex_encodable(#[trigger] g.0[i])
    &&& forall|i: int| 0 <= i < g.1.len() ==> graph_edge_encodable(#[trigger] g.1[i])
}

/// Appends a vertex that may be absent: fully qualified, or the null object.
fn encode_opt_vertex(o: &Option<Vertex>, out: &mut Vec<u8>)
    requires
        opt_encodable(opt_vertex_view(*o)),
    ensures
        final(out)@ == old(out)@ + opt_vertex_bytes(opt_vertex_view(*o)),
{
    match o {
        Some(v) => encode_vertex(v, out),
        None => encode_null_object(out),
    }
}

/// Appends a text that may be absent: fully qualified, or the null object.
fn encode_opt_text(o: &Option<String>, out: &mut Vec<u8>)
    ensures
        final(out)@ == old(out)@ + opt_text_bytes(opt_text_view(*o)),
{
    match o {
        Some(s) => s.encode(out),
        None => encode_null_object(out),
    }
}

/// Appends a count and the properties, each fully qualified.
#[verifier::rlimit(60)]
#[verifier::spinoff_prover]
fn encode_property_items(ps: &Vec<Property>, out: &mut Vec<u8>)
    requires
        all_encodable(properties_view(ps@)),
    ensures
        final(out)@ == old(out)@ + property_list_bytes(properties_view(ps@)),
{
    proof {
        lemma_properties_view(ps@);
    }
    push_i32(out, ps.len() as i32);
    let ghost start = out@;
    let mut i: usize = 0;
    while i < ps.len()
        invariant
            i <= ps@.len(),
            all_encodable(properties_view(ps@)),
            properties_view(ps@).len() == ps@.len(),
            forall|k: int| 0 <= k < ps@.len() ==> #[trigger] properties_view(ps@)[k] == property_view(ps@[k]),
            out@ == start + values_bytes(properties_view(ps@.subrange(0, i as int))),
        decreases ps@.len() - i,
    {
        proof {
            lemma_all_encodable(properties_view(ps@), i as int);
            lemma_properties_view(ps@.subrange(0, i + 1));
            lemma_properties_view(ps@.subrange(0, i as int));
            let vs = properties_view(ps@.subrange(0, i + 1));
            assert(vs.subrange(0, vs.len() - 1) =~= properties_view(ps@.subrange(0, i as int)));
        }
        encode_property(&ps[i], out);
        i = i + 1;
        proof {
            assert(out@ =~= start + values_bytes(properties_view(ps@.subrange(0, i as int))));
        }
    }
    proof {
        assert(ps@.subrange(0, i as int) =~= ps@);
    }
}

/// Appends a vertex property as a graph writes it.
#[verifier::rlimit(60)]
#[verifier::spinoff_prover]
fn encode_graph_vp(p: &VertexProperty, out: &mut Vec<u8>)
    requires
        graph_vp_encodable(vertex_property_view(*p)),
    ensures
        final(out)@ == old(out)@ + graph_vp_bytes(vertex_property_view(*p)),
{
    p.id.encode(out);
    partial_encode_str(p.label.as_str(), out);
    p.value.encode(out);
    encode_opt_vertex(&p.parent, out);
    match &p.properties {
        Some(ps) => encode_property_items(ps, out),
        None => encode_null_object(out),
    }
    assert(out@ =~= old(out)@ + graph_vp_bytes(vertex_property_view(*p)));
}

/// The vertex properties of a vertex whose values have a written form, one by one.
proof fn lemma_vps_encodable(o: Option<Seq<GValue>>, k: int)
    requires
        graph_vps_encodable(o),
        o is Some,
        0 <= k < o->0.len(),
    ensures
        graph_vp_encodable(o->0[k]),
{
}

/// Appends a vertex as a graph writes it.
#[verifier::rlimit(60)]
#[verifier::spinoff_prover]
fn encode_graph_vertex(v: &Vertex, out: &mut Vec<u8>)
    requires
        graph_vertex_encodable(vertex_view(*v)),
    ensures
        final(out)@ == old(out)@ + graph_vertex_bytes(vertex_view(*v)),
{
    v.id.encode(out);
    partial_encode_str(v.label.as_str(), out);
    let ghost mid = out@;
    match &v.properties {
        Some(ps) => {
            proof {
                lemma_vertex_properties_view(ps@);
                assert(vertex_view(*v) == GValue::Vertex {
                    id: Box::new(value_view(*v.id)),
                    label: v.label@,
                    properties: Some(vertex_properties_view(ps@)),
                });
                let pv = vertex_properties_view(ps@);
                assert(graph_vertex_encodable(vertex_view(*v)));
                assert forall|k: int| 0 <= k < ps@.len() implies graph_vp_encodable(
                    #[trigger] vertex_properties_view(ps@)[k],
                ) by {
                    let o = vertex_view(*v)->Vertex_properties;
                    assert(o == Some(pv));
                    lemma_vps_encodable(o, k);
                }
            }
            push_i32(out, ps.len() as i32);
            let ghost start = out@;
            let mut i: usize = 0;
            while i < ps.len()
                invariant
                    i <= ps@.len(),
                    vertex_properties_view(ps@).len() == ps@.len(),
                    forall|k: int| 0 <= k < ps@.len() ==> #[trigger] vertex_properties_view(ps@)[k]
                        == vertex_property_view(ps@[k]),
                    forall|k: int| 0 <= k < ps@.len() ==> graph_vp_encodable(
                        #[trigger] vertex_properties_view(ps@)[k],
                    ),
                    out@ == start + graph_vps_bytes(vertex_properties_view(ps@.subrange(0, i as int))),
                decreases ps@.len() - i,
            {
                proof {
                    assert(graph_vp_encodable(vertex_properties_view(ps@)[i as int]));
                    lemma_vertex_properties_view(ps@.subrange(0, i + 1));
                    lemma_vertex_properties_view(ps@.subrange(0, i as int));
                    let vs = vertex_properties_view(ps@.subrange(0, i + 1));
                    assert(vs.drop_last() =~= vertex_properties_view(ps@.subrange(0, i as int)));
                }
                encode_graph_vp(&ps[i], out);
                i = i + 1;
                proof {
                    assert(out@ =~= start + graph_vps_bytes(
                        vertex_properties_view(ps@.subrange(0, i as int)),
                    ));
                }
            }
            proof {
                assert(ps@.subrange(0, i as int) =~= ps@);
            }
        },
        None => encode_null_object(out),
    }
    assert(out@ =~= old(out)@ + graph_vertex_bytes(vertex_view(*v)));
}

/// Appends an edge as a graph writes it.
#[verifier::rlimit(60)]
#[verifier::spinoff_prover]
fn encode_graph_edge(e: &GraphEdge, out: &mut Vec<u8>)
    requires
        graph_edge_encodable(graph_edge_view(*e)),
    ensures
        final(out)@ == old(out)@ + graph_edge_bytes(graph_edge_view(*e)),
{
    e.id.encode(out);
    partial_encode_str(e.label.as_str(), out);
    e.in_v_id.encode(out);
    encode_opt_text(&e.in_v_label, out);
    e.out_v_id.encode(out);
    encode_opt_text(&e.out_v_label, out);
    encode_opt_vertex(&e.parent, out);
    encode_property_items(&e.properties, out);
    assert(out@ =~= old(out)@ + graph_edge_bytes(graph_edge_view(*e)));
}

/// Appends the count and the vertices of a graph.
#[verifier::rlimit(60)]
#[verifier::spinoff_prover]
fn encode_graph_vertices(vs: &Vec<Vertex>, out: &mut Vec<u8>)
    requires
        forall|i: int| 0 <= i < vs@.len() ==> graph_vertex_encodable(#[trigger] vertex_view(vs@[i])),
    ensures
        final(out)@ == old(out)@ + (be_i32(vs@.len() as i32) + graph_vertices_bytes(
            vs@.map_values(|v: Vertex| vertex_view(v)),
        )),
{
    let ghost g = vs@.map_values(|v: Vertex| vertex_view(v));
    push_i32(out, vs.len() as i32);
    let ghost start = out@;
    let mut i: usize = 0;
    while i < vs.len()
        invariant
            i <= vs@.len(),
            g == vs@.map_values(|v: Vertex| vertex_view(v)),
            forall|k: int| 0 <= k < vs@.len() ==> graph_vertex_encodable(#[trigger] vertex_view(vs@[k])),
            out@ == start + graph_vertices_bytes(g.subrange(0, i as int)),
        decreases vs@.len() - i,
    {
        proof {
            assert(g[i as int] == vertex_view(vs@[i as int]));
            let s = g.subrange(0, i + 1);
            assert(s.drop_last() =~= g.subrange(0, i as int));
        }
        encode_graph_vertex(&vs[i], out);
        i = i + 1;
        proof {
            assert(out@ =~= start + graph_vertices_bytes(g.subrange(0, i as int)));
        }
    }
    proof {
        assert(g.subrange(0, i as int) =~= g);
    }
}

/// Appends the count and the edges of a graph.
#[verifier::rlimit(60)]
#[verifier::spinoff_prover]
fn encode_graph_edges(es: &Vec<GraphEdge>, out: &mut Vec<u8>)
    requires
        forall|i: int| 0 <= i < es@.len() ==> graph_edge_encodable(#[trigger] graph_edge_view(es@[i])),
    ensures
        final(out)@ == old(out)@ + (be_i32(es@.len() as i32) + graph_edges_bytes(
            es@.map_values(|e: GraphEdge| graph_edge_view(e)),
        )),
{
    let ghost g = es@.map_values(|e: GraphEdge| graph_edge_view(e));
    push_i32(out, es.len() as i32);
    let ghost start = out@;
    let mut i: usize = 0;
    while i < es.len()
        invariant
            i <= es@.len(),
            g == es@.map_values(|e: GraphEdge| graph_edge_view(e)),
            forall|k: int| 0 <= k < es@.len() ==> graph_edge_encodable(#[trigger] graph_edge_view(es@[k])),
            out@ == start + graph_edges_bytes(g.subrange(0, i as int)),
        decreases es@.len() - i,
    {
        proof {
            assert(g[i as int] == graph_edge_view(es@[i as int]));
            let s = g.subrange(0, i + 1);
            assert(s.drop_last() =~= g.subrange(0, i as int));
        }
        encode_graph_edge(&es[i], out);
        i = i + 1;
        proof {
            assert(out@ =~= start + graph_edges_bytes(g.subrange(0, i as int)));
        }
    }
    proof {
        assert(g.subrange(0, i as int) =~= g);
    }
}

impl Graph {
    /// Appends the fully qualified bytes of the graph: the type code 0x10, the set flag, the
    /// vertices and the edges. A vertex without properties, or a vertex property without
    /// properties, is written as the null object where the reader expects a count.
    pub fn encode(&self, out: &mut Vec<u8>)
        requires
            graph_encodable(self.deep_view()),
        ensures
            final(out)@ == old(out)@ + fq_bytes(0x10u8, graph_partial_bytes(self.deep_view())),
    {
        let ghost g = self.deep_view();
        proof {
            assert forall|i: int| 0 <= i < self.vertices@.len() implies graph_vertex_encodable(
                #[trigger] vertex_view(self.vertices@[i]),
            ) by {
                assert(g.0[i] == vertex_view(self.vertices@[i]));
            }
            assert forall|i: int| 0 <= i < self.edges@.len() implies graph_edge_encodable(
                #[trigger] graph_edge_view(self.edges@[i]),
            ) by {
                assert(g.1[i] == graph_edge_view(self.edges@[i]));
            }
        }
        out.push(0x10u8);
        out.push(0x00u8);
        encode_graph_vertices(&self.vertices, out);
        encode_graph_edges(&self.edges, out);
        assert(out@ =~= old(out)@ + fq_bytes(0x10u8, graph_partial_bytes(g)));
    }
}

// ---------------------------------------------------------------------------
// Reading
// ---------------------------------------------------------------------------

/// Reads a text that may be absent: the text behind its type code 0x03 and the set flag;
/// the null object, or 0x03 with the null flag, is an absent text; a flag of 2 or more is
/// `InvalidValueFlag`; anything else is a `TypeMismatch`.
pub open spec fn parse_opt_text(s: Seq<u8>) -> Parsed<Option<Seq<char>>> {
    if s.len() < 2 {
        Parsed::Fail(DecodeError::UnexpectedEof)
    } else if s[0] == 0x03u8 && s[1] == 0x00u8 {
        match parse_string(s.skip(2)) {
            Parsed::Done(t, n) => Parsed::Done(Some(t), n + 2),
            Parsed::Fail(e) => Parsed::Fail(e),
            Parsed::Abort => Parsed::Abort,
        }
    } else if s[0] == 0xfeu8 && s[1] == 0x01u8 {
        Parsed::Done(None, 2)
    } else if s[0] == 0x03u8 && s[1] == 0x01u8 {
        Parsed::Done(None, 2)
    } else if s[1] >= 2 {
        Parsed::Fail(DecodeError::InvalidValueFlag)
    } else {
        Parsed::Fail(DecodeError::TypeMismatch)
    }
}

/// Reads a list of properties: a 32-bit count, then that many fully qualified properties; a
/// negative count is `NegativeLength`.
#[verifier::opaque]
pub open spec fn parse_property_list(t: Seq<u8>) -> Parsed<Seq<GValue>> {
    match parse_i32(t) {
        Parsed::Done(len, _) => if len < 0 {
            Parsed::Fail(DecodeError::NegativeLength)
        } else {
            shift(parse_typed_values(CoreType::Property, t.skip(4), len as nat), 4)
        },
        Parsed::Fail(e) => Parsed::Fail(e),
        Parsed::Abort => Parsed::Abort,
    }
}

/// Reads the first fields of a vertex property in a graph: its id, its label and its value.
#[verifier::opaque]
pub open spec fn parse_graph_vp_head(t: Seq<u8>) -> Parsed<(GValue, Seq<char>, GValue)> {
    match parse_id_label(t) {
        Parsed::Done(h, n1) => if 0 <= n1 <= t.len() {
            match parse_value(t.skip(n1)) {
                Parsed::Done(v, n2) => Parsed::Done((h.0, h.1, v), n1 + n2),
                Parsed::Fail(e) => Parsed::Fail(e),
                Parsed::Abort => Parsed::Abort,
            }
        } else {
            Parsed::Fail(DecodeError::UnexpectedEof)
        },
        Parsed::Fail(e) => Parsed::Fail(e),
        Parsed::Abort => Parsed::Abort,
    }
}

/// Reads the links of a vertex property in a graph: its parent vertex, which may be absent,
/// and its properties as a list.
#[verifier::opaque]
pub open spec fn parse_graph_vp_links(t: Seq<u8>) -> Parsed<(Option<Box<GValue>>, Seq<GValue>)> {
    match parse_opt_typed(CoreType::Vertex, t) {
        Parsed::Done(parent, n1) => if 0 <= n1 <= t.len() {
            match parse_property_list(t.skip(n1)) {
                Parsed::Done(ps, n2) => Parsed::Done((parent, ps), n1 + n2),
                Parsed::Fail(e) => Parsed::Fail(e),
                Parsed::Abort => Parsed::Abort,
            }
        } else {
            Parsed::Fail(DecodeError::UnexpectedEof)
        },
        Parsed::Fail(e) => Parsed::Fail(e),
        Parsed::Abort => Parsed::Abort,
    }
}

/// Reads a vertex property in a graph; its properties are read as a list that is there.
#[verifier::opaque]
pub open spec fn parse_graph_vp(t: Seq<u8>) -> Parsed<GValue> {
    match parse_graph_vp_head(t) {
        Parsed::Done(h, n1) => if 0 <= n1 <= t.len() {
            match parse_graph_vp_links(t.skip(n1)) {
                Parsed::Done(l, n2) => Parsed::Done(
                    GValue::VertexProperty {
                        id: Box::new(h.0),
                        label: h.1,
                        value: Box::new(h.2),
                        parent: l.0,
                        properties: Some(l.1),
                    },
                    n1 + n2,
                ),
                Parsed::Fail(e) => Parsed::Fail(e),
                Parsed::Abort => Parsed::Abort,
            }
        } else {
            Parsed::Fail(DecodeError::UnexpectedEof)
        },
        Parsed::Fail(e) => Parsed::Fail(e),
        Parsed::Abort => Parsed::Abort,
    }
}

/// Reads `n` vertex properties of a graph one after another.
pub open spec fn parse_graph_vps(s: Seq<u8>, n: nat) -> Parsed<Seq<GValue>>
    decreases n,
{
    if n == 0 {
        Parsed::Done(seq![], 0)
    } else {
        match parse_graph_vps(s, (n - 1) as nat) {
            Parsed::Done(ps, k) => if 0 <= k <= s.len() {
                match parse_graph_vp(s.skip(k)) {
                    Parsed::Done(p, m) => Parsed::Done(ps.push(p), k + m),
                    Parsed::Fail(e) => Parsed::Fail(e),
                    Parsed::Abort => Parsed::Abort,
                }
            } else {
                Parsed::Fail(DecodeError::UnexpectedEof)
            },
            Parsed::Fail(e) => Parsed::Fail(e),
            Parsed::Abort => Parsed::Abort,
        }
    }
}

/// Reads a vertex of a graph: its id and label, a count and that many vertex properties. A
/// negative count is not read (the reader gives up).
#[verifier::opaque]
pub open spec fn parse_graph_vertex(t: Seq<u8>) -> Parsed<GValue> {
    match parse_id_label(t) {
        Parsed::Done(h, n1) => if 0 <= n1 <= t.len() {
            match parse_i32(t.skip(n1)) {
                Parsed::Done(len, _) => if len < 0 {
                    Parsed::Abort
                } else {
                    match parse_graph_vps(t.skip(n1 + 4), len as nat) {
                        Parsed::Done(ps, n2) => Parsed::Done(
                            GValue::Vertex { id: Box::new(h.0), label: h.1, properties: Some(ps) },
                            n1 + 4 + n2,
                        ),
                        Parsed::Fail(e) => Parsed::Fail(e),
                        Parsed::Abort => Parsed::Abort,
                    }
                },
                Parsed::Fail(e) => Parsed::Fail(e),
                Parsed::Abort => Parsed::Abort,
            }
        } else {
            Parsed::Fail(DecodeError::UnexpectedEof)
        },
        Parsed::Fail(e) => Parsed::Fail(e),
        Parsed::Abort => Parsed::Abort,
    }
}

/// Reads `n` vertices of a graph one after another.
pub open spec fn parse_graph_vertices(s: Seq<u8>, n: nat) -> Parsed<Seq<GValue>>
    decreases n,
{
    if n == 0 {
        Parsed::Done(seq![], 0)
    } else {
        match parse_graph_vertices(s, (n - 1) as nat) {
            Parsed::Done(vs, k) => if 0 <= k <= s.len() {
                match parse_graph_vertex(s.skip(k)) {
                    Parsed::Done(v, m) => Parsed::Done(vs.push(v), k + m),
                    Parsed::Fail(e) => Parsed::Fail(e),
                    Parsed::Abort => Parsed::Abort,
                }
            } else {
                Parsed::Fail(DecodeError::UnexpectedEof)
            },
            Parsed::Fail(e) => Parsed::Fail(e),
            Parsed::Abort => Parsed::Abort,
        }
    }
}

/// Reads the first fields of an edge of a graph: its id and label, then the id and label of
/// its in vertex.
#[verifier::opaque]
pub open spec fn parse_graph_edge_in(t: Seq<u8>) -> Parsed<(GValue, Seq<char>, GValue, Option<Seq<char>>)> {
    match parse_id_label(t) {
        Parsed::Done(h, n1) => if 0 <= n1 <= t.len() {
            match parse_value(t.skip(n1)) {
                Parsed::Done(i, n2) => if 0 <= n1 + n2 <= t.len() {
                    match parse_opt_text(t.skip(n1 + n2)) {
                        Parsed::Done(l, n3) => Parsed::Done((h.0, h.1, i, l), n1 + n2 + n3),
                        Parsed::Fail(e) => Parsed::Fail(e),
                        Parsed::Abort => Parsed::Abort,
                    }
                } else {
                    Parsed::Fail(DecodeError::UnexpectedEof)
                },
                Parsed::Fail(e) => Parsed::Fail(e),
                Parsed::Abort => Parsed::Abort,
            }
        } else {
            Parsed::Fail(DecodeError::UnexpectedEof)
        },
        Parsed::Fail(e) => Parsed::Fail(e),
        Parsed::Abort => Parsed::Abort,
    }
}

/// Reads the id and label of the out vertex of an edge of a graph.
#[verifier::opaque]
pub open spec fn parse_graph_edge_out(t: Seq<u8>) -> Parsed<(GValue, Option<Seq<char>>)> {
    match parse_value(t) {
        Parsed::Done(o, n1) => if 0 <= n1 <= t.len() {
            match parse_opt_text(t.skip(n1)) {
                Parsed::Done(l, n2) => Parsed::Done((o, l), n1 + n2),
                Parsed::Fail(e) => Parsed::Fail(e),
                Parsed::Abort => Parsed::Abort,
            }
        } else {
            Parsed::Fail(DecodeError::UnexpectedEof)
        },
        Parsed::Fail(e) => Parsed::Fail(e),
        Parsed::Abort => Parsed::Abort,
    }
}

/// Reads an edge of a graph: its first fields, its out vertex, then its parent vertex, which
/// may be absent, and its properties as a list.
#[verifier::opaque]
pub open spec fn parse_graph_edge(t: Seq<u8>) -> Parsed<GraphEdgeView> {
    match parse_graph_edge_in(t) {
        Parsed::Done(a, n1) => if 0 <= n1 <= t.len() {
            match parse_graph_edge_out(t.skip(n1)) {
                Parsed::Done(b, n2) => if 0 <= n1 + n2 <= t.len() {
                    match parse_graph_vp_links(t.skip(n1 + n2)) {
                        Parsed::Done(l, n3) => Parsed::Done(
                            GraphEdgeView {
                                id: a.0,
                                label: a.1,
                                in_id: a.2,
                                in_label: a.3,
                                out_id: b.0,
                                out_label: b.1,
                                parent: l.0,
                                properties: l.1,
                            },
                            n1 + n2 + n3,
                        ),
                        Parsed::Fail(e) => Parsed::Fail(e),
                        Parsed::Abort => Parsed::Abort,
                    }
                } else {
                    Parsed::Fail(DecodeError::UnexpectedEof)
                },
                Parsed::Fail(e) => Parsed::Fail(e),
                Parsed::Abort => Parsed::Abort,
            }
        } else {
            Parsed::Fail(DecodeError::UnexpectedEof)
        },
        Parsed::Fail(e) => Parsed::Fail(e),
        Parsed::Abort => Parsed::Abort,
    }
}

/// Reads `n` edges of a graph one after another.
pub open spec fn parse_graph_edges(s: Seq<u8>, n: nat) -> Parsed<Seq<GraphEdgeView>>
    decreases n,
{
    if n == 0 {
        Parsed::Done(seq![], 0)
    } else {
        match parse_graph_edges(s, (n - 1) as nat) {
            Parsed::Done(es, k) => if 0 <= k <= s.len() {
                match parse_graph_edge(s.skip(k)) {
                    Parsed::Done(e, m) => Parsed::Done(es.push(e), k + m),
                    Parsed::Fail(e) => Parsed::Fail(e),
                    Parsed::Abort => Parsed::Abort,
                }
            } else {
                Parsed::Fail(DecodeError::UnexpectedEof)
            },
            Parsed::Fail(e) => Parsed::Fail(e),
            Parsed::Abort => Parsed::Abort,
        }
    }
}

/// Reads the edges of a graph: a 32-bit count, taken as an unsigned machine word, then that
/// many edges. A negative count thus asks for more edges than any input holds.
pub open spec fn parse_graph_edge_list(t: Seq<u8>) -> Parsed<Seq<GraphEdgeView>> {
    match parse_i32(t) {
        Parsed::Done(len, _) => shift(parse_graph_edges(t.skip(4), (len as usize) as nat), 4),
        Parsed::Fail(e) => Parsed::Fail(e),
        Parsed::Abort => Parsed::Abort,
    }
}

/// Reads the partial form of a graph: a count and the vertices, then a count and the edges.
/// A negative count of vertices is not read (the reader gives up).
pub open spec fn parse_graph_partial(t: Seq<u8>) -> Parsed<(Seq<GValue>, Seq<GraphEdgeView>)> {
    match parse_i32(t) {
        Parsed::Done(len, _) => if len < 0 {
            Parsed::Abort
        } else {
            match parse_graph_vertices(t.skip(4), len as nat) {
                Parsed::Done(vs, n1) => if 0 <= 4 + n1 <= t.len() {
                    match parse_graph_edge_list(t.skip(4 + n1)) {
                        Parsed::Done(es, n2) => Parsed::Done((vs, es), 4 + n1 + n2),
                        Parsed::Fail(e) => Parsed::Fail(e),
                        Parsed::Abort => Parsed::Abort,
                    }
                } else {
                    Parsed::Fail(DecodeError::UnexpectedEof)
                },
                Parsed::Fail(e) => Parsed::Fail(e),
                Parsed::Abort => Parsed::Abort,
            }
        },
        Parsed::Fail(e) => Parsed::Fail(e),
        Parsed::Abort => Parsed::Abort,
    }
}

/// Reads a fully qualified graph: the type code 0x10 and the set flag, else a
/// `TypeMismatch`, then the partial form.
pub open spec fn parse_graph(s: Seq<u8>) -> Parsed<(Seq<GValue>, Seq<GraphEdgeView>)> {
    if s.len() < 2 {
        Parsed::Fail(DecodeError::UnexpectedEof)
    } else if s[0] == 0x10u8 && s[1] == 0x00u8 {
        shift(parse_graph_partial(s.skip(2)), 2)
    } else {
        Parsed::Fail(DecodeError::TypeMismatch)
    }
}

/// Once reading `i` vertex properties has failed or given up, so has reading more.
proof fn lemma_graph_vps_stuck(s: Seq<u8>, i: nat, n: nat)
    requires
        i <= n,
        !(parse_graph_vps(s, i) is Done),
    ensures
        parse_graph_vps(s, n) == parse_graph_vps(s, i),
    decreases n,
{
    if n > i {
        lemma_graph_vps_stuck(s, i, (n - 1) as nat);
    }
}

/// Once reading `i` vertices has failed or given up, so has reading more.
proof fn lemma_graph_vertices_stuck(s: Seq<u8>, i: nat, n: nat)
    requires
        i <= n,
        !(parse_graph_vertices(s, i) is Done),
    ensures
        parse_graph_vertices(s, n) == parse_graph_vertices(s, i),
    decreases n,
{
    if n > i {
        lemma_graph_vertices_stuck(s, i, (n - 1) as nat);
    }
}

/// Once reading `i` edges has failed or given up, so has reading more.
proof fn lemma_graph_edges_stuck(s: Seq<u8>, i: nat, n: nat)
    requires
        i <= n,
        !(parse_graph_edges(s, i) is Done),
    ensures
        parse_graph_edges(s, n) == parse_graph_edges(s, i),
    decreases n,
{
    if n > i {
        lemma_graph_edges_stuck(s, i, (n - 1) as nat);
    }
}

/// Reads a text that may be absent at `pos`.
fn decode_opt_text(buf: &[u8], pos: usize) -> (r: Result<(Option<String>, usize), DecodeError>)
    requires
        pos <= buf@.len(),
    ensures
        read_as(
            parse_opt_text(buf@.skip(pos as int)),
            r,
            pos as int,
            buf@.len() as int,
            |o: Option<String>| opt_text_view(o),
        ),
{
    if buf.len() - pos < 2 {
        return Err(DecodeError::UnexpectedEof);
    }
    let code = buf[pos];
    let flag = buf[pos + 1];
    if code == 0x03u8 && flag == 0x00u8 {
        proof {
            assert(buf@.skip(pos as int).skip(2) =~= buf@.skip(pos + 2));
        }
        match partial_decode_string(buf, pos + 2) {
            Ok((t, q)) => Ok((Some(t), q)),
            Err(e) => Err(e),
        }
    } else if code == 0xfeu8 && flag == 0x01u8 {
        Ok((None, pos + 2))
    } else if code == 0x03u8 && flag == 0x01u8 {
        Ok((None, pos + 2))
    } else if flag >= 2 {
        Err(DecodeError::InvalidValueFlag)
    } else {
        Err(DecodeError::TypeMismatch)
    }
}

/// Reads a list of properties at `pos`: a count, then fully qualified properties.
#[verifier::rlimit(60)]
#[verifier::spinoff_prover]
fn decode_property_list(buf: &[u8], pos: usize) -> (r: Result<(Vec<Property>, usize), DecodeError>)
    requires
        pos <= buf@.len(),
        !(parse_property_list(buf@.skip(pos as int)) is Abort),
    ensures
        read_as(
            parse_property_list(buf@.skip(pos as int)),
            r,
            pos as int,
            buf@.len() as int,
            |ps: Vec<Property>| properties_view(ps@),
        ),
{
    proof {
        reveal(parse_property_list);
    }
    let (len, p4) = match decode_i32_at(buf, pos) {
        Ok(x) => x,
        Err(e) => return Err(e),
    };
    if len < 0 {
        return Err(DecodeError::NegativeLength);
    }
    let n = len as usize;
    let ghost s = buf@.skip(p4 as int);
    proof {
        assert(buf@.skip(pos as int).skip(4) =~= s);
    }
    let mut ps: Vec<Property> = Vec::new();
    let mut q = p4;
    let mut i: usize = 0;
    while i < n
        invariant
            p4 == pos + 4,
            p4 <= q <= buf@.len(),
            len >= 0,
            i <= n,
            n == len,
            s == buf@.skip(p4 as int),
            buf@.skip(pos as int).skip(4) == s,
            parse_i32(buf@.skip(pos as int)) == Parsed::Done(len, 4),
            parse_typed_values(CoreType::Property, s, i as nat) == Parsed::Done(
                properties_view(ps@),
                q - p4,
            ),
            !(parse_typed_values(CoreType::Property, s, n as nat) is Abort),
        decreases n - i,
    {
        proof {
            assert(s.skip(q - p4) =~= buf@.skip(q as int));
            if parse_typed(CoreType::Property, buf@.skip(q as int)) is Abort {
                lemma_typed_values_stuck(CoreType::Property, s, (i + 1) as nat, n as nat);
            }
        }
        let (x, q1) = match decode_typed_property(buf, q) {
            Ok(x) => x,
            Err(e) => {
                proof {
                    reveal(parse_property_list);
                    lemma_typed_values_stuck(CoreType::Property, s, (i + 1) as nat, n as nat);
                }
                return Err(e);
            },
        };
        proof {
            assert(ps@.push(x).subrange(0, ps@.len() as int) =~= ps@);
        }
        ps.push(x);
        q = q1;
        i = i + 1;
    }
    Ok((ps, q))
}

/// Reads the first fields of a vertex property in a graph at `pos`.
fn decode_graph_vp_head(buf: &[u8], pos: usize) -> (r: Result<((GremlinValue, String, GremlinValue), usize), DecodeError>)
    requires
        pos <= buf@.len(),
        !(parse_graph_vp_head(buf@.skip(pos as int)) is Abort),
    ensures
        read_as(
            parse_graph_vp_head(buf@.skip(pos as int)),
            r,
            pos as int,
            buf@.len() as int,
            |h: (GremlinValue, String, GremlinValue)| (value_view(h.0), h.1@, value_view(h.2)),
        ),
{
    proof {
        reveal(parse_graph_vp_head);
    }
    let ghost t = buf@.skip(pos as int);
    let (id, label, q1) = match decode_id_label(buf, pos) {
        Ok(x) => x,
        Err(e) => return Err(e),
    };
    proof {
        assert(t.skip(q1 - pos) =~= buf@.skip(q1 as int));
    }
    let (value, q2) = match decode(buf, q1) {
        Ok(x) => x,
        Err(e) => return Err(e),
    };
    Ok(((id, label, value), q2))
}

/// Reads the links of a vertex property in a graph at `pos`.
fn decode_graph_vp_links(buf: &[u8], pos: usize) -> (r: Result<((Option<Vertex>, Vec<Property>), usize), DecodeError>)
    requires
        pos <= buf@.len(),
        !(parse_graph_vp_links(buf@.skip(pos as int)) is Abort),
    ensures
        read_as(
            parse_graph_vp_links(buf@.skip(pos as int)),
            r,
            pos as int,
            buf@.len() as int,
            |l: (Option<Vertex>, Vec<Property>)| (opt_vertex_view(l.0), properties_view(l.1@)),
        ),
{
    proof {
        reveal(parse_graph_vp_links);
    }
    let ghost t = buf@.skip(pos as int);
    let (parent, q1) = match decode_opt_vertex(buf, pos) {
        Ok(x) => x,
        Err(e) => return Err(e),
    };
    proof {
        assert(t.skip(q1 - pos) =~= buf@.skip(q1 as int));
    }
    let (ps, q2) = match decode_property_list(buf, q1) {
        Ok(x) => x,
        Err(e) => return Err(e),
    };
    Ok(((parent, ps), q2))
}

/// Reads a vertex property of a graph at `pos`.
#[verifier::rlimit(60)]
#[verifier::spinoff_prover]
fn decode_graph_vp(buf: &[u8], pos: usize) -> (r: Result<(VertexProperty, usize), DecodeError>)
    requires
        pos <= buf@.len(),
        !(parse_graph_vp(buf@.skip(pos as int)) is Abort),
    ensures
        read_as(
            parse_graph_vp(buf@.skip(pos as int)),
            r,
            pos as int,
            buf@.len() as int,
            |p: VertexProperty| vertex_property_view(p),
        ),
{
    proof {
        reveal(parse_graph_vp);
    }
    let ghost t = buf@.skip(pos as int);
    let ((id, label, value), q1) = match decode_graph_vp_head(buf, pos) {
        Ok(x) => x,
        Err(e) => return Err(e),
    };
    proof {
        assert(t.skip(q1 - pos) =~= buf@.skip(q1 as int));
    }
    let ((parent, ps), q2) = match decode_graph_vp_links(buf, q1) {
        Ok(x) => x,
        Err(e) => return Err(e),
    };
    let p = VertexProperty {
        id: Box::new(id),
        label,
        value: Box::new(value),
        parent,
        properties: Some(ps),
    };
    proof {
        assert(vertex_property_view(p) == GValue::VertexProperty {
            id: Box::new(value_view(*p.id)),
            label: p.label@,
            value: Box::new(value_view(*p.value)),
            parent: opt_vertex_view(p.parent),
            properties: Some(properties_view(p.properties->0@)),
        });
    }
    Ok((p, q2))
}

/// Reads a vertex of a graph at `pos`.
#[verifier::rlimit(100)]
#[verifier::spinoff_prover]
fn decode_graph_vertex(buf: &[u8], pos: usize) -> (r: Result<(Vertex, usize), DecodeError>)
    requires
        pos <= buf@.len(),
        !(parse_graph_vertex(buf@.skip(pos as int)) is Abort),
    ensures
        read_as(
            parse_graph_vertex(buf@.skip(pos as int)),
            r,
            pos as int,
            buf@.len() as int,
            |v: Vertex| vertex_view(v),
        ),
{
    proof {
        reveal(parse_graph_vertex);
    }
    let ghost t = buf@.skip(pos as int);
    let (id, label, q1) = match decode_id_label(buf, pos) {
        Ok(x) => x,
        Err(e) => return Err(e),
    };
    proof {
        assert(t.skip(q1 - pos) =~= buf@.skip(q1 as int));
    }
    let (len, p4) = match decode_i32_at(buf, q1) {
        Ok(x) => x,
        Err(e) => return Err(e),
    };
    let n = len as usize;
    let ghost s = buf@.skip(p4 as int);
    proof {
        assert(t.skip(q1 - pos + 4) =~= s);
        assert(t.skip(q1 - pos) =~= buf@.skip(q1 as int));
    }
    let mut ps: Vec<VertexProperty> = Vec::new();
    let mut q = p4;
    let mut i: usize = 0;
    while i < n
        invariant
            p4 == q1 + 4,
            pos <= q1,
            t == buf@.skip(pos as int),
            t.skip(q1 - pos + 4) == s,
            parse_i32(t.skip(q1 - pos)) == Parsed::Done(len, 4),
            parse_id_label(t) matches Parsed::Done(h, k) && k == q1 - pos && h.0 == value_view(id)
                && h.1 == label@,
            p4 <= q <= buf@.len(),
            len >= 0,
            i <= n,
            n == len,
            s == buf@.skip(p4 as int),
            parse_graph_vps(s, i as nat) == Parsed::Done(vertex_properties_view(ps@), q - p4),
            !(parse_graph_vps(s, n as nat) is Abort),
        decreases n - i,
    {
        proof {
            assert(s.skip(q - p4) =~= buf@.skip(q as int));
            if parse_graph_vp(buf@.skip(q as int)) is Abort {
                lemma_graph_vps_stuck(s, (i + 1) as nat, n as nat);
            }
        }
        let (x, q2) = match decode_graph_vp(buf, q) {
            Ok(x) => x,
            Err(e) => {
                proof {
                    reveal(parse_graph_vertex);
                    assert(parse_graph_vp(s.skip(q - p4)) == Parsed::<GValue>::Fail(e));
                    assert(parse_graph_vps(s, (i + 1) as nat) == Parsed::<Seq<GValue>>::Fail(e));
                    lemma_graph_vps_stuck(s, (i + 1) as nat, n as nat);
                    assert(parse_graph_vps(s, n as nat) == Parsed::<Seq<GValue>>::Fail(e));
                }
                return Err(e);
            },
        };
        proof {
            let ps2 = ps@.push(x);
            assert(ps2.subrange(0, ps2.len() - 1) =~= ps@);
            assert(vertex_properties_view(ps2) == vertex_properties_view(ps@).push(
                vertex_property_view(x),
            ));
            assert(s.skip(q - p4) == buf@.skip(q as int));
            assert(parse_graph_vps(s, (i + 1) as nat) == Parsed::Done(
                vertex_properties_view(ps2),
                q2 - p4,
            ));
        }
        ps.push(x);
        q = q2;
        i = i + 1;
    }
    let v = Vertex { id: Box::new(id), label, properties: Some(ps) };
    proof {
        assert(vertex_view(v) == GValue::Vertex {
            id: Box::new(value_view(*v.id)),
            label: v.label@,
            properties: Some(vertex_properties_view(ps@)),
        });
    }
    Ok((v, q))
}

/// Reads the first fields of an edge of a graph at `pos`.
fn decode_graph_edge_in(buf: &[u8], pos: usize) -> (r: Result<
    ((GremlinValue, String, GremlinValue, Option<String>), usize),
    DecodeError,
>)
    requires
        pos <= buf@.len(),
        !(parse_graph_edge_in(buf@.skip(pos as int)) is Abort),
    ensures
        read_as(
            parse_graph_edge_in(buf@.skip(pos as int)),
            r,
            pos as int,
            buf@.len() as int,
            |a: (GremlinValue, String, GremlinValue, Option<String>)| (
                value_view(a.0),
                a.1@,
                value_view(a.2),
                opt_text_view(a.3),
            ),
        ),
{
    proof {
        reveal(parse_graph_edge_in);
    }
    let ghost t = buf@.skip(pos as int);
    let (id, label, q1) = match decode_id_label(buf, pos) {
        Ok(x) => x,
        Err(e) => return Err(e),
    };
    proof {
        assert(t.skip(q1 - pos) =~= buf@.skip(q1 as int));
    }
    let (in_id, q2) = match decode(buf, q1) {
        Ok(x) => x,
        Err(e) => return Err(e),
    };
    proof {
        assert(t.skip(q2 - pos) =~= buf@.skip(q2 as int));
    }
    let (in_label, q3) = match decode_opt_text(buf, q2) {
        Ok(x) => x,
        Err(e) => return Err(e),
    };
    Ok(((id, label, in_id, in_label), q3))
}

/// Reads the out vertex of an edge of a graph at `pos`.
fn decode_graph_edge_out(buf: &[u8], pos: usize) -> (r: Result<((GremlinValue, Option<String>), usize), DecodeError>)
    requires
        pos <= buf@.len(),
        !(parse_graph_edge_out(buf@.skip(pos as int)) is Abort),
    ensures
        read_as(
            parse_graph_edge_out(buf@.skip(pos as int)),
            r,
            pos as int,
            buf@.len() as int,
            |b: (GremlinValue, Option<String>)| (value_view(b.0), opt_text_view(b.1)),
        ),
{
    proof {
        reveal(parse_graph_edge_out);
    }
    let ghost t = buf@.skip(pos as int);
    let (out_id, q1) = match decode(buf, pos) {
        Ok(x) => x,
        Err(e) => return Err(e),
    };
    proof {
        assert(t.skip(q1 - pos) =~= buf@.skip(q1 as int));
    }
    let (out_label, q2) = match decode_opt_text(buf, q1) {
        Ok(x) => x,
        Err(e) => return Err(e),
    };
    Ok(((out_id, out_label), q2))
}

/// Reads an edge of a graph at `pos`.
#[verifier::rlimit(100)]
#[verifier::spinoff_prover]
fn decode_graph_edge(buf: &[u8], pos: usize) -> (r: Result<(GraphEdge, usize), DecodeError>)
    requires
        pos <= buf@.len(),
        !(parse_graph_edge(buf@.skip(pos as int)) is Abort),
    ensures
        read_as(
            parse_graph_edge(buf@.skip(pos as int)),
            r,
            pos as int,
            buf@.len() as int,
            |e: GraphEdge| graph_edge_view(e),
        ),
{
    proof {
        reveal(parse_graph_edge);
    }
    let ghost t = buf@.skip(pos as int);
    let ((id, label, in_v_id, in_v_label), q1) = match decode_graph_edge_in(buf, pos) {
        Ok(x) => x,
        Err(e) => return Err(e),
    };
    proof {
        assert(t.skip(q1 - pos) =~= buf@.skip(q1 as int));
    }
    let ((out_v_id, out_v_label), q2) = match decode_graph_edge_out(buf, q1) {
        Ok(x) => x,
        Err(e) => return Err(e),
    };
    proof {
        assert(t.skip(q2 - pos) =~= buf@.skip(q2 as int));
    }
    let ((parent, properties), q3) = match decode_graph_vp_links(buf, q2) {
        Ok(x) => x,
        Err(e) => return Err(e),
    };
    Ok((GraphEdge { id, label, in_v_id, in_v_label, out_v_id, out_v_label, parent, properties }, q3))
}

/// Reads the edges of a graph at `pos`: a count, then the edges.
#[verifier::rlimit(100)]
#[verifier::spinoff_prover]
fn decode_graph_edge_list(buf: &[u8], pos: usize) -> (r: Result<(Vec<GraphEdge>, usize), DecodeError>)
    requires
        pos <= buf@.len(),
        !(parse_graph_edge_list(buf@.skip(pos as int)) is Abort),
    ensures
        read_as(
            parse_graph_edge_list(buf@.skip(pos as int)),
            r,
            pos as int,
            buf@.len() as int,
            |es: Vec<GraphEdge>| es@.map_values(|e: GraphEdge| graph_edge_view(e)),
        ),
{
    let (len, p4) = match decode_i32_at(buf, pos) {
        Ok(x) => x,
        Err(e) => return Err(e),
    };
    let n = len as usize;
    let ghost s = buf@.skip(p4 as int);
    proof {
        assert(buf@.skip(pos as int).skip(4) =~= s);
    }
    let mut es: Vec<GraphEdge> = Vec::new();
    proof {
        assert(es@.map_values(|e: GraphEdge| graph_edge_view(e)) =~= Seq::<GraphEdgeView>::empty());
    }
    let mut q = p4;
    let mut i: usize = 0;
    while i < n
        invariant
            p4 == pos + 4,
            p4 <= q <= buf@.len(),
            i <= n,
            n == len as usize,
            s == buf@.skip(p4 as int),
            buf@.skip(pos as int).skip(4) == s,
            parse_i32(buf@.skip(pos as int)) == Parsed::Done(len, 4),
            parse_graph_edges(s, i as nat) == Parsed::Done(
                es@.map_values(|e: GraphEdge| graph_edge_view(e)),
                q - p4,
            ),
            !(parse_graph_edges(s, n as nat) is Abort),
        decreases n - i,
    {
        proof {
            assert(s.skip(q - p4) =~= buf@.skip(q as int));
            if parse_graph_edge(buf@.skip(q as int)) is Abort {
                lemma_graph_edges_stuck(s, (i + 1) as nat, n as nat);
            }
        }
        let (x, q2) = match decode_graph_edge(buf, q) {
            Ok(x) => x,
            Err(e) => {
                proof {
                    assert(parse_graph_edges(s, (i + 1) as nat) == Parsed::<Seq<GraphEdgeView>>::Fail(e));
                    lemma_graph_edges_stuck(s, (i + 1) as nat, n as nat);
                }
                return Err(e);
            },
        };
        proof {
            let es2 = es@.push(x);
            assert(es2.map_values(|e: GraphEdge| graph_edge_view(e)) =~= es@.map_values(
                |e: GraphEdge| graph_edge_view(e),
            ).push(graph_edge_view(x)));
        }
        es.push(x);
        q = q2;
        i = i + 1;
    }
    Ok((es, q))
}

/// Reads the vertices of a graph at `pos`, behind their count.
#[verifier::rlimit(100)]
#[verifier::spinoff_prover]
fn decode_graph_vertex_list(buf: &[u8], pos: usize) -> (r: Result<(Vec<Vertex>, usize), DecodeError>)
    requires
        pos <= buf@.len(),
        parse_i32(buf@.skip(pos as int)) matches Parsed::Done(len, _) && len >= 0 && !(
        parse_graph_vertices(buf@.skip(pos + 4), len as nat) is Abort),
    ensures
        parse_i32(buf@.skip(pos as int)) matches Parsed::Done(len, _) && read_as(
            shift(parse_graph_vertices(buf@.skip(pos + 4), len as nat), 4),
            r,
            pos as int,
            buf@.len() as int,
            |vs: Vec<Vertex>| vs@.map_values(|v: Vertex| vertex_view(v)),
        ),
{
    let (len, p4) = match decode_i32_at(buf, pos) {
        Ok(x) => x,
        Err(e) => return Err(e),
    };
    let n = len as usize;
    let ghost s = buf@.skip(p4 as int);
    let mut vs: Vec<Vertex> = Vec::new();
    proof {
        assert(vs@.map_values(|v: Vertex| vertex_view(v)) =~= Seq::<GValue>::empty());
    }
    let mut q = p4;
    let mut i: usize = 0;
    while i < n
        invariant
            p4 == pos + 4,
            p4 <= q <= buf@.len(),
            len >= 0,
            i <= n,
            n == len,
            s == buf@.skip(p4 as int),
            parse_i32(buf@.skip(pos as int)) == Parsed::Done(len, 4),
            parse_graph_vertices(s, i as nat) == Parsed::Done(
                vs@.map_values(|v: Vertex| vertex_view(v)),
                q - p4,
            ),
            !(parse_graph_vertices(s, n as nat) is Abort),
        decreases n - i,
    {
        proof {
            assert(s.skip(q - p4) =~= buf@.skip(q as int));
            if parse_graph_vertex(buf@.skip(q as int)) is Abort {
                lemma_graph_vertices_stuck(s, (i + 1) as nat, n as nat);
            }
        }
        let (x, q2) = match decode_graph_vertex(buf, q) {
            Ok(x) => x,
            Err(e) => {
                proof {
                    assert(parse_graph_vertices(s, (i + 1) as nat) == Parsed::<Seq<GValue>>::Fail(e));
                    lemma_graph_vertices_stuck(s, (i + 1) as nat, n as nat);
                }
                return Err(e);
            },
        };
        proof {
            let vs2 = vs@.push(x);
            assert(vs2.map_values(|v: Vertex| vertex_view(v)) =~= vs@.map_values(
                |v: Vertex| vertex_view(v),
            ).push(vertex_view(x)));
        }
        vs.push(x);
        q = q2;
        i = i + 1;
    }
    Ok((vs, q))
}

impl Graph {
    /// Reads the partial form of a graph at `pos`: the vertices, each with its vertex
    /// properties as a list, then the edges.
    pub fn partial_decode(buf: &[u8], pos: usize) -> (r: Result<(Graph, usize), DecodeError>)
        requires
            pos <= buf@.len(),
            !(parse_graph_partial(buf@.skip(pos as int)) is Abort),
        ensures
            read_as(
                parse_graph_partial(buf@.skip(pos as int)),
                r,
                pos as int,
                buf@.len() as int,
                |g: Graph| g.deep_view(),
            ),
    {
        let ghost t = buf@.skip(pos as int);
        if buf.len() - pos < 4 {
            return Err(DecodeError::UnexpectedEof);
        }
        proof {
            assert(t.skip(4) =~= buf@.skip(pos + 4));
        }
        let (vertices, q1) = match decode_graph_vertex_list(buf, pos) {
            Ok(x) => x,
            Err(e) => return Err(e),
        };
        proof {
            assert(t.skip(q1 - pos) =~= buf@.skip(q1 as int));
        }
        let (edges, q2) = match decode_graph_edge_list(buf, q1) {
            Ok(x) => x,
            Err(e) => return Err(e),
        };
        Ok((Graph { vertices, edges }, q2))
    }

    /// Reads a fully qualified graph at `pos`: the type code 0x10, the set flag and the
    /// partial form.
    pub fn decode(buf: &[u8], pos: usize) -> (r: Result<(Graph, usize), DecodeError>)
        requires
            pos <= buf@.len(),
            !(parse_graph(buf@.skip(pos as int)) is Abort),
        ensures
            read_as(
                parse_graph(buf@.skip(pos as int)),
                r,
                pos as int,
                buf@.len() as int,
                |g: Graph| g.deep_view(),
            ),
    {
        if buf.len() - pos < 2 {
            return Err(DecodeError::UnexpectedEof);
        }
        if buf[pos] == 0x10u8 && buf[pos + 1] == 0x00u8 {
            proof {
                assert(buf@.skip(pos as int).skip(2) =~= buf@.skip(pos + 2));
            }
            Self::partial_decode(buf, pos + 2)
        } else {
            Err(DecodeError::TypeMismatch)
        }
    }
}

// ---------------------------------------------------------------------------
// Reading back what was written
// ---------------------------------------------------------------------------

/// A list of properties that reads back as itself: it fits the 32-bit count and each item is
/// a well-formed property.
pub open spec fn property_list_wf(ps: Seq<GValue>) -> bool {
    &&& ps.len() <= i32::MAX
    &&& values_wf(ps)
    &&& forall|i: int| 0 <= i < ps.len() ==> has_type(#[trigger] ps[i], CoreType::Property)
}

/// A vertex that may be absent and reads back as itself.
pub open spec fn opt_vertex_wf(o: Option<Box<GValue>>) -> bool {
    o matches Some(v) ==> *v is Vertex && value_wf(*v)
}

/// A vertex property of a graph that reads back as itself: its properties are there as a
/// list, and its parts are well formed.
pub open spec fn graph_vp_wf(p: GValue) -> bool {
    &&& p is VertexProperty
    &&& value_wf(*p->VertexProperty_id)
    &&& string_wf(p->VertexProperty_label)
    &&& value_wf(*p->VertexProperty_value)
    &&& opt_vertex_wf(p->VertexProperty_parent)
    &&& p->VertexProperty_properties is Some
    &&& property_list_wf(p->VertexProperty_properties->0)
}

/// A vertex of a graph that reads back as itself: its vertex properties are there as a
/// list that fits the 32-bit count, and its parts are well formed.
pub open spec fn graph_vertex_wf(v: GValue) -> bool {
    &&& v is Vertex
    &&& value_wf(*v->Vertex_id)
    &&& string_wf(v->Vertex_label)
    &&& v->Vertex_properties is Some
    &&& v->Vertex_properties->0.len() <= i32::MAX
    &&& forall|i: int| 0 <= i < v->Vertex_properties->0.len() ==> graph_vp_wf(
        #[trigger] v->Vertex_properties->0[i],
    )
}

/// A text that may be absent and reads back as itself.
pub open spec fn opt_text_wf(o: Option<Seq<char>>) -> bool {
    o matches Some(t) ==> string_wf(t)
}

/// An edge of a graph that reads back as itself.
pub open spec fn graph_edge_wf(e: GraphEdgeView) -> bool {
    &&& value_wf(e.id)
    &&& string_wf(e.label)
    &&& value_wf(e.in_id)
    &&& opt_text_wf(e.in_label)
    &&& value_wf(e.out_id)
    &&& opt_text_wf(e.out_label)
    &&& opt_vertex_wf(e.parent)
    &&& property_list_wf(e.properties)
}

/// A graph that reads back as itself: its lists fit the 32-bit counts, every vertex and every
/// vertex property has its list of properties, and every part is well formed.
pub open spec fn graph_wf(g: (Seq<GValue>, Seq<GraphEdgeView>)) -> bool {
    &&& g.0.len() <= i32::MAX
    &&& g.1.len() <= i32::MAX
    &&& forall|i: int| 0 <= i < g.0.len() ==> graph_vertex_wf(#[trigger] g.0[i])
    &&& forall|i: int| 0 <= i < g.1.len() ==> graph_edge_wf(#[trigger] g.1[i])
}

/// A list of properties reads back.
#[verifier::rlimit(60)]
#[verifier::spinoff_prover]
proof fn lemma_property_list_roundtrip(ps: Seq<GValue>, rest: Seq<u8>)
    requires
        property_list_wf(ps),
    ensures
        parse_property_list(property_list_bytes(ps) + rest) == Parsed::Done(
            ps,
            property_list_bytes(ps).len() as int,
        ),
{
    reveal(parse_property_list);
    let s = property_list_bytes(ps) + rest;
    assert(s =~= be_i32(ps.len() as i32) + (values_bytes(ps) + rest));
    lemma_parse_i32_prefix(ps.len() as i32, values_bytes(ps) + rest);
    assert(s.skip(4) =~= values_bytes(ps) + rest);
    lemma_typed_values_roundtrip(CoreType::Property, ps, rest);
}

/// A text that may be absent reads back.
proof fn lemma_opt_text_roundtrip(o: Option<Seq<char>>, rest: Seq<u8>)
    requires
        opt_text_wf(o),
    ensures
        parse_opt_text(opt_text_bytes(o) + rest) == Parsed::Done(o, opt_text_bytes(o).len() as int),
{
    if let Some(t) = o {
        let s = opt_text_bytes(o) + rest;
        assert(s.skip(2) =~= string_partial_bytes(t) + rest);
        lemma_string_roundtrip(t, rest);
    }
}

/// A vertex that may be absent reads back.
proof fn lemma_opt_vertex_graph(o: Option<Box<GValue>>, rest: Seq<u8>)
    requires
        opt_vertex_wf(o),
    ensures
        parse_opt_typed(CoreType::Vertex, opt_vertex_bytes(o) + rest) == Parsed::Done(
            o,
            opt_vertex_bytes(o).len() as int,
        ),
{
    assert(opt_vertex_bytes(o) == opt_value_bytes(o));
    lemma_opt_vertex_roundtrip(o, rest);
}

/// A vertex property of a graph reads back.
#[verifier::rlimit(100)]
#[verifier::spinoff_prover]
proof fn lemma_graph_vp_roundtrip(p: GValue, rest: Seq<u8>)
    requires
        graph_vp_wf(p),
    ensures
        parse_graph_vp(graph_vp_bytes(p) + rest) == Parsed::Done(p, graph_vp_bytes(p).len() as int),
{
    reveal(parse_graph_vp);
    reveal(parse_graph_vp_head);
    reveal(parse_graph_vp_links);
    let id = *p->VertexProperty_id;
    let label = p->VertexProperty_label;
    let value = *p->VertexProperty_value;
    let parent = p->VertexProperty_parent;
    let ps = p->VertexProperty_properties->0;
    let a = value_bytes(id) + string_partial_bytes(label);
    let b = value_bytes(value);
    let c = opt_vertex_bytes(parent);
    let d = property_list_bytes(ps);
    let s = graph_vp_bytes(p) + rest;
    assert(graph_vp_bytes(p) == (a + b) + (c + d));
    assert(s =~= a + (b + (c + (d + rest))));
    lemma_id_label(id, label, b + (c + (d + rest)));
    assert(a + (b + (c + (d + rest))) =~= value_bytes(id) + string_partial_bytes(label) + (b + (c + (
    d + rest))));
    assert(s.skip(a.len() as int) =~= b + (c + (d + rest)));
    lemma_value_roundtrip(value, c + (d + rest));
    assert(parse_graph_vp_head(s) == Parsed::Done((id, label, value), (a + b).len() as int));
    let u = s.skip((a + b).len() as int);
    assert(u =~= c + (d + rest));
    lemma_opt_vertex_graph(parent, d + rest);
    assert(u.skip(c.len() as int) =~= d + rest);
    lemma_property_list_roundtrip(ps, rest);
    assert(parse_graph_vp_links(u) == Parsed::Done((parent, ps), (c + d).len() as int));
}

/// Vertex properties of a graph read back one after another.
proof fn lemma_graph_vps_roundtrip(ps: Seq<GValue>, rest: Seq<u8>)
    requires
        forall|i: int| 0 <= i < ps.len() ==> graph_vp_wf(#[trigger] ps[i]),
    ensures
        parse_graph_vps(graph_vps_bytes(ps) + rest, ps.len()) == Parsed::Done(
            ps,
            graph_vps_bytes(ps).len() as int,
        ),
    decreases ps.len(),
{
    if ps.len() > 0 {
        let init = ps.drop_last();
        let last = ps.last();
        let f = graph_vp_bytes(last);
        let s = graph_vps_bytes(ps) + rest;
        assert(s =~= graph_vps_bytes(init) + (f + rest));
        assert forall|i: int| 0 <= i < init.len() implies graph_vp_wf(#[trigger] init[i]) by {
            assert(init[i] == ps[i]);
        }
        lemma_graph_vps_roundtrip(init, f + rest);
        let k = graph_vps_bytes(init).len() as int;
        assert(s.skip(k) =~= f + rest);
        assert(graph_vp_wf(ps[ps.len() - 1]));
        lemma_graph_vp_roundtrip(last, rest);
        assert(init.push(last) =~= ps);
    } else {
        assert(ps =~= seq![]);
    }
}

/// A vertex of a graph reads back.
#[verifier::rlimit(100)]
#[verifier::spinoff_prover]
proof fn lemma_graph_vertex_roundtrip(v: GValue, rest: Seq<u8>)
    requires
        graph_vertex_wf(v),
    ensures
        parse_graph_vertex(graph_vertex_bytes(v) + rest) == Parsed::Done(
            v,
            graph_vertex_bytes(v).len() as int,
        ),
{
    reveal(parse_graph_vertex);
    let id = *v->Vertex_id;
    let label = v->Vertex_label;
    let ps = v->Vertex_properties->0;
    let a = value_bytes(id) + string_partial_bytes(label);
    let s = graph_vertex_bytes(v) + rest;
    assert(graph_vertex_bytes(v) == a + (be_i32(ps.len() as i32) + graph_vps_bytes(ps)));
    assert(s =~= a + (be_i32(ps.len() as i32) + (graph_vps_bytes(ps) + rest)));
    lemma_id_label(id, label, be_i32(ps.len() as i32) + (graph_vps_bytes(ps) + rest));
    assert(a + (be_i32(ps.len() as i32) + (graph_vps_bytes(ps) + rest)) =~= value_bytes(id)
        + string_partial_bytes(label) + (be_i32(ps.len() as i32) + (graph_vps_bytes(ps) + rest)));
    let u = s.skip(a.len() as int);
    assert(u =~= be_i32(ps.len() as i32) + (graph_vps_bytes(ps) + rest));
    lemma_parse_i32_prefix(ps.len() as i32, graph_vps_bytes(ps) + rest);
    assert(s.skip(a.len() + 4int) =~= graph_vps_bytes(ps) + rest);
    lemma_graph_vps_roundtrip(ps, rest);
    assert(v == GValue::Vertex { id: Box::new(id), label, properties: Some(ps) });
}

/// Vertices of a graph read back one after another.
proof fn lemma_graph_vertices_roundtrip(vs: Seq<GValue>, rest: Seq<u8>)
    requires
        forall|i: int| 0 <= i < vs.len() ==> graph_vertex_wf(#[trigger] vs[i]),
    ensures
        parse_graph_vertices(graph_vertices_bytes(vs) + rest, vs.len()) == Parsed::Done(
            vs,
            graph_vertices_bytes(vs).len() as int,
        ),
    decreases vs.len(),
{
    if vs.len() > 0 {
        let init = vs.drop_last();
        let last = vs.last();
        let f = graph_vertex_bytes(last);
        let s = graph_vertices_bytes(vs) + rest;
        assert(s =~= graph_vertices_bytes(init) + (f + rest));
        assert forall|i: int| 0 <= i < init.len() implies graph_vertex_wf(#[trigger] init[i]) by {
            assert(init[i] == vs[i]);
        }
        lemma_graph_vertices_roundtrip(init, f + rest);
        let k = graph_vertices_bytes(init).len() as int;
        assert(s.skip(k) =~= f + rest);
        assert(graph_vertex_wf(vs[vs.len() - 1]));
        lemma_graph_vertex_roundtrip(last, rest);
        assert(init.push(last) =~= vs);
    } else {
        assert(vs =~= seq![]);
    }
}

/// The first fields of an edge of a graph read back.
#[verifier::rlimit(60)]
#[verifier::spinoff_prover]
proof fn lemma_graph_edge_in_roundtrip(e: GraphEdgeView, x: Seq<u8>)
    requires
        graph_edge_wf(e),
    ensures
        parse_graph_edge_in(
            ((value_bytes(e.id) + string_partial_bytes(e.label)) + (value_bytes(e.in_id)
                + opt_text_bytes(e.in_label))) + x,
        ) == Parsed::Done(
            (e.id, e.label, e.in_id, e.in_label),
            ((value_bytes(e.id) + string_partial_bytes(e.label)) + (value_bytes(e.in_id)
                + opt_text_bytes(e.in_label))).len() as int,
        ),
{
    reveal(parse_graph_edge_in);
    let a = value_bytes(e.id) + string_partial_bytes(e.label);
    let b = value_bytes(e.in_id);
    let c = opt_text_bytes(e.in_label);
    let s = (a + (b + c)) + x;
    assert(s =~= value_bytes(e.id) + string_partial_bytes(e.label) + (b + (c + x)));
    lemma_id_label(e.id, e.label, b + (c + x));
    assert(s.skip(a.len() as int) =~= b + (c + x));
    lemma_value_roundtrip(e.in_id, c + x);
    assert(s.skip((a + b).len() as int) =~= c + x);
    lemma_opt_text_roundtrip(e.in_label, x);
}

/// The out vertex of an edge of a graph reads back.
proof fn lemma_graph_edge_out_roundtrip(e: GraphEdgeView, x: Seq<u8>)
    requires
        graph_edge_wf(e),
    ensures
        parse_graph_edge_out((value_bytes(e.out_id) + opt_text_bytes(e.out_label)) + x)
            == Parsed::Done(
            (e.out_id, e.out_label),
            (value_bytes(e.out_id) + opt_text_bytes(e.out_label)).len() as int,
        ),
{
    reveal(parse_graph_edge_out);
    let d = value_bytes(e.out_id);
    let f = opt_text_bytes(e.out_label);
    let s = (d + f) + x;
    assert(s =~= d + (f + x));
    lemma_value_roundtrip(e.out_id, f + x);
    assert(s.skip(d.len() as int) =~= f + x);
    lemma_opt_text_roundtrip(e.out_label, x);
}

/// The links of an edge, or of a vertex property, of a graph read back.
proof fn lemma_graph_links_roundtrip(parent: Option<Box<GValue>>, ps: Seq<GValue>, x: Seq<u8>)
    requires
        opt_vertex_wf(parent),
        property_list_wf(ps),
    ensures
        parse_graph_vp_links((opt_vertex_bytes(parent) + property_list_bytes(ps)) + x)
            == Parsed::Done(
            (parent, ps),
            (opt_vertex_bytes(parent) + property_list_bytes(ps)).len() as int,
        ),
{
    reveal(parse_graph_vp_links);
    let g = opt_vertex_bytes(parent);
    let h = property_list_bytes(ps);
    let s = (g + h) + x;
    assert(s =~= g + (h + x));
    lemma_opt_vertex_graph(parent, h + x);
    assert(s.skip(g.len() as int) =~= h + x);
    lemma_property_list_roundtrip(ps, x);
}

/// An edge of a graph reads back.
#[verifier::rlimit(100)]
#[verifier::spinoff_prover]
proof fn lemma_graph_edge_roundtrip(e: GraphEdgeView, rest: Seq<u8>)
    requires
        graph_edge_wf(e),
    ensures
        parse_graph_edge(graph_edge_bytes(e) + rest) == Parsed::Done(
            e,
            graph_edge_bytes(e).len() as int,
        ),
{
    reveal(parse_graph_edge);
    let p1 = (value_bytes(e.id) + string_partial_bytes(e.label)) + (value_bytes(e.in_id)
        + opt_text_bytes(e.in_label));
    let p2 = value_bytes(e.out_id) + opt_text_bytes(e.out_label);
    let p3 = opt_vertex_bytes(e.parent) + property_list_bytes(e.properties);
    let s = graph_edge_bytes(e) + rest;
    assert(graph_edge_bytes(e) == p1 + (p2 + p3));
    assert(s =~= p1 + ((p2 + p3) + rest));
    lemma_graph_edge_in_roundtrip(e, (p2 + p3) + rest);
    assert(s.skip(p1.len() as int) =~= p2 + (p3 + rest));
    lemma_graph_edge_out_roundtrip(e, p3 + rest);
    assert(s.skip((p1.len() + p2.len()) as int) =~= p3 + rest);
    lemma_graph_links_roundtrip(e.parent, e.properties, rest);
}

/// Edges of a graph read back one after another.
proof fn lemma_graph_edges_roundtrip(es: Seq<GraphEdgeView>, rest: Seq<u8>)
    requires
        forall|i: int| 0 <= i < es.len() ==> graph_edge_wf(#[trigger] es[i]),
    ensures
        parse_graph_edges(graph_edges_bytes(es) + rest, es.len()) == Parsed::Done(
            es,
            graph_edges_bytes(es).len() as int,
        ),
    decreases es.len(),
{
    if es.len() > 0 {
        let init = es.drop_last();
        let last = es.last();
        let f = graph_edge_bytes(last);
        let s = graph_edges_bytes(es) + rest;
        assert(s =~= graph_edges_bytes(init) + (f + rest));
        assert forall|i: int| 0 <= i < init.len() implies graph_edge_wf(#[trigger] init[i]) by {
            assert(init[i] == es[i]);
        }
        lemma_graph_edges_roundtrip(init, f + rest);
        let k = graph_edges_bytes(init).len() as int;
        assert(s.skip(k) =~= f + rest);
        assert(graph_edge_wf(es[es.len() - 1]));
        lemma_graph_edge_roundtrip(last, rest);
        assert(init.push(last) =~= es);
    } else {
        assert(es =~= seq![]);
    }
}

/// Reading the bytes of a well-formed graph, whatever bytes follow them, gives the graph back
/// and takes exactly its bytes. A vertex or vertex property written without its list of
/// properties does not read back: the reader expects a count where the null object stands.
#[verifier::rlimit(100)]
#[verifier::spinoff_prover]
pub proof fn lemma_graph_roundtrip(g: (Seq<GValue>, Seq<GraphEdgeView>), rest: Seq<u8>)
    requires
        graph_wf(g),
    ensures
        parse_graph(fq_bytes(0x10u8, graph_partial_bytes(g)) + rest) == Parsed::Done(
            g,
            fq_bytes(0x10u8, graph_partial_bytes(g)).len() as int,
        ),
{
    let vb = be_i32(g.0.len() as i32) + graph_vertices_bytes(g.0);
    let eb = be_i32(g.1.len() as i32) + graph_edges_bytes(g.1);
    let s = fq_bytes(0x10u8, graph_partial_bytes(g)) + rest;
    let t = s.skip(2);
    assert(t =~= be_i32(g.0.len() as i32) + (graph_vertices_bytes(g.0) + (eb + rest)));
    lemma_parse_i32_prefix(g.0.len() as i32, graph_vertices_bytes(g.0) + (eb + rest));
    assert(t.skip(4) =~= graph_vertices_bytes(g.0) + (eb + rest));
    lemma_graph_vertices_roundtrip(g.0, eb + rest);
    let u = t.skip(vb.len() as int);
    assert(u =~= be_i32(g.1.len() as i32) + (graph_edges_bytes(g.1) + rest));
    lemma_parse_i32_prefix(g.1.len() as i32, graph_edges_bytes(g.1) + rest);
    assert(u.skip(4) =~= graph_edges_bytes(g.1) + rest);
    assert(((g.1.len() as i32) as usize) as nat == g.1.len());
    lemma_graph_edges_roundtrip(g.1, rest);
    assert(parse_graph_edge_list(u) == Parsed::Done(g.1, eb.len() as int));
    assert(parse_graph_partial(t) == Parsed::Done(g, (vb + eb).len() as int));
}

} // verus!
