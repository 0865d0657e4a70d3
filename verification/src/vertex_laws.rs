//! What reading gives back of the GraphSON 3 form of a vertex with properties: every
//! property is read, grouped by label in the order in which the labels first occur.

use vstd::prelude::*;
use crate::error::GraphSonError;
use crate::graphson::{distinct_labels, graphson_list, graphson_v3, grouped_members, labelled, member_key, typed_json};
use crate::graphson_laws::{
    is_plain_v3, lemma_graphson_list_len, lemma_read_vertex_json, lemma_read_vertex_property_json,
    lemma_typed_members, lemma_vertex_property_round_trip_v3, lemma_plain_round_trip_v3,
    vertex_property_members,
};
use crate::graphson_read::{last_index, properties_v3, read_as_type_v3, read_members_v3, read_v3, vertex_properties_v3};
use crate::json::JsonView;
use crate::value::GValue;

verus! {

/// The values of `ps` whose label is `l`, in order.
pub open spec fn with_label(ps: Seq<GValue>, l: Seq<char>) -> Seq<GValue>
    decreases ps.len(),
{
    if ps.len() == 0 {
        seq![]
    } else {
        with_label(ps.subrange(0, ps.len() - 1), l) + if member_key(ps[ps.len() - 1]) == l {
            seq![ps[ps.len() - 1]]
        } else {
            seq![]
        }
    }
}

/// The values of `ps` with the labels `ls`, label by label.
pub open spec fn by_labels(ls: Seq<Seq<char>>, ps: Seq<GValue>) -> Seq<GValue>
    decreases ls.len(),
{
    if ls.len() == 0 {
        seq![]
    } else {
        by_labels(ls.subrange(0, ls.len() - 1), ps) + with_label(ps, ls[ls.len() - 1])
    }
}

/// The vertex properties whose GraphSON 3 form reads back: without vertex and without
/// properties of their own, of plain ids and values.
pub open spec fn plain_vertex_properties(ps: Seq<GValue>) -> bool {
    forall|i: int| 0 <= i < ps.len() ==> is_plain_v3(#[trigger] ps[i]) && ps[i] is VertexProperty
}

/// The form of each value of a list stands at its place.
proof fn lemma_graphson_list_index(s: Seq<GValue>, i: int)
    requires
        0 <= i < s.len(),
    ensures
        graphson_list(s)[i] == graphson_v3(s[i]),
    decreases s.len(),
{
    lemma_graphson_list_len(s);
    if i < s.len() - 1 {
        let init = s.subrange(0, s.len() - 1);
        lemma_graphson_list_index(init, i);
        lemma_graphson_list_len(init);
    }
}

/// A vertex property that reads back reads back where a vertex property is expected.
proof fn lemma_read_as_vertex_property(p: GValue)
    requires
        p is VertexProperty,
        is_plain_v3(p),
    ensures
        read_as_type_v3(graphson_v3(p), "g:VertexProperty"@) == Ok::<GValue, GraphSonError>(p),
{
    let vms = vertex_property_members(p);
    lemma_vertex_property_round_trip_v3(p);
    lemma_read_vertex_property_json(vms);
    lemma_typed_members("g:VertexProperty"@, JsonView::Object(vms));
}

/// Reading two arrays of vertex properties one after the other reads each in turn.
proof fn lemma_vertex_properties_concat(a: Seq<JsonView>, b: Seq<JsonView>, x: Seq<GValue>, y: Seq<GValue>)
    requires
        vertex_properties_v3(a) == Ok::<Seq<GValue>, GraphSonError>(x),
        vertex_properties_v3(b) == Ok::<Seq<GValue>, GraphSonError>(y),
    ensures
        vertex_properties_v3(a + b) == Ok::<Seq<GValue>, GraphSonError>(x + y),
    decreases b.len(),
{
    if b.len() == 0 {
        assert(a + b =~= a);
        assert(x + y =~= x);
    } else {
        let bi = b.subrange(0, b.len() - 1);
        let p = b[b.len() - 1];
        match vertex_properties_v3(bi) {
            Ok(yi) => {
                lemma_vertex_properties_concat(a, bi, x, yi);
                assert((a + b).subrange(0, (a + b).len() - 1) =~= a + bi);
                assert((a + b)[(a + b).len() - 1] == p);
                match read_as_type_v3(p, "g:VertexProperty"@) {
                    Ok(q) => {
                        assert(y == yi.push(q));
                        assert(x + yi.push(q) =~= (x + yi).push(q));
                    },
                    Err(_) => {},
                }
            },
            Err(_) => {},
        }
    }
}

/// The forms of the values labelled `l` among the first `k` read as those values.
proof fn lemma_labelled_read(ps: Seq<GValue>, l: Seq<char>, k: int)
    requires
        plain_vertex_properties(ps),
        0 <= k <= ps.len(),
    ensures
        vertex_properties_v3(
            labelled(ps.map_values(|p: GValue| member_key(p)).subrange(0, k), graphson_list(ps), l),
        ) == Ok::<Seq<GValue>, GraphSonError>(with_label(ps.subrange(0, k), l)),
    decreases k,
{
    let ls = ps.map_values(|p: GValue| member_key(p));
    let vs = graphson_list(ps);
    if k == 0 {
        assert(ls.subrange(0, 0).len() == 0);
        assert(ps.subrange(0, 0).len() == 0);
        assert(vertex_properties_v3(Seq::<JsonView>::empty()) == Ok::<Seq<GValue>, GraphSonError>(Seq::<GValue>::empty()));
    } else {
        lemma_labelled_read(ps, l, k - 1);
        let lk = ls.subrange(0, k);
        let pk = ps.subrange(0, k);
        assert(lk.subrange(0, k - 1) =~= ls.subrange(0, k - 1));
        assert(pk.subrange(0, k - 1) =~= ps.subrange(0, k - 1));
        assert(lk[k - 1] == member_key(ps[k - 1]));
        assert(pk[k - 1] == ps[k - 1]);
        let before = labelled(ls.subrange(0, k - 1), vs, l);
        let x = with_label(ps.subrange(0, k - 1), l);
        if member_key(ps[k - 1]) == l {
            lemma_graphson_list_index(ps, k - 1);
            assert(is_plain_v3(ps[k - 1]) && ps[k - 1] is VertexProperty);
            lemma_read_as_vertex_property(ps[k - 1]);
            let one = seq![graphson_v3(ps[k - 1])];
            assert(one.subrange(0, 0) =~= Seq::<JsonView>::empty());
            assert(vertex_properties_v3(Seq::<JsonView>::empty()) == Ok::<Seq<GValue>, GraphSonError>(Seq::<GValue>::empty()));
            assert(vertex_properties_v3(one) == Ok::<Seq<GValue>, GraphSonError>(seq![ps[k - 1]])) by {
                assert(Seq::<GValue>::empty().push(ps[k - 1]) =~= seq![ps[k - 1]]);
            }
            lemma_vertex_properties_concat(before, one, x, seq![ps[k - 1]]);
            assert(labelled(lk, vs, l) == before + one);
            assert(with_label(pk, l) == x + seq![ps[k - 1]]);
        } else {
            assert(labelled(lk, vs, l) =~= before);
            assert(with_label(pk, l) =~= x);
        }
    }
}

/// The members of a properties object, one per label, read as the values of those labels,
/// label by label.
proof fn lemma_groups_read(ps: Seq<GValue>, d: Seq<Seq<char>>)
    requires
        plain_vertex_properties(ps),
    ensures
        properties_v3(
            d.map_values(
                |l: Seq<char>|
                    (l, JsonView::Array(labelled(ps.map_values(|p: GValue| member_key(p)), graphson_list(ps), l))),
            ),
            1,
        ) == Ok::<Seq<GValue>, GraphSonError>(by_labels(d, ps)),
    decreases d.len(),
{
    let ls = ps.map_values(|p: GValue| member_key(p));
    let vs = graphson_list(ps);
    let pms = d.map_values(|l: Seq<char>| (l, JsonView::Array(labelled(ls, vs, l))));
    if d.len() > 0 {
        let di = d.subrange(0, d.len() - 1);
        lemma_groups_read(ps, di);
        assert(pms.subrange(0, pms.len() - 1) =~= di.map_values(|l: Seq<char>| (l, JsonView::Array(labelled(ls, vs, l)))));
        lemma_labelled_read(ps, d[d.len() - 1], ps.len() as int);
        assert(ls.subrange(0, ps.len() as int) =~= ls);
        assert(ps.subrange(0, ps.len() as int) =~= ps);
    } else {
        assert(pms.len() == 0);
    }
}

/// Reading the GraphSON 3 form of a vertex with properties, whose id is a plain value and
/// whose properties are vertex properties without vertex or properties of their own, of
/// plain ids and values, gives the vertex back with every property, grouped by label in the
/// order in which the labels first occur.
pub proof fn lemma_vertex_with_properties_round_trip_v3(g: GValue)
    requires
        g matches GValue::Vertex { id, properties: Some(ps), .. } && is_plain_v3(*id)
            && plain_vertex_properties(ps),
    ensures
        g matches GValue::Vertex { id, label, properties: Some(ps) } && read_v3(graphson_v3(g))
            == Ok::<GValue, GraphSonError>(GValue::Vertex {
                id,
                label,
                properties: Some(by_labels(distinct_labels(ps.map_values(|p: GValue| member_key(p))), ps)),
            }),
{
    match g {
        GValue::Vertex { id, label, properties: Some(ps) } => {
            let ls = ps.map_values(|p: GValue| member_key(p));
            let pj = JsonView::Object(grouped_members(ls, graphson_list(ps)));
            let ms = seq![("id"@, graphson_v3(*id)), ("label"@, JsonView::Str(label)), ("properties"@, pj)];
            assert(ms =~= seq![("id"@, graphson_v3(*id)), ("label"@, JsonView::Str(label))] + seq![("properties"@, pj)]);
            assert(graphson_v3(g) == typed_json("g:Vertex"@, JsonView::Object(ms)));
            reveal_strlit("id");
            reveal_strlit("label");
            reveal_strlit("properties");
            assert("id"@.len() != "label"@.len());
            assert("properties"@.len() != "label"@.len());
            assert("properties"@.len() != "id"@.len());
            reveal_with_fuel(last_index, 4);
            assert(ms.subrange(0, 2) =~= seq![("id"@, graphson_v3(*id)), ("label"@, JsonView::Str(label))]);
            assert(ms.subrange(0, 2).subrange(0, 1) =~= seq![("id"@, graphson_v3(*id))]);
            assert(last_index(ms, "id"@) == 0);
            assert(last_index(ms, "label"@) == 1);
            assert(last_index(ms, "properties"@) == 2);
            lemma_plain_round_trip_v3(*id);
            lemma_groups_read(ps, distinct_labels(ls));
            lemma_read_vertex_json(ms);
        },
        _ => {},
    }
}

} // verus!
