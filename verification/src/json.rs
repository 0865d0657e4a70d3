//! A JSON tree as the library holds it: numbers as 64-bit integers or as the bits of a
//! floating-point number, objects as their members in order.

use vstd::prelude::*;

verus! {

/// A JSON value. A double is held by its bits, a float by its bits; an object holds its
/// members in the order they were written, a repeated key included.
#[derive(Debug, PartialEq)]
pub enum Json {
    Null,
    Bool(bool),
    Int(i64),
    Double(u64),
    Float(u32),
    Str(String),
    Array(Vec<Json>),
    Object(Vec<(String, Json)>),
}

/// What a JSON value stands for: texts as character sequences.
pub enum JsonView {
    Null,
    Bool(bool),
    Int(i64),
    Double(u64),
    Float(u32),
    Str(Seq<char>),
    Array(Seq<JsonView>),
    Object(Seq<(Seq<char>, JsonView)>),
}

/// The model of a JSON value.
pub open spec fn json_view(j: Json) -> JsonView
    decreases j,
{
    match j {
        Json::Null => JsonView::Null,
        Json::Bool(b) => JsonView::Bool(b),
        Json::Int(x) => JsonView::Int(x),
        Json::Double(x) => JsonView::Double(x),
        Json::Float(x) => JsonView::Float(x),
        Json::Str(s) => JsonView::Str(s@),
        Json::Array(xs) => JsonView::Array(jsons_view(xs@)),
        Json::Object(ms) => JsonView::Object(members_view(ms@)),
    }
}

/// The models of a sequence of JSON values.
pub open spec fn jsons_view(s: Seq<Json>) -> Seq<JsonView>
    decreases s,
{
    if s.len() == 0 {
        seq![]
    } else {
        jsons_view(s.subrange(0, s.len() - 1)).push(json_view(s[s.len() - 1]))
    }
}

/// The models of the members of an object.
pub open spec fn members_view(s: Seq<(String, Json)>) -> Seq<(Seq<char>, JsonView)>
    decreases s,
{
    if s.len() == 0 {
        seq![]
    } else {
        members_view(s.subrange(0, s.len() - 1)).push((s[s.len() - 1].0@, json_view(s[s.len() - 1].1)))
    }
}

/// A JSON array built one value after another has the models of the values in order.
pub proof fn lemma_jsons_view_push(s: Seq<Json>, j: Json)
    ensures
        jsons_view(s.push(j)) == jsons_view(s).push(json_view(j)),
{
    assert(s.push(j).subrange(0, s.len() as int) =~= s);
}

/// An object built one member after another has the models of the members in order.
pub proof fn lemma_members_view_push(s: Seq<(String, Json)>, m: (String, Json))
    ensures
        members_view(s.push(m)) == members_view(s).push((m.0@, json_view(m.1))),
{
    assert(s.push(m).subrange(0, s.len() as int) =~= s);
}

/// The model of a JSON array has one value per value.
pub proof fn lemma_jsons_view_len(s: Seq<Json>)
    ensures
        jsons_view(s).len() == s.len(),
        forall|i: int| 0 <= i < s.len() ==> #[trigger] jsons_view(s)[i] == json_view(s[i]),
    decreases s.len(),
{
    if s.len() > 0 {
        let t = s.subrange(0, s.len() - 1);
        lemma_jsons_view_len(t);
        assert forall|i: int| 0 <= i < s.len() implies #[trigger] jsons_view(s)[i] == json_view(s[i]) by {
            if i < s.len() - 1 {
                assert(t[i] == s[i]);
            }
        }
    }
}

/// The model of an object has one member per member.
pub proof fn lemma_members_view_len(s: Seq<(String, Json)>)
    ensures
        members_view(s).len() == s.len(),
        forall|i: int| 0 <= i < s.len() ==> #[trigger] members_view(s)[i] == (s[i].0@, json_view(s[i].1)),
    decreases s.len(),
{
    if s.len() > 0 {
        let t = s.subrange(0, s.len() - 1);
        lemma_members_view_len(t);
        assert forall|i: int| 0 <= i < s.len() implies #[trigger] members_view(s)[i] == (s[i].0@, json_view(s[i].1)) by {
            if i < s.len() - 1 {
                assert(t[i] == s[i]);
            }
        }
    }
}

} // verus!
