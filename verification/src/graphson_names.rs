//! The type names of the GraphSON 3 forms: those of the Gremlin server.

use vstd::prelude::*;
use crate::graphson::graphson_v3;
use crate::graphson_read::read_v3;
use crate::json::JsonView;
use crate::value::GValue;

verus! {

/// The type name that a JSON value declares: the text of its first member where that member
/// is `@type`.
pub open spec fn declared_type(j: JsonView) -> Option<Seq<char>> {
    match j {
        JsonView::Object(ms) => if ms.len() > 0 && ms[0].0 == "@type"@ {
            match ms[0].1 {
                JsonView::Str(t) => Some(t),
                _ => None,
            }
        } else {
            None
        },
        _ => None,
    }
}

/// The GraphSON 3 form of each kind of value declares the type name that the Gremlin server
/// uses for it; texts, booleans and the null value are written plain and declare none.
pub proof fn lemma_graphson_type_names(g: GValue)
    ensures
        declared_type(graphson_v3(g)) == match g {
            GValue::Int(_) => Some("g:Int32"@),
            GValue::Long(_) => Some("g:Int64"@),
            GValue::Str(_) => None::<Seq<char>>,
            GValue::Date(_) => Some("g:Date"@),
            GValue::Timestamp(_) => Some("g:Timestamp"@),
            GValue::Class(_) => Some("g:Class"@),
            GValue::Double(_) => Some("g:Double"@),
            GValue::Float(_) => Some("g:Float"@),
            GValue::List(_) => Some("g:List"@),
            GValue::SetValue(_) => Some("g:List"@),
            GValue::MapValue(_) => Some("g:Map"@),
            GValue::Uuid(_) => Some("g:UUID"@),
            GValue::Edge { .. } => Some("g:Edge"@),
            GValue::Path { .. } => Some("g:Path"@),
            GValue::Property { .. } => Some("g:Property"@),
            GValue::Vertex { .. } => Some("g:Vertex"@),
            GValue::VertexProperty { .. } => Some("g:VertexProperty"@),
            GValue::Barrier(_) => Some("g:Barrier"@),
            GValue::Binding(..) => Some("g:Binding"@),
            GValue::Cardinality(_) => Some("g:Cardinality"@),
            GValue::Column(_) => Some("g:Column"@),
            GValue::Direction(_) => Some("g:Direction"@),
            GValue::Operator(_) => Some("g:Operator"@),
            GValue::Order(_) => Some("g:Order"@),
            GValue::Pick(_) => Some("g:Pick"@),
            GValue::Pop(_) => Some("g:Pop"@),
            GValue::Lambda(_) => Some("g:Lambda"@),
            GValue::Scope(_) => Some("g:Scope"@),
            GValue::T(_) => Some("g:T"@),
            GValue::Traverser(..) => Some("g:Traverser"@),
            GValue::Byte(_) => Some("gx:Byte"@),
            GValue::ByteBuffer(_) => Some("gx:ByteBuffer"@),
            GValue::Short(_) => Some("gx:Int16"@),
            GValue::Boolean(_) => None::<Seq<char>>,
            GValue::BulkSet(_) => Some("g:BulkSet"@),
            GValue::Merge(_) => Some("g:Merge"@),
            GValue::Null => None::<Seq<char>>,
            GValue::Char(_) => Some("gx:Char"@),
        },
{
}

/// A set is written in GraphSON 3 as the list of its values, in order; so it reads back as
/// that list.
pub proof fn lemma_set_written_as_list(xs: Seq<GValue>)
    ensures
        graphson_v3(GValue::SetValue(xs)) == graphson_v3(GValue::List(xs)),
        read_v3(graphson_v3(GValue::SetValue(xs))) == read_v3(graphson_v3(GValue::List(xs))),
{
}

} // verus!
