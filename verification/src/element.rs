//! The elements of a property graph: vertices, edges and their properties.

use vstd::prelude::*;
use crate::value::GremlinValue;
use crate::structure::SetList;

verus! {

/// A path through a graph: the objects met on the way and, for each step, the set of
/// labels given to it.
#[derive(Debug, PartialEq)]
pub struct Path {
    pub labels: Vec<SetList<String>>,
    pub objects: Vec<GremlinValue>,
}

/// A vertex: its id, its label and, where they were sent along, its properties.
#[derive(Debug, PartialEq)]
pub struct Vertex {
    pub id: Box<GremlinValue>,
    pub label: String,
    pub properties: Option<Vec<VertexProperty>>,
}

/// A property of a vertex: its id, its key (the label), its value, the vertex it belongs to
/// and its own meta-properties.
#[derive(Debug, PartialEq)]
pub struct VertexProperty {
    pub id: Box<GremlinValue>,
    pub label: String,
    pub value: Box<GremlinValue>,
    pub parent: Option<Vertex>,
    pub properties: Option<Vec<Property>>,
}

/// A key-value property of an edge or of a vertex property.
#[derive(Debug, PartialEq)]
pub struct Property {
    pub key: String,
    pub value: Box<GremlinValue>,
    pub parent: EitherParent,
}

/// The element a property belongs to, where it is known.
#[derive(Debug, PartialEq)]
pub enum EitherParent {
    Edge(Edge),
    VertexProperty(VertexProperty),
    NoParent,
}

/// An edge: its id and label, the ids and labels of the vertices it goes in to and out of,
/// its parent vertex and its properties.
#[derive(Debug, PartialEq)]
pub struct Edge {
    pub id: Box<GremlinValue>,
    pub label: String,
    pub in_v_id: Box<GremlinValue>,
    pub in_v_label: String,
    pub out_v_id: Box<GremlinValue>,
    pub out_v_label: String,
    pub parent: Option<Vertex>,
    pub properties: Option<Vec<Property>>,
}

impl Vertex {
    /// A vertex with the given id, label and properties.
    pub fn new(id: GremlinValue, label: &str, properties: Option<Vec<VertexProperty>>) -> (v: Vertex)
        ensures
            *v.id == id,
            v.label@ == label@,
            v.properties == properties,
    {
        Vertex { id: Box::new(id), label: label.to_string(), properties }
    }

    /// The id of the vertex.
    pub fn id(&self) -> (r: &GremlinValue)
        ensures
            *r == *self.id,
    {
        &self.id
    }

    /// The label of the vertex.
    pub fn label(&self) -> (r: &String)
        ensures
            *r == self.label,
    {
        &self.label
    }
}

impl VertexProperty {
    /// A vertex property with the given id, label, value, parent vertex and properties.
    pub fn new(
        id: GremlinValue,
        label: &str,
        value: GremlinValue,
        parent: Option<Vertex>,
        properties: Option<Vec<Property>>,
    ) -> (p: VertexProperty)
        ensures
            *p.id == id,
            p.label@ == label@,
            *p.value == value,
            p.parent == parent,
            p.properties == properties,
    {
        VertexProperty {
            id: Box::new(id),
            label: label.to_string(),
            value: Box::new(value),
            parent,
            properties,
        }
    }
}

impl Property {
    /// A property with the given key, value and parent element.
    pub fn new(key: &str, value: GremlinValue, parent: EitherParent) -> (p: Property)
        ensures
            p.key@ == key@,
            *p.value == value,
            p.parent == parent,
    {
        Property { key: key.to_string(), value: Box::new(value), parent }
    }
}

impl Edge {
    /// An edge with the given label whose ids are the null object, whose vertex labels are
    /// empty, and which has no parent and no properties.
    pub fn new(label: &str) -> (e: Edge)
        ensures
            *e.id == GremlinValue::UnspecifiedNullObject,
            e.label@ == label@,
            *e.in_v_id == GremlinValue::UnspecifiedNullObject,
            e.in_v_label@ == Seq::<char>::empty(),
            *e.out_v_id == GremlinValue::UnspecifiedNullObject,
            e.out_v_label@ == Seq::<char>::empty(),
            e.parent is None,
            e.properties is None,
    {
        Edge {
            id: Box::new(GremlinValue::UnspecifiedNullObject),
            label: label.to_string(),
            in_v_id: Box::new(GremlinValue::UnspecifiedNullObject),
            in_v_label: String::new(),
            out_v_id: Box::new(GremlinValue::UnspecifiedNullObject),
            out_v_label: String::new(),
            parent: None,
            properties: None,
        }
    }

    /// Sets the id and label of the vertex the edge goes out of.
    pub fn out_v(&mut self, id: GremlinValue, out_label: &str)
        ensures
            *final(self).out_v_id == id,
            final(self).out_v_label@ == out_label@,
            *final(self).id == *old(self).id,
            final(self).label == old(self).label,
            final(self).in_v_id == old(self).in_v_id,
            final(self).in_v_label == old(self).in_v_label,
            final(self).parent == old(self).parent,
            final(self).properties == old(self).properties,
    {
        self.out_v_id = Box::new(id);
        self.out_v_label = out_label.to_string();
    }

    /// Takes the id and label of the vertex the edge goes out of from that vertex.
    pub fn out_vertex(&mut self, v: Vertex)
        ensures
            final(self).out_v_id == v.id,
            final(self).out_v_label == v.label,
            *final(self).id == *old(self).id,
            final(self).label == old(self).label,
            final(self).in_v_id == old(self).in_v_id,
            final(self).in_v_label == old(self).in_v_label,
            final(self).parent == old(self).parent,
            final(self).properties == old(self).properties,
    {
        self.out_v_id = v.id;
        self.out_v_label = v.label;
    }

    /// Sets the id and label of the vertex the edge goes in to.
    pub fn in_v(&mut self, id: GremlinValue, in_label: &str)
        ensures
            *final(self).in_v_id == id,
            final(self).in_v_label@ == in_label@,
            *final(self).id == *old(self).id,
            final(self).label == old(self).label,
            final(self).out_v_id == old(self).out_v_id,
            final(self).out_v_label == old(self).out_v_label,
            final(self).parent == old(self).parent,
            final(self).properties == old(self).properties,
    {
        self.in_v_id = Box::new(id);
        self.in_v_label = in_label.to_string();
    }

    /// Takes the id and label of the vertex the edge goes in to from that vertex.
    pub fn in_vertex(&mut self, v: Vertex)
        ensures
            final(self).in_v_id == v.id,
            final(self).in_v_label == v.label,
            *final(self).id == *old(self).id,
            final(self).label == old(self).label,
            final(self).out_v_id == old(self).out_v_id,
            final(self).out_v_label == old(self).out_v_label,
            final(self).parent == old(self).parent,
            final(self).properties == old(self).properties,
    {
        self.in_v_id = v.id;
        self.in_v_label = v.label;
    }
}

} // verus!
