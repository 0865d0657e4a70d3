//! Values of Apache TinkerPop's Gremlin type system and their GraphBinary form.
//!
//! Every encoder appends the bytes of a value to a `Vec<u8>` and states those bytes
//! as a spec function; every decoder reads a value from a byte slice at a position and
//! states its outcome as a spec parser over the remaining bytes.

pub mod error;
pub mod core_type;
pub mod codec;
pub mod binary;
pub mod primitives;
pub mod collections;
pub mod nullable;
pub mod enums;
pub mod structure;
pub mod extended;
pub mod value;
pub mod access;
pub mod predicate;
pub mod element;
pub mod path_labels;
pub mod traversal;
pub mod metrics;
pub mod traverser;
pub mod id;
pub mod custom;
pub mod inet;
pub mod bignum;
pub mod graph;
pub mod duration;
pub mod duration_text;
pub mod period_text;
pub mod calendar_text;
pub mod structure_text;
pub mod binding;
pub mod key_text;
pub mod entry_map;
mod buffer_leaf;
pub mod leaf_laws;
pub mod roundtrip;
pub mod any_value;
pub mod json;
pub mod graphson;
pub mod graphson_read;
pub mod graphson_laws;
pub mod access_laws;
pub mod enum_laws;
pub mod layout_laws;
pub mod vertex_laws;
pub mod graphson_names;

