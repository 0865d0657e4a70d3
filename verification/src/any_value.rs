//! Reading a GraphBinary value of any type at the top level: a value of the general model, or
//! a graph, a bytecode, metrics, traversal metrics or a traversal strategy.

use vstd::prelude::*;
use crate::codec::{Decode, Parsed};
use crate::error::DecodeError;
use crate::graph::{parse_graph, Graph, GraphEdgeView};
use crate::metrics::{
    parse_metrics, parse_strategy, parse_traversal_metrics, Metrics, MetricsView, TraversalMetrics,
    TraversalStrategy,
};
use crate::traversal::{parse_bytecode, Bytecode};
use crate::value::{decode, parse_value, read_as, GValue, GremlinValue, value_view};

verus! {

/// A value read at the top level.
#[derive(Debug, PartialEq)]
pub enum AnyValue {
    Value(GremlinValue),
    Graph(Graph),
    Bytecode(Bytecode),
    Metrics(Metrics),
    TraversalMetrics(TraversalMetrics),
    TraversalStrategy(TraversalStrategy),
}

/// What a value read at the top level stands for.
pub enum AnyView {
    Value(GValue),
    Graph((Seq<GValue>, Seq<GraphEdgeView>)),
    Bytecode((Seq<(Seq<char>, Seq<GValue>)>, Seq<(Seq<char>, Seq<GValue>)>)),
    Metrics(MetricsView),
    TraversalMetrics((i64, Seq<MetricsView>)),
    TraversalStrategy((Seq<char>, Seq<(Seq<char>, GValue)>)),
}

/// The model of a value read at the top level.
pub open spec fn any_view(a: AnyValue) -> AnyView {
    match a {
        AnyValue::Value(v) => AnyView::Value(value_view(v)),
        AnyValue::Graph(g) => AnyView::Graph(g.deep_view()),
        AnyValue::Bytecode(b) => AnyView::Bytecode(b.deep_view()),
        AnyValue::Metrics(m) => AnyView::Metrics(m.deep_view()),
        AnyValue::TraversalMetrics(m) => AnyView::TraversalMetrics(m.deep_view()),
        AnyValue::TraversalStrategy(s) => AnyView::TraversalStrategy(s.deep_view()),
    }
}

/// An outcome with its value put into the top-level model by `f`.
pub open spec fn map_parsed<V>(p: Parsed<V>, f: spec_fn(V) -> AnyView) -> Parsed<AnyView> {
    match p {
        Parsed::Done(v, n) => Parsed::Done(f(v), n),
        Parsed::Fail(e) => Parsed::Fail(e),
        Parsed::Abort => Parsed::Abort,
    }
}

/// Reads a value at the top level: a set graph (0x10), bytecode (0x15), traversal strategy
/// (0x29), metrics (0x2c) or traversal metrics (0x2d) is read by its own reader; anything
/// else, nulls of those types among it, as a value of the general model.
#[verifier::opaque]
pub open spec fn parse_any(s: Seq<u8>) -> Parsed<AnyView> {
    if s.len() >= 2 && s[1] == 0x00u8 && s[0] == 0x10u8 {
        map_parsed(parse_graph(s), |v| AnyView::Graph(v))
    } else if s.len() >= 2 && s[1] == 0x00u8 && s[0] == 0x15u8 {
        map_parsed(parse_bytecode(s), |v| AnyView::Bytecode(v))
    } else if s.len() >= 2 && s[1] == 0x00u8 && s[0] == 0x29u8 {
        map_parsed(parse_strategy(s), |v| AnyView::TraversalStrategy(v))
    } else if s.len() >= 2 && s[1] == 0x00u8 && s[0] == 0x2cu8 {
        map_parsed(parse_metrics(s), |v| AnyView::Metrics(v))
    } else if s.len() >= 2 && s[1] == 0x00u8 && s[0] == 0x2du8 {
        map_parsed(parse_traversal_metrics(s), |v| AnyView::TraversalMetrics(v))
    } else {
        map_parsed(parse_value(s), |v| AnyView::Value(v))
    }
}

/// Reads a fully qualified graph at `pos`, as a value of any type.
fn decode_any_graph(buf: &[u8], pos: usize) -> (r: Result<(AnyValue, usize), DecodeError>)
    requires
        pos <= buf@.len(),
        !(parse_graph(buf@.skip(pos as int)) is Abort),
    ensures
        read_as(
            map_parsed(parse_graph(buf@.skip(pos as int)), |v| AnyView::Graph(v)),
            r,
            pos as int,
            buf@.len() as int,
            |a: AnyValue| any_view(a),
        ),
{
    match Graph::decode(buf, pos) {
        Ok((x, q)) => Ok((AnyValue::Graph(x), q)),
        Err(e) => Err(e),
    }
}

/// Reads a fully qualified bytecode at `pos`, as a value of any type.
fn decode_any_bytecode(buf: &[u8], pos: usize) -> (r: Result<(AnyValue, usize), DecodeError>)
    requires
        pos <= buf@.len(),
        !(parse_bytecode(buf@.skip(pos as int)) is Abort),
    ensures
        read_as(
            map_parsed(parse_bytecode(buf@.skip(pos as int)), |v| AnyView::Bytecode(v)),
            r,
            pos as int,
            buf@.len() as int,
            |a: AnyValue| any_view(a),
        ),
{
    match Bytecode::decode(buf, pos) {
        Ok((x, q)) => Ok((AnyValue::Bytecode(x), q)),
        Err(e) => Err(e),
    }
}

/// Reads a fully qualified strategy at `pos`, as a value of any type.
fn decode_any_strategy(buf: &[u8], pos: usize) -> (r: Result<(AnyValue, usize), DecodeError>)
    requires
        pos <= buf@.len(),
        !(parse_strategy(buf@.skip(pos as int)) is Abort),
    ensures
        read_as(
            map_parsed(parse_strategy(buf@.skip(pos as int)), |v| AnyView::TraversalStrategy(v)),
            r,
            pos as int,
            buf@.len() as int,
            |a: AnyValue| any_view(a),
        ),
{
    match TraversalStrategy::decode(buf, pos) {
        Ok((x, q)) => Ok((AnyValue::TraversalStrategy(x), q)),
        Err(e) => Err(e),
    }
}

/// Reads a fully qualified metrics at `pos`, as a value of any type.
fn decode_any_metrics(buf: &[u8], pos: usize) -> (r: Result<(AnyValue, usize), DecodeError>)
    requires
        pos <= buf@.len(),
        !(parse_metrics(buf@.skip(pos as int)) is Abort),
    ensures
        read_as(
            map_parsed(parse_metrics(buf@.skip(pos as int)), |v| AnyView::Metrics(v)),
            r,
            pos as int,
            buf@.len() as int,
            |a: AnyValue| any_view(a),
        ),
{
    match Metrics::decode(buf, pos) {
        Ok((x, q)) => Ok((AnyValue::Metrics(x), q)),
        Err(e) => Err(e),
    }
}

/// Reads a fully qualified traversal metrics at `pos`, as a value of any type.
fn decode_any_traversal_metrics(buf: &[u8], pos: usize) -> (r: Result<(AnyValue, usize), DecodeError>)
    requires
        pos <= buf@.len(),
        !(parse_traversal_metrics(buf@.skip(pos as int)) is Abort),
    ensures
        read_as(
            map_parsed(parse_traversal_metrics(buf@.skip(pos as int)), |v| AnyView::TraversalMetrics(v)),
            r,
            pos as int,
            buf@.len() as int,
            |a: AnyValue| any_view(a),
        ),
{
    match TraversalMetrics::decode(buf, pos) {
        Ok((x, q)) => Ok((AnyValue::TraversalMetrics(x), q)),
        Err(e) => Err(e),
    }
}

/// Reads a value of the general model at `pos`, as a value of any type.
fn decode_any_value(buf: &[u8], pos: usize) -> (r: Result<(AnyValue, usize), DecodeError>)
    requires
        pos <= buf@.len(),
        !(parse_value(buf@.skip(pos as int)) is Abort),
    ensures
        read_as(
            map_parsed(parse_value(buf@.skip(pos as int)), |v| AnyView::Value(v)),
            r,
            pos as int,
            buf@.len() as int,
            |a: AnyValue| any_view(a),
        ),
{
    match decode(buf, pos) {
        Ok((v, q)) => Ok((AnyValue::Value(v), q)),
        Err(e) => Err(e),
    }
}

/// Reads a value of any type at `pos` (see `parse_any`); returns it and the position after
/// it.
pub fn decode_any(buf: &[u8], pos: usize) -> (r: Result<(AnyValue, usize), DecodeError>)
    requires
        pos <= buf@.len(),
        !(parse_any(buf@.skip(pos as int)) is Abort),
    ensures
        read_as(parse_any(buf@.skip(pos as int)), r, pos as int, buf@.len() as int, |a: AnyValue| any_view(a)),
{
    let ghost s = buf@.skip(pos as int);
    proof {
        reveal(parse_any);
    }
    let code: u8 = if buf.len() - pos >= 2 && buf[pos + 1] == 0x00u8 {
        buf[pos]
    } else {
        0xffu8
    };
    if code == 0x10u8 {
        decode_any_graph(buf, pos)
    } else if code == 0x15u8 {
        decode_any_bytecode(buf, pos)
    } else if code == 0x29u8 {
        decode_any_strategy(buf, pos)
    } else if code == 0x2cu8 {
        decode_any_metrics(buf, pos)
    } else if code == 0x2du8 {
        decode_any_traversal_metrics(buf, pos)
    } else {
        decode_any_value(buf, pos)
    }
}

} // verus!
