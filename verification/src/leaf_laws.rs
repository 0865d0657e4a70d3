use vstd::prelude::*;
use crate::binary::{
    be_i16, be_i32, be_i64, be_u128, be_u32, be_u64, lemma_parse_i16_prefix,
    lemma_parse_i32_prefix, lemma_parse_i64_prefix, lemma_u128_bytes, lemma_u32_bytes,
    lemma_u64_bytes, u128_of, u64_of,
};
use crate::codec::{fq_bytes, parse_fq, Codec, Decode, Encode, Parsed, PartialDecode, PartialEncode};
use crate::core_type::{lemma_code_from_code, CoreType};
use crate::enums::{
    Barrier, Cardinality, Column, Direction, Merge, Operator, Order, Pick, Pop, Scope, T,
};
use crate::primitives::{
    bool_byte, lemma_char_roundtrip, lemma_string_roundtrip, string_partial_bytes, string_wf,
};
use crate::structure::{lambda_partial_bytes, parse_byte_buffer, parse_lambda, LambdaView};
use crate::buffer_leaf::lemma_byte_buffer_leaf;
use crate::value::{parse_leaf, parse_partial_value, parse_value, value_bytes, GValue};
use vstd::utf8::encode_scalar;

verus! {

/// A value that holds no other value and whose texts and bytes fit the 32-bit length
/// prefixes.
pub open spec fn leaf_wf(g: GValue) -> bool {
    match g {
        GValue::Str(cs) => string_wf(cs),
        GValue::Class(cs) => string_wf(cs),
        GValue::Lambda(l) => string_wf(l.language) && string_wf(l.script),
        GValue::ByteBuffer(bs) => bs.len() <= i32::MAX,
        GValue::Date(_) => false,
        GValue::Timestamp(_) => false,
        GValue::BulkSet(_) => false,
        GValue::List(_) => false,
        GValue::SetValue(_) => false,
        GValue::MapValue(_) => false,
        GValue::Binding(_, _) => false,
        GValue::Traverser(_, _) => false,
        GValue::Edge { .. } => false,
        GValue::Path { .. } => false,
        GValue::Property { .. } => false,
        GValue::Vertex { .. } => false,
        GValue::VertexProperty { .. } => false,
        _ => true,
    }
}

/// A type code and the set flag in front of a partial form that reads back as `g`.
pub proof fn lemma_fq_step(code: u8, ct: CoreType, p: Seq<u8>, rest: Seq<u8>, g: GValue)
    requires
        code == ct.spec_code(),
        parse_partial_value(ct, p + rest) == Parsed::Done(g, p.len() as int),
    ensures
        parse_value(fq_bytes(code, p) + rest) == Parsed::Done(g, fq_bytes(code, p).len() as int),
{
    lemma_code_from_code(ct);
    let s = fq_bytes(code, p) + rest;
    assert(s.skip(2) =~= p + rest);
    assert(s[0] == code && s[1] == 0x00u8);
}

/// The partial form of a value of a type with a round trip reads back as the value.
proof fn lemma_partial_roundtrip<X: Codec + PartialEncode + PartialDecode>(x: X, rest: Seq<u8>)
    requires
        x.spec_wf(),
        x.spec_bytes() == fq_bytes(X::spec_type_code(), x.spec_partial_bytes()),
        X::spec_parse(x.spec_bytes() + rest) == parse_fq::<X>(x.spec_bytes() + rest),
        X::spec_type_code() == X::spec_expected_type_code(),
    ensures
        X::spec_parse_partial(x.spec_partial_bytes() + rest) == Parsed::Done(
            x.deep_view(),
            x.spec_partial_bytes().len() as int,
        ),
{
    x.lemma_roundtrip(rest);
    let s = x.spec_bytes() + rest;
    assert(s.skip(2) =~= x.spec_partial_bytes() + rest);
}

/// The partial form of a lambda reads back as the lambda.
proof fn lemma_lambda_partial(l: LambdaView, rest: Seq<u8>)
    requires
        string_wf(l.language),
        string_wf(l.script),
    ensures
        parse_lambda(lambda_partial_bytes(l) + rest) == Parsed::Done(
            l,
            lambda_partial_bytes(l).len() as int,
        ),
{
    let a = string_partial_bytes(l.language);
    let b = string_partial_bytes(l.script);
    let c = be_i32(l.arguments_length);
    let s = lambda_partial_bytes(l) + rest;
    assert(s =~= a + (b + c + rest));
    lemma_string_roundtrip(l.language, b + c + rest);
    assert(s.skip(a.len() as int) =~= b + (c + rest));
    lemma_string_roundtrip(l.script, c + rest);
    assert(s.skip((a.len() + b.len()) as int) =~= c + rest);
    lemma_parse_i32_prefix(l.arguments_length, rest);
}

/// The partial form of a byte buffer reads back as its bytes.
proof fn lemma_byte_buffer_partial(bs: Seq<u8>, rest: Seq<u8>)
    requires
        bs.len() <= i32::MAX,
    ensures
        parse_byte_buffer(be_i32(bs.len() as i32) + bs + rest) == Parsed::Done(
            bs,
            4 + bs.len() as int,
        ),
{
    reveal(parse_byte_buffer);
    let s = be_i32(bs.len() as i32) + bs + rest;
    assert(s =~= be_i32(bs.len() as i32) + (bs + rest));
    lemma_parse_i32_prefix(bs.len() as i32, bs + rest);
    assert(s.subrange(4, 4 + bs.len() as int) =~= bs);
}

/// A type code and the set flag in front of the partial form of a value that holds no other
/// value.
proof fn lemma_leaf_step(code: u8, ct: CoreType, p: Seq<u8>, rest: Seq<u8>, g: GValue)
    requires
        code == ct.spec_code(),
        !(ct is List || ct is SetType || ct is MapType || ct is Binding || ct is Traverser
            || ct is BulkSet || ct is Edge || ct is Property || ct is Vertex
            || ct is VertexProperty || ct is Path),
        parse_leaf(ct, p + rest) == Parsed::Done(g, p.len() as int),
    ensures
        parse_value(fq_bytes(code, p) + rest) == Parsed::Done(g, fq_bytes(code, p).len() as int),
{
    assert(parse_partial_value(ct, p + rest) == parse_leaf(ct, p + rest));
    lemma_fq_step(code, ct, p, rest, g);
}

/// The round trip of the values that hold no other value.
pub proof fn lemma_leaf_roundtrip(g: GValue, rest: Seq<u8>)
    requires
        leaf_wf(g),
    ensures
        parse_value(value_bytes(g) + rest) == Parsed::Done(g, value_bytes(g).len() as int),
{
    match g {
        GValue::Int(x) => lemma_roundtrip_int(x, rest),
        GValue::Long(x) => lemma_roundtrip_long(x, rest),
        GValue::Str(x) => lemma_roundtrip_str(x, rest),
        GValue::Class(x) => lemma_roundtrip_class(x, rest),
        GValue::Double(x) => lemma_roundtrip_double(x, rest),
        GValue::Float(x) => lemma_roundtrip_float(x, rest),
        GValue::Uuid(x) => lemma_roundtrip_uuid(x, rest),
        GValue::Barrier(x) => lemma_roundtrip_barrier(x, rest),
        GValue::Cardinality(x) => lemma_roundtrip_cardinality(x, rest),
        GValue::Column(x) => lemma_roundtrip_column(x, rest),
        GValue::Direction(x) => lemma_roundtrip_direction(x, rest),
        GValue::Operator(x) => lemma_roundtrip_operator(x, rest),
        GValue::Order(x) => lemma_roundtrip_order(x, rest),
        GValue::Pick(x) => lemma_roundtrip_pick(x, rest),
        GValue::Pop(x) => lemma_roundtrip_pop(x, rest),
        GValue::Scope(x) => lemma_roundtrip_scope(x, rest),
        GValue::T(x) => lemma_roundtrip_t(x, rest),
        GValue::Merge(x) => lemma_roundtrip_merge(x, rest),
        GValue::Lambda(x) => lemma_roundtrip_lambda(x, rest),
        GValue::ByteBuffer(x) => lemma_roundtrip_byte_buffer(x, rest),
        GValue::Byte(x) => lemma_roundtrip_byte(x, rest),
        GValue::Short(x) => lemma_roundtrip_short(x, rest),
        GValue::Boolean(x) => lemma_roundtrip_boolean(x, rest),
        GValue::Char(x) => lemma_roundtrip_char(x, rest),
        GValue::Null => {
            assert(value_bytes(g) == seq![0xfeu8, 0x01u8]) by {
                reveal_with_fuel(value_bytes, 1);
            }
            lemma_code_from_code(CoreType::UnspecifiedNullObject);
            let s = value_bytes(g) + rest;
            assert(s[0] == 0xfeu8 && s[1] == 0x01u8);
        },
        _ => {},
    }
}

proof fn lemma_roundtrip_int(x: i32, rest: Seq<u8>)
    ensures
        parse_value(value_bytes(GValue::Int(x)) + rest) == Parsed::Done(
            GValue::Int(x),
            value_bytes(GValue::Int(x)).len() as int,
        ),
{
    assert(parse_leaf(CoreType::Int32, be_i32(x) + rest) == Parsed::Done(GValue::Int(x), (be_i32(x)).len() as int)) by {
        reveal(parse_leaf);
        lemma_parse_i32_prefix(x, rest);
    }
    assert(value_bytes(GValue::Int(x)) == fq_bytes(0x01u8, be_i32(x))) by {
        reveal_with_fuel(value_bytes, 1);
    }
    lemma_leaf_step(0x01u8, CoreType::Int32, be_i32(x), rest, GValue::Int(x));
}

proof fn lemma_roundtrip_long(x: i64, rest: Seq<u8>)
    ensures
        parse_value(value_bytes(GValue::Long(x)) + rest) == Parsed::Done(
            GValue::Long(x),
            value_bytes(GValue::Long(x)).len() as int,
        ),
{
    assert(parse_leaf(CoreType::Long, be_i64(x) + rest) == Parsed::Done(GValue::Long(x), (be_i64(x)).len() as int)) by {
        reveal(parse_leaf);
        lemma_parse_i64_prefix(x, rest);
    }
    assert(value_bytes(GValue::Long(x)) == fq_bytes(0x02u8, be_i64(x))) by {
        reveal_with_fuel(value_bytes, 1);
    }
    lemma_leaf_step(0x02u8, CoreType::Long, be_i64(x), rest, GValue::Long(x));
}

proof fn lemma_roundtrip_str(x: Seq<char>, rest: Seq<u8>)
    requires
        string_wf(x),
    ensures
        parse_value(value_bytes(GValue::Str(x)) + rest) == Parsed::Done(
            GValue::Str(x),
            value_bytes(GValue::Str(x)).len() as int,
        ),
{
    assert(parse_leaf(CoreType::String, string_partial_bytes(x) + rest) == Parsed::Done(GValue::Str(x), (string_partial_bytes(x)).len() as int)) by {
        reveal(parse_leaf);
        lemma_string_roundtrip(x, rest);
    }
    assert(value_bytes(GValue::Str(x)) == fq_bytes(0x03u8, string_partial_bytes(x))) by {
        reveal_with_fuel(value_bytes, 1);
    }
    lemma_leaf_step(0x03u8, CoreType::String, string_partial_bytes(x), rest, GValue::Str(x));
}

proof fn lemma_roundtrip_class(x: Seq<char>, rest: Seq<u8>)
    requires
        string_wf(x),
    ensures
        parse_value(value_bytes(GValue::Class(x)) + rest) == Parsed::Done(
            GValue::Class(x),
            value_bytes(GValue::Class(x)).len() as int,
        ),
{
    assert(parse_leaf(CoreType::Class, string_partial_bytes(x) + rest) == Parsed::Done(GValue::Class(x), (string_partial_bytes(x)).len() as int)) by {
        reveal(parse_leaf);
        lemma_string_roundtrip(x, rest);
    }
    assert(value_bytes(GValue::Class(x)) == fq_bytes(0x06u8, string_partial_bytes(x))) by {
        reveal_with_fuel(value_bytes, 1);
    }
    lemma_leaf_step(0x06u8, CoreType::Class, string_partial_bytes(x), rest, GValue::Class(x));
}

proof fn lemma_roundtrip_double(x: u64, rest: Seq<u8>)
    ensures
        parse_value(value_bytes(GValue::Double(x)) + rest) == Parsed::Done(
            GValue::Double(x),
            value_bytes(GValue::Double(x)).len() as int,
        ),
{
    assert(parse_leaf(CoreType::Double, be_u64(x) + rest) == Parsed::Done(GValue::Double(x), (be_u64(x)).len() as int)) by {
        reveal(parse_leaf);
        lemma_u64_bytes(x);
        assert(u64_of(be_u64(x) + rest) == u64_of(be_u64(x)));
    }
    assert(value_bytes(GValue::Double(x)) == fq_bytes(0x07u8, be_u64(x))) by {
        reveal_with_fuel(value_bytes, 1);
    }
    lemma_leaf_step(0x07u8, CoreType::Double, be_u64(x), rest, GValue::Double(x));
}

proof fn lemma_roundtrip_float(x: u32, rest: Seq<u8>)
    ensures
        parse_value(value_bytes(GValue::Float(x)) + rest) == Parsed::Done(
            GValue::Float(x),
            value_bytes(GValue::Float(x)).len() as int,
        ),
{
    assert(parse_leaf(CoreType::Float, be_u32(x) + rest) == Parsed::Done(GValue::Float(x), (be_u32(x)).len() as int)) by {
        reveal(parse_leaf);
        lemma_u32_bytes(x);
    }
    assert(value_bytes(GValue::Float(x)) == fq_bytes(0x08u8, be_u32(x))) by {
        reveal_with_fuel(value_bytes, 1);
    }
    lemma_leaf_step(0x08u8, CoreType::Float, be_u32(x), rest, GValue::Float(x));
}

proof fn lemma_roundtrip_uuid(x: u128, rest: Seq<u8>)
    ensures
        parse_value(value_bytes(GValue::Uuid(x)) + rest) == Parsed::Done(
            GValue::Uuid(x),
            value_bytes(GValue::Uuid(x)).len() as int,
        ),
{
    assert(parse_leaf(CoreType::Uuid, be_u128(x) + rest) == Parsed::Done(GValue::Uuid(x), (be_u128(x)).len() as int)) by {
        reveal(parse_leaf);
        lemma_u128_bytes(x);
        assert(u128_of(be_u128(x) + rest) == u128_of(be_u128(x)));
    }
    assert(value_bytes(GValue::Uuid(x)) == fq_bytes(0x0cu8, be_u128(x))) by {
        reveal_with_fuel(value_bytes, 1);
    }
    lemma_leaf_step(0x0cu8, CoreType::Uuid, be_u128(x), rest, GValue::Uuid(x));
}

proof fn lemma_roundtrip_barrier(x: Barrier, rest: Seq<u8>)
    ensures
        parse_value(value_bytes(GValue::Barrier(x)) + rest) == Parsed::Done(
            GValue::Barrier(x),
            value_bytes(GValue::Barrier(x)).len() as int,
        ),
{
    assert(parse_leaf(CoreType::Barrier, x.spec_partial_bytes() + rest) == Parsed::Done(GValue::Barrier(x), (x.spec_partial_bytes()).len() as int)) by {
        reveal(parse_leaf);
        lemma_partial_roundtrip(x, rest);
    }
    assert(value_bytes(GValue::Barrier(x)) == fq_bytes(0x13u8, x.spec_partial_bytes())) by {
        reveal_with_fuel(value_bytes, 1);
    }
    lemma_leaf_step(0x13u8, CoreType::Barrier, x.spec_partial_bytes(), rest, GValue::Barrier(x));
}

proof fn lemma_roundtrip_cardinality(x: Cardinality, rest: Seq<u8>)
    ensures
        parse_value(value_bytes(GValue::Cardinality(x)) + rest) == Parsed::Done(
            GValue::Cardinality(x),
            value_bytes(GValue::Cardinality(x)).len() as int,
        ),
{
    assert(parse_leaf(CoreType::Cardinality, x.spec_partial_bytes() + rest) == Parsed::Done(GValue::Cardinality(x), (x.spec_partial_bytes()).len() as int)) by {
        reveal(parse_leaf);
        lemma_partial_roundtrip(x, rest);
    }
    assert(value_bytes(GValue::Cardinality(x)) == fq_bytes(0x16u8, x.spec_partial_bytes())) by {
        reveal_with_fuel(value_bytes, 1);
    }
    lemma_leaf_step(0x16u8, CoreType::Cardinality, x.spec_partial_bytes(), rest, GValue::Cardinality(x));
}

proof fn lemma_roundtrip_column(x: Column, rest: Seq<u8>)
    ensures
        parse_value(value_bytes(GValue::Column(x)) + rest) == Parsed::Done(
            GValue::Column(x),
            value_bytes(GValue::Column(x)).len() as int,
        ),
{
    assert(parse_leaf(CoreType::Column, x.spec_partial_bytes() + rest) == Parsed::Done(GValue::Column(x), (x.spec_partial_bytes()).len() as int)) by {
        reveal(parse_leaf);
        lemma_partial_roundtrip(x, rest);
    }
    assert(value_bytes(GValue::Column(x)) == fq_bytes(0x17u8, x.spec_partial_bytes())) by {
        reveal_with_fuel(value_bytes, 1);
    }
    lemma_leaf_step(0x17u8, CoreType::Column, x.spec_partial_bytes(), rest, GValue::Column(x));
}

proof fn lemma_roundtrip_direction(x: Direction, rest: Seq<u8>)
    ensures
        parse_value(value_bytes(GValue::Direction(x)) + rest) == Parsed::Done(
            GValue::Direction(x),
            value_bytes(GValue::Direction(x)).len() as int,
        ),
{
    assert(parse_leaf(CoreType::Direction, x.spec_partial_bytes() + rest) == Parsed::Done(GValue::Direction(x), (x.spec_partial_bytes()).len() as int)) by {
        reveal(parse_leaf);
        lemma_partial_roundtrip(x, rest);
    }
    assert(value_bytes(GValue::Direction(x)) == fq_bytes(0x18u8, x.spec_partial_bytes())) by {
        reveal_with_fuel(value_bytes, 1);
    }
    lemma_leaf_step(0x18u8, CoreType::Direction, x.spec_partial_bytes(), rest, GValue::Direction(x));
}

proof fn lemma_roundtrip_operator(x: Operator, rest: Seq<u8>)
    ensures
        parse_value(value_bytes(GValue::Operator(x)) + rest) == Parsed::Done(
            GValue::Operator(x),
            value_bytes(GValue::Operator(x)).len() as int,
        ),
{
    assert(parse_leaf(CoreType::Operator, x.spec_partial_bytes() + rest) == Parsed::Done(GValue::Operator(x), (x.spec_partial_bytes()).len() as int)) by {
        reveal(parse_leaf);
        lemma_partial_roundtrip(x, rest);
    }
    assert(value_bytes(GValue::Operator(x)) == fq_bytes(0x19u8, x.spec_partial_bytes())) by {
        reveal_with_fuel(value_bytes, 1);
    }
    lemma_leaf_step(0x19u8, CoreType::Operator, x.spec_partial_bytes(), rest, GValue::Operator(x));
}

proof fn lemma_roundtrip_order(x: Order, rest: Seq<u8>)
    ensures
        parse_value(value_bytes(GValue::Order(x)) + rest) == Parsed::Done(
            GValue::Order(x),
            value_bytes(GValue::Order(x)).len() as int,
        ),
{
    assert(parse_leaf(CoreType::Order, x.spec_partial_bytes() + rest) == Parsed::Done(GValue::Order(x), (x.spec_partial_bytes()).len() as int)) by {
        reveal(parse_leaf);
        lemma_partial_roundtrip(x, rest);
    }
    assert(value_bytes(GValue::Order(x)) == fq_bytes(0x1au8, x.spec_partial_bytes())) by {
        reveal_with_fuel(value_bytes, 1);
    }
    lemma_leaf_step(0x1au8, CoreType::Order, x.spec_partial_bytes(), rest, GValue::Order(x));
}

proof fn lemma_roundtrip_pick(x: Pick, rest: Seq<u8>)
    ensures
        parse_value(value_bytes(GValue::Pick(x)) + rest) == Parsed::Done(
            GValue::Pick(x),
            value_bytes(GValue::Pick(x)).len() as int,
        ),
{
    assert(parse_leaf(CoreType::Pick, x.spec_partial_bytes() + rest) == Parsed::Done(GValue::Pick(x), (x.spec_partial_bytes()).len() as int)) by {
        reveal(parse_leaf);
        lemma_partial_roundtrip(x, rest);
    }
    assert(value_bytes(GValue::Pick(x)) == fq_bytes(0x1bu8, x.spec_partial_bytes())) by {
        reveal_with_fuel(value_bytes, 1);
    }
    lemma_leaf_step(0x1bu8, CoreType::Pick, x.spec_partial_bytes(), rest, GValue::Pick(x));
}

proof fn lemma_roundtrip_pop(x: Pop, rest: Seq<u8>)
    ensures
        parse_value(value_bytes(GValue::Pop(x)) + rest) == Parsed::Done(
            GValue::Pop(x),
            value_bytes(GValue::Pop(x)).len() as int,
        ),
{
    assert(parse_leaf(CoreType::Pop, x.spec_partial_bytes() + rest) == Parsed::Done(GValue::Pop(x), (x.spec_partial_bytes()).len() as int)) by {
        reveal(parse_leaf);
        lemma_partial_roundtrip(x, rest);
    }
    assert(value_bytes(GValue::Pop(x)) == fq_bytes(0x1cu8, x.spec_partial_bytes())) by {
        reveal_with_fuel(value_bytes, 1);
    }
    lemma_leaf_step(0x1cu8, CoreType::Pop, x.spec_partial_bytes(), rest, GValue::Pop(x));
}

proof fn lemma_roundtrip_scope(x: Scope, rest: Seq<u8>)
    ensures
        parse_value(value_bytes(GValue::Scope(x)) + rest) == Parsed::Done(
            GValue::Scope(x),
            value_bytes(GValue::Scope(x)).len() as int,
        ),
{
    assert(parse_leaf(CoreType::Scope, x.spec_partial_bytes() + rest) == Parsed::Done(GValue::Scope(x), (x.spec_partial_bytes()).len() as int)) by {
        reveal(parse_leaf);
        lemma_partial_roundtrip(x, rest);
    }
    assert(value_bytes(GValue::Scope(x)) == fq_bytes(0x1fu8, x.spec_partial_bytes())) by {
        reveal_with_fuel(value_bytes, 1);
    }
    lemma_leaf_step(0x1fu8, CoreType::Scope, x.spec_partial_bytes(), rest, GValue::Scope(x));
}

proof fn lemma_roundtrip_t(x: T, rest: Seq<u8>)
    ensures
        parse_value(value_bytes(GValue::T(x)) + rest) == Parsed::Done(
            GValue::T(x),
            value_bytes(GValue::T(x)).len() as int,
        ),
{
    assert(parse_leaf(CoreType::T, x.spec_partial_bytes() + rest) == Parsed::Done(GValue::T(x), (x.spec_partial_bytes()).len() as int)) by {
        reveal(parse_leaf);
        lemma_partial_roundtrip(x, rest);
    }
    assert(value_bytes(GValue::T(x)) == fq_bytes(0x20u8, x.spec_partial_bytes())) by {
        reveal_with_fuel(value_bytes, 1);
    }
    lemma_leaf_step(0x20u8, CoreType::T, x.spec_partial_bytes(), rest, GValue::T(x));
}

proof fn lemma_roundtrip_merge(x: Merge, rest: Seq<u8>)
    ensures
        parse_value(value_bytes(GValue::Merge(x)) + rest) == Parsed::Done(
            GValue::Merge(x),
            value_bytes(GValue::Merge(x)).len() as int,
        ),
{
    assert(parse_leaf(CoreType::Merge, x.spec_partial_bytes() + rest) == Parsed::Done(GValue::Merge(x), (x.spec_partial_bytes()).len() as int)) by {
        reveal(parse_leaf);
        lemma_partial_roundtrip(x, rest);
    }
    assert(value_bytes(GValue::Merge(x)) == fq_bytes(0x2eu8, x.spec_partial_bytes())) by {
        reveal_with_fuel(value_bytes, 1);
    }
    lemma_leaf_step(0x2eu8, CoreType::Merge, x.spec_partial_bytes(), rest, GValue::Merge(x));
}

proof fn lemma_roundtrip_lambda(x: LambdaView, rest: Seq<u8>)
    requires
        string_wf(x.language) && string_wf(x.script),
    ensures
        parse_value(value_bytes(GValue::Lambda(x)) + rest) == Parsed::Done(
            GValue::Lambda(x),
            value_bytes(GValue::Lambda(x)).len() as int,
        ),
{
    assert(parse_leaf(CoreType::Lambda, lambda_partial_bytes(x) + rest) == Parsed::Done(GValue::Lambda(x), (lambda_partial_bytes(x)).len() as int)) by {
        reveal(parse_leaf);
        lemma_lambda_partial(x, rest);
    }
    assert(value_bytes(GValue::Lambda(x)) == fq_bytes(0x1du8, lambda_partial_bytes(x))) by {
        reveal_with_fuel(value_bytes, 1);
    }
    lemma_leaf_step(0x1du8, CoreType::Lambda, lambda_partial_bytes(x), rest, GValue::Lambda(x));
}

#[verifier::spinoff_prover]
#[verifier::rlimit(100)]
proof fn lemma_roundtrip_byte_buffer(x: Seq<u8>, rest: Seq<u8>)
    requires
        x.len() <= i32::MAX,
    ensures
        parse_value(value_bytes(GValue::ByteBuffer(x)) + rest) == Parsed::Done(
            GValue::ByteBuffer(x),
            value_bytes(GValue::ByteBuffer(x)).len() as int,
        ),
{
    let p = be_i32(x.len() as i32) + x;
    lemma_byte_buffer_partial(x, rest);
    lemma_byte_buffer_leaf(x, rest);
    lemma_byte_buffer_bytes(x);
    lemma_leaf_step(0x25u8, CoreType::ByteBuffer, p, rest, GValue::ByteBuffer(x));
}

proof fn lemma_byte_buffer_bytes(x: Seq<u8>)
    requires
        x.len() <= i32::MAX,
    ensures
        value_bytes(GValue::ByteBuffer(x)) == fq_bytes(0x25u8, be_i32(x.len() as i32) + x),
{
    reveal_with_fuel(value_bytes, 1);
}

proof fn lemma_roundtrip_byte(x: u8, rest: Seq<u8>)
    ensures
        parse_value(value_bytes(GValue::Byte(x)) + rest) == Parsed::Done(
            GValue::Byte(x),
            value_bytes(GValue::Byte(x)).len() as int,
        ),
{
    assert(parse_leaf(CoreType::Byte, seq![x] + rest) == Parsed::Done(GValue::Byte(x), (seq![x]).len() as int)) by {
        reveal(parse_leaf);
    }
    assert(value_bytes(GValue::Byte(x)) == fq_bytes(0x24u8, seq![x])) by {
        reveal_with_fuel(value_bytes, 1);
    }
    lemma_leaf_step(0x24u8, CoreType::Byte, seq![x], rest, GValue::Byte(x));
}

proof fn lemma_roundtrip_short(x: i16, rest: Seq<u8>)
    ensures
        parse_value(value_bytes(GValue::Short(x)) + rest) == Parsed::Done(
            GValue::Short(x),
            value_bytes(GValue::Short(x)).len() as int,
        ),
{
    assert(parse_leaf(CoreType::Short, be_i16(x) + rest) == Parsed::Done(GValue::Short(x), (be_i16(x)).len() as int)) by {
        reveal(parse_leaf);
        lemma_parse_i16_prefix(x, rest);
    }
    assert(value_bytes(GValue::Short(x)) == fq_bytes(0x26u8, be_i16(x))) by {
        reveal_with_fuel(value_bytes, 1);
    }
    lemma_leaf_step(0x26u8, CoreType::Short, be_i16(x), rest, GValue::Short(x));
}

proof fn lemma_roundtrip_boolean(x: bool, rest: Seq<u8>)
    ensures
        parse_value(value_bytes(GValue::Boolean(x)) + rest) == Parsed::Done(
            GValue::Boolean(x),
            value_bytes(GValue::Boolean(x)).len() as int,
        ),
{
    assert(parse_leaf(CoreType::Boolean, seq![bool_byte(x)] + rest) == Parsed::Done(GValue::Boolean(x), (seq![bool_byte(x)]).len() as int)) by {
        reveal(parse_leaf);
    }
    assert(value_bytes(GValue::Boolean(x)) == fq_bytes(0x27u8, seq![bool_byte(x)])) by {
        reveal_with_fuel(value_bytes, 1);
    }
    lemma_leaf_step(0x27u8, CoreType::Boolean, seq![bool_byte(x)], rest, GValue::Boolean(x));
}

proof fn lemma_roundtrip_char(x: char, rest: Seq<u8>)
    ensures
        parse_value(value_bytes(GValue::Char(x)) + rest) == Parsed::Done(
            GValue::Char(x),
            value_bytes(GValue::Char(x)).len() as int,
        ),
{
    assert(parse_leaf(CoreType::Char, encode_scalar(x as u32) + rest) == Parsed::Done(GValue::Char(x), (encode_scalar(x as u32)).len() as int)) by {
        reveal(parse_leaf);
        lemma_char_roundtrip(x, rest);
    }
    assert(value_bytes(GValue::Char(x)) == fq_bytes(0x80u8, encode_scalar(x as u32))) by {
        reveal_with_fuel(value_bytes, 1);
    }
    lemma_leaf_step(0x80u8, CoreType::Char, encode_scalar(x as u32), rest, GValue::Char(x));
}

} // verus!
