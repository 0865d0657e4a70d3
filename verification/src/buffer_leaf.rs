use vstd::prelude::*;
use crate::binary::be_i32;
use crate::codec::Parsed;
use crate::core_type::CoreType;
use crate::structure::parse_byte_buffer;
use crate::value::{parse_leaf, GValue};

verus! {

/// A byte buffer's partial form, read as a value that holds no other value, is a byte
/// buffer value.
pub proof fn lemma_byte_buffer_leaf(x: Seq<u8>, rest: Seq<u8>)
    requires
        x.len() <= i32::MAX,
        parse_byte_buffer(be_i32(x.len() as i32) + x + rest) == Parsed::Done(x, 4 + x.len() as int),
    ensures
        parse_leaf(CoreType::ByteBuffer, be_i32(x.len() as i32) + x + rest) == Parsed::Done(
            GValue::ByteBuffer(x),
            4 + x.len() as int,
        ),
{
    reveal(parse_leaf);
}

} // verus!
