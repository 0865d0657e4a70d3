//! What a client sends to run a traversal: its bytecode of steps and sources.

use vstd::prelude::*;
use crate::binary::{be_i32, decode_i32_at, lemma_parse_i32_prefix, parse_i32, push_i32};
use crate::codec::{fq_bytes, shift, Decode, Parsed, PartialDecode};
use crate::error::DecodeError;
use crate::primitives::{lemma_string_roundtrip, parse_string, partial_decode_string, partial_encode_str, string_partial_bytes, string_wf};
use crate::roundtrip::{lemma_list_partial, values_wf};
use crate::value::{all_encodable, clone_values, decode_value_list, encode_values, parse_value_list, read_as, values_bytes, values_view, GValue, GremlinValue};

verus! {

/// An instruction of a traversal: the name of a step or of a source, and its arguments.
#[derive(Debug, PartialEq)]
pub struct Instruction {
    pub name: String,
    pub values: Vec<GremlinValue>,
}

/// The bytecode of a traversal: its steps and its sources, in order.
#[derive(Debug, PartialEq)]
pub struct Bytecode {
    pub steps: Vec<Instruction>,
    pub sources: Vec<Instruction>,
}

impl Bytecode {
    /// Bytecode without steps or sources.
    pub fn new() -> (b: Bytecode)
        ensures
            b.steps@.len() == 0,
            b.sources@.len() == 0,
    {
        Bytecode { steps: Vec::new(), sources: Vec::new() }
    }

    /// Adds a step with the given name and arguments after the others.
    pub fn push_new_step(&mut self, name: &str, values: Vec<GremlinValue>)
        ensures
            final(self).steps@.len() == old(self).steps@.len() + 1,
            final(self).steps@.drop_last() == old(self).steps@,
            final(self).steps@.last().name@ == name@,
            final(self).steps@.last().values == values,
            final(self).sources == old(self).sources,
    {
        self.steps.push(Instruction { name: name.to_string(), values });
        proof {
            assert(self.steps@.drop_last() =~= old(self).steps@);
        }
    }

    /// Adds a source with the given name and arguments after the others.
    pub fn push_new_source(&mut self, name: &str, values: Vec<GremlinValue>)
        ensures
            final(self).sources@.len() == old(self).sources@.len() + 1,
            final(self).sources@.drop_last() == old(self).sources@,
            final(self).sources@.last().name@ == name@,
            final(self).sources@.last().values == values,
            final(self).steps == old(self).steps,
    {
        self.sources.push(Instruction { name: name.to_string(), values });
        proof {
            assert(self.sources@.drop_last() =~= old(self).sources@);
        }
    }

    /// Adds the values to the arguments of the last step.
    pub fn extend_last_step(&mut self, values: Vec<GremlinValue>)
        requires
            old(self).steps@.len() > 0,
        ensures
            final(self).steps@.len() == old(self).steps@.len(),
            final(self).steps@.drop_last() == old(self).steps@.drop_last(),
            final(self).steps@.last().name == old(self).steps@.last().name,
            final(self).steps@.last().values@ == old(self).steps@.last().values@ + values@,
            final(self).sources == old(self).sources,
    {
        let mut last = self.steps.pop().unwrap();
        let mut more = values;
        last.values.append(&mut more);
        self.steps.push(last);
        proof {
            assert(self.steps@.drop_last() =~= old(self).steps@.drop_last());
        }
    }

    /// Adds a value to the arguments of the last step.
    pub fn add_to_last_step(&mut self, value: GremlinValue)
        requires
            old(self).steps@.len() > 0,
        ensures
            final(self).steps@.len() == old(self).steps@.len(),
            final(self).steps@.drop_last() == old(self).steps@.drop_last(),
            final(self).steps@.last().name == old(self).steps@.last().name,
            final(self).steps@.last().values@ == old(self).steps@.last().values@.push(value),
            final(self).sources == old(self).sources,
    {
        let mut last = self.steps.pop().unwrap();
        last.values.push(value);
        self.steps.push(last);
        proof {
            assert(self.steps@.drop_last() =~= old(self).steps@.drop_last());
        }
    }

    /// Adds the values to the arguments of the last source.
    pub fn extend_last_source(&mut self, values: Vec<GremlinValue>)
        requires
            old(self).sources@.len() > 0,
        ensures
            final(self).sources@.len() == old(self).sources@.len(),
            final(self).sources@.drop_last() == old(self).sources@.drop_last(),
            final(self).sources@.last().name == old(self).sources@.last().name,
            final(self).sources@.last().values@ == old(self).sources@.last().values@ + values@,
            final(self).steps == old(self).steps,
    {
        let mut last = self.sources.pop().unwrap();
        let mut more = values;
        last.values.append(&mut more);
        self.sources.push(last);
        proof {
            assert(self.sources@.drop_last() =~= old(self).sources@.drop_last());
        }
    }

    /// Adds a value to the arguments of the last source.
    pub fn add_to_last_source(&mut self, value: GremlinValue)
        requires
            old(self).sources@.len() > 0,
        ensures
            final(self).sources@.len() == old(self).sources@.len(),
            final(self).sources@.drop_last() == old(self).sources@.drop_last(),
            final(self).sources@.last().name == old(self).sources@.last().name,
            final(self).sources@.last().values@ == old(self).sources@.last().values@.push(value),
            final(self).steps == old(self).steps,
    {
        let mut last = self.sources.pop().unwrap();
        last.values.push(value);
        self.sources.push(last);
        proof {
            assert(self.sources@.drop_last() =~= old(self).sources@.drop_last());
        }
    }
}


// ---------------------------------------------------------------------------
// The written form
// ---------------------------------------------------------------------------

/// The models of instructions: their names and the models of their arguments.
pub open spec fn instructions_view(s: Seq<Instruction>) -> Seq<(Seq<char>, Seq<GValue>)>
    decreases s.len(),
{
    if s.len() == 0 {
        seq![]
    } else {
        instructions_view(s.drop_last()).push((s.last().name@, values_view(s.last().values@)))
    }
}

impl DeepView for Bytecode {
    type V = (Seq<(Seq<char>, Seq<GValue>)>, Seq<(Seq<char>, Seq<GValue>)>);

    open spec fn deep_view(&self) -> Self::V {
        (instructions_view(self.steps@), instructions_view(self.sources@))
    }
}

/// The bytes of instructions written one after another: each name as a text, then its
/// arguments as a list.
pub open spec fn instructions_bytes(s: Seq<(Seq<char>, Seq<GValue>)>) -> Seq<u8>
    decreases s.len(),
{
    if s.len() == 0 {
        seq![]
    } else {
        instructions_bytes(s.drop_last()) + (string_partial_bytes(s.last().0) + (be_i32(
            s.last().1.len() as i32,
        ) + values_bytes(s.last().1)))
    }
}

/// The partial form of bytecode: the number of steps and the steps, then the number of
/// sources and the sources.
pub open spec fn bytecode_partial_bytes(
    steps: Seq<(Seq<char>, Seq<GValue>)>,
    sources: Seq<(Seq<char>, Seq<GValue>)>,
) -> Seq<u8> {
    (be_i32(steps.len() as i32) + instructions_bytes(steps)) + (be_i32(sources.len() as i32)
        + instructions_bytes(sources))
}

/// Every argument of the instructions has a written form.
pub open spec fn instructions_encodable(s: Seq<(Seq<char>, Seq<GValue>)>) -> bool {
    forall|i: int| 0 <= i < s.len() ==> all_encodable(#[trigger] s[i].1)
}

/// Reads `n` instructions one after another: each name as a text, then its arguments as a
/// list.
pub open spec fn parse_instrs(s: Seq<u8>, n: nat) -> Parsed<Seq<(Seq<char>, Seq<GValue>)>>
    decreases n,
{
    if n == 0 {
        Parsed::Done(seq![], 0)
    } else {
        match parse_instrs(s, (n - 1) as nat) {
            Parsed::Done(is, k) => if 0 <= k <= s.len() {
                match parse_string(s.skip(k)) {
                    Parsed::Done(name, m1) => if 0 <= k + m1 <= s.len() {
                        match parse_value_list(s.skip(k + m1)) {
                            Parsed::Done(vals, m2) => Parsed::Done(is.push((name, vals)), k + m1 + m2),
                            Parsed::Fail(e) => Parsed::Fail(e),
                            Parsed::Abort => Parsed::Abort,
                        }
                    } else {
                        Parsed::Fail(DecodeError::UnexpectedEof)
                    },
                    Parsed::Fail(e) => Parsed::Fail(e),
                    Parsed::Abort => Parsed::Abort,
                }
            } else {
                Parsed::Fail(DecodeError::UnexpectedEof)
            },
            Parsed::Fail(e) => Parsed::Fail(e),
            Parsed::Abort => Parsed::Abort,
        }
    }
}

/// Reads a list of instructions: a 32-bit count, then that many instructions. A negative
/// count is not read (the reader gives up).
pub open spec fn parse_instructions(t: Seq<u8>) -> Parsed<Seq<(Seq<char>, Seq<GValue>)>> {
    match parse_i32(t) {
        Parsed::Done(len, _) => if len < 0 {
            Parsed::Abort
        } else {
            shift(parse_instrs(t.skip(4), len as nat), 4)
        },
        Parsed::Fail(e) => Parsed::Fail(e),
        Parsed::Abort => Parsed::Abort,
    }
}

/// Reads the partial form of bytecode: its steps, then its sources.
pub open spec fn parse_bytecode_partial(t: Seq<u8>) -> Parsed<
    (Seq<(Seq<char>, Seq<GValue>)>, Seq<(Seq<char>, Seq<GValue>)>),
> {
    match parse_instructions(t) {
        Parsed::Done(steps, n1) => if 0 <= n1 <= t.len() {
            match parse_instructions(t.skip(n1)) {
                Parsed::Done(sources, n2) => Parsed::Done((steps, sources), n1 + n2),
                Parsed::Fail(e) => Parsed::Fail(e),
                Parsed::Abort => Parsed::Abort,
            }
        } else {
            Parsed::Fail(DecodeError::UnexpectedEof)
        },
        Parsed::Fail(e) => Parsed::Fail(e),
        Parsed::Abort => Parsed::Abort,
    }
}

/// Reads bytecode behind its type code 0x15 and the set flag; any other type code or flag
/// is a `TypeMismatch`.
pub open spec fn parse_bytecode(s: Seq<u8>) -> Parsed<
    (Seq<(Seq<char>, Seq<GValue>)>, Seq<(Seq<char>, Seq<GValue>)>),
> {
    if s.len() < 2 {
        Parsed::Fail(DecodeError::UnexpectedEof)
    } else if s[0] == 0x15u8 && s[1] == 0x00u8 {
        shift(parse_bytecode_partial(s.skip(2)), 2)
    } else {
        Parsed::Fail(DecodeError::TypeMismatch)
    }
}

/// The models of instructions, one by one.
proof fn lemma_instructions_view(s: Seq<Instruction>)
    ensures
        instructions_view(s).len() == s.len(),
        forall|i: int|
            0 <= i < s.len() ==> #[trigger] instructions_view(s)[i] == (
                s[i].name@,
                values_view(s[i].values@),
            ),
    decreases s.len(),
{
    if s.len() > 0 {
        lemma_instructions_view(s.drop_last());
    }
}

/// Appends a count and the instructions: each name as a text, then its arguments as a list.
fn encode_instructions(is: &Vec<Instruction>, out: &mut Vec<u8>)
    requires
        instructions_encodable(instructions_view(is@)),
    ensures
        final(out)@ == old(out)@ + be_i32(instructions_view(is@).len() as i32) + instructions_bytes(
            instructions_view(is@),
        ),
{
    proof {
        lemma_instructions_view(is@);
    }
    push_i32(out, is.len() as i32);
    let ghost start = out@;
    let mut i: usize = 0;
    while i < is.len()
        invariant
            i <= is@.len(),
            instructions_encodable(instructions_view(is@)),
            instructions_view(is@).len() == is@.len(),
            forall|k: int| 0 <= k < is@.len() ==> #[trigger] instructions_view(is@)[k] == (
                is@[k].name@,
                values_view(is@[k].values@),
            ),
            out@ == start + instructions_bytes(instructions_view(is@.subrange(0, i as int))),
        decreases is@.len() - i,
    {
        proof {
            assert(all_encodable(instructions_view(is@)[i as int].1));
            lemma_instructions_view(is@.subrange(0, i + 1));
            lemma_instructions_view(is@.subrange(0, i as int));
            let vs = instructions_view(is@.subrange(0, i + 1));
            assert(vs.drop_last() =~= instructions_view(is@.subrange(0, i as int)));
        }
        partial_encode_str(is[i].name.as_str(), out);
        encode_values(&is[i].values, out);
        i = i + 1;
        proof {
            assert(out@ =~= start + instructions_bytes(instructions_view(is@.subrange(0, i as int))));
        }
    }
    proof {
        assert(is@.subrange(0, i as int) =~= is@);
    }
}

impl Bytecode {
    /// Appends the fully qualified bytes of the bytecode: its type code 0x15, the set flag,
    /// the steps and the sources. Bytecode with an argument that has no written form is not
    /// accepted.
    pub fn encode(&self, out: &mut Vec<u8>)
        requires
            instructions_encodable(self.deep_view().0),
            instructions_encodable(self.deep_view().1),
        ensures
            final(out)@ == old(out)@ + fq_bytes(
                0x15u8,
                bytecode_partial_bytes(self.deep_view().0, self.deep_view().1),
            ),
    {
        out.push(0x15u8);
        out.push(0x00u8);
        encode_instructions(&self.steps, out);
        encode_instructions(&self.sources, out);
        assert(out@ =~= old(out)@ + fq_bytes(
            0x15u8,
            bytecode_partial_bytes(self.deep_view().0, self.deep_view().1),
        ));
    }
}

/// Once reading `i` instructions has failed or given up, so has reading more.
proof fn lemma_instrs_stuck(s: Seq<u8>, i: nat, n: nat)
    requires
        i <= n,
        !(parse_instrs(s, i) is Done),
    ensures
        parse_instrs(s, n) == parse_instrs(s, i),
    decreases n,
{
    if n > i {
        lemma_instrs_stuck(s, i, (n - 1) as nat);
    }
}

/// Reads a list of instructions at `pos`: a count, then the instructions.
#[verifier::rlimit(60)]
#[verifier::spinoff_prover]
fn decode_instructions(buf: &[u8], pos: usize) -> (r: Result<(Vec<Instruction>, usize), DecodeError>)
    requires
        pos <= buf@.len(),
        !(parse_instructions(buf@.skip(pos as int)) is Abort),
    ensures
        read_as(
            parse_instructions(buf@.skip(pos as int)),
            r,
            pos as int,
            buf@.len() as int,
            |is: Vec<Instruction>| instructions_view(is@),
        ),
{
    let (len, p4) = match decode_i32_at(buf, pos) {
        Ok(x) => x,
        Err(e) => return Err(e),
    };
    let n = len as usize;
    let ghost s = buf@.skip(p4 as int);
    proof {
        assert(buf@.skip(pos as int).skip(4) =~= s);
    }
    let mut is: Vec<Instruction> = Vec::new();
    let mut q = p4;
    let mut i: usize = 0;
    while i < n
        invariant
            p4 == pos + 4,
            p4 <= q <= buf@.len(),
            len >= 0,
            i <= n,
            n == len,
            s == buf@.skip(p4 as int),
            buf@.skip(pos as int).skip(4) == s,
            parse_i32(buf@.skip(pos as int)) == Parsed::Done(len, 4),
            parse_instrs(s, i as nat) == Parsed::Done(instructions_view(is@), q - p4),
            !(parse_instrs(s, n as nat) is Abort),
        decreases n - i,
    {
        proof {
            assert(s.skip(q - p4) =~= buf@.skip(q as int));
        }
        let (name, q1) = match partial_decode_string(buf, q) {
            Ok(x) => x,
            Err(e) => {
                proof {
                    assert(parse_string(s.skip(q - p4)) == Parsed::<Seq<char>>::Fail(e));
                    assert(parse_instrs(s, (i + 1) as nat) == Parsed::<Seq<(Seq<char>, Seq<GValue>)>>::Fail(e));
                    lemma_instrs_stuck(s, (i + 1) as nat, n as nat);
                }
                return Err(e);
            },
        };
        proof {
            assert(s.skip(q1 - p4) =~= buf@.skip(q1 as int));
            if parse_value_list(buf@.skip(q1 as int)) is Abort {
                lemma_instrs_stuck(s, (i + 1) as nat, n as nat);
            }
        }
        let (values, q2) = match decode_value_list(buf, q1) {
            Ok(x) => x,
            Err(e) => {
                proof {
                    assert(parse_value_list(s.skip(q1 - p4)) == Parsed::<Seq<GValue>>::Fail(e));
                    assert(parse_instrs(s, (i + 1) as nat) == Parsed::<Seq<(Seq<char>, Seq<GValue>)>>::Fail(e));
                    lemma_instrs_stuck(s, (i + 1) as nat, n as nat);
                }
                return Err(e);
            },
        };
        let x = Instruction { name, values };
        proof {
            assert(is@.push(x).drop_last() =~= is@);
        }
        is.push(x);
        q = q2;
        i = i + 1;
    }
    Ok((is, q))
}

impl PartialDecode for Bytecode {
    open spec fn spec_expected_type_code() -> u8 {
        0x15u8
    }

    open spec fn spec_parse_partial(s: Seq<u8>) -> Parsed<Self::V> {
        parse_bytecode_partial(s)
    }

    fn expected_type_code() -> (code: u8) {
        0x15u8
    }

    fn partial_decode(buf: &[u8], pos: usize) -> (r: Result<(Bytecode, usize), DecodeError>) {
        let (steps, q1) = match decode_instructions(buf, pos) {
            Ok(x) => x,
            Err(e) => return Err(e),
        };
        proof {
            assert(buf@.skip(pos as int).skip(q1 - pos) =~= buf@.skip(q1 as int));
        }
        let (sources, q2) = match decode_instructions(buf, q1) {
            Ok(x) => x,
            Err(e) => return Err(e),
        };
        Ok((Bytecode { steps, sources }, q2))
    }
}

impl Decode for Bytecode {
    open spec fn spec_parse(s: Seq<u8>) -> Parsed<Self::V> {
        parse_bytecode(s)
    }

    fn decode(buf: &[u8], pos: usize) -> (r: Result<(Bytecode, usize), DecodeError>) {
        if buf.len() - pos < 2 {
            return Err(DecodeError::UnexpectedEof);
        }
        if buf[pos] == 0x15u8 && buf[pos + 1] == 0x00u8 {
            proof {
                assert(buf@.skip(pos as int).skip(2) =~= buf@.skip(pos + 2));
            }
            Self::partial_decode(buf, pos + 2)
        } else {
            Err(DecodeError::TypeMismatch)
        }
    }
}

fn clone_instructions(is: &Vec<Instruction>) -> (r: Vec<Instruction>)
    ensures
        instructions_view(r@) == instructions_view(is@),
{
    let mut r: Vec<Instruction> = Vec::new();
    let mut i: usize = 0;
    while i < is.len()
        invariant
            i <= is@.len(),
            instructions_view(r@) == instructions_view(is@.subrange(0, i as int)),
        decreases is@.len() - i,
    {
        let x = Instruction { name: is[i].name.clone(), values: clone_values(&is[i].values) };
        proof {
            assert(is@.subrange(0, i + 1).drop_last() =~= is@.subrange(0, i as int));
            assert(r@.push(x).drop_last() =~= r@);
        }
        r.push(x);
        i = i + 1;
    }
    proof {
        assert(is@.subrange(0, i as int) =~= is@);
    }
    r
}

impl Clone for Bytecode {
    /// A copy of the bytecode, all the way down.
    fn clone(&self) -> (r: Bytecode)
        ensures
            r.deep_view() == self.deep_view(),
    {
        Bytecode {
            steps: clone_instructions(&self.steps),
            sources: clone_instructions(&self.sources),
        }
    }
}

// ---------------------------------------------------------------------------
// The round trip
// ---------------------------------------------------------------------------

/// Instructions whose names, counts and arguments fit the 32-bit length prefixes and whose
/// arguments read back as themselves.
pub open spec fn instructions_wf(is: Seq<(Seq<char>, Seq<GValue>)>) -> bool {
    &&& is.len() <= i32::MAX
    &&& forall|i: int|
        0 <= i < is.len() ==> string_wf(#[trigger] is[i].0) && is[i].1.len() <= i32::MAX
            && values_wf(is[i].1)
}

/// Instructions written one after another read back as themselves.
#[verifier::rlimit(100)]
#[verifier::spinoff_prover]
proof fn lemma_instrs_roundtrip(is: Seq<(Seq<char>, Seq<GValue>)>, rest: Seq<u8>)
    requires
        instructions_wf(is),
    ensures
        parse_instrs(instructions_bytes(is) + rest, is.len()) == Parsed::Done(
            is,
            instructions_bytes(is).len() as int,
        ),
    decreases is.len(),
{
    if is.len() > 0 {
        let init = is.drop_last();
        let (name, vals) = is.last();
        assert(string_wf(is[is.len() - 1].0));
        let a = instructions_bytes(init);
        let b = string_partial_bytes(name);
        let c = be_i32(vals.len() as i32) + values_bytes(vals);
        let s = instructions_bytes(is) + rest;
        assert(s =~= a + (b + (c + rest)));
        assert forall|i: int| 0 <= i < init.len() implies string_wf(#[trigger] init[i].0)
            && init[i].1.len() <= i32::MAX && values_wf(init[i].1) by {
            assert(init[i] == is[i]);
        }
        lemma_instrs_roundtrip(init, b + (c + rest));
        assert(s.skip(a.len() as int) =~= b + (c + rest));
        lemma_string_roundtrip(name, c + rest);
        assert(s.skip((a.len() + b.len()) as int) =~= c + rest);
        lemma_list_partial(vals, rest);
        assert(parse_instrs(s, (is.len() - 1) as nat) == Parsed::Done(init, a.len() as int));
        assert(parse_string(s.skip(a.len() as int)) == Parsed::Done(name, b.len() as int));
        assert(parse_value_list(s.skip((a.len() + b.len()) as int)) == Parsed::Done(vals, c.len() as int));
        assert(init.push((name, vals)) =~= is);
    } else {
        assert(is =~= Seq::<(Seq<char>, Seq<GValue>)>::empty());
    }
}

/// A list of instructions reads back as itself.
proof fn lemma_instructions_roundtrip(is: Seq<(Seq<char>, Seq<GValue>)>, rest: Seq<u8>)
    requires
        instructions_wf(is),
    ensures
        parse_instructions(be_i32(is.len() as i32) + instructions_bytes(is) + rest) == Parsed::Done(
            is,
            (be_i32(is.len() as i32) + instructions_bytes(is)).len() as int,
        ),
{
    let b = instructions_bytes(is);
    let s = be_i32(is.len() as i32) + b + rest;
    assert(s =~= be_i32(is.len() as i32) + (b + rest));
    lemma_parse_i32_prefix(is.len() as i32, b + rest);
    assert(s.skip(4) =~= b + rest);
    lemma_instrs_roundtrip(is, rest);
}

/// Reading the bytes written for bytecode, whatever follows them, gives its steps and its
/// sources back and takes exactly its bytes.
#[verifier::rlimit(100)]
#[verifier::spinoff_prover]
pub proof fn lemma_bytecode_roundtrip(
    steps: Seq<(Seq<char>, Seq<GValue>)>,
    sources: Seq<(Seq<char>, Seq<GValue>)>,
    rest: Seq<u8>,
)
    requires
        instructions_wf(steps),
        instructions_wf(sources),
    ensures
        parse_bytecode(fq_bytes(0x15u8, bytecode_partial_bytes(steps, sources)) + rest)
            == Parsed::Done(
            (steps, sources),
            fq_bytes(0x15u8, bytecode_partial_bytes(steps, sources)).len() as int,
        ),
{
    let a = be_i32(steps.len() as i32) + instructions_bytes(steps);
    let b = be_i32(sources.len() as i32) + instructions_bytes(sources);
    let s = fq_bytes(0x15u8, a + b) + rest;
    let t = a + b + rest;
    assert(s.skip(2) =~= t);
    assert(t =~= a + (b + rest));
    lemma_instructions_roundtrip(steps, b + rest);
    assert(t.skip(a.len() as int) =~= b + rest);
    lemma_instructions_roundtrip(sources, rest);
    assert(parse_instructions(t) == Parsed::Done(steps, a.len() as int));
    assert(parse_instructions(t.skip(a.len() as int)) == Parsed::Done(sources, b.len() as int));
    assert(parse_bytecode_partial(t) == Parsed::Done((steps, sources), (a.len() + b.len()) as int));
}

} // verus!
