//! The text of a byte buffer and of a lambda.

use vstd::prelude::*;
use vstd::utf8::{encode_utf8, encode_utf8_decode_utf8, encode_utf8_valid_utf8, is_ascii_chars, is_ascii_chars_encode_utf8};
use crate::calendar_text::lemma_int_text_ascii;
use crate::period_text::lemma_nat_text_ascii;
use crate::binary::push_bytes;
use crate::period_text::{int_text, nat_text, push_int_text, push_nat_text};
use crate::primitives::string_from_utf8;
use crate::structure::{ByteBuffer, Lambda, LambdaView};

verus! {

/// The text of a byte buffer: `[`, each byte in decimal followed by `,`, then `]`.
pub open spec fn byte_buffer_text(b: Seq<u8>) -> Seq<char> {
    seq!['['] + byte_list_text(b) + seq![']']
}

/// Each byte in decimal followed by `,`.
pub open spec fn byte_list_text(b: Seq<u8>) -> Seq<char>
    decreases b.len(),
{
    if b.len() == 0 {
        seq![]
    } else {
        byte_list_text(b.drop_last()) + nat_text(b.last() as nat) + seq![',']
    }
}

/// The text of a lambda: its language and its script, each in brackets, and the number of
/// its arguments, as in `(gremlin-groovy),(it.get()),args_len:1`.
pub open spec fn lambda_text(l: LambdaView) -> Seq<char> {
    seq!['('] + l.language + seq![')', ',', '('] + l.script + seq![')', ','] + seq![
        'a',
        'r',
        'g',
        's',
        '_',
        'l',
        'e',
        'n',
        ':',
    ] + int_text(l.arguments_length as int)
}

/// The UTF-8 bytes of joined characters are the joined bytes.
pub(crate) proof fn lemma_encode_utf8_concat(a: Seq<char>, b: Seq<char>)
    ensures
        encode_utf8(a + b) == encode_utf8(a) + encode_utf8(b),
    decreases a.len(),
{
    if a.len() == 0 {
        assert(a + b =~= b);
        assert(encode_utf8(a) =~= Seq::<u8>::empty());
        assert(encode_utf8(a) + encode_utf8(b) =~= encode_utf8(b));
    } else {
        lemma_encode_utf8_concat(a.drop_first(), b);
        assert((a + b).drop_first() =~= a.drop_first() + b);
        assert((a + b)[0] == a[0]);
        assert(encode_utf8(a + b) == vstd::utf8::encode_scalar(a[0] as u32) + encode_utf8(a.drop_first() + b));
        assert(encode_utf8(a + b) =~= encode_utf8(a) + encode_utf8(b));
    }
}

/// The UTF-8 bytes of ASCII characters are the characters' numbers.
proof fn lemma_encode_ascii(cs: Seq<char>)
    requires
        is_ascii_chars(cs),
    ensures
        encode_utf8(cs) == cs.map_values(|c: char| c as u8),
{
    is_ascii_chars_encode_utf8(cs);
    assert(encode_utf8(cs) =~= cs.map_values(|c: char| c as u8));
}

/// The string of the characters whose UTF-8 bytes are `out`.
pub(crate) fn utf8_string(out: Vec<u8>, Ghost(text): Ghost<Seq<char>>) -> (r: String)
    requires
        out@ == encode_utf8(text),
    ensures
        r@ == text,
{
    proof {
        encode_utf8_valid_utf8(text);
        encode_utf8_decode_utf8(text);
    }
    match string_from_utf8(out) {
        Some(s) => s,
        None => {
            proof {
                assert(false);
            }
            String::new()
        },
    }
}

/// Appends one ASCII character.
fn push_ascii(out: &mut Vec<u8>, b: u8)
    requires
        b < 128,
    ensures
        final(out)@ == old(out)@ + encode_utf8(seq![b as char]),
{
    proof {
        lemma_encode_ascii(seq![b as char]);
        assert(seq![b as char].map_values(|c: char| c as u8) =~= seq![b]);
    }
    out.push(b);
}

/// Appends a natural number in decimal.
fn push_nat(out: &mut Vec<u8>, n: u64)
    ensures
        final(out)@ == old(out)@ + encode_utf8(nat_text(n as nat)),
{
    push_nat_text(n, out);
    proof {
        lemma_nat_text_ascii(n as nat);
        lemma_encode_ascii(nat_text(n as nat));
        assert(nat_text(n as nat).map_values(|c: char| c as u8) =~= crate::period_text::ascii_bytes(
            nat_text(n as nat),
        ));
    }
}

impl ByteBuffer {
    /// The bytes in decimal, each followed by `,`, in square brackets (see
    /// `byte_buffer_text`).
    pub fn to_string(&self) -> (r: String)
        ensures
            r@ == byte_buffer_text(self.deep_view()),
    {
        let bytes = self.bytes();
        let mut out: Vec<u8> = Vec::new();
        push_ascii(&mut out, 91u8);
        let mut i: usize = 0;
        proof {
            assert(bytes@.subrange(0, 0) =~= Seq::<u8>::empty());
            assert(out@ =~= encode_utf8(seq!['['] + byte_list_text(bytes@.subrange(0, 0))));
        }
        while i < bytes.len()
            invariant
                i <= bytes@.len(),
                bytes@ == self.deep_view(),
                out@ == encode_utf8(seq!['['] + byte_list_text(bytes@.subrange(0, i as int))),
            decreases bytes@.len() - i,
        {
            let ghost pre = seq!['['] + byte_list_text(bytes@.subrange(0, i as int));
            let ghost d = nat_text(bytes@[i as int] as nat);
            push_nat(&mut out, bytes[i] as u64);
            push_ascii(&mut out, 44u8);
            proof {
                let next = bytes@.subrange(0, i + 1);
                assert(next.drop_last() =~= bytes@.subrange(0, i as int));
                assert(next.last() == bytes@[i as int]);
                lemma_encode_utf8_concat(pre, d);
                lemma_encode_utf8_concat(pre + d, seq![',']);
                assert(seq!['['] + byte_list_text(next) =~= pre + d + seq![',']);
            }
            i = i + 1;
        }
        let ghost body = seq!['['] + byte_list_text(bytes@);
        proof {
            assert(bytes@.subrange(0, i as int) =~= bytes@);
        }
        push_ascii(&mut out, 93u8);
        proof {
            lemma_encode_utf8_concat(body, seq![']']);
        }
        utf8_string(out, Ghost(byte_buffer_text(self.deep_view())))
    }
}

impl Lambda {
    /// The language and the script in brackets, and the number of arguments (see
    /// `lambda_text`).
    pub fn to_string(&self) -> (r: String)
        ensures
            r@ == lambda_text(self.deep_view()),
    {
        let ghost l = self.deep_view();
        let mut out: Vec<u8> = Vec::new();
        push_ascii(&mut out, 40u8);
        push_bytes(&mut out, self.language.as_str().as_bytes());
        push_ascii(&mut out, 41u8);
        push_ascii(&mut out, 44u8);
        push_ascii(&mut out, 40u8);
        push_bytes(&mut out, self.script.as_str().as_bytes());
        push_ascii(&mut out, 41u8);
        push_ascii(&mut out, 44u8);
        let ghost head = out@;
        let tag: &[u8] = &[97u8, 114u8, 103u8, 115u8, 95u8, 108u8, 101u8, 110u8, 58u8];
        push_bytes(&mut out, tag);
        let ghost mid = out@;
        let mut text_bytes: Vec<u8> = Vec::new();
        push_int_text(self.arguments_length, &mut text_bytes);
        push_bytes(&mut out, text_bytes.as_slice());
        let ghost t1 = seq!['('];
        let ghost t2 = seq![')', ',', '('];
        let ghost t3 = seq![')', ','];
        let ghost t4 = seq!['a', 'r', 'g', 's', '_', 'l', 'e', 'n', ':'];
        let ghost t5 = int_text(l.arguments_length as int);
        proof {
            lemma_encode_utf8_concat(seq!['('], l.language);
            lemma_encode_utf8_concat(seq![')'], seq![',']);
            assert(seq![')'] + seq![','] =~= t3);
            lemma_encode_utf8_concat(t3, seq!['(']);
            assert(t3 + seq!['('] =~= t2);
            lemma_encode_ascii(t4);
            assert(t4.map_values(|c: char| c as u8) =~= tag@);
            lemma_int_text_ascii(l.arguments_length as int);
            lemma_encode_ascii(t5);
            assert(t5.map_values(|c: char| c as u8) =~= crate::period_text::ascii_bytes(t5));
            let a = t1 + l.language;
            let b = a + t2;
            let c = b + l.script;
            let d = c + t3;
            let e = d + t4;
            lemma_encode_utf8_concat(a, t2);
            lemma_encode_utf8_concat(b, l.script);
            lemma_encode_utf8_concat(c, t3);
            lemma_encode_utf8_concat(d, t4);
            lemma_encode_utf8_concat(e, t5);
            assert(out@ =~= encode_utf8(e + t5));
            assert(lambda_text(l) =~= e + t5);
        }
        utf8_string(out, Ghost(lambda_text(l)))
    }
}

} // verus!
