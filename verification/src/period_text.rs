//! The ISO-8601 text of a period, such as `P1Y2M3D`, and the law that it reads back.

use vstd::prelude::*;
use vstd::utf8::{decode_utf8, encode_utf8, encode_utf8_decode_utf8, encode_utf8_valid_utf8, is_ascii_chars, is_ascii_chars_encode_utf8};
use crate::extended::{
    all_digits, digits_value, int_text_value, is_designator, is_digit, parse_i32_text, parse_period,
    parse_period_text, period_add, Period, TextParsed,
};
use crate::primitives::string_from_utf8;

verus! {

/// The character of a decimal digit.
pub open spec fn digit_char(d: int) -> char {
    (48 + d) as char
}

/// The decimal digits of a natural number, most significant first; zero is `0`.
pub open spec fn nat_text(n: nat) -> Seq<char>
    decreases n,
{
    if n < 10 {
        seq![digit_char(n as int)]
    } else {
        nat_text(n / 10).push(digit_char((n % 10) as int))
    }
}

/// An integer in decimal, with `-` in front where it is negative.
pub open spec fn int_text(x: int) -> Seq<char> {
    if x < 0 {
        seq!['-'] + nat_text((-x) as nat)
    } else {
        nat_text(x as nat)
    }
}

/// A number followed by its unit letter, or nothing where the number is zero.
pub open spec fn unit_text(x: int, unit: char) -> Seq<char> {
    if x != 0 {
        int_text(x) + seq![unit]
    } else {
        seq![]
    }
}

/// The text of a period: `P`, then the years and the months where they are not zero, then
/// the days where they are not zero or where nothing else was written.
pub open spec fn period_text(p: Period) -> Seq<char> {
    seq!['P'] + unit_text(p.years as int, 'Y') + unit_text(p.months as int, 'M') + if p.years == 0
        && p.months == 0 {
        int_text(p.days as int) + seq!['D']
    } else {
        unit_text(p.days as int, 'D')
    }
}

/// The ASCII bytes of characters.
pub open spec fn ascii_bytes(cs: Seq<char>) -> Seq<u8> {
    cs.map_values(|c: char| c as u8)
}

/// Appends the decimal digits of `n`.
pub(crate) fn push_nat_text(n: u64, out: &mut Vec<u8>)
    ensures
        final(out)@ == old(out)@ + ascii_bytes(nat_text(n as nat)),
    decreases n,
{
    if n >= 10 {
        push_nat_text(n / 10, out);
    }
    let d: u8 = (n % 10) as u8;
    let b: u8 = 48u8 + d;
    out.push(b);
    proof {
        let t = nat_text(n as nat);
        if n >= 10 {
            assert(t == nat_text((n / 10) as nat).push(digit_char((n % 10) as int)));
            assert(ascii_bytes(t) =~= ascii_bytes(nat_text((n / 10) as nat)).push(b));
        } else {
            assert(ascii_bytes(t) =~= seq![b]);
        }
        assert(out@ =~= old(out)@ + ascii_bytes(t));
    }
}

/// Appends an integer in decimal.
pub(crate) fn push_int_text(x: i32, out: &mut Vec<u8>)
    ensures
        final(out)@ == old(out)@ + ascii_bytes(int_text(x as int)),
{
    if x < 0 {
        out.push(45u8);
        let m: u64 = (0i64 - x as i64) as u64;
        push_nat_text(m, out);
        proof {
            assert(ascii_bytes(int_text(x as int)) =~= seq![45u8] + ascii_bytes(nat_text(m as nat)));
            assert(out@ =~= old(out)@ + ascii_bytes(int_text(x as int)));
        }
    } else {
        push_nat_text(x as u64, out);
    }
}

/// Appends a 64-bit integer in decimal.
pub(crate) fn push_i64_text(x: i64, out: &mut Vec<u8>)
    ensures
        final(out)@ == old(out)@ + ascii_bytes(int_text(x as int)),
{
    if x < 0 {
        out.push(45u8);
        let m: u64 = if x == i64::MIN {
            9223372036854775808u64
        } else {
            (0i64 - x) as u64
        };
        push_nat_text(m, out);
        proof {
            assert(ascii_bytes(int_text(x as int)) =~= seq![45u8] + ascii_bytes(nat_text(m as nat)));
            assert(out@ =~= old(out)@ + ascii_bytes(int_text(x as int)));
        }
    } else {
        push_nat_text(x as u64, out);
    }
}

/// Appends a number and its unit letter, or nothing where the number is zero.
fn push_unit_text(x: i32, unit: u8, out: &mut Vec<u8>)
    requires
        unit < 128,
    ensures
        final(out)@ == old(out)@ + ascii_bytes(unit_text(x as int, unit as char)),
{
    if x != 0 {
        push_int_text(x, out);
        out.push(unit);
        proof {
            assert(ascii_bytes(int_text(x as int) + seq![unit as char]) =~= ascii_bytes(
                int_text(x as int),
            ).push(unit));
            assert(out@ =~= old(out)@ + ascii_bytes(unit_text(x as int, unit as char)));
        }
    } else {
        assert(ascii_bytes(unit_text(x as int, unit as char)) =~= Seq::<u8>::empty());
        assert(out@ =~= old(out)@ + ascii_bytes(unit_text(x as int, unit as char)));
    }
}

/// The ASCII bytes of joined characters are the joined bytes.
pub(crate) proof fn lemma_ascii_bytes_concat(a: Seq<char>, b: Seq<char>)
    ensures
        ascii_bytes(a + b) == ascii_bytes(a) + ascii_bytes(b),
{
    assert(ascii_bytes(a + b) =~= ascii_bytes(a) + ascii_bytes(b));
}

/// Joined ASCII characters are ASCII.
pub(crate) proof fn lemma_ascii_concat(a: Seq<char>, b: Seq<char>)
    requires
        is_ascii_chars(a),
        is_ascii_chars(b),
    ensures
        is_ascii_chars(a + b),
{
    assert forall|i: int| 0 <= i < (a + b).len() implies '\0' <= #[trigger] (a + b)[i] <= '\u{7f}' by {
        if i < a.len() {
            assert((a + b)[i] == a[i]);
        } else {
            assert((a + b)[i] == b[i - a.len()]);
        }
    }
}

/// Decimal digits are ASCII.
pub(crate) proof fn lemma_nat_text_ascii(n: nat)
    ensures
        is_ascii_chars(nat_text(n)),
    decreases n,
{
    if n >= 10 {
        lemma_nat_text_ascii(n / 10);
        lemma_ascii_concat(nat_text(n / 10), seq![digit_char((n % 10) as int)]);
        assert(nat_text(n) =~= nat_text(n / 10) + seq![digit_char((n % 10) as int)]);
    }
}

/// The text of a period is ASCII.
proof fn lemma_period_text_ascii(p: Period)
    ensures
        is_ascii_chars(period_text(p)),
{
    assert forall|x: int| #[trigger] is_ascii_chars(int_text(x)) by {
        if x < 0 {
            lemma_nat_text_ascii((-x) as nat);
            lemma_ascii_concat(seq!['-'], nat_text((-x) as nat));
        } else {
            lemma_nat_text_ascii(x as nat);
        }
    }
    assert forall|x: int, u: char| '\0' <= u <= '\u{7f}' implies #[trigger] is_ascii_chars(
        unit_text(x, u),
    ) by {
        if x != 0 {
            lemma_ascii_concat(int_text(x), seq![u]);
        }
    }
    let a = seq!['P'] + unit_text(p.years as int, 'Y');
    lemma_ascii_concat(seq!['P'], unit_text(p.years as int, 'Y'));
    let b = a + unit_text(p.months as int, 'M');
    lemma_ascii_concat(a, unit_text(p.months as int, 'M'));
    if p.years == 0 && p.months == 0 {
        lemma_ascii_concat(int_text(p.days as int), seq!['D']);
        lemma_ascii_concat(b, int_text(p.days as int) + seq!['D']);
    } else {
        lemma_ascii_concat(b, unit_text(p.days as int, 'D'));
    }
}

impl Period {
    /// The ISO-8601 text of the period: `P`, the years and months that are not zero, and
    /// the days where they are not zero or where nothing else was written (see
    /// `period_text`).
    pub fn to_string(&self) -> (r: String)
        ensures
            r@ == period_text(*self),
    {
        let mut out: Vec<u8> = Vec::new();
        out.push(80u8);
        push_unit_text(self.years, 89u8, &mut out);
        push_unit_text(self.months, 77u8, &mut out);
        let ghost mid = out@;
        if self.years == 0 && self.months == 0 {
            push_int_text(self.days, &mut out);
            out.push(68u8);
            proof {
                lemma_ascii_bytes_concat(int_text(self.days as int), seq!['D']);
                assert(ascii_bytes(seq!['D']) =~= seq![68u8]);
                assert(out@ =~= mid + ascii_bytes(int_text(self.days as int) + seq!['D']));
            }
        } else {
            push_unit_text(self.days, 68u8, &mut out);
        }
        let ghost text = period_text(*self);
        proof {
            let a = seq!['P'] + unit_text(self.years as int, 'Y');
            let b = a + unit_text(self.months as int, 'M');
            let c = if self.years == 0 && self.months == 0 {
                int_text(self.days as int) + seq!['D']
            } else {
                unit_text(self.days as int, 'D')
            };
            assert(text == b + c);
            lemma_ascii_bytes_concat(seq!['P'], unit_text(self.years as int, 'Y'));
            lemma_ascii_bytes_concat(a, unit_text(self.months as int, 'M'));
            lemma_ascii_bytes_concat(b, c);
            assert(ascii_bytes(seq!['P']) =~= seq![80u8]);
            assert(out@ =~= ascii_bytes(text));
            lemma_period_text_ascii(*self);
            is_ascii_chars_encode_utf8(text);
            assert(out@ =~= encode_utf8(text));
            encode_utf8_valid_utf8(text);
            encode_utf8_decode_utf8(text);
        }
        match string_from_utf8(out) {
            Some(s) => s,
            None => {
                proof {
                    assert(false);
                }
                String::new()
            },
        }
    }
}

// ---------------------------------------------------------------------------
// Reading the text back
// ---------------------------------------------------------------------------

/// The decimal digits of `n` are digits, and their value is `n`.
proof fn lemma_nat_text_value(n: nat)
    ensures
        nat_text(n).len() > 0,
        all_digits(nat_text(n)),
        digits_value(nat_text(n)) == n,
    decreases n,
{
    if n >= 10 {
        lemma_nat_text_value(n / 10);
        let t = nat_text(n);
        assert(t.drop_last() == nat_text(n / 10));
        assert(t.last() == digit_char((n % 10) as int));
        assert(digit_char((n % 10) as int) as int == 48 + n % 10);
        assert((n / 10) * 10 + n % 10 == n) by (nonlinear_arith);
        assert(digits_value(t) == digits_value(t.drop_last()) * 10 + (t.last() as int - '0' as int));
        assert(digits_value(t) == (n / 10) * 10 + n % 10);
        assert forall|i: int| 0 <= i < t.len() implies is_digit(#[trigger] t[i]) by {
            if i < t.len() - 1 {
                assert(t[i] == nat_text(n / 10)[i]);
            }
        }
    } else {
        assert(nat_text(n).drop_last() =~= Seq::<char>::empty());
        assert(digit_char(n as int) as int == 48 + n);
        assert(digits_value(Seq::<char>::empty()) == 0);
        assert(digits_value(nat_text(n)) == digits_value(nat_text(n).drop_last()) * 10 + (
        nat_text(n).last() as int - '0' as int));
    }
}

/// An integer's decimal text reads back as the integer.
proof fn lemma_int_text_value(x: int)
    ensures
        int_text_value(int_text(x)) == Some(x),
{
    if x < 0 {
        let m = (-x) as nat;
        lemma_nat_text_value(m);
        let cs = int_text(x);
        assert(cs[0] == '-');
        assert(cs.skip(1) =~= nat_text(m));
    } else {
        lemma_nat_text_value(x as nat);
        let cs = int_text(x);
        assert(is_digit(cs[0]));
    }
}

/// The characters of an integer's text are no unit letters.
proof fn lemma_int_text_plain(x: int)
    ensures
        forall|i: int| 0 <= i < int_text(x).len() ==> !is_designator(#[trigger] int_text(x)[i]),
{
    let cs = int_text(x);
    if x < 0 {
        lemma_nat_text_value((-x) as nat);
        assert forall|i: int| 0 <= i < cs.len() implies !is_designator(#[trigger] cs[i]) by {
            if i > 0 {
                assert(cs[i] == nat_text((-x) as nat)[i - 1]);
                assert(is_digit(nat_text((-x) as nat)[i - 1]));
            }
        }
    } else {
        lemma_nat_text_value(x as nat);
        assert forall|i: int| 0 <= i < cs.len() implies !is_designator(#[trigger] cs[i]) by {
            assert(is_digit(cs[i]));
        }
    }
}

/// Characters that are no unit letters are gathered into the number being read.
proof fn lemma_scan_plain(ds: Seq<char>, t: Seq<char>, num: Seq<char>, acc: Period)
    requires
        forall|i: int| 0 <= i < ds.len() ==> !is_designator(#[trigger] ds[i]),
    ensures
        parse_period_text(ds + t, num, acc) == parse_period_text(t, num + ds, acc),
    decreases ds.len(),
{
    if ds.len() > 0 {
        let u = ds + t;
        assert(u[0] == ds[0]);
        assert(u.skip(1) =~= ds.skip(1) + t);
        assert forall|i: int| 0 <= i < ds.skip(1).len() implies !is_designator(
            #[trigger] ds.skip(1)[i],
        ) by {
            assert(ds.skip(1)[i] == ds[i + 1]);
        }
        lemma_scan_plain(ds.skip(1), t, num.push(ds[0]), acc);
        assert(num.push(ds[0]) + ds.skip(1) =~= num + ds);
    } else {
        assert(ds + t =~= t);
        assert(num + ds =~= num);
    }
}

/// A number and its unit letter add the number to the period being read.
proof fn lemma_unit_step(x: i32, u: char, t: Seq<char>, acc: Period)
    requires
        is_designator(u),
    ensures
        parse_period_text((int_text(x as int) + seq![u]) + t, seq![], acc) == match period_add(
            acc,
            u,
            x,
        ) {
            TextParsed::Done(p) => parse_period_text(t, seq![], p),
            TextParsed::Fail(e) => TextParsed::Fail(e),
            TextParsed::Abort => TextParsed::Abort,
        },
{
    let ds = int_text(x as int);
    lemma_int_text_plain(x as int);
    assert((ds + seq![u]) + t =~= ds + (seq![u] + t));
    lemma_scan_plain(ds, seq![u] + t, seq![], acc);
    assert(seq![] + ds =~= ds);
    lemma_int_text_value(x as int);
    assert(parse_i32_text(ds) == Some(x));
    let w = seq![u] + t;
    assert(w[0] == u);
    assert(w.skip(1) =~= t);
}

/// The text of a period reads back as the period.
pub proof fn lemma_period_text_roundtrip(p: Period)
    ensures
        parse_period(period_text(p)) == TextParsed::Done(p),
{
    let zero = Period { years: 0, months: 0, days: 0 };
    let a = unit_text(p.years as int, 'Y');
    let b = unit_text(p.months as int, 'M');
    let c = if p.years == 0 && p.months == 0 {
        int_text(p.days as int) + seq!['D']
    } else {
        unit_text(p.days as int, 'D')
    };
    let s = period_text(p);
    assert(s.skip(1) =~= a + (b + c));
    let p1 = Period { years: p.years, months: 0, days: 0 };
    let p2 = Period { years: p.years, months: p.months, days: 0 };
    if p.years != 0 {
        lemma_unit_step(p.years, 'Y', b + c, zero);
    } else {
        assert(a + (b + c) =~= b + c);
    }
    assert(parse_period_text(a + (b + c), seq![], zero) == parse_period_text(b + c, seq![], p1));
    if p.months != 0 {
        lemma_unit_step(p.months, 'M', c, p1);
    } else {
        assert(b + c =~= c);
    }
    assert(parse_period_text(b + c, seq![], p1) == parse_period_text(c, seq![], p2));
    if (p.years == 0 && p.months == 0) || p.days != 0 {
        lemma_unit_step(p.days, 'D', seq![], p2);
        assert(c + seq![] =~= c);
    } else {
        assert(c =~= Seq::<char>::empty());
    }
    assert(parse_period_text(c, seq![], p2) == TextParsed::Done(p));
}

} // verus!
