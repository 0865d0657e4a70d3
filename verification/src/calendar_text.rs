//! The text of years, months of a year and days of a month.

use vstd::prelude::*;
use vstd::utf8::{encode_utf8, encode_utf8_decode_utf8, encode_utf8_valid_utf8, is_ascii_chars, is_ascii_chars_encode_utf8};
use crate::extended::{MonthDay, Year, YearMonth};
use crate::period_text::{
    ascii_bytes, int_text, lemma_ascii_bytes_concat, lemma_ascii_concat, lemma_nat_text_ascii,
    nat_text, push_i64_text, push_int_text, push_nat_text,
};
use crate::primitives::string_from_utf8;

verus! {

/// The text of a year: the year in decimal.
pub open spec fn year_text(y: Year) -> Seq<char> {
    int_text(y.0 as int)
}

/// The text of a month of a year: the year and the month in decimal, joined by `-`, with no
/// padding.
pub open spec fn year_month_text(ym: YearMonth) -> Seq<char> {
    int_text(ym.year as int) + seq!['-'] + nat_text(ym.month as nat)
}

/// The text of a day of a month: `--`, the month and the day in decimal, joined by `-`, with
/// no padding.
pub open spec fn month_day_text(md: MonthDay) -> Seq<char> {
    seq!['-', '-'] + nat_text(md.month as nat) + seq!['-'] + nat_text(md.day as nat)
}

/// An integer's text is ASCII.
pub(crate) proof fn lemma_int_text_ascii(x: int)
    ensures
        is_ascii_chars(int_text(x)),
{
    if x < 0 {
        lemma_nat_text_ascii((-x) as nat);
        lemma_ascii_concat(seq!['-'], nat_text((-x) as nat));
    } else {
        lemma_nat_text_ascii(x as nat);
    }
}

/// The string of ASCII characters whose bytes are `out`.
pub(crate) fn ascii_string(out: Vec<u8>, Ghost(text): Ghost<Seq<char>>) -> (r: String)
    requires
        out@ == ascii_bytes(text),
        is_ascii_chars(text),
    ensures
        r@ == text,
{
    proof {
        is_ascii_chars_encode_utf8(text);
        assert(out@ =~= encode_utf8(text));
        encode_utf8_valid_utf8(text);
        encode_utf8_decode_utf8(text);
    }
    match string_from_utf8(out) {
        Some(s) => s,
        None => {
            proof {
                assert(false);
            }
            String::new()
        },
    }
}

/// A 64-bit integer in decimal, with `-` in front where it is negative.
pub(crate) fn int_string(x: i64) -> (r: String)
    ensures
        r@ == int_text(x as int),
{
    let mut out: Vec<u8> = Vec::new();
    push_i64_text(x, &mut out);
    proof {
        assert(out@ =~= ascii_bytes(int_text(x as int)));
        lemma_int_text_ascii(x as int);
    }
    ascii_string(out, Ghost(int_text(x as int)))
}

impl Year {
    /// The year in decimal (see `year_text`).
    pub fn to_string(&self) -> (r: String)
        ensures
            r@ == year_text(*self),
    {
        let mut out: Vec<u8> = Vec::new();
        push_int_text(self.0, &mut out);
        proof {
            assert(out@ =~= ascii_bytes(year_text(*self)));
            lemma_int_text_ascii(self.0 as int);
        }
        ascii_string(out, Ghost(year_text(*self)))
    }
}

impl YearMonth {
    /// The year and the month, as in `2024-3` (see `year_month_text`).
    pub fn to_string(&self) -> (r: String)
        ensures
            r@ == year_month_text(*self),
    {
        let mut out: Vec<u8> = Vec::new();
        push_int_text(self.year, &mut out);
        out.push(45u8);
        push_nat_text(self.month as u64, &mut out);
        let ghost a = int_text(self.year as int);
        let ghost m = nat_text(self.month as nat);
        proof {
            lemma_ascii_bytes_concat(a, seq!['-']);
            lemma_ascii_bytes_concat(a + seq!['-'], m);
            assert(ascii_bytes(seq!['-']) =~= seq![45u8]);
            assert(out@ =~= ascii_bytes(year_month_text(*self)));
            lemma_int_text_ascii(self.year as int);
            lemma_nat_text_ascii(self.month as nat);
            lemma_ascii_concat(a, seq!['-']);
            lemma_ascii_concat(a + seq!['-'], m);
        }
        ascii_string(out, Ghost(year_month_text(*self)))
    }
}

impl MonthDay {
    /// The month and the day, as in `--3-7` (see `month_day_text`).
    pub fn to_string(&self) -> (r: String)
        ensures
            r@ == month_day_text(*self),
    {
        let mut out: Vec<u8> = Vec::new();
        out.push(45u8);
        out.push(45u8);
        push_nat_text(self.month as u64, &mut out);
        out.push(45u8);
        push_nat_text(self.day as u64, &mut out);
        let ghost p = seq!['-', '-'];
        let ghost m = nat_text(self.month as nat);
        let ghost d = nat_text(self.day as nat);
        proof {
            lemma_ascii_bytes_concat(p, m);
            lemma_ascii_bytes_concat(p + m, seq!['-']);
            lemma_ascii_bytes_concat(p + m + seq!['-'], d);
            assert(ascii_bytes(seq!['-']) =~= seq![45u8]);
            assert(ascii_bytes(p) =~= seq![45u8, 45u8]);
            assert(out@ =~= ascii_bytes(month_day_text(*self)));
            lemma_nat_text_ascii(self.month as nat);
            lemma_nat_text_ascii(self.day as nat);
            lemma_ascii_concat(p, m);
            lemma_ascii_concat(p + m, seq!['-']);
            lemma_ascii_concat(p + m + seq!['-'], d);
        }
        ascii_string(out, Ghost(month_day_text(*self)))
    }
}

} // verus!
