//! The ISO-8601 text of a duration, such as `P5DT2.001S`, as GraphSON writes it, and its reader.

use vstd::prelude::*;
use crate::duration::{
    duration_of_nanos, max_duration_nanos, max_duration_secs, nanos_per_sec, Duration,
};
use crate::error::GraphSonError;
use crate::extended::{
    all_digits, chars_of, digits_value, int_digits, int_text_value, is_digit,
    lemma_digits_value_grows, lemma_digits_value_nonneg, TextParsed,
};

verus! {

/// The letters that end a piece of a duration's text.
pub open spec fn is_duration_letter(c: char) -> bool {
    c == 'M' || c == 'D' || c == 'T' || c == 'H' || c == 'S'
}

/// The integer written in decimal in `cs`, where it fits 64 bits, as `str::parse::<i64>`
/// reads it.
pub open spec fn parse_i64_text(cs: Seq<char>) -> Option<int> {
    match int_text_value(cs) {
        Some(v) => if i64::MIN <= v <= i64::MAX {
            Some(v)
        } else {
            None
        },
        None => None,
    }
}

/// `body[k]` is a decimal point with digits on both sides of it, and there is at least one
/// digit.
pub open spec fn is_point_at(body: Seq<char>, k: int) -> bool {
    &&& 0 <= k < body.len()
    &&& body[k] == '.'
    &&& all_digits(body.take(k))
    &&& all_digits(body.skip(k + 1))
    &&& body.len() >= 2
}

/// The first nine digits of a fraction, with zeros after its last digit.
pub open spec fn nine_digits(f: Seq<char>) -> Seq<char> {
    (f + Seq::new(9, |i: int| '0')).take(9)
}

/// A number of seconds written as `[+|-]digits[.digits]` or `[+|-].digits`, read as an exact
/// decimal: its whole seconds rounded down and its nanoseconds, the first nine digits of its
/// fraction carrying its sign. A negative number with a fraction thus comes to its whole part
/// less one second, less the nanoseconds.
pub open spec fn seconds_text(cs: Seq<char>) -> Option<(int, int)> {
    let body = int_digits(cs);
    let neg = cs.len() > 0 && cs[0] == '-';
    if body.len() > 0 && all_digits(body) {
        let w = digits_value(body);
        Some(if neg { (-w, 0int) } else { (w, 0int) })
    } else if exists|k: int| is_point_at(body, k) {
        let k = choose|k: int| is_point_at(body, k);
        let w = digits_value(body.take(k));
        let f = body.skip(k + 1);
        let n = digits_value(nine_digits(f));
        if neg {
            Some((-w - (if digits_value(f) > 0 { 1int } else { 0int }), -n))
        } else {
            Some((w, n))
        }
    } else {
        None
    }
}

/// Adds `x` nanoseconds to a total of `acc`; a total beyond `max_duration_nanos` either way
/// is not reached (the reader gives up).
pub open spec fn add_nanos(acc: int, x: int) -> TextParsed<int> {
    if acc + x < -max_duration_nanos() || acc + x > max_duration_nanos() {
        TextParsed::Abort
    } else {
        TextParsed::Done(acc + x)
    }
}

/// Adds `n` units of `unit` seconds to a total of `acc` nanoseconds; more than
/// `max_duration_secs` seconds at once either way are not taken (the reader gives up).
pub open spec fn add_units(acc: int, n: int, unit: int) -> TextParsed<int> {
    if n * unit < -max_duration_secs() || n * unit > max_duration_secs() {
        TextParsed::Abort
    } else {
        add_nanos(acc, n * unit * nanos_per_sec())
    }
}

/// Adds the seconds written in `num` to a total of `acc` nanoseconds: first the whole
/// seconds, then the nanoseconds.
pub open spec fn add_seconds(acc: int, num: Seq<char>) -> TextParsed<int> {
    match seconds_text(num) {
        None => TextParsed::Fail(GraphSonError::InvalidNumber),
        Some((w, n)) => match add_units(acc, w, 1) {
            TextParsed::Done(t) => add_nanos(t, n),
            TextParsed::Fail(e) => TextParsed::Fail(e),
            TextParsed::Abort => TextParsed::Abort,
        },
    }
}

/// The total after a step, with the part of the text that follows it.
pub open spec fn with_part(p: TextParsed<int>, date: bool) -> TextParsed<(int, bool)> {
    match p {
        TextParsed::Done(t) => TextParsed::Done((t, date)),
        TextParsed::Fail(e) => TextParsed::Fail(e),
        TextParsed::Abort => TextParsed::Abort,
    }
}

/// Takes the number `num` that ends in letter `q`. In the date part only days `D` are
/// read, and `T` starts the time part (whatever stands before it); in the time part hours
/// `H`, minutes `M` and seconds `S` are read. Any other letter is an error.
pub open spec fn duration_step(acc: int, date: bool, q: char, num: Seq<char>) -> TextParsed<(int, bool)> {
    if date {
        if q == 'D' {
            match parse_i64_text(num) {
                None => TextParsed::Fail(GraphSonError::InvalidNumber),
                Some(n) => with_part(add_units(acc, n, 86400), true),
            }
        } else if q == 'T' {
            TextParsed::Done((acc, false))
        } else {
            TextParsed::Fail(GraphSonError::InvalidDesignator)
        }
    } else if q == 'H' || q == 'M' {
        match parse_i64_text(num) {
            None => TextParsed::Fail(GraphSonError::InvalidNumber),
            Some(n) => with_part(add_units(acc, n, if q == 'H' { 3600int } else { 60int }), false),
        }
    } else if q == 'S' {
        with_part(add_seconds(acc, num), false)
    } else {
        TextParsed::Fail(GraphSonError::InvalidDesignator)
    }
}

/// Reads the rest `t` of a duration's text, where `num` holds the characters read since the
/// last letter, `date` tells whether the time part has begun, and `acc` is the total so far
/// in nanoseconds. Characters after the last letter are an error; where the last of them is
/// outside ASCII, the reader gives up.
pub open spec fn duration_text(t: Seq<char>, num: Seq<char>, date: bool, acc: int) -> TextParsed<int>
    decreases t.len(),
{
    if t.len() == 0 {
        if num.len() == 0 {
            TextParsed::Done(acc)
        } else if (num.last() as int) < 128 {
            TextParsed::Fail(GraphSonError::InvalidDesignator)
        } else {
            TextParsed::Abort
        }
    } else if is_duration_letter(t[0]) {
        match duration_step(acc, date, t[0], num) {
            TextParsed::Done((a, d)) => duration_text(t.skip(1), seq![], d, a),
            TextParsed::Fail(e) => TextParsed::Fail(e),
            TextParsed::Abort => TextParsed::Abort,
        }
    } else {
        duration_text(t.skip(1), num.push(t[0]), date, acc)
    }
}

/// Reads an ISO-8601 duration such as `P5DT2.001S`: the letter `P`, days, then `T` and
/// hours, minutes and seconds; units may repeat and add up.
pub open spec fn parse_duration_text(s: Seq<char>) -> TextParsed<Duration> {
    if s.len() == 0 || s[0] != 'P' {
        TextParsed::Fail(GraphSonError::MissingPrefix)
    } else {
        match duration_text(s.skip(1), seq![], true, 0) {
            TextParsed::Done(t) => TextParsed::Done(duration_of_nanos(t)),
            TextParsed::Fail(e) => TextParsed::Fail(e),
            TextParsed::Abort => TextParsed::Abort,
        }
    }
}

/// The 64-bit integer written in decimal in `cs[from..to]`.
fn parse_i64_chars(cs: &Vec<char>, from: usize, to: usize) -> (r: Option<i128>)
    requires
        from <= to <= cs@.len(),
    ensures
        r matches Some(v) ==> parse_i64_text(cs@.subrange(from as int, to as int)) == Some(v as int),
        r is None ==> parse_i64_text(cs@.subrange(from as int, to as int)) is None,
{
    let ghost t = cs@.subrange(from as int, to as int);
    if from == to {
        return None;
    }
    let first = cs[from];
    let neg = first == '-';
    let start: usize = if first == '-' || first == '+' {
        from + 1
    } else {
        from
    };
    let ghost ds = cs@.subrange(start as int, to as int);
    proof {
        if first == '-' || first == '+' {
            assert(ds =~= t.skip(1));
        } else {
            assert(ds =~= t);
        }
    }
    if start == to {
        return None;
    }
    let mut v: i128 = 0;
    let mut i: usize = start;
    while i < to
        invariant
            from <= start <= i <= to <= cs@.len(),
            t == cs@.subrange(from as int, to as int),
            t.len() > 0,
            t[0] == first,
            neg == (first == '-'),
            (first == '-' || first == '+') ==> ds == t.skip(1),
            !(first == '-' || first == '+') ==> ds == t,
            ds == cs@.subrange(start as int, to as int),
            v == digits_value(cs@.subrange(start as int, i as int)),
            0 <= v <= 9223372036854775808,
            forall|k: int| start <= k < i ==> is_digit(#[trigger] cs@[k]),
        decreases to - i,
    {
        let c = cs[i];
        if !('0' <= c && c <= '9') {
            proof {
                assert(!is_digit(ds[i - start]));
                assert(int_digits(t) == ds);
                assert(!all_digits(ds));
            }
            return None;
        }
        let d: i128 = ((c as u32) - ('0' as u32)) as i128;
        let ghost pre = cs@.subrange(start as int, i as int);
        let ghost next = cs@.subrange(start as int, i + 1);
        proof {
            assert(next.drop_last() =~= pre);
            assert(next.last() == c);
        }
        let w: i128 = v * 10 + d;
        assert(w == digits_value(next));
        if w > 9223372036854775808 {
            proof {
                assert(int_digits(t) == ds);
                if all_digits(ds) {
                    lemma_digits_value_grows(ds, i + 1 - start);
                    assert(ds.subrange(0, i + 1 - start) =~= next);
                }
            }
            return None;
        }
        v = w;
        i = i + 1;
    }
    proof {
        assert(cs@.subrange(start as int, i as int) =~= ds);
        assert forall|k: int| 0 <= k < ds.len() implies is_digit(#[trigger] ds[k]) by {
            assert(ds[k] == cs@[start + k]);
        }
        assert(all_digits(ds));
        assert(int_digits(t) == ds);
    }
    if neg {
        Some(0 - v)
    } else {
        if v > 9223372036854775807 {
            None
        } else {
            Some(v)
        }
    }
}

/// Ten to the power `n`.
pub open spec fn pow10(n: nat) -> nat
    decreases n,
{
    if n == 0 {
        1
    } else {
        10 * pow10((n - 1) as nat)
    }
}

/// Decimal digits spell less than ten to the power of their number.
proof fn lemma_digits_value_below(ds: Seq<char>)
    requires
        all_digits(ds),
    ensures
        0 <= digits_value(ds) < pow10(ds.len()),
    decreases ds.len(),
{
    if ds.len() > 0 {
        let t = ds.drop_last();
        assert forall|i: int| 0 <= i < t.len() implies is_digit(#[trigger] t[i]) by {
            assert(t[i] == ds[i]);
        }
        lemma_digits_value_below(t);
        assert(is_digit(ds[ds.len() - 1]));
    }
}

/// Digits spell zero exactly where every one of them is `0`.
proof fn lemma_digits_value_zero(ds: Seq<char>)
    requires
        all_digits(ds),
    ensures
        (digits_value(ds) == 0) <==> (forall|i: int| 0 <= i < ds.len() ==> #[trigger] ds[i] == '0'),
    decreases ds.len(),
{
    if ds.len() > 0 {
        let t = ds.drop_last();
        assert forall|i: int| 0 <= i < t.len() implies is_digit(#[trigger] t[i]) by {
            assert(t[i] == ds[i]);
        }
        lemma_digits_value_zero(t);
        lemma_digits_value_nonneg(t);
        assert(is_digit(ds[ds.len() - 1]));
        if digits_value(ds) == 0 {
            assert forall|i: int| 0 <= i < ds.len() implies #[trigger] ds[i] == '0' by {
                if i < t.len() {
                    assert(t[i] == ds[i]);
                }
            }
        }
        if forall|i: int| 0 <= i < ds.len() ==> #[trigger] ds[i] == '0' {
            assert forall|i: int| 0 <= i < t.len() implies #[trigger] t[i] == '0' by {
                assert(t[i] == ds[i]);
            }
            assert(ds[ds.len() - 1] == '0');
        }
    }
}

/// There is at most one point with digits on both sides.
proof fn lemma_point_unique(body: Seq<char>, k1: int, k2: int)
    requires
        is_point_at(body, k1),
        is_point_at(body, k2),
    ensures
        k1 == k2,
{
    if k1 < k2 {
        assert(body.skip(k1 + 1)[k2 - k1 - 1] == body[k2]);
        assert(!is_digit(body[k2]));
    } else if k2 < k1 {
        assert(body.skip(k2 + 1)[k1 - k2 - 1] == body[k1]);
        assert(!is_digit(body[k1]));
    }
}

/// The value of the decimal digits `cs[from..to]`, known to be at most `10^17`.
fn digits_value_chars(cs: &Vec<char>, from: usize, to: usize) -> (r: i128)
    requires
        from <= to <= cs@.len(),
        all_digits(cs@.subrange(from as int, to as int)),
        digits_value(cs@.subrange(from as int, to as int)) <= 100_000_000_000_000_000,
    ensures
        r == digits_value(cs@.subrange(from as int, to as int)),
{
    let ghost ds = cs@.subrange(from as int, to as int);
    let mut v: i128 = 0;
    let mut i: usize = from;
    proof {
        assert(cs@.subrange(from as int, from as int) =~= Seq::<char>::empty());
    }
    while i < to
        invariant
            from <= i <= to <= cs@.len(),
            ds == cs@.subrange(from as int, to as int),
            all_digits(ds),
            digits_value(ds) <= 100_000_000_000_000_000,
            v == digits_value(cs@.subrange(from as int, i as int)),
        decreases to - i,
    {
        let ghost next = cs@.subrange(from as int, i + 1);
        proof {
            assert(next.drop_last() =~= cs@.subrange(from as int, i as int));
            assert(ds.subrange(0, i + 1 - from) =~= next);
            lemma_digits_value_grows(ds, i + 1 - from);
            assert(is_digit(ds[i - from]));
        }
        let c = cs[i];
        let d: i128 = ((c as u32) - ('0' as u32)) as i128;
        v = v * 10 + d;
        i = i + 1;
    }
    proof {
        assert(cs@.subrange(from as int, i as int) =~= ds);
    }
    v
}

/// The nanoseconds of the fraction `cs[from..to]`: its first nine digits, with zeros after.
fn nine_digits_chars(cs: &Vec<char>, from: usize, to: usize) -> (r: i128)
    requires
        from <= to <= cs@.len(),
        all_digits(cs@.subrange(from as int, to as int)),
    ensures
        r == digits_value(nine_digits(cs@.subrange(from as int, to as int))),
        0 <= r < 1_000_000_000,
{
    let ghost f = cs@.subrange(from as int, to as int);
    let ghost nd = nine_digits(f);
    proof {
        assert forall|j: int| 0 <= j < nd.len() implies is_digit(#[trigger] nd[j]) by {
            if j < f.len() {
                assert(nd[j] == f[j]);
            }
        }
        lemma_digits_value_below(nd);
        reveal_with_fuel(pow10, 10);
        assert(nd.take(0) =~= Seq::<char>::empty());
    }
    let mut v: i128 = 0;
    let mut j: usize = 0;
    while j < 9
        invariant
            j <= 9,
            from <= to <= cs@.len(),
            f == cs@.subrange(from as int, to as int),
            nd == nine_digits(f),
            nd.len() == 9,
            all_digits(nd),
            digits_value(nd) < 1_000_000_000,
            v == digits_value(nd.take(j as int)),
        decreases 9 - j,
    {
        let c = if j < to - from {
            cs[from + j]
        } else {
            '0'
        };
        proof {
            if (j as int) < f.len() {
                assert(nd[j as int] == f[j as int]);
            }
            assert(nd[j as int] == c);
            assert(nd.take(j + 1).drop_last() =~= nd.take(j as int));
            lemma_digits_value_grows(nd, j + 1);
            assert(nd.subrange(0, j + 1) =~= nd.take(j + 1));
            lemma_digits_value_nonneg(nd.take(j + 1));
            assert(is_digit(nd[j as int]));
        }
        let d: i128 = ((c as u32) - ('0' as u32)) as i128;
        v = v * 10 + d;
        j = j + 1;
    }
    proof {
        assert(nd.take(9) =~= nd);
    }
    v
}

/// Whether the digits `cs[from..to]` spell more than zero.
fn digits_positive(cs: &Vec<char>, from: usize, to: usize) -> (r: bool)
    requires
        from <= to <= cs@.len(),
        all_digits(cs@.subrange(from as int, to as int)),
    ensures
        r == (digits_value(cs@.subrange(from as int, to as int)) > 0),
{
    let ghost f = cs@.subrange(from as int, to as int);
    let mut i: usize = from;
    while i < to
        invariant
            from <= i <= to <= cs@.len(),
            f == cs@.subrange(from as int, to as int),
            all_digits(f),
            forall|k: int| from <= k < i ==> #[trigger] cs@[k] == '0',
        decreases to - i,
    {
        if cs[i] != '0' {
            proof {
                lemma_digits_value_zero(f);
                lemma_digits_value_nonneg(f);
                assert(f[i - from] != '0');
            }
            return true;
        }
        i = i + 1;
    }
    proof {
        lemma_digits_value_zero(f);
        assert forall|k: int| 0 <= k < f.len() implies #[trigger] f[k] == '0' by {
            assert(f[k] == cs@[from + k]);
        }
    }
    false
}

/// Where the number of seconds `cs[from..to]` has its digits: their start `b`, and the
/// position `k` of the point, or `to` where there is none.
fn seconds_shape(cs: &Vec<char>, from: usize, to: usize) -> (r: Option<(usize, usize)>)
    requires
        from <= to <= cs@.len(),
    ensures
        r is None ==> seconds_text(cs@.subrange(from as int, to as int)) is None,
        r matches Some((b, k)) ==> {
            let body = int_digits(cs@.subrange(from as int, to as int));
            &&& from <= b <= k <= to
            &&& body == cs@.subrange(b as int, to as int)
            &&& k == to ==> body.len() > 0 && all_digits(body)
            &&& k < to ==> is_point_at(body, k - b) && !all_digits(body)
        },
{
    let ghost t = cs@.subrange(from as int, to as int);
    if from == to {
        return None;
    }
    let first = cs[from];
    let b: usize = if first == '-' || first == '+' {
        from + 1
    } else {
        from
    };
    let ghost body = cs@.subrange(b as int, to as int);
    proof {
        assert(int_digits(t) =~= body);
    }
    let mut k: usize = b;
    while k < to && '0' <= cs[k] && cs[k] <= '9'
        invariant
            b <= k <= to <= cs@.len(),
            forall|x: int| b <= x < k ==> is_digit(#[trigger] cs@[x]),
        decreases to - k,
    {
        k = k + 1;
    }
    if k == to {
        if b == to {
            proof {
                assert forall|x: int| !is_point_at(body, x) by {}
            }
            return None;
        }
        proof {
            assert forall|x: int| 0 <= x < body.len() implies is_digit(#[trigger] body[x]) by {
                assert(body[x] == cs@[b + x]);
            }
        }
        return Some((b, to));
    }
    if cs[k] != '.' {
        proof {
            assert(body[k - b] == cs@[k as int]);
            assert(!all_digits(body));
            assert forall|x: int| !is_point_at(body, x) by {
                if 0 <= x < body.len() && body[x] == '.' {
                    if x < k - b {
                        assert(body[x] == cs@[b + x]);
                    } else if x > k - b {
                        assert(body.take(x)[k - b] == body[k - b]);
                    }
                }
            }
        }
        return None;
    }
    let mut j: usize = k + 1;
    while j < to && '0' <= cs[j] && cs[j] <= '9'
        invariant
            k + 1 <= j <= to <= cs@.len(),
            forall|x: int| k + 1 <= x < j ==> is_digit(#[trigger] cs@[x]),
        decreases to - j,
    {
        j = j + 1;
    }
    proof {
        assert(body[k - b] == '.');
        assert(!is_digit(body[k - b]));
        assert(!all_digits(body));
    }
    if j < to || to - b < 2 {
        proof {
            assert forall|x: int| !is_point_at(body, x) by {
                if is_point_at(body, x) {
                    if x < k - b {
                        assert(body.take(k - b + 0)[x] == body[x]);
                        assert(body[x] == cs@[b + x]);
                    } else if x > k - b {
                        assert(body.take(x)[k - b] == body[k - b]);
                    } else if j < to {
                        assert(body.skip(x + 1)[j - k - 1] == body[j - b]);
                        assert(body[j - b] == cs@[j as int]);
                    }
                }
            }
        }
        return None;
    }
    proof {
        assert forall|x: int| 0 <= x < body.take(k - b).len() implies is_digit(#[trigger] body.take(k - b)[x]) by {
            assert(body.take(k - b)[x] == cs@[b + x]);
        }
        assert forall|x: int| 0 <= x < body.skip(k - b + 1).len() implies is_digit(#[trigger] body.skip(k - b + 1)[x]) by {
            assert(body.skip(k - b + 1)[x] == cs@[k + 1 + x]);
        }
        assert(is_point_at(body, k - b));
    }
    Some((b, k))
}

/// Adds `n` units of `unit` seconds to `acc` nanoseconds.
fn add_units_exec(acc: i128, n: i128, unit: i128) -> (r: i128)
    requires
        -max_duration_nanos() <= acc <= max_duration_nanos(),
        -9223372036854775808 <= n <= 9223372036854775808,
        1 <= unit <= 86400,
        !(add_units(acc as int, n as int, unit as int) is Abort),
    ensures
        add_units(acc as int, n as int, unit as int) == TextParsed::Done(r as int),
        -max_duration_nanos() <= r <= max_duration_nanos(),
{
    assert(-9223372036854775808 * 86400 <= n * unit <= 9223372036854775808 * 86400) by (nonlinear_arith)
        requires
            -9223372036854775808 <= n <= 9223372036854775808,
            1 <= unit <= 86400,
    ;
    let m = n * unit;
    let x = m * 1_000_000_000;
    acc + x
}

/// Adds `x` nanoseconds to `acc`.
fn add_nanos_exec(acc: i128, x: i128) -> (r: i128)
    requires
        -max_duration_nanos() <= acc <= max_duration_nanos(),
        -1_000_000_000 < x < 1_000_000_000,
        !(add_nanos(acc as int, x as int) is Abort),
    ensures
        add_nanos(acc as int, x as int) == TextParsed::Done(r as int),
        -max_duration_nanos() <= r <= max_duration_nanos(),
{
    acc + x
}

/// Adds the seconds written in `cs[from..to]` to `acc` nanoseconds; `None` where they are
/// not a number.
fn add_seconds_exec(acc: i128, cs: &Vec<char>, from: usize, to: usize) -> (r: Option<i128>)
    requires
        from <= to <= cs@.len(),
        -max_duration_nanos() <= acc <= max_duration_nanos(),
        !(add_seconds(acc as int, cs@.subrange(from as int, to as int)) is Abort),
    ensures
        r is None ==> add_seconds(acc as int, cs@.subrange(from as int, to as int))
            == TextParsed::<int>::Fail(GraphSonError::InvalidNumber),
        r matches Some(a) ==> add_seconds(acc as int, cs@.subrange(from as int, to as int))
            == TextParsed::Done(a as int) && -max_duration_nanos() <= a <= max_duration_nanos(),
{
    let ghost t = cs@.subrange(from as int, to as int);
    let (b, k) = match seconds_shape(cs, from, to) {
        Some(x) => x,
        None => return None,
    };
    let neg = cs[from] == '-';
    let ghost body = int_digits(t);
    proof {
        assert(t[0] == cs@[from as int]);
    }
    if k == to {
        proof {
            lemma_digits_value_nonneg(body);
        }
        let w = digits_value_chars(cs, b, to);
        let sw: i128 = if neg { 0 - w } else { w };
        let a = add_units_exec(acc, sw, 1);
        let r = add_nanos_exec(a, 0);
        Some(r)
    } else {
        proof {
            lemma_digits_value_nonneg(body.take(k - b));
            assert(forall|x: int| is_point_at(body, x) ==> x == k - b) by {
                assert forall|x: int| is_point_at(body, x) implies x == k - b by {
                    lemma_point_unique(body, x, k - b);
                }
            }
            assert(body.take(k - b) =~= cs@.subrange(b as int, k as int));
            assert(body.skip(k - b + 1) =~= cs@.subrange(k + 1, to as int));
        }
        let w = digits_value_chars(cs, b, k);
        let n = nine_digits_chars(cs, k + 1, to);
        let pos = digits_positive(cs, k + 1, to);
        let sw: i128 = if neg {
            if pos { 0 - w - 1 } else { 0 - w }
        } else {
            w
        };
        let sn: i128 = if neg { 0 - n } else { n };
        let a = add_units_exec(acc, sw, 1);
        let r = add_nanos_exec(a, sn);
        Some(r)
    }
}

/// The duration of `t` nanoseconds.
fn duration_from_nanos(t: i128) -> (d: Duration)
    requires
        -max_duration_nanos() <= t <= max_duration_nanos(),
    ensures
        d == duration_of_nanos(t as int),
{
    let (s, n): (i128, i128) = if t >= 0 {
        let u = t as u128;
        ((u / 1_000_000_000) as i128, (u % 1_000_000_000) as i128)
    } else {
        let u = (0 - t) as u128;
        let q = (u / 1_000_000_000) as i128;
        let m = (u % 1_000_000_000) as i128;
        if m == 0 {
            (0 - q, 0)
        } else {
            (0 - q - 1, 1_000_000_000 - m)
        }
    };
    proof {
        assert(0 <= n < 1_000_000_000);
        assert(t == s * nanos_per_sec() + n);
        vstd::arithmetic::div_mod::lemma_fundamental_div_mod_converse(
            t as int,
            nanos_per_sec(),
            s as int,
            n as int,
        );
    }
    Duration { secs: s as i64, nanos: n as i32 }
}

/// Reads an ISO-8601 duration such as `P5DT2.001S` (see `parse_duration_text`).
pub fn parse_java_duration(s: &str) -> (r: Result<Duration, GraphSonError>)
    requires
        !(parse_duration_text(s@) is Abort),
    ensures
        match parse_duration_text(s@) {
            TextParsed::Done(d) => r == Ok::<Duration, GraphSonError>(d),
            TextParsed::Fail(e) => r == Err::<Duration, GraphSonError>(e),
            TextParsed::Abort => false,
        },
{
    let cs = chars_of(s);
    let n = cs.len();
    if n == 0 || cs[0] != 'P' {
        return Err(GraphSonError::MissingPrefix);
    }
    let mut acc: i128 = 0;
    let mut date = true;
    let mut start: usize = 1;
    let mut i: usize = 1;
    proof {
        assert(cs@.subrange(1, 1) =~= Seq::<char>::empty());
    }
    while i < n
        invariant
            1 <= start <= i <= n,
            n == cs@.len(),
            cs@ == s@,
            s@.len() > 0 && s@[0] == 'P',
            -max_duration_nanos() <= acc <= max_duration_nanos(),
            parse_duration_text(s@) == match duration_text(
                cs@.skip(i as int),
                cs@.subrange(start as int, i as int),
                date,
                acc as int,
            ) {
                TextParsed::Done(t) => TextParsed::Done(duration_of_nanos(t)),
                TextParsed::Fail(e) => TextParsed::Fail(e),
                TextParsed::Abort => TextParsed::Abort,
            },
            !(parse_duration_text(s@) is Abort),
        decreases n - i,
    {
        let c = cs[i];
        let ghost t = cs@.skip(i as int);
        let ghost num = cs@.subrange(start as int, i as int);
        proof {
            assert(t[0] == c);
            assert(t.skip(1) =~= cs@.skip(i + 1));
        }
        if c == 'M' || c == 'D' || c == 'T' || c == 'H' || c == 'S' {
            if date {
                if c == 'D' {
                    let v = match parse_i64_chars(&cs, start, i) {
                        Some(v) => v,
                        None => return Err(GraphSonError::InvalidNumber),
                    };
                    acc = add_units_exec(acc, v, 86400);
                } else if c == 'T' {
                    date = false;
                } else {
                    return Err(GraphSonError::InvalidDesignator);
                }
            } else if c == 'H' || c == 'M' {
                let v = match parse_i64_chars(&cs, start, i) {
                    Some(v) => v,
                    None => return Err(GraphSonError::InvalidNumber),
                };
                let unit: i128 = if c == 'H' { 3600 } else { 60 };
                acc = add_units_exec(acc, v, unit);
            } else if c == 'S' {
                acc = match add_seconds_exec(acc, &cs, start, i) {
                    Some(a) => a,
                    None => return Err(GraphSonError::InvalidNumber),
                };
            } else {
                return Err(GraphSonError::InvalidDesignator);
            }
            start = i + 1;
            proof {
                assert(cs@.subrange(start as int, i + 1) =~= Seq::<char>::empty());
            }
        } else {
            proof {
                assert(num.push(c) =~= cs@.subrange(start as int, i + 1));
            }
        }
        i = i + 1;
    }
    if start < n {
        return Err(GraphSonError::InvalidDesignator);
    }
    proof {
        assert(cs@.subrange(start as int, i as int) =~= Seq::<char>::empty());
    }
    Ok(duration_from_nanos(acc))
}

} // verus!
