use vstd::prelude::*;
use crate::binary::{
    be_i32, be_i64, decode_i32_at, decode_i64_at, lemma_parse_i32_prefix, lemma_parse_i64_prefix,
    parse_i32, parse_i64, push_i32, push_i64,
};
use crate::codec::{
    decode_fq, decoded, encode_fq, fq_bytes, lemma_fq_roundtrip, parse_fq, Codec, Decode, Encode,
    Parsed, PartialDecode, PartialEncode,
};
use crate::core_type::CoreType;
use crate::error::{DecodeError, GraphSonError};

verus! {

// ---------------------------------------------------------------------------
// Calendar rules
// ---------------------------------------------------------------------------

/// The earliest year of a calendar date (262144 BCE).
pub open spec fn min_year() -> int {
    -262143
}

/// The latest year of a calendar date.
pub open spec fn max_year() -> int {
    262142
}

/// Leap years of the proleptic Gregorian calendar.
pub open spec fn is_leap_year(y: int) -> bool {
    y % 4 == 0 && (y % 100 != 0 || y % 400 == 0)
}

/// The number of days of month `m` (1 to 12) of year `y`.
pub open spec fn days_in_month(y: int, m: int) -> int {
    if m == 2 {
        if is_leap_year(y) {
            29
        } else {
            28
        }
    } else if m == 4 || m == 6 || m == 9 || m == 11 {
        30
    } else {
        31
    }
}

/// The calendar date exists and lies in the range of dates that can be held.
pub open spec fn date_exists(y: int, m: int, d: int) -> bool {
    &&& min_year() <= y <= max_year()
    &&& 1 <= m <= 12
    &&& 1 <= d <= days_in_month(y, m)
}

/// A time of day given as seconds since midnight and a fraction in nanoseconds; a fraction
/// of one second or more stands for a leap second, which only the last second of a minute
/// has.
pub open spec fn time_exists(secs: int, frac: int) -> bool {
    &&& 0 <= secs < 86400
    &&& 0 <= frac < 2_000_000_000
    &&& (frac < 1_000_000_000 || secs % 60 == 59)
}

/// A difference of local time from UTC, in seconds, of less than a day either way.
pub open spec fn offset_exists(secs: int) -> bool {
    -86400 < secs < 86400
}

/// chrono's `NaiveDate::from_ymd_opt`: it gives a date exactly when the month is 1 to 12, the
/// day exists in that month of that year of the proleptic Gregorian calendar, and the year
/// lies in the range of `NaiveDate`.
#[verifier::external_body]
fn chrono_date_exists(year: i32, month: u32, day: u32) -> (r: bool)
    ensures
        r == date_exists(year as int, month as int, day as int),
{
    chrono::NaiveDate::from_ymd_opt(year, month, day).is_some()
}

/// chrono's `NaiveTime::from_num_seconds_from_midnight_opt`: it gives a time exactly when the
/// seconds are under 86400 and the nanoseconds under 2e9, and nanoseconds of 1e9 or more (a
/// leap second) only in the last second of a minute.
#[verifier::external_body]
fn chrono_time_exists(secs: u32, nano: u32) -> (r: bool)
    ensures
        r == time_exists(secs as int, nano as int),
{
    chrono::NaiveTime::from_num_seconds_from_midnight_opt(secs, nano).is_some()
}

/// chrono's `FixedOffset::east_opt`: it gives an offset exactly when the seconds lie strictly
/// between -86400 and 86400.
#[verifier::external_body]
fn chrono_offset_exists(secs: i32) -> (r: bool)
    ensures
        r == offset_exists(secs as int),
{
    chrono::FixedOffset::east_opt(secs).is_some()
}

/// Division of integers that rounds toward zero.
pub open spec fn trunc_div(a: int, d: int) -> int {
    if a >= 0 {
        a / d
    } else {
        -((-a) / d)
    }
}

// ---------------------------------------------------------------------------
// Types
// ---------------------------------------------------------------------------

/// A point in time: seconds since the Unix epoch and nanoseconds.
#[derive(Debug, Clone, Copy, PartialEq, Eq, PartialOrd, Ord, Hash)]
pub struct Instant {
    pub secs: i64,
    pub nanos: i32,
}

impl Instant {
    /// The instant `secs` seconds and `nanos` nanoseconds after the Unix epoch.
    pub fn new(secs: i64, nanos: i32) -> (r: Instant)
        ensures
            r.secs == secs,
            r.nanos == nanos,
    {
        Instant { secs, nanos }
    }
}

/// A day of a month, without a year.
#[derive(Debug, Clone, Copy, PartialEq, Eq, PartialOrd, Ord, Hash)]
pub struct MonthDay {
    pub month: u8,
    pub day: u8,
}

/// A year.
#[derive(Debug, Clone, Copy, PartialEq, Eq, PartialOrd, Ord, Hash)]
pub struct Year(pub i32);

/// A month of a year.
#[derive(Debug, Clone, Copy, PartialEq, Eq, PartialOrd, Ord, Hash)]
pub struct YearMonth {
    pub year: i32,
    pub month: u8,
}

/// An amount of time in years, months and days.
#[derive(Debug, Clone, Copy, PartialEq, Eq, PartialOrd, Ord, Hash)]
pub struct Period {
    pub years: i32,
    pub months: i32,
    pub days: i32,
}

impl Period {
    /// The period of the given years, months and days.
    pub fn new(years: i32, months: i32, days: i32) -> (r: Period)
        ensures
            r == (Period { years, months, days }),
    {
        Period { years, months, days }
    }

    /// The empty period.
    pub fn zero() -> (r: Period)
        ensures
            r == (Period { years: 0, months: 0, days: 0 }),
    {
        Period::new(0, 0, 0)
    }
}

/// A date of the proleptic Gregorian calendar. It is valid when `date_exists` holds of its
/// fields; `from_ymd_opt` and the decoder give only valid dates.
#[derive(Debug, Clone, Copy, PartialEq, Eq, PartialOrd, Ord, Hash)]
pub struct LocalDate {
    pub year: i32,
    pub month: u8,
    pub day: u8,
}

impl LocalDate {
    /// Whether the fields name a date that exists.
    pub open spec fn wf(&self) -> bool {
        date_exists(self.year as int, self.month as int, self.day as int)
    }

    /// The date of the given year, month and day, if it exists.
    pub fn from_ymd_opt(year: i32, month: u32, day: u32) -> (r: Option<LocalDate>)
        ensures
            r is Some <==> date_exists(year as int, month as int, day as int),
            r matches Some(d) ==> d.wf() && d.year == year && d.month == month && d.day == day,
    {
        if chrono_date_exists(year, month, day) {
            Some(LocalDate { year, month: month as u8, day: day as u8 })
        } else {
            None
        }
    }
}

/// A time of day: seconds since midnight and a fraction in nanoseconds (of one second or more
/// in a leap second). It is valid when `time_exists` holds of its fields.
#[derive(Debug, Clone, Copy, PartialEq, Eq, PartialOrd, Ord, Hash)]
pub struct LocalTime {
    pub secs: u32,
    pub frac: u32,
}

impl LocalTime {
    /// Whether the fields name a time of day.
    pub open spec fn wf(&self) -> bool {
        time_exists(self.secs as int, self.frac as int)
    }

    /// The time `secs` seconds and `nano` nanoseconds after midnight, if it exists.
    pub fn from_num_seconds_from_midnight_opt(secs: u32, nano: u32) -> (r: Option<LocalTime>)
        ensures
            r is Some <==> time_exists(secs as int, nano as int),
            r matches Some(t) ==> t.wf() && t.secs == secs && t.frac == nano,
    {
        if chrono_time_exists(secs, nano) {
            Some(LocalTime { secs, frac: nano })
        } else {
            None
        }
    }
}

/// A date and a time of day, without a time zone.
#[derive(Debug, Clone, Copy, PartialEq, Eq, PartialOrd, Ord, Hash)]
pub struct LocalDateTime {
    pub date: LocalDate,
    pub time: LocalTime,
}

/// A difference of local time from UTC, in seconds; valid when under a day either way.
#[derive(Debug, Clone, Copy, PartialEq, Eq, PartialOrd, Ord, Hash)]
pub struct ZoneOffset {
    pub local_minus_utc: i32,
}

impl ZoneOffset {
    /// Whether the offset is under a day either way.
    pub open spec fn wf(&self) -> bool {
        offset_exists(self.local_minus_utc as int)
    }

    /// The offset of `secs` seconds east of UTC, if it is under a day either way.
    pub fn east_opt(secs: i32) -> (r: Option<ZoneOffset>)
        ensures
            r is Some <==> offset_exists(secs as int),
            r matches Some(o) ==> o.local_minus_utc == secs,
    {
        if chrono_offset_exists(secs) {
            Some(ZoneOffset { local_minus_utc: secs })
        } else {
            None
        }
    }
}

/// A time of day with its offset from UTC.
#[derive(Debug, Clone, Copy, PartialEq, Eq, PartialOrd, Ord, Hash)]
pub struct OffsetTime {
    pub time: LocalTime,
    pub offset: ZoneOffset,
}

/// A local date and time with its offset from UTC.
#[derive(Debug, Clone, Copy, PartialEq, Eq, PartialOrd, Ord, Hash)]
pub struct OffsetDateTime {
    pub local: LocalDateTime,
    pub offset: ZoneOffset,
}

/// A date and time in a time zone, given by its offset from UTC.
#[derive(Debug, Clone, Copy, PartialEq, Eq, PartialOrd, Ord, Hash)]
pub struct ZonedDateTime(pub OffsetDateTime);

impl DeepView for Instant {
    type V = Instant;

    open spec fn deep_view(&self) -> Instant {
        *self
    }
}

impl DeepView for MonthDay {
    type V = MonthDay;

    open spec fn deep_view(&self) -> MonthDay {
        *self
    }
}

impl DeepView for Year {
    type V = Year;

    open spec fn deep_view(&self) -> Year {
        *self
    }
}

impl DeepView for YearMonth {
    type V = YearMonth;

    open spec fn deep_view(&self) -> YearMonth {
        *self
    }
}

impl DeepView for Period {
    type V = Period;

    open spec fn deep_view(&self) -> Period {
        *self
    }
}

impl DeepView for LocalDate {
    type V = LocalDate;

    open spec fn deep_view(&self) -> LocalDate {
        *self
    }
}

impl DeepView for LocalTime {
    type V = LocalTime;

    open spec fn deep_view(&self) -> LocalTime {
        *self
    }
}

impl DeepView for LocalDateTime {
    type V = LocalDateTime;

    open spec fn deep_view(&self) -> LocalDateTime {
        *self
    }
}

impl DeepView for ZoneOffset {
    type V = ZoneOffset;

    open spec fn deep_view(&self) -> ZoneOffset {
        *self
    }
}

impl DeepView for OffsetTime {
    type V = OffsetTime;

    open spec fn deep_view(&self) -> OffsetTime {
        *self
    }
}

impl DeepView for OffsetDateTime {
    type V = OffsetDateTime;

    open spec fn deep_view(&self) -> OffsetDateTime {
        *self
    }
}

impl DeepView for ZonedDateTime {
    type V = ZonedDateTime;

    open spec fn deep_view(&self) -> ZonedDateTime {
        *self
    }
}


// ---------------------------------------------------------------------------
// Partial forms
// ---------------------------------------------------------------------------

/// A date: the year as a 32-bit integer, then the month and the day as one byte each.
pub open spec fn date_bytes(d: LocalDate) -> Seq<u8> {
    be_i32(d.year) + seq![d.month, d.day]
}

/// A time of day: the whole seconds since midnight, in nanoseconds, as a 64-bit integer; the
/// fraction of a second is not written.
pub open spec fn time_bytes(t: LocalTime) -> Seq<u8> {
    be_i64((t.secs as int * 1_000_000_000) as i64)
}

/// A date and time: the date, then the time of day.
pub open spec fn date_time_bytes(dt: LocalDateTime) -> Seq<u8> {
    date_bytes(dt.date) + time_bytes(dt.time)
}

/// A date and time with an offset: the local date and time, then the offset in seconds.
pub open spec fn offset_date_time_bytes(odt: OffsetDateTime) -> Seq<u8> {
    date_time_bytes(odt.local) + be_i32(odt.offset.local_minus_utc)
}

/// Reads a date: a 32-bit year, a month byte and a day byte; a date that does not exist is
/// `InvalidValue`.
pub open spec fn parse_date(s: Seq<u8>) -> Parsed<LocalDate> {
    match parse_i32(s) {
        Parsed::Done(year, _) => {
            if s.len() < 6 {
                Parsed::Fail(DecodeError::UnexpectedEof)
            } else if date_exists(year as int, s[4] as int, s[5] as int) {
                Parsed::Done(LocalDate { year, month: s[4], day: s[5] }, 6)
            } else {
                Parsed::Fail(DecodeError::InvalidValue)
            }
        },
        Parsed::Fail(e) => Parsed::Fail(e),
        Parsed::Abort => Parsed::Abort,
    }
}

/// The time of day read from a count `n` of nanoseconds: `n` is split, rounding toward zero,
/// into whole seconds and the rest, each taken modulo 2^32 as an unsigned 32-bit number.
pub open spec fn time_from_nanos(n: i64) -> (u32, u32) {
    let q = trunc_div(n as int, 1_000_000_000);
    let r = n as int - q * 1_000_000_000;
    (q as u32, r as u32)
}

/// Reads a time of day: a 64-bit count of nanoseconds since midnight; one that names no
/// time of day is `InvalidValue`.
pub open spec fn parse_time(s: Seq<u8>) -> Parsed<LocalTime> {
    match parse_i64(s) {
        Parsed::Done(n, k) => {
            let (secs, frac) = time_from_nanos(n);
            if time_exists(secs as int, frac as int) {
                Parsed::Done(LocalTime { secs, frac }, k)
            } else {
                Parsed::Fail(DecodeError::InvalidValue)
            }
        },
        Parsed::Fail(e) => Parsed::Fail(e),
        Parsed::Abort => Parsed::Abort,
    }
}

/// Reads a date and time: a date, then a time of day.
pub open spec fn parse_date_time(s: Seq<u8>) -> Parsed<LocalDateTime> {
    match parse_date(s) {
        Parsed::Done(date, n1) => match parse_time(s.skip(n1)) {
            Parsed::Done(time, n2) => Parsed::Done(LocalDateTime { date, time }, n1 + n2),
            Parsed::Fail(e) => Parsed::Fail(e),
            Parsed::Abort => Parsed::Abort,
        },
        Parsed::Fail(e) => Parsed::Fail(e),
        Parsed::Abort => Parsed::Abort,
    }
}

/// Reads an offset: a 32-bit number of seconds; one of a day or more is `InvalidValue`.
pub open spec fn parse_offset(s: Seq<u8>) -> Parsed<ZoneOffset> {
    match parse_i32(s) {
        Parsed::Done(secs, k) => {
            if offset_exists(secs as int) {
                Parsed::Done(ZoneOffset { local_minus_utc: secs }, k)
            } else {
                Parsed::Fail(DecodeError::InvalidValue)
            }
        },
        Parsed::Fail(e) => Parsed::Fail(e),
        Parsed::Abort => Parsed::Abort,
    }
}

/// The UTC time of a local date and time at an offset falls outside the range of dates:
/// the local time is on the first day of the range and earlier than the offset, or on the
/// last day and later than a day less the offset.
pub open spec fn utc_out_of_range(local: LocalDateTime, offset: ZoneOffset) -> bool {
    let t = local.time.secs as int - offset.local_minus_utc as int;
    ||| (local.date.year == min_year() && local.date.month == 1 && local.date.day == 1 && t < 0)
    ||| (local.date.year == max_year() && local.date.month == 12 && local.date.day == 31 && t
        >= 86400)
}

/// Reads a date and time with an offset: a date and time, then an offset. One whose UTC
/// time falls outside the range of dates is not read (the reader gives up).
pub open spec fn parse_offset_date_time(s: Seq<u8>) -> Parsed<OffsetDateTime> {
    match parse_date_time(s) {
        Parsed::Done(local, n1) => match parse_offset(s.skip(n1)) {
            Parsed::Done(offset, n2) => {
                if utc_out_of_range(local, offset) {
                    Parsed::Abort
                } else {
                    Parsed::Done(OffsetDateTime { local, offset }, n1 + n2)
                }
            },
            Parsed::Fail(e) => Parsed::Fail(e),
            Parsed::Abort => Parsed::Abort,
        },
        Parsed::Fail(e) => Parsed::Fail(e),
        Parsed::Abort => Parsed::Abort,
    }
}

/// Reads an offset time: a time of day, then an offset.
pub open spec fn parse_offset_time(s: Seq<u8>) -> Parsed<OffsetTime> {
    match parse_time(s) {
        Parsed::Done(time, n1) => match parse_offset(s.skip(n1)) {
            Parsed::Done(offset, n2) => Parsed::Done(OffsetTime { time, offset }, n1 + n2),
            Parsed::Fail(e) => Parsed::Fail(e),
            Parsed::Abort => Parsed::Abort,
        },
        Parsed::Fail(e) => Parsed::Fail(e),
        Parsed::Abort => Parsed::Abort,
    }
}

/// Reads two 32-bit integers.
pub open spec fn parse_i32_pair(s: Seq<u8>) -> Parsed<(i32, i32)> {
    match parse_i32(s) {
        Parsed::Done(a, n1) => match parse_i32(s.skip(n1)) {
            Parsed::Done(b, n2) => Parsed::Done((a, b), n1 + n2),
            Parsed::Fail(e) => Parsed::Fail(e),
            Parsed::Abort => Parsed::Abort,
        },
        Parsed::Fail(e) => Parsed::Fail(e),
        Parsed::Abort => Parsed::Abort,
    }
}

// ---------------------------------------------------------------------------
// Readers and writers of the parts
// ---------------------------------------------------------------------------

fn encode_date(d: &LocalDate, out: &mut Vec<u8>)
    ensures
        final(out)@ == old(out)@ + date_bytes(*d),
{
    push_i32(out, d.year);
    out.push(d.month);
    out.push(d.day);
    assert(out@ =~= old(out)@ + date_bytes(*d));
}

fn encode_time(t: &LocalTime, out: &mut Vec<u8>)
    ensures
        final(out)@ == old(out)@ + time_bytes(*t),
{
    let n: i64 = (t.secs as i64) * 1_000_000_000i64;
    push_i64(out, n);
}

fn encode_date_time(dt: &LocalDateTime, out: &mut Vec<u8>)
    ensures
        final(out)@ == old(out)@ + date_time_bytes(*dt),
{
    encode_date(&dt.date, out);
    encode_time(&dt.time, out);
    assert(out@ =~= old(out)@ + date_time_bytes(*dt));
}

fn encode_offset_date_time(odt: &OffsetDateTime, out: &mut Vec<u8>)
    ensures
        final(out)@ == old(out)@ + offset_date_time_bytes(*odt),
{
    encode_date_time(&odt.local, out);
    push_i32(out, odt.offset.local_minus_utc);
    assert(out@ =~= old(out)@ + offset_date_time_bytes(*odt));
}

fn decode_date_at(buf: &[u8], pos: usize) -> (r: Result<(LocalDate, usize), DecodeError>)
    requires
        pos <= buf@.len(),
    ensures
        decoded(parse_date(buf@.skip(pos as int)), r, pos as int, buf@.len() as int),
{
    let (year, p) = match decode_i32_at(buf, pos) {
        Ok(x) => x,
        Err(e) => return Err(e),
    };
    if buf.len() - p < 2 {
        return Err(DecodeError::UnexpectedEof);
    }
    let month = buf[p];
    let day = buf[p + 1];
    if chrono_date_exists(year, month as u32, day as u32) {
        Ok((LocalDate { year, month, day }, p + 2))
    } else {
        Err(DecodeError::InvalidValue)
    }
}

fn decode_time_at(buf: &[u8], pos: usize) -> (r: Result<(LocalTime, usize), DecodeError>)
    requires
        pos <= buf@.len(),
    ensures
        decoded(parse_time(buf@.skip(pos as int)), r, pos as int, buf@.len() as int),
{
    let (n, p) = match decode_i64_at(buf, pos) {
        Ok(x) => x,
        Err(e) => return Err(e),
    };
    let q: i64 = match n.checked_div(1_000_000_000i64) {
        Some(q) => q,
        None => 0,
    };
    proof {
        let a = n as int;
        let qq = trunc_div(a, 1_000_000_000);
        assert(q as int == qq);
        if a >= 0 {
            assert(0 <= qq * 1_000_000_000 <= a) by (nonlinear_arith)
                requires
                    a >= 0,
                    qq == a / 1_000_000_000,
            ;
        } else {
            assert(a <= qq * 1_000_000_000 <= 0) by (nonlinear_arith)
                requires
                    a < 0,
                    qq == -((-a) / 1_000_000_000),
            ;
        }
    }
    let r: i64 = n - q * 1_000_000_000i64;
    let secs: u32 = q as u32;
    let frac: u32 = r as u32;
    if chrono_time_exists(secs, frac) {
        Ok((LocalTime { secs, frac }, p))
    } else {
        Err(DecodeError::InvalidValue)
    }
}

fn decode_date_time_at(buf: &[u8], pos: usize) -> (r: Result<(LocalDateTime, usize), DecodeError>)
    requires
        pos <= buf@.len(),
    ensures
        decoded(parse_date_time(buf@.skip(pos as int)), r, pos as int, buf@.len() as int),
{
    let (date, p1) = match decode_date_at(buf, pos) {
        Ok(x) => x,
        Err(e) => return Err(e),
    };
    proof {
        assert(buf@.skip(pos as int).skip(p1 - pos) =~= buf@.skip(p1 as int));
    }
    let (time, p2) = match decode_time_at(buf, p1) {
        Ok(x) => x,
        Err(e) => return Err(e),
    };
    Ok((LocalDateTime { date, time }, p2))
}

fn decode_offset_at(buf: &[u8], pos: usize) -> (r: Result<(ZoneOffset, usize), DecodeError>)
    requires
        pos <= buf@.len(),
    ensures
        decoded(parse_offset(buf@.skip(pos as int)), r, pos as int, buf@.len() as int),
{
    let (secs, p) = match decode_i32_at(buf, pos) {
        Ok(x) => x,
        Err(e) => return Err(e),
    };
    if chrono_offset_exists(secs) {
        Ok((ZoneOffset { local_minus_utc: secs }, p))
    } else {
        Err(DecodeError::InvalidValue)
    }
}

fn decode_offset_date_time_at(buf: &[u8], pos: usize) -> (r: Result<(OffsetDateTime, usize), DecodeError>)
    requires
        pos <= buf@.len(),
        !(parse_offset_date_time(buf@.skip(pos as int)) is Abort),
    ensures
        decoded(parse_offset_date_time(buf@.skip(pos as int)), r, pos as int, buf@.len() as int),
{
    let (local, p1) = match decode_date_time_at(buf, pos) {
        Ok(x) => x,
        Err(e) => return Err(e),
    };
    proof {
        assert(buf@.skip(pos as int).skip(p1 - pos) =~= buf@.skip(p1 as int));
    }
    let (offset, p2) = match decode_offset_at(buf, p1) {
        Ok(x) => x,
        Err(e) => return Err(e),
    };
    Ok((OffsetDateTime { local, offset }, p2))
}

fn decode_i32_pair_at(buf: &[u8], pos: usize) -> (r: Result<((i32, i32), usize), DecodeError>)
    requires
        pos <= buf@.len(),
    ensures
        decoded(parse_i32_pair(buf@.skip(pos as int)), r, pos as int, buf@.len() as int),
{
    let (a, p1) = match decode_i32_at(buf, pos) {
        Ok(x) => x,
        Err(e) => return Err(e),
    };
    proof {
        assert(buf@.skip(pos as int).skip(p1 - pos) =~= buf@.skip(p1 as int));
    }
    let (b, p2) = match decode_i32_at(buf, p1) {
        Ok(x) => x,
        Err(e) => return Err(e),
    };
    Ok(((a, b), p2))
}

// ---------------------------------------------------------------------------
// Round trips of the parts
// ---------------------------------------------------------------------------

proof fn lemma_date_roundtrip(d: LocalDate, rest: Seq<u8>)
    requires
        d.wf(),
    ensures
        parse_date(date_bytes(d) + rest) == Parsed::Done(d, 6),
{
    let s = date_bytes(d) + rest;
    assert(s =~= be_i32(d.year) + (seq![d.month, d.day] + rest));
    lemma_parse_i32_prefix(d.year, seq![d.month, d.day] + rest);
    assert(s[4] == d.month && s[5] == d.day);
}

proof fn lemma_time_roundtrip(t: LocalTime, rest: Seq<u8>)
    requires
        t.secs < 86400,
        t.frac == 0,
    ensures
        parse_time(time_bytes(t) + rest) == Parsed::Done(t, 8),
{
    let n = (t.secs as int * 1_000_000_000) as i64;
    lemma_parse_i64_prefix(n, rest);
    assert(n as int == t.secs as int * 1_000_000_000);
    let q = trunc_div(n as int, 1_000_000_000);
    assert(q == t.secs as int) by (nonlinear_arith)
        requires
            q == (t.secs as int * 1_000_000_000) / 1_000_000_000,
            t.secs >= 0,
    ;
}

proof fn lemma_date_time_roundtrip(dt: LocalDateTime, rest: Seq<u8>)
    requires
        dt.date.wf(),
        dt.time.secs < 86400,
        dt.time.frac == 0,
    ensures
        parse_date_time(date_time_bytes(dt) + rest) == Parsed::Done(dt, 14),
{
    let a = date_bytes(dt.date);
    let b = time_bytes(dt.time);
    let s = date_time_bytes(dt) + rest;
    assert(s =~= a + (b + rest));
    lemma_date_roundtrip(dt.date, b + rest);
    assert(s.skip(6) =~= b + rest);
    lemma_time_roundtrip(dt.time, rest);
}

proof fn lemma_offset_roundtrip(o: ZoneOffset, rest: Seq<u8>)
    requires
        o.wf(),
    ensures
        parse_offset(be_i32(o.local_minus_utc) + rest) == Parsed::Done(o, 4),
{
    lemma_parse_i32_prefix(o.local_minus_utc, rest);
}

proof fn lemma_offset_date_time_roundtrip(odt: OffsetDateTime, rest: Seq<u8>)
    requires
        odt.local.date.wf(),
        odt.local.time.secs < 86400,
        odt.local.time.frac == 0,
        odt.offset.wf(),
        !utc_out_of_range(odt.local, odt.offset),
    ensures
        parse_offset_date_time(offset_date_time_bytes(odt) + rest) == Parsed::Done(odt, 18),
{
    let a = date_time_bytes(odt.local);
    let b = be_i32(odt.offset.local_minus_utc);
    let s = offset_date_time_bytes(odt) + rest;
    assert(s =~= a + (b + rest));
    lemma_date_time_roundtrip(odt.local, b + rest);
    assert(s.skip(14) =~= b + rest);
    lemma_offset_roundtrip(odt.offset, rest);
}

proof fn lemma_i32_pair_roundtrip(a: i32, b: i32, rest: Seq<u8>)
    ensures
        parse_i32_pair(be_i32(a) + be_i32(b) + rest) == Parsed::Done((a, b), 8),
{
    let s = be_i32(a) + be_i32(b) + rest;
    assert(s =~= be_i32(a) + (be_i32(b) + rest));
    lemma_parse_i32_prefix(a, be_i32(b) + rest);
    assert(s.skip(4) =~= be_i32(b) + rest);
    lemma_parse_i32_prefix(b, rest);
}

impl Encode for Instant {
    open spec fn spec_bytes(&self) -> Seq<u8> {
        fq_bytes(0x83u8, be_i64(self.secs) + be_i32(self.nanos))
    }

    fn encode(&self, out: &mut Vec<u8>) {
        encode_fq(self, out);
    }
}

impl PartialEncode for Instant {
    open spec fn spec_type_code() -> u8 {
        0x83u8
    }

    open spec fn spec_partial_bytes(&self) -> Seq<u8> {
        be_i64(self.secs) + be_i32(self.nanos)
    }

    fn type_code() -> (code: u8) {
        CoreType::Instant.code()
    }

    fn partial_encode(&self, out: &mut Vec<u8>) {
        push_i64(out, self.secs);
        push_i32(out, self.nanos);
        assert(out@ =~= old(out)@ + (be_i64(self.secs) + be_i32(self.nanos)));
    }
}

impl Decode for Instant {
    open spec fn spec_parse(s: Seq<u8>) -> Parsed<Instant> {
        parse_fq::<Instant>(s)
    }

    fn decode(buf: &[u8], pos: usize) -> (r: Result<(Instant, usize), DecodeError>) {
        decode_fq(buf, pos)
    }
}

impl PartialDecode for Instant {
    open spec fn spec_expected_type_code() -> u8 {
        0x83u8
    }

    open spec fn spec_parse_partial(s: Seq<u8>) -> Parsed<Instant> {
        match parse_i64(s) {
            Parsed::Done(secs, n1) => match parse_i32(s.skip(n1)) {
                Parsed::Done(nanos, n2) => Parsed::Done(Instant { secs, nanos }, n1 + n2),
                Parsed::Fail(e) => Parsed::Fail(e),
                Parsed::Abort => Parsed::Abort,
            },
            Parsed::Fail(e) => Parsed::Fail(e),
            Parsed::Abort => Parsed::Abort,
        }
    }

    fn expected_type_code() -> (code: u8) {
        CoreType::Instant.code()
    }

    fn partial_decode(buf: &[u8], pos: usize) -> (r: Result<(Instant, usize), DecodeError>) {
        let (secs, p1) = match decode_i64_at(buf, pos) {
            Ok(x) => x,
            Err(e) => return Err(e),
        };
        proof {
            assert(buf@.skip(pos as int).skip(p1 - pos) =~= buf@.skip(p1 as int));
        }
        let (nanos, p2) = match decode_i32_at(buf, p1) {
            Ok(x) => x,
            Err(e) => return Err(e),
        };
        Ok((Instant { secs, nanos }, p2))
    }
}

impl Codec for Instant {
    open spec fn spec_wf(&self) -> bool {
        true
    }

    proof fn lemma_roundtrip(&self, rest: Seq<u8>) {
        let s = be_i64(self.secs) + be_i32(self.nanos) + rest;
        assert(s =~= be_i64(self.secs) + (be_i32(self.nanos) + rest));
        lemma_parse_i64_prefix(self.secs, be_i32(self.nanos) + rest);
        assert(s.skip(8) =~= be_i32(self.nanos) + rest);
        lemma_parse_i32_prefix(self.nanos, rest);
        lemma_fq_roundtrip(self, rest);
    }
}


impl Encode for MonthDay {
    open spec fn spec_bytes(&self) -> Seq<u8> {
        fq_bytes(0x87u8, seq![self.month, self.day])
    }

    fn encode(&self, out: &mut Vec<u8>) {
        encode_fq(self, out);
    }
}

impl PartialEncode for MonthDay {
    open spec fn spec_type_code() -> u8 {
        0x87u8
    }

    open spec fn spec_partial_bytes(&self) -> Seq<u8> {
        seq![self.month, self.day]
    }

    fn type_code() -> (code: u8) {
        CoreType::MonthDay.code()
    }

    fn partial_encode(&self, out: &mut Vec<u8>) {
        out.push(self.month);
        out.push(self.day);
        assert(out@ =~= old(out)@ + seq![self.month, self.day]);
    }
}

impl Decode for MonthDay {
    open spec fn spec_parse(s: Seq<u8>) -> Parsed<MonthDay> {
        parse_fq::<MonthDay>(s)
    }

    fn decode(buf: &[u8], pos: usize) -> (r: Result<(MonthDay, usize), DecodeError>) {
        decode_fq(buf, pos)
    }
}

impl PartialDecode for MonthDay {
    open spec fn spec_expected_type_code() -> u8 {
        0x87u8
    }

    open spec fn spec_parse_partial(s: Seq<u8>) -> Parsed<MonthDay> {
        if s.len() < 2 {
            Parsed::Fail(DecodeError::UnexpectedEof)
        } else {
            Parsed::Done(MonthDay { month: s[0], day: s[1] }, 2)
        }
    }

    fn expected_type_code() -> (code: u8) {
        CoreType::MonthDay.code()
    }

    fn partial_decode(buf: &[u8], pos: usize) -> (r: Result<(MonthDay, usize), DecodeError>) {
        if buf.len() - pos < 2 {
            return Err(DecodeError::UnexpectedEof);
        }
        Ok((MonthDay { month: buf[pos], day: buf[pos + 1] }, pos + 2))
    }
}

impl Codec for MonthDay {
    open spec fn spec_wf(&self) -> bool {
        true
    }

    proof fn lemma_roundtrip(&self, rest: Seq<u8>) {
        let s = seq![self.month, self.day] + rest;
        assert(s[0] == self.month && s[1] == self.day);
        lemma_fq_roundtrip(self, rest);
    }
}


impl Encode for Year {
    open spec fn spec_bytes(&self) -> Seq<u8> {
        fq_bytes(0x8bu8, be_i32(self.0))
    }

    fn encode(&self, out: &mut Vec<u8>) {
        encode_fq(self, out);
    }
}

impl PartialEncode for Year {
    open spec fn spec_type_code() -> u8 {
        0x8bu8
    }

    open spec fn spec_partial_bytes(&self) -> Seq<u8> {
        be_i32(self.0)
    }

    fn type_code() -> (code: u8) {
        CoreType::Year.code()
    }

    fn partial_encode(&self, out: &mut Vec<u8>) {
        push_i32(out, self.0);
    }
}

impl Decode for Year {
    open spec fn spec_parse(s: Seq<u8>) -> Parsed<Year> {
        parse_fq::<Year>(s)
    }

    fn decode(buf: &[u8], pos: usize) -> (r: Result<(Year, usize), DecodeError>) {
        decode_fq(buf, pos)
    }
}

impl PartialDecode for Year {
    open spec fn spec_expected_type_code() -> u8 {
        0x8bu8
    }

    open spec fn spec_parse_partial(s: Seq<u8>) -> Parsed<Year> {
        match parse_i32(s) {
            Parsed::Done(y, n) => Parsed::Done(Year(y), n),
            Parsed::Fail(e) => Parsed::Fail(e),
            Parsed::Abort => Parsed::Abort,
        }
    }

    fn expected_type_code() -> (code: u8) {
        CoreType::Year.code()
    }

    fn partial_decode(buf: &[u8], pos: usize) -> (r: Result<(Year, usize), DecodeError>) {
        match decode_i32_at(buf, pos) {
            Ok((y, p)) => Ok((Year(y), p)),
            Err(e) => Err(e),
        }
    }
}

impl Codec for Year {
    open spec fn spec_wf(&self) -> bool {
        true
    }

    proof fn lemma_roundtrip(&self, rest: Seq<u8>) {
        lemma_parse_i32_prefix(self.0, rest);
        lemma_fq_roundtrip(self, rest);
    }
}


impl Encode for YearMonth {
    open spec fn spec_bytes(&self) -> Seq<u8> {
        fq_bytes(0x8cu8, be_i32(self.year) + seq![self.month])
    }

    fn encode(&self, out: &mut Vec<u8>) {
        encode_fq(self, out);
    }
}

impl PartialEncode for YearMonth {
    open spec fn spec_type_code() -> u8 {
        0x8cu8
    }

    open spec fn spec_partial_bytes(&self) -> Seq<u8> {
        be_i32(self.year) + seq![self.month]
    }

    fn type_code() -> (code: u8) {
        CoreType::YearMonth.code()
    }

    fn partial_encode(&self, out: &mut Vec<u8>) {
        push_i32(out, self.year);
        out.push(self.month);
        assert(out@ =~= old(out)@ + (be_i32(self.year) + seq![self.month]));
    }
}

impl Decode for YearMonth {
    open spec fn spec_parse(s: Seq<u8>) -> Parsed<YearMonth> {
        parse_fq::<YearMonth>(s)
    }

    fn decode(buf: &[u8], pos: usize) -> (r: Result<(YearMonth, usize), DecodeError>) {
        decode_fq(buf, pos)
    }
}

impl PartialDecode for YearMonth {
    open spec fn spec_expected_type_code() -> u8 {
        0x8cu8
    }

    open spec fn spec_parse_partial(s: Seq<u8>) -> Parsed<YearMonth> {
        match parse_i32(s) {
            Parsed::Done(year, n) => {
                if s.len() < 5 {
                    Parsed::Fail(DecodeError::UnexpectedEof)
                } else {
                    Parsed::Done(YearMonth { year, month: s[4] }, n + 1)
                }
            },
            Parsed::Fail(e) => Parsed::Fail(e),
            Parsed::Abort => Parsed::Abort,
        }
    }

    fn expected_type_code() -> (code: u8) {
        CoreType::YearMonth.code()
    }

    fn partial_decode(buf: &[u8], pos: usize) -> (r: Result<(YearMonth, usize), DecodeError>) {
        let (year, p) = match decode_i32_at(buf, pos) {
            Ok(x) => x,
            Err(e) => return Err(e),
        };
        if buf.len() - p < 1 {
            return Err(DecodeError::UnexpectedEof);
        }
        Ok((YearMonth { year, month: buf[p] }, p + 1))
    }
}

impl Codec for YearMonth {
    open spec fn spec_wf(&self) -> bool {
        true
    }

    proof fn lemma_roundtrip(&self, rest: Seq<u8>) {
        let s = be_i32(self.year) + seq![self.month] + rest;
        assert(s =~= be_i32(self.year) + (seq![self.month] + rest));
        lemma_parse_i32_prefix(self.year, seq![self.month] + rest);
        assert(s[4] == self.month);
        lemma_fq_roundtrip(self, rest);
    }
}


impl Encode for Period {
    open spec fn spec_bytes(&self) -> Seq<u8> {
        fq_bytes(0x8au8, be_i32(self.years) + be_i32(self.months) + be_i32(self.days))
    }

    fn encode(&self, out: &mut Vec<u8>) {
        encode_fq(self, out);
    }
}

impl PartialEncode for Period {
    open spec fn spec_type_code() -> u8 {
        0x8au8
    }

    open spec fn spec_partial_bytes(&self) -> Seq<u8> {
        be_i32(self.years) + be_i32(self.months) + be_i32(self.days)
    }

    fn type_code() -> (code: u8) {
        CoreType::Period.code()
    }

    fn partial_encode(&self, out: &mut Vec<u8>) {
        push_i32(out, self.years);
        push_i32(out, self.months);
        push_i32(out, self.days);
        assert(out@ =~= old(out)@ + (be_i32(self.years) + be_i32(self.months) + be_i32(self.days)));
    }
}

impl Decode for Period {
    open spec fn spec_parse(s: Seq<u8>) -> Parsed<Period> {
        parse_fq::<Period>(s)
    }

    fn decode(buf: &[u8], pos: usize) -> (r: Result<(Period, usize), DecodeError>) {
        decode_fq(buf, pos)
    }
}

impl PartialDecode for Period {
    open spec fn spec_expected_type_code() -> u8 {
        0x8au8
    }

    open spec fn spec_parse_partial(s: Seq<u8>) -> Parsed<Period> {
        match parse_i32(s) {
            Parsed::Done(years, n1) => match parse_i32_pair(s.skip(n1)) {
                Parsed::Done((months, days), n2) => Parsed::Done(Period { years, months, days }, n1 + n2),
                Parsed::Fail(e) => Parsed::Fail(e),
                Parsed::Abort => Parsed::Abort,
            },
            Parsed::Fail(e) => Parsed::Fail(e),
            Parsed::Abort => Parsed::Abort,
        }
    }

    fn expected_type_code() -> (code: u8) {
        CoreType::Period.code()
    }

    fn partial_decode(buf: &[u8], pos: usize) -> (r: Result<(Period, usize), DecodeError>) {
        let (years, p1) = match decode_i32_at(buf, pos) {
            Ok(x) => x,
            Err(e) => return Err(e),
        };
        proof {
            assert(buf@.skip(pos as int).skip(p1 - pos) =~= buf@.skip(p1 as int));
        }
        let ((months, days), p2) = match decode_i32_pair_at(buf, p1) {
            Ok(x) => x,
            Err(e) => return Err(e),
        };
        Ok((Period { years, months, days }, p2))
    }
}

impl Codec for Period {
    open spec fn spec_wf(&self) -> bool {
        true
    }

    proof fn lemma_roundtrip(&self, rest: Seq<u8>) {
        let s = be_i32(self.years) + be_i32(self.months) + be_i32(self.days) + rest;
        assert(s =~= be_i32(self.years) + (be_i32(self.months) + be_i32(self.days) + rest));
        lemma_parse_i32_prefix(self.years, be_i32(self.months) + be_i32(self.days) + rest);
        assert(s.skip(4) =~= be_i32(self.months) + be_i32(self.days) + rest);
        lemma_i32_pair_roundtrip(self.months, self.days, rest);
        lemma_fq_roundtrip(self, rest);
    }
}


impl Encode for LocalDate {
    open spec fn spec_bytes(&self) -> Seq<u8> {
        fq_bytes(0x84u8, date_bytes(*self))
    }

    fn encode(&self, out: &mut Vec<u8>) {
        encode_fq(self, out);
    }
}

impl PartialEncode for LocalDate {
    open spec fn spec_type_code() -> u8 {
        0x84u8
    }

    open spec fn spec_partial_bytes(&self) -> Seq<u8> {
        date_bytes(*self)
    }

    fn type_code() -> (code: u8) {
        CoreType::LocalDate.code()
    }

    fn partial_encode(&self, out: &mut Vec<u8>) {
        encode_date(self, out);
    }
}

impl Decode for LocalDate {
    open spec fn spec_parse(s: Seq<u8>) -> Parsed<LocalDate> {
        parse_fq::<LocalDate>(s)
    }

    fn decode(buf: &[u8], pos: usize) -> (r: Result<(LocalDate, usize), DecodeError>) {
        decode_fq(buf, pos)
    }
}

impl PartialDecode for LocalDate {
    open spec fn spec_expected_type_code() -> u8 {
        0x84u8
    }

    open spec fn spec_parse_partial(s: Seq<u8>) -> Parsed<LocalDate> {
        parse_date(s)
    }

    fn expected_type_code() -> (code: u8) {
        CoreType::LocalDate.code()
    }

    fn partial_decode(buf: &[u8], pos: usize) -> (r: Result<(LocalDate, usize), DecodeError>) {
        decode_date_at(buf, pos)
    }
}

impl Codec for LocalDate {
    open spec fn spec_wf(&self) -> bool {
        self.wf()
    }

    proof fn lemma_roundtrip(&self, rest: Seq<u8>) {
        lemma_date_roundtrip(*self, rest);
        lemma_fq_roundtrip(self, rest);
    }
}


impl Encode for LocalTime {
    open spec fn spec_bytes(&self) -> Seq<u8> {
        fq_bytes(0x86u8, time_bytes(*self))
    }

    fn encode(&self, out: &mut Vec<u8>) {
        encode_fq(self, out);
    }
}

impl PartialEncode for LocalTime {
    open spec fn spec_type_code() -> u8 {
        0x86u8
    }

    open spec fn spec_partial_bytes(&self) -> Seq<u8> {
        time_bytes(*self)
    }

    fn type_code() -> (code: u8) {
        CoreType::LocalTime.code()
    }

    fn partial_encode(&self, out: &mut Vec<u8>) {
        encode_time(self, out);
    }
}

impl Decode for LocalTime {
    open spec fn spec_parse(s: Seq<u8>) -> Parsed<LocalTime> {
        parse_fq::<LocalTime>(s)
    }

    fn decode(buf: &[u8], pos: usize) -> (r: Result<(LocalTime, usize), DecodeError>) {
        decode_fq(buf, pos)
    }
}

impl PartialDecode for LocalTime {
    open spec fn spec_expected_type_code() -> u8 {
        0x86u8
    }

    open spec fn spec_parse_partial(s: Seq<u8>) -> Parsed<LocalTime> {
        parse_time(s)
    }

    fn expected_type_code() -> (code: u8) {
        CoreType::LocalTime.code()
    }

    fn partial_decode(buf: &[u8], pos: usize) -> (r: Result<(LocalTime, usize), DecodeError>) {
        decode_time_at(buf, pos)
    }
}

impl Codec for LocalTime {
    open spec fn spec_wf(&self) -> bool {
        self.secs < 86400 && self.frac == 0
    }

    proof fn lemma_roundtrip(&self, rest: Seq<u8>) {
        lemma_time_roundtrip(*self, rest);
        lemma_fq_roundtrip(self, rest);
    }
}


impl Encode for LocalDateTime {
    open spec fn spec_bytes(&self) -> Seq<u8> {
        fq_bytes(0x85u8, date_time_bytes(*self))
    }

    fn encode(&self, out: &mut Vec<u8>) {
        encode_fq(self, out);
    }
}

impl PartialEncode for LocalDateTime {
    open spec fn spec_type_code() -> u8 {
        0x85u8
    }

    open spec fn spec_partial_bytes(&self) -> Seq<u8> {
        date_time_bytes(*self)
    }

    fn type_code() -> (code: u8) {
        CoreType::LocalDateTime.code()
    }

    fn partial_encode(&self, out: &mut Vec<u8>) {
        encode_date_time(self, out);
    }
}

impl Decode for LocalDateTime {
    open spec fn spec_parse(s: Seq<u8>) -> Parsed<LocalDateTime> {
        parse_fq::<LocalDateTime>(s)
    }

    fn decode(buf: &[u8], pos: usize) -> (r: Result<(LocalDateTime, usize), DecodeError>) {
        decode_fq(buf, pos)
    }
}

impl PartialDecode for LocalDateTime {
    open spec fn spec_expected_type_code() -> u8 {
        0x85u8
    }

    open spec fn spec_parse_partial(s: Seq<u8>) -> Parsed<LocalDateTime> {
        parse_date_time(s)
    }

    fn expected_type_code() -> (code: u8) {
        CoreType::LocalDateTime.code()
    }

    fn partial_decode(buf: &[u8], pos: usize) -> (r: Result<(LocalDateTime, usize), DecodeError>) {
        decode_date_time_at(buf, pos)
    }
}

impl Codec for LocalDateTime {
    open spec fn spec_wf(&self) -> bool {
        self.date.wf() && self.time.secs < 86400 && self.time.frac == 0
    }

    proof fn lemma_roundtrip(&self, rest: Seq<u8>) {
        lemma_date_time_roundtrip(*self, rest);
        lemma_fq_roundtrip(self, rest);
    }
}


impl Encode for ZoneOffset {
    open spec fn spec_bytes(&self) -> Seq<u8> {
        fq_bytes(0x8eu8, be_i32(self.local_minus_utc))
    }

    fn encode(&self, out: &mut Vec<u8>) {
        encode_fq(self, out);
    }
}

impl PartialEncode for ZoneOffset {
    open spec fn spec_type_code() -> u8 {
        0x8eu8
    }

    open spec fn spec_partial_bytes(&self) -> Seq<u8> {
        be_i32(self.local_minus_utc)
    }

    fn type_code() -> (code: u8) {
        CoreType::ZoneOffset.code()
    }

    fn partial_encode(&self, out: &mut Vec<u8>) {
        push_i32(out, self.local_minus_utc);
    }
}

impl Decode for ZoneOffset {
    open spec fn spec_parse(s: Seq<u8>) -> Parsed<ZoneOffset> {
        parse_fq::<ZoneOffset>(s)
    }

    fn decode(buf: &[u8], pos: usize) -> (r: Result<(ZoneOffset, usize), DecodeError>) {
        decode_fq(buf, pos)
    }
}

impl PartialDecode for ZoneOffset {
    open spec fn spec_expected_type_code() -> u8 {
        0x8eu8
    }

    open spec fn spec_parse_partial(s: Seq<u8>) -> Parsed<ZoneOffset> {
        parse_offset(s)
    }

    fn expected_type_code() -> (code: u8) {
        CoreType::ZoneOffset.code()
    }

    fn partial_decode(buf: &[u8], pos: usize) -> (r: Result<(ZoneOffset, usize), DecodeError>) {
        decode_offset_at(buf, pos)
    }
}

impl Codec for ZoneOffset {
    open spec fn spec_wf(&self) -> bool {
        self.wf()
    }

    proof fn lemma_roundtrip(&self, rest: Seq<u8>) {
        lemma_offset_roundtrip(*self, rest);
        lemma_fq_roundtrip(self, rest);
    }
}


impl Encode for OffsetTime {
    open spec fn spec_bytes(&self) -> Seq<u8> {
        fq_bytes(0x89u8, time_bytes(self.time) + be_i32(self.offset.local_minus_utc))
    }

    fn encode(&self, out: &mut Vec<u8>) {
        encode_fq(self, out);
    }
}

impl PartialEncode for OffsetTime {
    open spec fn spec_type_code() -> u8 {
        0x89u8
    }

    open spec fn spec_partial_bytes(&self) -> Seq<u8> {
        time_bytes(self.time) + be_i32(self.offset.local_minus_utc)
    }

    fn type_code() -> (code: u8) {
        CoreType::OffsetTime.code()
    }

    fn partial_encode(&self, out: &mut Vec<u8>) {
        encode_time(&self.time, out);
        push_i32(out, self.offset.local_minus_utc);
        assert(out@ =~= old(out)@ + (time_bytes(self.time) + be_i32(self.offset.local_minus_utc)));
    }
}

impl Decode for OffsetTime {
    open spec fn spec_parse(s: Seq<u8>) -> Parsed<OffsetTime> {
        parse_fq::<OffsetTime>(s)
    }

    fn decode(buf: &[u8], pos: usize) -> (r: Result<(OffsetTime, usize), DecodeError>) {
        decode_fq(buf, pos)
    }
}

impl PartialDecode for OffsetTime {
    open spec fn spec_expected_type_code() -> u8 {
        0x89u8
    }

    open spec fn spec_parse_partial(s: Seq<u8>) -> Parsed<OffsetTime> {
        parse_offset_time(s)
    }

    fn expected_type_code() -> (code: u8) {
        CoreType::OffsetTime.code()
    }

    fn partial_decode(buf: &[u8], pos: usize) -> (r: Result<(OffsetTime, usize), DecodeError>) {
        let (time, p1) = match decode_time_at(buf, pos) {
            Ok(x) => x,
            Err(e) => return Err(e),
        };
        proof {
            assert(buf@.skip(pos as int).skip(p1 - pos) =~= buf@.skip(p1 as int));
        }
        let (offset, p2) = match decode_offset_at(buf, p1) {
            Ok(x) => x,
            Err(e) => return Err(e),
        };
        Ok((OffsetTime { time, offset }, p2))
    }
}

impl Codec for OffsetTime {
    open spec fn spec_wf(&self) -> bool {
        self.time.secs < 86400 && self.time.frac == 0 && self.offset.wf()
    }

    proof fn lemma_roundtrip(&self, rest: Seq<u8>) {
        let a = time_bytes(self.time);
        let b = be_i32(self.offset.local_minus_utc);
        let s = a + b + rest;
        assert(s =~= a + (b + rest));
        lemma_time_roundtrip(self.time, b + rest);
        assert(s.skip(8) =~= b + rest);
        lemma_offset_roundtrip(self.offset, rest);
        lemma_fq_roundtrip(self, rest);
    }
}


impl Encode for OffsetDateTime {
    open spec fn spec_bytes(&self) -> Seq<u8> {
        fq_bytes(0x88u8, offset_date_time_bytes(*self))
    }

    fn encode(&self, out: &mut Vec<u8>) {
        encode_fq(self, out);
    }
}

impl PartialEncode for OffsetDateTime {
    open spec fn spec_type_code() -> u8 {
        0x88u8
    }

    open spec fn spec_partial_bytes(&self) -> Seq<u8> {
        offset_date_time_bytes(*self)
    }

    fn type_code() -> (code: u8) {
        CoreType::OffsetDateTime.code()
    }

    fn partial_encode(&self, out: &mut Vec<u8>) {
        encode_offset_date_time(self, out);
    }
}

impl Decode for OffsetDateTime {
    open spec fn spec_parse(s: Seq<u8>) -> Parsed<OffsetDateTime> {
        parse_fq::<OffsetDateTime>(s)
    }

    fn decode(buf: &[u8], pos: usize) -> (r: Result<(OffsetDateTime, usize), DecodeError>) {
        decode_fq(buf, pos)
    }
}

impl PartialDecode for OffsetDateTime {
    open spec fn spec_expected_type_code() -> u8 {
        0x88u8
    }

    open spec fn spec_parse_partial(s: Seq<u8>) -> Parsed<OffsetDateTime> {
        parse_offset_date_time(s)
    }

    fn expected_type_code() -> (code: u8) {
        CoreType::OffsetDateTime.code()
    }

    fn partial_decode(buf: &[u8], pos: usize) -> (r: Result<(OffsetDateTime, usize), DecodeError>) {
        decode_offset_date_time_at(buf, pos)
    }
}

impl Codec for OffsetDateTime {
    open spec fn spec_wf(&self) -> bool {
        self.local.date.wf() && self.local.time.secs < 86400 && self.local.time.frac == 0 && self.offset.wf() && !utc_out_of_range(self.local, self.offset)
    }

    proof fn lemma_roundtrip(&self, rest: Seq<u8>) {
        lemma_offset_date_time_roundtrip(*self, rest);
        lemma_fq_roundtrip(self, rest);
    }
}


impl Encode for ZonedDateTime {
    open spec fn spec_bytes(&self) -> Seq<u8> {
        fq_bytes(0x8du8, offset_date_time_bytes(self.0))
    }

    fn encode(&self, out: &mut Vec<u8>) {
        encode_fq(self, out);
    }
}

impl PartialEncode for ZonedDateTime {
    open spec fn spec_type_code() -> u8 {
        0x8du8
    }

    open spec fn spec_partial_bytes(&self) -> Seq<u8> {
        offset_date_time_bytes(self.0)
    }

    fn type_code() -> (code: u8) {
        CoreType::ZonedDateTime.code()
    }

    fn partial_encode(&self, out: &mut Vec<u8>) {
        encode_offset_date_time(&self.0, out);
    }
}

impl Decode for ZonedDateTime {
    open spec fn spec_parse(s: Seq<u8>) -> Parsed<ZonedDateTime> {
        parse_fq::<ZonedDateTime>(s)
    }

    fn decode(buf: &[u8], pos: usize) -> (r: Result<(ZonedDateTime, usize), DecodeError>) {
        decode_fq(buf, pos)
    }
}

impl PartialDecode for ZonedDateTime {
    open spec fn spec_expected_type_code() -> u8 {
        0x8du8
    }

    open spec fn spec_parse_partial(s: Seq<u8>) -> Parsed<ZonedDateTime> {
        match parse_offset_date_time(s) {
            Parsed::Done(odt, n) => Parsed::Done(ZonedDateTime(odt), n),
            Parsed::Fail(e) => Parsed::Fail(e),
            Parsed::Abort => Parsed::Abort,
        }
    }

    fn expected_type_code() -> (code: u8) {
        CoreType::ZonedDateTime.code()
    }

    fn partial_decode(buf: &[u8], pos: usize) -> (r: Result<(ZonedDateTime, usize), DecodeError>) {
        match decode_offset_date_time_at(buf, pos) {
            Ok((odt, p)) => Ok((ZonedDateTime(odt), p)),
            Err(e) => Err(e),
        }
    }
}

impl Codec for ZonedDateTime {
    open spec fn spec_wf(&self) -> bool {
        self.0.local.date.wf() && self.0.local.time.secs < 86400 && self.0.local.time.frac == 0 && self.0.offset.wf() && !utc_out_of_range(self.0.local, self.0.offset)
    }

    proof fn lemma_roundtrip(&self, rest: Seq<u8>) {
        lemma_offset_date_time_roundtrip(self.0, rest);
        lemma_fq_roundtrip(self, rest);
    }
}


// ---------------------------------------------------------------------------
// Periods in text
// ---------------------------------------------------------------------------

/// The outcome of reading a text: a value, an error, or no answer at all.
pub enum TextParsed<T> {
    Done(T),
    Fail(GraphSonError),
    /// Text on which the reader stops without an answer: a total that does not fit 32 bits,
    /// or a last character outside ASCII where a unit letter is expected.
    Abort,
}

/// A decimal digit.
pub open spec fn is_digit(c: char) -> bool {
    '0' <= c <= '9'
}

/// The value of a sequence of decimal digits, most significant first.
pub open spec fn digits_value(ds: Seq<char>) -> int
    decreases ds.len(),
{
    if ds.len() == 0 {
        0
    } else {
        digits_value(ds.drop_last()) * 10 + (ds.last() as int - '0' as int)
    }
}

/// Every character is a decimal digit.
pub open spec fn all_digits(ds: Seq<char>) -> bool {
    forall|i: int| 0 <= i < ds.len() ==> is_digit(#[trigger] ds[i])
}

/// The digits of a decimal integer: what follows its sign, if it has one.
pub open spec fn int_digits(cs: Seq<char>) -> Seq<char> {
    if cs.len() > 0 && (cs[0] == '-' || cs[0] == '+') {
        cs.skip(1)
    } else {
        cs
    }
}

/// A decimal integer: an optional sign `+` or `-`, then one or more digits.
pub open spec fn int_text_value(cs: Seq<char>) -> Option<int> {
    let ds = int_digits(cs);
    if ds.len() > 0 && all_digits(ds) {
        if cs[0] == '-' {
            Some(-digits_value(ds))
        } else {
            Some(digits_value(ds))
        }
    } else {
        None
    }
}

/// Whether `x` fits a 32-bit signed integer.
pub open spec fn fits_i32(x: int) -> bool {
    i32::MIN <= x <= i32::MAX
}

/// The 32-bit integer written in decimal in `cs`, as `str::parse::<i32>` reads it.
pub open spec fn parse_i32_text(cs: Seq<char>) -> Option<i32> {
    match int_text_value(cs) {
        Some(v) => if fits_i32(v) {
            Some(v as i32)
        } else {
            None
        },
        None => None,
    }
}

/// The letters that end a number in a period: years, months, weeks, days.
pub open spec fn is_designator(c: char) -> bool {
    c == 'Y' || c == 'M' || c == 'W' || c == 'D'
}

/// Adds `v` units named by `c` to a period: a week is seven days.
pub open spec fn period_add(p: Period, c: char, v: i32) -> TextParsed<Period> {
    if c == 'Y' {
        if fits_i32(p.years + v) {
            TextParsed::Done(Period { years: (p.years + v) as i32, months: p.months, days: p.days })
        } else {
            TextParsed::Abort
        }
    } else if c == 'M' {
        if fits_i32(p.months + v) {
            TextParsed::Done(Period { years: p.years, months: (p.months + v) as i32, days: p.days })
        } else {
            TextParsed::Abort
        }
    } else if c == 'W' {
        if fits_i32(v * 7) && fits_i32(p.days + v * 7) {
            TextParsed::Done(
                Period { years: p.years, months: p.months, days: (p.days + v * 7) as i32 },
            )
        } else {
            TextParsed::Abort
        }
    } else {
        if fits_i32(p.days + v) {
            TextParsed::Done(Period { years: p.years, months: p.months, days: (p.days + v) as i32 })
        } else {
            TextParsed::Abort
        }
    }
}

/// Reads the rest `t` of a period's text, where `num` holds the characters read since the
/// last unit letter and `acc` the period read so far. Each unit letter ends a number, which
/// is added to the period; characters after the last unit letter are an error.
pub open spec fn parse_period_text(t: Seq<char>, num: Seq<char>, acc: Period) -> TextParsed<Period>
    decreases t.len(),
{
    if t.len() == 0 {
        if num.len() == 0 {
            TextParsed::Done(acc)
        } else if (num.last() as int) < 128 {
            TextParsed::Fail(GraphSonError::InvalidDesignator)
        } else {
            TextParsed::Abort
        }
    } else if is_designator(t[0]) {
        match parse_i32_text(num) {
            None => TextParsed::Fail(GraphSonError::InvalidNumber),
            Some(v) => match period_add(acc, t[0], v) {
                TextParsed::Done(p) => parse_period_text(t.skip(1), seq![], p),
                TextParsed::Fail(e) => TextParsed::Fail(e),
                TextParsed::Abort => TextParsed::Abort,
            },
        }
    } else {
        parse_period_text(t.skip(1), num.push(t[0]), acc)
    }
}

/// Reads an ISO-8601 period such as `P2Y5M-1D`: the letter `P`, then numbers each followed
/// by a unit letter `Y`, `M`, `W` or `D`; units may repeat and add up.
pub open spec fn parse_period(s: Seq<char>) -> TextParsed<Period> {
    if s.len() == 0 || s[0] != 'P' {
        TextParsed::Fail(GraphSonError::MissingPrefix)
    } else {
        parse_period_text(s.skip(1), seq![], Period { years: 0, months: 0, days: 0 })
    }
}

/// Digits never lose value when more digits follow.
pub(crate) proof fn lemma_digits_value_grows(ds: Seq<char>, k: int)
    requires
        0 <= k <= ds.len(),
        forall|i: int| 0 <= i < ds.len() ==> is_digit(#[trigger] ds[i]),
    ensures
        digits_value(ds.subrange(0, k)) <= digits_value(ds),
        0 <= digits_value(ds.subrange(0, k)),
    decreases ds.len(),
{
    if k < ds.len() {
        let t = ds.drop_last();
        assert(t.subrange(0, k) =~= ds.subrange(0, k));
        lemma_digits_value_grows(t, k);
        lemma_digits_value_grows(t, t.len() as int);
        assert(t.subrange(0, t.len() as int) =~= t);
    } else {
        assert(ds.subrange(0, k) =~= ds);
        lemma_digits_value_nonneg(ds);
    }
}

pub(crate) proof fn lemma_digits_value_nonneg(ds: Seq<char>)
    requires
        forall|i: int| 0 <= i < ds.len() ==> is_digit(#[trigger] ds[i]),
    ensures
        0 <= digits_value(ds),
    decreases ds.len(),
{
    if ds.len() > 0 {
        lemma_digits_value_nonneg(ds.drop_last());
    }
}

/// The 32-bit integer written in decimal in `cs[from..to]`.
fn parse_i32_chars(cs: &Vec<char>, from: usize, to: usize) -> (r: Option<i32>)
    requires
        from <= to <= cs@.len(),
    ensures
        r == parse_i32_text(cs@.subrange(from as int, to as int)),
{
    let ghost t = cs@.subrange(from as int, to as int);
    if from == to {
        return None;
    }
    let first = cs[from];
    let neg = first == '-';
    let start: usize = if first == '-' || first == '+' {
        from + 1
    } else {
        from
    };
    let ghost ds = cs@.subrange(start as int, to as int);
    proof {
        if first == '-' || first == '+' {
            assert(ds =~= t.skip(1));
        } else {
            assert(ds =~= t);
        }
    }
    if start == to {
        return None;
    }
    let mut v: i64 = 0;
    let mut i: usize = start;
    while i < to
        invariant
            from <= start <= i <= to <= cs@.len(),
            t == cs@.subrange(from as int, to as int),
            t.len() > 0,
            t[0] == first,
            neg == (first == '-'),
            (first == '-' || first == '+') ==> ds == t.skip(1),
            !(first == '-' || first == '+') ==> ds == t,
            ds == cs@.subrange(start as int, to as int),
            v == digits_value(cs@.subrange(start as int, i as int)),
            0 <= v <= 2147483648,
            forall|k: int| start <= k < i ==> is_digit(#[trigger] cs@[k]),
        decreases to - i,
    {
        let c = cs[i];
        if !('0' <= c && c <= '9') {
            proof {
                assert(!is_digit(ds[i - start]));
                assert(int_digits(t) == ds);
                assert(!all_digits(ds));
            }
            return None;
        }
        let d: i64 = ((c as u32) - ('0' as u32)) as i64;
        let ghost pre = cs@.subrange(start as int, i as int);
        let ghost next = cs@.subrange(start as int, i + 1);
        proof {
            assert(next.drop_last() =~= pre);
            assert(next.last() == c);
        }
        let w: i64 = v * 10 + d;
        assert(w == digits_value(next));
        if w > 2147483648 {
            proof {
                assert(int_digits(t) == ds);
                if all_digits(ds) {
                    lemma_digits_value_grows(ds, i + 1 - start);
                    assert(ds.subrange(0, i + 1 - start) =~= next);
                }
            }
            return None;
        }
        v = w;
        i = i + 1;
    }
    proof {
        assert(cs@.subrange(start as int, i as int) =~= ds);
        assert forall|k: int| 0 <= k < ds.len() implies is_digit(#[trigger] ds[k]) by {
            assert(ds[k] == cs@[start + k]);
        }
        assert(all_digits(ds));
        assert(int_digits(t) == ds);
    }
    if neg {
        Some((0 - v) as i32)
    } else {
        if v > 2147483647 {
            None
        } else {
            Some(v as i32)
        }
    }
}

/// The characters of a text, in order.
pub(crate) fn chars_of(s: &str) -> (r: Vec<char>)
    ensures
        r@ == s@,
{
    let n = s.unicode_len();
    let mut v: Vec<char> = Vec::new();
    let mut i: usize = 0;
    while i < n
        invariant
            i <= n,
            n == s@.len(),
            v@ == s@.subrange(0, i as int),
        decreases n - i,
    {
        v.push(s.get_char(i));
        i = i + 1;
        assert(v@ =~= s@.subrange(0, i as int));
    }
    assert(v@ =~= s@);
    v
}

impl Period {
    /// Reads an ISO-8601 period such as `P2Y5M-1D` (see `parse_period`).
    pub fn parse(s: &str) -> (r: Result<Period, GraphSonError>)
        requires
            !(parse_period(s@) is Abort),
        ensures
            match parse_period(s@) {
                TextParsed::Done(p) => r == Ok::<Period, GraphSonError>(p),
                TextParsed::Fail(e) => r == Err::<Period, GraphSonError>(e),
                TextParsed::Abort => false,
            },
    {
        let cs = chars_of(s);
        let n = cs.len();
        if n == 0 || cs[0] != 'P' {
            return Err(GraphSonError::MissingPrefix);
        }
        let mut acc = Period::zero();
        let mut start: usize = 1;
        let mut i: usize = 1;
        proof {
            assert(cs@.subrange(1, 1) =~= Seq::<char>::empty());
        }
        while i < n
            invariant
                1 <= start <= i <= n,
                n == cs@.len(),
                cs@ == s@,
                s@.len() > 0 && s@[0] == 'P',
                parse_period(s@) == parse_period_text(cs@.skip(i as int), cs@.subrange(start as int, i as int), acc),
                !(parse_period(s@) is Abort),
            decreases n - i,
        {
            let c = cs[i];
            let ghost t = cs@.skip(i as int);
            let ghost num = cs@.subrange(start as int, i as int);
            proof {
                assert(t[0] == c);
                assert(t.skip(1) =~= cs@.skip(i + 1));
            }
            if c == 'Y' || c == 'M' || c == 'W' || c == 'D' {
                let v = match parse_i32_chars(&cs, start, i) {
                    Some(v) => v,
                    None => return Err(GraphSonError::InvalidNumber),
                };
                if c == 'Y' {
                    acc = Period { years: acc.years + v, months: acc.months, days: acc.days };
                } else if c == 'M' {
                    acc = Period { years: acc.years, months: acc.months + v, days: acc.days };
                } else if c == 'W' {
                    acc = Period { years: acc.years, months: acc.months, days: acc.days + v * 7 };
                } else {
                    acc = Period { years: acc.years, months: acc.months, days: acc.days + v };
                }
                start = i + 1;
                proof {
                    assert(cs@.subrange(start as int, i + 1) =~= Seq::<char>::empty());
                }
            } else {
                proof {
                    assert(num.push(c) =~= cs@.subrange(start as int, i + 1));
                }
            }
            i = i + 1;
        }
        if start < n {
            return Err(GraphSonError::InvalidDesignator);
        }
        proof {
            assert(cs@.subrange(start as int, i as int) =~= Seq::<char>::empty());
        }
        Ok(acc)
    }
}

} // verus!
