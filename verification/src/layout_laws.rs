//! The layout of the GraphBinary forms of the date, time and duration types: each is the
//! forms of its parts, in the order that the Gremlin server writes and reads them.

use vstd::prelude::*;
use crate::codec::{fq_bytes, Encode, PartialEncode};
use crate::value::{value_bytes, GValue};
use crate::duration::{duration_partial_bytes, Duration};
use crate::extended::{
    Instant, LocalDate, LocalDateTime, LocalTime, MonthDay, OffsetDateTime, OffsetTime, Period,
    Year, YearMonth, ZoneOffset, ZonedDateTime,
};

verus! {

/// A time of day is written as the 64-bit count of nanoseconds in its whole seconds since
/// midnight.
pub proof fn lemma_local_time_layout(t: LocalTime)
    ensures
        t.spec_partial_bytes() == (((t.secs as int) * 1_000_000_000) as i64).spec_partial_bytes(),
{
}

/// A date is written as its year (32 bits), then its month and its day (a byte each).
pub proof fn lemma_local_date_layout(d: LocalDate)
    ensures
        d.spec_partial_bytes() == d.year.spec_partial_bytes() + d.month.spec_partial_bytes()
            + d.day.spec_partial_bytes(),
{
    assert(d.spec_partial_bytes() =~= d.year.spec_partial_bytes() + d.month.spec_partial_bytes()
        + d.day.spec_partial_bytes());
}

/// A date and time is written as its date, then its time of day.
pub proof fn lemma_local_date_time_layout(dt: LocalDateTime)
    ensures
        dt.spec_partial_bytes() == dt.date.spec_partial_bytes() + dt.time.spec_partial_bytes(),
{
}

/// An offset is written as its difference from UTC in seconds (32 bits).
pub proof fn lemma_zone_offset_layout(o: ZoneOffset)
    ensures
        o.spec_partial_bytes() == o.local_minus_utc.spec_partial_bytes(),
{
}

/// A time with an offset is written as its time of day, then its offset.
pub proof fn lemma_offset_time_layout(t: OffsetTime)
    ensures
        t.spec_partial_bytes() == t.time.spec_partial_bytes() + t.offset.spec_partial_bytes(),
{
}

/// A date and time with an offset is written as its local date and time, then its offset.
pub proof fn lemma_offset_date_time_layout(t: OffsetDateTime)
    ensures
        t.spec_partial_bytes() == t.local.spec_partial_bytes() + t.offset.spec_partial_bytes(),
{
}

/// A zoned date and time is written as its date and time with offset.
pub proof fn lemma_zoned_date_time_layout(z: ZonedDateTime)
    ensures
        z.spec_partial_bytes() == z.0.spec_partial_bytes(),
{
}

/// An instant is written as its seconds (64 bits), then its nanoseconds (32 bits).
pub proof fn lemma_instant_layout(t: Instant)
    ensures
        t.spec_partial_bytes() == t.secs.spec_partial_bytes() + t.nanos.spec_partial_bytes(),
{
}

/// A day of a month is written as its month, then its day.
pub proof fn lemma_month_day_layout(md: MonthDay)
    ensures
        md.spec_partial_bytes() == md.month.spec_partial_bytes() + md.day.spec_partial_bytes(),
{
    assert(md.spec_partial_bytes() =~= md.month.spec_partial_bytes() + md.day.spec_partial_bytes());
}

/// A year is written as its number (32 bits).
pub proof fn lemma_year_layout(y: Year)
    ensures
        y.spec_partial_bytes() == y.0.spec_partial_bytes(),
{
}

/// A month of a year is written as its year (32 bits), then its month (a byte).
pub proof fn lemma_year_month_layout(ym: YearMonth)
    ensures
        ym.spec_partial_bytes() == ym.year.spec_partial_bytes() + ym.month.spec_partial_bytes(),
{
}

/// A period is written as its years, then its months, then its days (32 bits each).
pub proof fn lemma_period_layout(p: Period)
    ensures
        p.spec_partial_bytes() == p.years.spec_partial_bytes() + p.months.spec_partial_bytes()
            + p.days.spec_partial_bytes(),
{
}

/// A duration is written as its seconds (64 bits), then its nanoseconds (32 bits).
pub proof fn lemma_duration_layout(d: Duration)
    ensures
        duration_partial_bytes(d) == d.secs.spec_partial_bytes() + d.nanos.spec_partial_bytes(),
{
}

/// The full form of a `Instant` is its type code, the set flag, then its partial form.
pub proof fn lemma_instant_full_bytes(x: Instant)
    ensures
        x.spec_bytes() == seq![Instant::spec_type_code(), 0x00u8] + x.spec_partial_bytes(),
{
}

/// The full form of a `MonthDay` is its type code, the set flag, then its partial form.
pub proof fn lemma_month_day_full_bytes(x: MonthDay)
    ensures
        x.spec_bytes() == seq![MonthDay::spec_type_code(), 0x00u8] + x.spec_partial_bytes(),
{
}

/// The full form of a `Year` is its type code, the set flag, then its partial form.
pub proof fn lemma_year_full_bytes(x: Year)
    ensures
        x.spec_bytes() == seq![Year::spec_type_code(), 0x00u8] + x.spec_partial_bytes(),
{
}

/// The full form of a `YearMonth` is its type code, the set flag, then its partial form.
pub proof fn lemma_year_month_full_bytes(x: YearMonth)
    ensures
        x.spec_bytes() == seq![YearMonth::spec_type_code(), 0x00u8] + x.spec_partial_bytes(),
{
}

/// The full form of a `Period` is its type code, the set flag, then its partial form.
pub proof fn lemma_period_full_bytes(x: Period)
    ensures
        x.spec_bytes() == seq![Period::spec_type_code(), 0x00u8] + x.spec_partial_bytes(),
{
}

/// The full form of a `LocalDate` is its type code, the set flag, then its partial form.
pub proof fn lemma_local_date_full_bytes(x: LocalDate)
    ensures
        x.spec_bytes() == seq![LocalDate::spec_type_code(), 0x00u8] + x.spec_partial_bytes(),
{
}

/// The full form of a `LocalTime` is its type code, the set flag, then its partial form.
pub proof fn lemma_local_time_full_bytes(x: LocalTime)
    ensures
        x.spec_bytes() == seq![LocalTime::spec_type_code(), 0x00u8] + x.spec_partial_bytes(),
{
}

/// The full form of a `LocalDateTime` is its type code, the set flag, then its partial form.
pub proof fn lemma_local_date_time_full_bytes(x: LocalDateTime)
    ensures
        x.spec_bytes() == seq![LocalDateTime::spec_type_code(), 0x00u8] + x.spec_partial_bytes(),
{
}

/// The full form of a `ZoneOffset` is its type code, the set flag, then its partial form.
pub proof fn lemma_zone_offset_full_bytes(x: ZoneOffset)
    ensures
        x.spec_bytes() == seq![ZoneOffset::spec_type_code(), 0x00u8] + x.spec_partial_bytes(),
{
}

/// The full form of a `OffsetTime` is its type code, the set flag, then its partial form.
pub proof fn lemma_offset_time_full_bytes(x: OffsetTime)
    ensures
        x.spec_bytes() == seq![OffsetTime::spec_type_code(), 0x00u8] + x.spec_partial_bytes(),
{
}

/// The full form of a `OffsetDateTime` is its type code, the set flag, then its partial form.
pub proof fn lemma_offset_date_time_full_bytes(x: OffsetDateTime)
    ensures
        x.spec_bytes() == seq![OffsetDateTime::spec_type_code(), 0x00u8] + x.spec_partial_bytes(),
{
}

/// The full form of a `ZonedDateTime` is its type code, the set flag, then its partial form.
pub proof fn lemma_zoned_date_time_full_bytes(x: ZonedDateTime)
    ensures
        x.spec_bytes() == seq![ZonedDateTime::spec_type_code(), 0x00u8] + x.spec_partial_bytes(),
{
}

/// The GraphBinary form of each kind of value starts with the type code that the Gremlin
/// server gives that kind, then the value flag: set (0x00) for a value, null (0x01) for the
/// null value.
pub proof fn lemma_value_type_codes(g: GValue)
    ensures
        value_bytes(g).len() >= 2,
        value_bytes(g)[0] == match g {
            GValue::Int(_) => 0x01u8,
            GValue::Long(_) => 0x02u8,
            GValue::Str(_) => 0x03u8,
            GValue::Date(_) => 0x04u8,
            GValue::Timestamp(_) => 0x05u8,
            GValue::Class(_) => 0x06u8,
            GValue::Double(_) => 0x07u8,
            GValue::Float(_) => 0x08u8,
            GValue::List(_) => 0x09u8,
            GValue::MapValue(_) => 0x0au8,
            GValue::SetValue(_) => 0x0bu8,
            GValue::Uuid(_) => 0x0cu8,
            GValue::Edge { .. } => 0x0du8,
            GValue::Path { .. } => 0x0eu8,
            GValue::Property { .. } => 0x0fu8,
            GValue::Vertex { .. } => 0x11u8,
            GValue::VertexProperty { .. } => 0x12u8,
            GValue::Barrier(_) => 0x13u8,
            GValue::Binding(..) => 0x14u8,
            GValue::Cardinality(_) => 0x16u8,
            GValue::Column(_) => 0x17u8,
            GValue::Direction(_) => 0x18u8,
            GValue::Operator(_) => 0x19u8,
            GValue::Order(_) => 0x1au8,
            GValue::Pick(_) => 0x1bu8,
            GValue::Pop(_) => 0x1cu8,
            GValue::Lambda(_) => 0x1du8,
            GValue::Scope(_) => 0x1fu8,
            GValue::T(_) => 0x20u8,
            GValue::Traverser(..) => 0x21u8,
            GValue::Byte(_) => 0x24u8,
            GValue::ByteBuffer(_) => 0x25u8,
            GValue::Short(_) => 0x26u8,
            GValue::Boolean(_) => 0x27u8,
            GValue::BulkSet(_) => 0x2au8,
            GValue::Merge(_) => 0x2eu8,
            GValue::Null => 0xfeu8,
            GValue::Char(_) => 0x80u8,
        },
        value_bytes(g)[1] == if g is Null { 0x01u8 } else { 0x00u8 },
{
    reveal_with_fuel(value_bytes, 1);
    match g {
        GValue::Int(_) => {
            let b = value_bytes(g);
            assert(b =~= seq![0x01u8, 0x00u8] + b.subrange(2, b.len() as int));
        },
        GValue::Long(_) => {
            let b = value_bytes(g);
            assert(b =~= seq![0x02u8, 0x00u8] + b.subrange(2, b.len() as int));
        },
        GValue::Str(_) => {
            let b = value_bytes(g);
            assert(b =~= seq![0x03u8, 0x00u8] + b.subrange(2, b.len() as int));
        },
        GValue::Date(_) => {
            let b = value_bytes(g);
            assert(b =~= seq![0x04u8, 0x00u8] + b.subrange(2, b.len() as int));
        },
        GValue::Timestamp(_) => {
            let b = value_bytes(g);
            assert(b =~= seq![0x05u8, 0x00u8] + b.subrange(2, b.len() as int));
        },
        GValue::Class(_) => {
            let b = value_bytes(g);
            assert(b =~= seq![0x06u8, 0x00u8] + b.subrange(2, b.len() as int));
        },
        GValue::Double(_) => {
            let b = value_bytes(g);
            assert(b =~= seq![0x07u8, 0x00u8] + b.subrange(2, b.len() as int));
        },
        GValue::Float(_) => {
            let b = value_bytes(g);
            assert(b =~= seq![0x08u8, 0x00u8] + b.subrange(2, b.len() as int));
        },
        GValue::List(_) => {
            let b = value_bytes(g);
            assert(b =~= seq![0x09u8, 0x00u8] + b.subrange(2, b.len() as int));
        },
        GValue::MapValue(_) => {
            let b = value_bytes(g);
            assert(b =~= seq![0x0au8, 0x00u8] + b.subrange(2, b.len() as int));
        },
        GValue::SetValue(_) => {
            let b = value_bytes(g);
            assert(b =~= seq![0x0bu8, 0x00u8] + b.subrange(2, b.len() as int));
        },
        GValue::Uuid(_) => {
            let b = value_bytes(g);
            assert(b =~= seq![0x0cu8, 0x00u8] + b.subrange(2, b.len() as int));
        },
        GValue::Edge { .. } => {
            let b = value_bytes(g);
            assert(b =~= seq![0x0du8, 0x00u8] + b.subrange(2, b.len() as int));
        },
        GValue::Path { .. } => {
            let b = value_bytes(g);
            assert(b =~= seq![0x0eu8, 0x00u8] + b.subrange(2, b.len() as int));
        },
        GValue::Property { .. } => {
            let b = value_bytes(g);
            assert(b =~= seq![0x0fu8, 0x00u8] + b.subrange(2, b.len() as int));
        },
        GValue::Vertex { .. } => {
            let b = value_bytes(g);
            assert(b =~= seq![0x11u8, 0x00u8] + b.subrange(2, b.len() as int));
        },
        GValue::VertexProperty { .. } => {
            let b = value_bytes(g);
            assert(b =~= seq![0x12u8, 0x00u8] + b.subrange(2, b.len() as int));
        },
        GValue::Barrier(_) => {
            let b = value_bytes(g);
            assert(b =~= seq![0x13u8, 0x00u8] + b.subrange(2, b.len() as int));
        },
        GValue::Binding(..) => {
            let b = value_bytes(g);
            assert(b =~= seq![0x14u8, 0x00u8] + b.subrange(2, b.len() as int));
        },
        GValue::Cardinality(_) => {
            let b = value_bytes(g);
            assert(b =~= seq![0x16u8, 0x00u8] + b.subrange(2, b.len() as int));
        },
        GValue::Column(_) => {
            let b = value_bytes(g);
            assert(b =~= seq![0x17u8, 0x00u8] + b.subrange(2, b.len() as int));
        },
        GValue::Direction(_) => {
            let b = value_bytes(g);
            assert(b =~= seq![0x18u8, 0x00u8] + b.subrange(2, b.len() as int));
        },
        GValue::Operator(_) => {
            let b = value_bytes(g);
            assert(b =~= seq![0x19u8, 0x00u8] + b.subrange(2, b.len() as int));
        },
        GValue::Order(_) => {
            let b = value_bytes(g);
            assert(b =~= seq![0x1au8, 0x00u8] + b.subrange(2, b.len() as int));
        },
        GValue::Pick(_) => {
            let b = value_bytes(g);
            assert(b =~= seq![0x1bu8, 0x00u8] + b.subrange(2, b.len() as int));
        },
        GValue::Pop(_) => {
            let b = value_bytes(g);
            assert(b =~= seq![0x1cu8, 0x00u8] + b.subrange(2, b.len() as int));
        },
        GValue::Lambda(_) => {
            let b = value_bytes(g);
            assert(b =~= seq![0x1du8, 0x00u8] + b.subrange(2, b.len() as int));
        },
        GValue::Scope(_) => {
            let b = value_bytes(g);
            assert(b =~= seq![0x1fu8, 0x00u8] + b.subrange(2, b.len() as int));
        },
        GValue::T(_) => {
            let b = value_bytes(g);
            assert(b =~= seq![0x20u8, 0x00u8] + b.subrange(2, b.len() as int));
        },
        GValue::Traverser(..) => {
            let b = value_bytes(g);
            assert(b =~= seq![0x21u8, 0x00u8] + b.subrange(2, b.len() as int));
        },
        GValue::Byte(_) => {
            let b = value_bytes(g);
            assert(b =~= seq![0x24u8, 0x00u8] + b.subrange(2, b.len() as int));
        },
        GValue::ByteBuffer(_) => {
            let b = value_bytes(g);
            assert(b =~= seq![0x25u8, 0x00u8] + b.subrange(2, b.len() as int));
        },
        GValue::Short(_) => {
            let b = value_bytes(g);
            assert(b =~= seq![0x26u8, 0x00u8] + b.subrange(2, b.len() as int));
        },
        GValue::Boolean(_) => {
            let b = value_bytes(g);
            assert(b =~= seq![0x27u8, 0x00u8] + b.subrange(2, b.len() as int));
        },
        GValue::BulkSet(_) => {
            let b = value_bytes(g);
            assert(b =~= seq![0x2au8, 0x00u8] + b.subrange(2, b.len() as int));
        },
        GValue::Merge(_) => {
            let b = value_bytes(g);
            assert(b =~= seq![0x2eu8, 0x00u8] + b.subrange(2, b.len() as int));
        },
        GValue::Null => {},
        GValue::Char(_) => {
            let b = value_bytes(g);
            assert(b =~= seq![0x80u8, 0x00u8] + b.subrange(2, b.len() as int));
        },
    }
}

} // verus!
