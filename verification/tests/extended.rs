use chrono::{Datelike, Timelike};
use gremlin_types::codec::{Decode, Encode};
use gremlin_types::error::{DecodeError, GraphSonError};
use gremlin_types::extended::{
    Instant, LocalDate, LocalDateTime, LocalTime, MonthDay, OffsetDateTime, OffsetTime, Period,
    Year, YearMonth, ZoneOffset, ZonedDateTime,
};

fn offset_date_time_of(text: &str) -> OffsetDateTime {
    let dt = chrono::DateTime::parse_from_rfc3339(text).unwrap();
    let local = dt.naive_local();
    OffsetDateTime {
        local: LocalDateTime {
            date: LocalDate::from_ymd_opt(local.year(), local.month(), local.day()).unwrap(),
            time: LocalTime::from_num_seconds_from_midnight_opt(
                local.num_seconds_from_midnight(),
                local.nanosecond(),
            )
            .unwrap(),
        },
        offset: ZoneOffset::east_opt(dt.offset().local_minus_utc()).unwrap(),
    }
}

#[test]
fn chrono_local_date_encode() {
    let expected = [0x84, 0x0, 0x0, 0x0, 0x7, 0xE6, 6, 13];

    let mut buf = vec![];
    LocalDate::from_ymd_opt(2022, 6, 13).unwrap().encode(&mut buf);

    assert_eq!(buf, expected)
}

#[test]
fn chrono_local_date_decode() {
    let buf = vec![0x84, 0x0, 0x0, 0x0, 0x7, 0xE6, 6, 13];

    let expected = LocalDate::from_ymd_opt(2022, 6, 13).unwrap();
    let res = LocalDate::decode(&buf[..], 0).unwrap().0;
    assert_eq!(res, expected)
}

#[test]
fn chrono_local_time_encode() {
    let expected = [0x86, 0x0, 0, 0, 0x3, 0x46, 0x30, 0xb8, 0xa0, 0];

    let mut buf = vec![];
    LocalTime::from_num_seconds_from_midnight_opt(3600, 0)
        .unwrap()
        .encode(&mut buf);

    assert_eq!(buf, expected)
}

#[test]
fn chrono_local_time_decode() {
    let buf = vec![0x86, 0x0, 0, 0, 0x3, 0x46, 0x30, 0xb8, 0xa0, 0];

    let expected = LocalTime::from_num_seconds_from_midnight_opt(3600, 0).unwrap();
    let res = LocalTime::decode(&buf[..], 0).unwrap().0;
    assert_eq!(res, expected)
}

#[test]
fn chrono_date_time_offset_encode() {
    let expected = [
        0x88, 0x0, 0x0, 0x0, 0x7, 0xE6, 6, 13, 0, 0, 0, 0, 0, 0, 0, 0, 0, 0, 0x1c, 0x20,
    ];

    let mut buf = vec![];
    offset_date_time_of("2022-06-13T00:00:00+02:00").encode(&mut buf);

    assert_eq!(buf, expected)
}

#[test]
fn chrono_date_time_offset_decode() {
    let buf = vec![
        0x88, 0x0, 0x0, 0x0, 0x7, 0xE6, 6, 13, 0, 0, 0, 0, 0, 0, 0, 0, 0xff, 0xff, 0xe3, 0xe0,
    ];

    let expected = offset_date_time_of("2022-06-13T00:00:00-02:00");
    let res = OffsetDateTime::decode(&buf[..], 0).unwrap().0;
    assert_eq!(res, expected)
}

#[test]
fn chrono_instant_encode() {
    let expected = [
        0x83, 0x0, 0x0, 0x0, 0x0, 0x0, 0x62, 0xda, 0xa2, 0xa0, 0, 0, 0x0, 0x0,
    ];

    let mut buf = vec![];
    Instant::new(1658495648, 0).encode(&mut buf);

    assert_eq!(buf, expected)
}

#[test]
fn chrono_instant_decode() {
    let buf = [
        0x83, 0x0, 0x0, 0x0, 0x0, 0x0, 0x62, 0xda, 0xa2, 0xa0, 0, 0, 0x0, 0x0,
    ];

    let res = Instant::decode(&buf[..], 0).unwrap().0;
    let expected = Instant::new(1658495648, 0);

    assert_eq!(res, expected)
}

#[test]
fn extended_instant_encode() {
    let expected = [
        0x83, 0x0, 0x0, 0x0, 0x0, 0x0, 0x62, 0xda, 0xa2, 0xa0, 0, 0, 0x0, 0x0,
    ];

    let mut buf = vec![];
    Instant::new(1658495648, 0).encode(&mut buf);

    assert_eq!(buf, expected)
}

#[test]
fn extended_instant_decode() {
    let buf = [
        0x83, 0x0, 0x0, 0x0, 0x0, 0x0, 0x62, 0xda, 0xa2, 0xa0, 0, 0, 0x0, 0x0,
    ];

    let res = Instant::decode(&buf[..], 0).unwrap().0;
    let expected = Instant::new(1658495648, 0);

    assert_eq!(res, expected)
}

#[test]
fn extended_local_date_encode() {
    let expected = [0x84, 0x0, 0x0, 0x0, 0x7, 0xE6, 6, 13];

    let mut buf = vec![];
    LocalDate::from_ymd_opt(2022, 6, 13)
        .expect("invalid or out-of-range date")
        .encode(&mut buf);

    assert_eq!(buf, expected)
}

#[test]
fn extended_local_date_decode() {
    let buf = vec![0x84, 0x0, 0x0, 0x0, 0x7, 0xE6, 6, 13];

    let expected = LocalDate::from_ymd_opt(2022, 6, 13).expect("invalid or out-of-range date");
    let res = LocalDate::decode(&buf[..], 0).unwrap().0;
    assert_eq!(res, expected)
}

#[test]
fn extended_local_time_encode() {
    let expected = [0x86, 0x0, 0, 0, 0x3, 0x46, 0x30, 0xb8, 0xa0, 0];

    let mut buf = vec![];
    LocalTime::from_num_seconds_from_midnight_opt(3600, 0)
        .expect("invalid time")
        .encode(&mut buf);

    assert_eq!(buf, expected)
}

#[test]
fn extended_local_time_decode() {
    let buf = vec![0x86, 0x0, 0, 0, 0x3, 0x46, 0x30, 0xb8, 0xa0, 0];

    let expected = LocalTime::from_num_seconds_from_midnight_opt(3600, 0).expect("invalid time");
    let res = LocalTime::decode(&buf[..], 0).unwrap().0;
    assert_eq!(res, expected)
}

#[test]
fn extended_date_time_offset_encode() {
    let expected = [
        0x88, 0x0, 0x0, 0x0, 0x7, 0xE6, 6, 13, 0, 0, 0, 0, 0, 0, 0, 0, 0, 0, 0x1c, 0x20,
    ];

    let mut buf = vec![];
    offset_date_time_of("2022-06-13T00:00:00+02:00").encode(&mut buf);

    assert_eq!(buf, expected)
}

#[test]
fn extended_date_time_offset_decode() {
    let buf = vec![
        0x88, 0x0, 0x0, 0x0, 0x7, 0xE6, 6, 13, 0, 0, 0, 0, 0, 0, 0, 0, 0xff, 0xff, 0xe3, 0xe0,
    ];

    let expected = offset_date_time_of("2022-06-13T00:00:00-02:00");
    let res = OffsetDateTime::decode(&buf[..], 0).unwrap().0;
    assert_eq!(res, expected)
}

#[test]
fn calendar_dates_follow_the_gregorian_rules() {
    assert!(LocalDate::from_ymd_opt(2015, 3, 14).is_some());
    assert!(LocalDate::from_ymd_opt(2015, 0, 14).is_none());
    assert!(LocalDate::from_ymd_opt(2015, 2, 29).is_none());
    assert!(LocalDate::from_ymd_opt(-4, 2, 29).is_some());
    assert!(LocalDate::from_ymd_opt(2000, 2, 29).is_some());
    assert!(LocalDate::from_ymd_opt(1900, 2, 29).is_none());
    assert!(LocalDate::from_ymd_opt(400000, 1, 1).is_none());
    assert!(LocalDate::from_ymd_opt(-400000, 1, 1).is_none());
}

#[test]
fn times_and_offsets_have_bounds() {
    assert!(LocalTime::from_num_seconds_from_midnight_opt(86399, 999_999_999).is_some());
    assert!(LocalTime::from_num_seconds_from_midnight_opt(86399, 1_999_999_999).is_some());
    assert!(LocalTime::from_num_seconds_from_midnight_opt(86398, 1_000_000_000).is_none());
    assert!(LocalTime::from_num_seconds_from_midnight_opt(86_400, 0).is_none());
    assert!(ZoneOffset::east_opt(86_399).is_some());
    assert!(ZoneOffset::east_opt(86_400).is_none());
    assert!(ZoneOffset::east_opt(-86_400).is_none());
}

#[test]
fn a_date_that_does_not_exist_is_refused() {
    let buf = vec![0x84, 0x0, 0x0, 0x0, 0x7, 0xE6, 2, 30];
    assert_eq!(LocalDate::decode(&buf[..], 0), Err(DecodeError::InvalidValue));
}

#[test]
fn a_time_out_of_the_day_is_refused() {
    let mut buf = vec![0x86, 0x0];
    buf.extend_from_slice(&(86_400_000_000_000_i64).to_be_bytes());
    assert_eq!(LocalTime::decode(&buf[..], 0), Err(DecodeError::InvalidValue));
    let mut buf = vec![0x86, 0x0];
    buf.extend_from_slice(&(-1_i64).to_be_bytes());
    assert_eq!(LocalTime::decode(&buf[..], 0), Err(DecodeError::InvalidValue));
}

#[test]
fn a_time_keeps_its_nanoseconds_on_reading() {
    let mut buf = vec![0x86, 0x0];
    buf.extend_from_slice(&(3_600_000_000_123_i64).to_be_bytes());
    let t = LocalTime::decode(&buf[..], 0).unwrap().0;
    assert_eq!((t.secs, t.frac), (3600, 123));
}

#[test]
fn a_time_is_written_in_whole_seconds() {
    let t = LocalTime::from_num_seconds_from_midnight_opt(1, 5).unwrap();
    let mut buf = vec![];
    t.encode(&mut buf);
    assert_eq!(buf, vec![0x86, 0x0, 0, 0, 0, 0, 0x3b, 0x9a, 0xca, 0x00]);
}

#[test]
fn an_offset_of_a_day_is_refused() {
    let mut buf = vec![0x8e, 0x0];
    buf.extend_from_slice(&86_400_i32.to_be_bytes());
    assert_eq!(ZoneOffset::decode(&buf[..], 0), Err(DecodeError::InvalidValue));
}

#[test]
fn small_calendar_values_round_trip() {
    let mut buf = vec![];
    MonthDay { month: 1, day: 21 }.encode(&mut buf);
    Year(2016).encode(&mut buf);
    YearMonth { year: 2016, month: 12 }.encode(&mut buf);
    Period::new(2, 5, -1).encode(&mut buf);
    assert_eq!(&buf[..4], &[0x87, 0x00, 1, 21]);
    let (md, p) = MonthDay::decode(&buf, 0).unwrap();
    assert_eq!(md, MonthDay { month: 1, day: 21 });
    let (y, p) = Year::decode(&buf, p).unwrap();
    assert_eq!(y, Year(2016));
    let (ym, p) = YearMonth::decode(&buf, p).unwrap();
    assert_eq!(ym, YearMonth { year: 2016, month: 12 });
    let (per, p) = Period::decode(&buf, p).unwrap();
    assert_eq!(per, Period::new(2, 5, -1));
    assert_eq!(p, buf.len());
}

#[test]
fn offset_and_zoned_times_round_trip() {
    let t = OffsetTime {
        time: LocalTime::from_num_seconds_from_midnight_opt(36930, 0).unwrap(),
        offset: ZoneOffset::east_opt(3600).unwrap(),
    };
    let z = ZonedDateTime(offset_date_time_of("2016-12-23T12:12:24+02:00"));
    let mut buf = vec![];
    t.encode(&mut buf);
    z.encode(&mut buf);
    let (t2, p) = OffsetTime::decode(&buf, 0).unwrap();
    assert_eq!(t2, t);
    let (z2, p) = ZonedDateTime::decode(&buf, p).unwrap();
    assert_eq!(z2, z);
    assert_eq!(p, buf.len());
}

#[test]
fn period_parse_reads_units() {
    assert_eq!(Period::parse("P2Y5M-1D"), Ok(Period::new(2, 5, -1)));
    assert_eq!(Period::parse("P5Y2M-1D"), Ok(Period::new(5, 2, -1)));
    assert_eq!(Period::parse("P1W2D"), Ok(Period::new(0, 0, 9)));
    assert_eq!(Period::parse("P1Y1Y"), Ok(Period::new(2, 0, 0)));
    assert_eq!(Period::parse("P"), Ok(Period::zero()));
    assert_eq!(Period::parse("P+3D"), Ok(Period::new(0, 0, 3)));
}

#[test]
fn period_parse_errors() {
    assert_eq!(Period::parse(""), Err(GraphSonError::MissingPrefix));
    assert_eq!(Period::parse("Q1D"), Err(GraphSonError::MissingPrefix));
    assert_eq!(Period::parse("PxD"), Err(GraphSonError::InvalidNumber));
    assert_eq!(Period::parse("PD"), Err(GraphSonError::InvalidNumber));
    assert_eq!(Period::parse("P-D"), Err(GraphSonError::InvalidNumber));
    assert_eq!(Period::parse("P3000000000D"), Err(GraphSonError::InvalidNumber));
    assert_eq!(Period::parse("P1X"), Err(GraphSonError::InvalidDesignator));
    assert_eq!(Period::parse("P1D2"), Err(GraphSonError::InvalidDesignator));
}

#[test]
fn period_zero_is_empty() {
    assert_eq!(Period::zero(), Period { years: 0, months: 0, days: 0 });
}
