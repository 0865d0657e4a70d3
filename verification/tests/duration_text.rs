use gremlin_types::duration::Duration;
use gremlin_types::duration_text::parse_java_duration;
use gremlin_types::error::GraphSonError;

fn d(secs: i64, nanos: i32) -> Duration {
    Duration { secs, nanos }
}

#[test]
fn java_duration_days_and_seconds() {
    assert_eq!(parse_java_duration("P5DT2.001S"), Ok(d(5 * 86400 + 2, 1_000_000)));
    assert_eq!(parse_java_duration("P5DT2.1S"), Ok(d(5 * 86400 + 2, 100_000_000)));
}

#[test]
fn java_duration_time_part() {
    assert_eq!(parse_java_duration("PT8H6M12.345S"), Ok(d(8 * 3600 + 6 * 60 + 12, 345_000_000)));
    assert_eq!(parse_java_duration("PT.5S"), Ok(d(0, 500_000_000)));
    assert_eq!(parse_java_duration("PT5.S"), Ok(d(5, 0)));
    assert_eq!(parse_java_duration("PT1.0000000009S"), Ok(d(1, 0)));
    assert_eq!(parse_java_duration("PT1H1H"), Ok(d(7200, 0)));
}

#[test]
fn java_duration_negative() {
    assert_eq!(parse_java_duration("P-2D"), Ok(d(-172800, 0)));
    assert_eq!(parse_java_duration("PT-30M"), Ok(d(-1800, 0)));
    // The whole seconds are rounded down, and the nanoseconds, which keep the sign, come off
    // on top of that.
    assert_eq!(parse_java_duration("PT-1.5S"), Ok(d(-3, 500_000_000)));
    assert_eq!(parse_java_duration("PT-2S"), Ok(d(-2, 0)));
}

#[test]
fn java_duration_empty_parts() {
    assert_eq!(parse_java_duration("P"), Ok(d(0, 0)));
    assert_eq!(parse_java_duration("P5T"), Ok(d(0, 0)));
    assert_eq!(parse_java_duration("PT"), Ok(d(0, 0)));
}

#[test]
fn java_duration_errors() {
    assert_eq!(parse_java_duration(""), Err(GraphSonError::MissingPrefix));
    assert_eq!(parse_java_duration("T5S"), Err(GraphSonError::MissingPrefix));
    assert_eq!(parse_java_duration("P5"), Err(GraphSonError::InvalidDesignator));
    assert_eq!(parse_java_duration("P5H"), Err(GraphSonError::InvalidDesignator));
    assert_eq!(parse_java_duration("PT5D"), Err(GraphSonError::InvalidDesignator));
    assert_eq!(parse_java_duration("PT1S2"), Err(GraphSonError::InvalidDesignator));
    assert_eq!(parse_java_duration("PxD"), Err(GraphSonError::InvalidNumber));
    assert_eq!(parse_java_duration("PT1.2.3S"), Err(GraphSonError::InvalidNumber));
    assert_eq!(parse_java_duration("PT.S"), Err(GraphSonError::InvalidNumber));
    assert_eq!(parse_java_duration("PT99999999999999999999H"), Err(GraphSonError::InvalidNumber));
}
