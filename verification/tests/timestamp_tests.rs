use stake_checker::timestamp::{parse_timestamp, Timestamp};
use stake_checker::ScError;

#[test]
fn read_date_simplest_case() {
    let date_str = "2022-02-03T20:34:00.003";
    let date_time = parse_timestamp(date_str).unwrap();
    let back_to_str = date_time.to_iso_string();
    assert_eq!(back_to_str, "2022-02-03T20:34:00.003");
}

#[test]
fn read_date_missing_millisecond() {
    let date_str = "2022-04-01T18:27:12.01";
    let date_time = parse_timestamp(date_str).unwrap();
    let back_to_str = date_time.to_iso_string();
    assert_eq!(back_to_str, "2022-04-01T18:27:12.010");
}

#[test]
fn read_date_without_fraction() {
    let date_time = parse_timestamp("2022-09-19T20:40:00").unwrap();
    assert_eq!(
        date_time,
        Timestamp { year: 2022, month: 9, day: 19, hour: 20, minute: 40, second: 0, milli: 0 }
    );
    assert_eq!(date_time.to_iso_string(), "2022-09-19T20:40:00.000");
}

#[test]
fn read_date_from_epoch_seconds() {
    // The same instants the indexing service reports as epoch counts.
    assert_eq!(
        parse_timestamp("1663610000").unwrap().to_iso_string(),
        "2022-09-19T17:53:20.000"
    );
    assert_eq!(
        parse_timestamp("1663620000").unwrap().to_iso_string(),
        "2022-09-19T20:40:00.000"
    );
    assert_eq!(
        parse_timestamp("1663630000").unwrap().to_iso_string(),
        "2022-09-19T23:26:40.000"
    );
    assert_eq!(parse_timestamp("0").unwrap().to_iso_string(), "1970-01-01T00:00:00.000");
}

#[test]
fn malformed_timestamps_are_rejected() {
    let bad = [
        "",
        "garbage",
        "2022-13-01T00:00:00",
        "2022-00-01T00:00:00",
        "2022-09-31T00:00:00",
        "2022-09-19T24:00:00",
        "2022-09-19T20:60:00",
        "2022-09-19T20:40:60",
        "2022-09-19 20:40:00",
        "2022-09-19T20:40:00.",
        "2022-09-19T20:40:00.0000",
        "2022-09-19T20:40:00x",
        "202a-09-19T20:40:00",
        "-1",
        "12.5",
        "99999999999999999999999999",
    ];
    for s in bad {
        assert_eq!(parse_timestamp(s), Err(ScError::MalformedTimestamp), "input: {s}");
    }
}

#[test]
fn leap_years_decide_february() {
    assert!(parse_timestamp("2024-02-29T00:00:00").is_ok());
    assert_eq!(parse_timestamp("2023-02-29T00:00:00"), Err(ScError::MalformedTimestamp));
    assert!(parse_timestamp("2000-02-29T00:00:00").is_ok());
    assert_eq!(parse_timestamp("1900-02-29T00:00:00"), Err(ScError::MalformedTimestamp));
}

#[test]
fn timestamp_order_is_field_lexicographic() {
    let earlier = parse_timestamp("2022-09-19T17:53:20.000").unwrap();
    let boundary = parse_timestamp("2022-09-19T20:40:00.000").unwrap();
    let later = parse_timestamp("2022-09-19T23:26:40.000").unwrap();
    assert!(later.ge(&boundary));
    assert!(boundary.ge(&boundary));
    assert!(!earlier.ge(&boundary));
    assert!(later.ge(&earlier));
}
