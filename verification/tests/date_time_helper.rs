use chrono::TimeZone;

use date_time_helper::date::{from_date, to_date, CalendarDate};
use date_time_helper::error::DateTimeError;
use date_time_helper::parse::date_from_str;
use date_time_helper::resolve::{
    convert_local_result_to_datetime, date_time_from_str, date_time_from_str_american,
    date_time_from_str_standard, make_time, naive_date_to_date_time, to_offset_date_time, to_time,
    unix_to_date_time, wall_clock_for_hour, ResolvedInstant, ZoneOutcome,
};

fn format_local(instant: ResolvedInstant, fmt: &str) -> String {
    chrono::Local
        .timestamp_millis_opt(instant.epoch_millis)
        .unwrap()
        .format(fmt)
        .to_string()
}

#[test]
fn test_unix_to_date_time() {
    let instant = unix_to_date_time(1587099600);
    let date =
        chrono::DateTime::<chrono::Utc>::from_timestamp_millis(instant.epoch_millis).unwrap();
    let date_string = date.format("%Y-%m-%d %H:%M:%S").to_string();
    assert_eq!("2020-04-17 05:00:00", &date_string);
}

#[test]
fn test_date_time_from_str_american() {
    let date = date_time_from_str_american("02-10-2020", 18, None).unwrap();
    let date_string = format_local(date, "%Y-%m-%d %H:%M:%S");
    assert_eq!("2020-02-10 18:00:00", &date_string);
}

#[test]
fn test_date_date_time_from_str_standard() {
    let date = date_time_from_str_standard("2020-02-10", 18, None).unwrap();
    let date_string = format_local(date, "%Y-%m-%d %H:%M:%S");
    assert_eq!("2020-02-10 18:00:00", &date_string);
}

#[test]
fn test_date_time_from_str() {
    let date = date_time_from_str("10-2020-02", "%d-%Y-%m", 18, None).unwrap();
    let date_string = format_local(date, "%Y-%m-%d %H:%M:%S");
    assert_eq!("2020-02-10 18:00:00", &date_string);
}

#[test]
fn test_specific_hour_sets_exact_wall_clock() {
    let date = CalendarDate::from_ymd(2021, 6, 15).unwrap();
    let instant = naive_date_to_date_time(&date, 7, None).unwrap();
    assert_eq!(
        "2021-06-15 07:00:00.000",
        &format_local(instant, "%Y-%m-%d %H:%M:%S%.3f")
    );
}

#[test]
fn test_hour_selector_24_and_up_means_end_of_day() {
    let date = CalendarDate::from_ymd(2021, 6, 15).unwrap();
    for hour in [24, 25, 1000] {
        let instant = naive_date_to_date_time(&date, hour, None).unwrap();
        assert_eq!(
            "2021-06-15 23:59:59.999",
            &format_local(instant, "%Y-%m-%d %H:%M:%S%.3f")
        );
    }
    assert_eq!(wall_clock_for_hour(24), (23, 59, 59, 999));
    assert_eq!(wall_clock_for_hour(5), (5, 0, 0, 0));
}

#[test]
fn test_named_zone_resolution() {
    // 18:00 in New York on 2020-02-10 is 23:00 UTC (EST, UTC-5).
    let date = CalendarDate::from_ymd(2020, 2, 10).unwrap();
    let instant = naive_date_to_date_time(&date, 18, Some(String::from("America/New_York")))
        .unwrap();
    let expected = chrono::Utc
        .with_ymd_and_hms(2020, 2, 10, 23, 0, 0)
        .unwrap()
        .timestamp_millis();
    assert_eq!(expected, instant.epoch_millis);
}

#[test]
fn test_unknown_zone_is_rejected_before_resolution() {
    let date = CalendarDate::from_ymd(2020, 2, 10).unwrap();
    let r = naive_date_to_date_time(&date, 18, Some(String::from("Not/AZone")));
    assert_eq!(Err(DateTimeError::StringParseError), r);
}

#[test]
fn test_ambiguous_wall_clock_resolves_to_earlier_instant() {
    // New York set clocks back on 2020-11-01: 01:00 happened twice, first
    // in EDT (05:00 UTC), then in EST (06:00 UTC). The earlier one wins.
    let date = CalendarDate::from_ymd(2020, 11, 1).unwrap();
    let instant = naive_date_to_date_time(&date, 1, Some(String::from("America/New_York")))
        .unwrap();
    let earlier = chrono::Utc
        .with_ymd_and_hms(2020, 11, 1, 5, 0, 0)
        .unwrap()
        .timestamp_millis();
    assert_eq!(earlier, instant.epoch_millis);
}

#[test]
fn test_nonexistent_wall_clock_fails_with_conversion_error() {
    // New York set clocks forward on 2020-03-08: 02:00 never existed.
    let date = CalendarDate::from_ymd(2020, 3, 8).unwrap();
    let r = naive_date_to_date_time(&date, 2, Some(String::from("America/New_York")));
    assert_eq!(Err(DateTimeError::DateTimeConversionFailed), r);
}

#[test]
fn test_decision_policy_on_each_outcome() {
    assert_eq!(
        Some(ResolvedInstant { epoch_millis: 5 }),
        convert_local_result_to_datetime(ZoneOutcome::Unique { millis: 5 })
    );
    // The earlier instant wins whichever position the backend put it in.
    assert_eq!(
        Some(ResolvedInstant { epoch_millis: 10 }),
        convert_local_result_to_datetime(ZoneOutcome::Ambiguous { first: 10, second: 20 })
    );
    assert_eq!(
        Some(ResolvedInstant { epoch_millis: 10 }),
        convert_local_result_to_datetime(ZoneOutcome::Ambiguous { first: 20, second: 10 })
    );
    assert_eq!(None, convert_local_result_to_datetime(ZoneOutcome::Nonexistent));
}

#[test]
fn test_invalid_dates_never_construct() {
    assert_eq!(None, CalendarDate::from_ymd(2020, 13, 1));
    assert_eq!(None, CalendarDate::from_ymd(2020, 2, 30));
    assert_eq!(None, CalendarDate::from_ymd(2021, 2, 29));
    assert!(CalendarDate::from_ymd(2020, 2, 29).is_some());
    assert_eq!(
        Err(DateTimeError::DateTimeParseFailed),
        date_from_str("2020-13-01", "%Y-%m-%d")
    );
    assert_eq!(
        Err(DateTimeError::DateTimeParseFailed),
        date_from_str("2020-02-30", "%Y-%m-%d")
    );
    assert_eq!(None, make_time(2020, 2, 30, 12, 0, 0));
    assert_eq!(None, make_time(2020, 2, 10, 24, 0, 0));
}

#[test]
fn test_parse_rejects_format_mismatch() {
    assert_eq!(
        Err(DateTimeError::DateTimeParseFailed),
        date_from_str("2020/02/10", "%Y-%m-%d")
    );
    assert_eq!(
        Err(DateTimeError::DateTimeParseFailed),
        date_from_str("2020-02-10x", "%Y-%m-%d")
    );
    assert_eq!(
        Err(DateTimeError::DateTimeParseFailed),
        date_from_str("2020-02", "%Y-%m-%d")
    );
    assert_eq!(
        Err(DateTimeError::DateTimeParseFailed),
        date_from_str("", "%Y-%m-%d")
    );
    // An empty format binds no fields, so even an empty text denotes no date.
    assert_eq!(Err(DateTimeError::DateTimeParseFailed), date_from_str("", ""));
    let d = date_from_str("10-2020-02", "%d-%Y-%m").unwrap();
    assert_eq!(CalendarDate { year: 2020, month: 2, day: 10 }, d);
}

#[test]
fn test_make_time_matches_local_library() {
    let instant = make_time(2020, 2, 10, 18, 30, 15).unwrap();
    let expected = chrono::Local
        .with_ymd_and_hms(2020, 2, 10, 18, 30, 15)
        .unwrap()
        .timestamp_millis();
    assert_eq!(expected, instant.epoch_millis);
}

#[test]
fn test_to_time_applies_packed_offset() {
    // 2020-04-17 00:00 at UTC-5 is 2020-04-17 05:00 UTC.
    let instant = to_time("2020-04-17 00:00:00.000", -500).unwrap();
    assert_eq!(1587099600 * 1000, instant.epoch_millis);
    let epoch = to_time("1970-01-01 00:00:00.000", 0).unwrap();
    assert_eq!(0, epoch.epoch_millis);
    let with_ms = to_time("1970-01-01 00:00:00.250", 0).unwrap();
    assert_eq!(250, with_ms.epoch_millis);
    let no_fraction = to_time("1970-01-02 00:00:00", 0).unwrap();
    assert_eq!(86400 * 1000, no_fraction.epoch_millis);
}

#[test]
fn test_to_time_matches_chrono_fixed_offset_parse() {
    let instant = to_time("2020-04-17 12:34:56.789", 530).unwrap();
    let expected = chrono::DateTime::parse_from_str(
        "2020-04-17 12:34:56.789+0530",
        "%Y-%m-%d %H:%M:%S%.3f%z",
    )
    .unwrap()
    .timestamp_millis();
    assert_eq!(expected, instant.epoch_millis);
}

#[test]
fn test_to_time_rejects_bad_input() {
    assert_eq!(Err(DateTimeError::DateTimeParseFailed), to_time("not a time", 0));
    assert_eq!(
        Err(DateTimeError::DateTimeParseFailed),
        to_time("2020-02-30 00:00:00.000", 0)
    );
    assert_eq!(
        Err(DateTimeError::DateTimeParseFailed),
        to_time("2020-04-17 24:00:00.000", 0)
    );
    // A packed offset whose minute part is 60 or more is no offset.
    assert_eq!(
        Err(DateTimeError::DateTimeParseFailed),
        to_time("2020-04-17 00:00:00.000", 190)
    );
}

#[test]
fn test_date_bridging_round_trip() {
    let date = CalendarDate::from_ymd(2020, 2, 10).unwrap();
    let bridged = to_date(date).unwrap();
    assert_eq!(2020, bridged.year);
    assert_eq!(2, bridged.month);
    assert_eq!(10, bridged.day);
    // The model matches the secondary library's own representation.
    let foreign =
        time::Date::from_calendar_date(bridged.year, time::Month::February, bridged.day).unwrap();
    assert_eq!(foreign.year(), bridged.year);
    assert_eq!(u8::from(foreign.month()), bridged.month);
    assert_eq!(foreign.day(), bridged.day);
    assert_eq!(Ok(date), from_date(bridged));
    // Years the secondary representation cannot hold are rejected.
    let far = CalendarDate::from_ymd(10001, 1, 1).unwrap();
    assert_eq!(Err(DateTimeError::InvalidDateError), to_date(far));
    assert!(time::Date::from_calendar_date(10001, time::Month::January, 1).is_err());
}

#[test]
fn test_offset_stamp_preserves_instant() {
    let instant = unix_to_date_time(1587099600);
    let stamp = to_offset_date_time(instant).unwrap();
    assert_eq!(instant.epoch_millis * 1_000_000, stamp.epoch_nanos);
    // The secondary library reads back the very same instant.
    let foreign = time::OffsetDateTime::from_unix_timestamp_nanos(stamp.epoch_nanos as i128)
        .unwrap();
    assert_eq!(1587099600, foreign.unix_timestamp());
    assert_eq!(stamp.epoch_nanos / 1_000_000, instant.epoch_millis);
}
