use vstd::prelude::*;
use vstd::arithmetic::div_mod::lemma_div_multiples_vanish;
use vstd::string::StrSliceExecFns;

use crate::date::{epoch_days, spec_epoch_days, spec_valid_date, CalendarDate};
use crate::error::DateTimeError;
use crate::parse::{
    read_fixed_digits, spec_all_digits, spec_digits_val, spec_parse_date, spec_pow10,
};

verus! {

/// An absolute point in time: milliseconds since 1970-01-01T00:00:00Z.
/// Resolution always returns such an instant; expressing it on a wall clock
/// (in the process's local timezone) is a representation concern left to
/// adapter code.
#[derive(Clone, Copy, Debug, PartialEq, Eq, Structural)]
pub struct ResolvedInstant {
    pub epoch_millis: i64,
}

/// The instants a timezone gives one wall-clock moment: exactly one, two
/// (a fall-back overlap), or none (a spring-forward gap). The two
/// candidates of an overlap come in whatever order the timezone backend
/// produced them: nothing is promised of it, and the decision below does
/// not depend on it.
#[derive(Clone, Copy, Debug, PartialEq, Eq, Structural)]
pub enum ZoneOutcome {
    Unique { millis: i64 },
    Ambiguous { first: i64, second: i64 },
    Nonexistent,
}

/// The disambiguation policy: a unique instant is taken as is, of two
/// candidate instants the earlier (the smaller) is chosen, and a
/// non-existent wall-clock moment yields nothing.
pub open spec fn spec_decide(o: ZoneOutcome) -> Option<i64> {
    match o {
        ZoneOutcome::Unique { millis } => Some(millis),
        ZoneOutcome::Ambiguous { first, second } => Some(
            if first <= second {
                first
            } else {
                second
            },
        ),
        ZoneOutcome::Nonexistent => None,
    }
}

/// Years the underlying calendar library can represent.
pub open spec fn spec_chrono_year_ok(y: int) -> bool {
    -262143 <= y <= 262142
}

/// The wall-clock time an hour selector denotes: hours 0..=23 mean that
/// hour exactly, anything from 24 up means the last millisecond of the day.
pub open spec fn spec_wall_clock_for_hour(hour: int) -> (int, int, int, int) {
    if hour >= 24 {
        (23, 59, 59, 999)
    } else {
        (hour, 0, 0, 0)
    }
}

/// Whether the name denotes a recognized IANA timezone.
pub uninterp spec fn is_known_zone(name: Seq<char>) -> bool;

/// The instants that the named timezone gives the wall-clock moment
/// (year, month, day, hour, minute, second, millisecond).
pub uninterp spec fn zone_resolution(
    name: Seq<char>,
    y: int,
    mo: int,
    d: int,
    h: int,
    mi: int,
    s: int,
    ms: int,
) -> ZoneOutcome;

/// Turns an hour selector into concrete wall-clock fields.
pub fn wall_clock_for_hour(hour: u32) -> (c: (u32, u32, u32, u32))
    ensures
        hour <= 23 ==> c == (hour, 0u32, 0u32, 0u32),
        hour >= 24 ==> c == (23u32, 59u32, 59u32, 999u32),
        (c.0 as int, c.1 as int, c.2 as int, c.3 as int) == spec_wall_clock_for_hour(hour as int),
        c.0 <= 23 && c.1 <= 59 && c.2 <= 59 && c.3 <= 999,
{
    if hour >= 24 {
        (23, 59, 59, 999)
    } else {
        (hour, 0, 0, 0)
    }
}

/// Applies the disambiguation policy to a zone outcome: a unique instant
/// is returned, an ambiguous wall-clock time resolves to the earlier of
/// its two candidate instants — whichever position the backend put it in,
/// never the later one, and never a failure — and only a non-existent
/// wall-clock time yields nothing.
pub fn convert_local_result_to_datetime(outcome: ZoneOutcome) -> (r: Option<ResolvedInstant>)
    ensures
        outcome matches ZoneOutcome::Unique { millis } ==> r == Some(
            ResolvedInstant { epoch_millis: millis },
        ),
        outcome matches ZoneOutcome::Ambiguous { first, second } ==> r == Some(
            ResolvedInstant {
                epoch_millis: if first <= second {
                    first
                } else {
                    second
                },
            },
        ),
        outcome is Nonexistent ==> r is None,
        r == (match spec_decide(outcome) {
            Some(ms) => Some(ResolvedInstant { epoch_millis: ms }),
            None => None::<ResolvedInstant>,
        }),
{
    match outcome {
        ZoneOutcome::Unique { millis } => Some(ResolvedInstant { epoch_millis: millis }),
        ZoneOutcome::Ambiguous { first, second } => {
            let earlier: i64 = if first <= second {
                first
            } else {
                second
            };
            Some(ResolvedInstant { epoch_millis: earlier })
        },
        ZoneOutcome::Nonexistent => None,
    }
}

/// Relies on chrono's `Local::from_local_datetime` (and `NaiveDate`
/// construction to hand it the wall-clock moment): it maps the moment to
/// the instants the host's local timezone gives it. The outcome depends on
/// the host's timezone configuration, so nothing ties it to the arguments;
/// and the order of an ambiguous pair differs between chrono's platform
/// backends, so nothing is claimed of it either — the caller picks the
/// earlier instant itself.
#[verifier::external_body]
fn local_resolve_wall_clock(y: i32, mo: u32, d: u32, h: u32, mi: u32, s: u32, ms: u32) -> (r:
    ZoneOutcome)
    requires
        spec_valid_date(y as int, mo as int, d as int),
        spec_chrono_year_ok(y as int),
        h <= 23,
        mi <= 59,
        s <= 59,
        ms <= 999,
{
    let time = chrono::NaiveDate::from_ymd_opt(y, mo, d).unwrap().and_hms_milli_opt(h, mi, s, ms).unwrap();
    match chrono::TimeZone::from_local_datetime(&chrono::Local, &time) {
        chrono::LocalResult::Single(t) => ZoneOutcome::Unique { millis: t.timestamp_millis() },
        chrono::LocalResult::Ambiguous(a, b) => ZoneOutcome::Ambiguous { first: a.timestamp_millis(), second: b.timestamp_millis() },
        chrono::LocalResult::None => ZoneOutcome::Nonexistent,
    }
}

/// Relies on chrono_tz's `Tz: FromStr` (a lookup of the name in the
/// compiled-in IANA table) and chrono's `TimeZone::from_local_datetime`
/// for that zone (a mapping drawn from the same table). Both depend only
/// on the arguments. No order is claimed of an ambiguous pair: the caller
/// picks the earlier instant itself.
#[verifier::external_body]
fn resolve_in_zone(zone: &str, y: i32, mo: u32, d: u32, h: u32, mi: u32, s: u32, ms: u32) -> (r:
    Result<ZoneOutcome, ()>)
    requires
        spec_valid_date(y as int, mo as int, d as int),
        spec_chrono_year_ok(y as int),
        h <= 23,
        mi <= 59,
        s <= 59,
        ms <= 999,
    ensures
        r is Ok <==> is_known_zone(zone@),
        r is Ok ==> r->Ok_0 == zone_resolution(
            zone@,
            y as int,
            mo as int,
            d as int,
            h as int,
            mi as int,
            s as int,
            ms as int,
        ),
{
    let tz: chrono_tz::Tz = match zone.parse() {
        Ok(t) => t,
        Err(_) => return Err(()),
    };
    let time = chrono::NaiveDate::from_ymd_opt(y, mo, d).unwrap().and_hms_milli_opt(h, mi, s, ms).unwrap();
    match chrono::TimeZone::from_local_datetime(&tz, &time) {
        chrono::LocalResult::Single(t) => Ok(ZoneOutcome::Unique { millis: t.timestamp_millis() }),
        chrono::LocalResult::Ambiguous(a, b) => Ok(ZoneOutcome::Ambiguous { first: a.timestamp_millis(), second: b.timestamp_millis() }),
        chrono::LocalResult::None => Ok(ZoneOutcome::Nonexistent),
    }
}

/// The optional zone argument as the name it holds.
pub open spec fn spec_zone_view(zone: Option<String>) -> Option<Seq<char>> {
    match zone {
        Some(z) => Some(z@),
        None => None,
    }
}

/// What resolving the wall-clock moment of `(y, mo, d)` at the hour
/// selector `hour` must return. A year the calendar library cannot hold is
/// an invalid date; an unrecognized zone name is rejected before any
/// resolution; a named zone resolves by `zone_resolution` under the
/// earlier-instant policy; with no zone the host's local timezone decides,
/// so only success or a conversion failure can come back.
pub open spec fn spec_resolve_post(
    y: int,
    mo: int,
    d: int,
    hour: int,
    zone: Option<Seq<char>>,
    r: Result<ResolvedInstant, DateTimeError>,
) -> bool {
    if !spec_chrono_year_ok(y) {
        r == Err::<ResolvedInstant, DateTimeError>(DateTimeError::InvalidDateError)
    } else {
        match zone {
            None => r is Ok || r == Err::<ResolvedInstant, DateTimeError>(
                DateTimeError::DateTimeConversionFailed,
            ),
            Some(zn) => if !is_known_zone(zn) {
                r == Err::<ResolvedInstant, DateTimeError>(DateTimeError::StringParseError)
            } else {
                let c = spec_wall_clock_for_hour(hour);
                match spec_decide(zone_resolution(zn, y, mo, d, c.0, c.1, c.2, c.3)) {
                    Some(ms) => r == Ok::<ResolvedInstant, DateTimeError>(
                        ResolvedInstant { epoch_millis: ms },
                    ),
                    None => r == Err::<ResolvedInstant, DateTimeError>(
                        DateTimeError::DateTimeConversionFailed,
                    ),
                }
            },
        }
    }
}

/// Resolves a calendar date plus an hour selector to one absolute instant.
/// The wall-clock moment is the selector's hour exactly (or the last
/// millisecond of the day, for selectors from 24 up); it is interpreted in
/// the named timezone, or in the process's local timezone when no zone is
/// given; an ambiguous interpretation takes the earlier instant, a
/// non-existent one fails.
pub fn naive_date_to_date_time(date: &CalendarDate, hour: u32, zone: Option<String>) -> (r: Result<
    ResolvedInstant,
    DateTimeError,
>)
    requires
        date.valid(),
    ensures
        spec_resolve_post(
            date.year as int,
            date.month as int,
            date.day as int,
            hour as int,
            spec_zone_view(zone),
            r,
        ),
{
    if date.year < -262143 || date.year > 262142 {
        return Err(DateTimeError::InvalidDateError);
    }
    let c = wall_clock_for_hour(hour);
    match zone {
        None => {
            let outcome = local_resolve_wall_clock(
                date.year,
                date.month,
                date.day,
                c.0,
                c.1,
                c.2,
                c.3,
            );
            match convert_local_result_to_datetime(outcome) {
                Some(t) => Ok(t),
                None => Err(DateTimeError::DateTimeConversionFailed),
            }
        },
        Some(z) => {
            match resolve_in_zone(z.as_str(), date.year, date.month, date.day, c.0, c.1, c.2, c.3) {
                Err(_) => Err(DateTimeError::StringParseError),
                Ok(outcome) => match convert_local_result_to_datetime(outcome) {
                    Some(t) => Ok(t),
                    None => Err(DateTimeError::DateTimeConversionFailed),
                },
            }
        },
    }
}

/// Parses `date_str` under `format` and resolves the date at the given
/// hour selector, as `naive_date_to_date_time` does. Text that does not
/// match the format, or denotes an invalid calendar date, is rejected.
pub fn date_time_from_str(date_str: &str, format: &str, hour: u32, zone: Option<String>) -> (r:
    Result<ResolvedInstant, DateTimeError>)
    ensures
        match spec_parse_date(date_str@, format@) {
            None => r == Err::<ResolvedInstant, DateTimeError>(DateTimeError::DateTimeParseFailed),
            Some(t) => spec_resolve_post(t.0, t.1, t.2, hour as int, spec_zone_view(zone), r),
        },
{
    match crate::parse::date_from_str(date_str, format) {
        Ok(date) => naive_date_to_date_time(&date, hour, zone),
        Err(e) => Err(e),
    }
}

/// `date_time_from_str` preset for the month-day-year textual pattern.
pub fn date_time_from_str_american(date_str: &str, hour: u32, zone: Option<String>) -> (r: Result<
    ResolvedInstant,
    DateTimeError,
>)
    ensures
        match spec_parse_date(date_str@, "%m-%d-%Y"@) {
            None => r == Err::<ResolvedInstant, DateTimeError>(DateTimeError::DateTimeParseFailed),
            Some(t) => spec_resolve_post(t.0, t.1, t.2, hour as int, spec_zone_view(zone), r),
        },
{
    date_time_from_str(date_str, "%m-%d-%Y", hour, zone)
}

/// `date_time_from_str` preset for the year-month-day (ISO-like) pattern.
pub fn date_time_from_str_standard(date_str: &str, hour: u32, zone: Option<String>) -> (r: Result<
    ResolvedInstant,
    DateTimeError,
>)
    ensures
        match spec_parse_date(date_str@, "%Y-%m-%d"@) {
            None => r == Err::<ResolvedInstant, DateTimeError>(DateTimeError::DateTimeParseFailed),
            Some(t) => spec_resolve_post(t.0, t.1, t.2, hour as int, spec_zone_view(zone), r),
        },
{
    date_time_from_str(date_str, "%Y-%m-%d", hour, zone)
}

/// Interprets an integer as seconds since 1970-01-01T00:00:00Z. UTC-based,
/// so no ambiguity is possible.
pub fn unix_to_date_time(seconds: u64) -> (r: ResolvedInstant)
    requires
        seconds * 1000 <= i64::MAX,
    ensures
        r.epoch_millis == seconds * 1000,
{
    ResolvedInstant { epoch_millis: (seconds as i64) * 1000 }
}

/// Constructs an instant from explicit wall-clock fields, interpreted in
/// the process's local timezone. Fields that do not form a valid date and
/// time of day yield nothing; so does a non-existent local time; an
/// ambiguous one resolves to the earlier instant.
pub fn make_time(year: i32, month: u32, day: u32, hour: u32, minute: u32, second: u32) -> (r:
    Option<ResolvedInstant>)
    ensures
        r is Some ==> spec_valid_date(year as int, month as int, day as int)
            && spec_chrono_year_ok(year as int) && hour <= 23 && minute <= 59 && second <= 59,
        !(spec_valid_date(year as int, month as int, day as int) && spec_chrono_year_ok(
            year as int,
        ) && hour <= 23 && minute <= 59 && second <= 59) ==> r is None,
{
    if !(hour <= 23 && minute <= 59 && second <= 59) {
        return None;
    }
    if year < -262143 || year > 262142 {
        return None;
    }
    match CalendarDate::from_ymd(year, month, day) {
        None => None,
        Some(date) => {
            let outcome = local_resolve_wall_clock(
                date.year,
                date.month,
                date.day,
                hour,
                minute,
                second,
                0,
            );
            convert_local_result_to_datetime(outcome)
        },
    }
}

/// The shape of a fixed-offset timestamp with the offset field missing:
/// `YYYY-MM-DD HH:MM:SS`, optionally followed by a dot and exactly three
/// fractional-second digits.
pub open spec fn spec_timestamp_shape(text: Seq<char>) -> bool {
    &&& (text.len() == 19 || (text.len() == 23 && text[19] == '.' && spec_all_digits(text, 20, 3)))
    &&& spec_all_digits(text, 0, 4)
    &&& text[4] == '-'
    &&& spec_all_digits(text, 5, 2)
    &&& text[7] == '-'
    &&& spec_all_digits(text, 8, 2)
    &&& text[10] == ' '
    &&& spec_all_digits(text, 11, 2)
    &&& text[13] == ':'
    &&& spec_all_digits(text, 14, 2)
    &&& text[16] == ':'
    &&& spec_all_digits(text, 17, 2)
}

/// The fields such a timestamp denotes:
/// (year, month, day, hour, minute, second, millisecond).
pub open spec fn spec_timestamp_fields(text: Seq<char>) -> (int, int, int, int, int, int, int) {
    (
        spec_digits_val(text, 0, 4),
        spec_digits_val(text, 5, 2),
        spec_digits_val(text, 8, 2),
        spec_digits_val(text, 11, 2),
        spec_digits_val(text, 14, 2),
        spec_digits_val(text, 17, 2),
        if text.len() == 23 {
            spec_digits_val(text, 20, 3)
        } else {
            0
        },
    )
}

/// A UTC offset given as a signed hour/minute pair packed in decimal
/// (+0530 means five hours thirty minutes east): the hour part must stay
/// below 24 and the minute part below 60.
pub open spec fn spec_valid_offset(zone: int) -> bool {
    let a = if zone < 0 {
        -zone
    } else {
        zone
    };
    a / 100 <= 23 && a % 100 <= 59
}

/// The signed minutes such a packed offset denotes.
pub open spec fn spec_offset_minutes(zone: int) -> int {
    let a = if zone < 0 {
        -zone
    } else {
        zone
    };
    let t = (a / 100) * 60 + a % 100;
    if zone < 0 {
        -t
    } else {
        t
    }
}

/// The instant a fixed-offset timestamp denotes: the wall-clock fields
/// must have the shape above and form a valid date and time of day, and
/// the packed offset must be valid; the offset is subtracted from the
/// wall-clock moment to reach UTC.
pub open spec fn spec_to_time(text: Seq<char>, zone: int) -> Option<int> {
    if spec_timestamp_shape(text) && spec_valid_offset(zone) {
        let f = spec_timestamp_fields(text);
        if spec_valid_date(f.0, f.1, f.2) && f.3 <= 23 && f.4 <= 59 && f.5 <= 59 {
            Some(
                (spec_epoch_days(f.0, f.1, f.2) * 86400 + f.3 * 3600 + f.4 * 60 + f.5) * 1000 + f.6
                    - spec_offset_minutes(zone) * 60000,
            )
        } else {
            None
        }
    } else {
        None
    }
}

/// Parses a timestamp that already carries fractional seconds but lacks a
/// UTC offset field, splices in the caller-supplied packed offset, and
/// returns the absolute instant the pair denotes. Purely arithmetic: a
/// fixed offset leaves no room for ambiguity. The seconds field runs to
/// 59: a leap-second reading ("…:60") has no instant in this arithmetic
/// and is rejected like any other out-of-range field.
pub fn to_time(time: &str, zone: i32) -> (r: Result<ResolvedInstant, DateTimeError>)
    ensures
        r is Ok <==> spec_to_time(time@, zone as int) is Some,
        r is Ok ==> Some(r->Ok_0.epoch_millis as int) == spec_to_time(time@, zone as int),
        r is Err ==> r->Err_0 == DateTimeError::DateTimeParseFailed,
{
    if zone <= -10000 || zone >= 10000 {
        // The hour part of the packed offset would be 100 or more.
        return Err(DateTimeError::DateTimeParseFailed);
    }
    let a: u32 = (if zone < 0 {
        -zone
    } else {
        zone
    }) as u32;
    let off_hh: u32 = a / 100;
    let off_mm: u32 = a % 100;
    if off_hh > 23 || off_mm > 59 {
        return Err(DateTimeError::DateTimeParseFailed);
    }
    let minutes_abs: u32 = off_hh * 60 + off_mm;
    let off_minutes: i64 = if zone < 0 {
        -(minutes_abs as i64)
    } else {
        minutes_abs as i64
    };
    let text_len: usize = time.unicode_len();
    if !(text_len == 19 || text_len == 23) {
        return Err(DateTimeError::DateTimeParseFailed);
    }
    let y = match read_fixed_digits(time, 0, 4) {
        Some(v) => v,
        None => {
            return Err(DateTimeError::DateTimeParseFailed);
        },
    };
    if time.get_char(4) != '-' {
        return Err(DateTimeError::DateTimeParseFailed);
    }
    let mo = match read_fixed_digits(time, 5, 2) {
        Some(v) => v,
        None => {
            return Err(DateTimeError::DateTimeParseFailed);
        },
    };
    if time.get_char(7) != '-' {
        return Err(DateTimeError::DateTimeParseFailed);
    }
    let d = match read_fixed_digits(time, 8, 2) {
        Some(v) => v,
        None => {
            return Err(DateTimeError::DateTimeParseFailed);
        },
    };
    if time.get_char(10) != ' ' {
        return Err(DateTimeError::DateTimeParseFailed);
    }
    let h = match read_fixed_digits(time, 11, 2) {
        Some(v) => v,
        None => {
            return Err(DateTimeError::DateTimeParseFailed);
        },
    };
    if time.get_char(13) != ':' {
        return Err(DateTimeError::DateTimeParseFailed);
    }
    let mi = match read_fixed_digits(time, 14, 2) {
        Some(v) => v,
        None => {
            return Err(DateTimeError::DateTimeParseFailed);
        },
    };
    if time.get_char(16) != ':' {
        return Err(DateTimeError::DateTimeParseFailed);
    }
    let s = match read_fixed_digits(time, 17, 2) {
        Some(v) => v,
        None => {
            return Err(DateTimeError::DateTimeParseFailed);
        },
    };
    let ms: u32 = if text_len == 23 {
        if time.get_char(19) != '.' {
            return Err(DateTimeError::DateTimeParseFailed);
        }
        match read_fixed_digits(time, 20, 3) {
            Some(v) => v,
            None => {
                return Err(DateTimeError::DateTimeParseFailed);
            },
        }
    } else {
        0
    };
    if h > 23 || mi > 59 || s > 59 {
        return Err(DateTimeError::DateTimeParseFailed);
    }
    proof {
        assert(spec_pow10(4) == 10000 && spec_pow10(3) == 1000 && spec_pow10(2) == 100) by {
            reveal_with_fuel(spec_pow10, 5);
        }
    }
    let date = match CalendarDate::from_ymd(y as i32, mo, d) {
        Some(dd) => dd,
        None => {
            return Err(DateTimeError::DateTimeParseFailed);
        },
    };
    let days: i64 = epoch_days(&date);
    let secs: i64 = days * 86400 + (h as i64) * 3600 + (mi as i64) * 60 + (s as i64);
    let millis: i64 = secs * 1000 + (ms as i64) - off_minutes * 60000;
    Ok(ResolvedInstant { epoch_millis: millis })
}

/// An absolute instant as the secondary date library's offset timestamp
/// holds it: nanoseconds since 1970-01-01T00:00:00Z. Adapter code turns a
/// value of this type into that library's timestamp and back.
#[derive(Clone, Copy, Debug, PartialEq, Eq, Structural)]
pub struct OffsetStamp {
    pub epoch_nanos: i64,
}

/// What bridging an instant to the offset-timestamp representation
/// returns: the same instant in nanoseconds, when that count fits the
/// representation.
pub open spec fn spec_to_offset_stamp(millis: int) -> Option<int> {
    if -9_223_372_036_854 <= millis <= 9_223_372_036_854 {
        Some(millis * 1_000_000)
    } else {
        None
    }
}

/// Bridges an instant to the secondary library's offset-timestamp
/// representation. Fails exactly when the nanosecond count would not fit.
pub fn to_offset_date_time(time: ResolvedInstant) -> (r: Result<OffsetStamp, DateTimeError>)
    ensures
        r is Ok <==> spec_to_offset_stamp(time.epoch_millis as int) is Some,
        r is Ok ==> Some(r->Ok_0.epoch_nanos as int) == spec_to_offset_stamp(
            time.epoch_millis as int,
        ),
        r is Err ==> r->Err_0 == DateTimeError::InvalidDateError,
{
    if -9_223_372_036_854 <= time.epoch_millis && time.epoch_millis <= 9_223_372_036_854 {
        Ok(OffsetStamp { epoch_nanos: time.epoch_millis * 1_000_000 })
    } else {
        Err(DateTimeError::InvalidDateError)
    }
}

/// Bridging an instant to the offset-timestamp representation preserves
/// the instant: dividing the nanosecond count back down recovers exactly
/// the millisecond count it came from, so re-resolving a bridged instant
/// yields the instant it started from.
pub proof fn lemma_offset_stamp_round_trip(millis: int)
    requires
        spec_to_offset_stamp(millis) is Some,
    ensures
        spec_to_offset_stamp(millis)->0 / 1_000_000 == millis,
{
    lemma_div_multiples_vanish(millis, 1_000_000);
}

} // verus!
