//! Calendar readings of a commit's timestamp, taken from `chrono`.

use vstd::prelude::*;

verus! {

/// Smallest number of seconds since the Unix epoch that a commit date may hold
/// (the start of year 0).
pub const MIN_SECONDS: i64 = -62_167_219_200;

/// Largest number of seconds since the Unix epoch that a commit date may hold
/// (the last second of year 9999).
pub const MAX_SECONDS: i64 = 253_402_300_799;

/// Smallest day number that a valid commit date falls on.
pub const MIN_DAY: i32 = -367;

/// Largest day number that a valid commit date falls on.
pub const MAX_DAY: i32 = 3_652_061;

/// Whether a timestamp and a zone offset (seconds east of UTC) are in the
/// supported range.
pub open spec fn valid_instant(seconds: int, offset: int) -> bool {
    &&& MIN_SECONDS <= seconds <= MAX_SECONDS
    &&& -86_400 < offset < 86_400
}

/// Day number of the instant in its own zone, counted from 0001-01-01 as day 1.
pub open spec fn day_of(seconds: int, offset: int) -> int {
    (seconds + offset) / 86_400 + 719_163
}

/// Hour of the day of the instant in its own zone, 0 to 23.
pub open spec fn hour_of(seconds: int, offset: int) -> int {
    ((seconds + offset) % 86_400) / 3_600
}

/// Weekday of the instant in its own zone, 0 for Sunday to 6 for Saturday.
pub open spec fn weekday_of(seconds: int, offset: int) -> int {
    ((seconds + offset) / 86_400 + 4) % 7
}

/// The text that `chrono` prints for the instant in its zone.
pub uninterp spec fn date_text(seconds: int, offset: int) -> Seq<char>;

/// The ISO date (`%Y-%m-%d`) that `chrono` prints for a day number.
pub uninterp spec fn day_text(day: int) -> Seq<char>;

/// Calls `chrono::DateTime::to_string` on the instant moved into its zone with
/// `with_timezone`. Trusted: the result is the text named `date_text`, and it
/// is never empty (the format always prints a date, a time and an offset).
#[verifier::external_body]
pub(crate) fn format_date(seconds: i64, offset: i32) -> (r: String)
    requires
        valid_instant(seconds as int, offset as int),
    ensures
        r@ == date_text(seconds as int, offset as int),
        r@.len() > 0,
{
    let zone = chrono::FixedOffset::east_opt(offset).unwrap();
    chrono::DateTime::from_timestamp(seconds, 0).unwrap().with_timezone(&zone).to_string()
}

/// Calls `chrono::Datelike::num_days_from_ce` on the instant in its zone.
/// Trusted: the result is the number of whole days between the local time and
/// the epoch, moved to chrono's day count, in which 1970-01-01 is day 719163.
#[verifier::external_body]
pub(crate) fn day_number(seconds: i64, offset: i32) -> (r: i32)
    requires
        valid_instant(seconds as int, offset as int),
    ensures
        r == day_of(seconds as int, offset as int),
{
    let zone = chrono::FixedOffset::east_opt(offset).unwrap();
    chrono::Datelike::num_days_from_ce(
        &chrono::DateTime::from_timestamp(seconds, 0).unwrap().with_timezone(&zone),
    )
}

/// Calls `chrono::Datelike::weekday` and `Weekday::num_days_from_sunday` on the
/// instant in its zone. Trusted: the result follows from 1970-01-01 having
/// been a Thursday.
#[verifier::external_body]
pub(crate) fn weekday_number(seconds: i64, offset: i32) -> (r: u32)
    requires
        valid_instant(seconds as int, offset as int),
    ensures
        r == weekday_of(seconds as int, offset as int),
{
    let zone = chrono::FixedOffset::east_opt(offset).unwrap();
    chrono::Datelike::weekday(
        &chrono::DateTime::from_timestamp(seconds, 0).unwrap().with_timezone(&zone),
    ).num_days_from_sunday()
}

/// Calls `chrono::Timelike::hour` on the instant in its zone. Trusted: the
/// result is the local second of the day divided by 3600.
#[verifier::external_body]
pub(crate) fn hour_number(seconds: i64, offset: i32) -> (r: u32)
    requires
        valid_instant(seconds as int, offset as int),
    ensures
        r == hour_of(seconds as int, offset as int),
{
    let zone = chrono::FixedOffset::east_opt(offset).unwrap();
    chrono::Timelike::hour(
        &chrono::DateTime::from_timestamp(seconds, 0).unwrap().with_timezone(&zone),
    )
}

/// Calls `chrono::NaiveDate::from_num_days_from_ce_opt` and formats the date
/// with `%Y-%m-%d`. Trusted: the result is the text named `day_text`.
#[verifier::external_body]
pub(crate) fn day_label(day: i32) -> (r: String)
    requires
        MIN_DAY <= day <= MAX_DAY,
    ensures
        r@ == day_text(day as int),
{
    chrono::NaiveDate::from_num_days_from_ce_opt(day).unwrap().format("%Y-%m-%d").to_string()
}

/// Every valid instant falls on a day in the supported range, at an hour
/// below 24 and on a weekday below 7.
pub(crate) proof fn lemma_reading_bounds(seconds: int, offset: int)
    requires
        valid_instant(seconds, offset),
    ensures
        MIN_DAY <= day_of(seconds, offset) <= MAX_DAY,
        0 <= hour_of(seconds, offset) < 24,
        0 <= weekday_of(seconds, offset) < 7,
{
}

} // verus!
