//! The calendar and the clock, which the `chrono` crate reads and reckons.

use crate::parser::grammar::{all_digits, decimal_value};
use crate::types::Timestamp;
use chrono::{Datelike, Timelike};
use vstd::prelude::*;

verus! {

/// `chrono::ParseError`: why a text is no time.
#[verifier::external_type_specification]
#[verifier::external_body]
pub struct ExParseError(chrono::ParseError);

/// Whether a clock can show `hour:minute:second`. Second 60 is the leap
/// second.
pub open spec fn valid_clock(hour: int, minute: int, second: int) -> bool {
    0 <= hour < 24 && 0 <= minute < 60 && 0 <= second <= 60
}

/// The whole seconds since midnight at `hour:minute:second`. A leap second
/// counts as the second before it.
pub open spec fn seconds_since_midnight(hour: int, minute: int, second: int) -> int {
    hour * 3600 + minute * 60 + if second == 60 {
        59
    } else {
        second
    }
}

/// The nanoseconds past the whole second at second `second`: a leap second
/// is the thousand millionth nanosecond of the second before it.
pub open spec fn nanos_of_second(second: int) -> int {
    if second == 60 {
        1_000_000_000
    } else {
        0
    }
}

/// The number that the calendar gives 1 January 1970 when it counts
/// 1 January of the year 1 as day 1.
pub const UNIX_EPOCH_DAY: i64 = 719_163;

/// The instant `seconds` whole seconds and `nanos` nanoseconds past midnight
/// UTC of the day that the calendar numbers `day`.
pub open spec fn instant_on_day(day: i32, seconds: u32, nanos: u32) -> Timestamp {
    Timestamp { seconds: ((day - 719_163) * 86_400 + seconds) as i64, nanos }
}

/// The instant on a numbered day, from the time since its midnight.
pub fn timestamp_on_day(day: i32, seconds: u32, nanos: u32) -> (instant: Timestamp)
    ensures
        instant == instant_on_day(day, seconds, nanos),
{
    Timestamp { seconds: (day as i64 - UNIX_EPOCH_DAY) * 86_400 + seconds as i64, nanos }
}

/// `chrono::Utc::now`, as the seconds and nanoseconds that
/// `DateTime::timestamp` and `DateTime::timestamp_subsec_nanos` give for it.
/// Nothing is claimed of the instant.
#[verifier::external_body]
pub(crate) fn utc_now() -> (now: Timestamp) {
    let now = chrono::Utc::now();
    Timestamp { seconds: now.timestamp(), nanos: now.timestamp_subsec_nanos() }
}

/// The date of `chrono::Local::now`, as the number that
/// `Datelike::num_days_from_ce` gives it. Nothing is claimed of the day.
#[verifier::external_body]
pub(crate) fn local_today() -> (day: i32) {
    chrono::Local::now().date_naive().num_days_from_ce()
}

/// `chrono::NaiveTime::parse_from_str` with the format `%H%M%S`, on six
/// decimal digits. The claim: two digits each are read as hour, minute and
/// second; the time is accepted when the hour is below 24, the minute below
/// 60 and the second at most 60; `num_seconds_from_midnight` and
/// `nanosecond` of the time are then as `seconds_since_midnight` and
/// `nanos_of_second` say.
#[verifier::external_body]
pub(crate) fn parse_time_of_day(text: &str) -> (parsed: Result<(u32, u32), chrono::ParseError>)
    requires
        text@.len() == 6,
        all_digits(text@),
    ensures
        parsed is Ok <==> valid_clock(
            decimal_value(text@.subrange(0, 2)) as int,
            decimal_value(text@.subrange(2, 4)) as int,
            decimal_value(text@.subrange(4, 6)) as int,
        ),
        parsed matches Ok((seconds, nanos)) ==> seconds == seconds_since_midnight(
            decimal_value(text@.subrange(0, 2)) as int,
            decimal_value(text@.subrange(2, 4)) as int,
            decimal_value(text@.subrange(4, 6)) as int,
        ) && nanos == nanos_of_second(decimal_value(text@.subrange(4, 6)) as int),
{
    match chrono::NaiveTime::parse_from_str(text, "%H%M%S") {
        Ok(time) => Ok((time.num_seconds_from_midnight(), time.nanosecond())),
        Err(e) => Err(e),
    }
}

} // verus!
