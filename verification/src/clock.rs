//! The exchange clock. Instants are milliseconds since 1970-01-01 00:00 UTC;
//! calendar dates are day numbers counted from that day (day 0 is a Thursday).
//! Session logic runs on US/Eastern wall-clock time, whose UTC offset comes from
//! the tz database that chrono-tz compiles in.

use vstd::prelude::*;
use chrono::{Offset, TimeZone};
use crate::text::{dec_text, digit_char};

verus! {

/// Regular trading hours open at 09:30 US/Eastern (inclusive).
pub const RTH_OPEN_MINUTES: u32 = 9 * 60 + 30;

/// Regular trading hours close at 16:00 US/Eastern (exclusive).
pub const RTH_CLOSE_MINUTES: u32 = 16 * 60;

/// Instants handled by the clock lie within this many milliseconds of the epoch:
/// a round bound chosen here, about 220,000 years, somewhat narrower than the
/// range chrono can represent (about 262,000 years each way), so every admitted
/// instant converts.
pub const TS_LIMIT: i64 = 7_000_000_000_000_000;

/// Calendar day numbers handled by the clock lie within this many days of the
/// epoch: a round bound chosen here, somewhat narrower than chrono's date range
/// (about 95,000,000 days each way), so every admitted day converts.
pub const DAY_LIMIT: i64 = 90_000_000;

pub open spec fn ts_in_range(ts_ms: int) -> bool {
    -TS_LIMIT <= ts_ms <= TS_LIMIT
}

pub open spec fn day_in_range(day: int) -> bool {
    -DAY_LIMIT <= day <= DAY_LIMIT
}

/// Weekday of a day number: 0 is Monday, 6 is Sunday.
pub open spec fn weekday_of(day: int) -> int {
    (day + 3) % 7
}

/// Wall-clock reading of an instant in a zone with the given UTC offset.
pub struct LocalClock {
    /// calendar day number of the local date
    pub day: i64,
    /// minutes since local midnight, 0..1440
    pub minute_of_day: u32,
    /// 0 = Monday .. 6 = Sunday
    pub weekday: u32,
}

/// Seconds of local wall-clock time since the epoch.
pub open spec fn local_secs(ts_ms: int, offset_secs: int) -> int {
    ts_ms / 1000 + offset_secs
}

pub open spec fn local_day(ts_ms: int, offset_secs: int) -> int {
    local_secs(ts_ms, offset_secs) / 86400
}

pub open spec fn local_minute_of_day(ts_ms: int, offset_secs: int) -> int {
    (local_secs(ts_ms, offset_secs) / 60) % 1440
}

/// Minutes since midnight UTC.
pub open spec fn utc_minute_of_day(ts_ms: int) -> int {
    (ts_ms / 60000) % 1440
}

/// UTC offset of America/New_York (US/Eastern) at an instant, in seconds, as the
/// tz database gives it.
pub uninterp spec fn eastern_offset_at(ts_ms: i64) -> int;

/// Instant (ms) at which US/Eastern wall-clock time reads `hour:minute` on `day`,
/// when that wall-clock time occurs exactly once that day.
pub uninterp spec fn eastern_instant_of(day: i64, hour: u32, minute: u32) -> Option<i64>;

/// A leap year of the proleptic Gregorian calendar.
pub open spec fn is_leap_year(y: int) -> bool {
    (y % 4 == 0 && y % 100 != 0) || y % 400 == 0
}

pub open spec fn days_in_month(y: int, m: int) -> int {
    if m == 2 {
        if is_leap_year(y) {
            29
        } else {
            28
        }
    } else if m == 4 || m == 6 || m == 9 || m == 11 {
        30
    } else {
        31
    }
}

/// The day number (days after 1970-01-01) of a proleptic Gregorian date.
pub open spec fn days_from_civil(y: int, m: int, d: int) -> int {
    let yy = if m <= 2 {
        y - 1
    } else {
        y
    };
    let era = yy / 400;
    let yoe = yy - era * 400;
    let mp = if m > 2 {
        m - 3
    } else {
        m + 9
    };
    let doy = (153 * mp + 2) / 5 + d - 1;
    let doe = yoe * 365 + yoe / 4 - yoe / 100 + doy;
    era * 146097 + doe - 719468
}

/// `(y, m, d)` is the date with day number `day`.
pub open spec fn is_civil_date_of(day: int, y: int, m: int, d: int) -> bool {
    1 <= m <= 12 && 1 <= d <= days_in_month(y, m) && days_from_civil(y, m, d) == day
}

/// The proleptic Gregorian date with day number `day`.
pub open spec fn civil_date(day: int) -> (int, int, int) {
    choose|y: int, m: int, d: int| is_civil_date_of(day, y, m, d)
}

/// Two decimal digits of `n` (0 to 99).
pub open spec fn two_digits(n: int) -> Seq<char> {
    seq![digit_char(n / 10), digit_char(n % 10)]
}

/// A year as chrono writes it: four digits from 0 to 9999, otherwise a sign and
/// at least four digits.
pub open spec fn year_text(y: int) -> Seq<char> {
    if 0 <= y <= 9999 {
        two_digits(y / 100) + two_digits(y % 100)
    } else {
        let a = if y < 0 {
            -y
        } else {
            y
        };
        let pad = if a < 10 {
            "000"@
        } else if a < 100 {
            "00"@
        } else if a < 1000 {
            "0"@
        } else {
            Seq::empty()
        };
        (if y < 0 {
            seq!['-']
        } else {
            seq!['+']
        }) + pad + dec_text(a as nat)
    }
}

/// ISO `YYYY-MM-DD` text of a day number, as chrono displays a `NaiveDate`.
pub open spec fn date_text(day: i64) -> Seq<char> {
    let (y, m, d) = civil_date(day as int);
    year_text(y) + seq!['-'] + two_digits(m) + seq!['-'] + two_digits(d)
}

pub open spec fn eastern_day(ts_ms: i64) -> int {
    local_day(ts_ms as int, eastern_offset_at(ts_ms))
}

pub open spec fn eastern_minute_of_day(ts_ms: i64) -> int {
    local_minute_of_day(ts_ms as int, eastern_offset_at(ts_ms))
}

/// Inside regular trading hours on a weekday.
pub open spec fn regular_hours_spec(weekday: int, minute_of_day: int) -> bool {
    weekday < 5 && RTH_OPEN_MINUTES <= minute_of_day < RTH_CLOSE_MINUTES
}

/// The UTC offset of US/Eastern at `ts_ms`: calls chrono-tz's
/// `TimeZone::offset_from_utc_datetime` for `US::Eastern` (same table as
/// `America::New_York`) and reads it with `Offset::fix` and
/// `FixedOffset::local_minus_utc`. Claimed: the result is the named offset for
/// that instant, strictly within a day of UTC as every `FixedOffset` is.
#[verifier::external_body]
fn eastern_offset(ts_ms: i64) -> (r: i32)
    requires
        ts_in_range(ts_ms as int),
    ensures
        r == eastern_offset_at(ts_ms),
        -86400 < r < 86400,
{
    let utc = chrono::DateTime::<chrono::Utc>::from_timestamp_millis(ts_ms).unwrap();
    chrono_tz::US::Eastern.offset_from_utc_datetime(&utc.naive_utc()).fix().local_minus_utc()
}

/// The instant at which US/Eastern reads `hour:minute` on `day`: calls chrono's
/// `NaiveDate::from_epoch_days` and `NaiveDate::and_hms_opt`, then chrono-tz's
/// `TimeZone::from_local_datetime` with `LocalResult::single` (absent when the
/// wall-clock time is skipped or repeated by a DST change). Claimed: the result
/// is the named instant, and (as chrono-tz finds the offset of a local time in the
/// same table of spans that `offset_from_utc_datetime` reads) the Eastern offset
/// at that instant turns it back into the requested wall-clock time.
#[verifier::external_body]
pub(crate) fn eastern_from_local(day: i64, hour: u32, minute: u32) -> (r: Option<i64>)
    requires
        day_in_range(day as int),
        hour < 24,
        minute < 60,
    ensures
        r == eastern_instant_of(day, hour, minute),
        match r {
            Some(t) => ts_in_range(t as int) ==> local_secs(t as int, eastern_offset_at(t)) == day
                * 86400 + hour * 3600 + minute * 60,
            None => true,
        },
{
    let date = chrono::NaiveDate::from_epoch_days(day as i32).unwrap();
    let naive = date.and_hms_opt(hour, minute, 0).unwrap();
    chrono_tz::US::Eastern.from_local_datetime(&naive).single().map(|dt| dt.timestamp_millis())
}

/// The `Display` text of the date with this day number: calls chrono's
/// `NaiveDate::from_epoch_days` and `ToString::to_string`. Claimed: the text is
/// `date_text(day)`, the year, month and day of the proleptic Gregorian date of
/// that day number (day 0 is 1970-01-01), written as chrono's `Display` writes
/// them.
#[verifier::external_body]
fn date_to_text(day: i64) -> (r: String)
    requires
        day_in_range(day as int),
    ensures
        r@ == date_text(day),
{
    chrono::NaiveDate::from_epoch_days(day as i32).unwrap().to_string()
}

/// `a / b` rounded toward negative infinity.
pub fn floor_div(a: i64, b: i64) -> (q: i64)
    requires
        b > 0,
    ensures
        q == a / b,
{
    if a >= 0 {
        a / b
    } else {
        let p = -(a + 1);
        let q0 = p / b;
        proof {
            let r = p % b;
            assert(p == b * q0 + r && 0 <= r < b) by {
                vstd::arithmetic::div_mod::lemma_fundamental_div_mod(p as int, b as int);
            }
            assert(b * (-q0 - 1) <= a < b * (-q0 - 1) + b) by (nonlinear_arith)
                requires
                    p == b * q0 + r,
                    0 <= r < b,
                    a == -p - 1,
            ;
            vstd::arithmetic::div_mod::lemma_fundamental_div_mod_converse(
                a as int,
                b as int,
                -q0 - 1,
                a - b * (-q0 - 1),
            );
        }
        -q0 - 1
    }
}

/// Wall-clock reading of `ts_ms` in a zone whose UTC offset is `offset_secs`.
pub fn local_clock(ts_ms: i64, offset_secs: i32) -> (c: LocalClock)
    requires
        ts_in_range(ts_ms as int),
        -86400 < offset_secs < 86400,
    ensures
        c.day == local_day(ts_ms as int, offset_secs as int),
        c.minute_of_day == local_minute_of_day(ts_ms as int, offset_secs as int),
        c.weekday == weekday_of(c.day as int),
        day_in_range(c.day as int),
{
    let secs = floor_div(ts_ms, 1000) + offset_secs as i64;
    let day = floor_div(secs, 86400);
    let mins = floor_div(secs, 60);
    let q = floor_div(mins, 1440);
    let m = mins - q * 1440;
    let w = floor_div(day + 3, 7);
    let wd = day + 3 - w * 7;
    proof {
        vstd::arithmetic::div_mod::lemma_fundamental_div_mod(mins as int, 1440);
        vstd::arithmetic::div_mod::lemma_fundamental_div_mod(day + 3, 7);
        assert(day as int == secs as int / 86400);
        vstd::arithmetic::div_mod::lemma_fundamental_div_mod(secs as int, 86400);
    }
    LocalClock { day, minute_of_day: m as u32, weekday: wd as u32 }
}

/// Inside regular trading hours: a weekday, 09:30 inclusive to 16:00 exclusive.
pub fn regular_hours_at(weekday: u32, minute_of_day: u32) -> (b: bool)
    ensures
        b == regular_hours_spec(weekday as int, minute_of_day as int),
{
    weekday < 5 && RTH_OPEN_MINUTES <= minute_of_day && minute_of_day < RTH_CLOSE_MINUTES
}

/// US/Eastern wall-clock reading of `ts_ms`.
pub fn eastern_clock(ts_ms: i64) -> (c: LocalClock)
    requires
        ts_in_range(ts_ms as int),
    ensures
        c.day == eastern_day(ts_ms),
        c.minute_of_day == eastern_minute_of_day(ts_ms),
        c.weekday == weekday_of(c.day as int),
        day_in_range(c.day as int),
{
    let off = eastern_offset(ts_ms);
    local_clock(ts_ms, off)
}

/// Minutes since midnight, US/Eastern.
pub fn eastern_minutes(ts_ms: i64) -> (m: u32)
    requires
        ts_in_range(ts_ms as int),
    ensures
        m == eastern_minute_of_day(ts_ms),
        m < 1440,
{
    eastern_clock(ts_ms).minute_of_day
}

/// Calendar day number of the US/Eastern date.
pub fn eastern_date(ts_ms: i64) -> (d: i64)
    requires
        ts_in_range(ts_ms as int),
    ensures
        d == eastern_day(ts_ms),
{
    eastern_clock(ts_ms).day
}

/// True when `ts_ms` falls inside regular trading hours on a weekday, US/Eastern.
/// Holidays are not modelled.
pub fn is_regular_hours(ts_ms: i64) -> (b: bool)
    requires
        ts_in_range(ts_ms as int),
    ensures
        b == regular_hours_spec(weekday_of(eastern_day(ts_ms)), eastern_minute_of_day(ts_ms)),
{
    let c = eastern_clock(ts_ms);
    regular_hours_at(c.weekday, c.minute_of_day)
}

/// Minutes since midnight UTC (the hour and minute chrono shows for a UTC instant).
pub fn utc_minutes(ts_ms: i64) -> (m: u32)
    ensures
        m == utc_minute_of_day(ts_ms as int),
        m < 1440,
{
    let mins = floor_div(ts_ms, 60000);
    let q = floor_div(mins, 1440);
    proof {
        vstd::arithmetic::div_mod::lemma_fundamental_div_mod(mins as int, 1440);
    }
    (mins - q * 1440) as u32
}

/// Clock-aligned start of the bucket holding `ts_ms`: the minute of the hour is
/// rounded down to a multiple of `bucket_minutes`, seconds and below are cleared.
pub open spec fn aligned_bucket_start(ts_ms: int, bucket_minutes: int) -> int {
    let hour_start = (ts_ms / 3_600_000) * 3_600_000;
    let minute = (ts_ms / 60000) % 60;
    hour_start + (minute / bucket_minutes) * bucket_minutes * 60000
}

/// Clock-align a timestamp to a bucket boundary within its hour.
pub fn align_to_bucket(ts_ms: i64, bucket_minutes: u32) -> (r: i64)
    requires
        ts_in_range(ts_ms as int),
        bucket_minutes > 0,
    ensures
        r == aligned_bucket_start(ts_ms as int, bucket_minutes as int),
{
    let hours = floor_div(ts_ms, 3_600_000);
    let mins = floor_div(ts_ms, 60000);
    let q = floor_div(mins, 60);
    let minute = mins - q * 60;
    proof {
        vstd::arithmetic::div_mod::lemma_fundamental_div_mod(mins as int, 60);
        vstd::arithmetic::div_mod::lemma_fundamental_div_mod(ts_ms as int, 3_600_000);
    }
    let b = bucket_minutes as i64;
    let qb = minute / b;
    proof {
        vstd::arithmetic::div_mod::lemma_fundamental_div_mod(minute as int, b as int);
        assert(0 <= qb * b <= minute) by (nonlinear_arith)
            requires
                minute == b * qb + minute % b,
                0 <= minute % b < b,
                0 <= minute < 60,
                b > 0,
        ;
    }
    let aligned = qb * b;
    hours * 3_600_000 + aligned * 60000
}

/// An instant whose local seconds are `minute_of_day` minutes into `day` reads as
/// that day and minute on the local clock.
pub(crate) proof fn lemma_wall_clock_reading(ts_ms: int, offset_secs: int, day: int, minute_of_day: int)
    requires
        0 <= minute_of_day < 1440,
        local_secs(ts_ms, offset_secs) == day * 86400 + minute_of_day * 60,
    ensures
        local_day(ts_ms, offset_secs) == day,
        local_minute_of_day(ts_ms, offset_secs) == minute_of_day,
{
    let secs = local_secs(ts_ms, offset_secs);
    vstd::arithmetic::div_mod::lemma_fundamental_div_mod_converse(secs, 86400, day, minute_of_day * 60);
    vstd::arithmetic::div_mod::lemma_fundamental_div_mod_converse(secs, 60, day * 1440 + minute_of_day, 0);
    vstd::arithmetic::div_mod::lemma_fundamental_div_mod_converse(day * 1440 + minute_of_day, 1440, day, minute_of_day);
}

/// UTC instants of the 09:30 open and 16:00 close, US/Eastern, on `day`; an error
/// naming the date when either wall-clock time is skipped or repeated that day.
pub open spec fn market_hours_spec(day: i64) -> Result<(i64, i64), Seq<char>> {
    match eastern_instant_of(day, 9, 30) {
        None => Err("ambiguous or invalid open time for date "@ + date_text(day)),
        Some(open) => match eastern_instant_of(day, 16, 0) {
            None => Err("ambiguous or invalid close time for date "@ + date_text(day)),
            Some(close) => Ok((open, close)),
        },
    }
}

/// Return (market open, market close) in UTC for a date: 09:30 - 16:00 US/Eastern.
pub fn market_hours_utc(day: i64) -> (r: Result<(i64, i64), String>)
    requires
        day_in_range(day as int),
    ensures
        match r {
            Ok(p) => market_hours_spec(day) == Ok::<(i64, i64), Seq<char>>(p),
            Err(e) => market_hours_spec(day) == Err::<(i64, i64), Seq<char>>(e@),
        },
        match r {
            Ok((open, close)) => {
                &&& ts_in_range(open as int) ==> eastern_day(open) == day && eastern_minute_of_day(open)
                    == RTH_OPEN_MINUTES
                &&& ts_in_range(close as int) ==> eastern_day(close) == day && eastern_minute_of_day(
                    close,
                ) == RTH_CLOSE_MINUTES
            },
            Err(_) => true,
        },
{
    match eastern_from_local(day, 9, 30) {
        None => {
            let mut msg = String::from_str("ambiguous or invalid open time for date ");
            let d = date_to_text(day);
            msg.append(d.as_str());
            Err(msg)
        },
        Some(open) => match eastern_from_local(day, 16, 0) {
            None => {
                let mut msg = String::from_str("ambiguous or invalid close time for date ");
                let d = date_to_text(day);
                msg.append(d.as_str());
                Err(msg)
            },
            Some(close) => {
                proof {
                    if ts_in_range(open as int) {
                        lemma_wall_clock_reading(open as int, eastern_offset_at(open), day as int, 570int);
                    }
                    if ts_in_range(close as int) {
                        lemma_wall_clock_reading(close as int, eastern_offset_at(close), day as int, 960int);
                    }
                }
                Ok((open, close))
            },
        },
    }
}

} // verus!
