//! Instants, wall-clock readings, days and weekdays as plain values, and the
//! questions that only the calendar library and the system clock can answer.

use vstd::prelude::*;

verus! {

/// A day of the week.
#[derive(Clone, Copy, Debug, PartialEq, Eq, Structural)]
pub enum Weekday {
    Mon,
    Tue,
    Wed,
    Thu,
    Fri,
    Sat,
    Sun,
}

impl Weekday {
    /// Position in the week, counted from Monday as zero.
    pub open spec fn index(self) -> int {
        match self {
            Weekday::Mon => 0,
            Weekday::Tue => 1,
            Weekday::Wed => 2,
            Weekday::Thu => 3,
            Weekday::Fri => 4,
            Weekday::Sat => 5,
            Weekday::Sun => 6,
        }
    }

    /// The weekday at position `index`, counted from Monday as zero.
    pub open spec fn at(index: int) -> Weekday {
        if index == 0 {
            Weekday::Mon
        } else if index == 1 {
            Weekday::Tue
        } else if index == 2 {
            Weekday::Wed
        } else if index == 3 {
            Weekday::Thu
        } else if index == 4 {
            Weekday::Fri
        } else if index == 5 {
            Weekday::Sat
        } else {
            Weekday::Sun
        }
    }

    /// Position in the week, counted from Monday as zero.
    pub fn num_days_from_monday(self) -> (n: u8)
        ensures
            n == self.index(),
            n < 7,
    {
        match self {
            Weekday::Mon => 0,
            Weekday::Tue => 1,
            Weekday::Wed => 2,
            Weekday::Thu => 3,
            Weekday::Fri => 4,
            Weekday::Sat => 5,
            Weekday::Sun => 6,
        }
    }

    /// The weekday at position `index`, counted from Monday as zero.
    pub fn from_index(index: u8) -> (day: Weekday)
        requires
            index < 7,
        ensures
            day == Weekday::at(index as int),
            day.index() == index,
    {
        if index == 0 {
            Weekday::Mon
        } else if index == 1 {
            Weekday::Tue
        } else if index == 2 {
            Weekday::Wed
        } else if index == 3 {
            Weekday::Thu
        } else if index == 4 {
            Weekday::Fri
        } else if index == 5 {
            Weekday::Sat
        } else {
            Weekday::Sun
        }
    }
}

/// An instant: whole seconds since 1970-01-01T00:00:00 UTC and the
/// nanoseconds that follow them.
#[derive(Clone, Copy, Debug, PartialEq, Eq, Structural)]
pub struct Timestamp {
    pub secs: i64,
    pub nanos: u32,
}

impl Timestamp {
    /// Whether `self` is strictly later than `other`.
    pub open spec fn is_after(self, other: Timestamp) -> bool {
        self.secs > other.secs || (self.secs == other.secs && self.nanos > other.nanos)
    }

    /// Whether `self` is `other` or later.
    pub open spec fn is_at_or_after(self, other: Timestamp) -> bool {
        self.secs > other.secs || (self.secs == other.secs && self.nanos >= other.nanos)
    }

    /// Tells whether `self` is strictly later than `other`.
    pub fn later_than(&self, other: &Timestamp) -> (later: bool)
        ensures
            later == self.is_after(*other),
    {
        self.secs > other.secs || (self.secs == other.secs && self.nanos > other.nanos)
    }

    /// Tells whether `self` is `other` or later.
    pub fn reached(&self, other: &Timestamp) -> (reached: bool)
        ensures
            reached == self.is_at_or_after(*other),
    {
        self.secs > other.secs || (self.secs == other.secs && self.nanos >= other.nanos)
    }
}

/// A day, counted from 1970-01-01 as day zero.
#[derive(Clone, Copy, Debug, PartialEq, Eq, Structural)]
pub struct Day {
    pub number: i64,
}

impl Day {
    /// The weekday of this day. Day zero was a Thursday.
    pub open spec fn spec_weekday(self) -> Weekday {
        Weekday::at((self.number + 3) % 7)
    }

    /// The weekday of this day.
    pub fn weekday(&self) -> (day: Weekday)
        ensures
            day == self.spec_weekday(),
            day.index() == (self.number + 3) % 7,
    {
        let in_week: i64 = match self.number.checked_rem_euclid(7) {
            Some(r) => r,
            None => 0,
        };
        let shifted: i64 = (in_week + 3) % 7;
        Weekday::from_index(shifted as u8)
    }

    /// The day `days` days after this one (before it, where `days` is
    /// negative), or `None` where its number leaves `i64`.
    pub open spec fn spec_plus(self, days: int) -> Option<Day> {
        if i64::MIN <= self.number + days <= i64::MAX {
            Some(Day { number: (self.number + days) as i64 })
        } else {
            None
        }
    }

    /// The day `days` days after this one (before it, where `days` is
    /// negative), or `None` where its number leaves `i64`.
    pub fn plus_days(&self, days: i64) -> (moved: Option<Day>)
        ensures
            moved == self.spec_plus(days as int),
    {
        match self.number.checked_add(days) {
            Some(number) => Some(Day { number }),
            None => None,
        }
    }
}

/// What a clock on the wall shows in local time, as whole seconds counted
/// from 1970-01-01T00:00:00 on that clock.
#[derive(Clone, Copy, Debug, PartialEq, Eq, Structural)]
pub struct WallTime {
    pub secs: i64,
}

impl WallTime {
    /// The reading that lies `seconds` seconds after midnight of day `day`,
    /// or `None` where its count of seconds leaves `i64`.
    pub open spec fn spec_on(day: Day, seconds: int) -> Option<WallTime> {
        if i64::MIN <= day.number * 86_400 + seconds <= i64::MAX {
            Some(WallTime { secs: (day.number * 86_400 + seconds) as i64 })
        } else {
            None
        }
    }

    /// The reading `hour:minute:00` on day `day`, or `None` where its count
    /// of seconds leaves `i64`.
    pub fn on(day: Day, hour: u32, minute: u32) -> (reading: Option<WallTime>)
        ensures
            reading == WallTime::spec_on(day, hour * 3_600 + minute * 60),
    {
        let total: i128 = (day.number as i128) * 86_400 + (hour as i128) * 3_600 + (minute as i128)
            * 60;
        if total < i64::MIN as i128 || total > i64::MAX as i128 {
            None
        } else {
            Some(WallTime { secs: total as i64 })
        }
    }
}

/// The first second that the calendar library holds, counted from
/// 1970-01-01T00:00:00: the start of its year -262143.
pub const FIRST_SECOND: i64 = -8_334_601_228_800;

/// The last second that the calendar library holds, counted from
/// 1970-01-01T00:00:00: the end of its year 262142.
pub const LAST_SECOND: i64 = 8_210_266_876_799;

/// Whether the calendar library can hold the date and time that lie `secs`
/// seconds from 1970-01-01T00:00:00.
pub open spec fn representable(secs: int) -> bool {
    FIRST_SECOND <= secs <= LAST_SECOND
}

/// Whether `year` is a leap year of the calendar, which is the Gregorian
/// one also for the years before it was made.
pub open spec fn is_leap_year(year: int) -> bool {
    year % 4 == 0 && (year % 100 != 0 || year % 400 == 0)
}

/// The number of days of the month `month` in the year `year`.
pub open spec fn days_in_month(year: int, month: int) -> int {
    if month == 2 {
        if is_leap_year(year) {
            29
        } else {
            28
        }
    } else if month == 4 || month == 6 || month == 9 || month == 11 {
        30
    } else {
        31
    }
}

/// The number of leap years among the years from year 1 to the year
/// before `year`; for a `year` before year 1 it is negative.
pub open spec fn leap_years_before(year: int) -> int {
    (year - 1) / 4 - (year - 1) / 100 + (year - 1) / 400
}

/// The number of days of the year `year` that lie before its month
/// `month`.
pub open spec fn days_before_month(year: int, month: int) -> int {
    let in_common_year: int = if month <= 1 {
        0
    } else if month == 2 {
        31
    } else if month == 3 {
        59
    } else if month == 4 {
        90
    } else if month == 5 {
        120
    } else if month == 6 {
        151
    } else if month == 7 {
        181
    } else if month == 8 {
        212
    } else if month == 9 {
        243
    } else if month == 10 {
        273
    } else if month == 11 {
        304
    } else {
        334
    };
    if month > 2 && is_leap_year(year) {
        in_common_year + 1
    } else {
        in_common_year
    }
}

/// The number of the day `year`-`month`-`day`, counted from 1970-01-01 as
/// day zero: the days of the years since year 1, one more for each leap
/// year among them, the days of the months before, and the days of the
/// month, less the 719162 days that lie between the first day of year 1 and
/// day zero.
pub open spec fn day_number(year: int, month: int, day: int) -> int {
    365 * (year - 1) + leap_years_before(year) + days_before_month(year, month) + (day - 1)
        - 719_162
}

/// The seconds from 1970-01-01T00:00:00 to midnight at the start of the
/// civil date `year`-`month`-`day`; `None` where the calendar has no such
/// date.
pub open spec fn civil_midnight(year: int, month: int, day: int) -> Option<int> {
    if is_calendar_date(year, month, day) {
        Some(day_number(year, month, day) * 86_400)
    } else {
        None
    }
}

/// Whether the calendar has the date `year`-`month`-`day`.
pub open spec fn is_calendar_date(year: int, month: int, day: int) -> bool {
    &&& -262_143 <= year <= 262_142
    &&& 1 <= month <= 12
    &&& 1 <= day <= days_in_month(year, month)
}


/// `chrono::DateTime::from_timestamp`, asked whether it yields a value: it
/// does for the seconds from the first that `chrono::NaiveDateTime::MIN`
/// holds to the last that `chrono::NaiveDateTime::MAX` holds.
#[verifier::external_body]
pub(crate) fn calendar_holds(secs: i64) -> (held: bool)
    ensures
        held == representable(secs as int),
{
    chrono::DateTime::from_timestamp(secs, 0).is_some()
}

/// `chrono::NaiveDate::from_ymd_opt`: the date, given as the seconds that
/// lie between the epoch and its midnight, or `None` where the calendar has
/// no such date. It has the dates of the years -262143 to 262142 whose
/// month is one of twelve and whose day is one of that month's, which are
/// the dates of the Gregorian calendar. The whole day of a date is held by
/// the calendar.
#[verifier::external_body]
pub(crate) fn midnight_of(year: i32, month: u32, day: u32) -> (secs: Option<i64>)
    ensures
        match secs {
            Some(s) => civil_midnight(year as int, month as int, day as int) == Some(s as int),
            None => civil_midnight(year as int, month as int, day as int) is None,
        },
        secs matches Some(s) ==> representable(s as int) && representable(s + 86_399),
{
    let date = chrono::NaiveDate::from_ymd_opt(year, month, day)?;
    Some(date.and_time(chrono::NaiveTime::MIN).and_utc().timestamp())
}

/// `chrono::Local::now`: the present instant. It is one that the calendar
/// library holds, since the library made it, and its nanoseconds are those
/// of the system clock, less than a second.
#[verifier::external_body]
pub(crate) fn clock_now() -> (now: Timestamp)
    ensures
        representable(now.secs as int),
        now.nanos < 1_000_000_000,
{
    let now = chrono::Local::now();
    Timestamp { secs: now.timestamp(), nanos: now.timestamp_subsec_nanos() }
}

/// `chrono::TimeZone::offset_from_utc_datetime` for `chrono::Local`: the
/// seconds by which local time is ahead of UTC at the instant `at`. The
/// answer depends on the machine's time zone; it is less than a day either
/// way, the bound that `chrono::FixedOffset` keeps.
#[verifier::external_body]
pub(crate) fn local_offset(at: &Timestamp) -> (offset: i32)
    requires
        representable(at.secs as int),
    ensures
        -86_400 < offset < 86_400,
{
    let utc = chrono::DateTime::from_timestamp(at.secs, 0).unwrap().naive_utc();
    chrono::TimeZone::offset_from_utc_datetime(&chrono::Local, &utc).local_minus_utc()
}

/// `chrono::NaiveDateTime::and_local_timezone` for `chrono::Local`, then
/// `single`: the one instant at which local clocks show `wall`, or `None`
/// where they never show it or show it twice. The answer depends on the
/// machine's time zone. Whatever the zone, the instant is a whole second,
/// and it is `wall` less an offset from UTC, which is less than a day
/// either way.
#[verifier::external_body]
pub(crate) fn resolve_local(wall: &WallTime) -> (instant: Option<Timestamp>)
    requires
        representable(wall.secs as int),
    ensures
        instant matches Some(t) ==> t.nanos == 0 && wall.secs - 86_400 < t.secs < wall.secs
            + 86_400,
{
    let naive = chrono::DateTime::from_timestamp(wall.secs, 0).unwrap().naive_utc();
    let found = naive.and_local_timezone(chrono::Local).single()?;
    Some(Timestamp { secs: found.timestamp(), nanos: found.timestamp_subsec_nanos() })
}

/// The pattern of the time stamp of a log line: date and time to the
/// millisecond.
pub open spec fn stamp_pattern() -> Seq<char> {
    "%Y-%m-%d %H:%M:%S%.3f"@
}

/// `chrono::DateTime::format` for `chrono::Local`, written out: the local
/// date and time at the instant `at`, to the millisecond. The text depends
/// on the machine's time zone, so nothing is claimed of it.
#[verifier::external_body]
pub(crate) fn local_stamp(at: &Timestamp, pattern: &str) -> (text: String)
    requires
        representable(at.secs as int),
        at.nanos < 1_000_000_000,
        pattern@ == stamp_pattern(),
{
    let utc = chrono::DateTime::from_timestamp(at.secs, at.nanos).unwrap();
    utc.with_timezone(&chrono::Local).format(pattern).to_string()
}

} // verus!
