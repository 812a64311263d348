use chrono::{Datelike, Duration, Local, NaiveDate, TimeZone};
use reminder_cli::calendar::{Day, Timestamp, WallTime, Weekday, FIRST_SECOND, LAST_SECOND};
use reminder_cli::time_parser::{
    instant_after, instant_of_wall, next_weekday, parse_time, parse_time_at, resolve_day, settle,
    this_weekday, time_at, today_at, wall_time_of_phrase, DayRef, TimeError, TimeExpr, TimeUnit,
};

fn stamp(dt: chrono::DateTime<Local>) -> Timestamp {
    Timestamp { secs: dt.timestamp(), nanos: dt.timestamp_subsec_nanos() }
}

fn local(y: i32, m: u32, d: u32, h: u32, mi: u32) -> Timestamp {
    stamp(Local.with_ymd_and_hms(y, m, d, h, mi, 0).unwrap())
}

fn day_of(date: NaiveDate) -> Day {
    Day { number: date.signed_duration_since(NaiveDate::from_ymd_opt(1970, 1, 1).unwrap()).num_days() }
}

fn weekday_of(date: NaiveDate) -> Weekday {
    match date.weekday() {
        chrono::Weekday::Mon => Weekday::Mon,
        chrono::Weekday::Tue => Weekday::Tue,
        chrono::Weekday::Wed => Weekday::Wed,
        chrono::Weekday::Thu => Weekday::Thu,
        chrono::Weekday::Fri => Weekday::Fri,
        chrono::Weekday::Sat => Weekday::Sat,
        chrono::Weekday::Sun => Weekday::Sun,
    }
}

fn name_of(day: Weekday) -> &'static str {
    match day {
        Weekday::Mon => "monday",
        Weekday::Tue => "tuesday",
        Weekday::Wed => "wednesday",
        Weekday::Thu => "thursday",
        Weekday::Fri => "friday",
        Weekday::Sat => "saturday",
        Weekday::Sun => "sunday",
    }
}

#[test]
fn test_relative_time() {
    let now = Local::now();

    let result = parse_time("30m").unwrap();
    let minutes = (result.secs - now.timestamp()) / 60;
    assert!(minutes >= 29 && minutes <= 31);

    let result = parse_time("2h").unwrap();
    let hours = (result.secs - now.timestamp()) / 3600;
    assert!(hours >= 1 && hours <= 3);

    let result = parse_time("1d").unwrap();
    let days = (result.secs - now.timestamp()) / 86400;
    assert!(days == 1);
}

#[test]
fn test_natural_time() {
    let result = parse_time("tomorrow 9am");
    assert!(result.is_ok());

    let result = parse_time("next monday 14:00");
    assert!(result.is_ok());
}

#[test]
fn thirty_minutes_from_a_fixed_now() {
    let now = local(2025, 1, 1, 0, 0);
    assert_eq!(parse_time_at("30m", &now), Ok(local(2025, 1, 1, 0, 30)));
    assert_eq!(parse_time_at("  2 HOURS ", &now), Ok(local(2025, 1, 1, 2, 0)));
    assert_eq!(parse_time_at("1w", &now), Ok(local(2025, 1, 8, 0, 0)));
    let fine = Timestamp { secs: now.secs, nanos: 123_456_789 };
    assert_eq!(
        parse_time_at("1d", &fine),
        Ok(Timestamp { secs: now.secs + 86_400, nanos: 123_456_789 })
    );
}

#[test]
fn absolute_time_is_local_time() {
    let now = local(2025, 1, 1, 0, 0);
    assert_eq!(parse_time_at("2025-12-25 10:00", &now), Ok(local(2025, 12, 25, 10, 0)));
    assert_eq!(parse_time_at("2024-02-29 23:59", &now), Ok(local(2024, 2, 29, 23, 59)));
    assert_eq!(parse_time_at("2025-02-29 10:00", &now), Err(TimeError::NoSuchDate));
    assert_eq!(parse_time_at("2025-13-01 10:00", &now), Err(TimeError::NoSuchDate));
    assert_eq!(parse_time_at("2025-00-10 10:00", &now), Err(TimeError::NoSuchDate));
    assert_eq!(parse_time_at("2025-12-25 24:00", &now), Err(TimeError::Unrecognized));
}

#[test]
fn phrases_are_read_from_today() {
    let now = local(2025, 1, 1, 15, 45);
    assert_eq!(parse_time_at("today", &now), Ok(local(2025, 1, 1, 9, 0)));
    assert_eq!(parse_time_at("today", &now), parse_time_at("today 9:00", &now));
    assert_eq!(parse_time_at("today 18:30", &now), Ok(local(2025, 1, 1, 18, 30)));
    assert_eq!(parse_time_at("Tomorrow 9AM", &now), Ok(local(2025, 1, 2, 9, 0)));
    assert_eq!(parse_time_at("yesterday 12am", &now), Ok(local(2024, 12, 31, 0, 0)));
    // 2025-01-01 was a Wednesday.
    assert_eq!(parse_time_at("this wednesday", &now), Ok(local(2025, 1, 1, 9, 0)));
    assert_eq!(parse_time_at("next wednesday", &now), Ok(local(2025, 1, 8, 9, 0)));
    assert_eq!(parse_time_at("wednesday 7pm", &now), Ok(local(2025, 1, 8, 19, 0)));
    assert_eq!(parse_time_at("next monday 14:00", &now), Ok(local(2025, 1, 6, 14, 0)));
    assert_eq!(parse_time_at("this tue 8:05", &now), Ok(local(2025, 1, 7, 8, 5)));
    assert_eq!(parse_time_at("sun", &now), Ok(local(2025, 1, 5, 9, 0)));
}

#[test]
fn this_and_next_with_the_weekday_of_today() {
    let now = Local::now();
    let today = now.date_naive();
    let name = name_of(weekday_of(today));
    let this = parse_time(&format!("this {}", name)).unwrap();
    let next = parse_time(&format!("next {}", name)).unwrap();
    let this_date = Local.timestamp_opt(this.secs, this.nanos).unwrap().date_naive();
    let next_date = Local.timestamp_opt(next.secs, next.nanos).unwrap().date_naive();
    assert_eq!(this_date, today);
    assert_eq!(next_date, today + Duration::days(7));
    assert_eq!(parse_time("today"), parse_time("today 9:00"));
}

#[test]
fn unreadable_text_is_refused() {
    let now = local(2025, 1, 1, 0, 0);
    for text in ["", "soon", "-5m", "1.5h", "0m", "0 days", "00h", "today 25:00", "today 9:60", "next", "9am", "2025-12-25"] {
        assert_eq!(parse_time_at(text, &now), Err(TimeError::Unrecognized), "{}", text);
        assert_eq!(parse_time(text), Err(TimeError::Unrecognized), "{}", text);
    }
}

#[test]
fn times_beyond_the_calendar_are_refused() {
    let now = local(2025, 1, 1, 0, 0);
    assert_eq!(parse_time_at("99999999999999w", &now), Err(TimeError::OutOfRange));
    assert_eq!(parse_time_at("9223372036854775807w", &now), Err(TimeError::OutOfRange));
    assert_eq!(
        time_at(TimeExpr::Natural { day_ref: DayRef::Today, hour: 9, minute: 0 },
            &Timestamp { secs: i64::MAX, nanos: 0 }),
        Err(TimeError::OutOfRange)
    );
    assert_eq!(instant_of_wall(None), Err(TimeError::OutOfRange));
    assert_eq!(instant_of_wall(Some(WallTime { secs: i64::MIN })), Err(TimeError::OutOfRange));
    assert_eq!(settle(None), Err(TimeError::NoLocalTime));
    assert_eq!(settle(Some(now)), Ok(now));
}

#[test]
fn the_calendar_ends_where_chrono_ends() {
    let zero = Timestamp { secs: 0, nanos: 7 };
    let last = chrono::DateTime::<chrono::Utc>::MAX_UTC.timestamp();
    let first = chrono::DateTime::<chrono::Utc>::MIN_UTC.timestamp();
    assert_eq!(first, FIRST_SECOND);
    assert_eq!(last, LAST_SECOND);
    assert!(chrono::DateTime::from_timestamp(FIRST_SECOND, 0).is_some());
    assert!(chrono::DateTime::from_timestamp(FIRST_SECOND - 1, 0).is_none());
    assert!(chrono::DateTime::from_timestamp(LAST_SECOND, 999_999_999).is_some());
    assert!(chrono::DateTime::from_timestamp(LAST_SECOND + 1, 0).is_none());
    assert_eq!(
        instant_after(&Timestamp { secs: last - 60, nanos: 7 }, 1, TimeUnit::Minutes),
        Some(Timestamp { secs: last, nanos: 7 })
    );
    assert_eq!(instant_after(&Timestamp { secs: last - 59, nanos: 7 }, 1, TimeUnit::Minutes), None);
    assert_eq!(
        instant_after(&Timestamp { secs: first + 3600, nanos: 0 }, -1, TimeUnit::Hours),
        Some(Timestamp { secs: first, nanos: 0 })
    );
    assert_eq!(instant_after(&Timestamp { secs: first + 3599, nanos: 0 }, -1, TimeUnit::Hours), None);
    assert_eq!(instant_after(&zero, 2, TimeUnit::Days), Some(Timestamp { secs: 172_800, nanos: 7 }));
    assert_eq!(instant_after(&zero, 3, TimeUnit::Weeks), Some(Timestamp { secs: 1_814_400, nanos: 7 }));
    assert_eq!(instant_after(&zero, i64::MAX, TimeUnit::Weeks), None);
}

#[test]
fn weekdays_follow_the_calendar() {
    let mut date = NaiveDate::from_ymd_opt(1899, 12, 25).unwrap();
    for _ in 0..80_000 {
        assert_eq!(day_of(date).weekday(), weekday_of(date), "{}", date);
        date = date.succ_opt().unwrap();
    }
    assert_eq!(Day { number: 0 }.weekday(), Weekday::Thu);
    assert_eq!(Day { number: -1 }.weekday(), Weekday::Wed);
    assert_eq!(Day { number: i64::MIN }.weekday(), weekday_from(((i64::MIN as i128 + 3).rem_euclid(7)) as u8));
}

fn weekday_from(index: u8) -> Weekday {
    Weekday::from_index(index)
}

#[test]
fn next_is_never_today_and_this_may_be() {
    let wednesday = day_of(NaiveDate::from_ymd_opt(2025, 1, 1).unwrap());
    assert_eq!(next_weekday(wednesday, Weekday::Wed), Some(Day { number: wednesday.number + 7 }));
    assert_eq!(this_weekday(wednesday, Weekday::Wed), Some(wednesday));
    assert_eq!(next_weekday(wednesday, Weekday::Thu), Some(Day { number: wednesday.number + 1 }));
    assert_eq!(this_weekday(wednesday, Weekday::Tue), Some(Day { number: wednesday.number + 6 }));
    assert_eq!(next_weekday(wednesday, Weekday::Tue), Some(Day { number: wednesday.number + 6 }));
    assert_eq!(next_weekday(Day { number: i64::MAX }, Weekday::Mon), None);
    assert_eq!(resolve_day(DayRef::Yesterday, wednesday), Some(Day { number: wednesday.number - 1 }));
    assert_eq!(resolve_day(DayRef::Tomorrow, wednesday), Some(Day { number: wednesday.number + 1 }));
    assert_eq!(resolve_day(DayRef::Today, wednesday), Some(wednesday));
    assert_eq!(resolve_day(DayRef::Yesterday, Day { number: i64::MIN }), None);
}

#[test]
fn wall_time_counts_seconds_from_the_epoch() {
    let day = Day { number: 20_089 };
    assert_eq!(WallTime::on(day, 9, 30), Some(WallTime { secs: 20_089 * 86_400 + 34_200 }));
    assert_eq!(WallTime::on(Day { number: i64::MAX }, 0, 0), None);
    assert_eq!(
        wall_time_of_phrase(DayRef::Tomorrow, 9, 0, day),
        Some(WallTime { secs: 20_090 * 86_400 + 32_400 })
    );
    assert_eq!(today_at(&Timestamp { secs: 86_399, nanos: 0 }, 1), Day { number: 1 });
    assert_eq!(today_at(&Timestamp { secs: 86_399, nanos: 0 }, 0), Day { number: 0 });
    assert_eq!(today_at(&Timestamp { secs: 0, nanos: 0 }, -1), Day { number: -1 });
    assert!(Timestamp { secs: 1, nanos: 0 }.later_than(&Timestamp { secs: 0, nanos: 999 }));
    assert!(!Timestamp { secs: 1, nanos: 0 }.later_than(&Timestamp { secs: 1, nanos: 0 }));
    assert!(Timestamp { secs: 1, nanos: 0 }.reached(&Timestamp { secs: 1, nanos: 0 }));
    assert_eq!(Weekday::Sun.num_days_from_monday(), 6);
    assert_eq!(TimeUnit::Weeks.seconds(), 604_800);
}

#[test]
fn refusals_come_with_guidance() {
    let text = TimeError::Unrecognized.guidance();
    for example in ["2025-12-25 10:00", "30m", "2h", "1d", "1w", "tomorrow 9am", "next monday 14:00"] {
        assert!(text.contains(example), "{}", example);
        assert!(parse_time(example).is_ok(), "{}", example);
    }
    assert!(text.starts_with("Supported formats:"));
    assert!(text.contains("Absolute") && text.contains("Relative") && text.contains("Natural"));
    assert_eq!(TimeError::NoSuchDate.guidance(), "Invalid calendar date");
    assert_eq!(TimeError::NoLocalTime.guidance(), "Invalid local time");
    assert_eq!(TimeError::OutOfRange.guidance(), "Time out of range");
}

fn is_leap(year: i64) -> bool {
    year.rem_euclid(4) == 0 && (year.rem_euclid(100) != 0 || year.rem_euclid(400) == 0)
}

fn day_number(year: i64, month: i64, day: i64) -> i64 {
    let before = [0, 31, 59, 90, 120, 151, 181, 212, 243, 273, 304, 334][(month - 1) as usize]
        + if month > 2 && is_leap(year) { 1 } else { 0 };
    let leaps =
        (year - 1).div_euclid(4) - (year - 1).div_euclid(100) + (year - 1).div_euclid(400);
    365 * (year - 1) + leaps + before + (day - 1) - 719_162
}

#[test]
fn every_day_has_the_number_that_follows_the_day_before() {
    let mut date = NaiveDate::from_ymd_opt(-800, 1, 1).unwrap();
    let mut number = day_of(date).number;
    assert_eq!(day_number(1970, 1, 1), 0);
    assert_eq!(day_number(2025, 1, 1) * 86_400, 1_735_689_600);
    for _ in 0..1_500_000 {
        assert_eq!(day_number(date.year() as i64, date.month() as i64, date.day() as i64), number);
        date = date.succ_opt().unwrap();
        number += 1;
    }
}

fn has_date(year: i64, month: i64, day: i64) -> bool {
    let leap = year.rem_euclid(4) == 0 && (year.rem_euclid(100) != 0 || year.rem_euclid(400) == 0);
    let days = match month {
        2 => {
            if leap {
                29
            } else {
                28
            }
        }
        4 | 6 | 9 | 11 => 30,
        _ => 31,
    };
    -262_143 <= year && year <= 262_142 && 1 <= month && month <= 12 && 1 <= day && day <= days
}

#[test]
fn the_calendar_has_the_dates_of_the_gregorian_calendar() {
    let years = (-500..=2500)
        .chain(-262_150..=-262_130)
        .chain(262_130..=262_150)
        .chain([-100_000, -40_000, -4_000, 4_000, 40_000, 100_000, i32::MIN, i32::MAX]);
    for year in years {
        for month in 0..=13_u32 {
            for day in [0_u32, 1, 27, 28, 29, 30, 31, 32] {
                let date = NaiveDate::from_ymd_opt(year, month, day);
                assert_eq!(
                    date.is_some(),
                    has_date(year as i64, month as i64, day as i64),
                    "{}-{}-{}",
                    year,
                    month,
                    day
                );
                if let Some(date) = date {
                    let midnight = date.and_hms_opt(0, 0, 0).unwrap().and_utc().timestamp();
                    assert!(FIRST_SECOND <= midnight && midnight + 86_399 <= LAST_SECOND);
                    assert_eq!(
                        midnight,
                        day_number(year as i64, month as i64, day as i64) * 86_400,
                        "{}",
                        date
                    );
                }
            }
        }
    }
    let now = local(2025, 1, 1, 0, 0);
    for year in [0_u16, 1, 1900, 2000, 2024, 2025, 2100, 9999, 65_535] {
        for month in 0..=13_u8 {
            for day in 0..=32_u8 {
                let found = time_at(TimeExpr::Absolute { year, month, day, hour: 12, minute: 30 }, &now);
                assert_eq!(
                    found == Err(TimeError::NoSuchDate),
                    !has_date(year as i64, month as i64, day as i64),
                    "{}-{}-{}",
                    year,
                    month,
                    day
                );
            }
        }
    }
}

#[test]
fn plain_text_is_lowered_letter_by_letter() {
    let now = Timestamp { secs: 1_735_689_600, nanos: 0 };
    let plain: String = (0..128u8).map(|b| b as char).collect();
    let lowered: String = plain.chars().map(|c| c.to_ascii_lowercase()).collect();
    assert_eq!(plain.to_lowercase(), lowered);
    assert_eq!(parse_time_at("30M", &now), Ok(Timestamp { secs: 1_735_691_400, nanos: 0 }));
    assert_eq!(parse_time_at("30m", &now), Ok(Timestamp { secs: 1_735_691_400, nanos: 0 }));
    assert_eq!(parse_time_at("2 HoUrS", &now), parse_time_at("2 hours", &now));
}
