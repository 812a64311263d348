use reminder_cli::calendar::{Timestamp, Weekday};
use reminder_cli::text::{chars_of, is_digit_char, is_space_char, trim};
use reminder_cli::time_parser::{
    parse_absolute, parse_natural, parse_relative, parse_time_at, parse_time_expr, parse_weekday,
    DayRef, TimeExpr, TimeUnit,
};

#[test]
fn relative_forms_are_read() {
    assert_eq!(
        parse_relative("30m"),
        Some(TimeExpr::Relative { amount: 30, unit: TimeUnit::Minutes })
    );
    assert_eq!(
        parse_relative("2 hours"),
        Some(TimeExpr::Relative { amount: 2, unit: TimeUnit::Hours })
    );
    assert_eq!(parse_relative("1d"), Some(TimeExpr::Relative { amount: 1, unit: TimeUnit::Days }));
    assert_eq!(
        parse_relative("3 \t weeks"),
        Some(TimeExpr::Relative { amount: 3, unit: TimeUnit::Weeks })
    );
    assert_eq!(parse_relative("0m"), None);
    assert_eq!(parse_relative("000 hours"), None);
    assert_eq!(parse_time_expr("0m"), None);
    assert_eq!(parse_time_expr("0 weeks"), None);
    assert_eq!(parse_relative("1m"), Some(TimeExpr::Relative { amount: 1, unit: TimeUnit::Minutes }));
    assert_eq!(parse_relative("-5m"), None);
    assert_eq!(parse_relative("1.5h"), None);
    assert_eq!(parse_relative("m"), None);
    assert_eq!(parse_relative("5 parsecs"), None);
    assert_eq!(parse_relative("9223372036854775807m"), Some(TimeExpr::Relative { amount: i64::MAX, unit: TimeUnit::Minutes }));
    assert_eq!(parse_relative("9223372036854775808m"), None);
}

#[test]
fn absolute_form_is_read() {
    assert_eq!(
        parse_absolute("2025-12-25 10:00"),
        Some(TimeExpr::Absolute { year: 2025, month: 12, day: 25, hour: 10, minute: 0 })
    );
    assert_eq!(parse_absolute("2025-12-25 24:00"), None);
    assert_eq!(parse_absolute("2025-12-25 10:60"), None);
    assert_eq!(parse_absolute("2025-12-25"), None);
    assert_eq!(parse_absolute("2025-1-5 9:05"), None);
}

#[test]
fn natural_forms_are_read() {
    assert_eq!(
        parse_natural("tomorrow 9am"),
        Some(TimeExpr::Natural { day_ref: DayRef::Tomorrow, hour: 9, minute: 0 })
    );
    assert_eq!(
        parse_natural("next monday 14:00"),
        Some(TimeExpr::Natural { day_ref: DayRef::Next(Weekday::Mon), hour: 14, minute: 0 })
    );
    assert_eq!(
        parse_natural("today 18:30"),
        Some(TimeExpr::Natural { day_ref: DayRef::Today, hour: 18, minute: 30 })
    );
    assert_eq!(
        parse_natural("this fri 9:30pm"),
        Some(TimeExpr::Natural { day_ref: DayRef::This(Weekday::Fri), hour: 21, minute: 30 })
    );
    assert_eq!(
        parse_natural("sunday 12am"),
        Some(TimeExpr::Natural { day_ref: DayRef::Next(Weekday::Sun), hour: 0, minute: 0 })
    );
    assert_eq!(
        parse_natural("yesterday 12pm"),
        Some(TimeExpr::Natural { day_ref: DayRef::Yesterday, hour: 12, minute: 0 })
    );
    assert_eq!(parse_natural("today 25:00"), None);
    assert_eq!(parse_natural("today 13pm"), None);
    assert_eq!(parse_natural("someday 9am"), None);
    assert_eq!(parse_natural("next  monday 9am"), None);
    assert_eq!(parse_weekday("thurs"), Some(Weekday::Thu));
    assert_eq!(parse_weekday("Thurs"), None);
}

#[test]
fn default_time_is_nine() {
    assert_eq!(parse_time_expr("today"), parse_time_expr("today 9:00"));
    assert_eq!(
        parse_time_expr("next monday"),
        Some(TimeExpr::Natural { day_ref: DayRef::Next(Weekday::Mon), hour: 9, minute: 0 })
    );
}

#[test]
fn white_space_is_what_the_standard_library_calls_so() {
    for code in 0..=0x10ffff_u32 {
        if let Some(c) = char::from_u32(code) {
            assert_eq!(is_space_char(c), c.is_whitespace(), "U+{:04X}", code);
            assert_eq!(is_digit_char(c), c.is_ascii_digit(), "U+{:04X}", code);
        }
    }
}

#[test]
fn trimming_is_what_the_standard_library_does() {
    for text in [
        "", " ", "a", " a", "a ", " a b ", "\t\n a\u{a0}b \r\n", "\u{3000}x\u{2003}",
        "\u{200b}x\u{200b}", "   ", "é ", " 日本語 ",
    ] {
        assert_eq!(trim(text), text.trim(), "{:?}", text);
        assert_eq!(chars_of(text), text.chars().collect::<Vec<char>>());
    }
}

#[test]
fn letters_are_read_in_any_case() {
    assert_eq!(
        parse_time_at("  NEXT Monday 2PM ", &Timestamp { secs: 0, nanos: 0 }).is_ok(),
        true
    );
    // The Kelvin sign is a capital letter whose small form is `k`.
    assert!(parse_time_at("1 WEE\u{212a}", &Timestamp { secs: 0, nanos: 0 }).is_ok());
    assert_eq!(
        parse_time_at("1 WEEK", &Timestamp { secs: 0, nanos: 0 }),
        Ok(Timestamp { secs: 604_800, nanos: 0 })
    );
}
