//! Reading a point in time from text: an absolute date and time, an offset
//! from now, or a phrase such as `tomorrow 9am`.

use vstd::prelude::*;
use vstd::string::*;
use crate::calendar::{
    calendar_holds,
    civil_midnight,
    clock_now,
    is_calendar_date,
    local_offset,
    midnight_of,
    representable,
    resolve_local,
    Day,
    Timestamp,
    WallTime,
    Weekday,
};
use crate::text::{
    all_digits,
    chars_of,
    digits_between,
    decimal_value,
    find_last_space,
    is_digit,
    is_digit_char,
    is_space,
    content_end,
    is_word,
    last_space,
    parse_decimal,
    skip_digits,
    skip_digits_from,
    skip_spaces,
    skip_spaces_from,
    slice_of,
    lemma_content_end,
    lemma_skip_spaces,
    is_plain,
    lowercase,
    small_letters,
    to_lowercase,
    trim,
    trim_bounds,
    trimmed,
};

verus! {

/// The unit of an offset from now.
#[derive(Clone, Copy, Debug, PartialEq, Eq, Structural)]
pub enum TimeUnit {
    Minutes,
    Hours,
    Days,
    Weeks,
}

impl TimeUnit {
    /// The length of one unit in seconds.
    pub open spec fn spec_seconds(self) -> int {
        match self {
            TimeUnit::Minutes => 60,
            TimeUnit::Hours => 3_600,
            TimeUnit::Days => 86_400,
            TimeUnit::Weeks => 604_800,
        }
    }

    /// The length of one unit in seconds.
    pub fn seconds(self) -> (n: i64)
        ensures
            n == self.spec_seconds(),
    {
        match self {
            TimeUnit::Minutes => 60,
            TimeUnit::Hours => 3_600,
            TimeUnit::Days => 86_400,
            TimeUnit::Weeks => 604_800,
        }
    }
}

/// The day that a phrase speaks of, seen from today.
#[derive(Clone, Copy, Debug, PartialEq, Eq, Structural)]
pub enum DayRef {
    Today,
    Tomorrow,
    Yesterday,
    /// The first such weekday strictly after today.
    Next(Weekday),
    /// The first such weekday from today on, today included.
    This(Weekday),
}

/// A time of day, to the minute.
#[derive(Clone, Copy, Debug, PartialEq, Eq, Structural)]
pub struct ClockTime {
    pub hour: u8,
    pub minute: u8,
}

/// What a time expression says, before any clock or calendar is asked.
#[derive(Clone, Copy, Debug, PartialEq, Eq, Structural)]
pub enum TimeExpr {
    /// `YYYY-MM-DD HH:MM`, with the hour below 24 and the minute below 60.
    Absolute { year: u16, month: u8, day: u8, hour: u8, minute: u8 },
    /// A count of units from now. As read from a text it is at least one.
    Relative { amount: i64, unit: TimeUnit },
    /// A day seen from today, and a time on that day.
    Natural { day_ref: DayRef, hour: u8, minute: u8 },
}

/// The unit that the word `word` names.
pub open spec fn unit_named(word: Seq<char>) -> Option<TimeUnit> {
    if word == "m"@ || word == "min"@ || word == "mins"@ || word == "minute"@ || word
        == "minutes"@ {
        Some(TimeUnit::Minutes)
    } else if word == "h"@ || word == "hr"@ || word == "hrs"@ || word == "hour"@ || word
        == "hours"@ {
        Some(TimeUnit::Hours)
    } else if word == "d"@ || word == "day"@ || word == "days"@ {
        Some(TimeUnit::Days)
    } else if word == "w"@ || word == "week"@ || word == "weeks"@ {
        Some(TimeUnit::Weeks)
    } else {
        None
    }
}

/// The weekday that the word `word` names.
pub open spec fn weekday_named(word: Seq<char>) -> Option<Weekday> {
    if word == "monday"@ || word == "mon"@ {
        Some(Weekday::Mon)
    } else if word == "tuesday"@ || word == "tue"@ || word == "tues"@ {
        Some(Weekday::Tue)
    } else if word == "wednesday"@ || word == "wed"@ {
        Some(Weekday::Wed)
    } else if word == "thursday"@ || word == "thu"@ || word == "thur"@ || word == "thurs"@ {
        Some(Weekday::Thu)
    } else if word == "friday"@ || word == "fri"@ {
        Some(Weekday::Fri)
    } else if word == "saturday"@ || word == "sat"@ {
        Some(Weekday::Sat)
    } else if word == "sunday"@ || word == "sun"@ {
        Some(Weekday::Sun)
    } else {
        None
    }
}

/// The day that the phrase `phrase` names: `today`, `tomorrow`, `yesterday`,
/// `next` or `this` with a weekday after one blank, or a weekday alone,
/// which means the next one.
pub open spec fn day_named(phrase: Seq<char>) -> Option<DayRef> {
    if phrase == "today"@ {
        Some(DayRef::Today)
    } else if phrase == "tomorrow"@ {
        Some(DayRef::Tomorrow)
    } else if phrase == "yesterday"@ {
        Some(DayRef::Yesterday)
    } else if phrase.len() >= 5 && phrase.subrange(0, 5) == "next "@ {
        match weekday_named(phrase.subrange(5, phrase.len() as int)) {
            Some(weekday) => Some(DayRef::Next(weekday)),
            None => None,
        }
    } else if phrase.len() >= 5 && phrase.subrange(0, 5) == "this "@ {
        match weekday_named(phrase.subrange(5, phrase.len() as int)) {
            Some(weekday) => Some(DayRef::This(weekday)),
            None => None,
        }
    } else {
        match weekday_named(phrase) {
            Some(weekday) => Some(DayRef::Next(weekday)),
            None => None,
        }
    }
}

/// The hour on a 24-hour clock that `raw` means before the suffix `suffix`:
/// 12am is hour 0, 12pm stays 12, any other hour gains 12 before `pm`.
pub open spec fn hour_on_clock(raw: int, suffix: Seq<char>) -> int {
    if suffix == "am"@ {
        if raw == 12 {
            0
        } else {
            raw
        }
    } else if suffix == "pm"@ {
        if raw == 12 {
            12
        } else {
            raw + 12
        }
    } else {
        raw
    }
}

/// The time of day that the word `word` states: one or two digits for the
/// hour, then perhaps a colon and two digits for the minute, then perhaps
/// `am` or `pm`; `None` where the word has another form or states no time
/// of a day.
pub open spec fn time_of_day(word: Seq<char>) -> Option<ClockTime> {
    let d = skip_digits(word, 0);
    let has_minute = d < word.len() && word[d] == ':';
    let rest = if has_minute {
        d + 3
    } else {
        d
    };
    if 1 <= d <= 2 && (has_minute ==> d + 3 <= word.len() && is_digit(word[d + 1]) && is_digit(
        word[d + 2],
    )) {
        let suffix = word.subrange(rest, word.len() as int);
        let hour = hour_on_clock(decimal_value(word.subrange(0, d)) as int, suffix);
        let minute = if has_minute {
            decimal_value(word.subrange(d + 1, d + 3)) as int
        } else {
            0
        };
        if (suffix.len() == 0 || suffix == "am"@ || suffix == "pm"@) && hour < 24 && minute < 60 {
            Some(ClockTime { hour: hour as u8, minute: minute as u8 })
        } else {
            None
        }
    } else {
        None
    }
}

/// Whether `text` has the shape `DDDD-DD-DD DD:DD`, each `D` a digit.
pub open spec fn absolute_shape(text: Seq<char>) -> bool {
    &&& text.len() == 16
    &&& all_digits(text.subrange(0, 4))
    &&& text[4] == '-'
    &&& all_digits(text.subrange(5, 7))
    &&& text[7] == '-'
    &&& all_digits(text.subrange(8, 10))
    &&& text[10] == ' '
    &&& all_digits(text.subrange(11, 13))
    &&& text[13] == ':'
    &&& all_digits(text.subrange(14, 16))
}

/// What `text` says as an absolute date and time, `YYYY-MM-DD HH:MM`.
pub open spec fn absolute_form(text: Seq<char>) -> Option<TimeExpr> {
    if absolute_shape(text) && decimal_value(text.subrange(11, 13)) < 24 && decimal_value(
        text.subrange(14, 16),
    ) < 60 {
        Some(
            TimeExpr::Absolute {
                year: decimal_value(text.subrange(0, 4)) as u16,
                month: decimal_value(text.subrange(5, 7)) as u8,
                day: decimal_value(text.subrange(8, 10)) as u8,
                hour: decimal_value(text.subrange(11, 13)) as u8,
                minute: decimal_value(text.subrange(14, 16)) as u8,
            },
        )
    } else {
        None
    }
}

/// What `text` says as an offset from now: a decimal count of at least one
/// that fits `i64`, white space or none, and the name of a unit. A count of
/// zero is no offset.
pub open spec fn relative_form(text: Seq<char>) -> Option<TimeExpr> {
    let d = skip_digits(text, 0);
    let w = skip_spaces(text, d);
    let amount = decimal_value(text.subrange(0, d));
    match unit_named(text.subrange(w, text.len() as int)) {
        Some(unit) => if d > 0 && 1 <= amount <= i64::MAX {
            Some(TimeExpr::Relative { amount: amount as i64, unit })
        } else {
            None
        },
        None => None,
    }
}

/// What `text` says as a phrase: the name of a day alone, which means
/// 09:00 on that day, or what stands before the last white-space character
/// as the name of a day and what follows it as a time of day.
pub open spec fn natural_form(text: Seq<char>) -> Option<TimeExpr> {
    match day_named(text) {
        Some(day_ref) => Some(TimeExpr::Natural { day_ref, hour: 9, minute: 0 }),
        None => {
            let at = last_space(text, text.len() as int);
            if at < 0 {
                None
            } else {
                let word = text.subrange(at + 1, text.len() as int);
                let time = if word.len() == 0 {
                    Some(ClockTime { hour: 9, minute: 0 })
                } else {
                    time_of_day(word)
                };
                match (day_named(trimmed(text.subrange(0, at))), time) {
                    (Some(day_ref), Some(time)) => Some(
                        TimeExpr::Natural { day_ref, hour: time.hour, minute: time.minute },
                    ),
                    _ => None,
                }
            }
        },
    }
}

/// What `text` says: the three forms are tried in this order, and the first
/// that fits decides.
pub open spec fn time_expr(text: Seq<char>) -> Option<TimeExpr> {
    if absolute_form(text) is Some {
        absolute_form(text)
    } else if relative_form(text) is Some {
        relative_form(text)
    } else {
        natural_form(text)
    }
}

fn unit_in(word: &Vec<char>) -> (unit: Option<TimeUnit>)
    ensures
        unit == unit_named(word@),
{
    if is_word(word, "m") || is_word(word, "min") || is_word(word, "mins") || is_word(
        word,
        "minute",
    ) || is_word(word, "minutes") {
        Some(TimeUnit::Minutes)
    } else if is_word(word, "h") || is_word(word, "hr") || is_word(word, "hrs") || is_word(
        word,
        "hour",
    ) || is_word(word, "hours") {
        Some(TimeUnit::Hours)
    } else if is_word(word, "d") || is_word(word, "day") || is_word(word, "days") {
        Some(TimeUnit::Days)
    } else if is_word(word, "w") || is_word(word, "week") || is_word(word, "weeks") {
        Some(TimeUnit::Weeks)
    } else {
        None
    }
}

fn weekday_in(word: &Vec<char>) -> (weekday: Option<Weekday>)
    ensures
        weekday == weekday_named(word@),
{
    if is_word(word, "monday") || is_word(word, "mon") {
        Some(Weekday::Mon)
    } else if is_word(word, "tuesday") || is_word(word, "tue") || is_word(word, "tues") {
        Some(Weekday::Tue)
    } else if is_word(word, "wednesday") || is_word(word, "wed") {
        Some(Weekday::Wed)
    } else if is_word(word, "thursday") || is_word(word, "thu") || is_word(word, "thur")
        || is_word(word, "thurs") {
        Some(Weekday::Thu)
    } else if is_word(word, "friday") || is_word(word, "fri") {
        Some(Weekday::Fri)
    } else if is_word(word, "saturday") || is_word(word, "sat") {
        Some(Weekday::Sat)
    } else if is_word(word, "sunday") || is_word(word, "sun") {
        Some(Weekday::Sun)
    } else {
        None
    }
}

fn starts_with_word(phrase: &Vec<char>, word: &str, len: usize) -> (starts: bool)
    ensures
        starts == (phrase@.len() >= len && phrase@.subrange(0, len as int) == word@),
{
    if phrase.len() < len {
        false
    } else {
        let head = slice_of(phrase, 0, len);
        is_word(&head, word)
    }
}

fn day_in(phrase: &Vec<char>) -> (day: Option<DayRef>)
    ensures
        day == day_named(phrase@),
{
    if is_word(phrase, "today") {
        Some(DayRef::Today)
    } else if is_word(phrase, "tomorrow") {
        Some(DayRef::Tomorrow)
    } else if is_word(phrase, "yesterday") {
        Some(DayRef::Yesterday)
    } else if starts_with_word(phrase, "next ", 5) {
        let name = slice_of(phrase, 5, phrase.len());
        match weekday_in(&name) {
            Some(weekday) => Some(DayRef::Next(weekday)),
            None => None,
        }
    } else if starts_with_word(phrase, "this ", 5) {
        let name = slice_of(phrase, 5, phrase.len());
        match weekday_in(&name) {
            Some(weekday) => Some(DayRef::This(weekday)),
            None => None,
        }
    } else {
        match weekday_in(phrase) {
            Some(weekday) => Some(DayRef::Next(weekday)),
            None => None,
        }
    }
}

fn clock_in(word: &Vec<char>) -> (time: Option<ClockTime>)
    ensures
        time == time_of_day(word@),
{
    let d: usize = skip_digits_from(word, 0);
    if d < 1 || d > 2 {
        return None;
    }
    let has_minute = d < word.len() && word[d] == ':';
    if has_minute && !(d + 3 <= word.len() && is_digit_char(word[d + 1]) && is_digit_char(
        word[d + 2],
    )) {
        return None;
    }
    let rest: usize = if has_minute {
        d + 3
    } else {
        d
    };
    let suffix = slice_of(word, rest, word.len());
    let am = is_word(&suffix, "am");
    let pm = is_word(&suffix, "pm");
    if !(suffix.len() == 0 || am || pm) {
        return None;
    }
    assert(all_digits(word@.subrange(0, d as int)));
    let raw: u8 = two_digits(word, 0, d);
    let minute: u8 = if has_minute {
        assert(all_digits(word@.subrange(d + 1, d + 3))) by {
            let m = word@.subrange(d + 1, d + 3);
            assert(m[0] == word@[d + 1]);
            assert(m[1] == word@[d + 2]);
            assert forall|i: int| 0 <= i < m.len() implies is_digit(#[trigger] m[i]) by {
                if i != 0 {
                    assert(i == 1);
                }
            }
        }
        two_digits(word, d + 1, d + 3)
    } else {
        0
    };
    let hour: u8 = if am {
        if raw == 12 {
            0
        } else {
            raw
        }
    } else if pm {
        if raw == 12 {
            12
        } else {
            raw + 12
        }
    } else {
        raw
    };
    if hour < 24 && minute < 60 {
        Some(ClockTime { hour, minute })
    } else {
        None
    }
}

/// A numeral of up to four digits stands for less than ten to the power of
/// its length.
pub proof fn lemma_short_numeral(digits: Seq<char>)
    requires
        all_digits(digits),
        digits.len() <= 4,
    ensures
        digits.len() <= 1 ==> decimal_value(digits) <= 9,
        digits.len() <= 2 ==> decimal_value(digits) <= 99,
        digits.len() <= 3 ==> decimal_value(digits) <= 999,
        decimal_value(digits) <= 9_999,
    decreases digits.len(),
{
    if digits.len() > 0 {
        let shorter = digits.drop_last();
        assert forall|i: int| 0 <= i < shorter.len() implies is_digit(#[trigger] shorter[i]) by {
            assert(shorter[i] == digits[i]);
        }
        lemma_short_numeral(shorter);
        assert(is_digit(digits[digits.len() - 1]));
    }
}

fn two_digits(text: &Vec<char>, from: usize, to: usize) -> (value: u8)
    requires
        from <= to <= text.len(),
        to - from <= 2,
        all_digits(text@.subrange(from as int, to as int)),
    ensures
        value == decimal_value(text@.subrange(from as int, to as int)),
        value <= 99,
{
    proof {
        lemma_short_numeral(text@.subrange(from as int, to as int));
    }
    match parse_decimal(text, from, to, 99) {
        Some(v) => v as u8,
        None => 0,
    }
}

fn four_digits(text: &Vec<char>, from: usize, to: usize) -> (value: u16)
    requires
        from <= to <= text.len(),
        to - from <= 4,
        all_digits(text@.subrange(from as int, to as int)),
    ensures
        value == decimal_value(text@.subrange(from as int, to as int)),
        value <= 9_999,
{
    proof {
        lemma_short_numeral(text@.subrange(from as int, to as int));
    }
    match parse_decimal(text, from, to, 9_999) {
        Some(v) => v as u16,
        None => 0,
    }
}

fn absolute_in(text: &Vec<char>) -> (expr: Option<TimeExpr>)
    ensures
        expr == absolute_form(text@),
{
    if text.len() != 16 {
        return None;
    }
    if !(digits_between(text, 0, 4) && text[4] == '-' && digits_between(text, 5, 7) && text[7]
        == '-' && digits_between(text, 8, 10) && text[10] == ' ' && digits_between(text, 11, 13)
        && text[13] == ':' && digits_between(text, 14, 16)) {
        return None;
    }
    let year: u16 = four_digits(text, 0, 4);
    let month: u8 = two_digits(text, 5, 7);
    let day: u8 = two_digits(text, 8, 10);
    let hour: u8 = two_digits(text, 11, 13);
    let minute: u8 = two_digits(text, 14, 16);
    if hour < 24 && minute < 60 {
        Some(TimeExpr::Absolute { year, month, day, hour, minute })
    } else {
        None
    }
}

fn relative_in(text: &Vec<char>) -> (expr: Option<TimeExpr>)
    ensures
        expr == relative_form(text@),
{
    let d: usize = skip_digits_from(text, 0);
    let w: usize = skip_spaces_from(text, d);
    let word = slice_of(text, w, text.len());
    match unit_in(&word) {
        Some(unit) => {
            if d == 0 {
                return None;
            }
            assert(all_digits(text@.subrange(0, d as int)));
            match parse_decimal(text, 0, d, 0x7fff_ffff_ffff_ffff) {
                Some(amount) => if amount >= 1 {
                    Some(TimeExpr::Relative { amount: amount as i64, unit })
                } else {
                    None
                },
                None => None,
            }
        },
        None => None,
    }
}

fn natural_in(text: &Vec<char>) -> (expr: Option<TimeExpr>)
    ensures
        expr == natural_form(text@),
{
    match day_in(text) {
        Some(day_ref) => Some(TimeExpr::Natural { day_ref, hour: 9, minute: 0 }),
        None => match find_last_space(text) {
            None => None,
            Some(at) => {
                let word = slice_of(text, at + 1, text.len());
                let time = if word.len() == 0 {
                    Some(ClockTime { hour: 9, minute: 0 })
                } else {
                    clock_in(&word)
                };
                let head = slice_of(text, 0, at);
                let (start, end) = trim_bounds(&head);
                let phrase = slice_of(&head, start, end);
                match (day_in(&phrase), time) {
                    (Some(day_ref), Some(time)) => Some(
                        TimeExpr::Natural { day_ref, hour: time.hour, minute: time.minute },
                    ),
                    _ => None,
                }
            },
        },
    }
}

/// The weekday that `word` names in lower case, in full or in short:
/// `monday` or `mon`, `tuesday`, `tue` or `tues`, and so on.
pub fn parse_weekday(word: &str) -> (weekday: Option<Weekday>)
    ensures
        weekday == weekday_named(word@),
{
    let chars = chars_of(word);
    weekday_in(&chars)
}

/// Reads `text` as an absolute date and time, `YYYY-MM-DD HH:MM`. Whether
/// the calendar has that date is not asked here.
pub fn parse_absolute(text: &str) -> (expr: Option<TimeExpr>)
    ensures
        expr == absolute_form(text@),
{
    let chars = chars_of(text);
    absolute_in(&chars)
}

/// Reads `text` as an offset from now, such as `30m` or `2 hours`.
pub fn parse_relative(text: &str) -> (expr: Option<TimeExpr>)
    ensures
        expr == relative_form(text@),
{
    let chars = chars_of(text);
    relative_in(&chars)
}

/// Reads `text` as a phrase, such as `tomorrow 9am` or `next monday 14:00`.
pub fn parse_natural(text: &str) -> (expr: Option<TimeExpr>)
    ensures
        expr == natural_form(text@),
{
    let chars = chars_of(text);
    natural_in(&chars)
}

/// Reads `text`, which is taken as it stands (in lower case and without
/// white space around it), in the first of the three forms that fits.
pub fn parse_time_expr(text: &str) -> (expr: Option<TimeExpr>)
    ensures
        expr == time_expr(text@),
{
    let chars = chars_of(text);
    match absolute_in(&chars) {
        Some(expr) => Some(expr),
        None => match relative_in(&chars) {
            Some(expr) => Some(expr),
            None => natural_in(&chars),
        },
    }
}

/// Whether `c` is a small letter of the basic alphabet.
pub open spec fn is_letter(c: char) -> bool {
    'a' <= c <= 'z'
}

/// A word that names a weekday has at least three characters, and begins
/// and ends with a letter.
pub proof fn lemma_weekday_word(word: Seq<char>)
    requires
        weekday_named(word) is Some,
    ensures
        word.len() >= 3,
        is_letter(word[0]),
        is_letter(word.last()),
{
    reveal_strlit("monday");
    reveal_strlit("mon");
    reveal_strlit("tuesday");
    reveal_strlit("tue");
    reveal_strlit("tues");
    reveal_strlit("wednesday");
    reveal_strlit("wed");
    reveal_strlit("thursday");
    reveal_strlit("thu");
    reveal_strlit("thur");
    reveal_strlit("thurs");
    reveal_strlit("friday");
    reveal_strlit("fri");
    reveal_strlit("saturday");
    reveal_strlit("sat");
    reveal_strlit("sunday");
    reveal_strlit("sun");
}

/// A phrase that names a day has at least three characters, and begins and
/// ends with a letter.
pub proof fn lemma_day_phrase(phrase: Seq<char>)
    requires
        day_named(phrase) is Some,
    ensures
        phrase.len() >= 3,
        is_letter(phrase[0]),
        is_letter(phrase.last()),
{
    reveal_strlit("today");
    reveal_strlit("tomorrow");
    reveal_strlit("yesterday");
    reveal_strlit("next ");
    reveal_strlit("this ");
    if phrase == "today"@ || phrase == "tomorrow"@ || phrase == "yesterday"@ {
    } else if phrase.len() >= 5 && phrase.subrange(0, 5) == "next "@ {
        let name = phrase.subrange(5, phrase.len() as int);
        lemma_weekday_word(name);
        assert(phrase.subrange(0, 5)[0] == phrase[0]);
        assert(name.last() == phrase.last());
    } else if phrase.len() >= 5 && phrase.subrange(0, 5) == "this "@ {
        let name = phrase.subrange(5, phrase.len() as int);
        lemma_weekday_word(name);
        assert(phrase.subrange(0, 5)[0] == phrase[0]);
        assert(name.last() == phrase.last());
    } else {
        lemma_weekday_word(phrase);
    }
}

/// A text that ends with a digit names no day.
pub proof fn lemma_no_day_ends_in_digit(text: Seq<char>)
    requires
        text.len() > 0,
        is_digit(text.last()),
    ensures
        day_named(text) is None,
{
    if day_named(text) is Some {
        lemma_day_phrase(text);
    }
}

/// A phrase that names a day means 09:00 on that day: the same as the
/// phrase with ` 9:00` after it.
pub proof fn lemma_default_time_of_day(phrase: Seq<char>)
    requires
        day_named(phrase) is Some,
    ensures
        time_expr(phrase) == Some(
            TimeExpr::Natural { day_ref: day_named(phrase).unwrap(), hour: 9, minute: 0 },
        ),
        time_expr(phrase + " 9:00"@) == time_expr(phrase),
{
    reveal_strlit(" 9:00");
    reveal_strlit("am");
    reveal_strlit("pm");
    lemma_day_phrase(phrase);
    let n = phrase.len() as int;
    let tail = " 9:00"@;
    let full = phrase + tail;
    assert(full.len() == n + 5);
    assert(full[0] == phrase[0]);
    assert(full[n] == ' ' && full[n + 1] == '9' && full[n + 2] == ':' && full[n + 3] == '0'
        && full[n + 4] == '0') by {
        assert(full[n] == tail[0]);
        assert(full[n + 1] == tail[1]);
        assert(full[n + 2] == tail[2]);
        assert(full[n + 3] == tail[3]);
        assert(full[n + 4] == tail[4]);
    }
    // Neither text begins with a digit, so neither is a date or an offset.
    assert(absolute_form(phrase) is None) by {
        if absolute_shape(phrase) {
            assert(phrase.subrange(0, 4)[0] == phrase[0]);
        }
    }
    assert(absolute_form(full) is None) by {
        if absolute_shape(full) {
            assert(full.subrange(0, 4)[0] == full[0]);
        }
    }
    assert(skip_digits(phrase, 0) == 0);
    assert(skip_digits(full, 0) == 0);
    assert(relative_form(phrase) is None);
    assert(relative_form(full) is None);
    // The longer text names no day as a whole, and splits at its one blank
    // before the time.
    lemma_no_day_ends_in_digit(full);
    assert(last_space(full, n + 5) == n) by {
        reveal_with_fuel(last_space, 6);
    }
    let head = full.subrange(0, n);
    assert(head == phrase);
    assert(trimmed(phrase) == phrase) by {
        assert(!is_space(phrase[0]));
        assert(!is_space(phrase[n - 1]));
        assert(skip_spaces(phrase, 0) == 0);
        assert(content_end(phrase, n) == n);
        assert(phrase.subrange(0, n) == phrase);
    }
    let word = full.subrange(n + 1, n + 5);
    assert(word.len() == 4);
    assert(word[0] == '9' && word[1] == ':' && word[2] == '0' && word[3] == '0');
    assert(time_of_day(word) == Some(ClockTime { hour: 9, minute: 0 })) by {
        reveal_with_fuel(skip_digits, 3);
        reveal_with_fuel(decimal_value, 4);
        assert(skip_digits(word, 0) == 1);
        let hour = word.subrange(0, 1);
        assert(hour.len() == 1 && hour[0] == '9');
        assert(hour.drop_last().len() == 0);
        assert(decimal_value(hour) == 9);
        let minute = word.subrange(2, 4);
        assert(minute.len() == 2 && minute[0] == '0' && minute[1] == '0');
        assert(minute.drop_last().len() == 1 && minute.drop_last()[0] == '0');
        assert(minute.drop_last().drop_last().len() == 0);
        assert(decimal_value(minute) == 0);
        let suffix = word.subrange(4, 4);
        assert(suffix.len() == 0);
        assert(suffix != "am"@ && suffix != "pm"@);
    }
}

/// `today` means the same as `today 9:00`.
pub proof fn lemma_today_at_nine()
    ensures
        time_expr("today"@) == time_expr("today 9:00"@),
        time_expr("today"@) == Some(
            TimeExpr::Natural { day_ref: DayRef::Today, hour: 9, minute: 0 },
        ),
{
    reveal_strlit("today");
    reveal_strlit(" 9:00");
    reveal_strlit("today 9:00");
    lemma_default_time_of_day("today"@);
    assert("today"@ + " 9:00"@ =~= "today 9:00"@);
}

/// `this` and `next` before the name of a weekday, after one blank, name
/// that weekday as the first from today on and as the first after today.
pub proof fn lemma_this_and_next(word: Seq<char>)
    requires
        weekday_named(word) is Some,
    ensures
        day_named("this "@ + word) == Some(DayRef::This(weekday_named(word).unwrap())),
        day_named("next "@ + word) == Some(DayRef::Next(weekday_named(word).unwrap())),
{
    reveal_strlit("today");
    reveal_strlit("tomorrow");
    reveal_strlit("yesterday");
    reveal_strlit("next ");
    reveal_strlit("this ");
    lemma_weekday_word(word);
    let this = "this "@ + word;
    let next = "next "@ + word;
    assert(this[0] == 't' && this[1] == 'h' && next[0] == 'n') by {
        assert(this[0] == "this "@[0]);
        assert(this[1] == "this "@[1]);
        assert(next[0] == "next "@[0]);
    }
    assert(this.subrange(0, 5) =~= "this "@);
    assert(next.subrange(0, 5) =~= "next "@);
    assert(this.subrange(5, this.len() as int) =~= word);
    assert(next.subrange(5, next.len() as int) =~= word);
    assert(this.subrange(0, 5) != "next "@) by {
        assert(this.subrange(0, 5)[0] == 't');
    }
}

/// With the name of today's weekday, `this` means today and `next` means
/// the day one week later.
pub proof fn lemma_this_and_next_today(word: Seq<char>, today: Day)
    requires
        weekday_named(word) == Some(today.spec_weekday()),
    ensures
        day_named("this "@ + word) matches Some(day_ref) && day_meant(day_ref, today) == Some(
            today,
        ),
        day_named("next "@ + word) matches Some(day_ref) && day_meant(day_ref, today)
            == today.spec_plus(7),
        time_expr("this "@ + word) matches Some(TimeExpr::Natural { day_ref, hour, minute })
            && natural_wall(day_ref, hour, minute, today) == WallTime::spec_on(today, 32_400),
{
    lemma_this_and_next(word);
    lemma_weekday_of_today(today);
    lemma_default_time_of_day("this "@ + word);
}

/// A count of zero is no offset: whatever the unit, and with or without
/// white space before it, the text is refused as a whole.
pub proof fn lemma_zero_is_no_offset(text: Seq<char>)
    requires
        decimal_value(text.subrange(0, skip_digits(text, 0))) == 0,
    ensures
        relative_form(text) is None,
        time_expr(text) matches Some(expr) ==> !(expr is Relative),
{
}

/// `0m` is no point in time.
pub proof fn lemma_zero_minutes_refused()
    ensures
        time_expr("0m"@) is None,
{
    reveal_strlit("0m");
    reveal_strlit("m");
    reveal_strlit("today");
    reveal_strlit("tomorrow");
    reveal_strlit("yesterday");
    let text = "0m"@;
    assert(text.len() == 2 && text[0] == '0' && text[1] == 'm');
    assert(skip_digits(text, 0) == 1) by {
        reveal_with_fuel(skip_digits, 3);
    }
    let digits = text.subrange(0, 1);
    assert(decimal_value(digits) == 0) by {
        reveal_with_fuel(decimal_value, 3);
        assert(digits.len() == 1 && digits[0] == '0');
        assert(digits.drop_last().len() == 0);
    }
    lemma_zero_is_no_offset(text);
    assert(!absolute_shape(text));
    if day_named(text) is Some {
        lemma_day_phrase(text);
    }
    assert(last_space(text, 2) == -1) by {
        reveal_with_fuel(last_space, 3);
    }
}

/// Why a text gave no point in time.
#[derive(Clone, Copy, Debug, PartialEq, Eq, Structural)]
pub enum TimeError {
    /// The text has none of the accepted forms.
    Unrecognized,
    /// The calendar has no such date.
    NoSuchDate,
    /// Local clocks never show that time, or show it twice.
    NoLocalTime,
    /// The time lies beyond what the calendar can hold.
    OutOfRange,
}

/// What to tell the person whose text has none of the accepted forms,
/// after naming the text: the three forms, with examples.
pub const TIME_GUIDANCE: &'static str =
    "Supported formats:\n- Absolute: \"2025-12-25 10:00\"\n- Relative: \"30m\", \"2h\", \"1d\", \"1w\"\n- Natural: \"tomorrow 9am\", \"next monday 14:00\"";

/// What to tell the person who named a date that the calendar does not
/// have.
pub const NO_SUCH_DATE: &'static str = "Invalid calendar date";

/// What to tell the person who named a time that local clocks never show,
/// or show twice.
pub const NO_LOCAL_TIME: &'static str = "Invalid local time";

/// What to tell the person who named a time beyond the calendar.
pub const OUT_OF_RANGE: &'static str = "Time out of range";

impl TimeError {
    /// What to tell the person who typed the text.
    pub fn guidance(&self) -> (text: &'static str)
        ensures
            text@ == (match self {
                TimeError::Unrecognized => TIME_GUIDANCE@,
                TimeError::NoSuchDate => NO_SUCH_DATE@,
                TimeError::NoLocalTime => NO_LOCAL_TIME@,
                TimeError::OutOfRange => OUT_OF_RANGE@,
            }),
    {
        match self {
            TimeError::Unrecognized => TIME_GUIDANCE,
            TimeError::NoSuchDate => NO_SUCH_DATE,
            TimeError::NoLocalTime => NO_LOCAL_TIME,
            TimeError::OutOfRange => OUT_OF_RANGE,
        }
    }
}

/// How many days lie from a day that is a `current` to the first `target`
/// from that day on, the day itself included.
pub open spec fn days_ahead(current: Weekday, target: Weekday) -> int {
    (target.index() - current.index() + 7) % 7
}

/// How many days lie from a day that is a `current` to the first `target`
/// strictly after it: a whole week where the two are the same.
pub open spec fn days_to_next(current: Weekday, target: Weekday) -> int {
    if days_ahead(current, target) == 0 {
        7
    } else {
        days_ahead(current, target)
    }
}

fn count_ahead(current: Weekday, target: Weekday) -> (days: i64)
    ensures
        days == days_ahead(current, target),
        0 <= days < 7,
{
    let t: i64 = target.num_days_from_monday() as i64;
    let c: i64 = current.num_days_from_monday() as i64;
    (t - c + 7) % 7
}

/// The first `target` strictly after `from`: never `from` itself.
pub fn next_weekday(from: Day, target: Weekday) -> (day: Option<Day>)
    ensures
        day == from.spec_plus(days_to_next(from.spec_weekday(), target)),
        day matches Some(d) ==> d.spec_weekday() == target && from.number < d.number
            <= from.number + 7,
{
    let ahead: i64 = count_ahead(from.weekday(), target);
    let ahead: i64 = if ahead == 0 {
        7
    } else {
        ahead
    };
    from.plus_days(ahead)
}

/// The first `target` from `from` on: `from` itself where it is one.
pub fn this_weekday(from: Day, target: Weekday) -> (day: Option<Day>)
    ensures
        day == from.spec_plus(days_ahead(from.spec_weekday(), target)),
        day matches Some(d) ==> d.spec_weekday() == target && from.number <= d.number
            < from.number + 7,
{
    from.plus_days(count_ahead(from.weekday(), target))
}

/// The day that `day` means when today is `today`.
pub open spec fn day_meant(day: DayRef, today: Day) -> Option<Day> {
    match day {
        DayRef::Today => Some(today),
        DayRef::Tomorrow => today.spec_plus(1),
        DayRef::Yesterday => today.spec_plus(-1),
        DayRef::Next(weekday) => today.spec_plus(days_to_next(today.spec_weekday(), weekday)),
        DayRef::This(weekday) => today.spec_plus(days_ahead(today.spec_weekday(), weekday)),
    }
}

/// The day that `day` means when today is `today`.
pub fn resolve_day(day: DayRef, today: Day) -> (meant: Option<Day>)
    ensures
        meant == day_meant(day, today),
{
    match day {
        DayRef::Today => Some(today),
        DayRef::Tomorrow => today.plus_days(1),
        DayRef::Yesterday => today.plus_days(-1),
        DayRef::Next(weekday) => next_weekday(today, weekday),
        DayRef::This(weekday) => this_weekday(today, weekday),
    }
}

/// `this` with the weekday of today means today, and `next` with it means
/// the day one week later.
pub proof fn lemma_weekday_of_today(today: Day)
    ensures
        day_meant(DayRef::This(today.spec_weekday()), today) == Some(today),
        day_meant(DayRef::Next(today.spec_weekday()), today) == today.spec_plus(7),
{
}

/// The day on local clocks at the instant `now`, where local time is
/// `offset` seconds ahead of UTC.
pub open spec fn local_day(now: Timestamp, offset: int) -> Day {
    Day { number: ((now.secs + offset) / 86_400) as i64 }
}

/// The day on local clocks at the instant `now`, where local time is
/// `offset` seconds ahead of UTC.
pub fn today_at(now: &Timestamp, offset: i32) -> (today: Day)
    requires
        -86_400 < offset < 86_400,
    ensures
        today == local_day(*now, offset as int),
{
    let local: i128 = now.secs as i128 + offset as i128;
    let number: i128 = match local.checked_div_euclid(86_400) {
        Some(n) => n,
        None => 0,
    };
    Day { number: number as i64 }
}

/// The wall-clock reading that a phrase means when today is `today`.
pub open spec fn natural_wall(day: DayRef, hour: u8, minute: u8, today: Day) -> Option<
    WallTime,
> {
    match day_meant(day, today) {
        Some(meant) => WallTime::spec_on(meant, hour * 3_600 + minute * 60),
        None => None,
    }
}

/// The wall-clock reading that a phrase means when today is `today`.
pub fn wall_time_of_phrase(day: DayRef, hour: u8, minute: u8, today: Day) -> (wall: Option<
    WallTime,
>)
    ensures
        wall == natural_wall(day, hour, minute, today),
{
    match resolve_day(day, today) {
        Some(meant) => WallTime::on(meant, hour as u32, minute as u32),
        None => None,
    }
}

/// The wall-clock reading `hour:minute` on the civil date
/// `year`-`month`-`day`, or `None` where the calendar has no such date.
pub open spec fn absolute_wall(year: u16, month: u8, day: u8, hour: u8, minute: u8) -> Option<
    WallTime,
> {
    match civil_midnight(year as int, month as int, day as int) {
        Some(midnight) => if i64::MIN <= midnight + hour * 3_600 + minute * 60 <= i64::MAX {
            Some(WallTime { secs: (midnight + hour * 3_600 + minute * 60) as i64 })
        } else {
            None
        },
        None => None,
    }
}

/// The instant `amount` units after `now`, or `None` where the calendar
/// cannot hold it.
pub open spec fn relative_instant(now: Timestamp, amount: i64, unit: TimeUnit) -> Option<
    Timestamp,
> {
    let secs = now.secs + amount * unit.spec_seconds();
    if i64::MIN <= secs <= i64::MAX && representable(secs) {
        Some(Timestamp { secs: secs as i64, nanos: now.nanos })
    } else {
        None
    }
}

/// The instant `amount` units after `now`, or `None` where the calendar
/// cannot hold it.
pub fn instant_after(now: &Timestamp, amount: i64, unit: TimeUnit) -> (instant: Option<Timestamp>)
    ensures
        instant == relative_instant(*now, amount, unit),
{
    let per: i128 = unit.seconds() as i128;
    assert(-0x8000_0000_0000_0000 * 604_800 <= amount * per <= 0x8000_0000_0000_0000 * 604_800)
        by (nonlinear_arith)
        requires
            -0x8000_0000_0000_0000 <= amount < 0x8000_0000_0000_0000,
            0 < per <= 604_800,
    ;
    let secs: i128 = now.secs as i128 + (amount as i128) * per;
    if secs < i64::MIN as i128 || secs > i64::MAX as i128 {
        return None;
    }
    let secs: i64 = secs as i64;
    if calendar_holds(secs) {
        Some(Timestamp { secs, nanos: now.nanos })
    } else {
        None
    }
}

/// What comes of a wall-clock reading once local clocks have been asked
/// for its instant: the instant, or the reason why there is none.
pub fn settle(found: Option<Timestamp>) -> (settled: Result<Timestamp, TimeError>)
    ensures
        settled == (match found {
            Some(instant) => Ok::<Timestamp, TimeError>(instant),
            None => Err(TimeError::NoLocalTime),
        }),
{
    match found {
        Some(instant) => Ok(instant),
        None => Err(TimeError::NoLocalTime),
    }
}

/// Whether the instant `at` can be the one at which local clocks show
/// `wall`: a whole second, less than a day from `wall` taken as UTC.
pub open spec fn shows(at: Timestamp, wall: WallTime) -> bool {
    at.nanos == 0 && wall.secs - 86_400 < at.secs < wall.secs + 86_400
}

/// The one instant at which local clocks show `wall`. Which instant that
/// is, and whether there is one, lies with the machine's time zone.
pub fn instant_of_wall(wall: Option<WallTime>) -> (found: Result<Timestamp, TimeError>)
    ensures
        (wall matches Some(w) && representable(w.secs as int)) ==> (found is Ok || found == Err::<
            Timestamp,
            TimeError,
        >(TimeError::NoLocalTime)),
        found matches Ok(at) ==> (wall matches Some(w) && shows(at, w)),
        !(wall matches Some(w) && representable(w.secs as int)) ==> found == Err::<
            Timestamp,
            TimeError,
        >(TimeError::OutOfRange),
{
    match wall {
        Some(w) => {
            if calendar_holds(w.secs) {
                settle(resolve_local(&w))
            } else {
                Err(TimeError::OutOfRange)
            }
        },
        None => Err(TimeError::OutOfRange),
    }
}

/// Whether `at` can be the instant that `expr` means at the instant `now`.
///
/// For an offset it is `now` moved by the offset. For a date and time it
/// shows that reading on local clocks. For a phrase it shows, on local
/// clocks, the reading that the phrase means on the day that those clocks
/// show at `now`, local time being some offset of less than a day from UTC.
pub open spec fn can_mean(expr: TimeExpr, now: Timestamp, at: Timestamp) -> bool {
    match expr {
        TimeExpr::Relative { amount, unit } => relative_instant(now, amount, unit) == Some(at),
        TimeExpr::Absolute { year, month, day, hour, minute } => absolute_wall(
            year,
            month,
            day,
            hour,
            minute,
        ) matches Some(w) && shows(at, w),
        TimeExpr::Natural { day_ref, hour, minute } => exists|offset: int|
            -86_400 < offset < 86_400 && (#[trigger] natural_wall(
                day_ref,
                hour,
                minute,
                local_day(now, offset),
            ) matches Some(w) && shows(at, w)),
    }
}

/// Whether `found` can be what comes of `expr` at the instant `now`.
///
/// An offset gives `now` moved by it, or `OutOfRange` where the calendar
/// cannot hold that. A date that the calendar does not have gives
/// `NoSuchDate`, and a date and time beyond the calendar `OutOfRange`. A
/// phrase at an instant beyond the calendar gives `OutOfRange`. What is
/// found at all is an instant that `expr` can mean.
pub open spec fn outcome_of(
    expr: TimeExpr,
    now: Timestamp,
    found: Result<Timestamp, TimeError>,
) -> bool {
    &&& found != Err::<Timestamp, TimeError>(TimeError::Unrecognized)
    &&& (found matches Ok(at) ==> can_mean(expr, now, at))
    &&& match expr {
        TimeExpr::Relative { amount, unit } => found == (match relative_instant(now, amount, unit) {
            Some(instant) => Ok::<Timestamp, TimeError>(instant),
            None => Err(TimeError::OutOfRange),
        }),
        TimeExpr::Absolute { year, month, day, hour, minute } => {
            &&& found == Err::<Timestamp, TimeError>(TimeError::NoSuchDate) <==> !is_calendar_date(
                year as int,
                month as int,
                day as int,
            )
            &&& found == Err::<Timestamp, TimeError>(TimeError::OutOfRange) <==> (is_calendar_date(
                year as int,
                month as int,
                day as int,
            ) && !(absolute_wall(year, month, day, hour, minute) matches Some(w) && representable(
                w.secs as int,
            )))
            &&& (hour < 24 && minute < 60 ==> found != Err::<Timestamp, TimeError>(
                TimeError::OutOfRange,
            ))
        },
        TimeExpr::Natural { .. } => {
            &&& found != Err::<Timestamp, TimeError>(TimeError::NoSuchDate)
            &&& (!representable(now.secs as int) ==> found == Err::<Timestamp, TimeError>(
                TimeError::OutOfRange,
            ))
        },
    }
}

/// Whether `found` can be what comes of the text `input` at the instant
/// `now`: `Unrecognized` where the text has none of the accepted forms,
/// else what can come of what it says.
pub open spec fn reads_at(
    input: Seq<char>,
    now: Timestamp,
    found: Result<Timestamp, TimeError>,
) -> bool {
    match time_expr(normal_text(input)) {
        Some(expr) => outcome_of(expr, now, found),
        None => found == Err::<Timestamp, TimeError>(TimeError::Unrecognized),
    }
}

/// The refusal that is certain for what `expr` says at the instant `now`,
/// whatever the machine's time zone: it names a date that the calendar
/// does not have, or means an instant beyond the calendar.
pub open spec fn refusal_of(expr: TimeExpr, now: Timestamp) -> Option<TimeError> {
    match expr {
        TimeExpr::Relative { amount, unit } => if relative_instant(now, amount, unit) is None {
            Some(TimeError::OutOfRange)
        } else {
            None
        },
        TimeExpr::Absolute { year, month, day, .. } => if !is_calendar_date(
            year as int,
            month as int,
            day as int,
        ) {
            Some(TimeError::NoSuchDate)
        } else {
            None
        },
        TimeExpr::Natural { .. } => if !representable(now.secs as int) {
            Some(TimeError::OutOfRange)
        } else {
            None
        },
    }
}

/// The refusal that is certain for the text `input` at the instant `now`,
/// whatever the machine's time zone: the text has none of the accepted
/// forms, names a date that the calendar does not have, or means an
/// instant beyond the calendar.
pub open spec fn refusal_at(input: Seq<char>, now: Timestamp) -> Option<TimeError> {
    match time_expr(normal_text(input)) {
        None => Some(TimeError::Unrecognized),
        Some(expr) => refusal_of(expr, now),
    }
}

/// The refusal that is certain for the text `input` at any instant: the
/// text has none of the accepted forms, or names a date that the calendar
/// does not have.
pub open spec fn refusal(input: Seq<char>) -> Option<TimeError> {
    match time_expr(normal_text(input)) {
        None => Some(TimeError::Unrecognized),
        Some(TimeExpr::Absolute { year, month, day, .. }) => if !is_calendar_date(
            year as int,
            month as int,
            day as int,
        ) {
            Some(TimeError::NoSuchDate)
        } else {
            None
        },
        Some(_) => None,
    }
}

/// A text for which a refusal is certain is refused with it, and a text
/// that is read is read as an instant that it can mean.
pub proof fn lemma_refusal_is_certain(
    input: Seq<char>,
    now: Timestamp,
    found: Result<Timestamp, TimeError>,
)
    requires
        reads_at(input, now, found),
    ensures
        refusal_at(input, now) matches Some(e) ==> found == Err::<Timestamp, TimeError>(e),
        refusal(input) matches Some(e) ==> found == Err::<Timestamp, TimeError>(e),
        found matches Ok(at) ==> (time_expr(normal_text(input)) matches Some(expr) && can_mean(
            expr,
            now,
            at,
        )),
{
}

/// The instant that `expr` means at the instant `now`.
///
/// An offset is counted from `now`. A date and time, and a phrase, are
/// readings of local clocks: the phrase is read from the day that local
/// clocks show at `now`.
pub fn time_at(expr: TimeExpr, now: &Timestamp) -> (found: Result<Timestamp, TimeError>)
    ensures
        outcome_of(expr, *now, found),
{
    match expr {
        TimeExpr::Relative { amount, unit } => match instant_after(now, amount, unit) {
            Some(instant) => Ok(instant),
            None => Err(TimeError::OutOfRange),
        },
        TimeExpr::Absolute { year, month, day, hour, minute } => {
            match midnight_of(year as i32, month as u32, day as u32) {
                Some(midnight) => {
                    let secs: i128 = midnight as i128 + (hour as i128) * 3_600 + (minute as i128)
                        * 60;
                    if secs < i64::MIN as i128 || secs > i64::MAX as i128 {
                        Err(TimeError::OutOfRange)
                    } else {
                        instant_of_wall(Some(WallTime { secs: secs as i64 }))
                    }
                },
                None => Err(TimeError::NoSuchDate),
            }
        },
        TimeExpr::Natural { day_ref, hour, minute } => {
            if !calendar_holds(now.secs) {
                return Err(TimeError::OutOfRange);
            }
            let offset: i32 = local_offset(now);
            let today = today_at(now, offset);
            let found = instant_of_wall(wall_time_of_phrase(day_ref, hour, minute, today));
            proof {
                if found is Ok {
                    assert(natural_wall(day_ref, hour, minute, local_day(*now, offset as int))
                        is Some);
                }
            }
            found
        },
    }
}

/// A text as the forms are read from it: without the white space at its
/// two ends, and in lower case.
pub open spec fn normal_text(input: Seq<char>) -> Seq<char> {
    lowercase(trimmed(input))
}

/// Reads `input` as a point in time, seen from the instant `now`.
///
/// White space around the text and the case of its letters do not count.
/// The forms are tried in this order: `YYYY-MM-DD HH:MM`; a count of at
/// least one and a unit, such as `30m`; a phrase, such as `tomorrow 9am`.
pub fn parse_time_at(input: &str, now: &Timestamp) -> (found: Result<Timestamp, TimeError>)
    ensures
        reads_at(input@, *now, found),
        is_plain(input@) ==> normal_text(input@) == small_letters(trimmed(input@)),
        refusal_at(input@, *now) matches Some(e) ==> found == Err::<Timestamp, TimeError>(e),
        found == Err::<Timestamp, TimeError>(TimeError::Unrecognized) <==> time_expr(
            normal_text(input@),
        ) is None,
        found matches Ok(at) ==> (time_expr(normal_text(input@)) matches Some(expr) && can_mean(
            expr,
            *now,
            at,
        )),
{
    let inner = trim(input);
    proof {
        if is_plain(input@) {
            lemma_trimmed_is_plain(input@);
        }
    }
    let text = to_lowercase(inner);
    match parse_time_expr(text.as_str()) {
        Some(expr) => time_at(expr, now),
        None => Err(TimeError::Unrecognized),
    }
}

/// Plain text without the white space at its ends is plain text.
pub proof fn lemma_trimmed_is_plain(input: Seq<char>)
    requires
        is_plain(input),
    ensures
        is_plain(trimmed(input)),
{
    lemma_skip_spaces(input, 0);
    lemma_content_end(input, input.len() as int);
    let start = skip_spaces(input, 0);
    let inner = trimmed(input);
    assert forall|i: int| 0 <= i < inner.len() implies (#[trigger] inner[i]) as int <= 127 by {
        assert(inner[i] == input[start + i]);
    }
}

/// Thirty minutes after the start of 2025 in UTC is half past midnight:
/// `30m` names an offset of thirty minutes, and the calendar holds the
/// instant that lies that far after the start of the year.
pub proof fn lemma_thirty_minutes_after_new_year()
    ensures
        time_expr("30m"@) == Some(TimeExpr::Relative { amount: 30, unit: TimeUnit::Minutes }),
        relative_instant(Timestamp { secs: 1_735_689_600, nanos: 0 }, 30, TimeUnit::Minutes)
            == Some(Timestamp { secs: 1_735_691_400, nanos: 0 }),
        outcome_of(
            TimeExpr::Relative { amount: 30, unit: TimeUnit::Minutes },
            Timestamp { secs: 1_735_689_600, nanos: 0 },
            Ok(Timestamp { secs: 1_735_691_400, nanos: 0 }),
        ),
{
    reveal_strlit("30m");
    reveal_strlit("m");
    let text = "30m"@;
    assert(text.len() == 3 && text[0] == '3' && text[1] == '0' && text[2] == 'm');
    assert(!absolute_shape(text));
    assert(skip_digits(text, 0) == 2) by {
        reveal_with_fuel(skip_digits, 4);
    }
    assert(skip_spaces(text, 2) == 2);
    assert(text.subrange(2, 3) =~= "m"@);
    let digits = text.subrange(0, 2);
    assert(decimal_value(digits) == 30) by {
        reveal_with_fuel(decimal_value, 4);
        assert(digits.len() == 2 && digits[0] == '3' && digits[1] == '0');
        assert(digits.drop_last() =~= seq!['3']);
        assert(digits.drop_last().drop_last() =~= Seq::<char>::empty());
    }
}

/// Ten o'clock on 25 December 2025 is the wall-clock reading that lies
/// 1766656800 seconds after the start of 1970.
pub proof fn lemma_christmas_morning()
    ensures
        absolute_wall(2025, 12, 25, 10, 0) == Some(WallTime { secs: 1_766_656_800 }),
        representable(1_766_656_800),
{
}

/// The calendar has no 30 February: what names it is refused as naming no
/// date, at every instant and in every time zone.
pub proof fn lemma_no_thirtieth_of_february(
    year: u16,
    hour: u8,
    minute: u8,
    now: Timestamp,
    found: Result<Timestamp, TimeError>,
)
    requires
        outcome_of(TimeExpr::Absolute { year, month: 2, day: 30, hour, minute }, now, found),
    ensures
        found == Err::<Timestamp, TimeError>(TimeError::NoSuchDate),
{
}

/// Reads `input` as a point in time, seen from the present instant.
pub fn parse_time(input: &str) -> (found: Result<Timestamp, TimeError>)
    ensures
        exists|now: Timestamp| #[trigger] reads_at(input@, now, found),
        refusal(input@) matches Some(e) ==> found == Err::<Timestamp, TimeError>(e),
        found == Err::<Timestamp, TimeError>(TimeError::Unrecognized) <==> time_expr(
            normal_text(input@),
        ) is None,
        found matches Ok(at) ==> (time_expr(normal_text(input@)) matches Some(expr)
            && exists|now: Timestamp| #[trigger] can_mean(expr, now, at)),
{
    let now = clock_now();
    parse_time_at(input, &now)
}

} // verus!
