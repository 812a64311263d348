//! Reading a recurrence rule from text: a cron expression as it stands, or
//! an English phrase that is translated into one.

use vstd::prelude::*;
use vstd::string::*;
use crate::calendar::{calendar_holds, representable, Timestamp};
use crate::text::{
    chars_of,
    count_fields,
    field_count,
    is_space,
    is_space_char,
    lemma_trimmed_is_trimmed,
    slice_of,
    trim,
    trim_bounds,
    trimmed,
};

verus! {

/// `cron::Schedule`: a cron expression as the validator has read it. It is
/// handed from the validator to the evaluation, and nothing is seen of it.
#[verifier::external_type_specification]
#[verifier::external_body]
pub struct ExSchedule(cron::Schedule);

/// `cron::error::Error`: why the validator refused an expression.
#[verifier::external_type_specification]
#[verifier::external_body]
pub struct ExScheduleError(cron::error::Error);

/// `english_to_cron::Error`: why the translator made nothing of a phrase.
#[verifier::external_type_specification]
#[verifier::external_body]
pub struct ExTranslationError(english_to_cron::Error);

/// Whether `cron::Schedule::from_str` accepts `expr` as a cron expression.
pub uninterp spec fn cron_accepts(expr: Seq<char>) -> bool;

/// The cron expression that `english_to_cron::str_cron_syntax` makes of the
/// English phrase `text`, or `None` where it makes none.
pub uninterp spec fn english_cron(text: Seq<char>) -> Option<Seq<char>>;

/// `cron::Schedule::from_str`: whether it succeeds depends on the
/// characters of `expr` alone.
#[verifier::external_body]
pub(crate) fn read_schedule(expr: &str) -> (read: Result<cron::Schedule, cron::error::Error>)
    ensures
        read is Ok <==> cron_accepts(expr@),
{
    expr.parse::<cron::Schedule>()
}

/// `english_to_cron::str_cron_syntax`: what it returns depends on the
/// characters of `text` alone.
#[verifier::external_body]
pub(crate) fn translate_english(text: &str) -> (made: Result<String, english_to_cron::Error>)
    ensures
        match made {
            Ok(expr) => english_cron(text@) == Some(expr@),
            Err(_) => english_cron(text@) is None,
        },
{
    english_to_cron::str_cron_syntax(text)
}

/// Why a text gave no recurrence rule.
#[derive(Debug)]
pub enum CronError {
    /// The text is no cron expression, and no English phrase that the
    /// translator knows.
    Unrecognized,
    /// The translator made of the text the expression held here, and the
    /// validator refuses it: a fault of the translator, not of the text.
    GeneratedInvalid(String),
}

/// What to tell the person whose text is no rule, after naming the text:
/// the two families of texts that are read, with examples.
pub const CRON_GUIDANCE: &'static str =
    "Supported formats:\n- Standard cron: \"0 0 9 * * *\" (sec min hour day month weekday)\n- English: \"every day at 9am\", \"every monday at 14:00\", \"every hour\"\n\nEnglish examples:\n- \"every minute\"\n- \"every hour\"\n- \"every day at 9am\"\n- \"every monday at 10:00\"\n- \"every weekday at 8:30\"\n- \"every 30 minutes\"";

/// What to tell the person whose text the translator turned into an
/// expression that the validator refuses.
pub const TRANSLATION_FAULT: &'static str = "Generated invalid cron expression";

impl CronError {
    /// What to tell the person who typed the text.
    pub fn guidance(&self) -> (text: &'static str)
        ensures
            text@ == (match self {
                CronError::Unrecognized => CRON_GUIDANCE@,
                CronError::GeneratedInvalid(_) => TRANSLATION_FAULT@,
            }),
    {
        match self {
            CronError::Unrecognized => CRON_GUIDANCE,
            CronError::GeneratedInvalid(_) => TRANSLATION_FAULT,
        }
    }
}

/// What a text comes to as a recurrence rule.
pub enum CronReading {
    /// This validated cron expression.
    Rule(Seq<char>),
    /// This expression, which the translator made and the validator refuses.
    Faulty(Seq<char>),
    /// Nothing.
    Unknown,
}

/// What `outcome` says, with texts as sequences of characters.
pub open spec fn reading_of(outcome: Result<String, CronError>) -> CronReading {
    match outcome {
        Ok(rule) => CronReading::Rule(rule@),
        Err(CronError::GeneratedInvalid(made)) => CronReading::Faulty(made@),
        Err(CronError::Unrecognized) => CronReading::Unknown,
    }
}

/// The six-field form of the expression `expr`: second, minute, hour, day
/// of the month, month and day of the week, with one run of white space
/// between two fields and none at the ends.
///
/// An expression of six fields is in that form once the white space at
/// its ends is gone. One of seven fields whose last field, the year, is
/// `*` says the same without that field. Any other has no such form.
pub open spec fn six_field_form(expr: Seq<char>) -> Option<Seq<char>> {
    let text = trimmed(expr);
    if field_count(text) == 6 {
        Some(text)
    } else if field_count(text) == 7 && text.len() >= 2 && text.last() == '*' && is_space(
        text[text.len() - 2],
    ) && field_count(trimmed(text.drop_last())) == 6 {
        Some(trimmed(text.drop_last()))
    } else {
        None
    }
}

/// The rule that the expression `made` comes to: its six-field form, where
/// it has one and the validator accepts that.
pub open spec fn canonical_rule(made: Seq<char>) -> Option<Seq<char>> {
    match six_field_form(made) {
        Some(rule) => if cron_accepts(rule) {
            Some(rule)
        } else {
            None
        },
        None => None,
    }
}

/// Whether `rule` is a rule as the library hands it out: a cron expression
/// of six fields that the validator accepts, without white space at its
/// ends.
pub open spec fn is_rule(rule: Seq<char>) -> bool {
    cron_accepts(rule) && field_count(rule) == 6 && trimmed(rule) == rule
}

/// The rule chosen for a text: the text itself where it is a rule as it
/// stands (`direct`); else the rule that its translation comes to
/// (`canonical`), where there is a translation (`made`).
pub open spec fn chosen_rule(
    text: Seq<char>,
    direct: bool,
    made: Option<Seq<char>>,
    canonical: Option<Seq<char>>,
) -> CronReading {
    if direct {
        CronReading::Rule(text)
    } else {
        match made {
            Some(made) => match canonical {
                Some(rule) => CronReading::Rule(rule),
                None => CronReading::Faulty(made),
            },
            None => CronReading::Unknown,
        }
    }
}

/// What the text `input` comes to as a recurrence rule. White space around
/// it does not count.
///
/// A text that is a valid cron expression of six fields is its own rule.
/// Any other text is a rule only through the translator of English
/// phrases: where that makes an expression of it, the rule is the
/// six-field form of that expression, which the validator must accept.
pub open spec fn normalized_cron(input: Seq<char>) -> CronReading {
    let text = trimmed(input);
    chosen_rule(
        text,
        cron_accepts(text) && field_count(text) == 6,
        english_cron(text),
        match english_cron(text) {
            Some(made) => canonical_rule(made),
            None => None,
        },
    )
}

/// A valid cron expression of six fields without white space at its ends
/// is its own rule: it comes back unchanged.
pub proof fn lemma_valid_cron_unchanged(input: Seq<char>)
    requires
        cron_accepts(input),
        field_count(input) == 6,
        trimmed(input) == input,
    ensures
        normalized_cron(input) == CronReading::Rule(input),
{
}

/// Whatever a text comes to as a rule is a valid cron expression of six
/// fields without white space at its ends, and is its own rule in turn.
pub proof fn lemma_rule_is_valid(input: Seq<char>)
    ensures
        normalized_cron(input) matches CronReading::Rule(rule) ==> is_rule(rule),
        normalized_cron(input) matches CronReading::Rule(rule) ==> normalized_cron(rule)
            == CronReading::Rule(rule),
{
    lemma_trimmed_is_trimmed(input);
    match english_cron(trimmed(input)) {
        Some(made) => {
            lemma_trimmed_is_trimmed(made);
            lemma_trimmed_is_trimmed(trimmed(made).drop_last());
        },
        None => {},
    }
}

/// Tells whether `expr` is a valid cron expression.
pub fn is_valid_cron(expr: &str) -> (valid: bool)
    ensures
        valid == cron_accepts(expr@),
{
    match read_schedule(expr) {
        Ok(_) => true,
        Err(_) => false,
    }
}

/// Puts the expression `expr` in six-field form, where it has one.
pub fn six_fields(expr: &str) -> (form: Option<String>)
    ensures
        match form {
            Some(text) => six_field_form(expr@) == Some(text@),
            None => six_field_form(expr@) is None,
        },
{
    let chars = chars_of(expr);
    let (start, end) = trim_bounds(&chars);
    let text = slice_of(&chars, start, end);
    let fields: usize = count_fields(&text);
    if fields == 6 {
        return Some(String::from_str(expr.substring_char(start, end)));
    }
    let n: usize = text.len();
    if fields == 7 && n >= 2 && text[n - 1] == '*' && is_space_char(text[n - 2]) {
        let head = slice_of(&text, 0, n - 1);
        assert(head@ == text@.drop_last());
        let (from, to) = trim_bounds(&head);
        let short = slice_of(&head, from, to);
        if count_fields(&short) == 6 {
            assert(expr@.subrange(start + from, start + to) == short@);
            return Some(String::from_str(expr.substring_char(start + from, start + to)));
        }
    }
    None
}

/// The rule that the expression `made` comes to: its six-field form, where
/// it has one and the validator accepts that.
pub fn canonical(made: &str) -> (rule: Option<String>)
    ensures
        match rule {
            Some(text) => canonical_rule(made@) == Some(text@),
            None => canonical_rule(made@) is None,
        },
        rule matches Some(text) ==> is_rule(text@),
{
    proof {
        lemma_trimmed_is_trimmed(made@);
        lemma_trimmed_is_trimmed(trimmed(made@).drop_last());
    }
    match six_fields(made) {
        Some(text) => if is_valid_cron(text.as_str()) {
            Some(text)
        } else {
            None
        },
        None => None,
    }
}

/// Tells whether `text` is a rule as the library hands it out: a valid
/// cron expression of six fields without white space at its ends.
pub fn is_six_field_cron(text: &str) -> (valid: bool)
    ensures
        valid == is_rule(text@),
{
    let chars = chars_of(text);
    let (start, end) = trim_bounds(&chars);
    assert(chars@.subrange(0, chars@.len() as int) == chars@);
    if start != 0 || end != chars.len() {
        proof {
            if trimmed(text@) == text@ {
                assert(chars@.subrange(start as int, end as int).len() == chars@.len());
            }
        }
        return false;
    }
    count_fields(&chars) == 6 && is_valid_cron(text)
}

/// Chooses the rule for `text`, given whether it is a rule as it stands
/// (`direct`), what the translator made of it (`made`), and the rule that
/// this comes to (`canonical`).
pub fn choose_rule(
    text: &str,
    direct: bool,
    made: Option<String>,
    canonical: Option<String>,
) -> (outcome: Result<String, CronError>)
    ensures
        reading_of(outcome) == chosen_rule(
            text@,
            direct,
            match made {
                Some(made) => Some(made@),
                None => None,
            },
            match canonical {
                Some(rule) => Some(rule@),
                None => None,
            },
        ),
{
    if direct {
        Ok(String::from_str(text))
    } else {
        match made {
            Some(made) => match canonical {
                Some(rule) => Ok(rule),
                None => Err(CronError::GeneratedInvalid(made)),
            },
            None => Err(CronError::Unrecognized),
        }
    }
}

/// Reads `input` as a recurrence rule and gives it as a valid cron
/// expression of six fields.
///
/// A text that is a valid cron expression of six fields comes back as it
/// stands, without the white space around it. Any other text is handed to
/// the translator of English phrases; what that makes is put in six-field
/// form and validated in turn.
pub fn parse_cron(input: &str) -> (outcome: Result<String, CronError>)
    ensures
        reading_of(outcome) == normalized_cron(input@),
        outcome matches Ok(rule) ==> is_rule(rule@),
        outcome matches Ok(rule) ==> normalized_cron(rule@) == CronReading::Rule(rule@),
        is_rule(trimmed(input@)) ==> (outcome matches Ok(rule) && rule@ == trimmed(input@)),
{
    proof {
        lemma_rule_is_valid(input@);
        lemma_trimmed_is_trimmed(input@);
    }
    let text = trim(input);
    if is_six_field_cron(text) {
        return choose_rule(text, true, None, None);
    }
    match translate_english(text) {
        Ok(made) => {
            let rule = canonical(made.as_str());
            choose_rule(text, false, Some(made), rule)
        },
        Err(_) => choose_rule(text, false, None, None),
    }
}

/// How many occurrences of a rule are looked at in the search for one that
/// is later than now.
pub const LOOKAHEAD: usize = 3;

/// `cron::Schedule::after`, walked for at most `count` items: occurrences
/// of the rule in local time, sought from the instant `after` on. Which
/// instants they are lies with the machine's time zone; where local clocks
/// are set back, the first of them can lie before `after`.
#[verifier::external_body]
pub(crate) fn occurrences_after(
    schedule: &cron::Schedule,
    after: &Timestamp,
    count: usize,
) -> (found: Vec<Timestamp>)
    requires
        representable(after.secs as int),
        representable(after.secs + 1),
        after.nanos < 1_000_000_000,
    ensures
        found@.len() <= count,
{
    let utc = chrono::DateTime::from_timestamp(after.secs, after.nanos).unwrap();
    let start = utc.with_timezone(&chrono::Local);
    let mut found: Vec<Timestamp> = Vec::new();
    for t in schedule.after(&start).take(count) {
        found.push(Timestamp { secs: t.timestamp(), nanos: t.timestamp_subsec_nanos() });
    }
    found
}

/// When a rule is next due.
#[derive(Clone, Copy, Debug, PartialEq, Eq, Structural)]
pub enum Occurrence {
    /// At this instant.
    At(Timestamp),
    /// Never again, as far as was looked.
    Never,
    /// The rule cannot be read.
    CorruptRule,
}

impl Occurrence {
    /// The instant at which the rule is next due, if there is one.
    pub open spec fn spec_instant(self) -> Option<Timestamp> {
        match self {
            Occurrence::At(at) => Some(at),
            _ => None,
        }
    }

    /// The instant at which the rule is next due, if there is one.
    pub fn instant(self) -> (at: Option<Timestamp>)
        ensures
            at == self.spec_instant(),
    {
        match self {
            Occurrence::At(at) => Some(at),
            _ => None,
        }
    }
}

/// The first of `candidates` that is strictly later than `now`.
pub open spec fn first_later(candidates: Seq<Timestamp>, now: Timestamp) -> Option<Timestamp>
    decreases candidates.len(),
{
    if candidates.len() == 0 {
        None
    } else if candidates[0].is_after(now) {
        Some(candidates[0])
    } else {
        first_later(candidates.drop_first(), now)
    }
}

/// The first of `candidates` that is strictly later than `now`.
pub fn first_after(candidates: &Vec<Timestamp>, now: &Timestamp) -> (first: Option<Timestamp>)
    ensures
        first == first_later(candidates@, *now),
        first matches Some(t) ==> t.is_after(*now),
{
    let mut i: usize = 0;
    assert(candidates@.subrange(0, candidates@.len() as int) == candidates@);
    while i < candidates.len()
        invariant
            i <= candidates.len(),
            first_later(candidates@, *now) == first_later(
                candidates@.subrange(i as int, candidates@.len() as int),
                *now,
            ),
        decreases candidates.len() - i,
    {
        let ghost rest = candidates@.subrange(i as int, candidates@.len() as int);
        assert(rest[0] == candidates@[i as int]);
        assert(rest.drop_first() == candidates@.subrange(i + 1, candidates@.len() as int));
        if candidates[i].later_than(now) {
            return Some(candidates[i]);
        }
        i = i + 1;
    }
    assert(candidates@.subrange(i as int, candidates@.len() as int).len() == 0);
    None
}

/// What the search for the next occurrence comes to, given the occurrences
/// that the rule's evaluation gave.
pub open spec fn occurrence_among(candidates: Seq<Timestamp>, now: Timestamp) -> Occurrence {
    match first_later(candidates, now) {
        Some(t) => Occurrence::At(t),
        None => Occurrence::Never,
    }
}

/// Picks the next occurrence from those that the rule's evaluation gave:
/// the first that is strictly later than `now`.
pub fn pick_occurrence(candidates: &Vec<Timestamp>, now: &Timestamp) -> (found: Occurrence)
    ensures
        found == occurrence_among(candidates@, *now),
        found matches Occurrence::At(t) ==> t.is_after(*now),
        found != Occurrence::CorruptRule,
{
    match first_after(candidates, now) {
        Some(t) => Occurrence::At(t),
        None => Occurrence::Never,
    }
}

/// Whether the rule's evaluation can be asked for what follows the instant
/// `now`: whether the calendar holds `now` and the second after it. For
/// any other instant there is no occurrence to find.
pub open spec fn can_be_asked(now: Timestamp) -> bool {
    &&& now.nanos < 1_000_000_000
    &&& representable(now.secs as int)
    &&& representable(now.secs + 1)
}

/// When the rule `expr` is next due after the instant `now`: its first
/// occurrence in local time that is strictly later than `now`.
pub fn next_occurrence(expr: &str, now: &Timestamp) -> (found: Occurrence)
    ensures
        found == Occurrence::CorruptRule <==> !cron_accepts(expr@),
        found matches Occurrence::At(t) ==> t.is_after(*now),
        cron_accepts(expr@) && !can_be_asked(*now) ==> found == Occurrence::Never,
{
    match read_schedule(expr) {
        Ok(schedule) => {
            if now.nanos >= 1_000_000_000 || now.secs == i64::MAX || !calendar_holds(now.secs)
                || !calendar_holds(now.secs + 1) {
                Occurrence::Never
            } else {
                let candidates = occurrences_after(&schedule, now, LOOKAHEAD);
                pick_occurrence(&candidates, now)
            }
        },
        Err(_) => Occurrence::CorruptRule,
    }
}

} // verus!
