use reminder_cli::cron_parser::{
    canonical, choose_rule, first_after, is_six_field_cron, is_valid_cron, next_occurrence,
    parse_cron, pick_occurrence, six_fields, CronError, Occurrence,
};
use reminder_cli::text::count_fields;
use reminder_cli::calendar::Timestamp;
use chrono::TimeZone;
use std::str::FromStr;

#[test]
fn test_standard_cron() {
    let result = parse_cron("0 0 9 * * *");
    assert!(result.is_ok());
    assert_eq!(result.unwrap(), "0 0 9 * * *");
}

#[test]
fn test_english_cron() {
    let result = parse_cron("every day at 9am");
    assert!(result.is_ok());
}

#[test]
fn valid_cron_comes_back_unchanged() {
    for expr in ["0 0 9 * * *", "*/5 * * * * *", "0 30 8 * * Mon-Fri", "0 0 12 ? * SUN"] {
        assert!(is_valid_cron(expr));
        assert!(is_six_field_cron(expr));
        assert_eq!(parse_cron(expr).unwrap(), expr);
    }
    assert_eq!(parse_cron("  0 0 9 * * *\n").unwrap(), "0 0 9 * * *");
    assert_eq!(parse_cron("0 0   9 * *\t*").unwrap(), "0 0   9 * *\t*");
}

fn fields(text: &str) -> usize {
    count_fields(&text.chars().collect())
}

#[test]
fn rules_have_six_fields() {
    // The validator takes a seventh field and short names; a rule has six fields.
    for expr in ["0 0 0 1 1 * 2030", "0 0 9 * * * *", "@daily", "@hourly"] {
        assert!(is_valid_cron(expr), "{}", expr);
        assert!(!is_six_field_cron(expr), "{}", expr);
        match parse_cron(expr) {
            Ok(rule) => {
                assert_ne!(rule, expr);
                assert!(is_six_field_cron(&rule), "{} gave {}", expr, rule);
            }
            Err(_) => {}
        }
    }
    assert!(!is_six_field_cron(" 0 0 9 * * *"));
    assert!(!is_six_field_cron("0 0 9 * * * "));
    assert!(!is_six_field_cron("0 0 9 * *"));
    assert!(!is_six_field_cron("a b c d e f"));
    assert_eq!(fields(""), 0);
    assert_eq!(fields("   "), 0);
    assert_eq!(fields("a"), 1);
    assert_eq!(fields(" a  b\tc\u{a0}d "), 4);
    assert_eq!(fields("0 0 9 * * *"), 6);
}

#[test]
fn a_year_that_says_nothing_is_dropped() {
    assert_eq!(six_fields("0 0 16 */1 * ? *").as_deref(), Some("0 0 16 */1 * ?"));
    assert_eq!(six_fields(" 0 0 16 */1 * ?  * ").as_deref(), Some("0 0 16 */1 * ?"));
    assert_eq!(six_fields("0 0 9 * * *").as_deref(), Some("0 0 9 * * *"));
    assert_eq!(six_fields("  0 0 9 * * *\n").as_deref(), Some("0 0 9 * * *"));
    assert_eq!(six_fields("0 0 0 1 1 * 2030"), None);
    assert_eq!(six_fields("0 0 0 1 1 * **"), None);
    assert_eq!(six_fields("0 0 0 1 1 * * *"), None);
    assert_eq!(six_fields("0 0 0 1 1"), None);
    assert_eq!(six_fields("*"), None);
    assert_eq!(six_fields(""), None);
    assert_eq!(canonical("0 0 16 */1 * ? *").as_deref(), Some("0 0 16 */1 * ?"));
    assert_eq!(canonical("0 0 25 * * * *"), None);
    assert_eq!(canonical("0 0 0 1 1 * 2030"), None);
}

#[test]
fn english_phrases_give_valid_cron() {
    for phrase in [
        "every day at 9am",
        "every monday at 14:00",
        "every hour",
        "every 30 minutes",
        "every minute",
        "every 15 seconds",
    ] {
        let rule = parse_cron(phrase).unwrap();
        assert!(is_valid_cron(&rule), "{} gave {}", phrase, rule);
        assert_eq!(fields(&rule), 6, "{} gave {}", phrase, rule);
        assert_eq!(rule.trim(), rule);
        assert!(cron::Schedule::from_str(&rule).is_ok());
        assert_eq!(rule.split_whitespace().count(), 6);
        assert_eq!(parse_cron(&rule).unwrap(), rule);
    }
    assert_eq!(english_to_cron::str_cron_syntax("every day at 4:00 pm").unwrap(), "0 0 16 */1 * ? *");
    assert_eq!(parse_cron("every day at 4:00 pm").unwrap(), "0 0 16 */1 * ?");
    assert_eq!(parse_cron("every day at 9am").unwrap(), "0 0 9 */1 * ?");
}

#[test]
fn unknown_text_is_refused() {
    assert!(matches!(parse_cron("gibberish"), Err(CronError::Unrecognized)));
    assert!(matches!(parse_cron(""), Err(CronError::Unrecognized)));
    assert!(!is_valid_cron("gibberish"));
    assert!(!is_valid_cron("0 0 25 * * *"));
}

#[test]
fn rule_is_chosen_from_what_the_validator_and_translator_said() {
    let some = |s: &str| Some(s.to_string());
    assert_eq!(choose_rule("a", true, some("b"), some("c")).unwrap(), "a");
    assert_eq!(choose_rule("a", true, None, None).unwrap(), "a");
    assert_eq!(choose_rule("a", false, some("b"), some("c")).unwrap(), "c");
    match choose_rule("a", false, some("b"), None) {
        Err(CronError::GeneratedInvalid(made)) => assert_eq!(made, "b"),
        other => panic!("unexpected: {:?}", other),
    }
    assert!(matches!(choose_rule("a", false, None, None), Err(CronError::Unrecognized)));
    assert!(matches!(choose_rule("a", false, None, some("c")), Err(CronError::Unrecognized)));
}

fn at(secs: i64) -> Timestamp {
    Timestamp { secs, nanos: 0 }
}

#[test]
fn first_later_candidate_is_picked() {
    let now = at(100);
    assert_eq!(first_after(&vec![at(90), at(100), at(101), at(200)], &now), Some(at(101)));
    assert_eq!(first_after(&vec![at(90), at(100)], &now), None);
    assert_eq!(first_after(&vec![], &now), None);
    assert_eq!(
        first_after(&vec![Timestamp { secs: 100, nanos: 1 }], &now),
        Some(Timestamp { secs: 100, nanos: 1 })
    );
    assert_eq!(pick_occurrence(&vec![at(5), at(500)], &now), Occurrence::At(at(500)));
    assert_eq!(pick_occurrence(&vec![at(5)], &now), Occurrence::Never);
}

#[test]
fn next_occurrence_agrees_with_the_rule() {
    let start = chrono::Local.with_ymd_and_hms(2025, 1, 1, 0, 0, 0).unwrap();
    let now = Timestamp { secs: start.timestamp(), nanos: 0 };
    let rule = "0 0 9 * * *";
    let expected = cron::Schedule::from_str(rule).unwrap().after(&start).next().unwrap();
    assert_eq!(
        next_occurrence(rule, &now),
        Occurrence::At(Timestamp { secs: expected.timestamp(), nanos: 0 })
    );
    assert_eq!(expected, chrono::Local.with_ymd_and_hms(2025, 1, 1, 9, 0, 0).unwrap());
    // An occurrence at `now` itself does not count: the next one does.
    let nine = Timestamp { secs: expected.timestamp(), nanos: 0 };
    let following = chrono::Local.with_ymd_and_hms(2025, 1, 2, 9, 0, 0).unwrap();
    assert_eq!(
        next_occurrence(rule, &nine),
        Occurrence::At(Timestamp { secs: following.timestamp(), nanos: 0 })
    );
    assert_eq!(next_occurrence("not a rule", &now), Occurrence::CorruptRule);
    assert_eq!(next_occurrence("0 0 0 1 1 * 2020", &now), Occurrence::Never);
    assert_eq!(next_occurrence(rule, &Timestamp { secs: i64::MAX, nanos: 0 }), Occurrence::Never);
    assert_eq!(next_occurrence(rule, &Timestamp { secs: i64::MIN, nanos: 0 }), Occurrence::Never);
}

#[test]
fn odd_phrases_are_answered() {
    let words = [
        "every", "day", "at", "9am", "13pm", "25:00", "12:60", "and", "through", "between",
        "monday", "weekend", "january", "every 99999999999 minutes", "1st", "32nd", "0th", "2025",
        "99999999999999999999", "noon", "midnight", "only on", "to", "starting", "-1", "hours",
        "seconds", "month", "year", "5", "0", ",", "é", "١٢", "",
    ];
    let mut answered = 0;
    for a in words {
        for b in words {
            for phrase in [format!("{} {}", a, b), format!("every {} {}", a, b)] {
                match parse_cron(&phrase) {
                    Ok(rule) => {
                        assert!(is_six_field_cron(&rule), "{:?} gave {:?}", phrase, rule);
                        assert_eq!(parse_cron(&rule).unwrap(), rule);
                    }
                    Err(CronError::GeneratedInvalid(made)) => assert!(canonical(&made).is_none()),
                    Err(CronError::Unrecognized) => {}
                }
                answered += 1;
            }
        }
    }
    assert_eq!(answered, 2 * words.len() * words.len());
}

#[test]
fn refused_rules_come_with_guidance() {
    let text = CronError::Unrecognized.guidance();
    assert!(text.starts_with("Supported formats:"));
    assert!(text.contains("Standard cron") && text.contains("English"));
    for example in [
        "0 0 9 * * *",
        "every day at 9am",
        "every monday at 14:00",
        "every hour",
        "every minute",
        "every monday at 10:00",
        "every weekday at 8:30",
        "every 30 minutes",
    ] {
        assert!(text.contains(example), "{}", example);
        assert!(parse_cron(example).is_ok(), "{}", example);
    }
    assert_eq!(
        CronError::GeneratedInvalid("x".to_string()).guidance(),
        "Generated invalid cron expression"
    );
}
