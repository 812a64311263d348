use chrono::{Local, TimeZone};
use reminder_cli::calendar::Timestamp;
use reminder_cli::commands::{
    add_reminder, add_reminder_at, edit_reminder, edit_reminder_at, read_edit, CommandError,
};
use reminder_cli::cron_parser::CronError;
use reminder_cli::reminder::ReminderSchedule;
use reminder_cli::storage::Storage;
use reminder_cli::time_parser::TimeError;

fn local(y: i32, m: u32, d: u32, h: u32, mi: u32) -> Timestamp {
    let dt = Local.with_ymd_and_hms(y, m, d, h, mi, 0).unwrap();
    Timestamp { secs: dt.timestamp(), nanos: 0 }
}

fn some(s: &str) -> Option<String> {
    Some(s.to_string())
}

fn labels(of: &[&str]) -> Option<Vec<String>> {
    Some(of.iter().map(|s| s.to_string()).collect())
}

const A: u128 = 0xaaaa1111_0000_4000_8000_000000000001;
const B: u128 = 0xaaaa2222_0000_4000_8000_000000000002;

fn store_of_two(now: &Timestamp) -> Storage {
    let mut store = Storage::new();
    add_reminder_at(&mut store, A, now, "a".to_string(), None, some("1h"), None, labels(&["x"]))
        .unwrap();
    add_reminder_at(
        &mut store,
        B,
        now,
        "b".to_string(),
        some("daily"),
        None,
        some("every day at 9am"),
        None,
    )
    .unwrap();
    store
}

#[test]
fn reminder_is_made_from_what_was_typed() {
    let now = local(2025, 1, 1, 0, 0);
    let store = store_of_two(&now);
    assert_eq!(store.len(), 2);
    let a = &store.reminders[0];
    assert_eq!((a.id, a.title.as_str(), a.created_at), (A, "a", now));
    assert!(matches!(a.schedule, ReminderSchedule::OneTime(t) if t == local(2025, 1, 1, 1, 0)));
    assert_eq!(a.next_trigger, Some(local(2025, 1, 1, 1, 0)));
    assert_eq!(a.tags, vec!["x".to_string()]);
    let b = &store.reminders[1];
    assert_eq!(b.description.as_deref(), Some("daily"));
    assert!(matches!(&b.schedule, ReminderSchedule::Cron(rule) if rule == "0 0 9 */1 * ?"));
    assert_eq!(b.next_trigger, Some(local(2025, 1, 1, 9, 0)));
    assert!(b.tags.is_empty());
}

#[test]
fn rule_goes_before_time() {
    let now = local(2025, 1, 1, 0, 0);
    let mut store = Storage::new();
    add_reminder_at(
        &mut store,
        1,
        &now,
        "t".to_string(),
        None,
        some("not a time"),
        some("0 0 9 * * *"),
        None,
    )
    .unwrap();
    assert!(matches!(&store.reminders[0].schedule, ReminderSchedule::Cron(rule) if rule == "0 0 9 * * *"));
}

#[test]
fn bad_input_adds_nothing() {
    let now = local(2025, 1, 1, 0, 0);
    let mut store = Storage::new();
    let none = add_reminder_at(&mut store, 1, &now, "t".to_string(), None, None, None, None);
    assert!(matches!(none, Err(CommandError::NoSchedule)));
    let time = add_reminder_at(&mut store, 1, &now, "t".to_string(), None, some("soon"), None, None);
    assert!(matches!(time, Err(CommandError::Time(TimeError::Unrecognized))));
    let date =
        add_reminder_at(&mut store, 1, &now, "t".to_string(), None, some("2025-02-30 10:00"), None, None);
    assert!(matches!(date, Err(CommandError::Time(TimeError::NoSuchDate))));
    let cron = add_reminder_at(&mut store, 1, &now, "t".to_string(), None, None, some("whenever"), None);
    assert!(matches!(cron, Err(CommandError::Cron(CronError::Unrecognized))));
    assert!(matches!(
        add_reminder(&mut store, "t".to_string(), None, None, None, None),
        Err(CommandError::NoSchedule)
    ));
    assert_eq!(store.len(), 0);
    let id = add_reminder(&mut store, "t".to_string(), None, some("tomorrow"), None, None).unwrap();
    assert_eq!(store.reminders[0].id, id);
    assert_eq!(store.len(), 1);
}

#[test]
fn edit_changes_one_reminder() {
    let now = local(2025, 1, 1, 0, 0);
    let mut store = store_of_two(&now);
    let later = local(2025, 2, 1, 0, 0);
    let edited = edit_reminder_at(
        &mut store,
        "aaaa1",
        &later,
        some("A"),
        some("first"),
        some("2025-03-01 12:00"),
        None,
        labels(&["y", "z"]),
        labels(&["x", "z"]),
    );
    assert!(matches!(edited, Ok(Some(A))));
    let a = &store.reminders[0];
    assert_eq!((a.title.as_str(), a.description.as_deref()), ("A", Some("first")));
    assert_eq!(a.next_trigger, Some(local(2025, 3, 1, 12, 0)));
    assert_eq!(a.created_at, now);
    assert_eq!(a.tags, vec!["y".to_string()]);
    assert_eq!(store.reminders[1].title, "b");

    let rule = edit_reminder_at(
        &mut store, "aaaa1", &later, None, None, some("10m"), some("every hour"), None, None,
    );
    assert!(matches!(rule, Ok(Some(A))));
    assert!(matches!(&store.reminders[0].schedule, ReminderSchedule::Cron(_)));
    assert_eq!(store.reminders[0].next_trigger, Some(local(2025, 2, 1, 1, 0)));
    assert_eq!(store.reminders[0].title, "A");
}

#[test]
fn refused_edit_changes_nothing() {
    let now = local(2025, 1, 1, 0, 0);
    let mut store = store_of_two(&now);
    let before = format!("{:?}", store);
    let bad_time = edit_reminder_at(
        &mut store, "aaaa1", &now, some("A"), None, some("whenever"), None, None, None,
    );
    assert!(matches!(bad_time, Err(CommandError::Time(TimeError::Unrecognized))));
    let bad_rule = edit_reminder_at(
        &mut store, "aaaa1", &now, some("A"), None, None, some("whenever"), None, None,
    );
    assert!(matches!(bad_rule, Err(CommandError::Cron(CronError::Unrecognized))));
    let both =
        edit_reminder_at(&mut store, "aaaa", &now, some("A"), None, None, None, None, None);
    assert!(matches!(both, Err(CommandError::Ambiguous { matches: 2 })));
    let nobody =
        edit_reminder_at(&mut store, "bbbb", &now, some("A"), None, None, None, None, None);
    assert!(matches!(nobody, Ok(None)));
    assert!(matches!(
        edit_reminder(&mut store, "aaaa", some("A"), None, None, None, None, None),
        Err(CommandError::Ambiguous { matches: 2 })
    ));
    assert_eq!(format!("{:?}", store), before);
    assert!(matches!(
        edit_reminder(&mut store, "aaaa2", some("B"), None, None, None, None, None),
        Ok(Some(B))
    ));
    assert_eq!(store.reminders[1].title, "B");
}

#[test]
fn edit_is_read_before_it_is_applied() {
    let now = local(2025, 1, 1, 0, 0);
    let edit = read_edit(&now, None, some("d"), some("1d"), some("0 0 9 * * *"), None, labels(&["x"]))
        .unwrap();
    assert_eq!(edit.title, None);
    assert_eq!(edit.description.as_deref(), Some("d"));
    assert_eq!(edit.one_time, Some(local(2025, 1, 2, 0, 0)));
    let (rule, next) = edit.recurring.unwrap();
    assert_eq!(rule, "0 0 9 * * *");
    assert_eq!(next.instant(), Some(local(2025, 1, 1, 9, 0)));
    assert!(edit.add_tags.is_empty());
    assert_eq!(edit.remove_tags, vec!["x".to_string()]);
    assert!(read_edit(&now, None, None, some("2025-13-01 00:00"), None, None, None).is_err());
}

#[test]
fn a_time_that_cannot_be_read_aborts_the_edit() {
    let now = local(2025, 1, 1, 0, 0);
    let mut store = store_of_two(&now);
    let before = format!("{:?}", store);
    for bad in ["garbage", "2025-02-30 10:00", "0m", "9223372036854775807w", "today 25:00"] {
        let edited = edit_reminder_at(
            &mut store, "aaaa1", &now, some("New title"), None, some(bad), None, labels(&["t"]), None,
        );
        assert!(matches!(edited, Err(CommandError::Time(_))), "{}", bad);
        assert_eq!(format!("{:?}", store), before, "{}", bad);
        let edited = edit_reminder(&mut store, "aaaa1", some("New title"), None, some(bad), None, None, None);
        assert!(matches!(edited, Err(CommandError::Time(_))), "{}", bad);
        assert_eq!(format!("{:?}", store), before, "{}", bad);
    }
    assert!(matches!(
        edit_reminder_at(&mut store, "aaaa1", &now, None, None, some("2025-02-30 10:00"), None, None, None),
        Err(CommandError::Time(TimeError::NoSuchDate))
    ));
    assert!(matches!(
        edit_reminder_at(&mut store, "aaaa1", &now, None, None, some("9223372036854775807w"), None, None, None),
        Err(CommandError::Time(TimeError::OutOfRange))
    ));
    // A time that cannot be read aborts the edit even where a rule is given with it.
    assert!(matches!(
        edit_reminder_at(&mut store, "aaaa1", &now, None, None, some("garbage"), some("0 0 9 * * *"), None, None),
        Err(CommandError::Time(TimeError::Unrecognized))
    ));
    assert_eq!(format!("{:?}", store), before);
}

#[test]
fn edited_reminder_gets_the_rule_in_six_fields() {
    let now = local(2025, 1, 1, 0, 0);
    let mut store = store_of_two(&now);
    edit_reminder_at(
        &mut store, "aaaa1", &now, None, None, None, some("every monday at 14:00"), labels(&["m"]), None,
    )
    .unwrap();
    let a = &store.reminders[0];
    match &a.schedule {
        ReminderSchedule::Cron(rule) => {
            assert_eq!(rule.split_whitespace().count(), 6);
            assert_eq!(rule, "0 0 14 ? * MON");
        }
        other => panic!("unexpected: {:?}", other),
    }
    assert_eq!(a.next_trigger, Some(local(2025, 1, 6, 14, 0)));
    assert_eq!(a.tags, vec!["x".to_string(), "m".to_string()]);
}
