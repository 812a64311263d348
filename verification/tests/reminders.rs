use chrono::{Local, TimeZone};
use reminder_cli::calendar::Timestamp;
use reminder_cli::cron_parser::Occurrence;
use reminder_cli::reminder::{
    Reminder, ReminderEdit, ReminderError, ReminderSchedule, ReminderState,
};
use reminder_cli::tags::{add_tag, collect_tags, has_tag, remove_tag};

fn local(y: i32, m: u32, d: u32, h: u32, mi: u32) -> Timestamp {
    let dt = Local.with_ymd_and_hms(y, m, d, h, mi, 0).unwrap();
    Timestamp { secs: dt.timestamp(), nanos: 0 }
}

fn labels(of: &[&str]) -> Vec<String> {
    of.iter().map(|s| s.to_string()).collect()
}

fn one_time(at: Timestamp) -> Reminder {
    Reminder::one_time_with(
        7,
        local(2025, 1, 1, 0, 0),
        "Tea".to_string(),
        Some("Green".to_string()),
        at,
        labels(&["home", "drink", "home"]),
    )
}

fn recurring(rule: &str) -> Reminder {
    Reminder::recurring_with(
        8,
        local(2025, 1, 1, 0, 0),
        "Stand up".to_string(),
        None,
        rule.to_string(),
        Occurrence::At(local(2025, 1, 1, 9, 0)),
        vec![],
    )
}

#[test]
fn one_time_reminder_fires_once() {
    let at = local(2025, 1, 1, 0, 30);
    let mut r = one_time(at);
    assert_eq!(r.id, 7);
    assert_eq!(r.title, "Tea");
    assert_eq!(r.description.as_deref(), Some("Green"));
    assert_eq!(r.tags, labels(&["home", "drink"]));
    assert_eq!(r.next_trigger, Some(at));
    assert!(!r.completed && !r.paused);
    assert!(matches!(r.schedule, ReminderSchedule::OneTime(t) if t == at));
    assert!(!r.is_due_at(&local(2025, 1, 1, 0, 29)));
    assert!(r.is_due_at(&at));
    assert!(r.is_due_at(&Timestamp { secs: at.secs, nanos: 1 }));
    assert!(r.is_due_at(&local(2025, 1, 1, 1, 0)));

    assert!(r.calculate_next_trigger_at(&at));
    assert!(r.completed);
    assert_eq!(r.next_trigger, None);
    assert!(!r.is_due_at(&local(2025, 1, 1, 1, 0)));
    assert_eq!(r.state(), ReminderState::Completed);
    assert_eq!(r.status(), "Completed");

    // A second call changes nothing.
    let before = format!("{:?}", r);
    assert!(r.calculate_next_trigger_at(&local(2025, 1, 1, 1, 0)));
    assert!(r.calculate_next_trigger());
    assert_eq!(format!("{:?}", r), before);
}

#[test]
fn recurring_reminder_moves_to_a_later_instant() {
    let mut r = recurring("0 0 9 * * *");
    let now = local(2025, 1, 1, 9, 0);
    assert!(r.is_due_at(&now));
    assert!(r.calculate_next_trigger_at(&now));
    assert!(!r.completed);
    assert_eq!(r.next_trigger, Some(local(2025, 1, 2, 9, 0)));
    assert!(r.next_trigger.unwrap().later_than(&now));
    assert!(!r.is_due_at(&now));
    assert_eq!(r.status(), "Active");

    let before = Local::now();
    assert!(r.calculate_next_trigger());
    let next = r.next_trigger.unwrap();
    assert!(next.secs > before.timestamp());
}

#[test]
fn corrupt_rule_leaves_no_next_trigger() {
    let mut r = recurring("this is no rule");
    let now = local(2025, 1, 1, 9, 0);
    assert!(!r.calculate_next_trigger_at(&now));
    assert_eq!(r.next_trigger, None);
    assert!(!r.completed);
    assert!(!r.is_due_at(&local(2030, 1, 1, 0, 0)));
    assert_eq!(r.upcoming_at(&now), Occurrence::CorruptRule);
}

#[test]
fn paused_reminder_is_not_due_and_resumes() {
    let at = local(2025, 1, 1, 0, 30);
    let mut r = one_time(at);
    r.pause();
    assert!(r.paused);
    assert_eq!(r.next_trigger, Some(at));
    assert!(!r.is_due_at(&local(2025, 1, 1, 1, 0)));
    assert!(!r.is_due());
    assert_eq!(r.status(), "Paused");
    assert!(r.resume_at(&local(2025, 1, 1, 2, 0)));
    assert!(!r.paused);
    assert_eq!(r.next_trigger, Some(at));
    assert!(r.is_due_at(&local(2025, 1, 1, 2, 0)));
    assert!(r.is_due());

    let mut c = recurring("0 0 9 * * *");
    c.pause();
    assert_eq!(c.next_trigger, Some(local(2025, 1, 1, 9, 0)));
    // What was missed while paused is skipped.
    assert!(c.resume_at(&local(2025, 3, 10, 12, 0)));
    assert_eq!(c.next_trigger, Some(local(2025, 3, 11, 9, 0)));
    c.pause();
    assert!(c.resume());
    assert!(c.next_trigger.unwrap().secs > Local::now().timestamp());

    let mut done = one_time(at);
    done.calculate_next_trigger_at(&at);
    done.pause();
    assert_eq!(done.status(), "Completed");
}

#[test]
fn new_reminders_get_fresh_identifiers() {
    let at = local(2030, 1, 1, 0, 0);
    let a = Reminder::new_one_time("a".to_string(), None, at, labels(&["x", "x"]));
    let b = Reminder::new_one_time("b".to_string(), None, at, vec![]);
    assert_ne!(a.id, b.id);
    assert_eq!(uuid::Uuid::from_u128(a.id).get_version_num(), 4);
    assert_eq!(a.tags, labels(&["x"]));
    assert_eq!(a.next_trigger, Some(at));
    assert!((a.created_at.secs - Local::now().timestamp()).abs() <= 2);

    let c = Reminder::new_cron("c".to_string(), None, "0 0 9 * * *".to_string(), vec![]).unwrap();
    assert!(matches!(&c.schedule, ReminderSchedule::Cron(rule) if rule == "0 0 9 * * *"));
    assert!(c.next_trigger.unwrap().later_than(&c.created_at));
    assert!(!c.completed && !c.paused);
    for bad in ["every so often", "0 0 9 * * * *", "0 0 0 1 1 * 2030", "@daily", " 0 0 9 * * *", ""] {
        let refused = Reminder::new_cron("c".to_string(), None, bad.to_string(), vec![]);
        assert_eq!(refused.err(), Some(ReminderError::InvalidRule), "{:?}", bad);
    }
}

#[test]
fn edits_change_what_they_name() {
    let at = local(2025, 1, 1, 0, 30);
    let mut r = one_time(at);
    r.calculate_next_trigger_at(&at);
    r.pause();
    let later = local(2025, 6, 1, 8, 0);
    r.apply_edit(ReminderEdit {
        title: Some("Coffee".to_string()),
        description: None,
        one_time: Some(later),
        recurring: None,
        add_tags: labels(&["work", "home", "late"]),
        remove_tags: labels(&["drink", "late", "absent"]),
    });
    assert_eq!(r.id, 7);
    assert_eq!(r.title, "Coffee");
    assert_eq!(r.description.as_deref(), Some("Green"));
    assert!(matches!(r.schedule, ReminderSchedule::OneTime(t) if t == later));
    assert_eq!(r.next_trigger, Some(later));
    assert!(!r.completed);
    assert!(r.paused);
    assert_eq!(r.tags, labels(&["home", "work"]));

    r.apply_edit(ReminderEdit {
        title: None,
        description: Some("Black".to_string()),
        one_time: Some(at),
        recurring: Some(("0 0 9 * * *".to_string(), Occurrence::At(later))),
        add_tags: vec![],
        remove_tags: vec![],
    });
    assert_eq!(r.title, "Coffee");
    assert_eq!(r.description.as_deref(), Some("Black"));
    assert!(matches!(&r.schedule, ReminderSchedule::Cron(rule) if rule == "0 0 9 * * *"));
    assert_eq!(r.next_trigger, Some(later));

    let before = format!("{:?}", r);
    r.apply_edit(ReminderEdit {
        title: None,
        description: None,
        one_time: None,
        recurring: None,
        add_tags: vec![],
        remove_tags: vec![],
    });
    assert_eq!(format!("{:?}", r), before);
}

#[test]
fn tags_are_a_set() {
    let mut tags = collect_tags(labels(&["a", "b", "a", "A"]));
    assert_eq!(tags, labels(&["a", "b", "A"]));
    add_tag(&mut tags, "b".to_string());
    add_tag(&mut tags, "c".to_string());
    assert_eq!(tags, labels(&["a", "b", "A", "c"]));
    assert!(has_tag(&tags, "A"));
    assert!(!has_tag(&tags, "B"));
    remove_tag(&mut tags, "a");
    remove_tag(&mut tags, "zzz");
    assert_eq!(tags, labels(&["b", "A", "c"]));
    let mut twice = labels(&["x", "y", "x"]);
    remove_tag(&mut twice, "x");
    assert_eq!(twice, labels(&["y"]));
}
