//! The decisions of the polling daemon: which reminders fire in a cycle and
//! what becomes of them, when a heartbeat is written, and what a heartbeat
//! says of the daemon's health.

use vstd::prelude::*;
use vstd::string::*;
use crate::calendar::Timestamp;
use crate::cron_parser::cron_accepts;
use crate::reminder::{Reminder, ReminderSchedule};
use crate::storage::Storage;
use crate::text::{
    chars_of,
    lemma_numeral_reads_back,
    numeral,
    numeral_of,
    parse_signed,
    signed_value,
    slice_of,
    trim_bounds,
    trimmed,
};

verus! {

/// Seconds between two cycles.
pub const POLL_INTERVAL_SECS: u64 = 10;

/// Seconds after which a new heartbeat is written.
pub const HEARTBEAT_INTERVAL_SECS: u64 = 30;

/// Seconds after which a heartbeat is stale.
pub const HEARTBEAT_TIMEOUT_SECS: u64 = 120;

/// What the notifier is to show for a reminder that fired.
#[derive(Clone, Debug)]
pub struct Notification {
    pub title: String,
    pub body: String,
}

/// The title and the body of a notification.
pub type Note = (Seq<char>, Seq<char>);

impl View for Notification {
    type V = Note;

    open spec fn view(&self) -> Note {
        (self.title@, self.body@)
    }
}

/// What one cycle of the daemon came to.
#[derive(Debug)]
pub struct CycleReport {
    /// A notification for each reminder that was due, in their order.
    pub notifications: Vec<Notification>,
    /// The identifiers of the reminders that were due and whose rule could
    /// not be read.
    pub unreadable: Vec<u128>,
    /// Whether any reminder was due, so that the collection has to be
    /// written back.
    pub changed: bool,
}

/// The notification for the reminder `r`: its title, and its description
/// or nothing.
pub open spec fn note_of(r: Reminder) -> Note {
    (
        r.title@,
        match r.description {
            Some(text) => text@,
            None => Seq::<char>::empty(),
        },
    )
}

/// Those of `items` that are due at the instant `now`.
pub open spec fn due_among(items: Seq<Reminder>, now: Timestamp) -> Seq<Reminder> {
    items.filter(|r: Reminder| r.due_at(now))
}

/// Whether the reminder `r` recurs under a rule that cannot be read.
pub open spec fn rule_is_corrupt(r: Reminder) -> bool {
    match r.schedule {
        ReminderSchedule::Cron(rule) => !cron_accepts(rule@),
        ReminderSchedule::OneTime(_) => false,
    }
}

/// The identifiers of those of `items` that are due at the instant `now`
/// and recur under a rule that cannot be read, in their order.
pub open spec fn unreadable_among(items: Seq<Reminder>, now: Timestamp) -> Seq<u128> {
    items.filter(|r: Reminder| r.due_at(now) && rule_is_corrupt(r)).map_values(
        |r: Reminder| r.id,
    )
}

/// Whether `after` is what the reminder `before` becomes in a cycle at the
/// instant `now`.
///
/// A reminder that is not due stays as it is. One that is due is moved on:
/// a one-time reminder is completed, a recurring one has its next trigger
/// strictly after `now` or none. Either way it is no longer due at `now`.
pub open spec fn handled(before: Reminder, after: Reminder, now: Timestamp) -> bool {
    if before.due_at(now) {
        &&& after.same_entry_as(&before)
        &&& after.paused == before.paused
        &&& (before.schedule is OneTime ==> after.completed && after.next_trigger is None)
        &&& (before.schedule is Cron ==> after.completed == before.completed && (
        after.next_trigger matches Some(at) ==> at.is_after(now)) && (rule_is_corrupt(before)
            ==> after.next_trigger is None))
        &&& !after.due_at(now)
        &&& (before.wf() ==> after.wf())
    } else {
        after == before
    }
}

/// The notification for the reminder `r`.
pub fn notification_for(r: &Reminder) -> (note: Notification)
    ensures
        note@ == note_of(*r),
{
    Notification {
        title: r.title.clone(),
        body: match &r.description {
            Some(text) => text.clone(),
            None => String::new(),
        },
    }
}

/// One cycle of the daemon at the instant `now`: every reminder that is due
/// gets a notification and is moved on, whether or not the notification can
/// be delivered later.
pub fn run_cycle(store: &mut Storage, now: &Timestamp) -> (report: CycleReport)
    ensures
        final(store)@.len() == old(store)@.len(),
        forall|i: int|
            0 <= i < old(store)@.len() ==> handled(
                old(store)@[i],
                #[trigger] final(store)@[i],
                *now,
            ),
        report.notifications@.map_values(|n: Notification| n@) == due_among(
            old(store)@,
            *now,
        ).map_values(|r: Reminder| note_of(r)),
        report.changed == (due_among(old(store)@, *now).len() > 0),
        report.unreadable@ == unreadable_among(old(store)@, *now),
{
    let ghost before = store@;
    let ghost is_due = |r: Reminder| r.due_at(*now);
    let ghost view_of = |n: Notification| n@;
    let ghost to_note = |r: Reminder| note_of(r);
    let ghost is_lost = |r: Reminder| r.due_at(*now) && rule_is_corrupt(r);
    let ghost id_of = |r: Reminder| r.id;
    let mut all: Vec<Reminder> = Vec::new();
    all.append(&mut store.reminders);
    let mut kept: Vec<Reminder> = Vec::new();
    let mut notifications: Vec<Notification> = Vec::new();
    let mut unreadable: Vec<u128> = Vec::new();
    for entry in it: all
        invariant
            it.seq() == before,
            is_due == (|r: Reminder| r.due_at(*now)),
            view_of == (|n: Notification| n@),
            to_note == (|r: Reminder| note_of(r)),
            kept@.len() == it.index(),
            forall|i: int| 0 <= i < it.index() ==> handled(before[i], #[trigger] kept@[i], *now),
            notifications@.map_values(view_of) == before.take(it.index() as int).filter(
                is_due,
            ).map_values(to_note),
            notifications@.len() == before.take(it.index() as int).filter(is_due).len(),
            is_lost == (|r: Reminder| r.due_at(*now) && rule_is_corrupt(r)),
            id_of == (|r: Reminder| r.id),
            unreadable@ == before.take(it.index() as int).filter(is_lost).map_values(id_of),
    {
        let ghost lost_so_far = before.take(it.index() as int).filter(is_lost);
        proof {
            let upto = before.take(it.index() as int);
            assert(before.take(it.index() + 1) == upto.push(before[it.index() as int]));
            upto.lemma_filter_push(before[it.index() as int], is_due);
            upto.lemma_filter_push(before[it.index() as int], is_lost);
        }
        let ghost first = entry;
        let mut entry = entry;
        if entry.is_due_at(now) {
            let ghost so_far = notifications@;
            let ghost due_so_far = before.take(it.index() as int).filter(is_due);
            notifications.push(notification_for(&entry));
            assert(notifications@.map_values(view_of) == so_far.map_values(view_of).push(
                note_of(entry),
            ));
            assert(due_so_far.push(entry).map_values(to_note) == due_so_far.map_values(
                to_note,
            ).push(note_of(entry)));
            let computed = entry.calculate_next_trigger_at(now);
            if !computed {
                unreadable.push(entry.id);
                assert(lost_so_far.push(first).map_values(id_of) == lost_so_far.map_values(
                    id_of,
                ).push(first.id));
            }
        }
        kept.push(entry);
    }
    assert(before.take(before.len() as int) == before);
    let changed = notifications.len() > 0;
    store.reminders = kept;
    CycleReport { notifications, unreadable, changed }
}

/// Counts the seconds since the last heartbeat was written.
#[derive(Clone, Copy, Debug, PartialEq, Eq, Structural)]
pub struct HeartbeatTimer {
    pub elapsed: u64,
}

impl HeartbeatTimer {
    /// A timer that starts with a heartbeat just written.
    pub fn new() -> (timer: HeartbeatTimer)
        ensures
            timer.elapsed == 0,
    {
        HeartbeatTimer { elapsed: 0 }
    }

    /// Counts one cycle, and tells whether a heartbeat is to be written
    /// now: whether the interval has passed since the last one.
    pub fn tick(&mut self) -> (write: bool)
        ensures
            write == (old(self).elapsed + POLL_INTERVAL_SECS >= HEARTBEAT_INTERVAL_SECS),
            final(self).elapsed == (if write {
                0
            } else {
                old(self).elapsed + POLL_INTERVAL_SECS
            }),
    {
        let elapsed: u64 = self.elapsed.saturating_add(POLL_INTERVAL_SECS);
        if elapsed >= HEARTBEAT_INTERVAL_SECS {
            self.elapsed = 0;
            true
        } else {
            self.elapsed = elapsed;
            false
        }
    }
}

/// The health of the daemon.
#[derive(Clone, Copy, Debug, PartialEq, Eq, Structural)]
pub enum DaemonHealth {
    /// No process runs.
    NotRunning,
    /// The process runs and its heartbeat is fresh.
    Healthy,
    /// The process runs, and its heartbeat is stale or missing: it may be
    /// stuck.
    Stuck,
}

/// The second that the heartbeat `content` records, counted from the epoch;
/// zero where `content`, without the white space around it, states no
/// number.
pub open spec fn heartbeat_second(content: Seq<char>) -> int {
    match signed_value(trimmed(content)) {
        Some(second) => second,
        None => 0,
    }
}

/// Whether a heartbeat is fresh at the second `now`: whether there is one,
/// and less than the timeout has passed since the second it records.
pub open spec fn fresh(heartbeat: Option<Seq<char>>, now: int) -> bool {
    match heartbeat {
        Some(content) => now - heartbeat_second(content) < HEARTBEAT_TIMEOUT_SECS,
        None => false,
    }
}

/// The health of a daemon of which a process runs or not (`running`), with
/// the heartbeat it last wrote, if any, at the second `now`.
pub open spec fn health(running: bool, heartbeat: Option<Seq<char>>, now: int) -> DaemonHealth {
    if !running {
        DaemonHealth::NotRunning
    } else if fresh(heartbeat, now) {
        DaemonHealth::Healthy
    } else {
        DaemonHealth::Stuck
    }
}

/// What is seen of a heartbeat: its text as a sequence of characters.
pub open spec fn seen(heartbeat: Option<&str>) -> Option<Seq<char>> {
    match heartbeat {
        Some(content) => Some(content@),
        None => None,
    }
}

/// The number that `content` states, white space around it aside.
pub fn read_number(content: &str) -> (value: Option<i64>)
    ensures
        value == (match signed_value(trimmed(content@)) {
            Some(v) => Some(v as i64),
            None => None,
        }),
{
    let chars = chars_of(content);
    let (start, end) = trim_bounds(&chars);
    let inner = slice_of(&chars, start, end);
    parse_signed(&inner)
}

/// The heartbeat to write at the instant `now`: its second, counted from
/// the epoch, as a decimal numeral.
pub fn heartbeat_content(now: &Timestamp) -> (content: String)
    ensures
        content@ == numeral(now.secs as int),
        heartbeat_second(content@) == now.secs,
{
    proof {
        lemma_numeral_reads_back(now.secs as int);
    }
    numeral_of(now.secs)
}

/// A heartbeat written at the second `written` is fresh at the second
/// `now` just when less than the timeout has passed since.
pub proof fn lemma_heartbeat_round_trip(written: i64, now: int)
    ensures
        fresh(Some(numeral(written as int)), now) <==> now - written < HEARTBEAT_TIMEOUT_SECS,
{
    lemma_numeral_reads_back(written as int);
}

/// Tells whether the heartbeat with the text `heartbeat`, `None` where none
/// was ever written, is fresh at the second `now`.
pub fn check_heartbeat(heartbeat: Option<&str>, now: i64) -> (is_fresh: bool)
    ensures
        is_fresh == fresh(seen(heartbeat), now as int),
{
    match heartbeat {
        Some(content) => {
            let second: i64 = match read_number(content) {
                Some(second) => second,
                None => 0,
            };
            (now as i128) - (second as i128) < HEARTBEAT_TIMEOUT_SECS as i128
        },
        None => false,
    }
}

/// The process identifier that the marker `content` holds: a number that
/// fits `u32`, written without a minus sign, white space around it aside.
pub open spec fn marked_process(content: Seq<char>) -> Option<u32> {
    let text = trimmed(content);
    match signed_value(text) {
        Some(v) => if text[0] != '-' && v <= u32::MAX {
            Some(v as u32)
        } else {
            None
        },
        None => None,
    }
}

/// Reads the process identifier from the content of the process marker.
pub fn read_pid(content: &str) -> (pid: Option<u32>)
    ensures
        pid == marked_process(content@),
{
    let chars = chars_of(content);
    let (start, end) = trim_bounds(&chars);
    let inner = slice_of(&chars, start, end);
    match parse_signed(&inner) {
        Some(v) => if inner[0] != '-' && v <= 0xffff_ffff {
            Some(v as u32)
        } else {
            None
        },
        None => None,
    }
}

/// The health of the daemon at the second `now`.
pub fn daemon_health(running: bool, heartbeat: Option<&str>, now: i64) -> (state: DaemonHealth)
    ensures
        state == health(running, seen(heartbeat), now as int),
{
    if !running {
        DaemonHealth::NotRunning
    } else if check_heartbeat(heartbeat, now) {
        DaemonHealth::Healthy
    } else {
        DaemonHealth::Stuck
    }
}

/// Tells whether the daemon is healthy at the second `now`: whether its
/// process runs and its heartbeat is fresh.
pub fn is_daemon_healthy(running: bool, heartbeat: Option<&str>, now: i64) -> (healthy: bool)
    ensures
        healthy == (running && fresh(seen(heartbeat), now as int)),
        healthy == (health(running, seen(heartbeat), now as int) == DaemonHealth::Healthy),
{
    if !running {
        return false;
    }
    check_heartbeat(heartbeat, now)
}

} // verus!
