//! What the commands of the tool decide: how a reminder is made from what
//! was typed, and how one is edited.

use vstd::prelude::*;
use vstd::string::*;
use crate::calendar::{clock_now, Timestamp};
use crate::cron_parser::{
    next_occurrence,
    normalized_cron,
    parse_cron,
    reading_of,
    CronError,
    CronReading,
    Occurrence,
};
use crate::ident::fresh_id;
use crate::reminder::{Reminder, ReminderEdit, ReminderSchedule};
use crate::storage::{is_first_with_id, matching, Storage};
use crate::tags::holds;
use crate::time_parser::{
    normal_text,
    parse_time_at,
    reads_at,
    refusal,
    refusal_at,
    relative_instant,
    time_expr,
    TimeError,
    TimeExpr,
};

verus! {

/// Why a command was refused. Nothing has changed then.
#[derive(Debug)]
pub enum CommandError {
    /// Neither a time nor a recurrence rule was given.
    NoSchedule,
    /// The time could not be read.
    Time(TimeError),
    /// The recurrence rule could not be read.
    Cron(CronError),
    /// The short identifier stands for this many reminders, more than one.
    Ambiguous { matches: usize },
}

/// The labels given with a command, or none.
pub open spec fn given(tags: Option<Vec<String>>) -> Seq<String> {
    match tags {
        Some(labels) => labels@,
        None => Seq::<String>::empty(),
    }
}

/// The refusal that is certain for the time that was typed, if one was, at
/// the instant `now`, whatever the machine's time zone is.
pub open spec fn time_refusal_at(time: Option<String>, now: Timestamp) -> Option<TimeError> {
    match time {
        Some(typed) => refusal_at(typed@, now),
        None => None,
    }
}

/// The refusal that is certain for the time that was typed, if one was, at
/// any instant.
pub open spec fn time_refusal(time: Option<String>) -> Option<TimeError> {
    match time {
        Some(typed) => refusal(typed@),
        None => None,
    }
}

/// The refusal of a time that `outcome` is, if it is one.
pub open spec fn refused_time<T>(outcome: Result<T, CommandError>) -> Option<TimeError> {
    match outcome {
        Err(CommandError::Time(e)) => Some(e),
        _ => None,
    }
}

fn labels_of(tags: Option<Vec<String>>) -> (labels: Vec<String>)
    ensures
        labels@ == given(tags),
{
    match tags {
        Some(labels) => labels,
        None => Vec::new(),
    }
}

/// Whether the schedule of the reminder `r` is what was typed for it at
/// the instant `now`.
///
/// A recurrence rule, where one was typed, goes before a time: the
/// reminder recurs under the rule that the typed text comes to, and its
/// next trigger, if it has one, is strictly after `now`. Else the reminder
/// is due once, at an instant that the typed time is read as at `now`, and
/// that instant is its next trigger. Either way it is not completed.
pub open spec fn scheduled_as_typed(
    r: Reminder,
    now: Timestamp,
    time: Option<String>,
    cron: Option<String>,
) -> bool {
    &&& !r.completed
    &&& match cron {
        Some(typed) => match r.schedule {
            ReminderSchedule::Cron(rule) => {
                &&& CronReading::Rule(rule@) == normalized_cron(typed@)
                &&& (r.next_trigger matches Some(at) ==> at.is_after(now))
            },
            ReminderSchedule::OneTime(_) => false,
        },
        None => match time {
            Some(typed) => match r.schedule {
                ReminderSchedule::OneTime(at) => {
                    &&& r.next_trigger == Some(at)
                    &&& reads_at(typed@, now, Ok::<Timestamp, TimeError>(at))
                },
                ReminderSchedule::Cron(_) => false,
            },
            None => false,
        },
    }
}

/// Whether `made` is the reminder that what was typed asks for at the
/// instant `now`: made at `now`, with the title, the description and the
/// tags given, each tag once, neither paused nor completed, and scheduled
/// as typed.
pub open spec fn made_as_typed(
    made: Reminder,
    now: Timestamp,
    title: String,
    description: Option<String>,
    time: Option<String>,
    cron: Option<String>,
    tags: Option<Vec<String>>,
) -> bool {
    &&& made.wf()
    &&& made.created_at == now
    &&& made.title == title
    &&& made.description == description
    &&& !made.paused
    &&& scheduled_as_typed(made, now, time, cron)
    &&& forall|label: Seq<char>|
        #![trigger holds(made.tags@, label)]
        holds(made.tags@, label) <==> holds(given(tags), label)
}

/// Whether the error `e` is the refusal of what was typed for a schedule
/// at the instant `now`.
///
/// The rule goes before the time. A rule that comes to nothing is refused
/// with what it came to; a time is refused with a reason that can come of
/// it at `now`; where neither was typed, that is the refusal.
pub open spec fn schedule_refused(
    e: CommandError,
    now: Timestamp,
    time: Option<String>,
    cron: Option<String>,
) -> bool {
    match cron {
        Some(typed) => match e {
            CommandError::Cron(c) => reading_of(Err::<String, CronError>(c)) == normalized_cron(
                typed@,
            ),
            _ => false,
        },
        None => match time {
            Some(typed) => match e {
                CommandError::Time(t) => reads_at(typed@, now, Err::<Timestamp, TimeError>(t)),
                _ => false,
            },
            None => e is NoSchedule,
        },
    }
}

/// Whether what was typed for a schedule is certain to be read at the
/// instant `now`, whatever the machine's time zone is: a rule that comes to
/// a rule, or, without a rule, an offset from `now` that the calendar can
/// hold.
pub open spec fn schedule_is_owed(
    now: Timestamp,
    time: Option<String>,
    cron: Option<String>,
) -> bool {
    match cron {
        Some(typed) => normalized_cron(typed@) is Rule,
        None => match time {
            Some(typed) => match time_expr(normal_text(typed@)) {
                Some(TimeExpr::Relative { amount, unit }) => relative_instant(now, amount, unit)
                    is Some,
                _ => false,
            },
            None => false,
        },
    }
}

/// Whether what was typed for a schedule is certain to be refused at the
/// instant `now`, whatever the machine's time zone is.
pub open spec fn schedule_is_refused(
    now: Timestamp,
    time: Option<String>,
    cron: Option<String>,
) -> bool {
    match cron {
        Some(typed) => !(normalized_cron(typed@) is Rule),
        None => match time {
            Some(typed) => refusal_at(typed@, now) is Some,
            None => true,
        },
    }
}

/// Makes a reminder from what was typed and adds it to `store`, under the
/// identifier `id` and as made at the instant `now`, and gives the
/// identifier.
///
/// A recurrence rule, where one is given, goes before a time: the reminder
/// recurs under the rule as `parse_cron` reads it, and is due at the rule's
/// first occurrence after `now`. Else the reminder is due once, at the time
/// as `parse_time_at` reads it from `now`. Where what was typed cannot be
/// read, nothing is added.
pub fn add_reminder_at(
    store: &mut Storage,
    id: u128,
    now: &Timestamp,
    title: String,
    description: Option<String>,
    time: Option<String>,
    cron: Option<String>,
    tags: Option<Vec<String>>,
) -> (added: Result<u128, CommandError>)
    ensures
        match added {
            Ok(given_id) => {
                &&& given_id == id
                &&& final(store)@.len() == old(store)@.len() + 1
                &&& final(store)@.drop_last() == old(store)@
                &&& final(store)@.last().id == id
                &&& made_as_typed(final(store)@.last(), *now, title, description, time, cron, tags)
            },
            Err(e) => final(store)@ == old(store)@ && schedule_refused(e, *now, time, cron),
        },
        schedule_is_refused(*now, time, cron) ==> added is Err,
        schedule_is_owed(*now, time, cron) ==> added is Ok,
        cron is None && time_refusal_at(time, *now) is Some ==> refused_time(added)
            == time_refusal_at(time, *now),
{
    let labels = labels_of(tags);
    let made = match cron {
        Some(typed) => match parse_cron(typed.as_str()) {
            Ok(rule) => {
                let next = next_occurrence(rule.as_str(), now);
                Reminder::recurring_with(id, *now, title, description, rule, next, labels)
            },
            Err(e) => {
                return Err(CommandError::Cron(e));
            },
        },
        None => match time {
            Some(typed) => match parse_time_at(typed.as_str(), now) {
                Ok(at) => Reminder::one_time_with(id, *now, title, description, at, labels),
                Err(e) => {
                    return Err(CommandError::Time(e));
                },
            },
            None => {
                return Err(CommandError::NoSchedule);
            },
        },
    };
    let ghost before = store@;
    store.add(made);
    assert(store@.drop_last() == before);
    Ok(id)
}

/// Makes a reminder from what was typed and adds it to `store`, under a
/// fresh identifier and as made now, and gives the identifier.
pub fn add_reminder(
    store: &mut Storage,
    title: String,
    description: Option<String>,
    time: Option<String>,
    cron: Option<String>,
    tags: Option<Vec<String>>,
) -> (added: Result<u128, CommandError>)
    ensures
        match added {
            Ok(id) => {
                &&& final(store)@.len() == old(store)@.len() + 1
                &&& final(store)@.drop_last() == old(store)@
                &&& final(store)@.last().id == id
                &&& exists|now: Timestamp| #[trigger]
                    made_as_typed(final(store)@.last(), now, title, description, time, cron, tags)
            },
            Err(e) => final(store)@ == old(store)@ && exists|now: Timestamp| #[trigger]
                schedule_refused(e, now, time, cron),
        },
        cron matches Some(typed) ==> (added is Ok <==> normalized_cron(typed@) is Rule),
        cron is None && time_refusal(time) is Some ==> refused_time(added) == time_refusal(time),
        cron is None && time is None ==> added matches Err(CommandError::NoSchedule),
{
    let now = clock_now();
    add_reminder_at(store, fresh_id(), &now, title, description, time, cron, tags)
}

/// Whether `edit` is what was typed for an edit, as read at the instant
/// `now`.
///
/// The title, the description and the tags are as typed. A typed time is
/// an instant that it is read as at `now`. A typed rule is the rule that
/// it comes to, with an occurrence strictly after `now` or none.
pub open spec fn edit_as_typed(
    edit: ReminderEdit,
    now: Timestamp,
    title: Option<String>,
    description: Option<String>,
    time: Option<String>,
    cron: Option<String>,
    add_tags: Option<Vec<String>>,
    remove_tags: Option<Vec<String>>,
) -> bool {
    &&& edit.title == title
    &&& edit.description == description
    &&& edit.add_tags@ == given(add_tags)
    &&& edit.remove_tags@ == given(remove_tags)
    &&& match time {
        Some(typed) => edit.one_time matches Some(at) && reads_at(
            typed@,
            now,
            Ok::<Timestamp, TimeError>(at),
        ),
        None => edit.one_time is None,
    }
    &&& match cron {
        Some(typed) => match edit.recurring {
            Some(rule) => {
                &&& CronReading::Rule(rule.0@) == normalized_cron(typed@)
                &&& rule.1 != Occurrence::CorruptRule
                &&& (rule.1 matches Occurrence::At(at) ==> at.is_after(now))
            },
            None => false,
        },
        None => edit.recurring is None,
    }
}

/// Whether the error `e` is the refusal of what was typed for an edit at
/// the instant `now`: of the time with a reason that can come of it at
/// `now`, or, the time being read or none, of the rule with what it came
/// to.
pub open spec fn edit_refused(
    e: CommandError,
    now: Timestamp,
    time: Option<String>,
    cron: Option<String>,
) -> bool {
    match e {
        CommandError::Time(t) => time matches Some(typed) && reads_at(
            typed@,
            now,
            Err::<Timestamp, TimeError>(t),
        ),
        CommandError::Cron(c) => {
            &&& cron matches Some(typed) && reading_of(Err::<String, CronError>(c))
                == normalized_cron(typed@)
            &&& (time matches Some(typed) ==> refusal_at(typed@, now) is None)
        },
        _ => false,
    }
}

/// Reads what was typed for an edit, at the instant `now`: the new time and
/// the new rule are normalised, and the rule is evaluated. Where one of
/// them cannot be read, there is no edit.
pub fn read_edit(
    now: &Timestamp,
    title: Option<String>,
    description: Option<String>,
    time: Option<String>,
    cron: Option<String>,
    add_tags: Option<Vec<String>>,
    remove_tags: Option<Vec<String>>,
) -> (read: Result<ReminderEdit, CommandError>)
    ensures
        match read {
            Ok(edit) => edit_as_typed(
                edit,
                *now,
                title,
                description,
                time,
                cron,
                add_tags,
                remove_tags,
            ),
            Err(e) => edit_refused(e, *now, time, cron),
        },
        time_refusal_at(time, *now) is Some ==> refused_time(read) == time_refusal_at(time, *now),
        (cron matches Some(typed) && !(normalized_cron(typed@) is Rule)) ==> read is Err,
        (time is None && (cron matches Some(typed) ==> normalized_cron(typed@) is Rule))
            ==> read is Ok,
{
    let one_time = match time {
        Some(typed) => match parse_time_at(typed.as_str(), now) {
            Ok(at) => Some(at),
            Err(e) => {
                return Err(CommandError::Time(e));
            },
        },
        None => None,
    };
    let recurring = match cron {
        Some(typed) => match parse_cron(typed.as_str()) {
            Ok(rule) => {
                let next = next_occurrence(rule.as_str(), now);
                Some((rule, next))
            },
            Err(e) => {
                return Err(CommandError::Cron(e));
            },
        },
        None => None,
    };
    Ok(
        ReminderEdit {
            title,
            description,
            one_time,
            recurring,
            add_tags: labels_of(add_tags),
            remove_tags: labels_of(remove_tags),
        },
    )
}

/// Whether `after` is the reminder `before` edited as typed at the instant
/// `now`.
///
/// Its identifier, the instant of its making and its paused mark stay. A
/// title and a description are replaced where one was typed. The tags are
/// those it had and those to add, without those to remove. A typed rule
/// makes it recur under the rule that the text comes to, with a next
/// trigger strictly after `now` or none; without a rule, a typed time makes
/// it due once, at an instant that the text is read as at `now`; either
/// makes it not completed. Without both, its schedule, its next trigger and
/// its completed mark stay.
pub open spec fn edited_as_typed(
    before: Reminder,
    after: Reminder,
    now: Timestamp,
    title: Option<String>,
    description: Option<String>,
    time: Option<String>,
    cron: Option<String>,
    add_tags: Option<Vec<String>>,
    remove_tags: Option<Vec<String>>,
) -> bool {
    &&& after.id == before.id
    &&& after.created_at == before.created_at
    &&& after.paused == before.paused
    &&& after.title == (match title {
        Some(title) => title,
        None => before.title,
    })
    &&& after.description == (match description {
        Some(text) => Some(text),
        None => before.description,
    })
    &&& forall|label: Seq<char>|
        #![trigger holds(after.tags@, label)]
        holds(after.tags@, label) <==> ((holds(before.tags@, label) || holds(
            given(add_tags),
            label,
        )) && !holds(given(remove_tags), label))
    &&& (before.wf() ==> after.wf())
    &&& (time matches Some(typed) ==> refusal_at(typed@, now) is None)
    &&& if cron is None && time is None {
        &&& after.schedule == before.schedule
        &&& after.next_trigger == before.next_trigger
        &&& after.completed == before.completed
    } else {
        scheduled_as_typed(after, now, time, cron)
    }
}

/// Edits, at the instant `now`, the one reminder that the short identifier
/// `short` stands for, and gives its identifier; `None` where `short`
/// stands for none.
///
/// What was typed is read first: where the time or the rule cannot be
/// read, or `short` stands for more than one reminder, nothing changes.
pub fn edit_reminder_at(
    store: &mut Storage,
    short: &str,
    now: &Timestamp,
    title: Option<String>,
    description: Option<String>,
    time: Option<String>,
    cron: Option<String>,
    add_tags: Option<Vec<String>>,
    remove_tags: Option<Vec<String>>,
) -> (edited: Result<Option<u128>, CommandError>)
    ensures
        final(store)@.len() == old(store)@.len(),
        matching(old(store)@, short@).len() == 0 ==> edited matches Ok(None),
        matching(old(store)@, short@).len() > 1 ==> (edited matches Err(
            CommandError::Ambiguous { matches },
        ) && matches == matching(old(store)@, short@).len()),
        matching(old(store)@, short@).len() == 1 ==> {
            &&& (edited matches Err(e) ==> edit_refused(e, *now, time, cron))
            &&& (time_refusal_at(time, *now) is Some ==> refused_time(edited) == time_refusal_at(
                time,
                *now,
            ))
            &&& ((cron matches Some(typed) && !(normalized_cron(typed@) is Rule)) ==> edited is Err)
            &&& ((time is None && (cron matches Some(typed) ==> normalized_cron(typed@) is Rule))
                ==> edited is Ok)
            &&& (edited matches Ok(found) ==> found == Some(matching(old(store)@, short@)[0].id))
        },
        match edited {
            Ok(Some(id)) => exists|at: int|
                {
                    &&& is_first_with_id(old(store)@, id, at)
                    &&& edited_as_typed(
                        old(store)@[at],
                        #[trigger] final(store)@[at],
                        *now,
                        title,
                        description,
                        time,
                        cron,
                        add_tags,
                        remove_tags,
                    )
                    &&& forall|j: int|
                        0 <= j < old(store)@.len() && j != at ==> final(store)@[j] == old(store)@[j]
                },
            _ => final(store)@ == old(store)@,
        },
{
    let (count, first) = store.resolve_short_id(short);
    if count == 0 {
        return Ok(None);
    }
    if count > 1 {
        return Err(CommandError::Ambiguous { matches: count });
    }
    let id: u128 = store.reminders[first].id;
    let edit = match read_edit(now, title, description, time, cron, add_tags, remove_tags) {
        Ok(edit) => edit,
        Err(e) => {
            return Err(e);
        },
    };
    match store.position(id) {
        Some(at) => {
            let ghost before = store@;
            let mut entry = store.reminders.remove(at);
            entry.apply_edit(edit);
            store.reminders.insert(at, entry);
            proof {
                assert(is_first_with_id(before, id, at as int));
                let after = store@[at as int];
                assert(after.id == id);
                assert(edited_as_typed(
                    before[at as int],
                    after,
                    *now,
                    title,
                    description,
                    time,
                    cron,
                    add_tags,
                    remove_tags,
                ));
            }
            Ok(Some(id))
        },
        None => {
            assert(store@[first as int].id == id);
            Ok(None)
        },
    }
}

/// Edits, at the present instant, the one reminder that the short
/// identifier `short` stands for, and gives its identifier; `None` where
/// `short` stands for none.
pub fn edit_reminder(
    store: &mut Storage,
    short: &str,
    title: Option<String>,
    description: Option<String>,
    time: Option<String>,
    cron: Option<String>,
    add_tags: Option<Vec<String>>,
    remove_tags: Option<Vec<String>>,
) -> (edited: Result<Option<u128>, CommandError>)
    ensures
        final(store)@.len() == old(store)@.len(),
        matching(old(store)@, short@).len() == 0 ==> edited matches Ok(None),
        matching(old(store)@, short@).len() > 1 ==> (edited matches Err(
            CommandError::Ambiguous { matches },
        ) && matches == matching(old(store)@, short@).len()),
        matching(old(store)@, short@).len() == 1 ==> {
            &&& (edited matches Err(e) ==> exists|now: Timestamp| #[trigger]
                edit_refused(e, now, time, cron))
            &&& (time_refusal(time) is Some ==> refused_time(edited) == time_refusal(time))
            &&& ((cron matches Some(typed) && !(normalized_cron(typed@) is Rule)) ==> edited is Err)
            &&& ((time is None && (cron matches Some(typed) ==> normalized_cron(typed@) is Rule))
                ==> edited is Ok)
            &&& (edited matches Ok(found) ==> found == Some(matching(old(store)@, short@)[0].id))
        },
        match edited {
            Ok(Some(id)) => exists|at: int, now: Timestamp|
                {
                    &&& is_first_with_id(old(store)@, id, at)
                    &&& #[trigger] edited_as_typed(
                        old(store)@[at],
                        final(store)@[at],
                        now,
                        title,
                        description,
                        time,
                        cron,
                        add_tags,
                        remove_tags,
                    )
                    &&& forall|j: int|
                        0 <= j < old(store)@.len() && j != at ==> final(store)@[j] == old(store)@[j]
                },
            _ => final(store)@ == old(store)@,
        },
{
    let now = clock_now();
    edit_reminder_at(store, short, &now, title, description, time, cron, add_tags, remove_tags)
}

} // verus!
