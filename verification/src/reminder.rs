//! The reminder and its life: active, paused, completed.

use vstd::prelude::*;
use vstd::string::*;
use crate::calendar::{clock_now, Timestamp};
use crate::cron_parser::{
    cron_accepts,
    is_rule,
    is_six_field_cron,
    next_occurrence,
    Occurrence,
};
use crate::ident::fresh_id;
use crate::tags::{add_tags_to, collect_tags, distinct, holds, remove_tags_from};

verus! {

/// When a reminder fires.
#[derive(Clone, Debug)]
pub enum ReminderSchedule {
    /// Once, at this instant.
    OneTime(Timestamp),
    /// Again and again, as this cron expression says.
    Cron(String),
}

/// The state of a reminder. Completed goes before paused.
#[derive(Clone, Copy, Debug, PartialEq, Eq, Structural)]
pub enum ReminderState {
    Active,
    Paused,
    Completed,
}

/// Why no reminder was made.
#[derive(Clone, Copy, Debug, PartialEq, Eq, Structural)]
pub enum ReminderError {
    /// The recurrence rule is no valid cron expression of six fields.
    InvalidRule,
}

/// What is to be changed of a reminder. What is `None` stays as it is.
#[derive(Clone, Debug)]
pub struct ReminderEdit {
    pub title: Option<String>,
    pub description: Option<String>,
    /// A new instant, which makes the reminder a one-time reminder.
    pub one_time: Option<Timestamp>,
    /// A new rule with the occurrence found for it, which makes the
    /// reminder a recurring one. It goes before `one_time`.
    pub recurring: Option<(String, Occurrence)>,
    /// Tags to add.
    pub add_tags: Vec<String>,
    /// Tags to take away, also from those just added.
    pub remove_tags: Vec<String>,
}

/// Something to be reminded of, once or again and again.
#[derive(Clone, Debug)]
pub struct Reminder {
    pub id: u128,
    pub title: String,
    pub description: Option<String>,
    pub schedule: ReminderSchedule,
    pub created_at: Timestamp,
    pub next_trigger: Option<Timestamp>,
    pub completed: bool,
    pub paused: bool,
    pub tags: Vec<String>,
}

impl Reminder {
    /// What holds of every reminder that the library makes or changes: no
    /// tag occurs twice, and a one-time reminder that has not fired is due
    /// at the instant of its schedule.
    pub open spec fn wf(&self) -> bool {
        &&& distinct(self.tags@)
        &&& (self.schedule matches ReminderSchedule::OneTime(at) ==> (!self.completed
            ==> self.next_trigger == Some(at)))
    }

    /// Whether the reminder is due at the instant `now`: neither completed
    /// nor paused, and `now` is its next trigger or later.
    pub open spec fn due_at(&self, now: Timestamp) -> bool {
        !self.completed && !self.paused && (self.next_trigger matches Some(at)
            && now.is_at_or_after(at))
    }

    /// The state of the reminder.
    pub open spec fn spec_state(&self) -> ReminderState {
        if self.completed {
            ReminderState::Completed
        } else if self.paused {
            ReminderState::Paused
        } else {
            ReminderState::Active
        }
    }

    /// Whether `self` is `before` but for its next trigger and its
    /// completed and paused marks.
    pub open spec fn same_entry_as(&self, before: &Reminder) -> bool {
        &&& self.id == before.id
        &&& self.title == before.title
        &&& self.description == before.description
        &&& self.schedule == before.schedule
        &&& self.created_at == before.created_at
        &&& self.tags == before.tags
    }

    /// A one-time reminder for the instant `time`, made at `created_at`
    /// under the identifier `id`. Of `labels`, each label is kept once.
    pub fn one_time_with(
        id: u128,
        created_at: Timestamp,
        title: String,
        description: Option<String>,
        time: Timestamp,
        labels: Vec<String>,
    ) -> (made: Reminder)
        ensures
            made.wf(),
            made.id == id,
            made.created_at == created_at,
            made.title == title,
            made.description == description,
            made.schedule == ReminderSchedule::OneTime(time),
            made.next_trigger == Some(time),
            !made.completed,
            !made.paused,
            forall|label: Seq<char>|
                #![trigger holds(made.tags@, label)]
                holds(made.tags@, label) <==> holds(labels@, label),
    {
        Reminder {
            id,
            title,
            description,
            schedule: ReminderSchedule::OneTime(time),
            created_at,
            next_trigger: Some(time),
            completed: false,
            paused: false,
            tags: collect_tags(labels),
        }
    }

    /// A recurring reminder under the rule `cron_expr`, made at `created_at`
    /// under the identifier `id`, with `next` as what the evaluation of the
    /// rule gave. Of `labels`, each label is kept once.
    pub fn recurring_with(
        id: u128,
        created_at: Timestamp,
        title: String,
        description: Option<String>,
        cron_expr: String,
        next: Occurrence,
        labels: Vec<String>,
    ) -> (made: Reminder)
        ensures
            made.wf(),
            made.id == id,
            made.created_at == created_at,
            made.title == title,
            made.description == description,
            made.schedule == ReminderSchedule::Cron(cron_expr),
            made.next_trigger == (match next {
                Occurrence::At(at) => Some(at),
                _ => None,
            }),
            !made.completed,
            !made.paused,
            forall|label: Seq<char>|
                #![trigger holds(made.tags@, label)]
                holds(made.tags@, label) <==> holds(labels@, label),
    {
        Reminder {
            id,
            title,
            description,
            schedule: ReminderSchedule::Cron(cron_expr),
            created_at,
            next_trigger: match next {
                Occurrence::At(at) => Some(at),
                _ => None,
            },
            completed: false,
            paused: false,
            tags: collect_tags(labels),
        }
    }

    /// A one-time reminder for the instant `time`, made now under a fresh
    /// identifier.
    pub fn new_one_time(
        title: String,
        description: Option<String>,
        time: Timestamp,
        tags: Vec<String>,
    ) -> (made: Reminder)
        ensures
            made.wf(),
            made.title == title,
            made.description == description,
            made.schedule == ReminderSchedule::OneTime(time),
            made.next_trigger == Some(time),
            !made.completed,
            !made.paused,
            forall|label: Seq<char>|
                #![trigger holds(made.tags@, label)]
                holds(made.tags@, label) <==> holds(tags@, label),
    {
        Reminder::one_time_with(fresh_id(), clock_now(), title, description, time, tags)
    }

    /// A recurring reminder under the rule `cron_expr`, made now under a
    /// fresh identifier and due at the rule's first occurrence after now.
    /// A rule that is no valid cron expression of six fields, or has white
    /// space at its ends, is refused.
    pub fn new_cron(
        title: String,
        description: Option<String>,
        cron_expr: String,
        tags: Vec<String>,
    ) -> (made: Result<Reminder, ReminderError>)
        ensures
            made is Err <==> !is_rule(cron_expr@),
            made matches Ok(r) ==> {
                &&& r.wf()
                &&& r.title == title
                &&& r.description == description
                &&& r.schedule == ReminderSchedule::Cron(cron_expr)
                &&& (r.next_trigger matches Some(at) ==> at.is_after(r.created_at))
                &&& !r.completed
                &&& !r.paused
                &&& forall|label: Seq<char>|
                    #![trigger holds(r.tags@, label)]
                    holds(r.tags@, label) <==> holds(tags@, label)
            },
    {
        if !is_six_field_cron(cron_expr.as_str()) {
            return Err(ReminderError::InvalidRule);
        }
        let now = clock_now();
        match next_occurrence(cron_expr.as_str(), &now) {
            Occurrence::CorruptRule => Err(ReminderError::InvalidRule),
            next => {
                let id: u128 = fresh_id();
                Ok(Reminder::recurring_with(id, now, title, description, cron_expr, next, tags))
            },
        }
    }

    /// Tells whether the reminder is due at the instant `now`.
    pub fn is_due_at(&self, now: &Timestamp) -> (due: bool)
        ensures
            due == self.due_at(*now),
    {
        if self.completed || self.paused {
            return false;
        }
        match self.next_trigger {
            Some(at) => now.reached(&at),
            None => false,
        }
    }

    /// Tells whether the reminder is due at the present instant.
    pub fn is_due(&self) -> (due: bool)
        ensures
            exists|now: Timestamp| due == #[trigger] self.due_at(now),
            due ==> !self.completed && !self.paused && self.next_trigger is Some,
    {
        let now = clock_now();
        self.is_due_at(&now)
    }

    /// Records that the reminder has fired, `found` being when its rule,
    /// if it has one, is next due.
    ///
    /// A one-time reminder is completed and has no next trigger, whatever
    /// `found` is. A recurring reminder is due next at the instant found, or
    /// has no next trigger where none was found or the rule cannot be read.
    pub fn settle_trigger(&mut self, found: Occurrence)
        ensures
            final(self).same_entry_as(old(self)),
            final(self).paused == old(self).paused,
            old(self).schedule is OneTime ==> final(self).completed && final(self).next_trigger
                is None,
            old(self).schedule is Cron ==> final(self).completed == old(self).completed
                && final(self).next_trigger == (match found {
                Occurrence::At(at) => Some(at),
                _ => None,
            }),
            old(self).wf() ==> final(self).wf(),
    {
        match self.schedule {
            ReminderSchedule::OneTime(_) => {
                self.completed = true;
                self.next_trigger = None;
            },
            ReminderSchedule::Cron(_) => {
                self.next_trigger = match found {
                    Occurrence::At(at) => Some(at),
                    _ => None,
                };
            },
        }
    }

    /// When the rule of the reminder is next due after the instant `now`;
    /// for a one-time reminder, never.
    pub fn upcoming_at(&self, now: &Timestamp) -> (found: Occurrence)
        ensures
            self.schedule is OneTime ==> found == Occurrence::Never,
            self.schedule matches ReminderSchedule::Cron(rule) ==> (found == Occurrence::CorruptRule
                <==> !cron_accepts(rule@)),
            found matches Occurrence::At(at) ==> at.is_after(*now),
    {
        match &self.schedule {
            ReminderSchedule::OneTime(_) => Occurrence::Never,
            ReminderSchedule::Cron(rule) => next_occurrence(rule.as_str(), now),
        }
    }

    /// Moves the reminder on after it has fired at the instant `now`, and
    /// tells whether its rule could be read.
    ///
    /// A one-time reminder is completed and has no next trigger; once that
    /// is so, nothing changes any more. A recurring reminder is due next at
    /// the first occurrence of its rule strictly after `now`; it has no next
    /// trigger where there is none or where the rule cannot be read, and
    /// only then is the answer `false`.
    pub fn calculate_next_trigger_at(&mut self, now: &Timestamp) -> (computed: bool)
        ensures
            final(self).same_entry_as(old(self)),
            final(self).paused == old(self).paused,
            old(self).schedule is OneTime ==> computed && final(self).completed
                && final(self).next_trigger is None,
            old(self).schedule matches ReminderSchedule::Cron(rule) ==> {
                &&& computed == cron_accepts(rule@)
                &&& final(self).completed == old(self).completed
                &&& (final(self).next_trigger matches Some(at) ==> at.is_after(*now))
                &&& (!computed ==> final(self).next_trigger is None)
            },
            old(self).schedule is OneTime && old(self).completed && old(self).next_trigger is None
                ==> *final(self) == *old(self),
            old(self).wf() ==> final(self).wf(),
    {
        let found = self.upcoming_at(now);
        self.settle_trigger(found);
        match found {
            Occurrence::CorruptRule => false,
            _ => true,
        }
    }

    /// Moves the reminder on after it has fired at the present instant, and
    /// tells whether its rule could be read.
    pub fn calculate_next_trigger(&mut self) -> (computed: bool)
        ensures
            final(self).same_entry_as(old(self)),
            final(self).paused == old(self).paused,
            old(self).schedule is OneTime ==> computed && final(self).completed
                && final(self).next_trigger is None,
            old(self).schedule matches ReminderSchedule::Cron(rule) ==> {
                &&& computed == cron_accepts(rule@)
                &&& final(self).completed == old(self).completed
                &&& (!computed ==> final(self).next_trigger is None)
            },
            old(self).schedule is OneTime && old(self).completed && old(self).next_trigger is None
                ==> *final(self) == *old(self),
            old(self).wf() ==> final(self).wf(),
    {
        let now = clock_now();
        self.calculate_next_trigger_at(&now)
    }

    /// Pauses the reminder. Its next trigger stays.
    pub fn pause(&mut self)
        ensures
            final(self).same_entry_as(old(self)),
            final(self).paused,
            final(self).completed == old(self).completed,
            final(self).next_trigger == old(self).next_trigger,
            old(self).wf() ==> final(self).wf(),
    {
        self.paused = true;
    }

    /// Resumes the reminder at the instant `now`, and tells whether its
    /// rule could be read.
    ///
    /// A one-time reminder keeps its next trigger. A recurring reminder is
    /// due next at the first occurrence of its rule strictly after `now`:
    /// what it missed while paused is skipped.
    pub fn resume_at(&mut self, now: &Timestamp) -> (computed: bool)
        ensures
            final(self).same_entry_as(old(self)),
            !final(self).paused,
            final(self).completed == old(self).completed,
            old(self).schedule is OneTime ==> computed && final(self).next_trigger == old(
                self,
            ).next_trigger,
            old(self).schedule matches ReminderSchedule::Cron(rule) ==> {
                &&& computed == cron_accepts(rule@)
                &&& (final(self).next_trigger matches Some(at) ==> at.is_after(*now))
                &&& (!computed ==> final(self).next_trigger is None)
            },
            old(self).wf() ==> final(self).wf(),
    {
        self.paused = false;
        match self.schedule {
            ReminderSchedule::OneTime(_) => true,
            ReminderSchedule::Cron(_) => {
                let found = self.upcoming_at(now);
                self.settle_trigger(found);
                match found {
                    Occurrence::CorruptRule => false,
                    _ => true,
                }
            },
        }
    }

    /// Resumes the reminder at the present instant, and tells whether its
    /// rule could be read.
    pub fn resume(&mut self) -> (computed: bool)
        ensures
            final(self).same_entry_as(old(self)),
            !final(self).paused,
            final(self).completed == old(self).completed,
            old(self).schedule is OneTime ==> computed && final(self).next_trigger == old(
                self,
            ).next_trigger,
            old(self).schedule matches ReminderSchedule::Cron(rule) ==> {
                &&& computed == cron_accepts(rule@)
                &&& (!computed ==> final(self).next_trigger is None)
            },
            old(self).wf() ==> final(self).wf(),
    {
        let now = clock_now();
        self.resume_at(&now)
    }

    /// Changes the reminder as `edit` says.
    ///
    /// A new schedule makes the reminder due again: it is no longer
    /// completed, and its next trigger is the new instant, or the
    /// occurrence found for the new rule. Its identifier, the instant of
    /// its making and its paused mark stay.
    pub fn apply_edit(&mut self, edit: ReminderEdit)
        ensures
            final(self).id == old(self).id,
            final(self).created_at == old(self).created_at,
            final(self).paused == old(self).paused,
            final(self).title == (match edit.title {
                Some(title) => title,
                None => old(self).title,
            }),
            final(self).description == (match edit.description {
                Some(text) => Some(text),
                None => old(self).description,
            }),
            edit.recurring matches Some(rule) ==> {
                &&& final(self).schedule == ReminderSchedule::Cron(rule.0)
                &&& final(self).next_trigger == rule.1.spec_instant()
                &&& !final(self).completed
            },
            edit.recurring is None ==> (edit.one_time matches Some(at) ==> {
                &&& final(self).schedule == ReminderSchedule::OneTime(at)
                &&& final(self).next_trigger == Some(at)
                &&& !final(self).completed
            }),
            edit.recurring is None && edit.one_time is None ==> {
                &&& final(self).schedule == old(self).schedule
                &&& final(self).next_trigger == old(self).next_trigger
                &&& final(self).completed == old(self).completed
            },
            forall|label: Seq<char>|
                #![trigger holds(final(self).tags@, label)]
                holds(final(self).tags@, label) <==> ((holds(old(self).tags@, label) || holds(
                    edit.add_tags@,
                    label,
                )) && !holds(edit.remove_tags@, label)),
            old(self).wf() ==> final(self).wf(),
    {
        let ReminderEdit { title, description, one_time, recurring, add_tags, remove_tags } = edit;
        if let Some(title) = title {
            self.title = title;
        }
        if let Some(text) = description {
            self.description = Some(text);
        }
        if let Some(at) = one_time {
            self.schedule = ReminderSchedule::OneTime(at);
            self.next_trigger = Some(at);
            self.completed = false;
        }
        if let Some(rule) = recurring {
            let (expr, found) = rule;
            self.schedule = ReminderSchedule::Cron(expr);
            self.next_trigger = found.instant();
            self.completed = false;
        }
        let ghost before = self.tags@;
        add_tags_to(&mut self.tags, &add_tags);
        let ghost added = self.tags@;
        remove_tags_from(&mut self.tags, &remove_tags);
        proof {
            assert forall|label: Seq<char>|
                #![trigger holds(self.tags@, label)]
                holds(self.tags@, label) <==> ((holds(before, label)
                || holds(add_tags@, label)) && !holds(remove_tags@, label)) by {
                assert(holds(added, label) <==> (holds(before, label) || holds(add_tags@, label)));
                assert(holds(self.tags@, label) <==> (holds(added, label) && !holds(
                    remove_tags@,
                    label,
                )));
            }
        }
    }

    /// The state of the reminder.
    pub fn state(&self) -> (state: ReminderState)
        ensures
            state == self.spec_state(),
    {
        if self.completed {
            ReminderState::Completed
        } else if self.paused {
            ReminderState::Paused
        } else {
            ReminderState::Active
        }
    }

    /// The state of the reminder in a word.
    pub fn status(&self) -> (word: &'static str)
        ensures
            word@ == (match self.spec_state() {
                ReminderState::Completed => "Completed"@,
                ReminderState::Paused => "Paused"@,
                ReminderState::Active => "Active"@,
            }),
    {
        match self.state() {
            ReminderState::Completed => "Completed",
            ReminderState::Paused => "Paused",
            ReminderState::Active => "Active",
        }
    }
}

} // verus!
