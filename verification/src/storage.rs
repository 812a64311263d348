//! The collection of reminders: a snapshot held in memory, which the
//! application reads from its file before an operation and writes back
//! after it.

use vstd::prelude::*;
use vstd::string::*;
use std::collections::HashSet;
use crate::calendar::{clock_now, Timestamp};
use crate::ident::{matches_short, short_id_matches};
use crate::cron_parser::cron_accepts;
use crate::reminder::{Reminder, ReminderSchedule};
use crate::tags::{add_tags_to, distinct, has_tag, holds};
use crate::text::{chars_of, is_space, is_space_char};

verus! {

/// Why an operation on the store was refused.
#[derive(Clone, Copy, Debug, PartialEq, Eq, Structural)]
pub enum StorageError {
    /// A short identifier stands for this many reminders, more than one.
    Ambiguous { matches: usize },
}

/// The reminders, in the order in which they were added.
#[derive(Clone, Debug)]
pub struct Storage {
    pub reminders: Vec<Reminder>,
}

/// Whether one of `items` has the identifier `id`.
pub open spec fn has_id(items: Seq<Reminder>, id: u128) -> bool {
    exists|i: int| 0 <= i < items.len() && #[trigger] items[i].id == id
}

/// Whether `at` is the place of the first of `items` with the identifier
/// `id`.
pub open spec fn is_first_with_id(items: Seq<Reminder>, id: u128, at: int) -> bool {
    &&& 0 <= at < items.len()
    &&& items[at].id == id
    &&& forall|j: int| 0 <= j < at ==> (#[trigger] items[j]).id != id
}

/// Those of `items` that have another identifier than `id`.
pub open spec fn others(items: Seq<Reminder>, id: u128) -> Seq<Reminder> {
    items.filter(|r: Reminder| r.id != id)
}

/// Those of `items` that are not completed.
pub open spec fn pending(items: Seq<Reminder>) -> Seq<Reminder> {
    items.filter(|r: Reminder| !r.completed)
}

/// Those of `items` that the short identifier `short` stands for.
pub open spec fn matching(items: Seq<Reminder>, short: Seq<char>) -> Seq<Reminder> {
    items.filter(|r: Reminder| matches_short(short, r.id))
}

/// Those of `items` that carry the tag `tag`.
pub open spec fn tagged(items: Seq<Reminder>, tag: Seq<char>) -> Seq<Reminder> {
    items.filter(|r: Reminder| holds(r.tags@, tag))
}

/// Whether no two of `items` have the same identifier.
pub open spec fn distinct_ids(items: Seq<Reminder>) -> bool {
    forall|i: int, j: int|
        0 <= i < j < items.len() ==> (#[trigger] items[i]).id != (#[trigger] items[j]).id
}

/// What one record of an import does to the collection and to the two
/// counts, of records imported and of records skipped. The record is held
/// against the collection as it stands when its turn comes, so that of two
/// incoming records with one identifier the second meets the first.
pub open spec fn import_step(
    so_far: (Seq<Reminder>, nat, nat),
    record: Reminder,
    overwrite: bool,
) -> (Seq<Reminder>, nat, nat) {
    if has_id(so_far.0, record.id) {
        if overwrite {
            (others(so_far.0, record.id).push(record), so_far.1 + 1, so_far.2)
        } else {
            (so_far.0, so_far.1, so_far.2 + 1)
        }
    } else {
        (so_far.0.push(record), so_far.1 + 1, so_far.2)
    }
}

/// The collection after the import of `incoming` into `existing`, with the
/// counts of records imported and of records skipped.
///
/// A record whose identifier the collection does not hold yet is added at
/// the end. One whose identifier it holds is skipped, or, where `overwrite`
/// is set, put at the end in place of every record with that identifier.
pub open spec fn imported(existing: Seq<Reminder>, incoming: Seq<Reminder>, overwrite: bool) -> (
    Seq<Reminder>,
    nat,
    nat,
)
    decreases incoming.len(),
{
    if incoming.len() == 0 {
        (existing, 0, 0)
    } else {
        import_step(
            imported(existing, incoming.drop_last(), overwrite),
            incoming.last(),
            overwrite,
        )
    }
}

/// Whether `after` is the reminder `before` resumed: no longer paused, and
/// else the same but for its next trigger. A one-time reminder keeps its
/// next trigger; a recurring one whose rule cannot be read has none.
pub open spec fn resumed_entry(before: Reminder, after: Reminder) -> bool {
    &&& after.same_entry_as(&before)
    &&& !after.paused
    &&& after.completed == before.completed
    &&& (before.schedule is OneTime ==> after.next_trigger == before.next_trigger)
    &&& (before.schedule matches ReminderSchedule::Cron(rule) ==> (!cron_accepts(rule@)
        ==> after.next_trigger is None))
    &&& (before.wf() ==> after.wf())
}

/// Whether `after` is the collection `before` with the one reminder that
/// the short identifier `short` stands for resumed, and all others as they
/// were.
pub open spec fn resumed_in(before: Seq<Reminder>, after: Seq<Reminder>, short: Seq<char>) -> bool {
    exists|at: int|
        {
            &&& 0 <= at < before.len()
            &&& before[at] == matching(before, short)[0]
            &&& after.len() == before.len()
            &&& resumed_entry(before[at], #[trigger] after[at])
            &&& forall|j: int| 0 <= j < before.len() && j != at ==> after[j] == before[j]
        }
}

/// Whether a snapshot with the characters `content` holds no record at
/// all: nothing but white space.
pub open spec fn blank(content: Seq<char>) -> bool {
    forall|i: int| 0 <= i < content.len() ==> is_space(#[trigger] content[i])
}

/// Tells whether a snapshot holds no record at all, as one does that was
/// never written.
pub fn is_blank_snapshot(content: &str) -> (empty: bool)
    ensures
        empty == blank(content@),
{
    let chars = chars_of(content);
    let mut i: usize = 0;
    while i < chars.len()
        invariant
            i <= chars.len(),
            chars@ == content@,
            forall|j: int| 0 <= j < i ==> is_space(#[trigger] chars@[j]),
        decreases chars.len() - i,
    {
        if !is_space_char(chars[i]) {
            return false;
        }
        i = i + 1;
    }
    true
}

fn without_id(all: Vec<Reminder>, id: u128) -> (kept: Vec<Reminder>)
    ensures
        kept@ == others(all@, id),
        kept@.len() <= all@.len(),
{
    let ghost keep = |r: Reminder| r.id != id;
    let ghost before = all@;
    let mut kept: Vec<Reminder> = Vec::new();
    for r in it: all
        invariant
            keep == (|r: Reminder| r.id != id),
            it.seq() == before,
            kept@ == before.take(it.index() as int).filter(keep),
    {
        proof {
            let upto = before.take(it.index() as int);
            assert(before.take(it.index() + 1) == upto.push(before[it.index() as int]));
            upto.lemma_filter_push(before[it.index() as int], keep);
        }
        if r.id != id {
            kept.push(r);
        }
    }
    proof {
        assert(before.take(before.len() as int) == before);
        before.lemma_filter_len(keep);
    }
    kept
}

pub(crate) fn without_completed(all: Vec<Reminder>) -> (kept: Vec<Reminder>)
    ensures
        kept@ == pending(all@),
        kept@.len() <= all@.len(),
{
    let ghost keep = |r: Reminder| !r.completed;
    let ghost before = all@;
    let mut kept: Vec<Reminder> = Vec::new();
    for r in it: all
        invariant
            keep == (|r: Reminder| !r.completed),
            it.seq() == before,
            kept@ == before.take(it.index() as int).filter(keep),
    {
        proof {
            let upto = before.take(it.index() as int);
            assert(before.take(it.index() + 1) == upto.push(before[it.index() as int]));
            upto.lemma_filter_push(before[it.index() as int], keep);
        }
        if !r.completed {
            kept.push(r);
        }
    }
    proof {
        assert(before.take(before.len() as int) == before);
        before.lemma_filter_len(keep);
    }
    kept
}

fn take_all(from: &mut Vec<Reminder>) -> (all: Vec<Reminder>)
    ensures
        all@ == old(from)@,
        final(from)@.len() == 0,
{
    let mut all: Vec<Reminder> = Vec::new();
    all.append(from);
    all
}

impl View for Storage {
    type V = Seq<Reminder>;

    open spec fn view(&self) -> Seq<Reminder> {
        self.reminders@
    }
}

impl Storage {
    /// A store without reminders.
    pub fn new() -> (store: Storage)
        ensures
            store@ == Seq::<Reminder>::empty(),
    {
        Storage { reminders: Vec::new() }
    }

    /// The store that holds `records`, the records of a snapshot, in their
    /// order.
    pub fn load(records: Vec<Reminder>) -> (store: Storage)
        ensures
            store@ == records@,
    {
        Storage { reminders: records }
    }

    /// The number of reminders.
    pub fn len(&self) -> (n: usize)
        ensures
            n == self@.len(),
    {
        self.reminders.len()
    }

    /// Adds `reminder` at the end.
    pub fn add(&mut self, reminder: Reminder)
        ensures
            final(self)@ == old(self)@.push(reminder),
    {
        self.reminders.push(reminder);
    }

    /// The place of the first reminder with the identifier `id`.
    pub fn position(&self, id: u128) -> (found: Option<usize>)
        ensures
            match found {
                Some(at) => is_first_with_id(self@, id, at as int),
                None => !has_id(self@, id),
            },
    {
        let mut i: usize = 0;
        while i < self.reminders.len()
            invariant
                i <= self.reminders.len(),
                forall|j: int| 0 <= j < i ==> (#[trigger] self@[j]).id != id,
            decreases self.reminders.len() - i,
        {
            if self.reminders[i].id == id {
                return Some(i);
            }
            i = i + 1;
        }
        None
    }

    /// Removes every reminder with the identifier `id`, and tells whether
    /// there was one.
    pub fn delete(&mut self, id: u128) -> (removed: bool)
        ensures
            final(self)@ == others(old(self)@, id),
            removed == has_id(old(self)@, id),
    {
        let ghost before = self@;
        let all = take_all(&mut self.reminders);
        let n: usize = all.len();
        self.reminders = without_id(all, id);
        proof {
            lemma_others_len(before, id);
        }
        self.reminders.len() != n
    }

    /// Applies `updater` to the first reminder with the identifier `id`,
    /// and tells whether there was one.
    pub fn update<F: FnOnce(Reminder) -> Reminder>(&mut self, id: u128, updater: F) -> (updated:
        bool)
        requires
            forall|at: int|
                is_first_with_id(old(self)@, id, at) ==> updater.requires((old(self)@[at],)),
        ensures
            updated == has_id(old(self)@, id),
            !updated ==> final(self)@ == old(self)@,
            updated ==> exists|at: int|
                {
                    &&& is_first_with_id(old(self)@, id, at)
                    &&& final(self)@.len() == old(self)@.len()
                    &&& updater.ensures((old(self)@[at],), #[trigger] final(self)@[at])
                    &&& forall|j: int|
                        0 <= j < old(self)@.len() && j != at ==> final(self)@[j] == old(self)@[j]
                },
    {
        match self.position(id) {
            Some(at) => {
                let ghost before = self@;
                let current = self.reminders.remove(at);
                let changed = updater(current);
                self.reminders.insert(at, changed);
                assert(is_first_with_id(before, id, at as int));
                assert(updater.ensures((before[at as int],), self@[at as int]));
                true
            },
            None => false,
        }
    }

    /// The first reminder with the identifier `id`.
    pub fn get(&self, id: u128) -> (found: Option<&Reminder>)
        ensures
            match found {
                Some(r) => exists|at: int|
                    is_first_with_id(self@, id, at) && *r == #[trigger] self@[at],
                None => !has_id(self@, id),
            },
    {
        match self.position(id) {
            Some(at) => Some(&self.reminders[at]),
            None => None,
        }
    }

    /// Counts the reminders that the short identifier `short` stands for,
    /// and finds the first of them.
    pub fn resolve_short_id(&self, short: &str) -> (found: (usize, usize))
        ensures
            found.0 == matching(self@, short@).len(),
            found.0 > 0 ==> found.1 < self@.len() && self@[found.1 as int] == matching(
                self@,
                short@,
            )[0],
    {
        let ghost keep = |r: Reminder| matches_short(short@, r.id);
        let wanted = chars_of(short);
        let mut count: usize = 0;
        let mut first: usize = 0;
        let mut i: usize = 0;
        while i < self.reminders.len()
            invariant
                i <= self.reminders.len(),
                wanted@ == short@,
                keep == (|r: Reminder| matches_short(short@, r.id)),
                count == self@.take(i as int).filter(keep).len(),
                count <= i,
                count > 0 ==> first < i && self@[first as int] == self@.take(i as int).filter(
                    keep,
                )[0],
            decreases self.reminders.len() - i,
        {
            proof {
                let upto = self@.take(i as int);
                assert(self@.take(i + 1) == upto.push(self@[i as int]));
                upto.lemma_filter_push(self@[i as int], keep);
            }
            if short_id_matches(&wanted, self.reminders[i].id) {
                if count == 0 {
                    first = i;
                }
                count = count + 1;
            }
            i = i + 1;
        }
        assert(self@.take(self@.len() as int) == self@);
        (count, first)
    }

    /// The one reminder that the short identifier `short` stands for: the
    /// one whose identifier begins with it.
    ///
    /// Where it stands for none, there is none to give; where it stands for
    /// more than one, none is picked and the error names their number.
    pub fn find_by_short_id(&self, short: &str) -> (found: Result<Option<&Reminder>, StorageError>)
        ensures
            matching(self@, short@).len() == 0 ==> found == Ok::<
                Option<&Reminder>,
                StorageError,
            >(None),
            matching(self@, short@).len() == 1 ==> found == Ok::<
                Option<&Reminder>,
                StorageError,
            >(Some(&matching(self@, short@)[0])),
            matching(self@, short@).len() > 1 ==> found == Err::<Option<&Reminder>, StorageError>(
                StorageError::Ambiguous { matches: matching(self@, short@).len() as usize },
            ),
    {
        let (count, first) = self.resolve_short_id(short);
        if count == 0 {
            Ok(None)
        } else if count == 1 {
            Ok(Some(&self.reminders[first]))
        } else {
            Err(StorageError::Ambiguous { matches: count })
        }
    }

    /// Removes the one reminder that the short identifier `short` stands
    /// for, with every other record that has its identifier, and gives that
    /// identifier.
    ///
    /// Where `short` stands for none or for more than one, nothing changes.
    pub fn delete_by_short_id(&mut self, short: &str) -> (removed: Result<
        Option<u128>,
        StorageError,
    >)
        ensures
            matching(old(self)@, short@).len() == 0 ==> removed == Ok::<
                Option<u128>,
                StorageError,
            >(None) && final(self)@ == old(self)@,
            matching(old(self)@, short@).len() == 1 ==> removed == Ok::<
                Option<u128>,
                StorageError,
            >(Some(matching(old(self)@, short@)[0].id)) && final(self)@ == others(
                old(self)@,
                matching(old(self)@, short@)[0].id,
            ),
            matching(old(self)@, short@).len() > 1 ==> removed == Err::<
                Option<u128>,
                StorageError,
            >(StorageError::Ambiguous { matches: matching(old(self)@, short@).len() as usize })
                && final(self)@ == old(self)@,
    {
        let (count, first) = self.resolve_short_id(short);
        if count == 0 {
            Ok(None)
        } else if count == 1 {
            let id: u128 = self.reminders[first].id;
            self.delete(id);
            Ok(Some(id))
        } else {
            Err(StorageError::Ambiguous { matches: count })
        }
    }

    /// Removes the completed reminders and gives their number.
    pub fn clean_completed(&mut self) -> (removed: usize)
        ensures
            final(self)@ == pending(old(self)@),
            removed == old(self)@.len() - final(self)@.len(),
    {
        let all = take_all(&mut self.reminders);
        let n: usize = all.len();
        self.reminders = without_completed(all);
        n - self.reminders.len()
    }

    /// The reminders that carry the tag `tag`, in their order.
    pub fn filter_by_tag(&self, tag: &str) -> (found: Vec<&Reminder>)
        ensures
            found@.map_values(|r: &Reminder| *r) == tagged(self@, tag@),
    {
        let ghost keep = |r: Reminder| holds(r.tags@, tag@);
        let ghost deref = |r: &Reminder| *r;
        let mut found: Vec<&Reminder> = Vec::new();
        let mut i: usize = 0;
        while i < self.reminders.len()
            invariant
                i <= self.reminders.len(),
                keep == (|r: Reminder| holds(r.tags@, tag@)),
                deref == (|r: &Reminder| *r),
                found@.map_values(deref) == self@.take(i as int).filter(keep),
            decreases self.reminders.len() - i,
        {
            proof {
                let upto = self@.take(i as int);
                assert(self@.take(i + 1) == upto.push(self@[i as int]));
                upto.lemma_filter_push(self@[i as int], keep);
            }
            let ghost so_far = found@;
            if has_tag(&self.reminders[i].tags, tag) {
                found.push(&self.reminders[i]);
                assert(found@.map_values(deref) == so_far.map_values(deref).push(self@[i as int]));
            }
            i = i + 1;
        }
        assert(self@.take(self@.len() as int) == self@);
        found
    }

    /// The tags that the reminders carry, each once, in the order in which
    /// they first occur.
    pub fn get_all_tags(&self) -> (all: Vec<String>)
        ensures
            distinct(all@),
            forall|tag: Seq<char>|
                #![trigger holds(all@, tag)]
                holds(all@, tag) <==> carried(self@, tag),
    {
        let mut all: Vec<String> = Vec::new();
        let mut i: usize = 0;
        while i < self.reminders.len()
            invariant
                i <= self.reminders.len(),
                distinct(all@),
                forall|tag: Seq<char>|
                    #![trigger holds(all@, tag)]
                    holds(all@, tag) <==> carried(self@.take(i as int), tag),
            decreases self.reminders.len() - i,
        {
            let ghost so_far = all@;
            add_tags_to(&mut all, &self.reminders[i].tags);
            proof {
                let upto = self@.take(i as int);
                let next = self@.take(i + 1);
                let tags = self@[i as int].tags@;
                assert forall|tag: Seq<char>| #![trigger holds(all@, tag)]
                    holds(all@, tag) <==> carried(next, tag) by {
                    assert(holds(so_far, tag) <==> carried(upto, tag));
                    assert(holds(all@, tag) <==> (holds(so_far, tag) || holds(tags, tag)));
                    if carried(upto, tag) {
                        let j = choose|j: int|
                            0 <= j < upto.len() && holds((#[trigger] upto[j]).tags@, tag);
                        assert(holds(next[j].tags@, tag));
                    }
                    if holds(tags, tag) {
                        assert(holds(next[i as int].tags@, tag));
                    }
                    if carried(next, tag) {
                        let j = choose|j: int|
                            0 <= j < next.len() && holds((#[trigger] next[j]).tags@, tag);
                        if j < i {
                            assert(holds(upto[j].tags@, tag));
                        }
                    }
                }
            }
            i = i + 1;
        }
        assert(self@.take(self@.len() as int) == self@);
        all
    }

    /// Pauses the one reminder that the short identifier `short` stands
    /// for, and gives its identifier.
    ///
    /// Where `short` stands for none or for more than one, nothing changes.
    pub fn pause_by_short_id(&mut self, short: &str) -> (paused: Result<Option<u128>, StorageError>)
        ensures
            final(self)@.len() == old(self)@.len(),
            matching(old(self)@, short@).len() == 0 ==> paused == Ok::<
                Option<u128>,
                StorageError,
            >(None) && final(self)@ == old(self)@,
            matching(old(self)@, short@).len() > 1 ==> paused == Err::<
                Option<u128>,
                StorageError,
            >(StorageError::Ambiguous { matches: matching(old(self)@, short@).len() as usize })
                && final(self)@ == old(self)@,
            matching(old(self)@, short@).len() == 1 ==> paused == Ok::<
                Option<u128>,
                StorageError,
            >(Some(matching(old(self)@, short@)[0].id)) && exists|at: int|
                {
                    &&& 0 <= at < old(self)@.len()
                    &&& old(self)@[at] == matching(old(self)@, short@)[0]
                    &&& (#[trigger] final(self)@[at]).same_entry_as(&old(self)@[at])
                    &&& final(self)@[at].paused
                    &&& final(self)@[at].completed == old(self)@[at].completed
                    &&& final(self)@[at].next_trigger == old(self)@[at].next_trigger
                    &&& forall|j: int|
                        0 <= j < old(self)@.len() && j != at ==> final(self)@[j] == old(self)@[j]
                },
    {
        let (count, first) = self.resolve_short_id(short);
        if count == 0 {
            Ok(None)
        } else if count == 1 {
            let ghost before = self@;
            let mut entry = self.reminders.remove(first);
            let id = entry.id;
            entry.pause();
            self.reminders.insert(first, entry);
            assert(self@[first as int].same_entry_as(&before[first as int]));
            Ok(Some(id))
        } else {
            Err(StorageError::Ambiguous { matches: count })
        }
    }

    /// Resumes, at the instant `now`, the one reminder that the short
    /// identifier `short` stands for, and gives its identifier.
    ///
    /// Where `short` stands for none or for more than one, nothing changes.
    pub fn resume_by_short_id_at(&mut self, short: &str, now: &Timestamp) -> (resumed: Result<
        Option<u128>,
        StorageError,
    >)
        ensures
            final(self)@.len() == old(self)@.len(),
            matching(old(self)@, short@).len() == 0 ==> resumed == Ok::<
                Option<u128>,
                StorageError,
            >(None) && final(self)@ == old(self)@,
            matching(old(self)@, short@).len() > 1 ==> resumed == Err::<
                Option<u128>,
                StorageError,
            >(StorageError::Ambiguous { matches: matching(old(self)@, short@).len() as usize })
                && final(self)@ == old(self)@,
            matching(old(self)@, short@).len() == 1 ==> resumed == Ok::<
                Option<u128>,
                StorageError,
            >(Some(matching(old(self)@, short@)[0].id)) && exists|at: int|
                {
                    &&& 0 <= at < old(self)@.len()
                    &&& old(self)@[at] == matching(old(self)@, short@)[0]
                    &&& resumed_entry(old(self)@[at], #[trigger] final(self)@[at])
                    &&& (old(self)@[at].schedule is Cron ==> (final(self)@[at].next_trigger
                        matches Some(t) ==> t.is_after(*now)))
                    &&& forall|j: int|
                        0 <= j < old(self)@.len() && j != at ==> final(self)@[j] == old(self)@[j]
                },
            matching(old(self)@, short@).len() == 1 ==> resumed_in(
                old(self)@,
                final(self)@,
                short@,
            ),
    {
        let (count, first) = self.resolve_short_id(short);
        if count == 0 {
            Ok(None)
        } else if count == 1 {
            let ghost before = self@;
            let mut entry = self.reminders.remove(first);
            let id: u128 = entry.id;
            entry.resume_at(now);
            self.reminders.insert(first, entry);
            assert(resumed_entry(before[first as int], self@[first as int]));
            Ok(Some(id))
        } else {
            Err(StorageError::Ambiguous { matches: count })
        }
    }

    /// Resumes, at the present instant, the one reminder that the short
    /// identifier `short` stands for, and gives its identifier.
    ///
    /// Where `short` stands for none or for more than one, nothing changes.
    pub fn resume_by_short_id(&mut self, short: &str) -> (resumed: Result<
        Option<u128>,
        StorageError,
    >)
        ensures
            final(self)@.len() == old(self)@.len(),
            matching(old(self)@, short@).len() == 0 ==> resumed == Ok::<
                Option<u128>,
                StorageError,
            >(None) && final(self)@ == old(self)@,
            matching(old(self)@, short@).len() > 1 ==> resumed == Err::<
                Option<u128>,
                StorageError,
            >(StorageError::Ambiguous { matches: matching(old(self)@, short@).len() as usize })
                && final(self)@ == old(self)@,
            matching(old(self)@, short@).len() == 1 ==> resumed == Ok::<
                Option<u128>,
                StorageError,
            >(Some(matching(old(self)@, short@)[0].id)) && resumed_in(
                old(self)@,
                final(self)@,
                short@,
            ),
    {
        let now = clock_now();
        self.resume_by_short_id_at(short, &now)
    }

    /// Merges `incoming`, the records of an import file, into the store,
    /// and gives the number of records imported and the number skipped.
    ///
    /// A record whose identifier the store does not hold yet is added at
    /// the end. One whose identifier it holds, from before the import or
    /// from an earlier record of it, is skipped, or, where `overwrite` is
    /// set, put at the end in place of every record with that identifier.
    /// Identifiers that were distinct stay distinct.
    pub fn import_from_file(&mut self, incoming: Vec<Reminder>, overwrite: bool) -> (counts: (
        usize,
        usize,
    ))
        ensures
            final(self)@ == imported(old(self)@, incoming@, overwrite).0,
            counts.0 == imported(old(self)@, incoming@, overwrite).1,
            counts.1 == imported(old(self)@, incoming@, overwrite).2,
            counts.0 + counts.1 == incoming@.len(),
            distinct_ids(old(self)@) ==> distinct_ids(final(self)@),
    {
        broadcast use vstd::std_specs::hash::group_hash_axioms;

        let ghost existing = self@;
        let ghost records = incoming@;
        let mut ids: HashSet<u128> = HashSet::new();
        let mut i: usize = 0;
        while i < self.reminders.len()
            invariant
                i <= self.reminders.len(),
                self@ == existing,
                forall|id: u128| ids@.contains(id) <==> has_id(existing.take(i as int), id),
            decreases self.reminders.len() - i,
        {
            proof {
                lemma_has_id_push(existing.take(i as int), existing[i as int]);
                assert(existing.take(i + 1) == existing.take(i as int).push(existing[i as int]));
            }
            ids.insert(self.reminders[i].id);
            i = i + 1;
        }
        assert(existing.take(existing.len() as int) == existing);
        let mut imported_count: usize = 0;
        let mut skipped_count: usize = 0;
        let total: usize = incoming.len();
        for record in it: incoming
            invariant
                it.seq() == records,
                records.len() == total,
                forall|id: u128| ids@.contains(id) <==> has_id(self@, id),
                self@ == imported(existing, records.take(it.index() as int), overwrite).0,
                imported_count == imported(existing, records.take(it.index() as int), overwrite).1,
                skipped_count == imported(existing, records.take(it.index() as int), overwrite).2,
                imported_count + skipped_count == it.index(),
        {
            proof {
                let upto = records.take(it.index() as int);
                let next = records.take(it.index() + 1);
                assert(next.drop_last() == upto);
                assert(next.last() == records[it.index() as int]);
            }
            let ghost before = self@;
            if ids.contains(&record.id) {
                if overwrite {
                    proof {
                        lemma_others_ids(before, record.id);
                        lemma_has_id_push(others(before, record.id), record);
                    }
                    self.delete(record.id);
                    self.reminders.push(record);
                    imported_count = imported_count + 1;
                } else {
                    skipped_count = skipped_count + 1;
                }
            } else {
                proof {
                    lemma_has_id_push(before, record);
                }
                ids.insert(record.id);
                self.reminders.push(record);
                imported_count = imported_count + 1;
            }
        }
        proof {
            assert(records.take(records.len() as int) == records);
            if distinct_ids(existing) {
                lemma_import_keeps_distinct(existing, records, overwrite);
            }
        }
        (imported_count, skipped_count)
    }
}

/// Whether one of `items` carries the tag `tag`.
pub open spec fn carried(items: Seq<Reminder>, tag: Seq<char>) -> bool {
    exists|i: int| 0 <= i < items.len() && holds((#[trigger] items[i]).tags@, tag)
}

/// An import that does not overwrite leaves every record of the store in
/// its place and as it was, and every incoming record is either imported or
/// skipped.
pub proof fn lemma_import_keeps_existing(existing: Seq<Reminder>, incoming: Seq<Reminder>)
    ensures
        imported(existing, incoming, false).0.len() >= existing.len(),
        imported(existing, incoming, false).0.subrange(0, existing.len() as int) == existing,
        imported(existing, incoming, false).1 + imported(existing, incoming, false).2
            == incoming.len(),
    decreases incoming.len(),
{
    if incoming.len() > 0 {
        lemma_import_keeps_existing(existing, incoming.drop_last());
        let before = imported(existing, incoming.drop_last(), false).0;
        let after = imported(existing, incoming, false).0;
        assert(after.subrange(0, existing.len() as int) == before.subrange(
            0,
            existing.len() as int,
        ));
    } else {
        assert(existing.subrange(0, existing.len() as int) == existing);
    }
}

/// An incoming record whose identifier the store holds is skipped by an
/// import that does not overwrite: the count of skipped records grows by
/// one, and the collection stays as it was.
pub proof fn lemma_import_skips_known(
    existing: Seq<Reminder>,
    incoming: Seq<Reminder>,
    record: Reminder,
)
    requires
        has_id(existing, record.id),
    ensures
        imported(existing, incoming.push(record), false).0 == imported(existing, incoming, false).0,
        imported(existing, incoming.push(record), false).1 == imported(existing, incoming, false).1,
        imported(existing, incoming.push(record), false).2 == imported(existing, incoming, false).2
            + 1,
{
    assert(incoming.push(record).drop_last() == incoming);
    lemma_import_keeps_existing(existing, incoming);
    let so_far = imported(existing, incoming, false).0;
    let at = choose|at: int| 0 <= at < existing.len() && #[trigger] existing[at].id == record.id;
    assert(so_far.subrange(0, existing.len() as int)[at] == so_far[at]);
    assert(so_far[at].id == record.id);
}

/// Of two incoming records with one identifier that the store does not
/// hold, an import that does not overwrite adds the first and skips the
/// second.
pub proof fn lemma_import_skips_repeat(existing: Seq<Reminder>, first: Reminder, second: Reminder)
    requires
        !has_id(existing, first.id),
        second.id == first.id,
    ensures
        imported(existing, seq![first, second], false) == (existing.push(first), 1nat, 1nat),
{
    let both = seq![first, second];
    assert(both.drop_last() == seq![first]);
    assert(seq![first].drop_last() == Seq::<Reminder>::empty());
    assert(imported(existing, Seq::<Reminder>::empty(), false) == (existing, 0nat, 0nat));
    assert(imported(existing, seq![first], false) == (existing.push(first), 1nat, 0nat));
    assert(existing.push(first)[existing.len() as int].id == second.id);
}

/// An import into a collection in which no identifier occurs twice leaves
/// one in which none does, whatever the file holds.
pub proof fn lemma_import_keeps_distinct(
    existing: Seq<Reminder>,
    incoming: Seq<Reminder>,
    overwrite: bool,
)
    requires
        distinct_ids(existing),
    ensures
        distinct_ids(imported(existing, incoming, overwrite).0),
    decreases incoming.len(),
{
    if incoming.len() > 0 {
        lemma_import_keeps_distinct(existing, incoming.drop_last(), overwrite);
        let so_far = imported(existing, incoming.drop_last(), overwrite).0;
        let record = incoming.last();
        if has_id(so_far, record.id) {
            if overwrite {
                lemma_others_ids(so_far, record.id);
                lemma_others_distinct(so_far, record.id);
                lemma_push_keeps_distinct(others(so_far, record.id), record);
            }
        } else {
            lemma_push_keeps_distinct(so_far, record);
        }
    }
}

/// A record with an identifier that none of `items` has can be added to
/// them without any identifier occurring twice.
pub proof fn lemma_push_keeps_distinct(items: Seq<Reminder>, record: Reminder)
    requires
        distinct_ids(items),
        !has_id(items, record.id),
    ensures
        distinct_ids(items.push(record)),
{
    let all = items.push(record);
    assert forall|i: int, j: int| 0 <= i < j < all.len() implies (#[trigger] all[i]).id != (
    #[trigger] all[j]).id by {
        if j == items.len() {
            assert(items[i].id != record.id);
        } else {
            assert(all[i] == items[i] && all[j] == items[j]);
        }
    }
}

/// `items` with `record` after them hold an identifier where `items` hold
/// it or it is that of `record`.
pub proof fn lemma_has_id_push(items: Seq<Reminder>, record: Reminder)
    ensures
        forall|id: u128|
            #![trigger has_id(items.push(record), id)]
            has_id(items.push(record), id) <==> (has_id(items, id) || id == record.id),
{
    let all = items.push(record);
    assert forall|id: u128| #![trigger has_id(all, id)]
        has_id(all, id) <==> (has_id(items, id) || id == record.id) by {
        if has_id(items, id) {
            let i = choose|i: int| 0 <= i < items.len() && #[trigger] items[i].id == id;
            assert(all[i].id == id);
        }
        if id == record.id {
            assert(all[items.len() as int].id == id);
        }
        if has_id(all, id) {
            let i = choose|i: int| 0 <= i < all.len() && #[trigger] all[i].id == id;
            if i < items.len() {
                assert(items[i].id == id);
            }
        }
    }
}

/// What is left of `items` without the identifier `gone` holds the other
/// identifiers of `items`, and not `gone`.
pub proof fn lemma_others_ids(items: Seq<Reminder>, gone: u128)
    ensures
        forall|id: u128|
            #![trigger has_id(others(items, gone), id)]
            has_id(others(items, gone), id) <==> (has_id(items, id) && id != gone),
{
    let keep = |r: Reminder| r.id != gone;
    let left = others(items, gone);
    assert forall|id: u128| #![trigger has_id(left, id)]
        has_id(left, id) <==> (has_id(items, id) && id != gone) by {
        if has_id(left, id) {
            let i = choose|i: int| 0 <= i < left.len() && #[trigger] left[i].id == id;
            items.lemma_filter_pred(keep, i);
            assert(left.contains(left[i]));
            items.lemma_filter_contains_rev(keep, left[i]);
            let j = choose|j: int| 0 <= j < items.len() && items[j] == left[i];
            assert(items[j].id == id);
        }
        if has_id(items, id) && id != gone {
            let j = choose|j: int| 0 <= j < items.len() && #[trigger] items[j].id == id;
            assert(keep(items[j]));
            items.lemma_filter_contains(keep, j);
            let i = choose|i: int| 0 <= i < left.len() && left[i] == items[j];
            assert(left[i].id == id);
        }
    }
}

/// What is left of items with distinct identifiers has distinct
/// identifiers.
pub proof fn lemma_others_distinct(items: Seq<Reminder>, gone: u128)
    requires
        distinct_ids(items),
    ensures
        distinct_ids(others(items, gone)),
    decreases items.len(),
{
    let keep = |r: Reminder| r.id != gone;
    if items.len() > 0 {
        let shorter = items.drop_last();
        let last = items.last();
        assert(items == shorter.push(last));
        shorter.lemma_filter_push(last, keep);
        assert(distinct_ids(shorter)) by {
            assert forall|i: int, j: int| 0 <= i < j < shorter.len() implies (
            #[trigger] shorter[i]).id != (#[trigger] shorter[j]).id by {
                assert(shorter[i] == items[i] && shorter[j] == items[j]);
            }
        }
        lemma_others_distinct(shorter, gone);
        if keep(last) {
            lemma_others_ids(shorter, gone);
            assert(!has_id(shorter, last.id)) by {
                if has_id(shorter, last.id) {
                    let i = choose|i: int|
                        0 <= i < shorter.len() && #[trigger] shorter[i].id == last.id;
                    assert(items[i].id == items[items.len() - 1].id);
                }
            }
            lemma_push_keeps_distinct(others(shorter, gone), last);
        }
    } else {
        items.lemma_filter_len(keep);
    }
}

/// Where a reminder with the identifier `id` is among `items`, fewer are
/// left without it; where none is, all are left.
pub proof fn lemma_others_len(items: Seq<Reminder>, id: u128)
    ensures
        has_id(items, id) <==> others(items, id).len() != items.len(),
        others(items, id).len() <= items.len(),
        !has_id(items, id) ==> others(items, id) == items,
    decreases items.len(),
{
    let keep = |r: Reminder| r.id != id;
    if items.len() == 0 {
        items.lemma_filter_len(keep);
        assert(others(items, id) == items);
    } else {
        let shorter = items.drop_last();
        let last = items.last();
        assert(items == shorter.push(last));
        shorter.lemma_filter_push(last, keep);
        lemma_others_len(shorter, id);
        if has_id(shorter, id) {
            let i = choose|i: int| 0 <= i < shorter.len() && #[trigger] shorter[i].id == id;
            assert(items[i].id == id);
        }
        if last.id == id {
            assert(items[items.len() - 1].id == id);
        }
        if has_id(items, id) && last.id != id {
            let i = choose|i: int| 0 <= i < items.len() && #[trigger] items[i].id == id;
            assert(shorter[i].id == id);
        }
    }
}

} // verus!
