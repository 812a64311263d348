//! What a list of reminders shows: which reminders, in which order, and
//! how a long title is cut.

use vstd::prelude::*;
use vstd::string::*;
use crate::calendar::Timestamp;
use crate::ident::{id_text, id_to_text};
use crate::reminder::Reminder;
use crate::storage::{pending, tagged, without_completed, Storage};
use crate::tags::{has_tag, holds};

verus! {

/// The text `s`, cut where it has more than `max_len` characters: what is
/// shown of it then are its first `max_len - 3` characters and three dots.
pub open spec fn cut(s: Seq<char>, max_len: int) -> Seq<char> {
    if s.len() <= max_len {
        s
    } else {
        s.subrange(0, max_len - 3) + "..."@
    }
}

/// Cuts `s` to at most `max_len` characters, the dots that mark the cut
/// included.
pub fn truncate(s: &str, max_len: usize) -> (shown: String)
    requires
        max_len >= 3 || s@.len() <= max_len,
    ensures
        shown@ == cut(s@, max_len as int),
{
    let n: usize = s.unicode_len();
    if n <= max_len {
        String::from_str(s)
    } else {
        let mut shown = String::from_str(s.substring_char(0, max_len - 3));
        shown.append("...");
        shown
    }
}

/// The short form of the identifier `id`: the first eight characters of
/// its text.
pub fn short_id(id: u128) -> (short: String)
    ensures
        short@ == id_text(id).subrange(0, 8),
{
    let text = id_to_text(id);
    String::from_str(text.as_str().substring_char(0, 8))
}

/// Whether a reminder due at `a` is listed no later than one due at `b`:
/// the earlier instant first, and a reminder without a next trigger after
/// all those that have one.
pub open spec fn listed_first(a: Option<Timestamp>, b: Option<Timestamp>) -> bool {
    match (a, b) {
        (Some(x), Some(y)) => y.is_at_or_after(x),
        (Some(_), None) => true,
        (None, Some(_)) => false,
        (None, None) => true,
    }
}

/// Whether `items` are in the order of a list: each listed no later than
/// every one after it.
pub open spec fn in_list_order(items: Seq<Reminder>) -> bool {
    forall|i: int, j: int|
        0 <= i < j < items.len() ==> listed_first(
            (#[trigger] items[i]).next_trigger,
            (#[trigger] items[j]).next_trigger,
        )
}

/// `sorted`, which is in the order of a list, with `entry` put in after
/// the last item that is listed no later than it.
pub open spec fn put_in(sorted: Seq<Reminder>, entry: Reminder) -> Seq<Reminder>
    decreases sorted.len(),
{
    if sorted.len() == 0 {
        seq![entry]
    } else if listed_first(sorted.last().next_trigger, entry.next_trigger) {
        sorted.push(entry)
    } else {
        put_in(sorted.drop_last(), entry).push(sorted.last())
    }
}

/// `items` in the order of a list. Items that are due at the same instant,
/// and items without a next trigger, keep the order they had.
pub open spec fn in_order(items: Seq<Reminder>) -> Seq<Reminder>
    decreases items.len(),
{
    if items.len() == 0 {
        items
    } else {
        put_in(in_order(items.drop_last()), items.last())
    }
}

/// What a list shows of `items`: those that carry `tag`, where one is
/// given; of these the ones that are not completed, unless all are asked
/// for; in the order of a list.
pub open spec fn listed(items: Seq<Reminder>, tag: Option<Seq<char>>, show_all: bool) -> Seq<
    Reminder,
> {
    let chosen = match tag {
        Some(tag) => tagged(items, tag),
        None => items,
    };
    in_order(
        if show_all {
            chosen
        } else {
            pending(chosen)
        },
    )
}

fn is_listed_first(a: &Option<Timestamp>, b: &Option<Timestamp>) -> (first: bool)
    ensures
        first == listed_first(*a, *b),
{
    match (a, b) {
        (Some(x), Some(y)) => y.reached(x),
        (Some(_), None) => true,
        (None, Some(_)) => false,
        (None, None) => true,
    }
}

/// Puts `items` in the order of a list: by next trigger, the earliest
/// first, and those without one last.
pub fn sort_for_listing(items: Vec<Reminder>) -> (sorted: Vec<Reminder>)
    ensures
        sorted@ == in_order(items@),
        in_list_order(sorted@),
        sorted@.to_multiset() == items@.to_multiset(),
{
    let ghost before = items@;
    let mut sorted: Vec<Reminder> = Vec::new();
    for entry in it: items
        invariant
            it.seq() == before,
            sorted@ == in_order(before.take(it.index() as int)),
    {
        proof {
            let next = before.take(it.index() + 1);
            assert(next.drop_last() == before.take(it.index() as int));
            assert(next.last() == entry);
        }
        let ghost so_far = sorted@;
        let mut at: usize = sorted.len();
        assert(so_far.subrange(0, at as int) == so_far);
        assert(so_far.subrange(at as int, so_far.len() as int) == Seq::<Reminder>::empty());
        while at > 0 && !is_listed_first(&sorted[at - 1].next_trigger, &entry.next_trigger)
            invariant
                at <= sorted.len(),
                sorted@ == so_far,
                put_in(so_far, entry) == put_in(so_far.subrange(0, at as int), entry)
                    + so_far.subrange(at as int, so_far.len() as int),
            decreases at,
        {
            proof {
                let head = so_far.subrange(0, at as int);
                assert(head.last() == so_far[at - 1]);
                assert(head.drop_last() == so_far.subrange(0, at - 1));
                assert(put_in(head, entry) == put_in(head.drop_last(), entry).push(head.last()));
                assert(seq![so_far[at - 1]] + so_far.subrange(at as int, so_far.len() as int)
                    == so_far.subrange(at - 1, so_far.len() as int));
            }
            at = at - 1;
        }
        proof {
            let head = so_far.subrange(0, at as int);
            assert(put_in(head, entry) == head.push(entry));
            assert(put_in(so_far, entry) == so_far.insert(at as int, entry));
        }
        sorted.insert(at, entry);
    }
    proof {
        assert(before.take(before.len() as int) == before);
        lemma_in_order(before);
    }
    sorted
}

fn with_tag(all: Vec<Reminder>, tag: &str) -> (kept: Vec<Reminder>)
    ensures
        kept@ == tagged(all@, tag@),
{
    let ghost keep = |r: Reminder| holds(r.tags@, tag@);
    let ghost before = all@;
    let mut kept: Vec<Reminder> = Vec::new();
    for r in it: all
        invariant
            keep == (|r: Reminder| holds(r.tags@, tag@)),
            it.seq() == before,
            kept@ == before.take(it.index() as int).filter(keep),
    {
        proof {
            let upto = before.take(it.index() as int);
            assert(before.take(it.index() + 1) == upto.push(before[it.index() as int]));
            upto.lemma_filter_push(before[it.index() as int], keep);
        }
        if has_tag(&r.tags, tag) {
            kept.push(r);
        }
    }
    assert(before.take(before.len() as int) == before);
    kept
}

/// The reminders of `store` that a list shows, in the order in which it
/// shows them: those that carry `tag`, where one is given; of these the
/// ones that are not completed, unless `show_all` is set; the earliest next
/// trigger first, and those without one last.
pub fn list_reminders(store: Storage, tag: Option<&str>, show_all: bool) -> (shown: Vec<Reminder>)
    ensures
        shown@ == listed(
            store@,
            match tag {
                Some(tag) => Some(tag@),
                None => None,
            },
            show_all,
        ),
        in_list_order(shown@),
{
    let chosen = match tag {
        Some(tag) => with_tag(store.reminders, tag),
        None => store.reminders,
    };
    let visible = if show_all {
        chosen
    } else {
        without_completed(chosen)
    };
    sort_for_listing(visible)
}

/// Putting an entry into items that are in the order of a list leaves them
/// in that order, and adds the entry to them and nothing else.
pub proof fn lemma_put_in(sorted: Seq<Reminder>, entry: Reminder)
    requires
        in_list_order(sorted),
    ensures
        in_list_order(put_in(sorted, entry)),
        put_in(sorted, entry).to_multiset() == sorted.to_multiset().insert(entry),
        put_in(sorted, entry).len() == sorted.len() + 1,
        forall|i: int|
            0 <= i < put_in(sorted, entry).len() ==> (#[trigger] put_in(sorted, entry)[i]) == entry
                || sorted.contains(put_in(sorted, entry)[i]),
    decreases sorted.len(),
{
    broadcast use vstd::seq_lib::group_to_multiset_ensures;

    let result = put_in(sorted, entry);
    if sorted.len() == 0 {
        assert(sorted == Seq::<Reminder>::empty());
        assert(result == Seq::<Reminder>::empty().push(entry));
    } else if listed_first(sorted.last().next_trigger, entry.next_trigger) {
        assert forall|i: int, j: int| 0 <= i < j < result.len() implies listed_first(
            (#[trigger] result[i]).next_trigger,
            (#[trigger] result[j]).next_trigger,
        ) by {
            if j == sorted.len() {
                if i < sorted.len() - 1 {
                    assert(listed_first(sorted[i].next_trigger, sorted.last().next_trigger));
                }
            }
        }
        assert forall|i: int| 0 <= i < result.len() implies (#[trigger] result[i]) == entry
            || sorted.contains(result[i]) by {
            if i < sorted.len() {
                assert(sorted[i] == result[i]);
            }
        }
    } else {
        let shorter = sorted.drop_last();
        let last = sorted.last();
        assert(in_list_order(shorter)) by {
            assert forall|i: int, j: int| 0 <= i < j < shorter.len() implies listed_first(
                (#[trigger] shorter[i]).next_trigger,
                (#[trigger] shorter[j]).next_trigger,
            ) by {
                assert(shorter[i] == sorted[i] && shorter[j] == sorted[j]);
            }
        }
        lemma_put_in(shorter, entry);
        let inner = put_in(shorter, entry);
        assert(sorted == shorter.push(last));
        assert forall|i: int, j: int| 0 <= i < j < result.len() implies listed_first(
            (#[trigger] result[i]).next_trigger,
            (#[trigger] result[j]).next_trigger,
        ) by {
            if j == inner.len() {
                assert(result[i] == inner[i]);
                if inner[i] == entry {
                } else {
                    assert(shorter.contains(inner[i]));
                    let k = choose|k: int| 0 <= k < shorter.len() && shorter[k] == inner[i];
                    assert(sorted[k] == inner[i]);
                    assert(listed_first(
                        sorted[k].next_trigger,
                        sorted[sorted.len() - 1].next_trigger,
                    ));
                }
            } else {
                assert(result[i] == inner[i] && result[j] == inner[j]);
            }
        }
        assert forall|i: int| 0 <= i < result.len() implies (#[trigger] result[i]) == entry
            || sorted.contains(result[i]) by {
            if i < inner.len() {
                assert(result[i] == inner[i]);
                if inner[i] != entry {
                    assert(shorter.contains(inner[i]));
                    let k = choose|k: int| 0 <= k < shorter.len() && shorter[k] == inner[i];
                    assert(sorted[k] == inner[i]);
                }
            } else {
                assert(result[i] == sorted[sorted.len() - 1]);
            }
        }
        assert(result.to_multiset() == sorted.to_multiset().insert(entry)) by {
            assert(result.to_multiset() == inner.to_multiset().insert(last));
            assert(sorted.to_multiset() == shorter.to_multiset().insert(last));
            let rest = shorter.to_multiset();
            assert(rest.insert(entry).insert(last) =~= rest.insert(last).insert(entry));
        }
    }
}

/// Items put in the order of a list are in that order, and are the same
/// items, each as often as before.
pub proof fn lemma_in_order(items: Seq<Reminder>)
    ensures
        in_list_order(in_order(items)),
        in_order(items).to_multiset() == items.to_multiset(),
        in_order(items).len() == items.len(),
    decreases items.len(),
{
    broadcast use vstd::seq_lib::group_to_multiset_ensures;

    if items.len() > 0 {
        lemma_in_order(items.drop_last());
        lemma_put_in(in_order(items.drop_last()), items.last());
        assert(items == items.drop_last().push(items.last()));
    }
}

} // verus!
