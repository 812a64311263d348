//! Labels on a reminder: a list in which no label occurs twice.

use vstd::prelude::*;
use vstd::string::*;

verus! {

/// Whether no label occurs twice in `tags`.
pub open spec fn distinct(tags: Seq<String>) -> bool {
    forall|i: int, j: int| 0 <= i < j < tags.len() ==> tags[i]@ != tags[j]@
}

/// Whether `tags` holds the label `label`. Case counts.
pub open spec fn holds(tags: Seq<String>, label: Seq<char>) -> bool {
    exists|i: int| 0 <= i < tags.len() && #[trigger] tags[i]@ == label
}

/// Finds the label `label` in `tags`.
pub fn position_of(tags: &Vec<String>, label: &str) -> (found: Option<usize>)
    ensures
        match found {
            Some(at) => at < tags.len() && tags@[at as int]@ == label@ && forall|j: int|
                0 <= j < at ==> tags@[j]@ != label@,
            None => !holds(tags@, label@),
        },
{
    let wanted = String::from_str(label);
    let mut i: usize = 0;
    while i < tags.len()
        invariant
            i <= tags.len(),
            wanted@ == label@,
            forall|j: int| 0 <= j < i ==> tags@[j]@ != label@,
        decreases tags.len() - i,
    {
        if tags[i] == wanted {
            return Some(i);
        }
        i = i + 1;
    }
    None
}

/// Tells whether `tags` holds the label `label`.
pub fn has_tag(tags: &Vec<String>, label: &str) -> (held: bool)
    ensures
        held == holds(tags@, label@),
{
    position_of(tags, label).is_some()
}

/// Adds the label `label` to `tags`, at the end, unless they hold it.
pub fn add_tag(tags: &mut Vec<String>, label: String)
    ensures
        final(tags)@ == (if holds(old(tags)@, label@) {
            old(tags)@
        } else {
            old(tags)@.push(label)
        }),
        distinct(old(tags)@) ==> distinct(final(tags)@),
        forall|other: Seq<char>|
            #![trigger holds(final(tags)@, other)]
            holds(final(tags)@, other) <==> (holds(old(tags)@, other) || other == label@),
{
    if !has_tag(tags, label.as_str()) {
        let ghost before = tags@;
        tags.push(label);
        proof {
            assert forall|other: Seq<char>|
                #![trigger holds(tags@, other)]
                holds(tags@, other) <==> (holds(before, other) || other == label@) by {
                if holds(before, other) {
                    let i = choose|i: int| 0 <= i < before.len() && #[trigger] before[i]@ == other;
                    assert(tags@[i]@ == other);
                }
                if other == label@ {
                    assert(tags@[before.len() as int]@ == other);
                }
                if holds(tags@, other) {
                    let i = choose|i: int| 0 <= i < tags@.len() && #[trigger] tags@[i]@ == other;
                    if i < before.len() {
                        assert(before[i]@ == other);
                    }
                }
            }
            if distinct(before) {
                assert forall|i: int, j: int| 0 <= i < j < tags@.len() implies tags@[i]@
                    != tags@[j]@ by {
                    if j == before.len() {
                        assert(before[i]@ != label@);
                    }
                }
            }
        }
    }
}

/// The labels of `labels`, each once.
pub fn collect_tags(labels: Vec<String>) -> (tags: Vec<String>)
    ensures
        distinct(tags@),
        forall|other: Seq<char>|
            #![trigger holds(tags@, other)]
            holds(tags@, other) <==> holds(labels@, other),
{
    let mut tags: Vec<String> = Vec::new();
    add_tags_to(&mut tags, &labels);
    tags
}

/// Takes the label `label` out of `tags`, wherever it occurs.
pub fn remove_tag(tags: &mut Vec<String>, label: &str)
    ensures
        final(tags)@ == old(tags)@.filter(|t: String| t@ != label@),
        distinct(old(tags)@) ==> distinct(final(tags)@),
        forall|other: Seq<char>|
            #![trigger holds(final(tags)@, other)]
            holds(final(tags)@, other) <==> (holds(old(tags)@, other) && other != label@),
{
    let ghost before = tags@;
    let ghost keep = |t: String| t@ != label@;
    let wanted = String::from_str(label);
    let mut kept: Vec<String> = Vec::new();
    let mut i: usize = 0;
    while i < tags.len()
        invariant
            i <= tags.len(),
            tags@ == before,
            wanted@ == label@,
            keep == (|t: String| t@ != label@),
            kept@ == before.subrange(0, i as int).filter(keep),
        decreases tags.len() - i,
    {
        proof {
            let upto = before.subrange(0, i as int);
            assert(before.subrange(0, i + 1) == upto.push(before[i as int]));
            upto.lemma_filter_push(before[i as int], keep);
        }
        if !(tags[i] == wanted) {
            kept.push(tags[i].clone());
        }
        i = i + 1;
    }
    assert(before.subrange(0, before.len() as int) == before);
    *tags = kept;
    proof {
        lemma_filter_holds(before, keep, label);
        if distinct(before) {
            lemma_filter_keeps_distinct(before, keep);
        }
    }
}

/// Adds the labels of `labels` to `tags`, each unless `tags` hold it.
pub fn add_tags_to(tags: &mut Vec<String>, labels: &Vec<String>)
    ensures
        distinct(old(tags)@) ==> distinct(final(tags)@),
        forall|other: Seq<char>|
            #![trigger holds(final(tags)@, other)]
            holds(final(tags)@, other) <==> (holds(old(tags)@, other) || holds(labels@, other)),
{
    let ghost before = tags@;
    let mut i: usize = 0;
    assert forall|other: Seq<char>| !holds(labels@.take(0), other) by {
        assert(labels@.take(0).len() == 0);
    }
    while i < labels.len()
        invariant
            i <= labels.len(),
            distinct(before) ==> distinct(tags@),
            forall|other: Seq<char>|
                #![trigger holds(tags@, other)]
                holds(tags@, other) <==> (holds(before, other) || holds(
                    labels@.take(i as int),
                    other,
                )),
        decreases labels.len() - i,
    {
        let ghost so_far = tags@;
        add_tag(tags, labels[i].clone());
        proof {
            let part = labels@.take(i as int);
            let more = labels@.take(i + 1);
            assert forall|other: Seq<char>|
                #![trigger holds(tags@, other)]
                holds(tags@, other) <==> (holds(before, other) || holds(more, other)) by {
                assert(holds(so_far, other) <==> (holds(before, other) || holds(part, other)));
                assert(holds(tags@, other) <==> (holds(so_far, other) || other
                    == labels@[i as int]@));
                lemma_holds_one_more(labels@, i as int, other);
            }
        }
        i = i + 1;
    }
    assert(labels@.take(labels@.len() as int) == labels@);
}

/// Takes the labels of `labels` out of `tags`.
pub fn remove_tags_from(tags: &mut Vec<String>, labels: &Vec<String>)
    ensures
        distinct(old(tags)@) ==> distinct(final(tags)@),
        forall|other: Seq<char>|
            #![trigger holds(final(tags)@, other)]
            holds(final(tags)@, other) <==> (holds(old(tags)@, other) && !holds(labels@, other)),
{
    let ghost before = tags@;
    let mut i: usize = 0;
    assert forall|other: Seq<char>| !holds(labels@.take(0), other) by {
        assert(labels@.take(0).len() == 0);
    }
    while i < labels.len()
        invariant
            i <= labels.len(),
            distinct(before) ==> distinct(tags@),
            forall|other: Seq<char>|
                #![trigger holds(tags@, other)]
                holds(tags@, other) <==> (holds(before, other) && !holds(
                    labels@.take(i as int),
                    other,
                )),
        decreases labels.len() - i,
    {
        let ghost so_far = tags@;
        remove_tag(tags, labels[i].as_str());
        proof {
            let part = labels@.take(i as int);
            let more = labels@.take(i + 1);
            assert forall|other: Seq<char>|
                #![trigger holds(tags@, other)]
                holds(tags@, other) <==> (holds(before, other) && !holds(more, other)) by {
                assert(holds(so_far, other) <==> (holds(before, other) && !holds(part, other)));
                assert(holds(tags@, other) <==> (holds(so_far, other) && other
                    != labels@[i as int]@));
                lemma_holds_one_more(labels@, i as int, other);
            }
        }
        i = i + 1;
    }
    assert(labels@.take(labels@.len() as int) == labels@);
}

/// The first `i + 1` of `labels` hold a label where the first `i` hold it
/// or the one after them is it.
proof fn lemma_holds_one_more(labels: Seq<String>, i: int, other: Seq<char>)
    requires
        0 <= i < labels.len(),
    ensures
        holds(labels.take(i + 1), other) <==> (holds(labels.take(i), other) || labels[i]@ == other),
{
    let part = labels.take(i);
    let more = labels.take(i + 1);
    if holds(more, other) {
        let j = choose|j: int| 0 <= j < more.len() && #[trigger] more[j]@ == other;
        if j < i {
            assert(part[j]@ == other);
        }
    }
    if holds(part, other) {
        let j = choose|j: int| 0 <= j < part.len() && #[trigger] part[j]@ == other;
        assert(more[j]@ == other);
    }
    if labels[i]@ == other {
        assert(more[i]@ == other);
    }
}

/// What is left of `tags` without the label `label` holds the other labels
/// of `tags`, and nothing else.
proof fn lemma_filter_holds(tags: Seq<String>, keep: spec_fn(String) -> bool, label: &str)
    requires
        keep == (|t: String| t@ != label@),
    ensures
        forall|other: Seq<char>|
            #![trigger holds(tags.filter(keep), other)]
            holds(tags.filter(keep), other) <==> (holds(tags, other) && other != label@),
{
    let after = tags.filter(keep);
    assert forall|other: Seq<char>|
        #![trigger holds(after, other)]
        holds(after, other) <==> (holds(tags, other) && other != label@) by {
        if holds(after, other) {
            let i = choose|i: int| 0 <= i < after.len() && #[trigger] after[i]@ == other;
            tags.lemma_filter_pred(keep, i);
            assert(after.contains(after[i]));
            tags.lemma_filter_contains_rev(keep, after[i]);
            let j = choose|j: int| 0 <= j < tags.len() && tags[j] == after[i];
            assert(tags[j]@ == other);
        }
        if holds(tags, other) && other != label@ {
            let j = choose|j: int| 0 <= j < tags.len() && #[trigger] tags[j]@ == other;
            assert(keep(tags[j]));
            tags.lemma_filter_contains(keep, j);
            let i = choose|i: int| 0 <= i < after.len() && after[i] == tags[j];
            assert(after[i]@ == other);
        }
    }
}

/// What is left of a list without repeats has no repeats.
proof fn lemma_filter_keeps_distinct(tags: Seq<String>, keep: spec_fn(String) -> bool)
    requires
        distinct(tags),
    ensures
        distinct(tags.filter(keep)),
    decreases tags.len(),
{
    if tags.len() > 0 {
        let shorter = tags.drop_last();
        let last = tags.last();
        assert(tags == shorter.push(last));
        shorter.lemma_filter_push(last, keep);
        lemma_filter_keeps_distinct(shorter, keep);
        let kept = shorter.filter(keep);
        if keep(last) {
            let all = kept.push(last);
            assert forall|i: int, j: int| 0 <= i < j < all.len() implies all[i]@ != all[j]@ by {
                if j == kept.len() {
                    assert(kept.contains(kept[i]));
                    shorter.lemma_filter_contains_rev(keep, kept[i]);
                    let k = choose|k: int| 0 <= k < shorter.len() && shorter[k] == kept[i];
                    assert(tags[k] == kept[i]);
                    assert(tags[k]@ != tags[tags.len() - 1]@);
                }
            }
        }
    } else {
        assert(tags.filter(keep).len() == 0) by {
            tags.lemma_filter_len(keep);
        }
    }
}

} // verus!
