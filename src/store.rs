//! The task collection and its operations. A collection is a sequence of
//! tasks in insertion order. Ids are handed out as one more than the largest
//! id present, so they are never tracked apart from the tasks themselves.
//! A collection read from storage is taken as it is: with duplicate ids,
//! completing marks the first task with the id and removing drops them all.
use vstd::prelude::*;

use crate::task::Task;

verus! {

/// The largest id in `s`, or 0 for an empty collection.
pub open spec fn max_id(s: Seq<Task>) -> u64
    decreases s.len(),
{
    if s.len() == 0 {
        0
    } else {
        let m = max_id(s.drop_last());
        if s.last().id > m {
            s.last().id
        } else {
            m
        }
    }
}

/// The id that the next added task receives.
pub open spec fn fresh_id(s: Seq<Task>) -> int {
    max_id(s) + 1
}

/// No two tasks of `s` share an id.
pub open spec fn ids_unique(s: Seq<Task>) -> bool {
    forall|i: int, j: int| 0 <= i < j < s.len() ==> s[i].id != s[j].id
}

/// Every id of `s` is at most `max_id(s)`.
pub proof fn lemma_max_id_bounds(s: Seq<Task>)
    ensures
        forall|i: int| 0 <= i < s.len() ==> #[trigger] s[i].id <= max_id(s),
        s.len() > 0 ==> exists|i: int| 0 <= i < s.len() && s[i].id == max_id(s),
    decreases s.len(),
{
    if s.len() > 0 {
        let p = s.drop_last();
        lemma_max_id_bounds(p);
        assert forall|i: int| 0 <= i < s.len() implies #[trigger] s[i].id <= max_id(s) by {
            if i < s.len() - 1 {
                assert(s[i] == p[i]);
            }
        }
        if s.last().id <= max_id(p) && p.len() > 0 {
            let k = choose|k: int| 0 <= k < p.len() && p[k].id == max_id(p);
            assert(s[k] == p[k]);
        }
    }
}

/// `true` when a task can still be added: the largest id leaves room for one more.
pub fn id_space_left(tasks: &[Task]) -> (r: bool)
    ensures
        r == (max_id(tasks@) < u64::MAX),
{
    let m = largest_id(tasks);
    m < u64::MAX
}

/// The largest id among `tasks`, 0 when there are none.
fn largest_id(tasks: &[Task]) -> (r: u64)
    ensures
        r == max_id(tasks@),
{
    let mut m: u64 = 0;
    let mut i: usize = 0;
    while i < tasks.len()
        invariant
            i <= tasks@.len(),
            m == max_id(tasks@.subrange(0, i as int)),
        decreases tasks@.len() - i,
    {
        assert(tasks@.subrange(0, i + 1).drop_last() == tasks@.subrange(0, i as int));
        if tasks[i].id > m {
            m = tasks[i].id;
        }
        i += 1;
    }
    assert(tasks@.subrange(0, i as int) == tasks@);
    m
}

/// The id for a new task: one more than the largest id present, or 1 when
/// the collection is empty. Removed ids are not remembered, so removing the
/// task with the largest id lets that id be handed out again.
pub fn next_id(tasks: &[Task]) -> (r: u64)
    requires
        max_id(tasks@) < u64::MAX,
    ensures
        r == fresh_id(tasks@),
{
    largest_id(tasks) + 1
}

/// The collection after adding a task with `text`, created at `created_at`.
pub open spec fn added(s: Seq<Task>, text: String, created_at: u64) -> Seq<Task> {
    s.push(Task { id: fresh_id(s) as u64, text, done: false, created_at })
}

/// Whether `t` is shown by a listing with the given flag.
pub open spec fn shown(t: Task, include_done: bool) -> bool {
    include_done || !t.done
}

/// What a listing shows, in collection order.
pub open spec fn listed(s: Seq<Task>, include_done: bool) -> Seq<Task> {
    s.filter(|t: Task| shown(t, include_done))
}

/// Some task of `s` has id `id`.
pub open spec fn has_id(s: Seq<Task>, id: u64) -> bool {
    exists|i: int| 0 <= i < s.len() && s[i].id == id
}

/// `k` is the position of the first task of `s` with id `id`.
pub open spec fn is_first_with_id(s: Seq<Task>, id: u64, k: int) -> bool {
    &&& 0 <= k < s.len()
    &&& s[k].id == id
    &&& forall|j: int| 0 <= j < k ==> s[j].id != id
}

/// The position of the first task with id `id` (meaningful when there is one).
pub open spec fn first_with_id(s: Seq<Task>, id: u64) -> int {
    choose|k: int| is_first_with_id(s, id, k)
}

/// `t` marked done, its other fields kept.
pub open spec fn marked_done(t: Task) -> Task {
    Task { id: t.id, text: t.text, done: true, created_at: t.created_at }
}

/// The collection after completing `id`: the first task with that id is
/// marked done; without such a task nothing changes.
pub open spec fn completed(s: Seq<Task>, id: u64) -> Seq<Task> {
    if has_id(s, id) {
        s.update(first_with_id(s, id), marked_done(s[first_with_id(s, id)]))
    } else {
        s
    }
}

/// The collection after removing every task with id `id`.
pub open spec fn removed(s: Seq<Task>, id: u64) -> Seq<Task> {
    s.filter(|t: Task| t.id != id)
}

/// The collection after clearing every completed task.
pub open spec fn cleared(s: Seq<Task>) -> Seq<Task> {
    s.filter(|t: Task| !t.done)
}

/// The first position with a given id is unique.
pub proof fn lemma_first_with_id_unique(s: Seq<Task>, id: u64, k: int)
    requires
        is_first_with_id(s, id, k),
    ensures
        has_id(s, id),
        first_with_id(s, id) == k,
{
    let c = first_with_id(s, id);
    assert(is_first_with_id(s, id, c));
    if c < k {
        assert(s[c].id != id);
    } else if k < c {
        assert(s[k].id != id);
    }
}

/// A task of a filtered collection has its id in the whole collection.
pub proof fn lemma_filter_has_id(s: Seq<Task>, pred: spec_fn(Task) -> bool, id: u64)
    ensures
        has_id(s.filter(pred), id) ==> has_id(s, id),
    decreases s.len(),
{
    reveal(Seq::filter);
    if s.len() > 0 && has_id(s.filter(pred), id) {
        let p = s.drop_last();
        let pf = p.filter(pred);
        lemma_filter_has_id(p, pred, id);
        let i = choose|i: int| 0 <= i < s.filter(pred).len() && s.filter(pred)[i].id == id;
        if i < pf.len() {
            assert(s.filter(pred)[i] == pf[i]);
            let j = choose|j: int| 0 <= j < p.len() && p[j].id == id;
            assert(s[j] == p[j]);
        } else {
            assert(s[s.len() - 1].id == id);
        }
    }
}

/// Filtering keeps ids unique.
pub proof fn lemma_filter_keeps_unique(s: Seq<Task>, pred: spec_fn(Task) -> bool)
    requires
        ids_unique(s),
    ensures
        ids_unique(s.filter(pred)),
    decreases s.len(),
{
    reveal(Seq::filter);
    if s.len() > 0 {
        let p = s.drop_last();
        let pf = p.filter(pred);
        assert(ids_unique(p)) by {
            assert forall|i: int, j: int| 0 <= i < j < p.len() implies p[i].id != p[j].id by {
                assert(p[i] == s[i] && p[j] == s[j]);
            }
        }
        lemma_filter_keeps_unique(p, pred);
        if pred(s.last()) {
            let f = pf.push(s.last());
            assert forall|i: int, j: int| 0 <= i < j < f.len() implies f[i].id != f[j].id by {
                if j == f.len() - 1 && f[i].id == f[j].id {
                    assert(f[i] == pf[i]);
                    assert(has_id(pf, s.last().id));
                    lemma_filter_has_id(p, pred, s.last().id);
                    let k = choose|k: int| 0 <= k < p.len() && p[k].id == s.last().id;
                    assert(s[k] == p[k]);
                } else if j < f.len() - 1 {
                    assert(f[i] == pf[i] && f[j] == pf[j]);
                }
            }
        }
    }
}

/// A collection with an id has a first position holding it.
pub proof fn lemma_first_with_id_exists(s: Seq<Task>, id: u64)
    requires
        has_id(s, id),
    ensures
        is_first_with_id(s, id, first_with_id(s, id)),
    decreases s.len(),
{
    let p = s.drop_last();
    if has_id(p, id) {
        lemma_first_with_id_exists(p, id);
        let k = first_with_id(p, id);
        assert forall|j: int| 0 <= j < k implies s[j].id != id by {
            assert(s[j] == p[j]);
        }
        assert(s[k] == p[k]);
        lemma_first_with_id_unique(s, id, k);
    } else {
        let k = s.len() - 1;
        assert forall|j: int| 0 <= j < k implies s[j].id != id by {
            assert(s[j] == p[j]);
        }
        lemma_first_with_id_unique(s, id, k);
    }
}

/// Appends a new task with the next id, not done, and returns that id.
pub fn add(tasks: &mut Vec<Task>, text: String, created_at: u64) -> (r: u64)
    requires
        max_id(old(tasks)@) < u64::MAX,
    ensures
        r == fresh_id(old(tasks)@),
        final(tasks)@ == added(old(tasks)@, text, created_at),
        ids_unique(old(tasks)@) ==> ids_unique(final(tasks)@),
{
    proof {
        lemma_max_id_bounds(old(tasks)@);
    }
    let id = next_id(tasks.as_slice());
    tasks.push(Task::new(id, text, created_at));
    id
}

/// The tasks that a listing shows, in collection order: all of them when
/// `include_done` holds, else those not done.
pub fn list(tasks: &[Task], include_done: bool) -> (r: Vec<Task>)
    ensures
        r@ == listed(tasks@, include_done),
{
    let mut out: Vec<Task> = Vec::new();
    let mut i: usize = 0;
    while i < tasks.len()
        invariant
            i <= tasks@.len(),
            out@ == listed(tasks@.subrange(0, i as int), include_done),
        decreases tasks@.len() - i,
    {
        let ghost pre = tasks@.subrange(0, i as int);
        assert(tasks@.subrange(0, i + 1).drop_last() == pre);
        reveal(Seq::filter);
        if include_done || !tasks[i].done {
            out.push(tasks[i].copy());
        }
        i += 1;
    }
    assert(tasks@.subrange(0, i as int) == tasks@);
    out
}

/// Marks the first task with id `id` done. Returns whether there was one;
/// without one the collection is left as it was.
pub fn complete(tasks: &mut Vec<Task>, id: u64) -> (r: bool)
    ensures
        r == has_id(old(tasks)@, id),
        final(tasks)@ == completed(old(tasks)@, id),
        ids_unique(old(tasks)@) ==> ids_unique(final(tasks)@),
{
    let mut i: usize = 0;
    while i < tasks.len()
        invariant
            i <= tasks@.len(),
            tasks@ == old(tasks)@,
            forall|j: int| 0 <= j < i ==> tasks@[j].id != id,
        decreases tasks@.len() - i,
    {
        if tasks[i].id == id {
            proof {
                lemma_first_with_id_unique(tasks@, id, i as int);
                let n = tasks@.update(i as int, marked_done(tasks@[i as int]));
                assert forall|a: int, b: int| ids_unique(tasks@) && 0 <= a < b < n.len()
                    implies n[a].id != n[b].id by {
                    assert(n[a].id == tasks@[a].id && n[b].id == tasks@[b].id);
                }
            }
            let mut t = tasks[i].copy();
            t.done = true;
            tasks.set(i, t);
            return true;
        }
        i += 1;
    }
    false
}

/// Removes every task with id `id`. Returns whether the collection shrank.
pub fn remove(tasks: &mut Vec<Task>, id: u64) -> (r: bool)
    ensures
        r == has_id(old(tasks)@, id),
        final(tasks)@ == removed(old(tasks)@, id),
        ids_unique(old(tasks)@) ==> ids_unique(final(tasks)@),
{
    proof {
        if ids_unique(old(tasks)@) {
            lemma_filter_keeps_unique(old(tasks)@, |t: Task| t.id != id);
        }
    }
    let before = tasks.len();
    let mut kept: Vec<Task> = Vec::new();
    let mut i: usize = 0;
    let ghost mut found = false;
    while i < tasks.len()
        invariant
            i <= tasks@.len(),
            before == tasks@.len(),
            tasks@ == old(tasks)@,
            kept@ == removed(tasks@.subrange(0, i as int), id),
            found == (exists|j: int| 0 <= j < i && tasks@[j].id == id),
            found ==> kept@.len() < i,
            !found ==> kept@.len() == i,
        decreases tasks@.len() - i,
    {
        assert(tasks@.subrange(0, i + 1).drop_last() == tasks@.subrange(0, i as int));
        reveal(Seq::filter);
        if tasks[i].id != id {
            kept.push(tasks[i].copy());
        } else {
            proof {
                found = true;
            }
        }
        i += 1;
    }
    assert(tasks@.subrange(0, i as int) == tasks@);
    *tasks = kept;
    tasks.len() < before
}

/// Removes every completed task and returns how many were removed.
pub fn clear_completed(tasks: &mut Vec<Task>) -> (r: usize)
    ensures
        final(tasks)@ == cleared(old(tasks)@),
        r == old(tasks)@.len() - final(tasks)@.len(),
        ids_unique(old(tasks)@) ==> ids_unique(final(tasks)@),
{
    proof {
        if ids_unique(old(tasks)@) {
            lemma_filter_keeps_unique(old(tasks)@, |t: Task| !t.done);
        }
    }
    let mut kept: Vec<Task> = Vec::new();
    let mut i: usize = 0;
    while i < tasks.len()
        invariant
            i <= tasks@.len(),
            tasks@ == old(tasks)@,
            kept@ == cleared(tasks@.subrange(0, i as int)),
            kept@.len() <= i,
        decreases tasks@.len() - i,
    {
        assert(tasks@.subrange(0, i + 1).drop_last() == tasks@.subrange(0, i as int));
        reveal(Seq::filter);
        if !tasks[i].done {
            kept.push(tasks[i].copy());
        }
        i += 1;
    }
    assert(tasks@.subrange(0, i as int) == tasks@);
    let n = tasks.len() - kept.len();
    *tasks = kept;
    n
}

/// The collection after adding each `(text, created_at)` entry in order.
pub open spec fn added_all(s: Seq<Task>, entries: Seq<(String, u64)>) -> Seq<Task>
    decreases entries.len(),
{
    if entries.len() == 0 {
        s
    } else {
        let (text, created_at) = entries.last();
        added(added_all(s, entries.drop_last()), text, created_at)
    }
}

/// Adding tasks one after another to an empty collection numbers them
/// 1, 2, 3, ... in order: ids strictly increase from 1 with no gaps, and each
/// addition leaves room for the next one.
pub proof fn lemma_ids_count_from_one(entries: Seq<(String, u64)>)
    requires
        entries.len() < u64::MAX,
    ensures
        added_all(Seq::empty(), entries).len() == entries.len(),
        forall|i: int|
            0 <= i < entries.len() ==> #[trigger] added_all(Seq::empty(), entries)[i].id == i + 1,
        max_id(added_all(Seq::empty(), entries)) == entries.len(),
    decreases entries.len(),
{
    if entries.len() > 0 {
        let prev = added_all(Seq::empty(), entries.drop_last());
        lemma_ids_count_from_one(entries.drop_last());
        let s = added_all(Seq::empty(), entries);
        assert(s.drop_last() == prev);
        assert forall|i: int| 0 <= i < entries.len() implies #[trigger] s[i].id == i + 1 by {
            if i < entries.len() - 1 {
                assert(s[i] == prev[i]);
            }
        }
    }
}

/// A collection numbered 1, 2, ..., k in order (k tasks added to an empty
/// collection, none removed) gives k + 1 as the next id, so ids go on
/// counting without gaps.
pub proof fn lemma_next_after_counted(s: Seq<Task>)
    requires
        forall|i: int| 0 <= i < s.len() ==> #[trigger] s[i].id == i + 1,
    ensures
        max_id(s) == s.len(),
        fresh_id(s) == s.len() + 1,
    decreases s.len(),
{
    if s.len() > 0 {
        let p = s.drop_last();
        assert forall|i: int| 0 <= i < p.len() implies #[trigger] p[i].id == i + 1 by {
            assert(p[i] == s[i]);
        }
        lemma_next_after_counted(p);
    }
}

/// The next id is greater than every id in the collection, whatever was
/// removed from it before; ids are computed afresh from what is present.
pub proof fn lemma_fresh_id_exceeds(s: Seq<Task>)
    ensures
        forall|i: int| 0 <= i < s.len() ==> s[i].id < #[trigger] fresh_id(s),
{
    lemma_max_id_bounds(s);
}

/// Two listings of one collection with the same flag are the same sequence.
pub proof fn lemma_list_repeatable(
    s: Seq<Task>,
    include_done: bool,
    first: Seq<Task>,
    second: Seq<Task>,
)
    requires
        first == listed(s, include_done),
        second == listed(s, include_done),
    ensures
        first == second,
{
}

/// Completing an id that is present twice: both calls find it, the second
/// changes nothing, and the task is done afterwards.
pub proof fn lemma_complete_twice(s: Seq<Task>, id: u64)
    requires
        has_id(s, id),
    ensures
        has_id(completed(s, id), id),
        completed(completed(s, id), id) == completed(s, id),
        completed(s, id)[first_with_id(s, id)].done,
        completed(s, id)[first_with_id(s, id)].id == id,
{
    lemma_first_with_id_exists(s, id);
    let k = first_with_id(s, id);
    let s1 = completed(s, id);
    assert(is_first_with_id(s1, id, k));
    lemma_first_with_id_unique(s1, id, k);
    assert(s1.update(k, marked_done(s1[k])) == s1);
}

/// Filtering with a predicate that every task meets keeps the collection.
pub proof fn lemma_filter_keeps_all(s: Seq<Task>, pred: spec_fn(Task) -> bool)
    requires
        forall|i: int| 0 <= i < s.len() ==> pred(#[trigger] s[i]),
    ensures
        s.filter(pred) == s,
    decreases s.len(),
{
    reveal(Seq::filter);
    if s.len() > 0 {
        let p = s.drop_last();
        assert forall|i: int| 0 <= i < p.len() implies pred(#[trigger] p[i]) by {
            assert(p[i] == s[i]);
        }
        lemma_filter_keeps_all(p, pred);
        assert(p.push(s.last()) == s);
    }
}

/// Removing an id takes away one task when the id is present in a collection
/// with unique ids, and none when it is absent; afterwards the id is absent.
pub proof fn lemma_removed_len(s: Seq<Task>, id: u64)
    requires
        ids_unique(s),
    ensures
        removed(s, id).len() == if has_id(s, id) {
            s.len() - 1
        } else {
            s.len() as int
        },
        !has_id(removed(s, id), id),
    decreases s.len(),
{
    reveal(Seq::filter);
    if s.len() > 0 {
        let p = s.drop_last();
        assert(ids_unique(p)) by {
            assert forall|i: int, j: int| 0 <= i < j < p.len() implies p[i].id != p[j].id by {
                assert(p[i] == s[i] && p[j] == s[j]);
            }
        }
        lemma_removed_len(p, id);
        let rp = removed(p, id);
        if s.last().id == id {
            assert(!has_id(p, id)) by {
                if has_id(p, id) {
                    let k = choose|k: int| 0 <= k < p.len() && p[k].id == id;
                    assert(s[k] == p[k]);
                }
            }
        } else {
            assert(has_id(s, id) == has_id(p, id)) by {
                if has_id(s, id) {
                    let k = choose|k: int| 0 <= k < s.len() && s[k].id == id;
                    assert(s[k] == p[k]);
                }
                if has_id(p, id) {
                    let k = choose|k: int| 0 <= k < p.len() && p[k].id == id;
                    assert(s[k] == p[k]);
                }
            }
            assert forall|i: int| 0 <= i < rp.len() + 1 implies rp.push(s.last())[i].id != id by {
                if i < rp.len() {
                    assert(rp.push(s.last())[i] == rp[i]);
                }
            }
        }
    }
}

/// Removing an id that is present, twice, in a collection with unique ids:
/// the first removal finds it and shortens the collection by one, the second
/// finds nothing and changes nothing.
pub proof fn lemma_remove_twice(s: Seq<Task>, id: u64)
    requires
        ids_unique(s),
        has_id(s, id),
    ensures
        !has_id(removed(s, id), id),
        removed(removed(s, id), id) == removed(s, id),
        removed(s, id).len() == s.len() - 1,
{
    lemma_removed_len(s, id);
    let r = removed(s, id);
    assert forall|i: int| 0 <= i < r.len() implies (|t: Task| t.id != id)(#[trigger] r[i]) by {
        assert(!(r[i].id == id));
    }
    lemma_filter_keeps_all(r, |t: Task| t.id != id);
}

} // verus!
