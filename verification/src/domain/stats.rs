use vstd::prelude::*;

use crate::domain::tag::TagId;
use crate::domain::task::{DueDateStatus, Priority, Status};

verus! {

/// The count that a list of (key, count) entries gives a key: the count of
/// the last entry with that key, as inserting the entries in order into a
/// map would leave it, or 0 when no entry has the key.
pub open spec fn count_of<K>(pairs: Seq<(K, usize)>, k: K) -> nat
    decreases pairs.len(),
{
    if pairs.len() == 0 {
        0
    } else if pairs.last().0 == k {
        pairs.last().1 as nat
    } else {
        count_of(pairs.drop_last(), k)
    }
}

/// An entry added at the end decides the count of its key and leaves the
/// other keys alone.
pub proof fn lemma_count_of_push<K>(pairs: Seq<(K, usize)>, k: K, v: usize, q: K)
    ensures
        count_of(pairs.push((k, v)), q) == if q == k {
            v as nat
        } else {
            count_of(pairs, q)
        },
{
    assert(pairs.push((k, v)).drop_last() == pairs);
}

/// Changing the count of the last entry with key `k` changes the count of
/// `k` and leaves the other keys alone.
pub proof fn lemma_count_of_update<K>(pairs: Seq<(K, usize)>, i: int, v: usize, q: K)
    requires
        0 <= i < pairs.len(),
        forall|j: int| i < j < pairs.len() ==> pairs[j].0 != pairs[i].0,
    ensures
        count_of(pairs.update(i, (pairs[i].0, v)), q) == if q == pairs[i].0 {
            v as nat
        } else {
            count_of(pairs, q)
        },
    decreases pairs.len(),
{
    let k = pairs[i].0;
    let u = pairs.update(i, (k, v));
    if i == pairs.len() - 1 {
        assert(u.drop_last() == pairs.drop_last());
    } else {
        assert(u.drop_last() == pairs.drop_last().update(i, (k, v)));
        assert(u.last() == pairs.last());
        assert(pairs.last().0 != k) by {
            assert(pairs[pairs.len() - 1].0 != k);
        }
        lemma_count_of_update(pairs.drop_last(), i, v, q);
    }
}

/// A key that a pair list can be looked up by.
pub trait StatKey: Sized {
    fn same_key(&self, other: &Self) -> (r: bool)
        ensures
            r == (*self == *other),
    ;
}

impl StatKey for Status {
    fn same_key(&self, other: &Self) -> (r: bool) {
        *self == *other
    }
}

impl StatKey for Priority {
    fn same_key(&self, other: &Self) -> (r: bool) {
        *self == *other
    }
}

impl StatKey for DueDateStatus {
    fn same_key(&self, other: &Self) -> (r: bool) {
        *self == *other
    }
}

impl StatKey for (Priority, Status) {
    fn same_key(&self, other: &Self) -> (r: bool) {
        self.0 == other.0 && self.1 == other.1
    }
}

impl StatKey for Option<TagId> {
    fn same_key(&self, other: &Self) -> (r: bool) {
        match (self, other) {
            (Some(a), Some(b)) => *a == *b,
            (None, None) => true,
            _ => false,
        }
    }
}

/// The count that `pairs` gives `k` (see `count_of`).
pub fn lookup_count<K: StatKey>(pairs: &Vec<(K, usize)>, k: &K) -> (r: usize)
    ensures
        r == count_of(pairs@, *k),
{
    let mut i: usize = pairs.len();
    assert(pairs@.take(i as int) == pairs@);
    while i > 0
        invariant
            i <= pairs.len(),
            count_of(pairs@, *k) == count_of(pairs@.take(i as int), *k),
        decreases i,
    {
        let ghost before = pairs@.take(i as int);
        assert(before.drop_last() == pairs@.take(i as int - 1));
        assert(before.last() == pairs@[i as int - 1]);
        i -= 1;
        if pairs[i].0.same_key(k) {
            return pairs[i].1;
        }
    }
    assert(pairs@.take(0) == Seq::<(K, usize)>::empty());
    0
}

/// What task statistics hold.
pub struct TaskStatsModel {
    pub status_stats: Seq<(Status, usize)>,
    pub priority_stats: Seq<(Priority, usize)>,
    pub due_date_stats: Seq<(DueDateStatus, usize)>,
    pub tag_stats: Seq<(Option<TagId>, usize)>,
    pub priority_status_matrix: Seq<((Priority, Status), usize)>,
    pub total_count: usize,
}

/// Statistics of a set of tasks: counts by status, by priority, by due-date
/// status, by tag (no tag counted under `None`) and by priority and status
/// together, and the number of tasks. Each is a list of (key, count)
/// entries; a key without an entry counts 0.
#[derive(Debug, Clone, PartialEq, Eq)]
pub struct TaskStats {
    status_stats: Vec<(Status, usize)>,
    priority_stats: Vec<(Priority, usize)>,
    due_date_stats: Vec<(DueDateStatus, usize)>,
    tag_stats: Vec<(Option<TagId>, usize)>,
    priority_status_matrix: Vec<((Priority, Status), usize)>,
    total_count: usize,
}

impl View for TaskStats {
    type V = TaskStatsModel;

    closed spec fn view(&self) -> TaskStatsModel {
        TaskStatsModel {
            status_stats: self.status_stats@,
            priority_stats: self.priority_stats@,
            due_date_stats: self.due_date_stats@,
            tag_stats: self.tag_stats@,
            priority_status_matrix: self.priority_status_matrix@,
            total_count: self.total_count,
        }
    }
}

impl TaskStats {
    /// Statistics made of the given counts.
    pub fn new(
        status_stats: Vec<(Status, usize)>,
        priority_stats: Vec<(Priority, usize)>,
        due_date_stats: Vec<(DueDateStatus, usize)>,
        tag_stats: Vec<(Option<TagId>, usize)>,
        priority_status_matrix: Vec<((Priority, Status), usize)>,
        total_count: usize,
    ) -> (r: TaskStats)
        ensures
            r@ == (TaskStatsModel {
                status_stats: status_stats@,
                priority_stats: priority_stats@,
                due_date_stats: due_date_stats@,
                tag_stats: tag_stats@,
                priority_status_matrix: priority_status_matrix@,
                total_count,
            }),
    {
        TaskStats {
            status_stats,
            priority_stats,
            due_date_stats,
            tag_stats,
            priority_status_matrix,
            total_count,
        }
    }

    /// The number of tasks.
    pub fn total_count(&self) -> (r: usize)
        ensures
            r == self@.total_count,
    {
        self.total_count
    }

    /// The number of tasks in `status`.
    pub fn status_count(&self, status: &Status) -> (r: usize)
        ensures
            r == count_of(self@.status_stats, *status),
    {
        lookup_count(&self.status_stats, status)
    }

    /// The number of tasks of `priority`.
    pub fn priority_count(&self, priority: &Priority) -> (r: usize)
        ensures
            r == count_of(self@.priority_stats, *priority),
    {
        lookup_count(&self.priority_stats, priority)
    }

    /// The number of tasks in due-date status `due_date_status`.
    pub fn due_date_count(&self, due_date_status: &DueDateStatus) -> (r: usize)
        ensures
            r == count_of(self@.due_date_stats, *due_date_status),
    {
        lookup_count(&self.due_date_stats, due_date_status)
    }

    /// The number of tasks of `priority` in `status`.
    pub fn priority_status_count(&self, priority: &Priority, status: &Status) -> (r: usize)
        ensures
            r == count_of(self@.priority_status_matrix, (*priority, *status)),
    {
        lookup_count(&self.priority_status_matrix, &(*priority, *status))
    }

    /// The entries counted by tag.
    pub fn tag_stats(&self) -> (r: &Vec<(Option<TagId>, usize)>)
        ensures
            r@ == self@.tag_stats,
    {
        &self.tag_stats
    }
}

} // verus!

verus! {

/// No two entries of a pair list have the same key.
pub open spec fn keys_distinct<K>(pairs: Seq<(K, usize)>) -> bool {
    forall|a: int, b: int| 0 <= a < b < pairs.len() ==> pairs[a].0 != pairs[b].0
}

/// In a list without repeated keys, an entry's count is the count of its key.
pub proof fn lemma_count_of_distinct<K>(pairs: Seq<(K, usize)>, i: int)
    requires
        keys_distinct(pairs),
        0 <= i < pairs.len(),
    ensures
        count_of(pairs, pairs[i].0) == pairs[i].1,
    decreases pairs.len(),
{
    if i < pairs.len() - 1 {
        assert(pairs.last().0 != pairs[i].0) by {
            assert(pairs[pairs.len() - 1] == pairs.last());
        }
        assert(keys_distinct(pairs.drop_last()));
        assert(pairs.drop_last()[i] == pairs[i]);
        lemma_count_of_distinct(pairs.drop_last(), i);
    }
}

/// A key that no entry has counts 0.
pub proof fn lemma_count_of_absent<K>(pairs: Seq<(K, usize)>, k: K)
    requires
        forall|j: int| 0 <= j < pairs.len() ==> pairs[j].0 != k,
    ensures
        count_of(pairs, k) == 0,
    decreases pairs.len(),
{
    if pairs.len() > 0 {
        assert(pairs[pairs.len() - 1] == pairs.last());
        lemma_count_of_absent(pairs.drop_last(), k);
    }
}

/// Adds one to the count of `k`: the entry of `k` is raised, or an entry
/// (k, 1) is added when there is none.
pub fn bump_count<K: StatKey + Copy>(pairs: &mut Vec<(K, usize)>, k: K)
    requires
        keys_distinct(old(pairs)@),
        count_of(old(pairs)@, k) < usize::MAX,
    ensures
        keys_distinct(final(pairs)@),
        forall|q: K|
            #[trigger] count_of(final(pairs)@, q) == if q == k {
                count_of(old(pairs)@, k) + 1
            } else {
                count_of(old(pairs)@, q)
            },
{
    let mut i: usize = 0;
    while i < pairs.len()
        invariant
            i <= pairs.len(),
            pairs@ == old(pairs)@,
            keys_distinct(old(pairs)@),
            count_of(old(pairs)@, k) < usize::MAX,
            forall|j: int| 0 <= j < i ==> pairs@[j].0 != k,
        decreases pairs.len() - i,
    {
        if pairs[i].0.same_key(&k) {
            let v = pairs[i].1;
            proof {
                lemma_count_of_distinct(pairs@, i as int);
            }
            let ghost before = pairs@;
            pairs.set(i, (k, v + 1));
            proof {
                assert(pairs@ == before.update(i as int, (before[i as int].0, (v + 1) as usize)));
                assert forall|q: K|
                    #[trigger] count_of(pairs@, q) == if q == k {
                        count_of(before, k) + 1
                    } else {
                        count_of(before, q)
                    } by {
                    lemma_count_of_update(before, i as int, (v + 1) as usize, q);
                }
                assert(keys_distinct(pairs@)) by {
                    assert forall|a: int, b: int| 0 <= a < b < pairs@.len() implies pairs@[a].0
                        != pairs@[b].0 by {
                        assert(before[a].0 != before[b].0);
                    }
                }
            }
            return;
        }
        i += 1;
    }
    proof {
        lemma_count_of_absent(pairs@, k);
    }
    let ghost before = pairs@;
    pairs.push((k, 1));
    proof {
        assert(pairs@ == before.push((k, 1usize)));
        assert forall|q: K|
            #[trigger] count_of(pairs@, q) == if q == k {
                count_of(before, k) + 1
            } else {
                count_of(before, q)
            } by {
            lemma_count_of_push(before, k, 1usize, q);
        }
        assert(keys_distinct(pairs@)) by {
            assert forall|a: int, b: int| 0 <= a < b < pairs@.len() implies pairs@[a].0
                != pairs@[b].0 by {
                if b < before.len() {
                    assert(before[a].0 != before[b].0);
                } else {
                    assert(before[a].0 != k);
                }
            }
        }
    }
}

/// The entries (key, count) for the keys whose count is not 0, in the order of `keys`.
pub fn nonzero_entries<K: Copy>(keys: &Vec<K>, counts: &Vec<usize>) -> (r: Vec<(K, usize)>)
    requires
        keys.len() == counts.len(),
        forall|a: int, b: int| 0 <= a < b < keys.len() ==> keys@[a] != keys@[b],
    ensures
        forall|j: int| 0 <= j < keys.len() ==> count_of(r@, #[trigger] keys@[j]) == counts@[j],
        forall|q: K| !keys@.contains(q) ==> #[trigger] count_of(r@, q) == 0,
        forall|j: int| 0 <= j < r@.len() ==> r@[j].1 > 0,
        keys_distinct(r@),
{
    let mut out: Vec<(K, usize)> = Vec::new();
    let mut k: usize = 0;
    while k < keys.len()
        invariant
            keys.len() == counts.len(),
            forall|a: int, b: int| 0 <= a < b < keys.len() ==> keys@[a] != keys@[b],
            k <= keys.len(),
            forall|j: int| 0 <= j < k ==> count_of(out@, #[trigger] keys@[j]) == counts@[j],
            forall|q: K| !keys@.take(k as int).contains(q) ==> #[trigger] count_of(out@, q) == 0,
            forall|j: int| 0 <= j < out@.len() ==> out@[j].1 > 0,
            forall|j: int| 0 <= j < out@.len() ==> keys@.take(k as int).contains(#[trigger] out@[j].0),
            keys_distinct(out@),
        decreases keys.len() - k,
    {
        let key = keys[k];
        let c = counts[k];
        let ghost before = out@;
        assert(keys@.take(k as int + 1) == keys@.take(k as int).push(key));
        assert(!keys@.take(k as int).contains(key)) by {
            if keys@.take(k as int).contains(key) {
                let a = choose|a: int| 0 <= a < k && keys@.take(k as int)[a] == key;
                assert(keys@[a] == keys@[k as int]);
            }
        }
        if c > 0 {
            out.push((key, c));
            proof {
                assert(out@ == before.push((key, c)));
                assert forall|j: int| 0 <= j < k + 1 implies count_of(out@, #[trigger] keys@[j])
                    == counts@[j] by {
                    lemma_count_of_push(before, key, c, keys@[j]);
                    if j < k {
                        assert(keys@[j] != key);
                    }
                }
                assert forall|q: K| !keys@.take(k as int + 1).contains(q) implies #[trigger] count_of(
                    out@,
                    q,
                ) == 0 by {
                    lemma_count_of_push(before, key, c, q);
                    assert(q != key) by {
                        assert(keys@.take(k as int + 1)[k as int] == key);
                    }
                    if keys@.take(k as int).contains(q) {
                        let a = choose|a: int| 0 <= a < k && keys@.take(k as int)[a] == q;
                        assert(keys@.take(k as int + 1)[a] == q);
                    }
                }
                assert forall|j: int| 0 <= j < out@.len() implies keys@.take(k as int + 1).contains(
                    #[trigger] out@[j].0,
                ) by {
                    if j < before.len() {
                        let a = choose|a: int| 0 <= a < k && keys@.take(k as int)[a] == before[j].0;
                        assert(keys@.take(k as int + 1)[a] == before[j].0);
                    } else {
                        assert(keys@.take(k as int + 1)[k as int] == key);
                    }
                }
                assert(keys_distinct(out@)) by {
                    assert forall|a: int, b: int| 0 <= a < b < out@.len() implies out@[a].0
                        != out@[b].0 by {
                        if b < before.len() {
                            assert(before[a].0 != before[b].0);
                        } else {
                            assert(keys@.take(k as int).contains(before[a].0));
                        }
                    }
                }
            }
        } else {
            proof {
                assert forall|j: int| 0 <= j < k + 1 implies count_of(out@, #[trigger] keys@[j])
                    == counts@[j] by {
                    if j == k {
                        assert(count_of(out@, key) == 0);
                    }
                }
                assert forall|q: K| !keys@.take(k as int + 1).contains(q) implies #[trigger] count_of(
                    out@,
                    q,
                ) == 0 by {
                    if keys@.take(k as int).contains(q) {
                        let a = choose|a: int| 0 <= a < k && keys@.take(k as int)[a] == q;
                        assert(keys@.take(k as int + 1)[a] == q);
                    }
                }
                assert forall|j: int| 0 <= j < out@.len() implies keys@.take(k as int + 1).contains(
                    #[trigger] out@[j].0,
                ) by {
                    let a = choose|a: int| 0 <= a < k && keys@.take(k as int)[a] == out@[j].0;
                    assert(keys@.take(k as int + 1)[a] == out@[j].0);
                }
            }
        }
        k += 1;
    }
    assert(keys@.take(keys.len() as int) == keys@);
    out
}

} // verus!
