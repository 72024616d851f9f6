use vstd::prelude::*;

use crate::domain::stats::{count_of, TaskStats, TaskStatsModel};
use crate::domain::aggregate::TaskModel;
use crate::domain::statistics::{count_due, count_pair, count_priority, count_status, stats_of};
use crate::domain::tag::TagId;
use crate::domain::task::{priority_name, status_text, DueDateStatus, Priority, Status};
use crate::text::{ascii_lower, concat2, concat3, int_to_string, spec_int_digits, str_eq};

verus! {

/// No two entries share a key.
pub open spec fn keys_distinct(s: Seq<(Seq<char>, usize)>) -> bool {
    forall|a: int, b: int| 0 <= a < b < s.len() ==> s[a].0 != s[b].0
}

/// Whether some entry has the key `k`.
pub open spec fn has_key(s: Seq<(Seq<char>, usize)>, k: Seq<char>) -> bool {
    exists|i: int| 0 <= i < s.len() && s[i].0 == k
}

/// The position of the entry with key `k` (meaningful when there is one).
pub open spec fn key_index(s: Seq<(Seq<char>, usize)>, k: Seq<char>) -> int {
    choose|i: int| 0 <= i < s.len() && s[i].0 == k
}

/// The count stored under `k`, if any.
pub open spec fn lookup(s: Seq<(Seq<char>, usize)>, k: Seq<char>) -> Option<usize> {
    if has_key(s, k) {
        Some(s[key_index(s, k)].1)
    } else {
        None
    }
}

/// The count stored under `k`, or 0.
pub open spec fn count_or_zero(s: Seq<(Seq<char>, usize)>, k: Seq<char>) -> nat {
    match lookup(s, k) {
        Some(c) => c as nat,
        None => 0,
    }
}

/// The entries once `k` maps to `v`: the entry with key `k` is replaced in
/// place, or a new one is added at the end.
pub open spec fn put_count(s: Seq<(Seq<char>, usize)>, k: Seq<char>, v: usize) -> Seq<
    (Seq<char>, usize),
> {
    if has_key(s, k) {
        s.update(key_index(s, k), (k, v))
    } else {
        s.push((k, v))
    }
}

/// Counts stored under text keys, each key at most once, in the order the
/// keys were first inserted.
#[derive(Debug)]
pub struct CountMap {
    entries: Vec<(String, usize)>,
}

impl View for CountMap {
    type V = Seq<(Seq<char>, usize)>;

    closed spec fn view(&self) -> Seq<(Seq<char>, usize)> {
        self.entries@.map_values(|e: (String, usize)| (e.0@, e.1))
    }
}

impl CountMap {
    #[verifier::type_invariant]
    spec fn keys_unique(self) -> bool {
        keys_distinct(self@)
    }

    /// An empty map.
    pub fn new() -> (r: CountMap)
        ensures
            r@ == Seq::<(Seq<char>, usize)>::empty(),
    {
        let r = CountMap { entries: Vec::new() };
        assert(r@ =~= Seq::<(Seq<char>, usize)>::empty());
        r
    }

    fn position(&self, key: &str) -> (r: Option<usize>)
        ensures
            r is Some <==> has_key(self@, key@),
            r matches Some(i) ==> i < self@.len() && i == key_index(self@, key@),
    {
        proof {
            use_type_invariant(self);
        }
        let mut i: usize = 0;
        while i < self.entries.len()
            invariant
                i <= self.entries.len(),
                keys_distinct(self@),
                forall|j: int| 0 <= j < i ==> self@[j].0 != key@,
            decreases self.entries.len() - i,
        {
            if str_eq(self.entries[i].0.as_str(), key) {
                proof {
                    let s = self@;
                    assert(s[i as int].0 == key@);
                    assert(has_key(s, key@));
                    let k = key_index(s, key@);
                    if k != i {
                        assert(s[k].0 != s[i as int].0);
                    }
                }
                return Some(i);
            }
            i += 1;
        }
        proof {
            let s = self@;
            if has_key(s, key@) {
                let k = key_index(s, key@);
                assert(s[k].0 == key@);
            }
        }
        None
    }

    /// The count stored under `key`, if any.
    pub fn get(&self, key: &str) -> (r: Option<usize>)
        ensures
            r == lookup(self@, key@),
    {
        match self.position(key) {
            Some(i) => Some(self.entries[i].1),
            None => None,
        }
    }

    /// Stores `value` under `key`, replacing what was stored there.
    pub fn insert(&mut self, key: String, value: usize)
        ensures
            final(self)@ == put_count(old(self)@, key@, value),
    {
        proof {
            use_type_invariant(&*self);
        }
        let ghost s = self@;
        let ghost k = key@;
        let pos = self.position(key.as_str());
        let mut entries: Vec<(String, usize)> = Vec::new();
        std::mem::swap(&mut entries, &mut self.entries);
        assert(entries@.map_values(|e: (String, usize)| (e.0@, e.1)) == s);
        match pos {
            Some(i) => {
                entries.set(i, (key, value));
                let ghost t = entries@.map_values(|e: (String, usize)| (e.0@, e.1));
                proof {
                    assert(t =~= s.update(i as int, (k, value)));
                    assert forall|a: int, b: int| 0 <= a < b < t.len() implies t[a].0
                        != t[b].0 by {
                        if a != i && b != i {
                            assert(s[a].0 != s[b].0);
                        } else if a == i {
                            assert(s[b].0 != s[i as int].0);
                        } else {
                            assert(s[a].0 != s[i as int].0);
                        }
                    }
                }
            },
            None => {
                entries.push((key, value));
                let ghost t = entries@.map_values(|e: (String, usize)| (e.0@, e.1));
                proof {
                    assert(t =~= s.push((k, value)));
                    assert forall|a: int, b: int| 0 <= a < b < t.len() implies t[a].0
                        != t[b].0 by {
                        if b < s.len() {
                            assert(s[a].0 != s[b].0);
                        } else {
                            assert(s[a].0 != k);
                        }
                    }
                }
            },
        }
        self.entries = entries;
    }

    /// Whether nothing is stored.
    pub fn is_empty(&self) -> (r: bool)
        ensures
            r == (self@.len() == 0),
    {
        self.entries.len() == 0
    }

    /// How many keys are stored.
    pub fn len(&self) -> (r: usize)
        ensures
            r == self@.len(),
    {
        self.entries.len()
    }

    /// The key and count at position `i`, in insertion order.
    pub fn entry(&self, i: usize) -> (r: (String, usize))
        requires
            i < self@.len(),
        ensures
            r.0@ == self@[i as int].0,
            r.1 == self@[i as int].1,
    {
        (self.entries[i].0.clone(), self.entries[i].1)
    }
}

impl Clone for CountMap {
    fn clone(&self) -> (r: Self)
        ensures
            r@ == self@,
    {
        proof {
            use_type_invariant(self);
        }
        let mut entries: Vec<(String, usize)> = Vec::new();
        let mut i: usize = 0;
        while i < self.entries.len()
            invariant
                i <= self.entries.len(),
                keys_distinct(self@),
                entries@.map_values(|e: (String, usize)| (e.0@, e.1)) == self@.take(i as int),
            decreases self.entries.len() - i,
        {
            let ghost before = entries@;
            entries.push((self.entries[i].0.clone(), self.entries[i].1));
            proof {
                assert(entries@.map_values(|e: (String, usize)| (e.0@, e.1)) =~= before.map_values(
                    |e: (String, usize)| (e.0@, e.1),
                ).push(self@[i as int]));
                assert(self@.take(i + 1) =~= self@.take(i as int).push(self@[i as int]));
            }
            i += 1;
        }
        assert(self@.take(self.entries.len() as int) =~= self@);
        CountMap { entries }
    }
}

/// The statistics as the summary view takes them: each kind of count keyed
/// by a text ("pending", "high", "overdue", "high:pending", a tag's name).
#[derive(Debug, Clone)]
pub struct StatsDTO {
    pub total_count: usize,
    pub status_stats: CountMap,
    pub priority_stats: CountMap,
    pub due_date_stats: CountMap,
    pub tag_stats: CountMap,
    pub priority_status_matrix: CountMap,
}


/// A read after a write: once `k` maps to `v`, looking up `k` gives `v`,
/// and every other key keeps its count.
pub proof fn law_count_read_after_write(s: Seq<(Seq<char>, usize)>, k: Seq<char>, v: usize, other: Seq<char>)
    requires
        keys_distinct(s),
    ensures
        lookup(put_count(s, k, v), k) == Some(v),
        other != k ==> lookup(put_count(s, k, v), other) == lookup(s, other),
        keys_distinct(put_count(s, k, v)),
{
    let t = put_count(s, k, v);
    let pos = if has_key(s, k) { key_index(s, k) } else { s.len() as int };
    assert(t[pos] == (k, v));
    assert forall|a: int, b: int| 0 <= a < b < t.len() implies t[a].0 != t[b].0 by {
        if has_key(s, k) {
            if a != pos && b != pos {
                assert(s[a].0 != s[b].0);
            } else if a == pos {
                assert(s[b].0 != s[pos].0);
            } else {
                assert(s[a].0 != s[pos].0);
            }
        } else {
            if b < s.len() {
                assert(s[a].0 != s[b].0);
            } else {
                assert(s[a].0 != k);
            }
        }
    }
    assert(has_key(t, k));
    let j = key_index(t, k);
    if j != pos {
        assert(t[j].0 != t[pos].0);
    }
    if other != k {
        if has_key(s, other) {
            let i = key_index(s, other);
            assert(t[i] == s[i]);
            assert(has_key(t, other));
            let i2 = key_index(t, other);
            if i2 != i {
                assert(t[i2].0 != t[i].0);
            }
        }
        if has_key(t, other) {
            let i2 = key_index(t, other);
            assert(i2 != pos);
            assert(t[i2] == s[i2]);
            assert(has_key(s, other));
        }
    }
}


/// The entries once `k` maps to `c`, when `c` counts something; a zero
/// count leaves no entry.
pub open spec fn put_if_counted(s: Seq<(Seq<char>, usize)>, k: Seq<char>, c: nat) -> Seq<
    (Seq<char>, usize),
> {
    if c > 0 {
        put_count(s, k, c as usize)
    } else {
        s
    }
}

/// The key of a priority in the summary.
pub open spec fn priority_key_text(p: Priority) -> Seq<char> {
    match p {
        Priority::Low => "low"@,
        Priority::Medium => "medium"@,
        Priority::High => "high"@,
        Priority::Critical => "critical"@,
    }
}

/// The key of a due-date status in the summary.
pub open spec fn due_key_text(d: DueDateStatus) -> Seq<char> {
    match d {
        DueDateStatus::Overdue => "overdue"@,
        DueDateStatus::DueToday => "due_today"@,
        DueDateStatus::DueThisWeek => "due_this_week"@,
        DueDateStatus::NoDueDate => "no_due_date"@,
    }
}

/// The key of a tag in the summary: "Tag ID: n", or "(タグなし)" for the
/// tasks without tags.
pub open spec fn tag_key_text(t: Option<TagId>) -> Seq<char> {
    match t {
        Some(id) => "Tag ID: "@ + spec_int_digits(id@ as int),
        None => "(タグなし)"@,
    }
}

/// The entries of a list of counts, in order, each under its key when it
/// counts something (a later entry for a key replaces an earlier one).
pub open spec fn tag_entries(e: Seq<(Option<TagId>, usize)>) -> Seq<(Seq<char>, usize)>
    decreases e.len(),
{
    if e.len() == 0 {
        Seq::empty()
    } else {
        put_if_counted(tag_entries(e.drop_last()), tag_key_text(e.last().0), e.last().1 as nat)
    }
}

/// The status entries of the summary: pending, in progress, completed, each
/// when it counts something.
pub open spec fn status_entries(m: TaskStatsModel) -> Seq<(Seq<char>, usize)> {
    put_if_counted(
        put_if_counted(
            put_if_counted(
                Seq::empty(),
                status_text(Status::Pending),
                count_of(m.status_stats, Status::Pending),
            ),
            status_text(Status::InProgress),
            count_of(m.status_stats, Status::InProgress),
        ),
        status_text(Status::Completed),
        count_of(m.status_stats, Status::Completed),
    )
}

/// The priority entries of the summary, low to critical, each when it
/// counts something.
pub open spec fn priority_entries(m: TaskStatsModel) -> Seq<(Seq<char>, usize)> {
    put_if_counted(
        put_if_counted(
            put_if_counted(
                put_if_counted(
                    Seq::empty(),
                    priority_key_text(Priority::Low),
                    count_of(m.priority_stats, Priority::Low),
                ),
                priority_key_text(Priority::Medium),
                count_of(m.priority_stats, Priority::Medium),
            ),
            priority_key_text(Priority::High),
            count_of(m.priority_stats, Priority::High),
        ),
        priority_key_text(Priority::Critical),
        count_of(m.priority_stats, Priority::Critical),
    )
}

/// The due-date entries of the summary, each when it counts something.
pub open spec fn due_entries(m: TaskStatsModel) -> Seq<(Seq<char>, usize)> {
    put_if_counted(
        put_if_counted(
            put_if_counted(
                put_if_counted(
                    Seq::empty(),
                    due_key_text(DueDateStatus::Overdue),
                    count_of(m.due_date_stats, DueDateStatus::Overdue),
                ),
                due_key_text(DueDateStatus::DueToday),
                count_of(m.due_date_stats, DueDateStatus::DueToday),
            ),
            due_key_text(DueDateStatus::DueThisWeek),
            count_of(m.due_date_stats, DueDateStatus::DueThisWeek),
        ),
        due_key_text(DueDateStatus::NoDueDate),
        count_of(m.due_date_stats, DueDateStatus::NoDueDate),
    )
}

/// The priority at position `i` of low, medium, high, critical.
pub open spec fn priority_in_order(i: int) -> Priority {
    if i == 0 {
        Priority::Low
    } else if i == 1 {
        Priority::Medium
    } else if i == 2 {
        Priority::High
    } else {
        Priority::Critical
    }
}

/// The status at position `i` of pending, in progress, completed.
pub open spec fn status_in_order(i: int) -> Status {
    if i == 0 {
        Status::Pending
    } else if i == 1 {
        Status::InProgress
    } else {
        Status::Completed
    }
}

/// The matrix entries for the first `n` (priority, status) pairs, taken
/// priority by priority (low first), status by status within each, keyed
/// "priority:status", each when it counts something.
pub open spec fn matrix_entries_upto(m: TaskStatsModel, n: nat) -> Seq<(Seq<char>, usize)>
    decreases n,
{
    if n == 0 {
        Seq::empty()
    } else {
        let k = n - 1;
        let p = priority_in_order(k / 3);
        let s = status_in_order(k % 3);
        put_if_counted(
            matrix_entries_upto(m, (n - 1) as nat),
            priority_key_text(p) + ":"@ + status_text(s),
            count_of(m.priority_status_matrix, (p, s)),
        )
    }
}

fn put_counted(m: &mut CountMap, key: String, c: usize)
    ensures
        final(m)@ == put_if_counted(old(m)@, key@, c as nat),
{
    if c > 0 {
        m.insert(key, c);
    }
}

fn priority_key_string(p: Priority) -> (r: String)
    ensures
        r@ == priority_key_text(p),
{
    match p {
        Priority::Low => "low".to_string(),
        Priority::Medium => "medium".to_string(),
        Priority::High => "high".to_string(),
        Priority::Critical => "critical".to_string(),
    }
}

fn due_key_string(d: DueDateStatus) -> (r: String)
    ensures
        r@ == due_key_text(d),
{
    match d {
        DueDateStatus::Overdue => "overdue".to_string(),
        DueDateStatus::DueToday => "due_today".to_string(),
        DueDateStatus::DueThisWeek => "due_this_week".to_string(),
        DueDateStatus::NoDueDate => "no_due_date".to_string(),
    }
}

fn tag_key_string(t: Option<TagId>) -> (r: String)
    ensures
        r@ == tag_key_text(t),
{
    match t {
        Some(id) => {
            let n = int_to_string(id.value() as i64);
            concat2("Tag ID: ", n.as_str())
        },
        None => "(タグなし)".to_string(),
    }
}

fn priority_at_index(i: usize) -> (r: Priority)
    requires
        i < 4,
    ensures
        r == priority_in_order(i as int),
{
    if i == 0 {
        Priority::Low
    } else if i == 1 {
        Priority::Medium
    } else if i == 2 {
        Priority::High
    } else {
        Priority::Critical
    }
}

fn status_at_index(i: usize) -> (r: Status)
    requires
        i < 3,
    ensures
        r == status_in_order(i as int),
{
    if i == 0 {
        Status::Pending
    } else if i == 1 {
        Status::InProgress
    } else {
        Status::Completed
    }
}

impl StatsDTO {
    /// The summary's view of task statistics: each count keyed by text
    /// ("pending", "high", "overdue", "high:pending", "Tag ID: 3",
    /// "(タグなし)"), present only when it counts at least one task.
    pub fn from_stats(stats: &TaskStats) -> (r: StatsDTO)
        ensures
            r.total_count == stats@.total_count,
            r.status_stats@ == status_entries(stats@),
            r.priority_stats@ == priority_entries(stats@),
            r.due_date_stats@ == due_entries(stats@),
            r.priority_status_matrix@ == matrix_entries_upto(stats@, 12),
            r.tag_stats@ == tag_entries(stats@.tag_stats),
            forall|p: Priority|
                #[trigger] count_or_zero(r.priority_stats@, ascii_lower(priority_name(p)))
                    == count_of(stats@.priority_stats, p),
            forall|p: Priority, s: Status|
                #[trigger] count_or_zero(
                    r.priority_status_matrix@,
                    ascii_lower(priority_name(p)) + ":"@ + status_text(s),
                ) == count_of(stats@.priority_status_matrix, (p, s)),
            count_or_zero(r.status_stats@, "pending"@) == count_of(
                stats@.status_stats,
                Status::Pending,
            ),
            count_or_zero(r.status_stats@, "in_progress"@) == count_of(
                stats@.status_stats,
                Status::InProgress,
            ),
            count_or_zero(r.status_stats@, "completed"@) == count_of(
                stats@.status_stats,
                Status::Completed,
            ),
            count_or_zero(r.due_date_stats@, "overdue"@) == count_of(
                stats@.due_date_stats,
                DueDateStatus::Overdue,
            ),
            count_or_zero(r.due_date_stats@, "due_today"@) == count_of(
                stats@.due_date_stats,
                DueDateStatus::DueToday,
            ),
            count_or_zero(r.due_date_stats@, "due_this_week"@) == count_of(
                stats@.due_date_stats,
                DueDateStatus::DueThisWeek,
            ),
            count_or_zero(r.due_date_stats@, "no_due_date"@) == count_of(
                stats@.due_date_stats,
                DueDateStatus::NoDueDate,
            ),
    {
        let mut st = CountMap::new();
        put_counted(&mut st, Status::Pending.to_string(), stats.status_count(&Status::Pending));
        put_counted(
            &mut st,
            Status::InProgress.to_string(),
            stats.status_count(&Status::InProgress),
        );
        put_counted(&mut st, Status::Completed.to_string(), stats.status_count(&Status::Completed));

        let mut pr = CountMap::new();
        put_counted(&mut pr, priority_key_string(Priority::Low), stats.priority_count(&Priority::Low));
        put_counted(
            &mut pr,
            priority_key_string(Priority::Medium),
            stats.priority_count(&Priority::Medium),
        );
        put_counted(
            &mut pr,
            priority_key_string(Priority::High),
            stats.priority_count(&Priority::High),
        );
        put_counted(
            &mut pr,
            priority_key_string(Priority::Critical),
            stats.priority_count(&Priority::Critical),
        );

        let mut du = CountMap::new();
        put_counted(
            &mut du,
            due_key_string(DueDateStatus::Overdue),
            stats.due_date_count(&DueDateStatus::Overdue),
        );
        put_counted(
            &mut du,
            due_key_string(DueDateStatus::DueToday),
            stats.due_date_count(&DueDateStatus::DueToday),
        );
        put_counted(
            &mut du,
            due_key_string(DueDateStatus::DueThisWeek),
            stats.due_date_count(&DueDateStatus::DueThisWeek),
        );
        put_counted(
            &mut du,
            due_key_string(DueDateStatus::NoDueDate),
            stats.due_date_count(&DueDateStatus::NoDueDate),
        );

        let mut mx = CountMap::new();
        let mut n: usize = 0;
        while n < 12
            invariant
                n <= 12,
                mx@ == matrix_entries_upto(stats@, n as nat),
            decreases 12 - n,
        {
            let p = priority_at_index(n / 3);
            let s = status_at_index(n % 3);
            let st_text = s.to_string();
            let key = concat3(priority_key_string(p).as_str(), ":", st_text.as_str());
            put_counted(&mut mx, key, stats.priority_status_count(&p, &s));
            n += 1;
        }

        let tags = stats.tag_stats();
        let mut tg = CountMap::new();
        let mut i: usize = 0;
        while i < tags.len()
            invariant
                i <= tags.len(),
                tags@ == stats@.tag_stats,
                tg@ == tag_entries(tags@.take(i as int)),
            decreases tags.len() - i,
        {
            let (t, c) = tags[i];
            assert(tags@.take(i + 1).drop_last() =~= tags@.take(i as int));
            put_counted(&mut tg, tag_key_string(t), c);
            i += 1;
        }
        assert(tags@.take(tags.len() as int) =~= tags@);
        proof {
            assert(pr@ == priority_entries(stats@));
            lemma_priority_entries(stats@);
            lemma_due_entries(stats@);
            lemma_status_entries(stats@);
            lemma_matrix_by_name(stats@);
        }

        StatsDTO {
            total_count: stats.total_count(),
            status_stats: st,
            priority_stats: pr,
            due_date_stats: du,
            tag_stats: tg,
            priority_status_matrix: mx,
        }
    }
}


/// Putting a count under a key not yet present: that key reads the count,
/// every other key keeps what it read, and keys stay distinct.
proof fn lemma_put_fresh(s: Seq<(Seq<char>, usize)>, k: Seq<char>, c: nat, other: Seq<char>)
    requires
        keys_distinct(s),
        !has_key(s, k),
        c <= usize::MAX,
    ensures
        keys_distinct(put_if_counted(s, k, c)),
        count_or_zero(put_if_counted(s, k, c), k) == c,
        other != k ==> count_or_zero(put_if_counted(s, k, c), other) == count_or_zero(s, other),
        has_key(put_if_counted(s, k, c), other) ==> has_key(s, other) || other == k,
{
    if c > 0 {
        law_count_read_after_write(s, k, c as usize, other);
        let t = put_count(s, k, c as usize);
        assert(t == s.push((k, c as usize)));
        if has_key(t, other) && other != k {
            let i = choose|i: int| 0 <= i < t.len() && t[i].0 == other;
            assert(s[i].0 == other);
        }
    }
}

/// The position of a (priority, status) pair among the twelve pairs of
/// the summary's matrix, priority by priority from low, status by status
/// from pending.
pub open spec fn pair_index(p: Priority, s: Status) -> int {
    3 * (match p {
        Priority::Low => 0int,
        Priority::Medium => 1,
        Priority::High => 2,
        Priority::Critical => 3,
    }) + (match s {
        Status::Pending => 0int,
        Status::InProgress => 1,
        Status::Completed => 2,
    })
}

/// The summary's matrix key of a pair.
spec fn matrix_key(p: Priority, s: Status) -> Seq<char> {
    priority_key_text(p) + ":"@ + status_text(s)
}

/// Each priority's key in the summary is its own name, lower-cased.
pub proof fn law_priority_key_is_lowercase_name(p: Priority)
    ensures
        priority_key_text(p) == ascii_lower(priority_name(p)),
{
    reveal_strlit("low");
    reveal_strlit("medium");
    reveal_strlit("high");
    reveal_strlit("critical");
    reveal_strlit("Low");
    reveal_strlit("Medium");
    reveal_strlit("High");
    reveal_strlit("Critical");
    assert(priority_key_text(p) =~= ascii_lower(priority_name(p)));
}

proof fn lemma_matrix_key_injective(p1: Priority, s1: Status, p2: Priority, s2: Status)
    requires
        matrix_key(p1, s1) == matrix_key(p2, s2),
    ensures
        p1 == p2,
        s1 == s2,
{
    reveal_strlit("low");
    reveal_strlit("medium");
    reveal_strlit("high");
    reveal_strlit("critical");
    reveal_strlit(":");
    reveal_strlit("pending");
    reveal_strlit("in_progress");
    reveal_strlit("completed");
    let k1 = matrix_key(p1, s1);
    let k2 = matrix_key(p2, s2);
    assert(k1[0] == priority_key_text(p1)[0]);
    assert(k2[0] == priority_key_text(p2)[0]);
    assert(p1 == p2);
    let n = priority_key_text(p1).len() as int;
    assert(k1[n + 1] == status_text(s1)[0]);
    assert(k2[n + 1] == status_text(s2)[0]);
}

/// The pair at position `t` of the matrix order.
proof fn lemma_pair_at(t: int)
    requires
        0 <= t < 12,
    ensures
        pair_index(priority_in_order(t / 3), status_in_order(t % 3)) == t,
{
}

proof fn lemma_matrix_entries(m: TaskStatsModel, n: nat)
    requires
        n <= 12,
        forall|p: Priority, s: Status| #[trigger] count_of(m.priority_status_matrix, (p, s))
            <= usize::MAX,
    ensures
        keys_distinct(matrix_entries_upto(m, n)),
        forall|p: Priority, s: Status|
            #[trigger] count_or_zero(matrix_entries_upto(m, n), matrix_key(p, s)) == (if pair_index(
                p,
                s,
            ) < n {
                count_of(m.priority_status_matrix, (p, s))
            } else {
                0
            }),
        forall|k: Seq<char>|
            #[trigger] has_key(matrix_entries_upto(m, n), k) ==> exists|p: Priority, s: Status|
                pair_index(p, s) < n && k == #[trigger] matrix_key(p, s),
    decreases n,
{
    if n > 0 {
        let prev = matrix_entries_upto(m, (n - 1) as nat);
        lemma_matrix_entries(m, (n - 1) as nat);
        let t = n - 1;
        let p0 = priority_in_order(t / 3);
        let s0 = status_in_order(t % 3);
        lemma_pair_at(t);
        let k0 = matrix_key(p0, s0);
        let c = count_of(m.priority_status_matrix, (p0, s0));
        assert(!has_key(prev, k0)) by {
            if has_key(prev, k0) {
                let (p, s) = choose|p: Priority, s: Status|
                    pair_index(p, s) < n - 1 && k0 == #[trigger] matrix_key(p, s);
                lemma_matrix_key_injective(p, s, p0, s0);
            }
        }
        let cur = matrix_entries_upto(m, n);
        assert(cur == put_if_counted(prev, k0, c));
        lemma_put_fresh(prev, k0, c, k0);
        assert forall|p: Priority, s: Status|
            #[trigger] count_or_zero(cur, matrix_key(p, s)) == (if pair_index(p, s) < n {
                count_of(m.priority_status_matrix, (p, s))
            } else {
                0
            }) by {
            lemma_put_fresh(prev, k0, c, matrix_key(p, s));
            if matrix_key(p, s) == k0 {
                lemma_matrix_key_injective(p, s, p0, s0);
            } else if pair_index(p, s) == t {
                assert(p == p0 && s == s0);
            }
        }
        assert forall|k: Seq<char>| #[trigger] has_key(cur, k) implies exists|p: Priority, s: Status|
            pair_index(p, s) < n && k == #[trigger] matrix_key(p, s) by {
            lemma_put_fresh(prev, k0, c, k);
            if k == k0 {
                assert(pair_index(p0, s0) < n && k == matrix_key(p0, s0));
            }
        }
    }
}


/// A count read off entries of machine-sized counts fits a machine word.
proof fn lemma_count_of_bounded<K>(pairs: Seq<(K, usize)>, k: K)
    ensures
        count_of(pairs, k) <= usize::MAX,
    decreases pairs.len(),
{
    if pairs.len() > 0 {
        lemma_count_of_bounded(pairs.drop_last(), k);
    }
}

/// Four counts put, in turn, under four different keys: each key reads its
/// own count.
proof fn lemma_four_entries(
    k0: Seq<char>,
    k1: Seq<char>,
    k2: Seq<char>,
    k3: Seq<char>,
    c0: nat,
    c1: nat,
    c2: nat,
    c3: nat,
)
    requires
        k0 != k1,
        k0 != k2,
        k0 != k3,
        k1 != k2,
        k1 != k3,
        k2 != k3,
        c0 <= usize::MAX,
        c1 <= usize::MAX,
        c2 <= usize::MAX,
        c3 <= usize::MAX,
    ensures
        ({
            let e = put_if_counted(
                put_if_counted(
                    put_if_counted(put_if_counted(Seq::empty(), k0, c0), k1, c1),
                    k2,
                    c2,
                ),
                k3,
                c3,
            );
            &&& keys_distinct(e)
            &&& count_or_zero(e, k0) == c0
            &&& count_or_zero(e, k1) == c1
            &&& count_or_zero(e, k2) == c2
            &&& count_or_zero(e, k3) == c3
        }),
{
    let e0 = Seq::<(Seq<char>, usize)>::empty();
    let e1 = put_if_counted(e0, k0, c0);
    let e2 = put_if_counted(e1, k1, c1);
    let e3 = put_if_counted(e2, k2, c2);
    assert(!has_key(e0, k0));
    lemma_put_fresh(e0, k0, c0, k1);
    lemma_put_fresh(e0, k0, c0, k2);
    lemma_put_fresh(e0, k0, c0, k3);
    lemma_put_fresh(e1, k1, c1, k0);
    lemma_put_fresh(e1, k1, c1, k2);
    lemma_put_fresh(e1, k1, c1, k3);
    lemma_put_fresh(e2, k2, c2, k0);
    lemma_put_fresh(e2, k2, c2, k1);
    lemma_put_fresh(e2, k2, c2, k3);
    lemma_put_fresh(e3, k3, c3, k0);
    lemma_put_fresh(e3, k3, c3, k1);
    lemma_put_fresh(e3, k3, c3, k2);
}

/// The summary's priority entries: under each priority's lower-cased name
/// stands the number of tasks of that priority.
proof fn lemma_priority_entries(m: TaskStatsModel)
    ensures
        forall|p: Priority|
            #[trigger] count_or_zero(priority_entries(m), ascii_lower(priority_name(p)))
                == count_of(m.priority_stats, p),
{
    reveal_strlit("low");
    reveal_strlit("medium");
    reveal_strlit("high");
    reveal_strlit("critical");
    assert("low"@.len() == 3 && "medium"@.len() == 6 && "high"@.len() == 4 && "critical"@.len() == 8);
    lemma_count_of_bounded(m.priority_stats, Priority::Low);
    lemma_count_of_bounded(m.priority_stats, Priority::Medium);
    lemma_count_of_bounded(m.priority_stats, Priority::High);
    lemma_count_of_bounded(m.priority_stats, Priority::Critical);
    lemma_four_entries(
        "low"@,
        "medium"@,
        "high"@,
        "critical"@,
        count_of(m.priority_stats, Priority::Low),
        count_of(m.priority_stats, Priority::Medium),
        count_of(m.priority_stats, Priority::High),
        count_of(m.priority_stats, Priority::Critical),
    );
    assert forall|p: Priority|
        #[trigger] count_or_zero(priority_entries(m), ascii_lower(priority_name(p)))
            == count_of(m.priority_stats, p) by {
        law_priority_key_is_lowercase_name(p);
    }
}

/// The summary's due-date entries: "overdue", "due_today", "due_this_week"
/// and "no_due_date" read the counts of those classes.
proof fn lemma_due_entries(m: TaskStatsModel)
    ensures
        count_or_zero(due_entries(m), "overdue"@) == count_of(
            m.due_date_stats,
            DueDateStatus::Overdue,
        ),
        count_or_zero(due_entries(m), "due_today"@) == count_of(
            m.due_date_stats,
            DueDateStatus::DueToday,
        ),
        count_or_zero(due_entries(m), "due_this_week"@) == count_of(
            m.due_date_stats,
            DueDateStatus::DueThisWeek,
        ),
        count_or_zero(due_entries(m), "no_due_date"@) == count_of(
            m.due_date_stats,
            DueDateStatus::NoDueDate,
        ),
{
    reveal_strlit("overdue");
    reveal_strlit("due_today");
    reveal_strlit("due_this_week");
    reveal_strlit("no_due_date");
    assert("overdue"@.len() == 7 && "due_today"@.len() == 9 && "due_this_week"@.len() == 13
        && "no_due_date"@.len() == 11);
    lemma_count_of_bounded(m.due_date_stats, DueDateStatus::Overdue);
    lemma_count_of_bounded(m.due_date_stats, DueDateStatus::DueToday);
    lemma_count_of_bounded(m.due_date_stats, DueDateStatus::DueThisWeek);
    lemma_count_of_bounded(m.due_date_stats, DueDateStatus::NoDueDate);
    lemma_four_entries(
        "overdue"@,
        "due_today"@,
        "due_this_week"@,
        "no_due_date"@,
        count_of(m.due_date_stats, DueDateStatus::Overdue),
        count_of(m.due_date_stats, DueDateStatus::DueToday),
        count_of(m.due_date_stats, DueDateStatus::DueThisWeek),
        count_of(m.due_date_stats, DueDateStatus::NoDueDate),
    );
}

/// The summary's matrix: under "name:status", the priority's lower-cased
/// name and the status key, stands the number of tasks of that priority in
/// that status.
proof fn lemma_matrix_by_name(m: TaskStatsModel)
    ensures
        forall|p: Priority, s: Status|
            #[trigger] count_or_zero(
                matrix_entries_upto(m, 12),
                ascii_lower(priority_name(p)) + ":"@ + status_text(s),
            ) == count_of(m.priority_status_matrix, (p, s)),
{
    assert forall|p: Priority, s: Status|
        #[trigger] count_of(m.priority_status_matrix, (p, s)) <= usize::MAX by {
        lemma_count_of_bounded(m.priority_status_matrix, (p, s));
    }
    lemma_matrix_entries(m, 12);
    assert forall|p: Priority, s: Status|
        #[trigger] count_or_zero(
            matrix_entries_upto(m, 12),
            ascii_lower(priority_name(p)) + ":"@ + status_text(s),
        ) == count_of(m.priority_status_matrix, (p, s)) by {
        law_priority_key_is_lowercase_name(p);
        assert(count_or_zero(matrix_entries_upto(m, 12), matrix_key(p, s)) == count_of(
            m.priority_status_matrix,
            (p, s),
        ));
    }
}


/// The summary of the statistics of a list of tasks on a day counts those
/// tasks: under each priority's lower-cased name stands the number of tasks
/// of that priority; under "pending", "in_progress" and "completed" the
/// number of tasks in that status; under a priority's name, ':' and a
/// status key, the number of tasks of that priority in that status; under
/// "overdue", "due_today", "due_this_week" and "no_due_date" the number of
/// open tasks due before the day, on it, one to seven days after it, and
/// without a due date.
pub proof fn law_summary_counts_tasks(st: TaskStatsModel, ms: Seq<TaskModel>, today: int)
    requires
        stats_of(st, ms, today),
    ensures
        forall|p: Priority|
            #[trigger] count_or_zero(priority_entries(st), ascii_lower(priority_name(p)))
                == count_priority(ms, p),
        forall|p: Priority, s: Status|
            #[trigger] count_or_zero(
                matrix_entries_upto(st, 12),
                ascii_lower(priority_name(p)) + ":"@ + status_text(s),
            ) == count_pair(ms, p, s),
        count_or_zero(status_entries(st), "pending"@) == count_status(ms, Status::Pending),
        count_or_zero(status_entries(st), "in_progress"@) == count_status(ms, Status::InProgress),
        count_or_zero(status_entries(st), "completed"@) == count_status(ms, Status::Completed),
        count_or_zero(due_entries(st), "overdue"@) == count_due(ms, today, DueDateStatus::Overdue),
        count_or_zero(due_entries(st), "due_today"@) == count_due(
            ms,
            today,
            DueDateStatus::DueToday,
        ),
        count_or_zero(due_entries(st), "due_this_week"@) == count_due(
            ms,
            today,
            DueDateStatus::DueThisWeek,
        ),
        count_or_zero(due_entries(st), "no_due_date"@) == count_due(
            ms,
            today,
            DueDateStatus::NoDueDate,
        ),
{
    lemma_priority_entries(st);
    lemma_due_entries(st);
    lemma_status_entries(st);
    lemma_matrix_by_name(st);
    assert(count_of(st.status_stats, Status::Pending) == count_status(ms, Status::Pending));
    assert(count_of(st.status_stats, Status::InProgress) == count_status(ms, Status::InProgress));
    assert(count_of(st.status_stats, Status::Completed) == count_status(ms, Status::Completed));
    assert(count_of(st.due_date_stats, DueDateStatus::Overdue) == count_due(ms, today, DueDateStatus::Overdue));
    assert(count_of(st.due_date_stats, DueDateStatus::DueToday) == count_due(ms, today, DueDateStatus::DueToday));
    assert(count_of(st.due_date_stats, DueDateStatus::DueThisWeek) == count_due(ms, today, DueDateStatus::DueThisWeek));
    assert(count_of(st.due_date_stats, DueDateStatus::NoDueDate) == count_due(ms, today, DueDateStatus::NoDueDate));
    assert forall|p: Priority|
        #[trigger] count_or_zero(priority_entries(st), ascii_lower(priority_name(p)))
            == count_priority(ms, p) by {
        assert(count_of(st.priority_stats, p) == count_priority(ms, p));
    }
    assert forall|p: Priority, s: Status|
        #[trigger] count_or_zero(
            matrix_entries_upto(st, 12),
            ascii_lower(priority_name(p)) + ":"@ + status_text(s),
        ) == count_pair(ms, p, s) by {
        assert(count_of(st.priority_status_matrix, (p, s)) == count_pair(ms, p, s));
    }
}


/// The summary's status entries: "pending", "in_progress" and "completed"
/// read the counts of those statuses.
proof fn lemma_status_entries(m: TaskStatsModel)
    ensures
        count_or_zero(status_entries(m), "pending"@) == count_of(m.status_stats, Status::Pending),
        count_or_zero(status_entries(m), "in_progress"@) == count_of(
            m.status_stats,
            Status::InProgress,
        ),
        count_or_zero(status_entries(m), "completed"@) == count_of(
            m.status_stats,
            Status::Completed,
        ),
{
    reveal_strlit("pending");
    reveal_strlit("in_progress");
    reveal_strlit("completed");
    assert("pending"@.len() == 7 && "in_progress"@.len() == 11 && "completed"@.len() == 9);
    let k0 = "pending"@;
    let k1 = "in_progress"@;
    let k2 = "completed"@;
    let c0 = count_of(m.status_stats, Status::Pending);
    let c1 = count_of(m.status_stats, Status::InProgress);
    let c2 = count_of(m.status_stats, Status::Completed);
    lemma_count_of_bounded(m.status_stats, Status::Pending);
    lemma_count_of_bounded(m.status_stats, Status::InProgress);
    lemma_count_of_bounded(m.status_stats, Status::Completed);
    let e0 = Seq::<(Seq<char>, usize)>::empty();
    let e1 = put_if_counted(e0, k0, c0);
    let e2 = put_if_counted(e1, k1, c1);
    assert(!has_key(e0, k0));
    lemma_put_fresh(e0, k0, c0, k1);
    lemma_put_fresh(e0, k0, c0, k2);
    lemma_put_fresh(e1, k1, c1, k0);
    lemma_put_fresh(e1, k1, c1, k2);
    lemma_put_fresh(e2, k2, c2, k0);
    lemma_put_fresh(e2, k2, c2, k1);
}

} // verus!
