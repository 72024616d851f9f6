use vstd::prelude::*;

use crate::domain::aggregate::{TaskAggregate, TaskModel};
use crate::domain::stats::{
    bump_count, count_of, keys_distinct, nonzero_entries, TaskStats, TaskStatsModel,
};
use crate::domain::tag::TagId;
use crate::domain::date::{day_number_of, CalendarDate};
use crate::domain::task::{DueDateStatus, Priority, Status};

verus! {

/// What the tasks hold, in order.
pub open spec fn models(tasks: Seq<TaskAggregate>) -> Seq<TaskModel> {
    tasks.map_values(|t: TaskAggregate| t@)
}

/// The number of tasks in status `s`.
pub open spec fn count_status(ms: Seq<TaskModel>, s: Status) -> nat
    decreases ms.len(),
{
    if ms.len() == 0 {
        0
    } else {
        count_status(ms.drop_last(), s) + if ms.last().status == s {
            1nat
        } else {
            0nat
        }
    }
}

/// The number of tasks of priority `p`.
pub open spec fn count_priority(ms: Seq<TaskModel>, p: Priority) -> nat
    decreases ms.len(),
{
    if ms.len() == 0 {
        0
    } else {
        count_priority(ms.drop_last(), p) + if ms.last().priority == p {
            1nat
        } else {
            0nat
        }
    }
}

/// The number of tasks of priority `p` in status `s`.
pub open spec fn count_pair(ms: Seq<TaskModel>, p: Priority, s: Status) -> nat
    decreases ms.len(),
{
    if ms.len() == 0 {
        0
    } else {
        count_pair(ms.drop_last(), p, s) + if ms.last().priority == p && ms.last().status == s {
            1nat
        } else {
            0nat
        }
    }
}

/// Where a task stands with respect to its due date on the day numbered
/// `today`: completed tasks, and tasks due more than a week later, count
/// under none.
pub open spec fn due_class(m: TaskModel, today: int) -> Option<DueDateStatus> {
    if m.status == Status::Completed {
        None
    } else {
        match m.due_date {
            None => Some(DueDateStatus::NoDueDate),
            Some(d) => if d@ < today {
                Some(DueDateStatus::Overdue)
            } else if d@ == today {
                Some(DueDateStatus::DueToday)
            } else if d@ <= today + 7 {
                Some(DueDateStatus::DueThisWeek)
            } else {
                None
            },
        }
    }
}

/// The number of tasks in due-date status `c` on the day numbered `today`.
pub open spec fn count_due(ms: Seq<TaskModel>, today: int, c: DueDateStatus) -> nat
    decreases ms.len(),
{
    if ms.len() == 0 {
        0
    } else {
        count_due(ms.drop_last(), today, c) + if due_class(ms.last(), today) == Some(c) {
            1nat
        } else {
            0nat
        }
    }
}

/// The number of times `t` occurs in `tags`.
pub open spec fn occurrences(tags: Seq<TagId>, t: TagId) -> nat
    decreases tags.len(),
{
    if tags.len() == 0 {
        0
    } else {
        occurrences(tags.drop_last(), t) + if tags.last() == t {
            1nat
        } else {
            0nat
        }
    }
}

/// What one task adds to the tag count of key `q`: one for `None` when it
/// has no tag; the occurrences of the tag for `Some(t)`.
pub open spec fn task_tag_count(m: TaskModel, q: Option<TagId>) -> nat {
    match q {
        None => if m.tags.len() == 0 {
            1nat
        } else {
            0nat
        },
        Some(t) => occurrences(m.tags, t),
    }
}

/// The tag count of key `q` over all tasks.
pub open spec fn count_tag(ms: Seq<TaskModel>, q: Option<TagId>) -> nat
    decreases ms.len(),
{
    if ms.len() == 0 {
        0
    } else {
        count_tag(ms.drop_last(), q) + task_tag_count(ms.last(), q)
    }
}

/// The number of tag occurrences over all tasks.
pub open spec fn total_tags(ms: Seq<TaskModel>) -> nat
    decreases ms.len(),
{
    if ms.len() == 0 {
        0
    } else {
        total_tags(ms.drop_last()) + ms.last().tags.len()
    }
}

/// Statistics `st` are those of the tasks `ms` on the day numbered `today`.
pub open spec fn stats_of(st: TaskStatsModel, ms: Seq<TaskModel>, today: int) -> bool {
    &&& st.total_count == ms.len()
    &&& forall|s: Status| #[trigger] count_of(st.status_stats, s) == count_status(ms, s)
    &&& forall|p: Priority| #[trigger] count_of(st.priority_stats, p) == count_priority(ms, p)
    &&& forall|c: DueDateStatus| #[trigger] count_of(st.due_date_stats, c) == count_due(ms, today, c)
    &&& forall|p: Priority, s: Status|
        #[trigger] count_of(st.priority_status_matrix, (p, s)) == count_pair(ms, p, s)
    &&& forall|q: Option<TagId>| #[trigger] count_of(st.tag_stats, q) == count_tag(ms, q)
}

/// The status at position `j` of the order pending, in progress, completed.
pub open spec fn status_at(j: int) -> Status {
    if j == 0 {
        Status::Pending
    } else if j == 1 {
        Status::InProgress
    } else {
        Status::Completed
    }
}

/// The priority at position `j` of the order low, medium, high, critical.
pub open spec fn priority_at(j: int) -> Priority {
    if j == 0 {
        Priority::Low
    } else if j == 1 {
        Priority::Medium
    } else if j == 2 {
        Priority::High
    } else {
        Priority::Critical
    }
}

/// The due-date class at position `j` of the order overdue, due today, due this week, no due date.
pub open spec fn due_at(j: int) -> DueDateStatus {
    if j == 0 {
        DueDateStatus::Overdue
    } else if j == 1 {
        DueDateStatus::DueToday
    } else if j == 2 {
        DueDateStatus::DueThisWeek
    } else {
        DueDateStatus::NoDueDate
    }
}

/// The (priority, status) pair at position `j` of the priority-major order.
pub open spec fn pair_at(j: int) -> (Priority, Status) {
    (priority_at(j / 3), status_at(j % 3))
}

fn status_index(s: Status) -> (r: usize)
    ensures
        r < 3,
        status_at(r as int) == s,
{
    match s {
        Status::Pending => 0,
        Status::InProgress => 1,
        Status::Completed => 2,
    }
}

fn priority_index(p: Priority) -> (r: usize)
    ensures
        r < 4,
        priority_at(r as int) == p,
{
    match p {
        Priority::Low => 0,
        Priority::Medium => 1,
        Priority::High => 2,
        Priority::Critical => 3,
    }
}

fn due_index(c: DueDateStatus) -> (r: usize)
    ensures
        r < 4,
        due_at(r as int) == c,
{
    match c {
        DueDateStatus::Overdue => 0,
        DueDateStatus::DueToday => 1,
        DueDateStatus::DueThisWeek => 2,
        DueDateStatus::NoDueDate => 3,
    }
}

fn due_class_of(task: &TaskAggregate, today: i32) -> (r: Option<DueDateStatus>)
    ensures
        r == due_class(task@, today as int),
{
    if *task.status() == Status::Completed {
        return None;
    }
    match task.due_date() {
        None => Some(DueDateStatus::NoDueDate),
        Some(d) => {
            let day = d.day();
            if day < today {
                Some(DueDateStatus::Overdue)
            } else if day == today {
                Some(DueDateStatus::DueToday)
            } else if (day as i64) <= (today as i64) + 7 {
                Some(DueDateStatus::DueThisWeek)
            } else {
                None
            }
        },
    }
}

fn zeros(n: usize) -> (r: Vec<usize>)
    ensures
        r@.len() == n,
        forall|j: int| 0 <= j < n ==> r@[j] == 0,
{
    let mut v: Vec<usize> = Vec::new();
    while v.len() < n
        invariant
            v@.len() <= n,
            forall|j: int| 0 <= j < v@.len() ==> v@[j] == 0,
        decreases n - v@.len(),
    {
        v.push(0);
    }
    v
}

proof fn lemma_occurrences_bound(tags: Seq<TagId>, t: TagId)
    ensures
        occurrences(tags, t) <= tags.len(),
    decreases tags.len(),
{
    if tags.len() > 0 {
        lemma_occurrences_bound(tags.drop_last(), t);
    }
}

proof fn lemma_count_tag_bound(ms: Seq<TaskModel>, q: Option<TagId>)
    ensures
        count_tag(ms, q) <= total_tags(ms) + ms.len(),
    decreases ms.len(),
{
    if ms.len() > 0 {
        lemma_count_tag_bound(ms.drop_last(), q);
        if let Some(t) = q {
            lemma_occurrences_bound(ms.last().tags, t);
        }
    }
}

proof fn lemma_total_tags_prefix(ms: Seq<TaskModel>, i: int)
    requires
        0 <= i <= ms.len(),
    ensures
        total_tags(ms.take(i)) <= total_tags(ms),
    decreases ms.len() - i,
{
    if i < ms.len() {
        lemma_total_tags_prefix(ms, i + 1);
        assert(ms.take(i + 1).drop_last() == ms.take(i));
    } else {
        assert(ms.take(i) == ms);
    }
}

/// Counts the tag occurrences of one task into `acc`.
fn count_task_tags(
    acc: &mut Vec<(Option<TagId>, usize)>,
    task: &TaskAggregate,
    Ghost(done): Ghost<Seq<TaskModel>>,
    Ghost(bound): Ghost<nat>,
)
    requires
        keys_distinct(old(acc)@),
        forall|q: Option<TagId>| #[trigger] count_of(old(acc)@, q) == count_tag(done, q),
        total_tags(done.push(task@)) + done.len() + 1 <= bound,
        bound <= usize::MAX,
    ensures
        keys_distinct(final(acc)@),
        forall|q: Option<TagId>| #[trigger] count_of(final(acc)@, q) == count_tag(done.push(task@), q),
{
    let tags = task.tags();
    assert(done.push(task@).drop_last() == done);
    if tags.len() == 0 {
        proof {
            lemma_count_tag_bound(done, None);
        }
        bump_count(acc, None);
        return;
    }
    let mut j: usize = 0;
    while j < tags.len()
        invariant
            tags@ == task@.tags,
            tags@.len() > 0,
            j <= tags.len(),
            keys_distinct(acc@),
            done.push(task@).drop_last() == done,
            total_tags(done.push(task@)) + done.len() + 1 <= bound,
            bound <= usize::MAX,
            forall|q: Option<TagId>|
                #[trigger] count_of(acc@, q) == count_tag(done, q) + match q {
                    None => 0nat,
                    Some(t) => occurrences(tags@.take(j as int), t),
                },
        decreases tags.len() - j,
    {
        let t = tags[j];
        assert(tags@.take(j as int + 1).drop_last() == tags@.take(j as int));
        proof {
            lemma_count_tag_bound(done, Some(t));
            lemma_occurrences_bound(tags@.take(j as int), t);
        }
        let ghost before = acc@;
        bump_count(acc, Some(t));
        j += 1;
    }
    assert(tags@.take(tags@.len() as int) == tags@);
}

impl TaskStatisticsService {
    /// Counts the tasks by status, priority, due-date status (on the day
    /// numbered `today`), tag, and priority and status together.
    pub fn calculate_stats_on(tasks: &[TaskAggregate], today: i32) -> (r: TaskStats)
        requires
            total_tags(models(tasks@)) + tasks@.len() + 1 <= usize::MAX,
        ensures
            stats_of(r@, models(tasks@), today as int),
    {
        let ghost ms = models(tasks@);
        let mut sc = zeros(3);
        let mut pc = zeros(4);
        let mut dc = zeros(4);
        let mut mc = zeros(12);
        let mut tc: Vec<(Option<TagId>, usize)> = Vec::new();
        let mut i: usize = 0;
        while i < tasks.len()
            invariant
                ms == models(tasks@),
                ms.len() == tasks@.len(),
                i <= tasks.len(),
                total_tags(ms) + ms.len() + 1 <= usize::MAX,
                sc@.len() == 3,
                pc@.len() == 4,
                dc@.len() == 4,
                mc@.len() == 12,
                forall|j: int| 0 <= j < 3 ==> #[trigger] sc@[j] == count_status(ms.take(i as int), status_at(j)),
                forall|j: int| 0 <= j < 4 ==> #[trigger] pc@[j] == count_priority(ms.take(i as int), priority_at(j)),
                forall|j: int| 0 <= j < 4 ==> #[trigger] dc@[j] == count_due(ms.take(i as int), today as int, due_at(j)),
                forall|j: int| 0 <= j < 12 ==> #[trigger] mc@[j] == count_pair(ms.take(i as int), pair_at(j).0, pair_at(j).1),
                forall|j: int| 0 <= j < 3 ==> sc@[j] <= i,
                forall|j: int| 0 <= j < 4 ==> pc@[j] <= i,
                forall|j: int| 0 <= j < 4 ==> dc@[j] <= i,
                forall|j: int| 0 <= j < 12 ==> mc@[j] <= i,
                keys_distinct(tc@),
                forall|q: Option<TagId>| #[trigger] count_of(tc@, q) == count_tag(ms.take(i as int), q),
            decreases tasks.len() - i,
        {
            let task = &tasks[i];
            let ghost prefix = ms.take(i as int);
            assert(ms.take(i as int + 1) == prefix.push(task@));
            assert(ms.take(i as int + 1).drop_last() == prefix);
            let si = status_index(*task.status());
            let pi = priority_index(*task.priority());
            sc.set(si, sc[si] + 1);
            pc.set(pi, pc[pi] + 1);
            let mi = pi * 3 + si;
            mc.set(mi, mc[mi] + 1);
            match due_class_of(task, today) {
                Some(c) => {
                    let di = due_index(c);
                    dc.set(di, dc[di] + 1);
                },
                None => {},
            }
            proof {
                lemma_total_tags_prefix(ms, i as int + 1);
            }
            count_task_tags(&mut tc, task, Ghost(prefix), Ghost(usize::MAX as nat));
            i += 1;
            proof {
                assert forall|j: int| 0 <= j < 12 implies #[trigger] mc@[j] == count_pair(
                    ms.take(i as int),
                    pair_at(j).0,
                    pair_at(j).1,
                ) by {
                    assert(pair_at(mi as int) == (task@.priority, task@.status));
                    if j != mi {
                        assert(pair_at(j) != pair_at(mi as int)) by {
                            assert(j / 3 != mi / 3 || j % 3 != mi % 3);
                        }
                    }
                }
            }
        }
        assert(ms.take(tasks.len() as int) == ms);
        let status_keys: Vec<Status> = vec![Status::Pending, Status::InProgress, Status::Completed];
        let priority_keys: Vec<Priority> = vec![Priority::Low, Priority::Medium, Priority::High, Priority::Critical];
        let due_keys: Vec<DueDateStatus> = vec![
            DueDateStatus::Overdue,
            DueDateStatus::DueToday,
            DueDateStatus::DueThisWeek,
            DueDateStatus::NoDueDate,
        ];
        let pair_keys: Vec<(Priority, Status)> = vec![
            (Priority::Low, Status::Pending),
            (Priority::Low, Status::InProgress),
            (Priority::Low, Status::Completed),
            (Priority::Medium, Status::Pending),
            (Priority::Medium, Status::InProgress),
            (Priority::Medium, Status::Completed),
            (Priority::High, Status::Pending),
            (Priority::High, Status::InProgress),
            (Priority::High, Status::Completed),
            (Priority::Critical, Status::Pending),
            (Priority::Critical, Status::InProgress),
            (Priority::Critical, Status::Completed),
        ];
        assert(forall|j: int| 0 <= j < 3 ==> status_keys@[j] == status_at(j));
        assert(forall|j: int| 0 <= j < 4 ==> priority_keys@[j] == priority_at(j));
        assert(forall|j: int| 0 <= j < 4 ==> due_keys@[j] == due_at(j));
        assert(forall|j: int| 0 <= j < 12 ==> pair_keys@[j] == pair_at(j));
        let status_stats = nonzero_entries(&status_keys, &sc);
        let priority_stats = nonzero_entries(&priority_keys, &pc);
        let due_date_stats = nonzero_entries(&due_keys, &dc);
        let matrix = nonzero_entries(&pair_keys, &mc);
        let r = TaskStats::new(status_stats, priority_stats, due_date_stats, tc, matrix, tasks.len());
        proof {
            assert forall|s: Status| #[trigger] count_of(r@.status_stats, s) == count_status(ms, s) by {
                let j = if s == Status::Pending { 0int } else if s == Status::InProgress { 1int } else { 2int };
                assert(status_keys@[j] == s);
            }
            assert forall|p: Priority| #[trigger] count_of(r@.priority_stats, p) == count_priority(ms, p) by {
                let j = if p == Priority::Low { 0int } else if p == Priority::Medium { 1int } else if p == Priority::High { 2int } else { 3int };
                assert(priority_keys@[j] == p);
            }
            assert forall|c: DueDateStatus| #[trigger] count_of(r@.due_date_stats, c) == count_due(ms, today as int, c) by {
                let j = if c == DueDateStatus::Overdue { 0int } else if c == DueDateStatus::DueToday { 1int } else if c == DueDateStatus::DueThisWeek { 2int } else { 3int };
                assert(due_keys@[j] == c);
            }
            assert forall|p: Priority, s: Status| #[trigger] count_of(r@.priority_status_matrix, (p, s)) == count_pair(ms, p, s) by {
                let a = if p == Priority::Low { 0int } else if p == Priority::Medium { 1int } else if p == Priority::High { 2int } else { 3int };
                let b = if s == Status::Pending { 0int } else if s == Status::InProgress { 1int } else { 2int };
                assert(pair_keys@[a * 3 + b] == (p, s));
            }
        }
        r
    }

    /// Counts the tasks as `calculate_stats_on` does, with the day number of
    /// `today` as the reference day.
    pub fn calculate_stats(tasks: &[TaskAggregate], today: CalendarDate) -> (r: TaskStats)
        requires
            total_tags(models(tasks@)) + tasks@.len() + 1 <= usize::MAX,
        ensures
            stats_of(r@, models(tasks@), day_number_of(today@)),
    {
        let d = today.day_number();
        TaskStatisticsService::calculate_stats_on(tasks, d)
    }
}

/// Whether counting `tasks` fits in `usize`: their tag occurrences and the
/// tasks themselves, with room for one more.
pub fn stats_counts_fit(tasks: &[TaskAggregate]) -> (r: bool)
    ensures
        r == (total_tags(models(tasks@)) + tasks@.len() + 1 <= usize::MAX),
{
    let ghost ms = models(tasks@);
    let mut acc: u128 = 0;
    let mut i: usize = 0;
    while i < tasks.len()
        invariant
            i <= tasks.len(),
            ms == models(tasks@),
            acc == total_tags(ms.take(i as int)),
            acc <= usize::MAX,
        decreases tasks.len() - i,
    {
        assert(ms.take(i + 1).drop_last() =~= ms.take(i as int));
        assert(ms.take(i + 1).last() == tasks@[i as int]@);
        acc = acc + tasks[i].tags().len() as u128;
        if acc > usize::MAX as u128 {
            proof {
                lemma_total_tags_prefix(ms, i + 1);
            }
            return false;
        }
        i += 1;
    }
    assert(ms.take(tasks.len() as int) =~= ms);
    acc + tasks.len() as u128 + 1 <= usize::MAX as u128
}

/// The domain service that computes task statistics; it holds no state.
pub struct TaskStatisticsService;

} // verus!

verus! {

/// Every task is counted under exactly one status: the status counts add up
/// to the number of tasks.
pub proof fn law_status_counts_add_up(ms: Seq<TaskModel>)
    ensures
        count_status(ms, Status::Pending) + count_status(ms, Status::InProgress) + count_status(
            ms,
            Status::Completed,
        ) == ms.len(),
    decreases ms.len(),
{
    if ms.len() > 0 {
        law_status_counts_add_up(ms.drop_last());
    }
}

/// Every task is counted under exactly one priority: the priority counts add
/// up to the number of tasks.
pub proof fn law_priority_counts_add_up(ms: Seq<TaskModel>)
    ensures
        count_priority(ms, Priority::Low) + count_priority(ms, Priority::Medium) + count_priority(
            ms,
            Priority::High,
        ) + count_priority(ms, Priority::Critical) == ms.len(),
    decreases ms.len(),
{
    if ms.len() > 0 {
        law_priority_counts_add_up(ms.drop_last());
    }
}

/// A row of the priority-by-status table adds up to the count of its priority.
pub proof fn law_matrix_row_adds_up(ms: Seq<TaskModel>, p: Priority)
    ensures
        count_pair(ms, p, Status::Pending) + count_pair(ms, p, Status::InProgress) + count_pair(
            ms,
            p,
            Status::Completed,
        ) == count_priority(ms, p),
    decreases ms.len(),
{
    if ms.len() > 0 {
        law_matrix_row_adds_up(ms.drop_last(), p);
    }
}

/// A column of the priority-by-status table adds up to the count of its status.
pub proof fn law_matrix_column_adds_up(ms: Seq<TaskModel>, s: Status)
    ensures
        count_pair(ms, Priority::Low, s) + count_pair(ms, Priority::Medium, s) + count_pair(
            ms,
            Priority::High,
            s,
        ) + count_pair(ms, Priority::Critical, s) == count_status(ms, s),
    decreases ms.len(),
{
    if ms.len() > 0 {
        law_matrix_column_adds_up(ms.drop_last(), s);
    }
}

/// Completed tasks are not counted by due date, and no task is counted
/// twice: the due-date counts add up to at most the number of tasks that
/// are not completed.
pub proof fn law_due_counts_within_open_tasks(ms: Seq<TaskModel>, today: int)
    ensures
        count_due(ms, today, DueDateStatus::Overdue) + count_due(ms, today, DueDateStatus::DueToday)
            + count_due(ms, today, DueDateStatus::DueThisWeek) + count_due(
            ms,
            today,
            DueDateStatus::NoDueDate,
        ) + count_status(ms, Status::Completed) <= ms.len(),
    decreases ms.len(),
{
    if ms.len() > 0 {
        law_due_counts_within_open_tasks(ms.drop_last(), today);
    }
}

/// The tasks without a tag are counted under `None`.
pub proof fn law_untagged_count(ms: Seq<TaskModel>)
    ensures
        count_tag(ms, None) + count_tagged(ms) == ms.len(),
    decreases ms.len(),
{
    if ms.len() > 0 {
        law_untagged_count(ms.drop_last());
    }
}

/// Statistics of a list with one completed task added: where `st` and
/// `st2` are what `TaskStatisticsService::calculate_stats` (or
/// `calculate_stats_on`) gives for `tasks` and for `tasks` followed by `t`
/// on the same day, the total, the completed count and the count of `t`'s
/// priority rise by one, and every due-date count stays as it was.
pub proof fn law_calculate_stats_add_completed_task(
    tasks: Seq<TaskAggregate>,
    t: TaskAggregate,
    st: TaskStatsModel,
    st2: TaskStatsModel,
    today: int,
)
    requires
        t@.status == Status::Completed,
        stats_of(st, models(tasks), today),
        stats_of(st2, models(tasks.push(t)), today),
    ensures
        st2.total_count == st.total_count + 1,
        count_of(st2.status_stats, Status::Completed) == count_of(st.status_stats, Status::Completed)
            + 1,
        count_of(st2.priority_stats, t@.priority) == count_of(st.priority_stats, t@.priority) + 1,
        forall|c: DueDateStatus| #[trigger] count_of(st2.due_date_stats, c) == count_of(
            st.due_date_stats,
            c,
        ),
{
    let ms = models(tasks);
    assert(models(tasks.push(t)) =~= ms.push(t@));
    assert(ms.push(t@).drop_last() =~= ms);
    assert(count_of(st2.status_stats, Status::Completed) == count_status(ms.push(t@), Status::Completed));
    assert(count_of(st.status_stats, Status::Completed) == count_status(ms, Status::Completed));
    assert(count_of(st2.priority_stats, t@.priority) == count_priority(ms.push(t@), t@.priority));
    assert(count_of(st.priority_stats, t@.priority) == count_priority(ms, t@.priority));
    assert forall|c: DueDateStatus| #[trigger] count_of(st2.due_date_stats, c) == count_of(
        st.due_date_stats,
        c,
    ) by {
        assert(count_of(st2.due_date_stats, c) == count_due(ms.push(t@), today, c));
        assert(count_of(st.due_date_stats, c) == count_due(ms, today, c));
    }
}

/// The number of tasks with at least one tag.
pub open spec fn count_tagged(ms: Seq<TaskModel>) -> nat
    decreases ms.len(),
{
    if ms.len() == 0 {
        0
    } else {
        count_tagged(ms.drop_last()) + if ms.last().tags.len() > 0 {
            1nat
        } else {
            0nat
        }
    }
}

} // verus!
