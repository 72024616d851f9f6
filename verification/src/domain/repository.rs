use vstd::prelude::*;

use crate::domain::aggregate::{TaskAggregate, TaskModel};
use crate::domain::clock::today_day_number;
use crate::domain::specification::{holds_on, TaskByTag, TaskSpecification};
use crate::domain::tag::TagId;
use crate::domain::task::TaskId;
use crate::error::DomainError;

verus! {

/// A task as a repository keeps it: without pending domain events.
pub open spec fn stored(m: TaskModel) -> TaskModel {
    TaskModel { events: Seq::empty(), ..m }
}

/// No two tasks share an ID.
pub open spec fn task_ids_distinct(ts: Seq<TaskModel>) -> bool {
    forall|a: int, b: int| 0 <= a < b < ts.len() ==> ts[a].id != ts[b].id
}

/// Whether some task has the ID `id`.
pub open spec fn has_task(ts: Seq<TaskModel>, id: TaskId) -> bool {
    exists|i: int| 0 <= i < ts.len() && ts[i].id == id
}

/// The position of the task with the ID `id` (meaningful when there is one).
pub open spec fn task_index(ts: Seq<TaskModel>, id: TaskId) -> int {
    choose|i: int| 0 <= i < ts.len() && ts[i].id == id
}

/// The task with the ID `id`, if any.
pub open spec fn find_task(ts: Seq<TaskModel>, id: TaskId) -> Option<TaskModel> {
    if has_task(ts, id) {
        Some(ts[task_index(ts, id)])
    } else {
        None
    }
}

/// The tasks once `m` is stored: it replaces the task with its ID, or is
/// added at the end when there is none.
pub open spec fn put_task(ts: Seq<TaskModel>, m: TaskModel) -> Seq<TaskModel> {
    if has_task(ts, m.id) {
        ts.update(task_index(ts, m.id), stored(m))
    } else {
        ts.push(stored(m))
    }
}

/// The tasks once the task with the ID `id` is taken out.
pub open spec fn drop_task(ts: Seq<TaskModel>, id: TaskId) -> Seq<TaskModel> {
    if has_task(ts, id) {
        ts.remove(task_index(ts, id))
    } else {
        ts
    }
}

/// Storing a task keeps the IDs distinct.
pub proof fn lemma_put_task_distinct(ts: Seq<TaskModel>, m: TaskModel)
    requires
        task_ids_distinct(ts),
    ensures
        task_ids_distinct(put_task(ts, m)),
{
    if has_task(ts, m.id) {
        let k = task_index(ts, m.id);
        assert forall|a: int, b: int| 0 <= a < b < put_task(ts, m).len() implies put_task(
            ts,
            m,
        )[a].id != put_task(ts, m)[b].id by {
            if a != k && b != k {
                assert(ts[a].id != ts[b].id);
            } else if a == k {
                assert(ts[b].id != ts[k].id);
            } else {
                assert(ts[a].id != ts[k].id);
            }
        }
    } else {
        assert forall|a: int, b: int| 0 <= a < b < put_task(ts, m).len() implies put_task(
            ts,
            m,
        )[a].id != put_task(ts, m)[b].id by {
            if b < ts.len() {
                assert(ts[a].id != ts[b].id);
            } else {
                assert(ts[a].id != m.id);
            }
        }
    }
}

/// Taking out a task keeps the IDs distinct.
pub proof fn lemma_drop_task_distinct(ts: Seq<TaskModel>, id: TaskId)
    requires
        task_ids_distinct(ts),
    ensures
        task_ids_distinct(drop_task(ts, id)),
{
    if has_task(ts, id) {
        let k = task_index(ts, id);
        let r = ts.remove(k);
        assert forall|a: int, b: int| 0 <= a < b < r.len() implies r[a].id != r[b].id by {
            let a2 = if a < k { a } else { a + 1 };
            let b2 = if b < k { b } else { b + 1 };
            assert(r[a] == ts[a2]);
            assert(r[b] == ts[b2]);
            assert(ts[a2].id != ts[b2].id);
        }
    }
}

/// A read after a write gives back what was written: once a task is stored,
/// looking up its ID finds it (without pending events).
pub proof fn law_find_after_put(ts: Seq<TaskModel>, m: TaskModel)
    requires
        task_ids_distinct(ts),
    ensures
        find_task(put_task(ts, m), m.id) == Some(stored(m)),
{
    let r = put_task(ts, m);
    lemma_put_task_distinct(ts, m);
    let k = if has_task(ts, m.id) { task_index(ts, m.id) } else { ts.len() as int };
    assert(r[k] == stored(m));
    assert(has_task(r, m.id));
    let j = task_index(r, m.id);
    if j != k {
        assert(r[j].id != r[k].id);
    }
}

/// Storing a task leaves the other tasks as they were.
pub proof fn law_put_keeps_others(ts: Seq<TaskModel>, m: TaskModel, id: TaskId)
    requires
        task_ids_distinct(ts),
        id != m.id,
    ensures
        find_task(put_task(ts, m), id) == find_task(ts, id),
{
    let r = put_task(ts, m);
    lemma_put_task_distinct(ts, m);
    if has_task(ts, id) {
        let i = task_index(ts, id);
        assert(r[i] == ts[i]) by {
            if has_task(ts, m.id) {
                assert(ts[task_index(ts, m.id)].id != ts[i].id);
            }
        }
        let j = task_index(r, id);
        if j != i {
            assert(r[j].id != r[i].id);
        }
    } else {
        if has_task(r, id) {
            let j = task_index(r, id);
            if has_task(ts, m.id) {
                assert(ts[j].id == id);
            } else {
                assert(j < ts.len());
                assert(ts[j].id == id);
            }
        }
    }
}

/// A task taken out is no longer found.
pub proof fn law_find_after_drop(ts: Seq<TaskModel>, id: TaskId)
    requires
        task_ids_distinct(ts),
    ensures
        find_task(drop_task(ts, id), id) is None,
{
    let r = drop_task(ts, id);
    if has_task(ts, id) {
        let k = task_index(ts, id);
        if has_task(r, id) {
            let j = task_index(r, id);
            let j2 = if j < k { j } else { j + 1 };
            assert(r[j] == ts[j2]);
            assert(ts[j2].id != ts[k].id);
        }
    }
}

/// The stored tasks that meet `spec` on day `today`, in order, as stored.
pub open spec fn satisfying(ts: Seq<TaskModel>, spec: TaskSpecification, today: int) -> Seq<
    TaskModel,
> {
    ts.filter(|m: TaskModel| holds_on(spec, m, today)).map_values(|m: TaskModel| stored(m))
}

/// The tasks once each of `ms` is stored in turn.
pub open spec fn put_all_tasks(ts: Seq<TaskModel>, ms: Seq<TaskModel>) -> Seq<TaskModel>
    decreases ms.len(),
{
    if ms.len() == 0 {
        ts
    } else {
        put_task(put_all_tasks(ts, ms.drop_last()), ms.last())
    }
}

/// The largest task ID among `ms`, or 0 when there are none.
pub open spec fn max_task_id(ms: Seq<TaskModel>) -> int
    decreases ms.len(),
{
    if ms.len() == 0 {
        0
    } else {
        let m = max_task_id(ms.drop_last());
        if ms.last().id@ > m {
            ms.last().id@ as int
        } else {
            m
        }
    }
}

/// The largest ID of a longer prefix is at least that of a shorter one.
proof fn lemma_max_task_id_grows(ms: Seq<TaskModel>, i: int, n: int)
    requires
        0 <= i <= n <= ms.len(),
    ensures
        max_task_id(ms.take(n)) >= max_task_id(ms.take(i)),
    decreases n - i,
{
    if i < n {
        lemma_max_task_id_grows(ms, i, n - 1);
        assert(ms.take(n).drop_last() =~= ms.take(n - 1));
    }
}

/// Storing a task as stored or as it is comes to the same.
proof fn lemma_put_task_stored(ts: Seq<TaskModel>, m: TaskModel)
    ensures
        put_task(ts, stored(m)) == put_task(ts, m),
{
    assert(stored(stored(m)) == stored(m));
}

/// What an in-memory task repository holds.
pub struct TaskStore {
    pub tasks: Seq<TaskModel>,
    pub next_id: i32,
}

/// How many of the tasks carry tag `id`.
pub open spec fn tasks_with_tag(ts: Seq<TaskModel>, id: TagId) -> nat
    decreases ts.len(),
{
    if ts.len() == 0 {
        0
    } else {
        tasks_with_tag(ts.drop_last(), id) + (if ts.last().tags.contains(id) {
            1nat
        } else {
            0nat
        })
    }
}

/// Whether a task carries tag `id`, anywhere in its tag list.
pub open spec fn carries_tag(id: TagId) -> spec_fn(TaskModel) -> bool {
    |m: TaskModel| m.tags.contains(id)
}

/// The usage count of a tag is the number of tasks whose tag lists hold it,
/// at any position; it is positive exactly when some task carries the tag.
pub proof fn law_tag_usage_counts_carriers(ts: Seq<TaskModel>, id: TagId)
    ensures
        tasks_with_tag(ts, id) == ts.filter(carries_tag(id)).len(),
        tasks_with_tag(ts, id) > 0 <==> exists|i: int|
            0 <= i < ts.len() && (#[trigger] ts[i]).tags.contains(id),
    decreases ts.len(),
{
    reveal(Seq::filter);
    if ts.len() > 0 {
        let rest = ts.drop_last();
        law_tag_usage_counts_carriers(rest, id);
        if exists|i: int| 0 <= i < rest.len() && (#[trigger] rest[i]).tags.contains(id) {
            let i = choose|i: int| 0 <= i < rest.len() && (#[trigger] rest[i]).tags.contains(id);
            assert(ts[i] == rest[i]);
        }
        if exists|i: int| 0 <= i < ts.len() && (#[trigger] ts[i]).tags.contains(id) {
            let i = choose|i: int| 0 <= i < ts.len() && (#[trigger] ts[i]).tags.contains(id);
            if i < ts.len() - 1 {
                assert(rest[i] == ts[i]);
            }
        }
    }
}

proof fn lemma_tasks_with_tag_bound(ts: Seq<TaskModel>, id: TagId)
    ensures
        tasks_with_tag(ts, id) <= ts.len(),
    decreases ts.len(),
{
    if ts.len() > 0 {
        lemma_tasks_with_tag_bound(ts.drop_last(), id);
    }
}

/// A task repository that keeps the tasks in memory, in the order they
/// were first stored. New tasks (ID 0) get the IDs 1, 2, 3, ... in turn.
#[derive(Debug)]
pub struct InMemoryTaskRepository {
    tasks: Vec<TaskAggregate>,
    next_id: i32,
}

impl View for InMemoryTaskRepository {
    type V = TaskStore;

    closed spec fn view(&self) -> TaskStore {
        TaskStore { tasks: self.tasks@.map_values(|t: TaskAggregate| t@), next_id: self.next_id }
    }
}

impl InMemoryTaskRepository {
    /// The repository's own consistency: no two tasks share an ID, and the
    /// next ID is positive.
    pub open spec fn wf(&self) -> bool {
        &&& task_ids_distinct(self@.tasks)
        &&& self@.next_id >= 1
    }

    /// An empty repository whose first new task gets ID 1.
    pub fn new() -> (r: InMemoryTaskRepository)
        ensures
            r.wf(),
            r@.tasks == Seq::<TaskModel>::empty(),
            r@.next_id == 1,
    {
        let r = InMemoryTaskRepository { tasks: Vec::new(), next_id: 1 };
        assert(r@.tasks =~= Seq::<TaskModel>::empty());
        r
    }

    fn position(&self, id: &TaskId) -> (r: Option<usize>)
        requires
            self.wf(),
        ensures
            r is Some <==> has_task(self@.tasks, *id),
            r matches Some(i) ==> i < self@.tasks.len() && i == task_index(self@.tasks, *id),
    {
        let mut i: usize = 0;
        while i < self.tasks.len()
            invariant
                self.wf(),
                i <= self.tasks.len(),
                forall|j: int| 0 <= j < i ==> self.tasks@[j]@.id != *id,
            decreases self.tasks.len() - i,
        {
            if *self.tasks[i].id() == *id {
                proof {
                    let ts = self@.tasks;
                    assert(ts[i as int].id == *id);
                    assert(has_task(ts, *id));
                    let k = task_index(ts, *id);
                    if k != i {
                        assert(ts[k].id != ts[i as int].id);
                    }
                }
                return Some(i);
            }
            i += 1;
        }
        proof {
            let ts = self@.tasks;
            if has_task(ts, *id) {
                let k = task_index(ts, *id);
                assert(self.tasks@[k]@.id == *id);
            }
        }
        None
    }

    fn place(&mut self, task: TaskAggregate)
        requires
            old(self).wf(),
        ensures
            final(self).wf(),
            final(self)@.tasks == put_task(old(self)@.tasks, task@),
            final(self)@.next_id == old(self)@.next_id,
    {
        let ghost before = self@.tasks;
        proof {
            lemma_put_task_distinct(before, task@);
        }
        match self.position(task.id()) {
            Some(i) => {
                self.tasks.set(i, task.clone());
                assert(self@.tasks =~= put_task(before, task@));
            },
            None => {
                self.tasks.push(task.clone());
                assert(self@.tasks =~= put_task(before, task@));
            },
        }
    }

    /// A repository holding the given stored tasks, each placed by its own
    /// ID in turn (a later task replaces an earlier one with the same ID);
    /// new tasks then get IDs after the largest one. Refused (`None`) when
    /// an ID is `i32::MAX`, which leaves no ID for a new task.
    pub fn restore(tasks: Vec<TaskAggregate>) -> (r: Option<InMemoryTaskRepository>)
        ensures
            r is None <==> max_task_id(tasks@.map_values(|t: TaskAggregate| t@)) >= i32::MAX,
            r matches Some(repo) ==> {
                &&& repo.wf()
                &&& repo@.tasks == put_all_tasks(
                    Seq::empty(),
                    tasks@.map_values(|t: TaskAggregate| t@),
                )
                &&& repo@.next_id == max_task_id(tasks@.map_values(|t: TaskAggregate| t@)) + 1
            },
    {
        let ghost ms = tasks@.map_values(|t: TaskAggregate| t@);
        let mut repo = InMemoryTaskRepository::new();
        let mut max: i32 = 0;
        let mut i: usize = 0;
        while i < tasks.len()
            invariant
                i <= tasks.len(),
                ms == tasks@.map_values(|t: TaskAggregate| t@),
                repo.wf(),
                repo@.next_id == 1,
                repo@.tasks == put_all_tasks(Seq::empty(), ms.take(i as int)),
                max == max_task_id(ms.take(i as int)),
                0 <= max < i32::MAX,
            decreases tasks.len() - i,
        {
            assert(ms.take(i + 1).drop_last() =~= ms.take(i as int));
            assert(ms.take(i + 1).last() == tasks@[i as int]@);
            let id = tasks[i].id().value();
            if id == i32::MAX {
                proof {
                    assert(max_task_id(ms.take(i + 1)) >= i32::MAX);
                    lemma_max_task_id_grows(ms, i as int + 1, tasks.len() as int);
                    assert(ms.take(tasks.len() as int) =~= ms);
                }
                return None;
            }
            if id > max {
                max = id;
            }
            let ghost before = repo@.tasks;
            let copy = tasks[i].clone();
            assert(copy@ == stored(tasks@[i as int]@));
            repo.place(copy);
            proof {
                lemma_put_task_stored(before, tasks@[i as int]@);
            }
            i += 1;
        }
        assert(ms.take(tasks.len() as int) =~= ms);
        repo.next_id = max + 1;
        Some(repo)
    }

    /// The ID that the next new task will get.
    pub fn next_id(&self) -> (r: i32)
        ensures
            r == self@.next_id,
    {
        self.next_id
    }

    /// The task with ID `id`, if any (a copy, without pending events).
    pub fn find_by_id(&self, id: &TaskId) -> (r: Option<TaskAggregate>)
        requires
            self.wf(),
        ensures
            r is Some <==> has_task(self@.tasks, *id),
            r matches Some(t) ==> t@ == stored(find_task(self@.tasks, *id)->0),
    {
        match self.position(id) {
            Some(i) => Some(self.tasks[i].clone()),
            None => None,
        }
    }

    /// How many stored tasks carry tag `id`.
    pub fn count_with_tag(&self, id: &TagId) -> (r: usize)
        ensures
            r == tasks_with_tag(self@.tasks, *id),
            r == self@.tasks.filter(carries_tag(*id)).len(),
            r > 0 <==> exists|i: int|
                0 <= i < self@.tasks.len() && (#[trigger] self@.tasks[i]).tags.contains(*id),
    {
        proof {
            law_tag_usage_counts_carriers(self@.tasks, *id);
        }
        let ghost ts = self@.tasks;
        let spec = TaskByTag::new(*id);
        let mut n: usize = 0;
        let mut i: usize = 0;
        while i < self.tasks.len()
            invariant
                i <= self.tasks.len(),
                ts == self@.tasks,
                spec@ == *id,
                n == tasks_with_tag(ts.take(i as int), *id),
            decreases self.tasks.len() - i,
        {
            proof {
                assert(ts.take(i + 1).drop_last() =~= ts.take(i as int));
                lemma_tasks_with_tag_bound(ts.take(i as int), *id);
            }
            if spec.is_satisfied_by(&self.tasks[i]) {
                n = n + 1;
            }
            i += 1;
        }
        assert(ts.take(ts.len() as int) =~= ts);
        n
    }

    /// All tasks, in order (copies, without pending events).
    pub fn find_all(&self) -> (r: Vec<TaskAggregate>)
        ensures
            r@.len() == self@.tasks.len(),
            forall|i: int| 0 <= i < r@.len() ==> #[trigger] r@[i]@ == stored(self@.tasks[i]),
    {
        let mut out: Vec<TaskAggregate> = Vec::new();
        let mut i: usize = 0;
        while i < self.tasks.len()
            invariant
                i <= self.tasks.len(),
                out@.len() == i,
                forall|j: int| 0 <= j < i ==> #[trigger] out@[j]@ == stored(self.tasks@[j]@),
            decreases self.tasks.len() - i,
        {
            out.push(self.tasks[i].clone());
            i += 1;
        }
        out
    }

    /// The tasks that meet `spec` on the day numbered `today`, in order.
    pub fn find_by_specification_on(&self, spec: &TaskSpecification, today: i32) -> (r: Vec<
        TaskAggregate,
    >)
        ensures
            r@.map_values(|t: TaskAggregate| t@) == satisfying(self@.tasks, *spec, today as int),
    {
        let ghost pred = |m: TaskModel| holds_on(*spec, m, today as int);
        let ghost ts = self@.tasks;
        let mut out: Vec<TaskAggregate> = Vec::new();
        let mut i: usize = 0;
        while i < self.tasks.len()
            invariant
                i <= self.tasks.len(),
                ts == self@.tasks,
                pred == (|m: TaskModel| holds_on(*spec, m, today as int)),
                out@.map_values(|t: TaskAggregate| t@) == ts.take(i as int).filter(pred).map_values(
                    |m: TaskModel| stored(m),
                ),
            decreases self.tasks.len() - i,
        {
            proof {
                assert(ts.take(i as int + 1) == ts.take(i as int).push(ts[i as int]));
                ts.take(i as int).lemma_filter_push(ts[i as int], pred);
            }
            if spec.is_satisfied_on(&self.tasks[i], today) {
                let ghost before = out@;
                out.push(self.tasks[i].clone());
                proof {
                    assert(out@.map_values(|t: TaskAggregate| t@) =~= before.map_values(
                        |t: TaskAggregate| t@,
                    ).push(stored(ts[i as int])));
                    assert(ts.take(i as int + 1).filter(pred).map_values(|m: TaskModel| stored(m))
                        =~= ts.take(i as int).filter(pred).map_values(|m: TaskModel| stored(m)).push(
                        stored(ts[i as int]),
                    ));
                }
            }
            i += 1;
        }
        assert(ts.take(ts.len() as int) == ts);
        out
    }

    /// The tasks that meet `spec` today (by the UTC calendar), in order.
    pub fn find_by_specification(&self, spec: &TaskSpecification) -> (r: Vec<TaskAggregate>)
        ensures
            exists|today: i32|
                r@.map_values(|t: TaskAggregate| t@) == #[trigger] satisfying(
                    self@.tasks,
                    *spec,
                    today as int,
                ),
    {
        let today = today_day_number();
        self.find_by_specification_on(spec, today)
    }

    /// Stores a task. A task with ID 0 first gets the next ID. It then
    /// replaces the stored task with the same ID, or is added at the end.
    /// Gives back the task as stored, with its pending events.
    pub fn save(&mut self, task: TaskAggregate) -> (r: Result<TaskAggregate, DomainError>)
        requires
            old(self).wf(),
            task@.id@ == 0 ==> old(self)@.next_id < i32::MAX,
        ensures
            final(self).wf(),
            r is Ok,
            r matches Ok(saved) ==> {
                &&& task@.id@ != 0 ==> saved@ == task@
                &&& task@.id@ == 0 ==> saved@ == (TaskModel { id: saved@.id, ..task@ })
                    && saved@.id@ == old(self)@.next_id
                &&& final(self)@.tasks == put_task(old(self)@.tasks, saved@)
            },
            task@.id@ == 0 ==> final(self)@.next_id == old(self)@.next_id + 1,
            task@.id@ != 0 ==> final(self)@.next_id == old(self)@.next_id,
    {
        let to_save = if task.id().value() == 0 {
            let id = self.next_id;
            self.next_id = self.next_id + 1;
            let new_id = TaskId::new(id).unwrap();
            task.with_id(new_id)
        } else {
            task
        };
        let ghost before = self@.tasks;
        proof {
            lemma_put_task_distinct(before, to_save@);
        }
        match self.position(to_save.id()) {
            Some(i) => {
                self.tasks.set(i, to_save.clone());
                assert(self@.tasks =~= put_task(before, to_save@));
            },
            None => {
                self.tasks.push(to_save.clone());
                assert(self@.tasks =~= put_task(before, to_save@));
            },
        }
        Ok(to_save)
    }

    /// Replaces the stored task with the same ID; refused when there is none.
    pub fn update(&mut self, task: TaskAggregate) -> (r: Result<TaskAggregate, DomainError>)
        requires
            old(self).wf(),
        ensures
            final(self).wf(),
            r is Err <==> !has_task(old(self)@.tasks, task@.id),
            r matches Err(e) ==> e == DomainError::TaskNotFound(task@.id@) && final(self)@ == old(self)@,
            r matches Ok(t) ==> t@ == task@ && final(self)@.tasks == put_task(old(self)@.tasks, task@)
                && final(self)@.next_id == old(self)@.next_id,
    {
        let ghost before = self@.tasks;
        match self.position(task.id()) {
            Some(i) => {
                self.tasks.set(i, task.clone());
                assert(self@.tasks =~= put_task(before, task@));
                proof {
                    lemma_put_task_distinct(before, task@);
                }
                Ok(task)
            },
            None => Err(DomainError::TaskNotFound(task.id().value())),
        }
    }

    /// Takes out the task with ID `id`; tells whether there was one.
    pub fn delete(&mut self, id: &TaskId) -> (r: bool)
        requires
            old(self).wf(),
        ensures
            final(self).wf(),
            r == has_task(old(self)@.tasks, *id),
            final(self)@.tasks == drop_task(old(self)@.tasks, *id),
            final(self)@.next_id == old(self)@.next_id,
    {
        let ghost before = self@.tasks;
        proof {
            lemma_drop_task_distinct(before, *id);
        }
        match self.position(id) {
            Some(i) => {
                self.tasks.remove(i);
                assert(self@.tasks =~= drop_task(before, *id));
                true
            },
            None => false,
        }
    }
}

impl Default for InMemoryTaskRepository {
    fn default() -> (r: Self)
        ensures
            r.wf(),
            r@.tasks == Seq::<TaskModel>::empty(),
            r@.next_id == 1,
    {
        InMemoryTaskRepository::new()
    }
}

} // verus!
