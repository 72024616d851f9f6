use vstd::prelude::*;

use crate::domain::aggregate::{overdue_on, TaskAggregate, TaskModel};
use crate::domain::clock::today_day_number;
use crate::domain::tag::TagId;
use crate::domain::task::{Priority, Status, TaskId};

verus! {

/// Selects the tasks in one status.
#[derive(Debug, Clone, Copy)]
pub struct TaskByStatus {
    status: Status,
}

impl View for TaskByStatus {
    type V = Status;

    closed spec fn view(&self) -> Status {
        self.status
    }
}

impl TaskByStatus {
    /// A specification for the given value.
    pub fn new(status: Status) -> (r: TaskByStatus)
        ensures
            r@ == status,
    {
        TaskByStatus { status }
    }

    /// Whether the task meets this specification.
    pub fn is_satisfied_by(&self, task: &TaskAggregate) -> (r: bool)
        ensures
            r == (task@.status == self@),
    {
        *task.status() == self.status
    }
}

/// Selects the tasks of one priority.
#[derive(Debug, Clone, Copy)]
pub struct TaskByPriority {
    priority: Priority,
}

impl View for TaskByPriority {
    type V = Priority;

    closed spec fn view(&self) -> Priority {
        self.priority
    }
}

impl TaskByPriority {
    /// A specification for the given value.
    pub fn new(priority: Priority) -> (r: TaskByPriority)
        ensures
            r@ == priority,
    {
        TaskByPriority { priority }
    }

    /// Whether the task meets this specification.
    pub fn is_satisfied_by(&self, task: &TaskAggregate) -> (r: bool)
        ensures
            r == (task@.priority == self@),
    {
        *task.priority() == self.priority
    }
}

/// Selects the tasks that carry one tag.
#[derive(Debug, Clone, Copy)]
pub struct TaskByTag {
    tag_id: TagId,
}

impl View for TaskByTag {
    type V = TagId;

    closed spec fn view(&self) -> TagId {
        self.tag_id
    }
}

impl TaskByTag {
    /// A specification for the given value.
    pub fn new(tag_id: TagId) -> (r: TaskByTag)
        ensures
            r@ == tag_id,
    {
        TaskByTag { tag_id }
    }

    /// Whether the task meets this specification.
    pub fn is_satisfied_by(&self, task: &TaskAggregate) -> (r: bool)
        ensures
            r == task@.tags.contains(self@),
    {
        let tags = task.tags();
        let mut i: usize = 0;
        while i < tags.len()
            invariant
                tags@ == task@.tags,
                i <= tags.len(),
                forall|j: int| 0 <= j < i ==> tags@[j] != self@,
            decreases tags.len() - i,
        {
            if tags[i] == self.tag_id {
                assert(tags@[i as int] == self@);
                return true;
            }
            i += 1;
        }
        false
    }
}

/// Selects the overdue tasks.
#[derive(Debug, Clone, Copy)]
pub struct TaskOverdue;

impl TaskOverdue {
    /// The overdue condition.
    pub fn new() -> (r: TaskOverdue)
        ensures
            r == TaskOverdue,
    {
        TaskOverdue
    }

    /// Whether the task is overdue on the day numbered `today`.
    pub fn is_satisfied_on(&self, task: &TaskAggregate, today: i32) -> (r: bool)
        ensures
            r == overdue_on(task@, today as int),
    {
        task.is_overdue_on(today)
    }

    /// Whether the task is overdue today.
    pub fn is_satisfied_by(&self, task: &TaskAggregate) -> (r: bool)
        ensures
            exists|today: i32| r == #[trigger] overdue_on(task@, today as int),
            task@.status == Status::Completed ==> !r,
            task@.due_date is None ==> !r,
    {
        task.is_overdue()
    }
}

/// Selects the task with one ID.
#[derive(Debug, Clone, Copy)]
pub struct TaskById {
    id: TaskId,
}

impl View for TaskById {
    type V = TaskId;

    closed spec fn view(&self) -> TaskId {
        self.id
    }
}

impl TaskById {
    /// A specification for the given value.
    pub fn new(id: TaskId) -> (r: TaskById)
        ensures
            r@ == id,
    {
        TaskById { id }
    }

    /// Whether the task meets this specification.
    pub fn is_satisfied_by(&self, task: &TaskAggregate) -> (r: bool)
        ensures
            r == (task@.id == self@),
    {
        *task.id() == self.id
    }
}

/// Both of two conditions.
#[derive(Debug)]
pub struct AndSpecification {
    pub left: Box<TaskSpecification>,
    pub right: Box<TaskSpecification>,
}

/// Either of two conditions.
#[derive(Debug)]
pub struct OrSpecification {
    pub left: Box<TaskSpecification>,
    pub right: Box<TaskSpecification>,
}

impl Default for TaskOverdue {
    fn default() -> (r: TaskOverdue)
        ensures
            r == TaskOverdue,
    {
        TaskOverdue::new()
    }
}

/// A condition on tasks, built from the simple conditions with AND and OR.
#[derive(Debug)]
pub enum TaskSpecification {
    ByStatus(TaskByStatus),
    ByPriority(TaskByPriority),
    ByTag(TaskByTag),
    Overdue(TaskOverdue),
    ById(TaskById),
    And(AndSpecification),
    Or(OrSpecification),
}

/// Whether a task meets a condition on the day numbered `today` (the day
/// matters to the overdue condition only).
pub open spec fn holds_on(spec: TaskSpecification, m: TaskModel, today: int) -> bool
    decreases spec,
{
    match spec {
        TaskSpecification::ByStatus(s) => m.status == s@,
        TaskSpecification::ByPriority(p) => m.priority == p@,
        TaskSpecification::ByTag(t) => m.tags.contains(t@),
        TaskSpecification::Overdue(_) => overdue_on(m, today),
        TaskSpecification::ById(i) => m.id == i@,
        TaskSpecification::And(a) => holds_on(*a.left, m, today) && holds_on(*a.right, m, today),
        TaskSpecification::Or(o) => holds_on(*o.left, m, today) || holds_on(*o.right, m, today),
    }
}

/// Whether a condition refers to the overdue condition anywhere.
pub open spec fn mentions_overdue(spec: TaskSpecification) -> bool
    decreases spec,
{
    match spec {
        TaskSpecification::Overdue(_) => true,
        TaskSpecification::And(a) => mentions_overdue(*a.left) || mentions_overdue(*a.right),
        TaskSpecification::Or(o) => mentions_overdue(*o.left) || mentions_overdue(*o.right),
        _ => false,
    }
}

/// A condition that does not refer to the overdue condition holds on every
/// day or on none.
pub proof fn law_day_matters_only_to_overdue(
    spec: TaskSpecification,
    m: TaskModel,
    d1: int,
    d2: int,
)
    requires
        !mentions_overdue(spec),
    ensures
        holds_on(spec, m, d1) == holds_on(spec, m, d2),
    decreases spec,
{
    match spec {
        TaskSpecification::And(a) => {
            law_day_matters_only_to_overdue(*a.left, m, d1, d2);
            law_day_matters_only_to_overdue(*a.right, m, d1, d2);
        },
        TaskSpecification::Or(o) => {
            law_day_matters_only_to_overdue(*o.left, m, d1, d2);
            law_day_matters_only_to_overdue(*o.right, m, d1, d2);
        },
        _ => {},
    }
}

impl TaskSpecification {
    /// The condition that both `self` and `other` hold.
    pub fn and(self, other: TaskSpecification) -> (r: TaskSpecification)
        ensures
            forall|m: TaskModel, d: int|
                #[trigger] holds_on(r, m, d) == (holds_on(self, m, d) && holds_on(other, m, d)),
    {
        TaskSpecification::And(AndSpecification { left: Box::new(self), right: Box::new(other) })
    }

    /// The condition that `self` or `other` holds.
    pub fn or(self, other: TaskSpecification) -> (r: TaskSpecification)
        ensures
            forall|m: TaskModel, d: int|
                #[trigger] holds_on(r, m, d) == (holds_on(self, m, d) || holds_on(other, m, d)),
    {
        TaskSpecification::Or(OrSpecification { left: Box::new(self), right: Box::new(other) })
    }

    /// Whether the task meets the condition on the day numbered `today`.
    pub fn is_satisfied_on(&self, task: &TaskAggregate, today: i32) -> (r: bool)
        ensures
            r == holds_on(*self, task@, today as int),
        decreases self,
    {
        match self {
            TaskSpecification::ByStatus(s) => s.is_satisfied_by(task),
            TaskSpecification::ByPriority(p) => p.is_satisfied_by(task),
            TaskSpecification::ByTag(t) => t.is_satisfied_by(task),
            TaskSpecification::Overdue(o) => o.is_satisfied_on(task, today),
            TaskSpecification::ById(i) => i.is_satisfied_by(task),
            TaskSpecification::And(a) => {
                let l = a.left.is_satisfied_on(task, today);
                let rr = a.right.is_satisfied_on(task, today);
                l && rr
            },
            TaskSpecification::Or(o) => {
                let l = o.left.is_satisfied_on(task, today);
                let rr = o.right.is_satisfied_on(task, today);
                l || rr
            },
        }
    }

    /// Whether the task meets the condition today (by the UTC calendar).
    pub fn is_satisfied_by(&self, task: &TaskAggregate) -> (r: bool)
        ensures
            exists|today: i32| r == #[trigger] holds_on(*self, task@, today as int),
            !mentions_overdue(*self) ==> forall|d: int| r == #[trigger] holds_on(*self, task@, d),
    {
        let today = today_day_number();
        let r = self.is_satisfied_on(task, today);
        proof {
            if !mentions_overdue(*self) {
                assert forall|d: int| r == #[trigger] holds_on(*self, task@, d) by {
                    law_day_matters_only_to_overdue(*self, task@, today as int, d);
                }
            }
        }
        r
    }
}

} // verus!
