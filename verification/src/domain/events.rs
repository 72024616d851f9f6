use vstd::prelude::*;

use crate::domain::clock::{now, Timestamp};
use crate::domain::tag::TagId;
use crate::domain::task::{TaskId, TaskTitle};

verus! {

/// A task was created.
#[derive(Debug, PartialEq)]
pub struct TaskCreated {
    pub task_id: TaskId,
    pub title: TaskTitle,
    pub occurred_at: Timestamp,
}

impl TaskCreated {
    /// The event for `task_id` created with `title`, stamped with the current time.
    pub fn new(task_id: TaskId, title: TaskTitle) -> (r: TaskCreated)
        ensures
            r.task_id == task_id,
            r.title@ == title@,
    {
        TaskCreated { task_id, title, occurred_at: now() }
    }

    /// The name under which this event is published.
    pub fn event_name(&self) -> (r: &'static str)
        ensures
            r@ == "TaskCreated"@,
    {
        "TaskCreated"
    }
}

/// A task was completed.
#[derive(Debug, Clone, Copy, PartialEq)]
pub struct TaskCompleted {
    pub task_id: TaskId,
    pub completed_at: Timestamp,
    pub occurred_at: Timestamp,
}

impl TaskCompleted {
    /// The event for `task_id` completed at `completed_at`, stamped with the current time.
    pub fn new(task_id: TaskId, completed_at: Timestamp) -> (r: TaskCompleted)
        ensures
            r.task_id == task_id,
            r.completed_at == completed_at,
    {
        TaskCompleted { task_id, completed_at, occurred_at: now() }
    }

    /// The name under which this event is published.
    pub fn event_name(&self) -> (r: &'static str)
        ensures
            r@ == "TaskCompleted"@,
    {
        "TaskCompleted"
    }
}

/// The title of a task was changed.
#[derive(Debug, PartialEq)]
pub struct TaskTitleChanged {
    pub task_id: TaskId,
    pub old_title: TaskTitle,
    pub new_title: TaskTitle,
    pub occurred_at: Timestamp,
}

impl TaskTitleChanged {
    /// The event for the title of `task_id` changed from `old_title` to `new_title`.
    pub fn new(task_id: TaskId, old_title: TaskTitle, new_title: TaskTitle) -> (r: TaskTitleChanged)
        ensures
            r.task_id == task_id,
            r.old_title@ == old_title@,
            r.new_title@ == new_title@,
    {
        TaskTitleChanged { task_id, old_title, new_title, occurred_at: now() }
    }

    /// The name under which this event is published.
    pub fn event_name(&self) -> (r: &'static str)
        ensures
            r@ == "TaskTitleChanged"@,
    {
        "TaskTitleChanged"
    }
}

/// A tag was added to a task.
#[derive(Debug, Clone, Copy, PartialEq)]
pub struct TaskTagAdded {
    pub task_id: TaskId,
    pub tag_id: TagId,
    pub occurred_at: Timestamp,
}

impl TaskTagAdded {
    /// The event for `tag_id` added to `task_id`.
    pub fn new(task_id: TaskId, tag_id: TagId) -> (r: TaskTagAdded)
        ensures
            r.task_id == task_id,
            r.tag_id == tag_id,
    {
        TaskTagAdded { task_id, tag_id, occurred_at: now() }
    }

    /// The name under which this event is published.
    pub fn event_name(&self) -> (r: &'static str)
        ensures
            r@ == "TaskTagAdded"@,
    {
        "TaskTagAdded"
    }
}

/// A tag was removed from a task.
#[derive(Debug, Clone, Copy, PartialEq)]
pub struct TaskTagRemoved {
    pub task_id: TaskId,
    pub tag_id: TagId,
    pub occurred_at: Timestamp,
}

impl TaskTagRemoved {
    /// The event for `tag_id` removed from `task_id`.
    pub fn new(task_id: TaskId, tag_id: TagId) -> (r: TaskTagRemoved)
        ensures
            r.task_id == task_id,
            r.tag_id == tag_id,
    {
        TaskTagRemoved { task_id, tag_id, occurred_at: now() }
    }

    /// The name under which this event is published.
    pub fn event_name(&self) -> (r: &'static str)
        ensures
            r@ == "TaskTagRemoved"@,
    {
        "TaskTagRemoved"
    }
}

/// A domain event of a task.
#[derive(Debug, PartialEq)]
pub enum TaskEvent {
    Created(TaskCreated),
    Completed(TaskCompleted),
    TitleChanged(TaskTitleChanged),
    TagAdded(TaskTagAdded),
    TagRemoved(TaskTagRemoved),
}

/// The name of an event.
pub open spec fn event_name_of(e: TaskEvent) -> Seq<char> {
    match e {
        TaskEvent::Created(_) => "TaskCreated"@,
        TaskEvent::Completed(_) => "TaskCompleted"@,
        TaskEvent::TitleChanged(_) => "TaskTitleChanged"@,
        TaskEvent::TagAdded(_) => "TaskTagAdded"@,
        TaskEvent::TagRemoved(_) => "TaskTagRemoved"@,
    }
}

/// When an event occurred.
pub open spec fn occurred_at_of(e: TaskEvent) -> Timestamp {
    match e {
        TaskEvent::Created(x) => x.occurred_at,
        TaskEvent::Completed(x) => x.occurred_at,
        TaskEvent::TitleChanged(x) => x.occurred_at,
        TaskEvent::TagAdded(x) => x.occurred_at,
        TaskEvent::TagRemoved(x) => x.occurred_at,
    }
}

impl TaskEvent {
    /// The name of the event.
    pub fn event_name(&self) -> (r: &'static str)
        ensures
            r@ == event_name_of(*self),
    {
        match self {
            TaskEvent::Created(e) => e.event_name(),
            TaskEvent::Completed(e) => e.event_name(),
            TaskEvent::TitleChanged(e) => e.event_name(),
            TaskEvent::TagAdded(e) => e.event_name(),
            TaskEvent::TagRemoved(e) => e.event_name(),
        }
    }

    /// When the event occurred.
    pub fn occurred_at(&self) -> (r: Timestamp)
        ensures
            r == occurred_at_of(*self),
    {
        match self {
            TaskEvent::Created(e) => e.occurred_at,
            TaskEvent::Completed(e) => e.occurred_at,
            TaskEvent::TitleChanged(e) => e.occurred_at,
            TaskEvent::TagAdded(e) => e.occurred_at,
            TaskEvent::TagRemoved(e) => e.occurred_at,
        }
    }
}

} // verus!
