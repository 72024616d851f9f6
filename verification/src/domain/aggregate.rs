use vstd::prelude::*;

use crate::domain::clock::{now, today_day_number, Timestamp};
use crate::domain::completion::completed_at_on_update;
use crate::domain::events::{TaskCompleted, TaskEvent, TaskTagAdded, TaskTagRemoved, TaskTitleChanged};
use crate::domain::tag::TagId;
use crate::domain::task::{DueDate, Priority, Status, TaskDescription, TaskId, TaskTitle};
use crate::error::DomainError;
use crate::text::str_eq;
use vstd::std_specs::cmp::PartialEqSpecImpl;

verus! {

broadcast use vstd::seq_lib::group_seq_properties;

/// What a task holds.
pub struct TaskModel {
    pub id: TaskId,
    pub title: Seq<char>,
    pub description: Seq<char>,
    pub status: Status,
    pub priority: Priority,
    pub tags: Seq<TagId>,
    pub created_at: Timestamp,
    pub updated_at: Timestamp,
    pub due_date: Option<DueDate>,
    pub completed_at: Option<Timestamp>,
    pub events: Seq<TaskEvent>,
}

/// The fields from which a stored task is rebuilt.
pub struct TaskReconstructParams {
    pub id: TaskId,
    pub title: TaskTitle,
    pub description: TaskDescription,
    pub status: Status,
    pub priority: Priority,
    pub tags: Vec<TagId>,
    pub created_at: Timestamp,
    pub updated_at: Timestamp,
    pub due_date: Option<DueDate>,
    pub completed_at: Option<Timestamp>,
}

/// A task: the aggregate root that guards the task's rules and records
/// the domain events of its changes.
#[derive(Debug)]
pub struct TaskAggregate {
    id: TaskId,
    title: TaskTitle,
    description: TaskDescription,
    status: Status,
    priority: Priority,
    tags: Vec<TagId>,
    created_at: Timestamp,
    updated_at: Timestamp,
    due_date: Option<DueDate>,
    completed_at: Option<Timestamp>,
    domain_events: Vec<TaskEvent>,
}

impl View for TaskAggregate {
    type V = TaskModel;

    closed spec fn view(&self) -> TaskModel {
        TaskModel {
            id: self.id,
            title: self.title@,
            description: self.description@,
            status: self.status,
            priority: self.priority,
            tags: self.tags@,
            created_at: self.created_at,
            updated_at: self.updated_at,
            due_date: self.due_date,
            completed_at: self.completed_at,
            events: self.domain_events@,
        }
    }
}

/// The predicate "is not `t`" on tag IDs.
pub open spec fn other_than(t: TagId) -> spec_fn(TagId) -> bool {
    |x: TagId| x != t
}

/// The tags left once every occurrence of `t` is taken out.
pub open spec fn tags_without(tags: Seq<TagId>, t: TagId) -> Seq<TagId> {
    tags.filter(other_than(t))
}

/// Whether a task is overdue on the day numbered `today`: not completed, and
/// due on an earlier day.
pub open spec fn overdue_on(m: TaskModel, today: int) -> bool {
    &&& m.status != Status::Completed
    &&& m.due_date matches Some(d)
    &&& d@ < today
}

/// `new` is `old` completed: the status is Completed, the completion and
/// update times are one new time, and one TaskCompleted event for the task,
/// carrying that time, is recorded.
pub open spec fn completed_from(old: TaskModel, new: TaskModel) -> bool {
    &&& new == TaskModel {
        status: Status::Completed,
        completed_at: Some(new.updated_at),
        updated_at: new.updated_at,
        events: new.events,
        ..old
    }
    &&& new.events.len() == old.events.len() + 1
    &&& new.events.drop_last() == old.events
    &&& new.events.last() matches TaskEvent::Completed(e)
    &&& e.task_id == old.id
    &&& e.completed_at == new.updated_at
}

/// `new` is `old` with one more event, for which `p` holds.
pub open spec fn one_event_more(old: Seq<TaskEvent>, new: Seq<TaskEvent>) -> bool {
    new.len() == old.len() + 1 && new.drop_last() == old
}

fn contains_tag(tags: &Vec<TagId>, t: TagId) -> (r: bool)
    ensures
        r == tags@.contains(t),
{
    let mut i: usize = 0;
    while i < tags.len()
        invariant
            i <= tags.len(),
            forall|j: int| 0 <= j < i ==> tags@[j] != t,
        decreases tags.len() - i,
    {
        if tags[i] == t {
            assert(tags@[i as int] == t);
            return true;
        }
        i += 1;
    }
    false
}

fn without_tag(tags: &Vec<TagId>, t: TagId) -> (r: Vec<TagId>)
    ensures
        r@ == tags_without(tags@, t),
{
    broadcast use Seq::lemma_filter_push;

    let mut out: Vec<TagId> = Vec::new();
    let mut i: usize = 0;
    while i < tags.len()
        invariant
            i <= tags.len(),
            out@ == tags@.take(i as int).filter(other_than(t)),
        decreases tags.len() - i,
    {
        assert(tags@.take(i as int + 1) == tags@.take(i as int).push(tags@[i as int]));
        assert(other_than(t)(tags@[i as int]) == (tags@[i as int] != t));
        proof {
            tags@.take(i as int).lemma_filter_push(tags@[i as int], other_than(t));
        }
        if tags[i] != t {
            out.push(tags[i]);
        }
        i += 1;
    }
    assert(tags@.take(tags@.len() as int) == tags@);
    out
}

/// Taking out a tag that a sequence does not hold leaves the sequence as it was.
pub proof fn lemma_without_absent(tags: Seq<TagId>, t: TagId)
    requires
        !tags.contains(t),
    ensures
        tags_without(tags, t) == tags,
    decreases tags.len(),
{
    reveal(Seq::filter);
    if tags.len() > 0 {
        assert(!tags.drop_last().contains(t)) by {
            if tags.drop_last().contains(t) {
                let k = choose|k: int| 0 <= k < tags.drop_last().len() && tags.drop_last()[k] == t;
                assert(tags[k] == t);
            }
        }
        lemma_without_absent(tags.drop_last(), t);
        assert(tags.last() != t) by {
            assert(tags[tags.len() - 1] == tags.last());
        }
        assert(tags.drop_last().push(tags.last()) == tags);
    }
}

/// Adding a tag that a task does not carry and then removing it gives the
/// task its tags back.
pub proof fn law_add_then_remove_tag(tags: Seq<TagId>, t: TagId)
    requires
        !tags.contains(t),
    ensures
        tags_without(tags.push(t), t) == tags,
{
    broadcast use Seq::lemma_filter_push;

    lemma_without_absent(tags, t);
}

/// Removing a tag leaves no occurrence of it.
pub proof fn law_removed_tag_is_gone(tags: Seq<TagId>, t: TagId)
    ensures
        !tags_without(tags, t).contains(t),
{
    broadcast use Seq::lemma_filter_pred;

    if tags_without(tags, t).contains(t) {
        let k = choose|k: int|
            0 <= k < tags_without(tags, t).len() && tags_without(tags, t)[k] == t;
        assert(other_than(t)(tags.filter(other_than(t))[k]));
    }
}

/// Whether two tasks hold the same fields; pending events are not compared.
pub open spec fn same_task(a: TaskModel, b: TaskModel) -> bool {
    TaskModel { events: Seq::empty(), ..a } == TaskModel { events: Seq::empty(), ..b }
}

fn same_due_date(a: &Option<DueDate>, b: &Option<DueDate>) -> (r: bool)
    ensures
        r == (*a == *b),
{
    match (a, b) {
        (Some(x), Some(y)) => x.same_as(y),
        (None, None) => true,
        _ => false,
    }
}

fn same_tags(a: &Vec<TagId>, b: &Vec<TagId>) -> (r: bool)
    ensures
        r == (a@ == b@),
{
    if a.len() != b.len() {
        return false;
    }
    let mut i: usize = 0;
    while i < a.len()
        invariant
            a.len() == b.len(),
            i <= a.len(),
            forall|j: int| 0 <= j < i ==> a@[j] == b@[j],
        decreases a.len() - i,
    {
        if a[i] != b[i] {
            return false;
        }
        i += 1;
    }
    assert(a@ =~= b@);
    true
}

impl TaskAggregate {
    /// Whether the two tasks hold the same fields; pending events are not
    /// compared.
    pub fn same_fields(&self, other: &TaskAggregate) -> (r: bool)
        ensures
            r == same_task(self@, other@),
    {
        let r = self.id == other.id && str_eq(self.title.value(), other.title.value()) && str_eq(
            self.description.value(),
            other.description.value(),
        ) && self.status == other.status && self.priority == other.priority && same_tags(
            &self.tags,
            &other.tags,
        ) && self.created_at == other.created_at && self.updated_at == other.updated_at
            && same_due_date(&self.due_date, &other.due_date) && self.completed_at
            == other.completed_at;
        proof {
            if r {
                assert(TaskModel { events: Seq::empty(), ..self@ } =~= TaskModel {
                    events: Seq::empty(),
                    ..other@
                });
            }
        }
        r
    }
}

impl PartialEq for TaskAggregate {
    fn eq(&self, other: &TaskAggregate) -> (r: bool) {
        self.same_fields(other)
    }
}

impl PartialEqSpecImpl for TaskAggregate {
    open spec fn obeys_eq_spec() -> bool {
        true
    }

    open spec fn eq_spec(&self, other: &TaskAggregate) -> bool {
        same_task(self@, other@)
    }
}

impl Clone for TaskAggregate {
    /// A copy of the task without its pending domain events.
    fn clone(&self) -> (r: Self)
        ensures
            r@ == (TaskModel { events: Seq::empty(), ..self@ }),
    {
        TaskAggregate {
            id: self.id,
            title: self.title.clone(),
            description: self.description.clone(),
            status: self.status,
            priority: self.priority,
            tags: self.tags.clone(),
            created_at: self.created_at,
            updated_at: self.updated_at,
            due_date: self.due_date,
            completed_at: self.completed_at,
            domain_events: Vec::new(),
        }
    }
}

impl TaskAggregate {
    /// A new task with ID 0 (a repository gives it its ID), no completion
    /// time, no events, and the current time as its creation and update time.
    pub fn new(
        title: TaskTitle,
        description: TaskDescription,
        status: Status,
        priority: Priority,
        tags: Vec<TagId>,
        due_date: Option<DueDate>,
    ) -> (r: TaskAggregate)
        ensures
            r@.id@ == 0,
            r@ == (TaskModel {
                id: r@.id,
                title: title@,
                description: description@,
                status,
                priority,
                tags: tags@,
                created_at: r@.created_at,
                updated_at: r@.created_at,
                due_date,
                completed_at: None,
                events: Seq::empty(),
            }),
    {
        let t = now();
        let id = TaskId::new(0).unwrap();
        TaskAggregate {
            id,
            title,
            description,
            status,
            priority,
            tags,
            created_at: t,
            updated_at: t,
            due_date,
            completed_at: None,
            domain_events: Vec::new(),
        }
    }

    /// Rebuilds a stored task from its fields, with no pending events.
    pub fn reconstruct(params: TaskReconstructParams) -> (r: TaskAggregate)
        ensures
            r@ == (TaskModel {
                id: params.id,
                title: params.title@,
                description: params.description@,
                status: params.status,
                priority: params.priority,
                tags: params.tags@,
                created_at: params.created_at,
                updated_at: params.updated_at,
                due_date: params.due_date,
                completed_at: params.completed_at,
                events: Seq::empty(),
            }),
    {
        TaskAggregate {
            id: params.id,
            title: params.title,
            description: params.description,
            status: params.status,
            priority: params.priority,
            tags: params.tags,
            created_at: params.created_at,
            updated_at: params.updated_at,
            due_date: params.due_date,
            completed_at: params.completed_at,
            domain_events: Vec::new(),
        }
    }

    /// The same task under another ID.
    pub fn with_id(self, id: TaskId) -> (r: TaskAggregate)
        ensures
            r@ == (TaskModel { id, ..self@ }),
    {
        TaskAggregate { id, ..self }
    }

    /// Completes the task: the status becomes Completed, the completion and
    /// update times are set to now, and a TaskCompleted event is recorded.
    /// A task that is already completed is left as it is.
    pub fn complete(&mut self) -> (r: Result<(), DomainError>)
        ensures
            r is Ok,
            old(self)@.status == Status::Completed ==> final(self)@ == old(self)@,
            old(self)@.status != Status::Completed ==> completed_from(old(self)@, final(self)@),
    {
        if self.status != Status::Completed {
            let t = now();
            self.completed_at = completed_at_on_update(self.status, Status::Completed, self.completed_at, t);
            self.status = Status::Completed;
            self.updated_at = t;
            let event = TaskCompleted::new(self.id, t);
            self.domain_events.push(TaskEvent::Completed(event));
        assert(self.domain_events@.drop_last() =~= old(self).domain_events@);
        }
        Ok(())
    }

    /// Whether the task is overdue on the day numbered `today`.
    pub fn is_overdue_on(&self, today: i32) -> (r: bool)
        ensures
            r == overdue_on(self@, today as int),
    {
        if self.status == Status::Completed {
            return false;
        }
        match &self.due_date {
            Some(d) => d.is_before_day(today),
            None => false,
        }
    }

    /// Whether the task is overdue today (by the UTC calendar): it is not
    /// completed and its due date has passed.
    pub fn is_overdue(&self) -> (r: bool)
        ensures
            exists|today: i32| r == #[trigger] overdue_on(self@, today as int),
            self@.status == Status::Completed ==> !r,
            self@.due_date is None ==> !r,
    {
        let today = today_day_number();
        self.is_overdue_on(today)
    }

    /// Changes the title, stamps the update time and records a
    /// TaskTitleChanged event with the old and the new title.
    pub fn change_title(&mut self, new_title: TaskTitle) -> (r: Result<(), DomainError>)
        ensures
            r is Ok,
            final(self)@ == (TaskModel {
                title: new_title@,
                updated_at: final(self)@.updated_at,
                events: final(self)@.events,
                ..old(self)@
            }),
            one_event_more(old(self)@.events, final(self)@.events),
            final(self)@.events.last() matches TaskEvent::TitleChanged(e) && e.task_id == old(self)@.id
                && e.old_title@ == old(self)@.title && e.new_title@ == new_title@,
    {
        let old_title = self.title.clone();
        self.title = new_title.clone();
        self.updated_at = now();
        let event = TaskTitleChanged::new(self.id, old_title, new_title);
        self.domain_events.push(TaskEvent::TitleChanged(event));
        assert(self.domain_events@.drop_last() =~= old(self).domain_events@);
        Ok(())
    }

    /// Replaces the description and stamps the update time.
    pub fn change_description(&mut self, new_description: TaskDescription) -> (r: Result<(), DomainError>)
        ensures
            r is Ok,
            final(self)@ == (TaskModel {
                description: new_description@,
                updated_at: final(self)@.updated_at,
                ..old(self)@
            }),
    {
        self.description = new_description;
        self.updated_at = now();
        Ok(())
    }

    /// Changes the status. Moving to Completed completes the task (see
    /// `complete`); moving away from Completed clears the completion time;
    /// any other move keeps it. The update time is stamped unless the task
    /// stays Completed, in which case nothing changes.
    pub fn change_status(&mut self, new_status: Status) -> (r: Result<(), DomainError>)
        ensures
            r is Ok,
            old(self)@.status != Status::Completed && new_status == Status::Completed
                ==> completed_from(old(self)@, final(self)@),
            old(self)@.status == Status::Completed && new_status == Status::Completed
                ==> final(self)@ == old(self)@,
            old(self)@.status == Status::Completed && new_status != Status::Completed
                ==> final(self)@ == (TaskModel {
                status: new_status,
                completed_at: None,
                updated_at: final(self)@.updated_at,
                ..old(self)@
            }),
            old(self)@.status != Status::Completed && new_status != Status::Completed
                ==> final(self)@ == (TaskModel {
                status: new_status,
                updated_at: final(self)@.updated_at,
                ..old(self)@
            }),
    {
        if new_status == Status::Completed {
            return self.complete();
        }
        let t = now();
        self.completed_at = completed_at_on_update(self.status, new_status, self.completed_at, t);
        self.status = new_status;
        self.updated_at = t;
        Ok(())
    }

    /// Changes the priority and stamps the update time.
    pub fn change_priority(&mut self, new_priority: Priority) -> (r: Result<(), DomainError>)
        ensures
            r is Ok,
            final(self)@ == (TaskModel {
                priority: new_priority,
                updated_at: final(self)@.updated_at,
                ..old(self)@
            }),
    {
        self.priority = new_priority;
        self.updated_at = now();
        Ok(())
    }

    /// Sets or clears the due date and stamps the update time.
    pub fn change_due_date(&mut self, new_due_date: Option<DueDate>) -> (r: Result<(), DomainError>)
        ensures
            r is Ok,
            final(self)@ == (TaskModel {
                due_date: new_due_date,
                updated_at: final(self)@.updated_at,
                ..old(self)@
            }),
    {
        self.due_date = new_due_date;
        self.updated_at = now();
        Ok(())
    }

    /// Replaces all tags and stamps the update time.
    pub fn replace_tags(&mut self, new_tags: Vec<TagId>) -> (r: Result<(), DomainError>)
        ensures
            r is Ok,
            final(self)@ == (TaskModel {
                tags: new_tags@,
                updated_at: final(self)@.updated_at,
                ..old(self)@
            }),
    {
        self.tags = new_tags;
        self.updated_at = now();
        Ok(())
    }

    /// Adds a tag at the end, stamps the update time and records a
    /// TaskTagAdded event. Refused, with nothing changed, when the task
    /// already carries the tag.
    pub fn add_tag(&mut self, tag_id: TagId) -> (r: Result<(), DomainError>)
        ensures
            r is Err <==> old(self)@.tags.contains(tag_id),
            r matches Err(e) ==> e == DomainError::DuplicateTag(tag_id@) && final(self)@ == old(self)@,
            r is Ok ==> final(self)@ == (TaskModel {
                tags: old(self)@.tags.push(tag_id),
                updated_at: final(self)@.updated_at,
                events: final(self)@.events,
                ..old(self)@
            }),
            r is Ok ==> one_event_more(old(self)@.events, final(self)@.events),
            r is Ok ==> (final(self)@.events.last() matches TaskEvent::TagAdded(e) && e.task_id
                == old(self)@.id && e.tag_id == tag_id),
    {
        if contains_tag(&self.tags, tag_id) {
            return Err(DomainError::DuplicateTag(tag_id.value()));
        }
        self.tags.push(tag_id);
        self.updated_at = now();
        let event = TaskTagAdded::new(self.id, tag_id);
        self.domain_events.push(TaskEvent::TagAdded(event));
        assert(self.domain_events@.drop_last() =~= old(self).domain_events@);
        Ok(())
    }

    /// Removes every occurrence of a tag, stamps the update time and records
    /// a TaskTagRemoved event. Refused, with nothing changed, when the task
    /// does not carry the tag.
    pub fn remove_tag(&mut self, tag_id: &TagId) -> (r: Result<(), DomainError>)
        ensures
            r is Err <==> !old(self)@.tags.contains(*tag_id),
            r matches Err(e) ==> e == DomainError::MissingTag(tag_id@) && final(self)@ == old(self)@,
            r is Ok ==> final(self)@ == (TaskModel {
                tags: tags_without(old(self)@.tags, *tag_id),
                updated_at: final(self)@.updated_at,
                events: final(self)@.events,
                ..old(self)@
            }),
            r is Ok ==> one_event_more(old(self)@.events, final(self)@.events),
            r is Ok ==> (final(self)@.events.last() matches TaskEvent::TagRemoved(e) && e.task_id
                == old(self)@.id && e.tag_id == *tag_id),
    {
        if !contains_tag(&self.tags, *tag_id) {
            return Err(DomainError::MissingTag(tag_id.value()));
        }
        self.tags = without_tag(&self.tags, *tag_id);
        self.updated_at = now();
        let event = TaskTagRemoved::new(self.id, *tag_id);
        self.domain_events.push(TaskEvent::TagRemoved(event));
        assert(self.domain_events@.drop_last() =~= old(self).domain_events@);
        Ok(())
    }

    /// The task's identifier.
    pub fn id(&self) -> (r: &TaskId)
        ensures
            *r == self@.id,
    {
        &self.id
    }

    /// The task's title.
    pub fn title(&self) -> (r: &TaskTitle)
        ensures
            r@ == self@.title,
    {
        &self.title
    }

    /// The task's description.
    pub fn description(&self) -> (r: &TaskDescription)
        ensures
            r@ == self@.description,
    {
        &self.description
    }

    /// The task's status.
    pub fn status(&self) -> (r: &Status)
        ensures
            *r == self@.status,
    {
        &self.status
    }

    /// The task's priority.
    pub fn priority(&self) -> (r: &Priority)
        ensures
            *r == self@.priority,
    {
        &self.priority
    }

    /// The identifiers of the task's tags, in the order they were added.
    pub fn tags(&self) -> (r: &Vec<TagId>)
        ensures
            r@ == self@.tags,
    {
        &self.tags
    }

    /// When the task was created.
    pub fn created_at(&self) -> (r: &Timestamp)
        ensures
            *r == self@.created_at,
    {
        &self.created_at
    }

    /// When the task was last changed.
    pub fn updated_at(&self) -> (r: &Timestamp)
        ensures
            *r == self@.updated_at,
    {
        &self.updated_at
    }

    /// The task's due date, if it has one.
    pub fn due_date(&self) -> (r: &Option<DueDate>)
        ensures
            *r == self@.due_date,
    {
        &self.due_date
    }

    /// When the task was completed, if it was.
    pub fn completed_at(&self) -> (r: &Option<Timestamp>)
        ensures
            *r == self@.completed_at,
    {
        &self.completed_at
    }

    /// The domain events recorded since the last `clear_events`.
    pub fn domain_events(&self) -> (r: &Vec<TaskEvent>)
        ensures
            r@ == self@.events,
    {
        &self.domain_events
    }

    /// Forgets the recorded domain events.
    pub fn clear_events(&mut self)
        ensures
            final(self)@ == (TaskModel { events: Seq::empty(), ..old(self)@ }),
    {
        self.domain_events = Vec::new();
    }
}

} // verus!
