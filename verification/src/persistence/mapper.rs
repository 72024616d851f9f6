use vstd::prelude::*;

use crate::domain::date::CalendarDate;

use crate::domain::aggregate::{TaskAggregate, TaskModel, TaskReconstructParams};
use crate::domain::clock::{now, Timestamp};
use crate::domain::tag::{
    lemma_tag_id_view_eq, valid_tag_name, TagAggregate, TagDescription, TagId, TagModel, TagName, TagReconstructParams,
};
use crate::domain::task::{
    lemma_task_id_view_eq, priority_name, priority_of_name, status_name, valid_title, DueDate, Priority, Status,
    TaskDescription, TaskId, TaskTitle,
};
use crate::error::DomainError;
use crate::text::{is_blank, str_eq};

verus! {

/// A task as a storage row holds it: status and priority by their stored
/// names ("Pending", "High", ...).
#[derive(Debug, Clone)]
pub struct TaskRow {
    pub id: i32,
    pub title: String,
    pub description: String,
    pub status: String,
    pub priority: String,
    pub created_at: Timestamp,
    pub updated_at: Timestamp,
    pub due_date: Option<CalendarDate>,
    pub completed_at: Option<Timestamp>,
}

/// A tag as a storage row holds it.
#[derive(Debug, Clone)]
pub struct TagRow {
    pub id: i32,
    pub name: String,
    pub description: String,
    pub created_at: Timestamp,
    pub updated_at: Timestamp,
}

/// The status a stored name stands for: exactly "Pending", "InProgress" or
/// "Completed".
pub open spec fn stored_status(s: Seq<char>) -> Option<Status> {
    if s == "Pending"@ {
        Some(Status::Pending)
    } else if s == "InProgress"@ {
        Some(Status::InProgress)
    } else if s == "Completed"@ {
        Some(Status::Completed)
    } else {
        None
    }
}

/// Whether no ID in `ids` is negative.
pub open spec fn all_non_negative(ids: Seq<i32>) -> bool {
    forall|i: int| 0 <= i < ids.len() ==> ids[i] >= 0
}

/// The tag IDs as plain integers.
pub open spec fn tag_id_values(tags: Seq<TagId>) -> Seq<i32> {
    tags.map_values(|t: TagId| t@)
}

/// Whether a stored task row, with its tag IDs, makes a valid task.
pub open spec fn task_row_valid(row: TaskRow, tag_ids: Seq<i32>) -> bool {
    &&& stored_status(row.status@) is Some
    &&& priority_of_name(row.priority@) is Some
    &&& all_non_negative(tag_ids)
    &&& row.id >= 0
    &&& valid_title(row.title@)
}

/// Whether `t` is the task that `row` and `tag_ids` describe, with no
/// pending events.
pub open spec fn task_from_row(t: TaskModel, row: TaskRow, tag_ids: Seq<i32>) -> bool {
    &&& t.id@ == row.id
    &&& t.title == row.title@
    &&& t.description == row.description@
    &&& Some(t.status) == stored_status(row.status@)
    &&& Some(t.priority) == priority_of_name(row.priority@)
    &&& tag_id_values(t.tags) == tag_ids
    &&& t.created_at == row.created_at
    &&& t.updated_at == row.updated_at
    &&& match row.due_date {
        None => t.due_date is None,
        Some(d) => t.due_date matches Some(dd) && dd.spec_date() == d,
    }
    &&& t.completed_at == row.completed_at
    &&& t.events.len() == 0
}

/// Whether `row` holds the task `t`: every field as the task has it, the
/// status and priority by their stored names.
pub open spec fn row_of_task(row: TaskRow, t: TaskModel) -> bool {
    &&& row.id == t.id@
    &&& row.title@ == t.title
    &&& row.description@ == t.description
    &&& row.status@ == status_name(t.status)
    &&& row.priority@ == priority_name(t.priority)
    &&& row.created_at == t.created_at
    &&& row.updated_at == t.updated_at
    &&& match t.due_date {
        None => row.due_date is None,
        Some(dd) => row.due_date == Some(dd.spec_date()),
    }
    &&& row.completed_at == t.completed_at
}

/// Every status's stored name reads back as that status.
pub proof fn law_stored_status_round_trip(s: Status)
    ensures
        stored_status(status_name(s)) == Some(s),
{
    reveal_strlit("Pending");
    reveal_strlit("InProgress");
    reveal_strlit("Completed");
    assert("Pending"@.len() == 7 && "InProgress"@.len() == 10 && "Completed"@.len() == 9);
    assert("Pending"@[0] != "Completed"@[0]);
}

/// Every priority's stored name reads back as that priority.
pub proof fn law_stored_priority_round_trip(p: Priority)
    ensures
        priority_of_name(priority_name(p)) == Some(p),
{
    reveal_strlit("Low");
    reveal_strlit("Medium");
    reveal_strlit("High");
    reveal_strlit("Critical");
    assert("Low"@.len() == 3 && "Medium"@.len() == 6 && "High"@.len() == 4 && "Critical"@.len()
        == 8);
}

/// Writing a valid task to a row and reading the row back gives the same
/// task, without pending events (its due date read back from the same
/// calendar date). Every task aggregate is valid so: its row, from
/// `TaskMapper::to_active_model_for_insert`, has an ID of at least zero and
/// a valid title, and its tag IDs, from `TaskMapper::tag_ids`, are none of
/// them negative.
pub proof fn law_task_row_round_trip(t: TaskModel, row: TaskRow, back: TaskModel)
    requires
        row_of_task(row, t),
        t.id@ >= 0,
        valid_title(t.title),
        all_non_negative(tag_id_values(t.tags)),
    ensures
        task_row_valid(row, tag_id_values(t.tags)),
        task_from_row(back, row, tag_id_values(t.tags)) ==> {
            &&& back.id == t.id
            &&& back.title == t.title
            &&& back.description == t.description
            &&& back.status == t.status
            &&& back.priority == t.priority
            &&& back.tags == t.tags
            &&& back.created_at == t.created_at
            &&& back.updated_at == t.updated_at
            &&& back.completed_at == t.completed_at
            &&& match t.due_date {
                None => back.due_date is None,
                Some(dd) => back.due_date matches Some(bd) && bd.spec_date() == dd.spec_date(),
            }
            &&& back.events.len() == 0
        },
{
    broadcast use lemma_task_id_view_eq, lemma_tag_id_view_eq;

    law_stored_status_round_trip(t.status);
    law_stored_priority_round_trip(t.priority);
    if task_from_row(back, row, tag_id_values(t.tags)) {
        assert(back.tags.len() == t.tags.len()) by {
            assert(tag_id_values(back.tags).len() == tag_id_values(t.tags).len());
        }
        assert forall|i: int| 0 <= i < t.tags.len() implies back.tags[i] == t.tags[i] by {
            assert(tag_id_values(back.tags)[i] == tag_id_values(t.tags)[i]);
        }
        assert(back.tags =~= t.tags);
    }
}

fn parse_stored_status(s: &str) -> (r: Option<Status>)
    ensures
        r == stored_status(s@),
{
    if str_eq(s, "Pending") {
        Some(Status::Pending)
    } else if str_eq(s, "InProgress") {
        Some(Status::InProgress)
    } else if str_eq(s, "Completed") {
        Some(Status::Completed)
    } else {
        None
    }
}

fn parse_stored_priority(s: &str) -> (r: Option<Priority>)
    ensures
        r == priority_of_name(s@),
{
    if str_eq(s, "Low") {
        Some(Priority::Low)
    } else if str_eq(s, "Medium") {
        Some(Priority::Medium)
    } else if str_eq(s, "High") {
        Some(Priority::High)
    } else if str_eq(s, "Critical") {
        Some(Priority::Critical)
    } else {
        None
    }
}

pub(crate) fn tag_ids_of(ids: &Vec<i32>) -> (r: Result<Vec<TagId>, DomainError>)
    ensures
        r is Ok <==> all_non_negative(ids@),
        r matches Ok(v) ==> tag_id_values(v@) == ids@,
        r matches Err(e) ==> e == DomainError::NegativeTagId,
{
    let mut out: Vec<TagId> = Vec::new();
    let mut i: usize = 0;
    while i < ids.len()
        invariant
            i <= ids.len(),
            forall|j: int| 0 <= j < i ==> ids@[j] >= 0,
            tag_id_values(out@) == ids@.take(i as int),
        decreases ids.len() - i,
    {
        match TagId::new(ids[i]) {
            Ok(t) => {
                let ghost before = out@;
                out.push(t);
                assert(tag_id_values(out@) =~= tag_id_values(before).push(ids@[i as int]));
                assert(ids@.take(i + 1) =~= ids@.take(i as int).push(ids@[i as int]));
            },
            Err(e) => {
                return Err(e);
            },
        }
        i += 1;
    }
    assert(ids@.take(ids.len() as int) =~= ids@);
    Ok(out)
}

/// Maps between task rows and task aggregates.
pub struct TaskMapper;

impl TaskMapper {
    /// Rebuilds a task from its row and its tag IDs. The checks come in this
    /// order: the status name, the priority name, the task ID, the title,
    /// the tag IDs; the first that fails gives the error.
    pub fn to_domain(task_model: TaskRow, tag_ids: Vec<i32>) -> (r: Result<
        TaskAggregate,
        DomainError,
    >)
        ensures
            r is Ok <==> task_row_valid(task_model, tag_ids@),
            r matches Ok(t) ==> task_from_row(t@, task_model, tag_ids@),
            stored_status(task_model.status@) is None ==> (r matches Err(
                DomainError::UnknownStoredStatus(s),
            ) && s@ == task_model.status@),
            stored_status(task_model.status@) is Some && priority_of_name(task_model.priority@) is None
                ==> (r matches Err(DomainError::UnknownStoredPriority(s)) && s@
                == task_model.priority@),
            stored_status(task_model.status@) is Some && priority_of_name(task_model.priority@) is Some
                && task_model.id < 0 ==> r == Err::<TaskAggregate, DomainError>(
                DomainError::NegativeTaskId,
            ),
            stored_status(task_model.status@) is Some && priority_of_name(task_model.priority@) is Some
                && task_model.id >= 0 && !valid_title(task_model.title@) ==> (r matches Err(e) && (e
                == DomainError::EmptyTitle <==> is_blank(task_model.title@)) && (e
                == DomainError::EmptyTitle || e == DomainError::TitleTooLong)),
            stored_status(task_model.status@) is Some && priority_of_name(task_model.priority@) is Some
                && task_model.id >= 0 && valid_title(task_model.title@) && !all_non_negative(tag_ids@)
                ==> r == Err::<TaskAggregate, DomainError>(DomainError::NegativeTagId),
    {
        let status = match parse_stored_status(task_model.status.as_str()) {
            Some(s) => s,
            None => {
                return Err(DomainError::UnknownStoredStatus(task_model.status));
            },
        };
        let priority = match parse_stored_priority(task_model.priority.as_str()) {
            Some(p) => p,
            None => {
                return Err(DomainError::UnknownStoredPriority(task_model.priority));
            },
        };
        let due_date = match task_model.due_date {
            Some(d) => match DueDate::new(d) {
                Ok(dd) => Some(dd),
                Err(e) => {
                    return Err(e);
                },
            },
            None => None,
        };
        let id = match TaskId::new(task_model.id) {
            Ok(id) => id,
            Err(e) => {
                return Err(e);
            },
        };
        let title = match TaskTitle::new(task_model.title.as_str()) {
            Ok(t) => t,
            Err(e) => {
                return Err(e);
            },
        };
        let description = match TaskDescription::new(task_model.description.as_str()) {
            Ok(d) => d,
            Err(e) => {
                return Err(e);
            },
        };
        let tags = match tag_ids_of(&tag_ids) {
            Ok(v) => v,
            Err(e) => {
                return Err(e);
            },
        };
        let params = TaskReconstructParams {
            id,
            title,
            description,
            status,
            priority,
            tags,
            created_at: task_model.created_at,
            updated_at: task_model.updated_at,
            due_date,
            completed_at: task_model.completed_at,
        };
        Ok(TaskAggregate::reconstruct(params))
    }

    /// The row for inserting a task: every field as the task holds it.
    pub fn to_active_model_for_insert(aggregate: &TaskAggregate) -> (r: TaskRow)
        ensures
            row_of_task(r, aggregate@),
            r.id >= 0,
            valid_title(r.title@),
    {
        let due_date = match aggregate.due_date() {
            Some(dd) => Some(dd.value()),
            None => None,
        };
        TaskRow {
            id: aggregate.id().value(),
            title: aggregate.title().value().to_string(),
            description: aggregate.description().value().to_string(),
            status: aggregate.status().as_str().to_string(),
            priority: aggregate.priority().as_str().to_string(),
            created_at: *aggregate.created_at(),
            updated_at: *aggregate.updated_at(),
            due_date,
            completed_at: *aggregate.completed_at(),
        }
    }

    /// The IDs of a task's tags as plain integers, in order, as they are
    /// stored beside its row; none is negative.
    pub fn tag_ids(aggregate: &TaskAggregate) -> (r: Vec<i32>)
        ensures
            r@ == tag_id_values(aggregate@.tags),
            all_non_negative(r@),
    {
        let tags = aggregate.tags();
        let mut out: Vec<i32> = Vec::new();
        let mut i: usize = 0;
        while i < tags.len()
            invariant
                i <= tags.len(),
                tags@ == aggregate@.tags,
                out@ == tag_id_values(tags@.take(i as int)),
                all_non_negative(out@),
            decreases tags.len() - i,
        {
            let v = tags[i].value();
            out.push(v);
            assert(tag_id_values(tags@.take(i + 1)) =~= tag_id_values(tags@.take(i as int)).push(
                tags@[i as int]@,
            ));
            i += 1;
        }
        assert(tags@.take(tags.len() as int) =~= tags@);
        out
    }

    /// The row for updating a task: as for inserting, but stamped as
    /// updated now.
    pub fn to_active_model_for_update(aggregate: &TaskAggregate) -> (r: TaskRow)
        ensures
            r.id == aggregate@.id@,
            r.title@ == aggregate@.title,
            r.description@ == aggregate@.description,
            r.status@ == status_name(aggregate@.status),
            r.priority@ == priority_name(aggregate@.priority),
            r.created_at == aggregate@.created_at,
            match aggregate@.due_date {
                None => r.due_date is None,
                Some(dd) => r.due_date == Some(dd.spec_date()),
            },
            r.completed_at == aggregate@.completed_at,
    {
        let mut row = TaskMapper::to_active_model_for_insert(aggregate);
        row.updated_at = now();
        row
    }
}

/// Whether a stored tag row makes a valid tag.
pub open spec fn tag_row_valid(row: TagRow) -> bool {
    row.id >= 0 && valid_tag_name(row.name@)
}

/// Maps between tag rows and tag aggregates.
pub struct TagMapper;

impl TagMapper {
    /// Rebuilds a tag from its row; the ID is checked first, then the name.
    pub fn to_domain(tag_model: TagRow) -> (r: Result<TagAggregate, DomainError>)
        ensures
            r is Ok <==> tag_row_valid(tag_model),
            r matches Ok(t) ==> t@ == (TagModel {
                id: t@.id,
                name: tag_model.name@,
                description: tag_model.description@,
                created_at: tag_model.created_at,
                updated_at: tag_model.updated_at,
            }) && t@.id@ == tag_model.id,
            tag_model.id < 0 ==> r == Err::<TagAggregate, DomainError>(DomainError::NegativeTagId),
            tag_model.id >= 0 && !valid_tag_name(tag_model.name@) ==> (r matches Err(e) && (e
                == DomainError::EmptyTagName <==> is_blank(tag_model.name@)) && (e
                == DomainError::EmptyTagName || e == DomainError::TagNameTooLong)),
    {
        let id = match TagId::new(tag_model.id) {
            Ok(id) => id,
            Err(e) => {
                return Err(e);
            },
        };
        let name = match TagName::new(tag_model.name.as_str()) {
            Ok(n) => n,
            Err(e) => {
                return Err(e);
            },
        };
        let description = match TagDescription::new(tag_model.description.as_str()) {
            Ok(d) => d,
            Err(e) => {
                return Err(e);
            },
        };
        let params = TagReconstructParams {
            id,
            name,
            description,
            created_at: tag_model.created_at,
            updated_at: tag_model.updated_at,
        };
        Ok(TagAggregate::reconstruct(params))
    }

    /// The row for inserting a tag: every field as the tag holds it.
    pub fn to_active_model_for_insert(aggregate: &TagAggregate) -> (r: TagRow)
        ensures
            r.id == aggregate@.id@,
            r.name@ == aggregate@.name,
            r.description@ == aggregate@.description,
            r.created_at == aggregate@.created_at,
            r.updated_at == aggregate@.updated_at,
    {
        TagRow {
            id: aggregate.id().value(),
            name: aggregate.name().value().to_string(),
            description: aggregate.description().value().to_string(),
            created_at: *aggregate.created_at(),
            updated_at: *aggregate.updated_at(),
        }
    }

    /// The row for updating a tag: as for inserting, but stamped as updated
    /// now.
    pub fn to_active_model_for_update(aggregate: &TagAggregate) -> (r: TagRow)
        ensures
            r.id == aggregate@.id@,
            r.name@ == aggregate@.name,
            r.description@ == aggregate@.description,
            r.created_at == aggregate@.created_at,
    {
        let mut row = TagMapper::to_active_model_for_insert(aggregate);
        row.updated_at = now();
        row
    }
}

} // verus!
