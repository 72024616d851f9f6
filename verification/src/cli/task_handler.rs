use vstd::prelude::*;

use crate::domain::date::CalendarDate;

use crate::domain::aggregate::{TaskAggregate, TaskModel};
use crate::domain::tag::{lemma_tag_id_view_eq, TagId, TagModel};
use crate::domain::tag_repository::InMemoryTagRepository;
use crate::domain::task::{
    valid_title, DueDate, Priority, Status, TaskDescription, TaskTitle,
};
use crate::error::DomainError;
use crate::persistence::mapper::{all_non_negative, tag_id_values, tag_ids_of};
use crate::text::is_blank;

verus! {

/// Whether some stored tag has the ID `v`.
pub open spec fn tag_known(ts: Seq<TagModel>, v: i32) -> bool {
    exists|i: int| 0 <= i < ts.len() && ts[i].id@ == v
}

/// Checks tag IDs given on the command line: a negative ID is refused
/// first; then the first ID that no stored tag has is reported.
pub fn validate_tag_ids(tag_repo: &InMemoryTagRepository, tag_ids: &[i32]) -> (r: Result<
    (),
    DomainError,
>)
    requires
        tag_repo.wf(),
    ensures
        !all_non_negative(tag_ids@) ==> r == Err::<(), DomainError>(DomainError::NegativeTagId),
        all_non_negative(tag_ids@) ==> (r is Ok <==> forall|i: int|
            0 <= i < tag_ids@.len() ==> tag_known(tag_repo@.tags, #[trigger] tag_ids@[i])),
        all_non_negative(tag_ids@) ==> (r matches Err(e) ==> exists|j: int|
            0 <= j < tag_ids@.len() && e == DomainError::UnknownTagId(tag_ids@[j]) && !tag_known(
                tag_repo@.tags,
                tag_ids@[j],
            ) && forall|k: int| 0 <= k < j ==> tag_known(tag_repo@.tags, #[trigger] tag_ids@[k])),
{
    broadcast use lemma_tag_id_view_eq;

    if tag_ids.len() == 0 {
        return Ok(());
    }
    let mut ids: Vec<TagId> = Vec::new();
    let mut i: usize = 0;
    while i < tag_ids.len()
        invariant
            i <= tag_ids.len(),
            ids@.len() == i,
            forall|j: int| 0 <= j < i ==> #[trigger] tag_ids@[j] >= 0,
            forall|j: int| 0 <= j < i ==> (#[trigger] ids@[j])@ == tag_ids@[j],
        decreases tag_ids.len() - i,
    {
        match TagId::new(tag_ids[i]) {
            Ok(t) => {
                let ghost before = ids@;
                ids.push(t);
                assert forall|j: int| 0 <= j < i + 1 implies (#[trigger] ids@[j])@ == tag_ids@[j] by {
                    if j < i {
                        assert(ids@[j] == before[j]);
                    } else {
                        assert(ids@[j] == t);
                    }
                }
            },
            Err(e) => {
                return Err(e);
            },
        }
        i += 1;
    }
    assert forall|j: int| 0 <= j < tag_ids@.len() implies tag_ids@[j] >= 0 by {
        assert(ids@[j]@ == tag_ids@[j]);
    }
    assert(all_non_negative(tag_ids@));
    let mut k: usize = 0;
    while k < tag_ids.len()
        invariant
            tag_repo.wf(),
            k <= tag_ids.len(),
            ids@.len() == tag_ids.len(),
            forall|j: int| 0 <= j < tag_ids.len() ==> (#[trigger] ids@[j])@ == tag_ids@[j],
            all_non_negative(tag_ids@),
            forall|j: int| 0 <= j < k ==> tag_known(tag_repo@.tags, #[trigger] tag_ids@[j]),
        decreases tag_ids.len() - k,
    {
        let found = tag_repo.find_by_id(&ids[k]);
        if found.is_none() {
            proof {
                if tag_known(tag_repo@.tags, tag_ids@[k as int]) {
                    let w = choose|w: int|
                        0 <= w < tag_repo@.tags.len() && tag_repo@.tags[w].id@ == tag_ids@[k as int];
                    assert(ids@[k as int]@ == tag_ids@[k as int]);
                    lemma_tag_id_view_eq(tag_repo@.tags[w].id, ids@[k as int]);
                    assert(tag_repo@.tags[w].id == ids@[k as int]);
                }
            }
            return Err(DomainError::UnknownTagId(tag_ids[k]));
        }
        proof {
            let w = choose|w: int|
                0 <= w < tag_repo@.tags.len() && tag_repo@.tags[w].id == ids@[k as int];
            assert(tag_repo@.tags[w].id@ == tag_ids@[k as int]);
        }
        k += 1;
    }
    Ok(())
}

/// What a task is added with on the command line.
#[derive(Debug)]
pub struct AddTaskParams {
    pub title: Option<String>,
    pub description: Option<String>,
    pub status: Option<Status>,
    pub priority: Option<Priority>,
    pub tags: Option<Vec<i32>>,
    pub due_date: Option<CalendarDate>,
}

impl AddTaskParams {
    /// Whether the task is asked for interactively: when no title is given.
    pub fn is_interactive(&self) -> (r: bool)
        ensures
            r == (self.title is None),
    {
        self.title.is_none()
    }
}

/// What a task is edited with on the command line.
#[derive(Debug)]
pub struct EditTaskParams {
    pub title: Option<String>,
    pub description: Option<String>,
    pub status: Option<Status>,
    pub priority: Option<Priority>,
    pub tags: Option<Vec<i32>>,
    pub due_date: Option<CalendarDate>,
    pub clear_due_date: bool,
}

impl EditTaskParams {
    /// Whether the task is edited interactively: when no change at all is
    /// given.
    pub fn is_interactive(&self) -> (r: bool)
        ensures
            r == (self.title is None && self.description is None && self.status is None
                && self.priority is None && self.tags is None && self.due_date is None
                && !self.clear_due_date),
    {
        self.title.is_none() && self.description.is_none() && self.status.is_none()
            && self.priority.is_none() && self.tags.is_none() && self.due_date.is_none()
            && !self.clear_due_date
    }

    /// The due date the edit sets: none when it is cleared, else the one
    /// given (none when none is given).
    pub fn final_due_date(&self) -> (r: Option<CalendarDate>)
        ensures
            self.clear_due_date ==> r is None,
            !self.clear_due_date ==> r == self.due_date,
    {
        if self.clear_due_date {
            None
        } else {
            self.due_date
        }
    }
}


/// Whether the tag IDs given, if any, are all non-negative.
pub open spec fn tags_ok(tags: Option<Vec<i32>>) -> bool {
    match tags {
        Some(v) => all_non_negative(v@),
        None => true,
    }
}

/// Whether the title given, if any, is a valid title.
pub open spec fn title_ok(title: Option<String>) -> bool {
    match title {
        Some(t) => valid_title(t@),
        None => true,
    }
}

/// The due date a task has after an edit whose due-date part is `clear`
/// and `given`, from `old`.
pub open spec fn due_after_edit(
    old: Option<DueDate>,
    clear: bool,
    given: Option<CalendarDate>,
    new: Option<DueDate>,
) -> bool {
    if clear {
        new is None
    } else {
        match given {
            Some(d) => new matches Some(dd) && dd.spec_date() == d,
            None => new == old,
        }
    }
}

/// An edit keeps the due date unless it asks otherwise: without a date and
/// without clearing, the date stays; clearing removes it, whatever date is
/// also given; a given date, without clearing, becomes the task's.
pub proof fn law_due_date_edit(
    old: Option<DueDate>,
    clear: bool,
    given: Option<CalendarDate>,
    new: Option<DueDate>,
)
    requires
        due_after_edit(old, clear, given, new),
    ensures
        !clear && given is None ==> new == old,
        clear ==> new is None,
        !clear ==> (given matches Some(d) ==> (new matches Some(dd) && dd.spec_date() == d)),
{
}

/// The completion time after a status edit, as `change_status` sets it:
/// moving to Completed sets one, moving away from Completed clears it, and
/// otherwise it stays.
pub open spec fn completion_after_edit(old: TaskModel, status: Option<Status>, new: TaskModel) -> bool {
    match status {
        None => new.completed_at == old.completed_at,
        Some(s) => if s == Status::Completed {
            if old.status == Status::Completed {
                new.completed_at == old.completed_at
            } else {
                new.completed_at is Some
            }
        } else if old.status == Status::Completed {
            new.completed_at is None
        } else {
            new.completed_at == old.completed_at
        },
    }
}

impl AddTaskParams {
    /// The task that the add command creates under `title`: the description
    /// given (empty when none), status Pending and priority Medium unless
    /// given, the tags given (none when none), the due date given. The tag
    /// IDs are checked first, then the title.
    pub fn build_task(&self, title: &str) -> (r: Result<TaskAggregate, DomainError>)
        ensures
            r is Ok <==> tags_ok(self.tags) && valid_title(title@),
            !tags_ok(self.tags) ==> r == Err::<TaskAggregate, DomainError>(
                DomainError::NegativeTagId,
            ),
            tags_ok(self.tags) && !valid_title(title@) ==> (r matches Err(e) && (e
                == DomainError::EmptyTitle <==> is_blank(title@)) && (e == DomainError::EmptyTitle
                || e == DomainError::TitleTooLong)),
            r matches Ok(t) ==> {
                &&& t@.id@ == 0
                &&& t@.title == title@
                &&& t@.description == (match self.description {
                    Some(d) => d@,
                    None => Seq::<char>::empty(),
                })
                &&& t@.status == (match self.status {
                    Some(s) => s,
                    None => Status::Pending,
                })
                &&& t@.priority == (match self.priority {
                    Some(p) => p,
                    None => Priority::Medium,
                })
                &&& tag_id_values(t@.tags) == (match self.tags {
                    Some(v) => v@,
                    None => Seq::<i32>::empty(),
                })
                &&& match self.due_date {
                    Some(d) => t@.due_date matches Some(dd) && dd.spec_date() == d,
                    None => t@.due_date is None,
                }
                &&& t@.completed_at is None
                &&& t@.events.len() == 0
            },
    {
        let tags = match &self.tags {
            Some(ids) => match tag_ids_of(ids) {
                Ok(v) => v,
                Err(e) => {
                    return Err(e);
                },
            },
            None => Vec::new(),
        };
        assert(self.tags is None ==> tag_id_values(tags@) =~= Seq::<i32>::empty());
        let title = match TaskTitle::new(title) {
            Ok(t) => t,
            Err(e) => {
                return Err(e);
            },
        };
        let description = match &self.description {
            Some(d) => TaskDescription::new(d.as_str()),
            None => TaskDescription::new(""),
        };
        let description = match description {
            Ok(d) => d,
            Err(e) => {
                return Err(e);
            },
        };
        proof {
            reveal_strlit("");
        }
        let status = match self.status {
            Some(s) => s,
            None => Status::Pending,
        };
        let priority = match self.priority {
            Some(p) => p,
            None => Priority::Medium,
        };
        let due_date = match self.due_date {
            Some(d) => match DueDate::new(d) {
                Ok(dd) => Some(dd),
                Err(e) => {
                    return Err(e);
                },
            },
            None => None,
        };
        Ok(TaskAggregate::new(title, description, status, priority, tags, due_date))
    }
}

impl EditTaskParams {
    /// Applies the edit to `task`: the title, description, status, priority
    /// and tags given replace the task's, and the due date is cleared or set
    /// as asked. The tag IDs are checked first, then the title; when a check
    /// fails nothing changes.
    pub fn apply(&self, task: &mut TaskAggregate) -> (r: Result<(), DomainError>)
        ensures
            r is Ok <==> tags_ok(self.tags) && title_ok(self.title),
            r is Err ==> final(task)@ == old(task)@,
            !tags_ok(self.tags) ==> r == Err::<(), DomainError>(DomainError::NegativeTagId),
            tags_ok(self.tags) && !title_ok(self.title) ==> (r matches Err(e) && (e
                == DomainError::EmptyTitle || e == DomainError::TitleTooLong)),
            r is Ok ==> {
                &&& final(task)@.id == old(task)@.id
                &&& final(task)@.created_at == old(task)@.created_at
                &&& final(task)@.title == (match self.title {
                    Some(t) => t@,
                    None => old(task)@.title,
                })
                &&& final(task)@.description == (match self.description {
                    Some(d) => d@,
                    None => old(task)@.description,
                })
                &&& final(task)@.status == (match self.status {
                    Some(s) => s,
                    None => old(task)@.status,
                })
                &&& final(task)@.priority == (match self.priority {
                    Some(p) => p,
                    None => old(task)@.priority,
                })
                &&& match self.tags {
                    Some(v) => tag_id_values(final(task)@.tags) == v@,
                    None => final(task)@.tags == old(task)@.tags,
                }
                &&& due_after_edit(
                    old(task)@.due_date,
                    self.clear_due_date,
                    self.due_date,
                    final(task)@.due_date,
                )
                &&& completion_after_edit(old(task)@, self.status, final(task)@)
            },
            r is Ok && !self.clear_due_date && self.due_date is None ==> final(task)@.due_date
                == old(task)@.due_date,
            r is Ok && self.clear_due_date ==> final(task)@.due_date is None,
            r is Ok && !self.clear_due_date ==> (self.due_date matches Some(d) ==> (
                final(task)@.due_date matches Some(dd) && dd.spec_date() == d)),
    {
        let tags = match &self.tags {
            Some(ids) => match tag_ids_of(ids) {
                Ok(v) => Some(v),
                Err(e) => {
                    return Err(e);
                },
            },
            None => None,
        };
        let title = match &self.title {
            Some(t) => match TaskTitle::new(t.as_str()) {
                Ok(tt) => Some(tt),
                Err(e) => {
                    return Err(e);
                },
            },
            None => None,
        };
        let due = if self.clear_due_date {
            Some(None)
        } else {
            match self.due_date {
                Some(d) => match DueDate::new(d) {
                    Ok(dd) => Some(Some(dd)),
                    Err(e) => {
                        return Err(e);
                    },
                },
                None => None,
            }
        };
        let ghost start = task@;
        if let Some(t) = title {
            let _ = task.change_title(t);
        }
        if let Some(d) = &self.description {
            match TaskDescription::new(d.as_str()) {
                Ok(desc) => {
                    let _ = task.change_description(desc);
                },
                Err(_) => {},
            }
        }
        let ghost before_status = task@;
        assert(before_status.status == start.status);
        assert(before_status.completed_at == start.completed_at);
        if let Some(s) = self.status {
            let _ = task.change_status(s);
        }
        if let Some(p) = self.priority {
            let _ = task.change_priority(p);
        }
        if let Some(v) = tags {
            let _ = task.replace_tags(v);
        }
        if let Some(dd) = due {
            let _ = task.change_due_date(dd);
        }
        Ok(())
    }
}

} // verus!
