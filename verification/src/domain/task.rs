use vstd::prelude::*;
use vstd::string::StrSliceExecFns;

use crate::domain::date::{date_before, day_number_of, CalendarDate};

use crate::error::DomainError;
use crate::text::{is_blank, is_blank_str, str_eq, to_lowercase, lowercase};

verus! {

/// The identifier of a task: an integer of at least zero.
#[derive(Debug, Clone, Copy, PartialEq, Eq, Hash, Structural)]
pub struct TaskId(i32);

impl View for TaskId {
    type V = i32;

    closed spec fn view(&self) -> i32 {
        self.0
    }
}

/// Two task IDs are equal exactly when their values are.
pub broadcast proof fn lemma_task_id_view_eq(a: TaskId, b: TaskId)
    ensures
        (#[trigger] a@ == #[trigger] b@) <==> a == b,
{
}

impl TaskId {
    #[verifier::type_invariant]
    spec fn non_negative(self) -> bool {
        self.0 >= 0
    }

    /// A task ID of `value`; refused when `value` is negative.
    pub fn new(value: i32) -> (r: Result<TaskId, DomainError>)
        ensures
            r is Ok <==> value >= 0,
            r matches Ok(id) ==> id@ == value,
            r matches Err(e) ==> e == DomainError::NegativeTaskId,
    {
        if value < 0 {
            Err(DomainError::NegativeTaskId)
        } else {
            Ok(TaskId(value))
        }
    }

    /// The value of the ID, which is never negative.
    pub fn value(&self) -> (r: i32)
        ensures
            r == self@,
            r >= 0,
    {
        proof {
            use_type_invariant(self);
        }
        self.0
    }
}

/// The title of a task: not blank, and at most 100 characters long.
#[derive(Debug, PartialEq, Eq)]
pub struct TaskTitle(String);

impl View for TaskTitle {
    type V = Seq<char>;

    closed spec fn view(&self) -> Seq<char> {
        self.0@
    }
}

impl TaskTitle {
    #[verifier::type_invariant]
    spec fn is_valid(self) -> bool {
        valid_title(self.0@)
    }
}

impl Clone for TaskTitle {
    fn clone(&self) -> (r: Self)
        ensures
            r@ == self@,
    {
        proof {
            use_type_invariant(self);
        }
        TaskTitle(self.0.clone())
    }
}

/// Whether `s` is acceptable as a task title.
pub open spec fn valid_title(s: Seq<char>) -> bool {
    !is_blank(s) && s.len() <= 100
}

impl TaskTitle {
    /// A title holding `value` as given (surrounding spaces are kept).
    /// Refused when `value` is blank, or longer than 100 characters.
    pub fn new(value: &str) -> (r: Result<TaskTitle, DomainError>)
        ensures
            r is Ok <==> valid_title(value@),
            r matches Ok(t) ==> t@ == value@,
            r matches Err(e) ==> (e == DomainError::EmptyTitle <==> is_blank(value@)),
            r matches Err(e) ==> (e == DomainError::TitleTooLong <==> !is_blank(value@)),
    {
        if is_blank_str(value) {
            return Err(DomainError::EmptyTitle);
        }
        if value.unicode_len() > 100 {
            return Err(DomainError::TitleTooLong);
        }
        Ok(TaskTitle(value.to_string()))
    }

    /// The title, which is always a valid one.
    pub fn value(&self) -> (r: &str)
        ensures
            r@ == self@,
            valid_title(r@),
    {
        proof {
            use_type_invariant(self);
        }
        self.0.as_str()
    }
}

/// The description of a task: any text, the empty one included.
#[derive(Debug, PartialEq, Eq)]
pub struct TaskDescription(String);

impl View for TaskDescription {
    type V = Seq<char>;

    closed spec fn view(&self) -> Seq<char> {
        self.0@
    }
}

impl Clone for TaskDescription {
    fn clone(&self) -> (r: Self)
        ensures
            r@ == self@,
    {
        TaskDescription(self.0.clone())
    }
}

impl TaskDescription {
    /// A description holding `value`; never refused.
    pub fn new(value: &str) -> (r: Result<TaskDescription, DomainError>)
        ensures
            r matches Ok(d) && d@ == value@,
    {
        Ok(TaskDescription(value.to_string()))
    }

    /// The description.
    pub fn value(&self) -> (r: &str)
        ensures
            r@ == self@,
    {
        self.0.as_str()
    }
}

impl Default for TaskDescription {
    fn default() -> (r: Self)
        ensures
            r@ == Seq::<char>::empty(),
    {
        TaskDescription(String::new())
    }
}

/// The priority of a task, from lowest to highest.
#[derive(Debug, Clone, Copy, PartialEq, Eq, Hash, PartialOrd, Ord, Structural)]
pub enum Priority {
    Low,
    Medium,
    High,
    Critical,
}

/// The position of a priority in the order Low < Medium < High < Critical.
pub open spec fn priority_rank(p: Priority) -> int {
    match p {
        Priority::Low => 1,
        Priority::Medium => 2,
        Priority::High => 3,
        Priority::Critical => 4,
    }
}

/// The name under which a priority is stored.
pub open spec fn priority_name(p: Priority) -> Seq<char> {
    match p {
        Priority::Low => "Low"@,
        Priority::Medium => "Medium"@,
        Priority::High => "High"@,
        Priority::Critical => "Critical"@,
    }
}

/// The priority that a stored name stands for.
pub open spec fn priority_of_name(s: Seq<char>) -> Option<Priority> {
    if s == "Low"@ {
        Some(Priority::Low)
    } else if s == "Medium"@ {
        Some(Priority::Medium)
    } else if s == "High"@ {
        Some(Priority::High)
    } else if s == "Critical"@ {
        Some(Priority::Critical)
    } else {
        None
    }
}

impl Priority {
    /// The priority named `s` exactly ("Low", "Medium", "High", "Critical").
    pub fn from_str(s: &str) -> (r: Result<Priority, DomainError>)
        ensures
            priority_of_name(s@) matches Some(p) ==> r == Ok::<Priority, DomainError>(p),
            priority_of_name(s@) is None ==> (r matches Err(DomainError::InvalidPriority(t)) && t@ == s@),
    {
        if str_eq(s, "Low") {
            Ok(Priority::Low)
        } else if str_eq(s, "Medium") {
            Ok(Priority::Medium)
        } else if str_eq(s, "High") {
            Ok(Priority::High)
        } else if str_eq(s, "Critical") {
            Ok(Priority::Critical)
        } else {
            Err(DomainError::InvalidPriority(s.to_string()))
        }
    }

    /// The stored name of the priority.
    pub fn as_str(&self) -> (r: &'static str)
        ensures
            r@ == priority_name(*self),
    {
        match self {
            Priority::Low => "Low",
            Priority::Medium => "Medium",
            Priority::High => "High",
            Priority::Critical => "Critical",
        }
    }

    /// The Japanese label of the priority.
    pub fn display_name(&self) -> (r: &'static str)
        ensures
            r@ == (match *self {
                Priority::Low => "低"@,
                Priority::Medium => "中"@,
                Priority::High => "高"@,
                Priority::Critical => "重大"@,
            }),
    {
        match self {
            Priority::Low => "低",
            Priority::Medium => "中",
            Priority::High => "高",
            Priority::Critical => "重大",
        }
    }

    /// The position of the priority in the order Low < Medium < High < Critical.
    pub fn rank(&self) -> (r: u8)
        ensures
            r == priority_rank(*self),
    {
        match self {
            Priority::Low => 1,
            Priority::Medium => 2,
            Priority::High => 3,
            Priority::Critical => 4,
        }
    }
}

/// The status of a task.
#[derive(Debug, Clone, Copy, PartialEq, Eq, Hash, Structural)]
pub enum Status {
    Pending,
    InProgress,
    Completed,
}

/// The name under which a status is stored.
pub open spec fn status_name(s: Status) -> Seq<char> {
    match s {
        Status::Pending => "Pending"@,
        Status::InProgress => "InProgress"@,
        Status::Completed => "Completed"@,
    }
}

/// The status that a name stands for: the stored names, and their
/// lower-case and snake-case spellings.
pub open spec fn status_of_name(s: Seq<char>) -> Option<Status> {
    if s == "Pending"@ || s == "pending"@ {
        Some(Status::Pending)
    } else if s == "InProgress"@ || s == "inprogress"@ || s == "in_progress"@ {
        Some(Status::InProgress)
    } else if s == "Completed"@ || s == "completed"@ {
        Some(Status::Completed)
    } else {
        None
    }
}

/// The text that a status is written as.
pub open spec fn status_text(s: Status) -> Seq<char> {
    match s {
        Status::Pending => "pending"@,
        Status::InProgress => "in_progress"@,
        Status::Completed => "completed"@,
    }
}

/// The status that a filter word stands for, once lower-cased.
pub open spec fn status_of_filter_word(w: Seq<char>) -> Option<Status> {
    if w == "pending"@ || w == "todo"@ {
        Some(Status::Pending)
    } else if w == "in_progress"@ || w == "progress"@ {
        Some(Status::InProgress)
    } else if w == "completed"@ || w == "done"@ {
        Some(Status::Completed)
    } else {
        None
    }
}

impl Status {
    /// The status named `s`: "Pending"/"pending", "InProgress"/"inprogress"/"in_progress",
    /// "Completed"/"completed".
    pub fn from_str_anyhow(s: &str) -> (r: Result<Status, DomainError>)
        ensures
            status_of_name(s@) matches Some(st) ==> r == Ok::<Status, DomainError>(st),
            status_of_name(s@) is None ==> (r matches Err(DomainError::InvalidStatus(t)) && t@ == s@),
    {
        if str_eq(s, "Pending") || str_eq(s, "pending") {
            Ok(Status::Pending)
        } else if str_eq(s, "InProgress") || str_eq(s, "inprogress") || str_eq(s, "in_progress") {
            Ok(Status::InProgress)
        } else if str_eq(s, "Completed") || str_eq(s, "completed") {
            Ok(Status::Completed)
        } else {
            Err(DomainError::InvalidStatus(s.to_string()))
        }
    }

    /// The status that a lower-cased filter word stands for.
    pub fn from_filter_word(w: &str) -> (r: Option<Status>)
        ensures
            r == status_of_filter_word(w@),
    {
        if str_eq(w, "pending") || str_eq(w, "todo") {
            Some(Status::Pending)
        } else if str_eq(w, "in_progress") || str_eq(w, "progress") {
            Some(Status::InProgress)
        } else if str_eq(w, "completed") || str_eq(w, "done") {
            Some(Status::Completed)
        } else {
            None
        }
    }

    /// The status that a filter value stands for, whatever its case:
    /// "pending"/"todo", "in_progress"/"progress", "completed"/"done".
    pub fn from_filter_value(s: &str) -> (r: Result<Status, DomainError>)
        ensures
            status_of_filter_word(lowercase(s@)) matches Some(st) ==> r == Ok::<Status, DomainError>(st),
            status_of_filter_word(lowercase(s@)) is None ==> (r matches Err(
                DomainError::InvalidFilterValue(t),
            ) && t@ == s@),
    {
        let lower = to_lowercase(s);
        match Status::from_filter_word(lower.as_str()) {
            Some(st) => Ok(st),
            None => Err(DomainError::InvalidFilterValue(s.to_string())),
        }
    }

    /// The text of the status as its `Display` writes it: the longest of
    /// its accepted spellings ("pending", "in_progress", "completed").
    pub fn to_string(&self) -> (r: String)
        ensures
            r@ == status_text(*self),
    {
        match self {
            Status::Pending => "pending".to_string(),
            Status::InProgress => "in_progress".to_string(),
            Status::Completed => "completed".to_string(),
        }
    }

    /// The stored name of the status.
    pub fn as_str(&self) -> (r: &'static str)
        ensures
            r@ == status_name(*self),
    {
        match self {
            Status::Pending => "Pending",
            Status::InProgress => "InProgress",
            Status::Completed => "Completed",
        }
    }

    /// The Japanese label of the status.
    pub fn display_name(&self) -> (r: &'static str)
        ensures
            r@ == (match *self {
                Status::Pending => "保留中"@,
                Status::InProgress => "進行中"@,
                Status::Completed => "完了"@,
            }),
    {
        match self {
            Status::Pending => "保留中",
            Status::InProgress => "進行中",
            Status::Completed => "完了",
        }
    }
}

/// Where a task stands with respect to its due date.
#[derive(Debug, Clone, Copy, PartialEq, Eq, Hash, Structural)]
pub enum DueDateStatus {
    Overdue,
    DueToday,
    DueThisWeek,
    NoDueDate,
}

impl DueDateStatus {
    /// The English label of the due-date status.
    pub fn display_name(&self) -> (r: &'static str)
        ensures
            r@ == (match *self {
                DueDateStatus::Overdue => "Overdue"@,
                DueDateStatus::DueToday => "Due Today"@,
                DueDateStatus::DueThisWeek => "Due This Week"@,
                DueDateStatus::NoDueDate => "No Due Date"@,
            }),
    {
        match self {
            DueDateStatus::Overdue => "Overdue",
            DueDateStatus::DueToday => "Due Today",
            DueDateStatus::DueThisWeek => "Due This Week",
            DueDateStatus::NoDueDate => "No Due Date",
        }
    }
}

/// The due date of a task: a calendar date. Due dates are compared by their
/// day numbers.
#[derive(Debug, Clone, Copy, PartialEq, Eq, Structural, PartialOrd, Ord, Hash)]
pub struct DueDate {
    date: CalendarDate,
}

impl View for DueDate {
    type V = int;

    /// The day number of the due date.
    closed spec fn view(&self) -> int {
        day_number_of(self.date@)
    }
}

impl DueDate {
    /// The calendar date that the due date was made from.
    pub closed spec fn spec_date(&self) -> CalendarDate {
        self.date
    }

    /// A due date on `date`; past dates are accepted too, so it is never refused.
    pub fn new(date: CalendarDate) -> (r: Result<DueDate, DomainError>)
        ensures
            r matches Ok(d) && d.spec_date() == date && d@ == day_number_of(date@),
    {
        Ok(DueDate { date })
    }

    /// The calendar date.
    pub fn value(&self) -> (r: CalendarDate)
        ensures
            r == self.spec_date(),
            day_number_of(r@) == self@,
    {
        self.date
    }

    /// Whether two due dates are the same.
    pub fn same_as(&self, other: &DueDate) -> (r: bool)
        ensures
            r == (*self == *other),
    {
        self.date == other.date
    }

    /// The day number of the due date.
    pub fn day(&self) -> (r: i32)
        ensures
            r == self@,
    {
        self.date.day_number()
    }

    /// Whether the due date falls before the day numbered `day`.
    pub fn is_before_day(&self, day: i32) -> (r: bool)
        ensures
            r == (self@ < day),
    {
        self.day() < day
    }

    /// Whether the due date falls after the day numbered `day`.
    pub fn is_after_day(&self, day: i32) -> (r: bool)
        ensures
            r == (self@ > day),
    {
        self.day() > day
    }

    /// Whether the due date falls before `other`.
    pub fn is_before(&self, other: CalendarDate) -> (r: bool)
        ensures
            r == date_before(self.spec_date()@, other@),
            r == (self@ < day_number_of(other@)),
    {
        self.date.is_before(&other)
    }

    /// Whether the due date falls after `other`.
    pub fn is_after(&self, other: CalendarDate) -> (r: bool)
        ensures
            r == date_before(other@, self.spec_date()@),
            r == (self@ > day_number_of(other@)),
    {
        other.is_before(&self.date)
    }
}

} // verus!
