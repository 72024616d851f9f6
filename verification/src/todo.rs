//! The first, JSON-file based to-do model.

use vstd::prelude::*;

use crate::text::{concat3, lowercase, str_eq, to_lowercase};

verus! {

/// The state of a to-do item.
#[derive(Debug, Clone, Copy, PartialEq, Eq, Structural)]
pub enum Status {
    Pending,
    Completed,
    InProgress,
}

/// The status that a (lowercased) filter word names: "pending" or "todo",
/// "completed" or "done", "inprogress", "in_progress" or "progress".
pub open spec fn todo_status_of_word(w: Seq<char>) -> Option<Status> {
    if w == "pending"@ || w == "todo"@ {
        Some(Status::Pending)
    } else if w == "completed"@ || w == "done"@ {
        Some(Status::Completed)
    } else if w == "inprogress"@ || w == "in_progress"@ || w == "progress"@ {
        Some(Status::InProgress)
    } else {
        None
    }
}

/// The Japanese label of a status.
pub open spec fn todo_status_label(s: Status) -> Seq<char> {
    match s {
        Status::Pending => "保留中"@,
        Status::Completed => "完了"@,
        Status::InProgress => "進行中"@,
    }
}

impl Status {
    /// Reads a status from a filter word, without regard to case.
    pub fn from_filter_value(value: &str) -> (r: Result<Status, String>)
        ensures
            match r {
                Ok(s) => todo_status_of_word(lowercase(value@)) == Some(s),
                Err(e) => todo_status_of_word(lowercase(value@)) is None && e@
                    == "Invalid status value: '"@ + value@ + "'"@,
            },
    {
        let lower = to_lowercase(value);
        let w = lower.as_str();
        if str_eq(w, "pending") || str_eq(w, "todo") {
            Ok(Status::Pending)
        } else if str_eq(w, "completed") || str_eq(w, "done") {
            Ok(Status::Completed)
        } else if str_eq(w, "inprogress") || str_eq(w, "in_progress") || str_eq(w, "progress") {
            Ok(Status::InProgress)
        } else {
            Err(concat3("Invalid status value: '", value, "'"))
        }
    }

    /// The Japanese label of the status.
    pub fn display_name(&self) -> (r: &'static str)
        ensures
            r@ == todo_status_label(*self),
    {
        match self {
            Status::Pending => "保留中",
            Status::Completed => "完了",
            Status::InProgress => "進行中",
        }
    }
}

/// The current time as RFC 3339 text, from chrono's `Utc::now` and
/// `DateTime::to_rfc3339`. Nothing is promised of the value: it is the clock's.
#[verifier::external_body]
pub(crate) fn now_rfc3339() -> (r: String) {
    chrono::Utc::now().to_rfc3339()
}

/// A to-do item.
#[derive(Debug, Clone)]
pub struct Todo {
    pub id: u64,
    pub title: String,
    pub status: Status,
    pub created_at: String,
    pub updated_at: String,
}

impl Todo {
    /// A new item, stamped with the current time (read once for each stamp).
    pub fn new(id: u64, title: &str, status: Status) -> (r: Todo)
        ensures
            r.id == id,
            r.title@ == title@,
            r.status == status,
    {
        Todo {
            id,
            title: title.to_string(),
            status,
            created_at: now_rfc3339(),
            updated_at: now_rfc3339(),
        }
    }
}

} // verus!
