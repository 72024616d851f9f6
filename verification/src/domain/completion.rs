use vstd::prelude::*;

use crate::domain::clock::Timestamp;
use crate::domain::task::Status;

verus! {

/// The completion time a task gets when it is stored for the first time
/// with `status`: for a completed task the time given, or `now` when none
/// is given; for any other task none.
pub fn completed_at_on_create(status: Status, given: Option<Timestamp>, now: Timestamp) -> (r: Option<
    Timestamp,
>)
    ensures
        status == Status::Completed ==> r == (match given {
            Some(t) => Some(t),
            None => Some(now),
        }),
        status != Status::Completed ==> r is None,
{
    match status {
        Status::Completed => match given {
            Some(t) => Some(t),
            None => Some(now),
        },
        _ => None,
    }
}

/// The completion time a task keeps when its status goes from `old` to
/// `new`: `now` when it becomes completed, none when it stops being
/// completed, and otherwise the time it had. Status changes of the task
/// aggregate follow this rule.
pub fn completed_at_on_update(
    old: Status,
    new: Status,
    old_at: Option<Timestamp>,
    now: Timestamp,
) -> (r: Option<Timestamp>)
    ensures
        old != Status::Completed && new == Status::Completed ==> r == Some(now),
        old == Status::Completed && new != Status::Completed ==> r is None,
        (old == Status::Completed) == (new == Status::Completed) ==> r == old_at,
{
    let was_done = match old {
        Status::Completed => true,
        _ => false,
    };
    let becomes_done = match new {
        Status::Completed => true,
        _ => false,
    };
    if !was_done && becomes_done {
        Some(now)
    } else if was_done && !becomes_done {
        None
    } else {
        old_at
    }
}

} // verus!
