//! Which reminder, if any, an open task with a due date calls for.

use vstd::prelude::*;
use crate::models::Priority;

verus! {

/// A reminder about a due task.
#[derive(Debug, Clone, Copy, PartialEq, Eq, Structural)]
pub enum DueNotice {
    /// Due today
    Today,
    /// Due tomorrow, with high or urgent priority (advance warning)
    Tomorrow,
    /// Past its due day
    Overdue,
}

/// The reminder for a task due on day `due` when today is day `today`
/// (days counted on the local calendar): none for a completed task; due
/// today; due tomorrow only for high and urgent tasks; overdue before today.
pub open spec fn notice_for(due: i64, today: i64, completed: bool, priority: Priority) -> Option<DueNotice> {
    if completed {
        None
    } else if due == today {
        Some(DueNotice::Today)
    } else if due == today + 1 && (priority == Priority::High || priority == Priority::Urgent) {
        Some(DueNotice::Tomorrow)
    } else if due < today {
        Some(DueNotice::Overdue)
    } else {
        None
    }
}

/// Picks the reminder for one task (see `notice_for`).
pub fn due_notice(due: i64, today: i64, completed: bool, priority: Priority) -> (r: Option<DueNotice>)
    ensures
        r == notice_for(due, today, completed, priority),
{
    if completed {
        None
    } else if due == today {
        Some(DueNotice::Today)
    } else if due > today && due - 1 == today && (priority == Priority::High || priority
        == Priority::Urgent) {
        Some(DueNotice::Tomorrow)
    } else if due < today {
        Some(DueNotice::Overdue)
    } else {
        None
    }
}

} // verus!
