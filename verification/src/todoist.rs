//! The task entity model: one remote task, its due date, and the
//! pending local mutations that have not yet reached the remote service.

use vstd::prelude::*;

verus! {

/// One remote task as the local replica holds it.
///
/// Identity is `id`, which the remote service assigns and keeps stable.
/// Every field may be overwritten by a fetched snapshot except
/// `is_completed`, which is locally authoritative until the remote
/// confirms otherwise.
#[derive(Debug)]
pub struct Task {
    pub id: String,
    pub content: String,
    pub description: String,
    pub is_completed: bool,
    pub labels: Vec<String>,
    pub due: Option<DueDate>,
}

/// A task's due date: the raw string the service sent, and the calendar
/// date as an ISO-8601 `YYYY-MM-DD` string.
#[derive(Debug)]
pub struct DueDate {
    pub string: String,
    pub date: String,
}

/// A local mutation observed by the user but not yet acknowledged by the
/// remote service. A sum type so that further mutation kinds can be added
/// without reworking the queue.
#[derive(Debug)]
pub enum PendingChange {
    TaskCompletion { task_id: String, completed: bool },
}

/// Mathematical value of a `DueDate`.
pub struct DueDateView {
    pub string: Seq<char>,
    pub date: Seq<char>,
}

/// Mathematical value of a `Task`.
pub struct TaskView {
    pub id: Seq<char>,
    pub content: Seq<char>,
    pub description: Seq<char>,
    pub is_completed: bool,
    pub labels: Seq<Seq<char>>,
    pub due: Option<DueDateView>,
}

/// Mathematical value of a `PendingChange`.
pub enum PendingChangeView {
    TaskCompletion { task_id: Seq<char>, completed: bool },
}

impl DeepView for DueDate {
    type V = DueDateView;

    open spec fn deep_view(&self) -> DueDateView {
        DueDateView { string: self.string@, date: self.date@ }
    }
}

impl DeepView for Task {
    type V = TaskView;

    open spec fn deep_view(&self) -> TaskView {
        TaskView {
            id: self.id@,
            content: self.content@,
            description: self.description@,
            is_completed: self.is_completed,
            labels: self.labels.deep_view(),
            due: self.due.deep_view(),
        }
    }
}

impl DeepView for PendingChange {
    type V = PendingChangeView;

    open spec fn deep_view(&self) -> PendingChangeView {
        match self {
            PendingChange::TaskCompletion { task_id, completed } => {
                PendingChangeView::TaskCompletion { task_id: task_id@, completed: *completed }
            },
        }
    }
}

impl Clone for DueDate {
    fn clone(&self) -> (r: Self)
        ensures
            r.deep_view() == self.deep_view(),
    {
        DueDate { string: self.string.clone(), date: self.date.clone() }
    }
}

impl Clone for Task {
    fn clone(&self) -> (r: Self)
        ensures
            r.deep_view() == self.deep_view(),
    {
        let r = Task {
            id: self.id.clone(),
            content: self.content.clone(),
            description: self.description.clone(),
            is_completed: self.is_completed,
            labels: self.labels.clone(),
            due: match &self.due {
                Some(d) => Some(d.clone()),
                None => None,
            },
        };
        proof {
            assert(r.labels.deep_view() =~= self.labels.deep_view());
        }
        r
    }
}

impl Clone for PendingChange {
    fn clone(&self) -> (r: Self)
        ensures
            r.deep_view() == self.deep_view(),
    {
        match self {
            PendingChange::TaskCompletion { task_id, completed } => {
                PendingChange::TaskCompletion { task_id: task_id.clone(), completed: *completed }
            },
        }
    }
}

} // verus!
