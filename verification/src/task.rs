//! Tasks and their mathematical model.

use vstd::prelude::*;

verus! {

/// Whether a task is still open or has been completed.
#[derive(Debug, Clone, Copy, PartialEq, Eq, Structural)]
pub enum Status {
    /// Not done yet: what every new task is.
    Pending,
    /// Completed. A task never goes back from here.
    Done,
}

/// The model of a task: its identifier, its title as a sequence of characters, and its status.
pub ghost struct TaskView {
    pub id: nat,
    pub title: Seq<char>,
    pub status: Status,
}

/// One entry of the list.
#[derive(Debug, PartialEq, Eq)]
pub struct Task {
    pub id: usize,
    pub title: String,
    pub status: Status,
}

impl View for Task {
    type V = TaskView;

    open spec fn view(&self) -> TaskView {
        TaskView { id: self.id as nat, title: self.title@, status: self.status }
    }
}

impl Clone for Task {
    /// A copy with the same identifier, title and status.
    fn clone(&self) -> (copy: Task)
        ensures
            copy == *self,
    {
        Task { id: self.id, title: self.title.clone(), status: self.status }
    }
}

/// The models of a sequence of tasks, in the same order.
pub open spec fn views(tasks: Seq<Task>) -> Seq<TaskView> {
    tasks.map_values(|task: Task| task@)
}

} // verus!
