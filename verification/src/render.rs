//! How the list is shown: one line per task.

use vstd::prelude::*;
use crate::decimal::{decimal, to_decimal};
use crate::message::NO_TASKS;
use crate::task::{Status, Task, TaskView};

verus! {

/// The box in front of a title: empty while the task is pending, checked once it is done.
pub open spec fn marker(status: Status) -> Seq<char> {
    match status {
        Status::Pending => "[ ]"@,
        Status::Done => "[✓]"@,
    }
}

/// The line that shows one task: identifier, a full stop, the box, the title.
pub open spec fn line(task: TaskView) -> Seq<char> {
    decimal(task.id) + ". "@ + marker(task.status) + " "@ + task.title
}

/// The lines that show a list: the notice if it is empty, else one line per task, in order.
pub open spec fn listing(tasks: Seq<TaskView>) -> Seq<Seq<char>> {
    if tasks.len() == 0 {
        seq![NO_TASKS@]
    } else {
        tasks.map_values(|task: TaskView| line(task))
    }
}

/// The line that shows `task`.
pub fn render(task: &Task) -> (text: String)
    ensures
        text@ == line(task@),
{
    let mut text = to_decimal(task.id);
    text.append(". ");
    match task.status {
        Status::Pending => text.append("[ ]"),
        Status::Done => text.append("[✓]"),
    }
    text.append(" ");
    text.append(task.title.as_str());
    text
}

} // verus!
