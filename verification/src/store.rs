//! The task list and its operations.

use vstd::prelude::*;
use crate::error::TodoError;
use crate::message::{texts, ADDED, COMPLETED, NO_TASKS, REMOVED};
use crate::render::{line, listing, render};
use crate::task::{Status, Task, TaskView, views};

verus! {

/// The position of the first task with identifier `id`, if there is one.
pub open spec fn position(tasks: Seq<TaskView>, id: nat) -> Option<int>
    decreases tasks.len(),
{
    if tasks.len() == 0 {
        None
    } else if tasks[0].id == id {
        Some(0)
    } else {
        match position(tasks.drop_first(), id) {
            Some(i) => Some(i + 1),
            None => None,
        }
    }
}

/// The largest identifier among `tasks`, or zero if there is none.
pub open spec fn max_id(tasks: Seq<TaskView>) -> nat
    decreases tasks.len(),
{
    if tasks.len() == 0 {
        0
    } else if tasks.last().id > max_id(tasks.drop_last()) {
        tasks.last().id
    } else {
        max_id(tasks.drop_last())
    }
}

/// The model of a task list: the tasks in the order in which they were added, and the
/// identifier that the next new task will get.
pub ghost struct ListView {
    pub tasks: Seq<TaskView>,
    pub next_id: nat,
}

impl ListView {
    /// The list without tasks. Its first task will get the identifier 1.
    pub open spec fn empty() -> ListView {
        ListView { tasks: Seq::empty(), next_id: 1 }
    }

    /// The list that holds `tasks` as they were saved: the next identifier is one more than
    /// the largest that occurs.
    pub open spec fn loaded(tasks: Seq<TaskView>) -> ListView {
        ListView { tasks, next_id: max_id(tasks) + 1 }
    }

    /// What holds of every list: no two tasks share an identifier, and every identifier
    /// lies below the next one to be given out.
    pub open spec fn wf(self) -> bool {
        &&& self.next_id >= 1
        &&& forall|i: int|
            0 <= i < self.tasks.len() ==> (#[trigger] self.tasks[i]).id < self.next_id
        &&& self.ids_unique()
    }

    /// No two tasks of the list share an identifier.
    pub open spec fn ids_unique(self) -> bool {
        forall|i: int, j: int|
            0 <= i < j < self.tasks.len() ==> (#[trigger] self.tasks[i]).id != (
            #[trigger] self.tasks[j]).id
    }

    /// The identifiers grow along the list: a task that stands later has a larger one.
    pub open spec fn ids_ascending(self) -> bool {
        forall|i: int, j: int|
            0 <= i < j < self.tasks.len() ==> (#[trigger] self.tasks[i]).id < (
            #[trigger] self.tasks[j]).id
    }

    /// Whether some task has the identifier `id`.
    pub open spec fn contains(self, id: nat) -> bool {
        exists|i: int| 0 <= i < self.tasks.len() && (#[trigger] self.tasks[i]).id == id
    }

    /// The list after a task with the given title was added.
    pub open spec fn added(self, title: Seq<char>) -> ListView {
        ListView {
            tasks: self.tasks.push(TaskView { id: self.next_id, title, status: Status::Pending }),
            next_id: self.next_id + 1,
        }
    }

    /// The list after the task with identifier `id` was marked as done (the first such
    /// task, were there several); the same list if there is no such task.
    pub open spec fn completed(self, id: nat) -> ListView {
        match position(self.tasks, id) {
            Some(i) => ListView {
                tasks: self.tasks.update(
                    i,
                    TaskView { status: Status::Done, ..self.tasks[i] },
                ),
                ..self
            },
            None => self,
        }
    }

    /// The list after the task with identifier `id` was taken out (the first such task,
    /// were there several); the same list if there is no such task.
    pub open spec fn removed(self, id: nat) -> ListView {
        match position(self.tasks, id) {
            Some(i) => ListView { tasks: self.tasks.remove(i), ..self },
            None => self,
        }
    }
}

/// What `position` finds: the first task with the identifier, and nothing exactly where no
/// task has it.
pub proof fn lemma_position(tasks: Seq<TaskView>, id: nat)
    ensures
        match position(tasks, id) {
            Some(i) => {
                &&& 0 <= i < tasks.len()
                &&& tasks[i].id == id
                &&& forall|j: int| 0 <= j < i ==> (#[trigger] tasks[j]).id != id
            },
            None => forall|j: int| 0 <= j < tasks.len() ==> (#[trigger] tasks[j]).id != id,
        },
    decreases tasks.len(),
{
    if tasks.len() > 0 && tasks[0].id != id {
        let rest = tasks.drop_first();
        lemma_position(rest, id);
        assert forall|j: int| 0 < j < tasks.len() implies tasks[j] == rest[j - 1] by {
        }
    }
}

/// A list has a task with a given identifier exactly where `position` finds one.
pub proof fn lemma_contains_is_found(list: ListView, id: nat)
    ensures
        list.contains(id) <==> position(list.tasks, id) is Some,
{
    lemma_position(list.tasks, id);
}

/// No two of the tasks share an identifier.
spec fn distinct_ids(tasks: Seq<Task>) -> bool {
    forall|i: int, j: int|
        0 <= i < j < tasks.len() ==> (#[trigger] tasks[i]).id != (#[trigger] tasks[j]).id
}

/// The same, said of the tasks and of their models.
proof fn lemma_distinct_ids(tasks: Seq<Task>)
    ensures
        distinct_ids(tasks) == ListView::loaded(views(tasks)).ids_unique(),
{
    let models = views(tasks);
    if distinct_ids(tasks) {
        assert forall|i: int, j: int| 0 <= i < j < models.len() implies (#[trigger] models[i]).id
            != (#[trigger] models[j]).id by {
            assert(tasks[i].id != tasks[j].id);
        }
    }
    if ListView::loaded(models).ids_unique() {
        assert forall|i: int, j: int| 0 <= i < j < tasks.len() implies (#[trigger] tasks[i]).id
            != (#[trigger] tasks[j]).id by {
            assert(models[i].id != models[j].id);
        }
    }
}

/// Whether no two of the tasks share an identifier.
fn has_distinct_ids(tasks: &Vec<Task>) -> (distinct: bool)
    ensures
        distinct == distinct_ids(tasks@),
{
    let mut j: usize = 0;
    while j < tasks.len()
        invariant
            j <= tasks.len(),
            distinct_ids(tasks@.take(j as int)),
        decreases tasks.len() - j,
    {
        let mut i: usize = 0;
        while i < j
            invariant
                i <= j < tasks.len(),
                forall|k: int| 0 <= k < i ==> (#[trigger] tasks@[k]).id != tasks@[j as int].id,
            decreases j - i,
        {
            if tasks[i].id == tasks[j].id {
                return false;
            }
            i += 1;
        }
        assert forall|a: int, b: int| 0 <= a < b < j + 1 implies (#[trigger] tasks@.take(
            j + 1,
        )[a]).id != (#[trigger] tasks@.take(j + 1)[b]).id by {
            if b < j {
                assert(tasks@.take(j as int)[a].id != tasks@.take(j as int)[b].id);
            }
        }
        j += 1;
    }
    assert(tasks@.take(j as int) =~= tasks@);
    true
}

/// What was found where the list is kept between runs.
#[derive(Debug)]
pub enum Saved {
    /// Nothing has been saved yet.
    Missing,
    /// Something is there, but it could not be read, or it does not hold tasks.
    Unusable,
    /// The tasks that were saved.
    Tasks(Vec<Task>),
}

/// The task list: the tasks in the order in which they were added, and the identifier
/// that the next new task will get.
pub struct TodoList {
    tasks: Vec<Task>,
    next_id: usize,
}

impl View for TodoList {
    type V = ListView;

    closed spec fn view(&self) -> ListView {
        ListView { tasks: views(self.tasks@), next_id: self.next_id as nat }
    }
}

impl TodoList {
    /// No two tasks share an identifier, and every identifier lies below the next one,
    /// which is at least 1.
    #[verifier::type_invariant]
    spec fn inv(self) -> bool {
        &&& self.next_id >= 1
        &&& forall|i: int|
            0 <= i < self.tasks@.len() ==> (#[trigger] self.tasks@[i]).id < self.next_id
        &&& distinct_ids(self.tasks@)
    }

    /// The invariant of the representation is that of the model.
    proof fn lemma_inv_wf(self)
        requires
            self.inv(),
        ensures
            self@.wf(),
    {
    }

    /// Moves the tasks out, so that they can be changed as a plain vector and put back.
    fn take_tasks(&mut self) -> (tasks: Vec<Task>)
        ensures
            tasks == old(self).tasks,
            final(self).tasks@.len() == 0,
            final(self).next_id == old(self).next_id,
    {
        proof {
            use_type_invariant(&*self);
        }
        let mut tasks: Vec<Task> = Vec::new();
        core::mem::swap(&mut self.tasks, &mut tasks);
        tasks
    }

    /// An empty list.
    pub fn new() -> (list: TodoList)
        ensures
            list@ == ListView::empty(),
    {
        let list = TodoList { tasks: Vec::new(), next_id: 1 };
        assert(list@.tasks =~= Seq::empty());
        list
    }

    /// The identifier that the next new task will get.
    pub fn next_id(&self) -> (id: usize)
        ensures
            id == self@.next_id,
            self@.wf(),
    {
        proof {
            use_type_invariant(self);
            self.lemma_inv_wf();
        }
        self.next_id
    }

    /// Appends a pending task with the given title, under the next identifier, and
    /// returns the line that confirms it.
    pub fn add(&mut self, title: String) -> (said: &'static str)
        requires
            old(self)@.next_id < usize::MAX,
        ensures
            final(self)@ == old(self)@.added(title@),
            final(self)@.wf(),
            said@ == ADDED@,
    {
        proof {
            use_type_invariant(&*self);
        }
        let id = self.next_id;
        let mut tasks = self.take_tasks();
        tasks.push(Task { id, title, status: Status::Pending });
        self.next_id = id + 1;
        self.tasks = tasks;
        proof {
            assert(self@.tasks =~= old(self)@.added(title@).tasks);
            self.lemma_inv_wf();
        }
        ADDED
    }

    /// Where the first task with identifier `id` stands.
    fn find(&self, id: usize) -> (found: Option<usize>)
        ensures
            match found {
                Some(i) => i < self.tasks@.len() && position(self@.tasks, id as nat) == Some(
                    i as int,
                ),
                None => position(self@.tasks, id as nat) is None,
            },
            self@.contains(id as nat) <==> found is Some,
    {
        let mut i: usize = 0;
        while i < self.tasks.len()
            invariant
                i <= self.tasks.len(),
                forall|j: int| 0 <= j < i ==> (#[trigger] self@.tasks[j]).id != id,
            decreases self.tasks.len() - i,
        {
            if self.tasks[i].id == id {
                proof {
                    lemma_position(self@.tasks, id as nat);
                    assert(self@.tasks[i as int].id == id);
                }
                return Some(i);
            }
            i += 1;
        }
        proof {
            lemma_position(self@.tasks, id as nat);
        }
        None
    }

    /// Marks the task with identifier `id` as done and returns the line that confirms it.
    /// Where no task has the identifier, the list stays as it is and the error says so.
    pub fn done(&mut self, id: usize) -> (result: Result<&'static str, TodoError>)
        ensures
            final(self)@ == old(self)@.completed(id as nat),
            match result {
                Ok(said) => old(self)@.contains(id as nat) && said@ == COMPLETED@,
                Err(error) => {
                    &&& error == TodoError::NotFound
                    &&& !old(self)@.contains(id as nat)
                    &&& *final(self) == *old(self)
                },
            },
            final(self)@.wf(),
    {
        proof {
            use_type_invariant(&*self);
            self.lemma_inv_wf();
        }
        match self.find(id) {
            Some(i) => {
                let mut tasks = self.take_tasks();
                tasks[i].status = Status::Done;
                self.tasks = tasks;
                proof {
                    assert(self@.tasks =~= old(self)@.completed(id as nat).tasks);
                    self.lemma_inv_wf();
                }
                Ok(COMPLETED)
            },
            None => Err(TodoError::NotFound),
        }
    }

    /// Takes the task with identifier `id` out of the list and returns the line that
    /// confirms it; the other tasks keep their identifiers and their order. Where no task
    /// has the identifier, the list stays as it is and the error says so.
    pub fn remove(&mut self, id: usize) -> (result: Result<&'static str, TodoError>)
        ensures
            final(self)@ == old(self)@.removed(id as nat),
            match result {
                Ok(said) => old(self)@.contains(id as nat) && said@ == REMOVED@,
                Err(error) => {
                    &&& error == TodoError::NotFound
                    &&& !old(self)@.contains(id as nat)
                    &&& *final(self) == *old(self)
                },
            },
            final(self)@.wf(),
    {
        proof {
            use_type_invariant(&*self);
            self.lemma_inv_wf();
        }
        match self.find(id) {
            Some(i) => {
                let mut tasks = self.take_tasks();
                tasks.remove(i);
                self.tasks = tasks;
                proof {
                    assert(self@.tasks =~= old(self)@.removed(id as nat).tasks);
                    self.lemma_inv_wf();
                }
                Ok(REMOVED)
            },
            None => Err(TodoError::NotFound),
        }
    }

    /// The lines that show the list.
    pub fn list(&self) -> (lines: Vec<String>)
        ensures
            texts(lines@) == listing(self@.tasks),
    {
        let mut lines: Vec<String> = Vec::new();
        if self.tasks.len() == 0 {
            lines.push(NO_TASKS.to_owned());
            return lines;
        }
        let mut i: usize = 0;
        while i < self.tasks.len()
            invariant
                i <= self.tasks.len(),
                lines@.len() == i,
                forall|j: int| 0 <= j < i ==> (#[trigger] lines@[j])@ == line(self@.tasks[j]),
            decreases self.tasks.len() - i,
        {
            lines.push(render(&self.tasks[i]));
            i += 1;
        }
        lines
    }

    /// The tasks to write out: all of them, in order. The next identifier is not among
    /// what is saved.
    pub fn save(&self) -> (tasks: &Vec<Task>)
        ensures
            views(tasks@) == self@.tasks,
            self@.wf(),
    {
        proof {
            use_type_invariant(self);
            self.lemma_inv_wf();
        }
        &self.tasks
    }

    /// The list as it stands after reading what was saved. With nothing saved it is the
    /// empty list. With saved tasks it holds them, and its next identifier is one more than
    /// their largest. What cannot be used is an error, and so are tasks that cannot make up
    /// a list: where two of them share an identifier, or where they leave no identifier
    /// for a next one.
    pub fn load(saved: Saved) -> (result: Result<TodoList, TodoError>)
        ensures
            match saved {
                Saved::Missing => result matches Ok(list) && list@ == ListView::empty(),
                Saved::Unusable => result matches Err(error) && error == TodoError::Persistence,
                Saved::Tasks(tasks) => if max_id(views(tasks@)) < usize::MAX
                    && ListView::loaded(views(tasks@)).ids_unique() {
                    result matches Ok(list) && list@ == ListView::loaded(views(tasks@))
                } else {
                    result matches Err(error) && error == TodoError::Persistence
                },
            },
            result matches Ok(list) ==> list@.wf(),
    {
        match saved {
            Saved::Missing => Ok(TodoList::new()),
            Saved::Unusable => Err(TodoError::Persistence),
            Saved::Tasks(tasks) => {
                let mut largest: usize = 0;
                let mut i: usize = 0;
                while i < tasks.len()
                    invariant
                        i <= tasks.len(),
                        largest == max_id(views(tasks@).take(i as int)),
                        forall|j: int| 0 <= j < i ==> (#[trigger] tasks@[j]).id <= largest,
                    decreases tasks.len() - i,
                {
                    assert(views(tasks@).take(i + 1).drop_last() =~= views(tasks@).take(
                        i as int,
                    ));
                    if tasks[i].id > largest {
                        largest = tasks[i].id;
                    }
                    i += 1;
                }
                assert(views(tasks@).take(i as int) =~= views(tasks@));
                proof {
                    lemma_distinct_ids(tasks@);
                }
                if largest == usize::MAX || !has_distinct_ids(&tasks) {
                    return Err(TodoError::Persistence);
                }
                let list = TodoList { tasks, next_id: largest + 1 };
                proof {
                    list.lemma_inv_wf();
                }
                Ok(list)
            },
        }
    }
}

} // verus!
