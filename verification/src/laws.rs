//! What holds of every task list, whatever is done to it.

use vstd::prelude::*;
use crate::command::CommandView;
use crate::message::NO_TASKS;
use crate::render::{line, listing};
use crate::store::{lemma_position, max_id, position, ListView};
use crate::task::{Status, TaskView};

verus! {

/// The empty list is valid, and it gives out 1 first.
pub proof fn lemma_empty_is_valid()
    ensures
        ListView::empty().wf(),
        ListView::empty().ids_ascending(),
        ListView::empty().next_id == 1,
{
}

/// Where the identifiers grow along the list, none occurs twice.
pub proof fn lemma_ascending_is_unique(list: ListView)
    requires
        list.ids_ascending(),
    ensures
        list.ids_unique(),
{
}

/// The list is shown in its own order: the notice alone if it is empty, else the line of
/// the first task first, and so on, one line per task.
pub proof fn lemma_listing_in_order(tasks: Seq<TaskView>)
    ensures
        tasks.len() == 0 ==> listing(tasks) == seq![NO_TASKS@],
        tasks.len() > 0 ==> listing(tasks).len() == tasks.len(),
        forall|i: int| 0 <= i < tasks.len() ==> #[trigger] listing(tasks)[i] == line(tasks[i]),
{
}

/// Adding a task appends it, pending, under the identifier that was next, leaves every
/// other task as it was, and moves the next identifier on by one.
pub proof fn lemma_added(list: ListView, title: Seq<char>)
    ensures
        list.added(title).tasks.len() == list.tasks.len() + 1,
        list.added(title).tasks.last() == (TaskView {
            id: list.next_id,
            title,
            status: Status::Pending,
        }),
        forall|i: int|
            0 <= i < list.tasks.len() ==> #[trigger] list.added(title).tasks[i] == list.tasks[i],
        list.added(title).next_id == list.next_id + 1,
{
}

/// Completing a task changes the status of the first task with that identifier and
/// nothing else: no identifier, no title, no position, and not the next identifier. On an
/// identifier that no task has, it changes nothing at all.
pub proof fn lemma_completed(list: ListView, id: nat)
    ensures
        list.completed(id).next_id == list.next_id,
        list.completed(id).tasks.len() == list.tasks.len(),
        forall|i: int|
            0 <= i < list.tasks.len() ==> {
                &&& (#[trigger] list.completed(id).tasks[i]).id == list.tasks[i].id
                &&& list.completed(id).tasks[i].title == list.tasks[i].title
                &&& list.completed(id).tasks[i].status == if position(list.tasks, id) == Some(i) {
                    Status::Done
                } else {
                    list.tasks[i].status
                }
            },
        !list.contains(id) ==> list.completed(id) == list,
{
    lemma_position(list.tasks, id);
}

/// Removing a task takes out the first task with that identifier: the list is shorter by
/// exactly one, the tasks before it stay where they were, those behind it move up by one,
/// and each keeps its identifier, title and status. The next identifier stays. On an
/// identifier that no task has, it changes nothing at all.
pub proof fn lemma_removed(list: ListView, id: nat)
    ensures
        list.removed(id).next_id == list.next_id,
        !list.contains(id) ==> list.removed(id) == list,
        list.contains(id) ==> {
            let at = position(list.tasks, id)->0;
            &&& 0 <= at < list.tasks.len()
            &&& list.tasks[at].id == id
            &&& list.removed(id).tasks.len() == list.tasks.len() - 1
            &&& forall|i: int| 0 <= i < at ==> #[trigger] list.removed(id).tasks[i] == list.tasks[i]
            &&& forall|i: int|
                at <= i < list.tasks.len() - 1 ==> #[trigger] list.removed(id).tasks[i]
                    == list.tasks[i + 1]
        },
{
    lemma_position(list.tasks, id);
}

/// A valid list stays valid under every command: no identifier comes to occur twice, and
/// none reaches the next one. A list whose identifiers grow along it keeps them growing,
/// and the next identifier never goes down.
pub proof fn lemma_after_keeps_valid(list: ListView, command: CommandView)
    requires
        list.wf(),
    ensures
        list.after(command).wf(),
        list.ids_ascending() ==> list.after(command).ids_ascending(),
        list.after(command).next_id >= list.next_id,
{
    match command {
        CommandView::Done(id) => {
            lemma_position(list.tasks, id);
        },
        CommandView::Remove(id) => {
            lemma_position(list.tasks, id);
        },
        _ => {},
    }
}

/// In a valid list an identifier names one task at most: where a task has it, that task
/// is the one that `position` finds, and so the one that is completed or removed.
pub proof fn lemma_id_names_one_task(list: ListView, id: nat, i: int)
    requires
        list.wf(),
        0 <= i < list.tasks.len(),
        list.tasks[i].id == id,
    ensures
        position(list.tasks, id) == Some(i),
        forall|j: int| 0 <= j < list.tasks.len() && j != i ==> (#[trigger] list.tasks[j]).id != id,
{
    lemma_position(list.tasks, id);
    assert forall|j: int| 0 <= j < list.tasks.len() && j != i implies (#[trigger] list.tasks[j]).id
        != id by {
        if j < i {
            assert(list.tasks[j].id != list.tasks[i].id);
        } else {
            assert(list.tasks[i].id != list.tasks[j].id);
        }
    }
}

/// `max_id` is the largest identifier: none among the tasks is larger, and where there are
/// tasks, one of them has it.
pub proof fn lemma_max_id_is_largest(tasks: Seq<TaskView>)
    ensures
        forall|i: int| 0 <= i < tasks.len() ==> (#[trigger] tasks[i]).id <= max_id(tasks),
        tasks.len() > 0 ==> exists|i: int|
            0 <= i < tasks.len() && (#[trigger] tasks[i]).id == max_id(tasks),
        tasks.len() == 0 ==> max_id(tasks) == 0,
    decreases tasks.len(),
{
    if tasks.len() > 0 {
        let front = tasks.drop_last();
        lemma_max_id_is_largest(front);
        assert forall|i: int| 0 <= i < tasks.len() implies (#[trigger] tasks[i]).id <= max_id(
            tasks,
        ) by {
            if i < front.len() {
                assert(front[i] == tasks[i]);
            }
        }
        if front.len() > 0 && tasks.last().id <= max_id(front) {
            let i = choose|i: int|
                0 <= i < front.len() && (#[trigger] front[i]).id == max_id(front);
            assert(tasks[i] == front[i]);
        } else {
            assert(tasks[tasks.len() - 1].id == max_id(tasks));
        }
    }
}

/// A list read from saved tasks holds them as they were saved, and it is valid exactly
/// where no two of the saved tasks share an identifier.
pub proof fn lemma_loaded_is_valid(tasks: Seq<TaskView>)
    ensures
        ListView::loaded(tasks).tasks == tasks,
        ListView::loaded(tasks).wf() <==> ListView::loaded(tasks).ids_unique(),
{
    lemma_max_id_is_largest(tasks);
}

/// Saving a list and reading it back gives a list with the same tasks: identifiers, titles,
/// statuses and order. Its next identifier may be smaller than before, where the tasks
/// with the largest identifiers had been removed, but never larger; so the tasks of a list
/// always leave an identifier for a next one, and reading them back does not fail.
pub proof fn lemma_save_then_load(list: ListView)
    requires
        list.wf(),
    ensures
        ListView::loaded(list.tasks).tasks == list.tasks,
        ListView::loaded(list.tasks).wf(),
        ListView::loaded(list.tasks).next_id <= list.next_id,
        max_id(list.tasks) < list.next_id,
{
    lemma_max_id_is_largest(list.tasks);
    lemma_max_id_below(list.tasks, list.next_id);
}

/// Where every identifier lies below `bound`, and `bound` is at least 1, so does the
/// largest.
proof fn lemma_max_id_below(tasks: Seq<TaskView>, bound: nat)
    requires
        bound >= 1,
        forall|i: int| 0 <= i < tasks.len() ==> (#[trigger] tasks[i]).id < bound,
    ensures
        max_id(tasks) < bound,
    decreases tasks.len(),
{
    if tasks.len() > 0 {
        let front = tasks.drop_last();
        assert forall|i: int| 0 <= i < front.len() implies (#[trigger] front[i]).id < bound by {
            assert(front[i] == tasks[i]);
        }
        lemma_max_id_below(front, bound);
    }
}

/// The list after a run of commands, carried out one after the other.
pub open spec fn run(list: ListView, commands: Seq<CommandView>) -> ListView
    decreases commands.len(),
{
    if commands.len() == 0 {
        list
    } else {
        run(list, commands.drop_last()).after(commands.last())
    }
}

/// How many of the commands add a task.
pub open spec fn adds(commands: Seq<CommandView>) -> nat
    decreases commands.len(),
{
    if commands.len() == 0 {
        0
    } else if commands.last() is Add {
        adds(commands.drop_last()) + 1
    } else {
        adds(commands.drop_last())
    }
}

/// The identifier that the command at position `k` of a run on the empty list gives out,
/// if it adds a task: the one that is next after the commands before it.
pub open spec fn issued(commands: Seq<CommandView>, k: int) -> nat {
    run(ListView::empty(), commands.take(k)).next_id
}

/// A run of commands leaves a valid list valid, and one whose identifiers grow along the
/// list with growing identifiers.
pub proof fn lemma_run_keeps_valid(list: ListView, commands: Seq<CommandView>)
    requires
        list.wf(),
    ensures
        run(list, commands).wf(),
        list.ids_ascending() ==> run(list, commands).ids_ascending(),
    decreases commands.len(),
{
    if commands.len() > 0 {
        lemma_run_keeps_valid(list, commands.drop_last());
        lemma_after_keeps_valid(run(list, commands.drop_last()), commands.last());
    }
}

/// After a run of commands the next identifier has moved on by the number of tasks that
/// were added, whatever was completed or removed in between.
pub proof fn lemma_next_id_counts_adds(list: ListView, commands: Seq<CommandView>)
    ensures
        run(list, commands).next_id == list.next_id + adds(commands),
    decreases commands.len(),
{
    if commands.len() > 0 {
        lemma_next_id_counts_adds(list, commands.drop_last());
    }
}

/// More commands never add fewer tasks, and one more that adds a task adds one more.
proof fn lemma_adds_grows(commands: Seq<CommandView>, j: int, k: int)
    requires
        0 <= j <= k <= commands.len(),
    ensures
        adds(commands.take(j)) <= adds(commands.take(k)),
        j < k && commands[j] is Add ==> adds(commands.take(j)) < adds(commands.take(k)),
    decreases k - j,
{
    if j < k {
        assert(commands.take(k).drop_last() =~= commands.take(k - 1));
        lemma_adds_grows(commands, j, k - 1);
    }
}

/// Starting from the empty list, the tasks that are added get the identifiers 1, 2, 3 and
/// so on, in the order in which they are added, whatever is completed or removed in
/// between: the command at position `k`, if it adds a task, appends it under the
/// identifier that is one more than the number of tasks added before it.
pub proof fn lemma_ids_count_up_from_one(commands: Seq<CommandView>, k: int)
    requires
        0 <= k < commands.len(),
        commands[k] is Add,
    ensures
        issued(commands, k) == 1 + adds(commands.take(k)),
        run(ListView::empty(), commands.take(k + 1)).tasks.last().id == issued(commands, k),
        run(ListView::empty(), commands.take(k + 1)).tasks.len() == run(
            ListView::empty(),
            commands.take(k),
        ).tasks.len() + 1,
{
    lemma_next_id_counts_adds(ListView::empty(), commands.take(k));
    assert(commands.take(k + 1).drop_last() =~= commands.take(k));
}

/// No identifier is given out twice: of two commands of a run that add a task, the later
/// one gives out the larger identifier.
pub proof fn lemma_ids_strictly_increase(commands: Seq<CommandView>, j: int, k: int)
    requires
        0 <= j < k < commands.len(),
        commands[j] is Add,
        commands[k] is Add,
    ensures
        issued(commands, j) < issued(commands, k),
{
    lemma_ids_count_up_from_one(commands, j);
    lemma_ids_count_up_from_one(commands, k);
    lemma_adds_grows(commands, j, k);
}

/// Whatever commands were carried out on a list that started empty, it is valid, so that
/// no identifier occurs twice in it, and its identifiers grow along the list.
pub proof fn lemma_run_from_empty_is_valid(commands: Seq<CommandView>)
    ensures
        run(ListView::empty(), commands).wf(),
        run(ListView::empty(), commands).ids_ascending(),
        run(ListView::empty(), commands).ids_unique(),
{
    lemma_run_keeps_valid(ListView::empty(), commands);
}

/// An identifier that was given out is never met again in the list under a later task, not
/// even after removals: at every point of a run, each task in the list has an identifier
/// below the one that is given out next.
pub proof fn lemma_issued_above_all_present(commands: Seq<CommandView>, k: int, i: int)
    requires
        0 <= k <= commands.len(),
        0 <= i < run(ListView::empty(), commands.take(k)).tasks.len(),
    ensures
        run(ListView::empty(), commands.take(k)).tasks[i].id < issued(commands, k),
{
    lemma_run_keeps_valid(ListView::empty(), commands.take(k));
}

} // verus!
