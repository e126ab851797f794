use todo_list::error::TodoError;
use todo_list::store::{Saved, TodoList};
use todo_list::task::{Status, Task};

fn text(value: &str) -> String {
    String::from(value)
}

fn loaded(tasks: Vec<Task>) -> TodoList {
    TodoList::load(Saved::Tasks(tasks)).unwrap()
}

fn task(id: usize, title: &str, status: Status) -> Task {
    Task { id, title: text(title), status }
}

fn ids(store: &TodoList) -> Vec<usize> {
    store.save().iter().map(|task| task.id).collect()
}

#[test]
fn new_store_is_empty_and_starts_at_one() {
    let store = TodoList::new();
    assert!(store.save().is_empty());
    assert_eq!(store.next_id(), 1);
}

#[test]
fn add_appends_a_pending_task_under_the_next_id() {
    let mut store = TodoList::new();
    store.add(text("first"));
    store.add(text("second"));
    assert_eq!(
        store.save(),
        &vec![task(1, "first", Status::Pending), task(2, "second", Status::Pending)]
    );
    assert_eq!(store.next_id(), 3);
}

#[test]
fn add_accepts_empty_and_blank_titles() {
    let mut store = TodoList::new();
    store.add(text(""));
    store.add(text("   "));
    assert_eq!(store.save(), &vec![task(1, "", Status::Pending), task(2, "   ", Status::Pending)]);
    assert_eq!(store.list(), vec![text("1. [ ] "), text("2. [ ]    ")]);
}

#[test]
fn ids_count_up_from_one() {
    let mut store = TodoList::new();
    for n in 1..=25usize {
        assert_eq!(store.next_id(), n);
        store.add(format!("task {}", n));
        assert_eq!(store.save().last().unwrap().id, n);
    }
    assert_eq!(ids(&store), (1..=25usize).collect::<Vec<usize>>());
}

#[test]
fn ids_are_not_reused_after_removes() {
    let mut store = TodoList::new();
    store.add(text("a"));
    store.add(text("b"));
    store.add(text("c"));
    assert_eq!(store.remove(3), Ok("✓ 任务已删除"));
    assert_eq!(store.remove(1), Ok("✓ 任务已删除"));
    store.add(text("d"));
    assert_eq!(ids(&store), vec![2, 4]);
    assert_eq!(store.remove(2), Ok("✓ 任务已删除"));
    assert_eq!(store.remove(4), Ok("✓ 任务已删除"));
    assert!(store.save().is_empty());
    store.add(text("e"));
    assert_eq!(ids(&store), vec![5]);
    assert_eq!(store.next_id(), 6);
}

#[test]
fn done_changes_only_the_status_of_that_task() {
    let mut store = TodoList::new();
    store.add(text("a"));
    store.add(text("b"));
    store.add(text("c"));
    assert_eq!(store.done(2), Ok("✓ 任务已完成"));
    assert_eq!(
        store.save(),
        &vec![
            task(1, "a", Status::Pending),
            task(2, "b", Status::Done),
            task(3, "c", Status::Pending)
        ]
    );
    assert_eq!(store.next_id(), 4);
}

#[test]
fn done_on_a_done_task_leaves_it_done() {
    let mut store = TodoList::new();
    store.add(text("a"));
    assert_eq!(store.done(1), Ok("✓ 任务已完成"));
    assert_eq!(store.done(1), Ok("✓ 任务已完成"));
    assert_eq!(store.save(), &vec![task(1, "a", Status::Done)]);
}

#[test]
fn done_on_a_missing_id_changes_nothing_and_reports_not_found() {
    let mut store = TodoList::new();
    store.add(text("a"));
    store.add(text("b"));
    assert_eq!(store.done(2), Ok("✓ 任务已完成"));
    let before = store.save().clone();
    assert_eq!(store.done(7), Err(TodoError::NotFound));
    assert_eq!(store.done(0), Err(TodoError::NotFound));
    assert_eq!(store.save(), &before);
    assert_eq!(store.next_id(), 3);
}

#[test]
fn done_on_an_empty_store_reports_not_found() {
    let mut store = TodoList::new();
    assert_eq!(store.done(1), Err(TodoError::NotFound));
    assert!(store.save().is_empty());
}

#[test]
fn remove_on_a_missing_id_changes_nothing_and_reports_not_found() {
    let mut store = TodoList::new();
    store.add(text("a"));
    store.add(text("b"));
    let before = store.save().clone();
    assert_eq!(store.remove(3), Err(TodoError::NotFound));
    assert_eq!(store.save(), &before);
    assert_eq!(store.next_id(), 3);
}

#[test]
fn remove_shortens_by_one_and_keeps_the_rest_in_order() {
    let mut store = TodoList::new();
    for title in ["a", "b", "c", "d"] {
        store.add(text(title));
    }
    assert_eq!(store.done(4), Ok("✓ 任务已完成"));
    assert_eq!(store.remove(2), Ok("✓ 任务已删除"));
    assert_eq!(
        store.save(),
        &vec![
            task(1, "a", Status::Pending),
            task(3, "c", Status::Pending),
            task(4, "d", Status::Done)
        ]
    );
    assert_eq!(store.remove(2), Err(TodoError::NotFound));
    assert_eq!(store.save().len(), 3);
}

#[test]
fn list_of_an_empty_store_is_the_notice() {
    assert_eq!(TodoList::new().list(), vec![text("暂无任务")]);
}

#[test]
fn list_shows_each_task_in_order() {
    let store = loaded(vec![
        task(10, "ten", Status::Done),
        task(3, "three", Status::Pending),
        task(12345, "many digits", Status::Pending),
        task(0, "zero", Status::Done),
    ]);
    assert_eq!(
        store.list(),
        vec![
            text("10. [✓] ten"),
            text("3. [ ] three"),
            text("12345. [ ] many digits"),
            text("0. [✓] zero"),
        ]
    );
}

#[test]
fn list_does_not_change_the_store() {
    let mut store = TodoList::new();
    store.add(text("a"));
    let before = store.save().clone();
    let _ = store.list();
    assert_eq!(store.save(), &before);
    assert_eq!(store.next_id(), 2);
}

#[test]
fn load_sets_the_next_id_above_the_largest() {
    let store = loaded(vec![
        task(3, "c", Status::Pending),
        task(7, "g", Status::Done),
        task(5, "e", Status::Pending),
    ]);
    assert_eq!(store.next_id(), 8);
    assert_eq!(ids(&store), vec![3, 7, 5]);
}

#[test]
fn load_of_no_tasks_starts_at_one() {
    let store = loaded(Vec::new());
    assert!(store.save().is_empty());
    assert_eq!(store.next_id(), 1);
}

#[test]
fn load_takes_the_largest_id_the_machine_allows() {
    let store = loaded(vec![task(usize::MAX - 1, "last", Status::Pending)]);
    assert_eq!(store.next_id(), usize::MAX);
}

#[test]
fn load_of_what_is_unusable_fails() {
    assert_eq!(TodoList::load(Saved::Unusable).err(), Some(TodoError::Persistence));
}

#[test]
fn load_of_nothing_saved_is_the_empty_store() {
    let store = TodoList::load(Saved::Missing).unwrap();
    assert!(store.save().is_empty());
    assert_eq!(store.next_id(), 1);
}

#[test]
fn load_fails_where_no_id_is_left_for_a_next_task() {
    let tasks = vec![task(1, "a", Status::Pending), task(usize::MAX, "b", Status::Pending)];
    assert_eq!(TodoList::load(Saved::Tasks(tasks)).err(), Some(TodoError::Persistence));
}

#[test]
fn save_then_load_keeps_the_tasks() {
    let mut store = TodoList::new();
    store.add(text("a"));
    store.add(text("b"));
    store.add(text("c"));
    assert_eq!(store.done(2), Ok("✓ 任务已完成"));
    let saved = store.save().clone();
    let again = loaded(saved.clone());
    assert_eq!(again.save(), &saved);
    assert_eq!(again.list(), store.list());
    assert_eq!(again.next_id(), 4);
}

#[test]
fn save_then_load_forgets_ids_removed_from_the_end() {
    let mut store = TodoList::new();
    store.add(text("a"));
    store.add(text("b"));
    assert_eq!(store.remove(2), Ok("✓ 任务已删除"));
    assert_eq!(store.next_id(), 3);
    let again = loaded(store.save().clone());
    assert_eq!(again.save(), store.save());
    assert_eq!(again.next_id(), 2);
}

#[test]
fn load_fails_where_two_tasks_share_an_id() {
    let twice = vec![task(1, "first", Status::Pending), task(1, "second", Status::Pending)];
    assert_eq!(TodoList::load(Saved::Tasks(twice)).err(), Some(TodoError::Persistence));
    let apart = vec![
        task(4, "a", Status::Pending),
        task(2, "b", Status::Done),
        task(9, "c", Status::Pending),
        task(2, "d", Status::Pending),
    ];
    assert_eq!(TodoList::load(Saved::Tasks(apart)).err(), Some(TodoError::Persistence));
}

#[test]
fn load_takes_distinct_ids_in_any_order() {
    let store = loaded(vec![
        task(4, "a", Status::Pending),
        task(2, "b", Status::Done),
        task(9, "c", Status::Pending),
        task(0, "d", Status::Pending),
    ]);
    assert_eq!(ids(&store), vec![4, 2, 9, 0]);
    assert_eq!(store.next_id(), 10);
}

#[test]
fn add_returns_the_line_that_confirms_it() {
    let mut store = TodoList::new();
    assert_eq!(store.add(text("a")), "✓ 任务已添加");
    assert_eq!(store.add(text("")), "✓ 任务已添加");
    assert_eq!(store.save().len(), 2);
}

#[test]
fn done_and_remove_return_their_lines_only_on_success() {
    let mut store = TodoList::new();
    store.add(text("a"));
    assert_eq!(store.done(1), Ok("✓ 任务已完成"));
    assert_eq!(store.done(2), Err(TodoError::NotFound));
    assert_eq!(store.remove(2), Err(TodoError::NotFound));
    assert_eq!(store.remove(1), Ok("✓ 任务已删除"));
    assert_eq!(store.remove(1), Err(TodoError::NotFound));
}

#[test]
fn ids_stay_distinct_through_adds_and_removes() {
    let mut store = loaded(vec![task(7, "g", Status::Pending), task(3, "c", Status::Done)]);
    store.add(text("h"));
    assert_eq!(store.remove(3), Ok("✓ 任务已删除"));
    store.add(text("i"));
    let mut seen = ids(&store);
    assert_eq!(seen, vec![7, 8, 9]);
    seen.dedup();
    assert_eq!(seen.len(), 3);
}

#[test]
fn a_cloned_task_equals_the_task() {
    let source = task(4, "copy me", Status::Done);
    assert_eq!(source.clone(), source);
}
