use todo_list::error::TodoError;
use todo_list::message::{help_text, notice};
use todo_list::render::render;
use todo_list::task::{Status, Task};

#[test]
fn help_text_has_a_title_a_gap_and_a_line_per_command() {
    assert_eq!(
        help_text(),
        vec![
            String::from("Todo CLI - 待办事项管理"),
            String::new(),
            String::from("用法:"),
            String::from("  todo add <任务>    添加任务"),
            String::from("  todo list          列出任务"),
            String::from("  todo done <id>     完成任务"),
            String::from("  todo remove <id>   删除任务"),
        ]
    );
}

#[test]
fn notice_is_one_line() {
    assert_eq!(notice("hello"), vec![String::from("hello")]);
    assert_eq!(notice(""), vec![String::new()]);
}

#[test]
fn error_messages() {
    assert_eq!(TodoError::NotFound.message(), "任务不存在");
    assert_eq!(TodoError::InvalidId.message(), "ID 必须是数字");
    assert_eq!(TodoError::Persistence.message(), "加载任务失败");
}

#[test]
fn render_shows_id_box_and_title() {
    let pending = Task { id: 1, title: String::from("buy milk"), status: Status::Pending };
    let done = Task { id: 27, title: String::from("写代码"), status: Status::Done };
    assert_eq!(render(&pending), "1. [ ] buy milk");
    assert_eq!(render(&done), "27. [✓] 写代码");
}

#[test]
fn render_agrees_with_the_format_string() {
    let task = Task { id: 9001, title: String::from(" spaced  out "), status: Status::Pending };
    assert_eq!(render(&task), format!("{}. {} {}", task.id, "[ ]", task.title));
}
