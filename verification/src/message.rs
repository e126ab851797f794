//! The fixed texts that the program shows.

use vstd::prelude::*;

verus! {

/// Shown in place of an empty list.
pub const NO_TASKS: &'static str = "暂无任务";

/// Confirms that a task was added.
pub const ADDED: &'static str = "✓ 任务已添加";

/// Confirms that a task was marked as done.
pub const COMPLETED: &'static str = "✓ 任务已完成";

/// Confirms that a task was removed.
pub const REMOVED: &'static str = "✓ 任务已删除";

/// How `add` is used.
pub const USAGE_ADD: &'static str = "用法: todo add <任务>";

/// How `done` is used.
pub const USAGE_DONE: &'static str = "用法: todo done <id>";

/// How `remove` is used.
pub const USAGE_REMOVE: &'static str = "用法: todo remove <id>";

/// The first line of the help text.
pub const HELP_TITLE: &'static str = "Todo CLI - 待办事项管理";

/// The heading above the list of commands.
pub const HELP_HEADING: &'static str = "用法:";

/// The help text's line for `add`.
pub const HELP_ADD: &'static str = "  todo add <任务>    添加任务";

/// The help text's line for `list`.
pub const HELP_LIST: &'static str = "  todo list          列出任务";

/// The help text's line for `done`.
pub const HELP_DONE: &'static str = "  todo done <id>     完成任务";

/// The help text's line for `remove`.
pub const HELP_REMOVE: &'static str = "  todo remove <id>   删除任务";

/// What each of a sequence of strings holds.
pub open spec fn texts(lines: Seq<String>) -> Seq<Seq<char>> {
    lines.map_values(|text: String| text@)
}

/// The help text, line by line: the title, an empty line, the heading, one line per command.
pub open spec fn help() -> Seq<Seq<char>> {
    seq![
        HELP_TITLE@,
        Seq::empty(),
        HELP_HEADING@,
        HELP_ADD@,
        HELP_LIST@,
        HELP_DONE@,
        HELP_REMOVE@,
    ]
}

/// The help text, line by line.
pub fn help_text() -> (lines: Vec<String>)
    ensures
        texts(lines@) == help(),
{
    let mut lines: Vec<String> = Vec::new();
    lines.push(HELP_TITLE.to_owned());
    lines.push(String::new());
    lines.push(HELP_HEADING.to_owned());
    lines.push(HELP_ADD.to_owned());
    lines.push(HELP_LIST.to_owned());
    lines.push(HELP_DONE.to_owned());
    lines.push(HELP_REMOVE.to_owned());
    lines
}

/// A single line of output.
pub fn notice(text: &str) -> (lines: Vec<String>)
    ensures
        texts(lines@) == seq![text@],
{
    let mut lines: Vec<String> = Vec::new();
    lines.push(text.to_owned());
    lines
}

} // verus!
