//! What can go wrong, and how it is told to the user.

use vstd::prelude::*;

verus! {

/// What a failed request says to the user when no task has the identifier asked for.
pub const NOT_FOUND: &'static str = "任务不存在";

/// What a failed request says to the user when an identifier is not a number.
pub const INVALID_ID: &'static str = "ID 必须是数字";

/// What the program says when the saved list cannot be used.
pub const LOAD_FAILED: &'static str = "加载任务失败";

/// Why a request could not be carried out.
#[derive(Debug, Clone, Copy, PartialEq, Eq, Structural)]
pub enum TodoError {
    /// No task has the identifier that was asked for.
    NotFound,
    /// The identifier given on the command line is not a number.
    InvalidId,
    /// What was saved cannot be used as a task list.
    Persistence,
}

impl TodoError {
    /// The text that tells the user of this error.
    pub open spec fn text(self) -> Seq<char> {
        match self {
            TodoError::NotFound => NOT_FOUND@,
            TodoError::InvalidId => INVALID_ID@,
            TodoError::Persistence => LOAD_FAILED@,
        }
    }

    /// The text that tells the user of this error.
    pub fn message(&self) -> (message: &'static str)
        ensures
            message@ == self.text(),
    {
        match self {
            TodoError::NotFound => NOT_FOUND,
            TodoError::InvalidId => INVALID_ID,
            TodoError::Persistence => LOAD_FAILED,
        }
    }
}

} // verus!
