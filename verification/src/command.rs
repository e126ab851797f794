//! The commands of the program: reading one from the words of a command line, and carrying
//! it out on a task list.

use vstd::prelude::*;
use crate::decimal::{parse_decimal, parse_usize};
use crate::error::{TodoError, NOT_FOUND};
use crate::message::{
    help, help_text, notice, texts, ADDED, COMPLETED, REMOVED, USAGE_ADD, USAGE_DONE,
    USAGE_REMOVE,
};
use crate::render::listing;
use crate::store::{ListView, TodoList};

verus! {

/// A command that takes an argument.
#[derive(Debug, Clone, Copy, PartialEq, Eq, Structural)]
pub enum Verb {
    /// `add`, which takes a title.
    Add,
    /// `done`, which takes an identifier.
    Done,
    /// `remove`, which takes an identifier.
    Remove,
}

impl Verb {
    /// The line that says how the command is used.
    pub open spec fn usage(self) -> Seq<char> {
        match self {
            Verb::Add => USAGE_ADD@,
            Verb::Done => USAGE_DONE@,
            Verb::Remove => USAGE_REMOVE@,
        }
    }
}

/// The model of a command: titles as sequences of characters, identifiers as numbers.
pub ghost enum CommandView {
    /// No command was given.
    Help,
    /// The command is not a known one.
    Unknown,
    /// Add a task with this title.
    Add(Seq<char>),
    /// Show the list.
    List,
    /// Mark the task with this identifier as done.
    Done(nat),
    /// Remove the task with this identifier.
    Remove(nat),
    /// The command lacks its argument.
    Usage(Verb),
}

/// What the program is asked to do.
#[derive(Debug, PartialEq, Eq)]
pub enum Command {
    /// No command was given: show the help text and leave the saved list alone.
    Help,
    /// The command is not a known one: show the help text.
    Unknown,
    /// Add a task with this title.
    Add(String),
    /// Show the list.
    List,
    /// Mark the task with this identifier as done.
    Done(usize),
    /// Remove the task with this identifier.
    Remove(usize),
    /// The command lacks its argument: show how it is used and change nothing.
    Usage(Verb),
}

impl View for Command {
    type V = CommandView;

    open spec fn view(&self) -> CommandView {
        match self {
            Command::Help => CommandView::Help,
            Command::Unknown => CommandView::Unknown,
            Command::Add(title) => CommandView::Add(title@),
            Command::List => CommandView::List,
            Command::Done(id) => CommandView::Done(*id as nat),
            Command::Remove(id) => CommandView::Remove(*id as nat),
            Command::Usage(verb) => CommandView::Usage(*verb),
        }
    }
}

/// The words, in order, with one space between each two.
pub open spec fn joined(words: Seq<Seq<char>>) -> Seq<char>
    decreases words.len(),
{
    if words.len() == 0 {
        Seq::empty()
    } else if words.len() == 1 {
        words[0]
    } else {
        joined(words.drop_last()) + " "@ + words.last()
    }
}

/// The command that the words after the program's name ask for. The first word names the
/// command. `add` takes all further words as the title; `done` and `remove` take the next
/// word as an identifier, which has to be a number.
pub open spec fn parsed(words: Seq<Seq<char>>) -> Result<CommandView, TodoError> {
    if words.len() == 0 {
        Ok(CommandView::Help)
    } else if words[0] == "add"@ {
        if words.len() < 2 {
            Ok(CommandView::Usage(Verb::Add))
        } else {
            Ok(CommandView::Add(joined(words.skip(1))))
        }
    } else if words[0] == "list"@ {
        Ok(CommandView::List)
    } else if words[0] == "done"@ {
        if words.len() < 2 {
            Ok(CommandView::Usage(Verb::Done))
        } else {
            match parse_decimal(words[1]) {
                Some(id) => Ok(CommandView::Done(id)),
                None => Err(TodoError::InvalidId),
            }
        }
    } else if words[0] == "remove"@ {
        if words.len() < 2 {
            Ok(CommandView::Usage(Verb::Remove))
        } else {
            match parse_decimal(words[1]) {
                Some(id) => Ok(CommandView::Remove(id)),
                None => Err(TodoError::InvalidId),
            }
        }
    } else {
        Ok(CommandView::Unknown)
    }
}

impl CommandView {
    /// Whether the saved list is read before the command is carried out.
    pub open spec fn reads_store(self) -> bool {
        !(self is Help)
    }

    /// Whether the list is saved after the command was carried out.
    pub open spec fn writes_store(self) -> bool {
        !(self is Help || self is Usage)
    }
}

impl ListView {
    /// The list after a command was carried out.
    pub open spec fn after(self, command: CommandView) -> ListView {
        match command {
            CommandView::Add(title) => self.added(title),
            CommandView::Done(id) => self.completed(id),
            CommandView::Remove(id) => self.removed(id),
            _ => self,
        }
    }

    /// The lines that the program shows when it carries out a command on this list.
    pub open spec fn response(self, command: CommandView) -> Seq<Seq<char>> {
        match command {
            CommandView::Help => help(),
            CommandView::Unknown => help(),
            CommandView::Add(_) => seq![ADDED@],
            CommandView::List => listing(self.tasks),
            CommandView::Done(id) => if self.contains(id) {
                seq![COMPLETED@]
            } else {
                seq![NOT_FOUND@]
            },
            CommandView::Remove(id) => if self.contains(id) {
                seq![REMOVED@]
            } else {
                seq![NOT_FOUND@]
            },
            CommandView::Usage(verb) => seq![verb.usage()],
        }
    }
}

/// Whether `word` reads `name`.
fn reads(word: &String, name: &str) -> (same: bool)
    ensures
        same == (word@ == name@),
{
    let name = name.to_owned();
    *word == name
}

/// The words from `start` on, with one space between each two.
fn join_from(words: &Vec<String>, start: usize) -> (text: String)
    requires
        start < words.len(),
    ensures
        text@ == joined(texts(words@).skip(start as int)),
{
    let ghost rest = texts(words@).skip(start as int);
    let mut text = words[start].clone();
    let mut i: usize = start + 1;
    while i < words.len()
        invariant
            start < i <= words.len(),
            rest == texts(words@).skip(start as int),
            text@ == joined(rest.take(i - start)),
        decreases words.len() - i,
    {
        assert(rest.take(i + 1 - start).drop_last() =~= rest.take(i - start));
        text.append(" ");
        text.append(words[i].as_str());
        i += 1;
    }
    assert(rest.take(i - start) =~= rest);
    text
}

impl Command {
    /// Reads a command from the words that follow the program's name.
    pub fn parse(words: &Vec<String>) -> (result: Result<Command, TodoError>)
        ensures
            match result {
                Ok(command) => parsed(texts(words@)) == Ok::<CommandView, TodoError>(command@),
                Err(error) => parsed(texts(words@)) == Err::<CommandView, TodoError>(error),
            },
    {
        if words.len() == 0 {
            return Ok(Command::Help);
        }
        let word = &words[0];
        if reads(word, "add") {
            if words.len() < 2 {
                Ok(Command::Usage(Verb::Add))
            } else {
                Ok(Command::Add(join_from(words, 1)))
            }
        } else if reads(word, "list") {
            Ok(Command::List)
        } else if reads(word, "done") {
            if words.len() < 2 {
                Ok(Command::Usage(Verb::Done))
            } else {
                match parse_usize(words[1].as_str()) {
                    Some(id) => Ok(Command::Done(id)),
                    None => Err(TodoError::InvalidId),
                }
            }
        } else if reads(word, "remove") {
            if words.len() < 2 {
                Ok(Command::Usage(Verb::Remove))
            } else {
                match parse_usize(words[1].as_str()) {
                    Some(id) => Ok(Command::Remove(id)),
                    None => Err(TodoError::InvalidId),
                }
            }
        } else {
            Ok(Command::Unknown)
        }
    }

    /// Whether the saved list is read before the command is carried out.
    pub fn reads_store(&self) -> (reads: bool)
        ensures
            reads == self@.reads_store(),
    {
        match self {
            Command::Help => false,
            _ => true,
        }
    }

    /// Whether the list is saved after the command was carried out.
    pub fn writes_store(&self) -> (writes: bool)
        ensures
            writes == self@.writes_store(),
    {
        match self {
            Command::Help => false,
            Command::Usage(_) => false,
            _ => true,
        }
    }
}

impl Verb {
    /// The line that says how the command is used.
    pub fn usage_text(&self) -> (text: &'static str)
        ensures
            text@ == self.usage(),
    {
        match self {
            Verb::Add => USAGE_ADD,
            Verb::Done => USAGE_DONE,
            Verb::Remove => USAGE_REMOVE,
        }
    }
}

impl TodoList {
    /// Carries out a command on the list and returns the lines to show.
    pub fn execute(&mut self, command: Command) -> (lines: Vec<String>)
        requires
            command is Add ==> old(self)@.next_id < usize::MAX,
        ensures
            final(self)@ == old(self)@.after(command@),
            texts(lines@) == old(self)@.response(command@),
            final(self)@.wf(),
    {
        // Whatever the command, the list is valid before it.
        let _ = self.next_id();
        match command {
            Command::Help => help_text(),
            Command::Unknown => help_text(),
            Command::Add(title) => notice(self.add(title)),
            Command::List => self.list(),
            Command::Done(id) => match self.done(id) {
                Ok(said) => notice(said),
                Err(error) => notice(error.message()),
            },
            Command::Remove(id) => match self.remove(id) {
                Ok(said) => notice(said),
                Err(error) => notice(error.message()),
            },
            Command::Usage(verb) => notice(verb.usage_text()),
        }
    }
}

} // verus!
