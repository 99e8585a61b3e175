//! The state behind a configuration editor: the task being edited, the list
//! of saved tasks, and what the last exchange with the disk came to.

use crate::config::{TaskConfig, TaskModel, ValidationError};
use crate::parser::{read_all, ParseError};
use crate::reader::lines_of;
use crate::stanza::{parse_all, stanza_text};
use crate::text::{decimal, push_decimal};
use vstd::prelude::*;
use vstd::string::*;

verus! {

/// What the last exchange with the disk came to.
#[derive(Debug, Clone, PartialEq, Eq)]
pub enum IoState {
    FileNotFound,
    IoError(String),
    InvalidTask(String),
    ConfigWritten,
    ConfigRead,
}

impl IoState {
    /// The line that tells the user of it.
    pub open spec fn text(self) -> Seq<char> {
        match self {
            IoState::FileNotFound => "Err: File not found"@,
            IoState::IoError(why) => "Err: "@ + why@,
            IoState::InvalidTask(why) => "Error in "@ + why@,
            IoState::ConfigWritten => "Saved config file"@,
            IoState::ConfigRead => "Read config file"@,
        }
    }

    /// The line that tells the user of it.
    pub fn message(&self) -> (text: String)
        ensures
            text@ == self.text(),
    {
        match self {
            IoState::FileNotFound => String::from_str("Err: File not found"),
            IoState::IoError(why) => String::from_str("Err: ").concat(why.as_str()),
            IoState::InvalidTask(why) => String::from_str("Error in ").concat(why.as_str()),
            IoState::ConfigWritten => String::from_str("Saved config file"),
            IoState::ConfigRead => String::from_str("Read config file"),
        }
    }
}

/// The name under which a task is listed: its own, or its position in the
/// list, counted from one, for a task without a name.
pub open spec fn label(task: TaskModel, index: int) -> Seq<char> {
    if task.id.len() == 0 {
        "(Task #"@ + decimal((index + 1) as nat) + ")"@
    } else {
        task.id
    }
}

/// A task that cannot be saved.
#[derive(Debug, Clone, PartialEq, Eq)]
pub struct InvalidTask {
    /// The position of the task in the list.
    pub index: usize,
    /// The name under which the task is listed.
    pub label: String,
    /// The rule that the task breaks.
    pub reason: ValidationError,
}

impl InvalidTask {
    /// Which task cannot be saved, and why.
    pub open spec fn text(self) -> Seq<char> {
        self.label@ + ": "@ + self.reason.text()
    }

    /// Which task cannot be saved, and why.
    pub fn message(&self) -> (text: String)
        ensures
            text@ == self.text(),
    {
        let mut text = self.label.clone();
        text.append(": ");
        text.append(self.reason.message());
        text
    }
}

/// The position of the first task that breaks a rule, or the number of
/// tasks if none does.
pub open spec fn first_invalid(tasks: Seq<TaskModel>) -> int
    decreases tasks.len(),
{
    if tasks.len() == 0 {
        0
    } else if !tasks[0].is_valid() {
        0
    } else {
        1 + first_invalid(tasks.drop_first())
    }
}

/// Every task before the first invalid one is valid, and the first invalid
/// one, if there is one, is not.
pub proof fn lemma_first_invalid(tasks: Seq<TaskModel>)
    ensures
        0 <= first_invalid(tasks) <= tasks.len(),
        forall|i: int| 0 <= i < first_invalid(tasks) ==> (#[trigger] tasks[i]).is_valid(),
        first_invalid(tasks) < tasks.len() ==> !tasks[first_invalid(tasks)].is_valid(),
    decreases tasks.len(),
{
    if tasks.len() > 0 && tasks[0].is_valid() {
        let rest = tasks.drop_first();
        lemma_first_invalid(rest);
        assert forall|i: int| 0 <= i < first_invalid(tasks) implies (#[trigger] tasks[i]).is_valid(
        ) by {
            if i > 0 {
                assert(tasks[i] == rest[i - 1]);
            }
        }
    }
}

/// The configuration file that holds `tasks`: their stanzas, one after the
/// other.
pub open spec fn file_text(tasks: Seq<TaskModel>) -> Seq<char>
    decreases tasks.len(),
{
    if tasks.len() == 0 {
        Seq::empty()
    } else {
        file_text(tasks.drop_last()) + stanza_text(tasks.last())
    }
}

/// The state of a configuration editor.
#[derive(Debug)]
pub struct ConfigEditor {
    /// The file that tasks are loaded from and saved to.
    pub filename: String,
    /// What the last load or save came to, if there was one.
    pub io_state: Option<IoState>,
    /// The task in the form.
    pub editing: TaskConfig,
    /// The saved tasks, in the order of the file.
    pub tasks: Vec<TaskConfig>,
}

impl Default for ConfigEditor {
    fn default() -> (editor: ConfigEditor)
        ensures
            editor.filename@.len() == 0,
            editor.io_state is None,
            editor.editing@ == TaskModel::blank(),
            editor.tasks.deep_view() == Seq::<TaskModel>::empty(),
    {
        let editor = ConfigEditor {
            filename: String::new(),
            io_state: None,
            editing: TaskConfig::default(),
            tasks: Vec::new(),
        };
        assert(editor.tasks.deep_view() =~= Seq::<TaskModel>::empty());
        editor
    }
}

impl ConfigEditor {
    /// Moves the task in the form to the end of the list and clears the
    /// form.
    pub fn save_edited_task(&mut self)
        ensures
            final(self).tasks.deep_view() == old(self).tasks.deep_view().push(old(self).editing@),
            final(self).editing@ == TaskModel::blank(),
            final(self).filename == old(self).filename,
            final(self).io_state == old(self).io_state,
    {
        let mut task = TaskConfig::default();
        std::mem::swap(&mut self.editing, &mut task);
        self.tasks.push(task);
        assert(self.tasks.deep_view() =~= old(self).tasks.deep_view().push(old(self).editing@));
    }

    /// Drops the task at `idx` from the list.
    pub fn remove_task_at(&mut self, idx: usize)
        requires
            idx < old(self).tasks.len(),
        ensures
            final(self).tasks.deep_view() == old(self).tasks.deep_view().remove(idx as int),
            final(self).editing == old(self).editing,
            final(self).filename == old(self).filename,
            final(self).io_state == old(self).io_state,
    {
        let _ = self.tasks.remove(idx);
        assert(self.tasks.deep_view() =~= old(self).tasks.deep_view().remove(idx as int));
    }

    /// Takes the task at `idx` out of the list and into the form; what the
    /// form held is lost.
    pub fn edit_task_at(&mut self, idx: usize)
        requires
            idx < old(self).tasks.len(),
        ensures
            final(self).editing@ == old(self).tasks.deep_view()[idx as int],
            final(self).tasks.deep_view() == old(self).tasks.deep_view().remove(idx as int),
            final(self).filename == old(self).filename,
            final(self).io_state == old(self).io_state,
    {
        self.editing = self.tasks.remove(idx);
        assert(self.tasks.deep_view() =~= old(self).tasks.deep_view().remove(idx as int));
    }

    /// The name under which the task at `idx` is listed.
    pub fn label_of(&self, idx: usize) -> (text: String)
        requires
            idx < self.tasks.len(),
        ensures
            text@ == label(self.tasks.deep_view()[idx as int], idx as int),
    {
        let task = &self.tasks[idx];
        if task.id.as_str().is_empty() {
            let mut text = String::from_str("(Task #");
            let position: u64 = idx as u64 + 1;
            push_decimal(&mut text, position);
            text.append(")");
            text
        } else {
            task.id.clone()
        }
    }

    /// The text of the configuration file that holds the saved tasks. The
    /// first task that breaks a rule is reported instead, and nothing is
    /// written for any of them.
    pub fn render(&self) -> (result: Result<String, InvalidTask>)
        ensures
            ({
                let tasks = self.tasks.deep_view();
                let at = first_invalid(tasks);
                if at < tasks.len() {
                    &&& result is Err
                    &&& result->Err_0.index == at
                    &&& result->Err_0.label@ == label(tasks[at], at)
                    &&& Some(result->Err_0.reason) == tasks[at].violation()
                } else {
                    &&& result is Ok
                    &&& result->Ok_0@ == file_text(tasks)
                }
            }),
    {
        let ghost tasks = self.tasks.deep_view();
        proof {
            lemma_first_invalid(tasks);
        }
        let mut i: usize = 0;
        while i < self.tasks.len()
            invariant
                i <= self.tasks.len(),
                tasks == self.tasks.deep_view(),
                i <= first_invalid(tasks) <= tasks.len(),
                forall|k: int| 0 <= k < first_invalid(tasks) ==> (#[trigger] tasks[k]).is_valid(),
                first_invalid(tasks) < tasks.len() ==> !tasks[first_invalid(tasks)].is_valid(),
            decreases self.tasks.len() - i,
        {
            match self.tasks[i].validate() {
                Err(reason) => {
                    assert(tasks[i as int] == self.tasks[i as int]@);
                    assert(first_invalid(tasks) == i) by {
                        if i < first_invalid(tasks) {
                            assert(tasks[i as int].is_valid());
                        }
                    }
                    return Err(InvalidTask { index: i, label: self.label_of(i), reason });
                },
                Ok(()) => {
                    assert(tasks[i as int] == self.tasks[i as int]@);
                    assert(first_invalid(tasks) != i);
                },
            }
            i += 1;
        }
        let mut text = String::new();
        let mut j: usize = 0;
        assert(text@ =~= file_text(tasks.take(0)));
        while j < self.tasks.len()
            invariant
                j <= self.tasks.len(),
                tasks == self.tasks.deep_view(),
                first_invalid(tasks) == tasks.len(),
                forall|k: int| 0 <= k < tasks.len() ==> (#[trigger] tasks[k]).is_valid(),
                text@ == file_text(tasks.take(j as int)),
            decreases self.tasks.len() - j,
        {
            proof {
                assert(tasks[j as int] == self.tasks[j as int]@);
                assert(tasks[j as int].is_valid());
                let part = tasks.take(j + 1);
                assert(part.drop_last() =~= tasks.take(j as int));
                assert(part.last() == tasks[j as int]);
            }
            match self.tasks[j].serialize() {
                Ok(stanza) => {
                    text.append(stanza.as_str());
                },
                Err(_) => {},
            }
            j += 1;
        }
        assert(tasks.take(j as int) =~= tasks);
        Ok(text)
    }

    /// Replaces the saved tasks by those that `text` holds. If a stanza
    /// cannot be read, the list stays as it was.
    pub fn load(&mut self, text: &str) -> (result: Result<(), ParseError>)
        ensures
            match parse_all(lines_of(text@)) {
                Ok(tasks) => result is Ok && final(self).tasks.deep_view() == tasks,
                Err(error) => result is Err && result->Err_0@ == error && final(self).tasks == old(
                    self,
                ).tasks,
            },
            final(self).editing == old(self).editing,
            final(self).filename == old(self).filename,
            final(self).io_state == old(self).io_state,
    {
        match read_all(text) {
            Ok(tasks) => {
                self.tasks = tasks;
                Ok(())
            },
            Err(error) => Err(error),
        }
    }
}

/// The state of an editor without a record of its exchanges with the disk:
/// the form and the saved tasks.
#[derive(Debug)]
pub struct State {
    /// The file that tasks are loaded from and saved to.
    pub filename: String,
    /// The task in the form.
    pub editing: TaskConfig,
    /// The saved tasks, in the order of the file.
    pub tasks: Vec<TaskConfig>,
}

impl State {
    /// The saved tasks, in order, for the caller to walk through.
    pub fn tasks_iter(&self) -> (tasks: &Vec<TaskConfig>)
        ensures
            tasks == self.tasks,
    {
        &self.tasks
    }

    /// Moves the task in the form to the end of the list and clears the
    /// form.
    pub fn save_edited_task(&mut self)
        ensures
            final(self).tasks.deep_view() == old(self).tasks.deep_view().push(old(self).editing@),
            final(self).editing@ == TaskModel::blank(),
            final(self).filename == old(self).filename,
    {
        let mut task = TaskConfig::default();
        std::mem::swap(&mut self.editing, &mut task);
        self.tasks.push(task);
        assert(self.tasks.deep_view() =~= old(self).tasks.deep_view().push(old(self).editing@));
    }
}

impl Default for State {
    fn default() -> (state: State)
        ensures
            state.filename@.len() == 0,
            state.editing@ == TaskModel::blank(),
            state.tasks.deep_view() == Seq::<TaskModel>::empty(),
    {
        let state = State {
            filename: String::new(),
            editing: TaskConfig::default(),
            tasks: Vec::new(),
        };
        assert(state.tasks.deep_view() =~= Seq::<TaskModel>::empty());
        state
    }
}

} // verus!
