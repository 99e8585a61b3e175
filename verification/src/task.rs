//! The task as the run engine holds it: checked once, then read only.

use crate::config::{TaskConfig, TaskModel, ValidationError};
use crate::parser::ParseError;
use crate::reader::LineReader;
use crate::stanza::{lemma_parsed_is_consistent, parse_stanza, ParseErrorView, StanzaParse};
use vstd::prelude::*;
use vstd::string::*;

verus! {

/// The task with the name that stands in for a missing one. An empty name
/// counts as none, whether the stanza held no `ID=` line or one with
/// nothing behind it.
pub open spec fn named(task: TaskModel) -> TaskModel {
    TaskModel {
        id: if task.id.len() == 0 {
            "New Task"@
        } else {
            task.id
        },
        ..task
    }
}

/// What strict reading makes of a stanza: besides what the grammar asks, a
/// task must name its source and its destination.
pub open spec fn strict(parse: StanzaParse) -> Result<TaskModel, ParseErrorView> {
    match parse.result {
        Err(error) => Err(error),
        Ok(task) => if task.src.len() == 0 {
            Err(ParseErrorView::MissingSource)
        } else if task.dst.len() == 0 {
            Err(ParseErrorView::MissingDestination)
        } else {
            Ok(named(task))
        },
    }
}

/// A task that meets every consistency rule.
#[derive(Debug)]
pub struct Task {
    config: TaskConfig,
}

impl View for Task {
    type V = TaskModel;

    closed spec fn view(&self) -> TaskModel {
        self.config@
    }
}

/// The mathematical content of what strict reading hands back.
pub open spec fn task_view(result: Result<Task, ParseError>) -> Result<TaskModel, ParseErrorView> {
    match result {
        Ok(task) => Ok(task@),
        Err(error) => Err(error@),
    }
}

impl Task {
    #[verifier::type_invariant]
    spec fn checked(self) -> bool {
        self.config@.is_valid()
    }

    /// Takes over a definition that breaks no rule. A task without a name,
    /// or with an empty one, is called `New Task`.
    fn adopt(config: TaskConfig) -> (task: Task)
        requires
            config@.is_valid(),
        ensures
            task@ == named(config@),
    {
        let ghost given = config@;
        let mut config = config;
        if config.id.as_str().is_empty() {
            config.id = String::from_str("New Task");
        }
        assert(config@ =~= named(given));
        Task { config }
    }

    /// Accepts a task definition that breaks no rule, and names the first
    /// broken rule otherwise. A task without a name, or with an empty one, is
    /// called `New Task`.
    pub fn from_config(config: TaskConfig) -> (result: Result<Task, ValidationError>)
        ensures
            match config@.violation() {
                Some(error) => result is Err && result->Err_0 == error,
                None => result is Ok && result->Ok_0@ == named(config@),
            },
    {
        match config.validate() {
            Err(error) => Err(error),
            Ok(()) => Ok(Task::adopt(config)),
        }
    }

    /// Reads the next stanza from `reader` and checks the task it holds.
    /// `ParseError::EndOfInput` tells that no task was left. A task whose
    /// stanza gives it no name, or an empty one, is called `New Task`.
    pub fn from_reader(reader: &mut LineReader) -> (result: Result<Task, ParseError>)
        ensures
            task_view(result) == strict(parse_stanza(old(reader)@)),
            final(reader)@ == old(reader)@.skip(parse_stanza(old(reader)@).consumed),
            0 <= parse_stanza(old(reader)@).consumed <= old(reader)@.len(),
    {
        proof {
            lemma_parsed_is_consistent(reader@);
        }
        match TaskConfig::from_reader(reader) {
            Err(error) => Err(error),
            Ok(config) => {
                if config.src.as_str().is_empty() {
                    return Err(ParseError::MissingSource);
                }
                if config.dst.as_str().is_empty() {
                    return Err(ParseError::MissingDestination);
                }
                Ok(Task::adopt(config))
            },
        }
    }

    /// The checked definition behind the task.
    pub fn config(&self) -> (config: &TaskConfig)
        ensures
            config@ == self@,
            config@.is_valid(),
    {
        proof {
            use_type_invariant(self);
        }
        &self.config
    }

    /// Whether the task asks for confirmation each time it is run.
    pub fn should_confirm(&self) -> (confirm: bool)
        ensures
            confirm == self@.always_confirm,
    {
        self.config.always_confirm
    }

    /// Whether the task mirrors its source, rather than taking a snapshot.
    pub fn is_update_task(&self) -> (update: bool)
        ensures
            update == self@.is_update,
    {
        self.config.is_update
    }

    /// The name of the task.
    pub fn get_id(&self) -> (id: &str)
        ensures
            id@ == self@.id,
    {
        self.config.id.as_str()
    }

    /// Source and destination, as shown when the task asks to be confirmed.
    pub fn get_description(&self) -> (text: String)
        ensures
            text@ == self@.src + " -> "@ + self@.dst,
    {
        let mut text = String::from_str(self.config.src.as_str());
        text.append(" -> ");
        text.append(self.config.dst.as_str());
        text
    }

    /// The path that is mirrored or backed up; never empty.
    pub fn source(&self) -> (path: &str)
        ensures
            path@ == self@.src,
            path@.len() > 0,
    {
        proof {
            use_type_invariant(self);
        }
        self.config.src.as_str()
    }

    /// The path that receives the files; never empty.
    pub fn destination(&self) -> (path: &str)
        ensures
            path@ == self@.dst,
            path@.len() > 0,
    {
        proof {
            use_type_invariant(self);
        }
        self.config.dst.as_str()
    }

    /// Whether the task compares with every old backup under its backup
    /// path. Only a backup task does.
    pub fn compares_with_backups(&self) -> (compare: bool)
        ensures
            compare == self@.compare_paths,
            compare ==> !self@.is_update && self@.backup_path.len() > 0,
    {
        proof {
            use_type_invariant(self);
        }
        self.config.compare_paths
    }

    /// The directory that holds the old backups; empty if none is named.
    pub fn backup_path(&self) -> (path: &str)
        ensures
            path@ == self@.backup_path,
    {
        self.config.backup_path.as_str()
    }
}

} // verus!
