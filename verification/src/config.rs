//! The task definition as it is authored: every field open to editing,
//! absent texts held as empty strings.

use vstd::prelude::*;
use vstd::string::*;

verus! {

/// The mathematical content of a task definition.
#[verifier::ext_equal]
pub struct TaskModel {
    pub id: Seq<char>,
    pub is_update: bool,
    pub always_confirm: bool,
    pub src: Seq<char>,
    pub dst: Seq<char>,
    pub backup_path: Seq<char>,
    pub compare_paths: bool,
    pub link_dest: Seq<Seq<char>>,
    pub compare_dest: Seq<Seq<char>>,
    pub exclude_from: Seq<char>,
    pub include_from: Seq<char>,
    pub files_from: Seq<char>,
    pub exclude_others: bool,
}

/// Why a task definition is inconsistent.
#[derive(Clone, Copy, Debug, PartialEq, Eq, Structural)]
pub enum ValidationError {
    MissingSource,
    MissingDestination,
    UpdateComparesBackups,
    UpdateHasBackupPath,
    NoBackupPathToCompare,
}

impl TaskModel {
    /// An update task with nothing filled in.
    pub open spec fn blank() -> TaskModel {
        TaskModel {
            id: Seq::empty(),
            is_update: true,
            always_confirm: false,
            src: Seq::empty(),
            dst: Seq::empty(),
            backup_path: Seq::empty(),
            compare_paths: false,
            link_dest: Seq::empty(),
            compare_dest: Seq::empty(),
            exclude_from: Seq::empty(),
            include_from: Seq::empty(),
            files_from: Seq::empty(),
            exclude_others: false,
        }
    }

    /// The first rule that the task breaks, if any. Source and destination
    /// must be given; an update task neither compares with old backups nor
    /// names a backup path; comparing with old backups needs a backup path.
    pub open spec fn violation(self) -> Option<ValidationError> {
        if self.src.len() == 0 {
            Some(ValidationError::MissingSource)
        } else if self.dst.len() == 0 {
            Some(ValidationError::MissingDestination)
        } else if self.is_update && self.compare_paths {
            Some(ValidationError::UpdateComparesBackups)
        } else if self.is_update && self.backup_path.len() > 0 {
            Some(ValidationError::UpdateHasBackupPath)
        } else if self.compare_paths && self.backup_path.len() == 0 {
            Some(ValidationError::NoBackupPathToCompare)
        } else {
            None
        }
    }

    /// Whether the task breaks no rule.
    pub open spec fn is_valid(self) -> bool {
        self.violation() is None
    }
}

/// A task that compares with old backups but names no backup path is never
/// valid, whatever its other fields hold.
pub proof fn lemma_compare_needs_backup_path(task: TaskModel)
    requires
        task.compare_paths,
        task.backup_path.len() == 0,
    ensures
        !task.is_valid(),
{
}

/// A valid task has a source and a destination, snapshots only as a backup
/// task, and has a backup path whenever it compares with old backups.
pub proof fn lemma_valid_task(task: TaskModel)
    ensures
        task.is_valid() <==> {
            &&& task.src.len() > 0
            &&& task.dst.len() > 0
            &&& task.is_update ==> task.backup_path.len() == 0 && !task.compare_paths
            &&& task.compare_paths ==> task.backup_path.len() > 0
        },
{
}

impl ValidationError {
    /// The reason in words.
    pub open spec fn text(self) -> Seq<char> {
        match self {
            ValidationError::MissingSource => "No source path specified"@,
            ValidationError::MissingDestination => "No destination path specified"@,
            ValidationError::UpdateComparesBackups => "Update task can't compare with backups"@,
            ValidationError::UpdateHasBackupPath => "Update task can't have backup path"@,
            ValidationError::NoBackupPathToCompare => "No backup path to compare to"@,
        }
    }

    /// The reason in words.
    pub fn message(&self) -> (s: &'static str)
        ensures
            s@ == self.text(),
    {
        match self {
            ValidationError::MissingSource => "No source path specified",
            ValidationError::MissingDestination => "No destination path specified",
            ValidationError::UpdateComparesBackups => "Update task can't compare with backups",
            ValidationError::UpdateHasBackupPath => "Update task can't have backup path",
            ValidationError::NoBackupPathToCompare => "No backup path to compare to",
        }
    }
}

/// One task as written in a configuration file.
#[derive(Debug, Clone, PartialEq, Eq)]
pub struct TaskConfig {
    pub id: String,
    pub is_update: bool,
    pub always_confirm: bool,
    pub src: String,
    pub dst: String,
    pub backup_path: String,
    pub compare_paths: bool,
    pub link_dest: Vec<String>,
    pub compare_dest: Vec<String>,
    pub exclude_from: String,
    pub include_from: String,
    pub files_from: String,
    pub exclude_others: bool,
}

impl View for TaskConfig {
    type V = TaskModel;

    open spec fn view(&self) -> TaskModel {
        TaskModel {
            id: self.id@,
            is_update: self.is_update,
            always_confirm: self.always_confirm,
            src: self.src@,
            dst: self.dst@,
            backup_path: self.backup_path@,
            compare_paths: self.compare_paths,
            link_dest: self.link_dest.deep_view(),
            compare_dest: self.compare_dest.deep_view(),
            exclude_from: self.exclude_from@,
            include_from: self.include_from@,
            files_from: self.files_from@,
            exclude_others: self.exclude_others,
        }
    }
}

impl DeepView for TaskConfig {
    type V = TaskModel;

    open spec fn deep_view(&self) -> TaskModel {
        self@
    }
}

impl Default for TaskConfig {
    fn default() -> (task: TaskConfig)
        ensures
            task@ == TaskModel::blank(),
    {
        let task = TaskConfig {
            id: String::new(),
            is_update: true,
            always_confirm: false,
            src: String::new(),
            dst: String::new(),
            backup_path: String::new(),
            compare_paths: false,
            link_dest: Vec::new(),
            compare_dest: Vec::new(),
            exclude_from: String::new(),
            include_from: String::new(),
            files_from: String::new(),
            exclude_others: false,
        };
        assert(task@ =~= TaskModel::blank());
        task
    }
}

impl TaskConfig {
    /// Checks the task against the consistency rules and names the first one
    /// that it breaks.
    pub fn validate(&self) -> (result: Result<(), ValidationError>)
        ensures
            result == match self@.violation() {
                Some(error) => Err::<(), ValidationError>(error),
                None => Ok(()),
            },
    {
        if self.src.as_str().is_empty() {
            return Err(ValidationError::MissingSource);
        }
        if self.dst.as_str().is_empty() {
            return Err(ValidationError::MissingDestination);
        }
        if self.is_update {
            if self.compare_paths {
                return Err(ValidationError::UpdateComparesBackups);
            }
            if !self.backup_path.as_str().is_empty() {
                return Err(ValidationError::UpdateHasBackupPath);
            }
        }
        if self.backup_path.as_str().is_empty() && self.compare_paths {
            return Err(ValidationError::NoBackupPathToCompare);
        }
        Ok(())
    }
}

} // verus!
