//! How a run proceeds from one task to the next.
//!
//! The caller reads tasks, asks the user and runs the tool; after each of
//! these it reports what happened and is told what to do next.

use crate::parser::ParseError;
use crate::stanza::ParseErrorView;
use crate::task::{task_view, Task};
use crate::text::{chars_of, is_word, trim, trim_line};
use vstd::prelude::*;
use vstd::string::*;

verus! {

/// What the command line asks of the run as a whole.
#[derive(Debug, Clone, Copy, PartialEq, Eq, Structural)]
pub struct RunPolicy {
    /// Ask before every task, not only before those that want it.
    pub ask: bool,
    /// End the run at the first task that fails, without asking.
    pub quit_on_fail: bool,
}

/// How a run ended.
#[derive(Debug, Clone, Copy, PartialEq, Eq, Structural)]
pub enum RunOutcome {
    /// Every task was read; none is left.
    Completed,
    /// A stanza could not be read.
    ParseFailed,
    /// A task failed and the run was to end at the first failure.
    Aborted,
    /// A task failed and the user chose not to go on.
    Cancelled,
}

/// What a run is waiting for.
#[derive(Debug, Clone, Copy, PartialEq, Eq, Structural)]
pub enum RunState {
    /// The next task is to be read.
    AwaitTask,
    /// The user is asked whether to run the task that was read.
    AwaitConfirmation,
    /// The task is being run.
    AwaitResult,
    /// The user is asked whether to go on after a failure.
    AwaitContinue,
    /// The run is over.
    Finished(RunOutcome),
}

/// What happened since the last step.
#[derive(Debug, Clone, Copy, PartialEq, Eq, Structural)]
pub enum RunEvent {
    /// A task was read; `confirm` tells whether it wants to be confirmed.
    TaskFound { confirm: bool },
    /// The configuration holds no further task.
    NoMoreTasks,
    /// The next stanza could not be read.
    ParseFailed,
    /// The user answered yes (`true`) or no.
    Answer(bool),
    /// The task ran and succeeded.
    TaskSucceeded,
    /// The task could not be run, or ran and failed.
    TaskFailed,
}

/// What the caller is to do next.
#[derive(Debug, Clone, Copy, PartialEq, Eq, Structural)]
pub enum RunAction {
    /// Read the next task.
    ReadTask,
    /// Ask whether to run the task; no answer counts as yes.
    AskRun,
    /// Run the task.
    RunTask,
    /// Ask whether to go on; no answer counts as no.
    AskContinue,
    /// Stop.
    Stop(RunOutcome),
}

/// The state that follows `state` on `event`. An event that the state does
/// not wait for changes nothing.
pub open spec fn next_state(state: RunState, policy: RunPolicy, event: RunEvent) -> RunState {
    match state {
        RunState::AwaitTask => match event {
            RunEvent::TaskFound { confirm } => if policy.ask || confirm {
                RunState::AwaitConfirmation
            } else {
                RunState::AwaitResult
            },
            RunEvent::NoMoreTasks => RunState::Finished(RunOutcome::Completed),
            RunEvent::ParseFailed => RunState::Finished(RunOutcome::ParseFailed),
            _ => state,
        },
        RunState::AwaitConfirmation => match event {
            RunEvent::Answer(yes) => if yes {
                RunState::AwaitResult
            } else {
                RunState::AwaitTask
            },
            _ => state,
        },
        RunState::AwaitResult => match event {
            RunEvent::TaskSucceeded => RunState::AwaitTask,
            RunEvent::TaskFailed => if policy.quit_on_fail {
                RunState::Finished(RunOutcome::Aborted)
            } else {
                RunState::AwaitContinue
            },
            _ => state,
        },
        RunState::AwaitContinue => match event {
            RunEvent::Answer(yes) => if yes {
                RunState::AwaitTask
            } else {
                RunState::Finished(RunOutcome::Cancelled)
            },
            _ => state,
        },
        RunState::Finished(_) => state,
    }
}

/// What is to be done in `state`.
pub open spec fn action_of(state: RunState) -> RunAction {
    match state {
        RunState::AwaitTask => RunAction::ReadTask,
        RunState::AwaitConfirmation => RunAction::AskRun,
        RunState::AwaitResult => RunAction::RunTask,
        RunState::AwaitContinue => RunAction::AskContinue,
        RunState::Finished(outcome) => RunAction::Stop(outcome),
    }
}

/// The state in which every run begins.
pub fn start() -> (begin: (RunState, RunAction))
    ensures
        begin.0 == RunState::AwaitTask,
        begin.1 == RunAction::ReadTask,
{
    (RunState::AwaitTask, RunAction::ReadTask)
}

/// Takes the run from `state` over `event` to the next state, and tells what
/// is to be done there.
pub fn step(state: RunState, policy: RunPolicy, event: RunEvent) -> (next: (RunState, RunAction))
    ensures
        next.0 == next_state(state, policy, event),
        next.1 == action_of(next.0),
{
    let after = match state {
        RunState::AwaitTask => match event {
            RunEvent::TaskFound { confirm } => if policy.ask || confirm {
                RunState::AwaitConfirmation
            } else {
                RunState::AwaitResult
            },
            RunEvent::NoMoreTasks => RunState::Finished(RunOutcome::Completed),
            RunEvent::ParseFailed => RunState::Finished(RunOutcome::ParseFailed),
            _ => state,
        },
        RunState::AwaitConfirmation => match event {
            RunEvent::Answer(yes) => if yes {
                RunState::AwaitResult
            } else {
                RunState::AwaitTask
            },
            _ => state,
        },
        RunState::AwaitResult => match event {
            RunEvent::TaskSucceeded => RunState::AwaitTask,
            RunEvent::TaskFailed => if policy.quit_on_fail {
                RunState::Finished(RunOutcome::Aborted)
            } else {
                RunState::AwaitContinue
            },
            _ => state,
        },
        RunState::AwaitContinue => match event {
            RunEvent::Answer(yes) => if yes {
                RunState::AwaitTask
            } else {
                RunState::Finished(RunOutcome::Cancelled)
            },
            _ => state,
        },
        RunState::Finished(_) => state,
    };
    let action = match after {
        RunState::AwaitTask => RunAction::ReadTask,
        RunState::AwaitConfirmation => RunAction::AskRun,
        RunState::AwaitResult => RunAction::RunTask,
        RunState::AwaitContinue => RunAction::AskContinue,
        RunState::Finished(outcome) => RunAction::Stop(outcome),
    };
    (after, action)
}

/// A run that is over stays over.
pub proof fn lemma_finished_is_final(outcome: RunOutcome, policy: RunPolicy, event: RunEvent)
    ensures
        next_state(RunState::Finished(outcome), policy, event) == RunState::Finished(outcome),
{
}

/// A stanza that cannot be read ends the run, whatever the policy; the end
/// of the configuration ends it with success.
pub proof fn lemma_reading_ends_the_run(policy: RunPolicy)
    ensures
        next_state(RunState::AwaitTask, policy, RunEvent::ParseFailed) == RunState::Finished(
            RunOutcome::ParseFailed,
        ),
        next_state(RunState::AwaitTask, policy, RunEvent::NoMoreTasks) == RunState::Finished(
            RunOutcome::Completed,
        ),
{
}

/// A task is run only when neither the run nor the task asks for
/// confirmation, or when the user said yes.
pub proof fn lemma_run_needs_consent(state: RunState, policy: RunPolicy, event: RunEvent)
    requires
        state != RunState::AwaitResult,
        next_state(state, policy, event) == RunState::AwaitResult,
    ensures
        match state {
            RunState::AwaitTask => !policy.ask && event == (RunEvent::TaskFound { confirm: false }),
            RunState::AwaitConfirmation => event == RunEvent::Answer(true),
            _ => false,
        },
{
}

/// After a failure the run goes on only when the user says yes, and never
/// when it is to end at the first failure.
pub proof fn lemma_failure_policy(policy: RunPolicy, yes: bool)
    ensures
        policy.quit_on_fail ==> next_state(RunState::AwaitResult, policy, RunEvent::TaskFailed)
            == RunState::Finished(RunOutcome::Aborted),
        !policy.quit_on_fail ==> next_state(RunState::AwaitResult, policy, RunEvent::TaskFailed)
            == RunState::AwaitContinue,
        next_state(RunState::AwaitContinue, policy, RunEvent::Answer(yes)) == (if yes {
            RunState::AwaitTask
        } else {
            RunState::Finished(RunOutcome::Cancelled)
        }),
{
}

/// Whether a run that ended this way counts as carried out. Only a
/// configuration that could not be read makes a run fail.
pub open spec fn is_success(outcome: RunOutcome) -> bool {
    outcome != RunOutcome::ParseFailed
}

/// The status with which the program ends: zero for a run that was carried
/// out, one for a run that could not be.
pub fn exit_status(outcome: Option<RunOutcome>) -> (status: i32)
    ensures
        status == match outcome {
            Some(o) => if is_success(o) {
                0i32
            } else {
                1i32
            },
            None => 1i32,
        },
{
    match outcome {
        Some(RunOutcome::Completed) | Some(RunOutcome::Aborted) | Some(RunOutcome::Cancelled) => 0,
        _ => 1,
    }
}

/// What a typed answer means: `y` or `Y` is yes, `n` or `N` is no, white
/// space around it does not count, and anything else is `default`.
pub open spec fn answer_of(input: Seq<char>, default: bool) -> bool {
    let word = trim(input);
    if word == "y"@ || word == "Y"@ {
        true
    } else if word == "n"@ || word == "N"@ {
        false
    } else {
        default
    }
}

/// Reads the user's answer to a yes-or-no question.
pub fn read_answer(input: &str, default: bool) -> (yes: bool)
    ensures
        yes == answer_of(input@, default),
{
    let word = trim_line(&chars_of(input));
    if is_word(&word, "y") || is_word(&word, "Y") {
        true
    } else if is_word(&word, "n") || is_word(&word, "N") {
        false
    } else {
        default
    }
}

/// The hint that shows which answer is the default.
pub open spec fn choices(default: bool) -> Seq<char> {
    if default {
        "Y/n"@
    } else {
        "y/N"@
    }
}

/// A yes-or-no question as it is shown to the user.
pub fn question(prompt: &str, default: bool) -> (text: String)
    ensures
        text@ == prompt@ + " ["@ + choices(default) + "]: "@,
{
    let mut text = String::from_str(prompt);
    text.append(" [");
    text.append(if default {
        "Y/n"
    } else {
        "y/N"
    });
    text.append("]: ");
    text
}

/// The word for what a task does.
pub open spec fn action_word(is_update: bool, download: bool) -> Seq<char> {
    if is_update {
        if download {
            "Download"@
        } else {
            "Upload"@
        }
    } else {
        "Backup"@
    }
}

/// The question whether to run `task`: what it does, from where to where.
pub fn run_prompt(task: &Task, download: bool) -> (text: String)
    ensures
        text@ == action_word(task@.is_update, download) + " "@ + (task@.src + " -> "@ + task@.dst)
            + "\nRun task?"@,
{
    let word = if task.is_update_task() {
        if download {
            "Download"
        } else {
            "Upload"
        }
    } else {
        "Backup"
    };
    let mut text = String::from_str(word);
    text.append(" ");
    text.append(task.get_description().as_str());
    text.append("\nRun task?");
    text
}

/// The question whether to go on after a failure.
pub const CONTINUE_PROMPT: &'static str = "Continue backup?";

/// What reading the next task means for the run: a task that was read is
/// found, the end of the configuration leaves no more tasks, and every
/// other error is a failure to read.
pub fn found(result: &Result<Task, ParseError>) -> (event: RunEvent)
    ensures
        event == match task_view(*result) {
            Ok(task) => RunEvent::TaskFound { confirm: task.always_confirm },
            Err(ParseErrorView::EndOfInput) => RunEvent::NoMoreTasks,
            Err(_) => RunEvent::ParseFailed,
        },
{
    match result {
        Ok(task) => RunEvent::TaskFound { confirm: task.should_confirm() },
        Err(ParseError::EndOfInput) => RunEvent::NoMoreTasks,
        Err(_) => RunEvent::ParseFailed,
    }
}

/// What the user's answer means for the run. No answer counts as yes
/// before a task is run, and as no after a task has failed.
pub fn answered(action: RunAction, input: &str) -> (event: RunEvent)
    requires
        action == RunAction::AskRun || action == RunAction::AskContinue,
    ensures
        event == RunEvent::Answer(answer_of(input@, action == RunAction::AskRun)),
{
    match action {
        RunAction::AskRun => RunEvent::Answer(read_answer(input, true)),
        _ => RunEvent::Answer(read_answer(input, false)),
    }
}

/// The question whether to run `task`, as it is shown: yes is the default.
pub fn run_question(task: &Task, download: bool) -> (text: String)
    ensures
        text@ == action_word(task@.is_update, download) + " "@ + (task@.src + " -> "@ + task@.dst)
            + "\nRun task?"@ + " ["@ + choices(true) + "]: "@,
{
    let prompt = run_prompt(task, download);
    question(prompt.as_str(), true)
}

/// The question whether to go on after a failure, as it is shown: no is the
/// default.
pub fn continue_question() -> (text: String)
    ensures
        text@ == CONTINUE_PROMPT@ + " ["@ + choices(false) + "]: "@,
{
    question(CONTINUE_PROMPT, false)
}

} // verus!
