use rsbackup::invocation::{judge, Invocation, ProcessOutcome, RunFlags};
use rsbackup::parser::ParseError;
use rsbackup::reader::LineReader;
use rsbackup::run::{
    answered, continue_question, exit_status, found, question, read_answer, run_prompt,
    run_question, start, step, RunAction, RunEvent, RunOutcome, RunPolicy, RunState,
    CONTINUE_PROMPT,
};
use rsbackup::task::Task;

/// Drives a whole run over `text`. The tool "exits" with the next status of
/// `statuses`, the user types the next answer of `answers`.
fn drive(
    text: &str,
    policy: RunPolicy,
    statuses: &[i32],
    answers: &[&str],
) -> (Vec<Vec<String>>, RunOutcome) {
    let flags = RunFlags { quiet: true, debug: false, dry_run: false, download: false };
    let mut reader = LineReader::new(text);
    let mut statuses = statuses.iter();
    let mut answers = answers.iter();
    let mut runs = Vec::new();
    let mut current: Option<Task> = None;
    let (mut state, mut action) = start();
    loop {
        let event = match action {
            RunAction::ReadTask => {
                let result = Task::from_reader(&mut reader);
                let event = found(&result);
                current = result.ok();
                event
            }
            RunAction::AskRun | RunAction::AskContinue => {
                answered(action, answers.next().expect("an answer"))
            }
            RunAction::RunTask => {
                let task = current.take().expect("a task");
                match task.prepare_at(flags, Ok(Vec::new()), "2021-01-01--00_00") {
                    Ok(Invocation::Launch(args)) => {
                        runs.push(args);
                        let status = *statuses.next().expect("a status");
                        match judge(ProcessOutcome::Exited(status)) {
                            Ok(()) => RunEvent::TaskSucceeded,
                            Err(_) => RunEvent::TaskFailed,
                        }
                    }
                    Ok(Invocation::Show(_)) => RunEvent::TaskSucceeded,
                    Err(_) => RunEvent::TaskFailed,
                }
            }
            RunAction::Stop(outcome) => {
                assert_eq!(state, RunState::Finished(outcome));
                assert!(answers.next().is_none());
                return (runs, outcome);
            }
        };
        let next = step(state, policy, event);
        state = next.0;
        action = next.1;
    }
}

const TWO: &str = "[UPDATE]\nSRC=/a\nDST=/b\n[END]\n[UPDATE]\nSRC=/c\nDST=/d\n[END]\n";

fn policy(ask: bool, quit_on_fail: bool) -> RunPolicy {
    RunPolicy { ask, quit_on_fail }
}

fn sources(runs: &[Vec<String>]) -> Vec<String> {
    runs.iter().map(|args| args[args.len() - 2].clone()).collect()
}

#[test]
fn two_stanzas_make_two_runs() {
    let (runs, outcome) = drive(TWO, policy(false, false), &[0, 0], &[]);
    assert_eq!(sources(&runs), vec!["/a", "/c"]);
    assert_eq!(outcome, RunOutcome::Completed);
}

#[test]
fn a_failure_that_the_user_passes_over_does_not_end_the_run() {
    let (runs, outcome) = drive(TWO, policy(false, false), &[1, 0], &["y\n"]);
    assert_eq!(sources(&runs), vec!["/a", "/c"]);
    assert_eq!(outcome, RunOutcome::Completed);
}

#[test]
fn a_failure_that_the_user_minds_ends_the_run() {
    let (runs, outcome) = drive(TWO, policy(false, false), &[1], &["\n"]);
    assert_eq!(sources(&runs), vec!["/a"]);
    assert_eq!(outcome, RunOutcome::Cancelled);
}

#[test]
fn a_safe_run_ends_at_the_first_failure_without_asking() {
    let (runs, outcome) = drive(TWO, policy(false, true), &[23], &[]);
    assert_eq!(sources(&runs), vec!["/a"]);
    assert_eq!(outcome, RunOutcome::Aborted);
}

#[test]
fn asking_every_time_lets_the_user_skip_tasks() {
    let (runs, outcome) = drive(TWO, policy(true, false), &[0], &["n\n", "\n"]);
    assert_eq!(sources(&runs), vec!["/c"]);
    assert_eq!(outcome, RunOutcome::Completed);
    let (runs, outcome) = drive(TWO, policy(true, false), &[], &["N", "n"]);
    assert!(runs.is_empty());
    assert_eq!(outcome, RunOutcome::Completed);
}

#[test]
fn a_task_that_wants_it_is_confirmed() {
    let text = "[UPDATE]\nSRC=/a\nDST=/b\n[CONFIRM]\n[END]\n[UPDATE]\nSRC=/c\nDST=/d\n[END]\n";
    let (runs, outcome) = drive(text, policy(false, false), &[0], &["n\n"]);
    assert_eq!(sources(&runs), vec!["/c"]);
    assert_eq!(outcome, RunOutcome::Completed);
    let (runs, _) = drive(text, policy(false, false), &[0, 0], &["y\n"]);
    assert_eq!(sources(&runs), vec!["/a", "/c"]);
}

#[test]
fn a_bad_stanza_ends_the_run_after_the_tasks_before_it() {
    let text = "[UPDATE]\nSRC=/a\nDST=/b\n[END]\n[UPDATE]\nBPATH=/x\n[END]\n";
    let (runs, outcome) = drive(text, policy(false, false), &[0], &[]);
    assert_eq!(sources(&runs), vec!["/a"]);
    assert_eq!(outcome, RunOutcome::ParseFailed);
}

#[test]
fn an_empty_configuration_is_a_run_without_tasks() {
    for text in ["", "# nothing\n", " ", "\n \t\n# c\n\r\n"] {
        let (runs, outcome) = drive(text, policy(true, true), &[], &[]);
        assert!(runs.is_empty());
        assert_eq!(outcome, RunOutcome::Completed);
        assert_eq!(exit_status(Some(outcome)), 0);
    }
}

#[test]
fn what_was_read_becomes_an_event() {
    let read = |text: &str| Task::from_reader(&mut LineReader::new(text));
    assert_eq!(found(&read("")), RunEvent::NoMoreTasks);
    assert_eq!(found(&read(" \n#\n")), RunEvent::NoMoreTasks);
    assert_eq!(
        found(&read("[UPDATE]\nSRC=/a\nDST=/b\n[END]")),
        RunEvent::TaskFound { confirm: false }
    );
    assert_eq!(
        found(&read("[UPDATE]\nSRC=/a\nDST=/b\n[CONFIRM]\n[END]")),
        RunEvent::TaskFound { confirm: true }
    );
    assert_eq!(found(&read("[UPDATE]\nSRC=/a\n")), RunEvent::ParseFailed);
    assert_eq!(found(&read("[UPDATE]\nDST=/a\n[END]")), RunEvent::ParseFailed);
    assert_eq!(found(&Err(ParseError::MissingBackupPath)), RunEvent::ParseFailed);
}

#[test]
fn no_answer_means_yes_before_a_run_and_no_after_a_failure() {
    assert_eq!(answered(RunAction::AskRun, "\n"), RunEvent::Answer(true));
    assert_eq!(answered(RunAction::AskRun, "what"), RunEvent::Answer(true));
    assert_eq!(answered(RunAction::AskRun, " n \n"), RunEvent::Answer(false));
    assert_eq!(answered(RunAction::AskRun, "Y"), RunEvent::Answer(true));
    assert_eq!(answered(RunAction::AskContinue, "\n"), RunEvent::Answer(false));
    assert_eq!(answered(RunAction::AskContinue, "what"), RunEvent::Answer(false));
    assert_eq!(answered(RunAction::AskContinue, "y\n"), RunEvent::Answer(true));
    assert_eq!(answered(RunAction::AskContinue, "N"), RunEvent::Answer(false));
}

#[test]
fn the_questions_are_shown_with_their_defaults() {
    let update = Task::from_reader(&mut LineReader::new("[UPDATE]\nSRC=/a\nDST=/b\n[END]")).unwrap();
    assert_eq!(run_question(&update, false), "Upload /a -> /b\nRun task? [Y/n]: ");
    assert_eq!(run_question(&update, true), "Download /a -> /b\nRun task? [Y/n]: ");
    assert_eq!(continue_question(), "Continue backup? [y/N]: ");
}

#[test]
fn every_transition_is_as_the_table_says() {
    let states = [
        RunState::AwaitTask,
        RunState::AwaitConfirmation,
        RunState::AwaitResult,
        RunState::AwaitContinue,
        RunState::Finished(RunOutcome::Completed),
        RunState::Finished(RunOutcome::Aborted),
    ];
    let events = [
        RunEvent::TaskFound { confirm: false },
        RunEvent::TaskFound { confirm: true },
        RunEvent::NoMoreTasks,
        RunEvent::ParseFailed,
        RunEvent::Answer(true),
        RunEvent::Answer(false),
        RunEvent::TaskSucceeded,
        RunEvent::TaskFailed,
    ];
    for ask in [false, true] {
        for quit_on_fail in [false, true] {
            for state in states {
                for event in events {
                    let expected = match (state, event) {
                        (RunState::AwaitTask, RunEvent::TaskFound { confirm }) => {
                            if ask || confirm {
                                RunState::AwaitConfirmation
                            } else {
                                RunState::AwaitResult
                            }
                        }
                        (RunState::AwaitTask, RunEvent::NoMoreTasks) => {
                            RunState::Finished(RunOutcome::Completed)
                        }
                        (RunState::AwaitTask, RunEvent::ParseFailed) => {
                            RunState::Finished(RunOutcome::ParseFailed)
                        }
                        (RunState::AwaitConfirmation, RunEvent::Answer(true)) => {
                            RunState::AwaitResult
                        }
                        (RunState::AwaitConfirmation, RunEvent::Answer(false)) => {
                            RunState::AwaitTask
                        }
                        (RunState::AwaitResult, RunEvent::TaskSucceeded) => RunState::AwaitTask,
                        (RunState::AwaitResult, RunEvent::TaskFailed) => {
                            if quit_on_fail {
                                RunState::Finished(RunOutcome::Aborted)
                            } else {
                                RunState::AwaitContinue
                            }
                        }
                        (RunState::AwaitContinue, RunEvent::Answer(true)) => RunState::AwaitTask,
                        (RunState::AwaitContinue, RunEvent::Answer(false)) => {
                            RunState::Finished(RunOutcome::Cancelled)
                        }
                        (same, _) => same,
                    };
                    let action = match expected {
                        RunState::AwaitTask => RunAction::ReadTask,
                        RunState::AwaitConfirmation => RunAction::AskRun,
                        RunState::AwaitResult => RunAction::RunTask,
                        RunState::AwaitContinue => RunAction::AskContinue,
                        RunState::Finished(outcome) => RunAction::Stop(outcome),
                    };
                    assert_eq!(step(state, policy(ask, quit_on_fail), event), (expected, action));
                }
            }
        }
    }
}

#[test]
fn a_run_begins_by_reading() {
    assert_eq!(start(), (RunState::AwaitTask, RunAction::ReadTask));
}

#[test]
fn only_an_unreadable_configuration_fails_the_program() {
    assert_eq!(exit_status(Some(RunOutcome::Completed)), 0);
    assert_eq!(exit_status(Some(RunOutcome::Aborted)), 0);
    assert_eq!(exit_status(Some(RunOutcome::Cancelled)), 0);
    assert_eq!(exit_status(Some(RunOutcome::ParseFailed)), 1);
    assert_eq!(exit_status(None), 1);
}

#[test]
fn answers_are_read_leniently() {
    for default in [false, true] {
        assert!(read_answer("y", default));
        assert!(read_answer("Y\n", default));
        assert!(read_answer("  y \r\n", default));
        assert!(!read_answer("n", default));
        assert!(!read_answer("N\n", default));
        assert_eq!(read_answer("", default), default);
        assert_eq!(read_answer("\n", default), default);
        assert_eq!(read_answer("yes\n", default), default);
        assert_eq!(read_answer("no", default), default);
        assert_eq!(read_answer("y n", default), default);
    }
}

#[test]
fn questions_show_their_default() {
    assert_eq!(question("Run task?", true), "Run task? [Y/n]: ");
    assert_eq!(question(CONTINUE_PROMPT, false), "Continue backup? [y/N]: ");
}

#[test]
fn the_run_prompt_names_the_action_and_the_paths() {
    let update = Task::from_reader(&mut LineReader::new("[UPDATE]\nSRC=/a\nDST=/b\n[END]")).unwrap();
    assert_eq!(run_prompt(&update, false), "Upload /a -> /b\nRun task?");
    assert_eq!(run_prompt(&update, true), "Download /a -> /b\nRun task?");
    let backup = Task::from_reader(&mut LineReader::new("[BACKUP]\nSRC=/a\nDST=/b\n[END]")).unwrap();
    assert_eq!(run_prompt(&backup, false), "Backup /a -> /b\nRun task?");
    assert_eq!(run_prompt(&backup, true), "Backup /a -> /b\nRun task?");
}
