//! Reading task definitions from a line reader.

use crate::config::{TaskConfig, TaskModel};
use crate::reader::{lines_of, LineReader};
use crate::stanza::{
    apply_line, close_stanza, is_skippable, lemma_parsed_is_consistent, parse_all, parse_fields,
    parse_stanza, value_after, ParseErrorView, StanzaParse,
};
use crate::text::{has_prefix, is_word, lemma_trim_cut, string_of, text_of, trim, trim_line};
use vstd::prelude::*;
use vstd::string::*;

verus! {

/// Why no task came out of a stanza.
#[derive(Debug, Clone, PartialEq, Eq)]
pub enum ParseError {
    /// Nothing but blank lines and comments was left: no more tasks.
    EndOfInput,
    /// The first line that counts is no type tag; it is attached.
    NoTaskHeader(String),
    /// The input ended inside a stanza.
    Truncated,
    /// `BPATH=` in an update task.
    UnexpectedBackupPath,
    /// `[COMPARE BPATH]` in an update task.
    UnexpectedComparePaths,
    /// A line that is neither a field nor a tag; it is attached.
    UnexpectedLine(String),
    /// `[COMPARE BPATH]` without a backup path.
    MissingBackupPath,
    /// No source path.
    MissingSource,
    /// No destination path.
    MissingDestination,
}

impl View for ParseError {
    type V = ParseErrorView;

    open spec fn view(&self) -> ParseErrorView {
        match self {
            ParseError::EndOfInput => ParseErrorView::EndOfInput,
            ParseError::NoTaskHeader(line) => ParseErrorView::NoTaskHeader(line@),
            ParseError::Truncated => ParseErrorView::Truncated,
            ParseError::UnexpectedBackupPath => ParseErrorView::UnexpectedBackupPath,
            ParseError::UnexpectedComparePaths => ParseErrorView::UnexpectedComparePaths,
            ParseError::UnexpectedLine(line) => ParseErrorView::UnexpectedLine(line@),
            ParseError::MissingBackupPath => ParseErrorView::MissingBackupPath,
            ParseError::MissingSource => ParseErrorView::MissingSource,
            ParseError::MissingDestination => ParseErrorView::MissingDestination,
        }
    }
}

impl ParseErrorView {
    /// The error in words.
    pub open spec fn text(self) -> Seq<char> {
        match self {
            ParseErrorView::EndOfInput => "EOF"@,
            ParseErrorView::NoTaskHeader(line) =>
                "Failed to parse configuration file. Could not find task in line '"@ + line + "'."@,
            ParseErrorView::Truncated => "Configuration ends inside a task."@,
            ParseErrorView::UnexpectedBackupPath =>
                "Unexpected BPATH parameter in update task configuration."@,
            ParseErrorView::UnexpectedComparePaths =>
                "Unexpected [COMPARE BPATH] tag in update task configuration."@,
            ParseErrorView::UnexpectedLine(line) => "Unexpected line '"@ + line
                + "' in configuration."@,
            ParseErrorView::MissingBackupPath =>
                "[COMPARE BPATH] specified but no backup path given."@,
            ParseErrorView::MissingSource => "No source path specified."@,
            ParseErrorView::MissingDestination => "No destination path specified."@,
        }
    }
}

impl ParseError {
    /// The error in words.
    pub fn message(&self) -> (text: String)
        ensures
            text@ == self@.text(),
    {
        match self {
            ParseError::EndOfInput => String::from_str("EOF"),
            ParseError::NoTaskHeader(line) => {
                let mut text = String::from_str(
                    "Failed to parse configuration file. Could not find task in line '",
                );
                text.append(line.as_str());
                text.append("'.");
                text
            },
            ParseError::Truncated => String::from_str("Configuration ends inside a task."),
            ParseError::UnexpectedBackupPath => String::from_str(
                "Unexpected BPATH parameter in update task configuration.",
            ),
            ParseError::UnexpectedComparePaths => String::from_str(
                "Unexpected [COMPARE BPATH] tag in update task configuration.",
            ),
            ParseError::UnexpectedLine(line) => {
                let mut text = String::from_str("Unexpected line '");
                text.append(line.as_str());
                text.append("' in configuration.");
                text
            },
            ParseError::MissingBackupPath => String::from_str(
                "[COMPARE BPATH] specified but no backup path given.",
            ),
            ParseError::MissingSource => String::from_str("No source path specified."),
            ParseError::MissingDestination => String::from_str("No destination path specified."),
        }
    }
}

/// The mathematical content of what a parser hands back.
pub open spec fn parsed_view(result: Result<TaskConfig, ParseError>) -> Result<
    TaskModel,
    ParseErrorView,
> {
    match result {
        Ok(task) => Ok(task@),
        Err(error) => Err(error@),
    }
}

/// Whether the line `raw`, which trims to `line`, carries nothing.
fn skippable(raw: &Vec<char>, line: &Vec<char>) -> (b: bool)
    requires
        line@ == trim(raw@),
    ensures
        b == is_skippable(raw@),
{
    proof {
        lemma_trim_cut(raw@);
    }
    line.len() == 0 || raw[0] == '#'
}

/// The text that follows `key` on `line`, if `line` begins with `key`.
fn value_of(line: &Vec<char>, key: &str) -> (value: Option<String>)
    ensures
        value is Some <==> key@.is_prefix_of(line@),
        value is Some ==> value->0@ == value_after(key@, line@),
{
    if has_prefix(line, key) {
        let from: usize = key.unicode_len();
        Some(string_of(line, from, line.len()))
    } else {
        None
    }
}

fn append_text(list: &mut Vec<String>, value: String)
    ensures
        final(list).deep_view() == old(list).deep_view().push(value@),
{
    list.push(value);
    assert(list.deep_view() =~= old(list).deep_view().push(value@));
}

/// Takes one field line into `task`.
fn take_line(task: &mut TaskConfig, line: &Vec<char>) -> (result: Result<(), ParseError>)
    ensures
        match apply_line(old(task)@, line@) {
            Ok(next) => result is Ok && final(task)@ == next,
            Err(error) => result is Err && result->Err_0@ == error,
        },
{
    if let Some(path) = value_of(line, "SRC=") {
        task.src = path;
    } else if let Some(path) = value_of(line, "DST=") {
        task.dst = path;
    } else if let Some(path) = value_of(line, "EXFR=") {
        task.exclude_from = path;
    } else if let Some(path) = value_of(line, "INFR=") {
        task.include_from = path;
    } else if let Some(path) = value_of(line, "FIFR=") {
        task.files_from = path;
    } else if let Some(path) = value_of(line, "BPATH=") {
        if task.is_update {
            return Err(ParseError::UnexpectedBackupPath);
        }
        task.backup_path = path;
    } else if let Some(path) = value_of(line, "CDST=") {
        append_text(&mut task.compare_dest, path);
    } else if let Some(path) = value_of(line, "LDST=") {
        append_text(&mut task.link_dest, path);
    } else if let Some(name) = value_of(line, "ID=") {
        task.id = name;
    } else if is_word(line, "[EXCLUDE OTHERS]") {
        task.exclude_others = true;
    } else if is_word(line, "[CONFIRM]") {
        task.always_confirm = true;
    } else if is_word(line, "[COMPARE BPATH]") {
        if task.is_update {
            return Err(ParseError::UnexpectedComparePaths);
        }
        task.compare_paths = true;
    } else {
        return Err(ParseError::UnexpectedLine(text_of(line)));
    }
    Ok(())
}

impl TaskConfig {
    /// Reads the next stanza from `reader`, which is left behind the last
    /// line that was looked at. `ParseError::EndOfInput` tells that no task
    /// was left; every other error is a malformed stanza.
    pub fn from_reader(reader: &mut LineReader) -> (result: Result<TaskConfig, ParseError>)
        ensures
            parsed_view(result) == parse_stanza(old(reader)@).result,
            final(reader)@ == old(reader)@.skip(parse_stanza(old(reader)@).consumed),
            0 <= parse_stanza(old(reader)@).consumed <= old(reader)@.len(),
    {
        proof {
            lemma_parsed_is_consistent(reader@);
        }
        let ghost all = reader@;
        let ghost mut at: int = 0;
        let mut task = TaskConfig::default();
        assert(all.skip(0) =~= all);
        loop
            invariant_except_break
                all == old(reader)@,
                0 <= at <= all.len(),
                reader@ == all.skip(at),
                parse_stanza(all) == parse_stanza(reader@).after(at),
                task@ == TaskModel::blank(),
            ensures
                all == old(reader)@,
                0 <= at <= all.len(),
                reader@ == all.skip(at),
                parse_stanza(all) == parse_fields(reader@, task@).after(at),
            decreases all.len() - at,
        {
            match reader.read_line() {
                None => {
                    return Err(ParseError::EndOfInput);
                },
                Some(raw) => {
                    proof {
                        assert(all.skip(at).drop_first() =~= all.skip(at + 1));
                        at = at + 1;
                    }
                    let line = trim_line(&raw);
                    if !skippable(&raw, &line) {
                        if is_word(&line, "[BACKUP]") {
                            task.is_update = false;
                            assert(task@ =~= TaskModel { is_update: false, ..TaskModel::blank() });
                            break ;
                        } else if is_word(&line, "[UPDATE]") {
                            break ;
                        } else {
                            return Err(ParseError::NoTaskHeader(text_of(&line)));
                        }
                    }
                },
            }
        }
        loop
            invariant_except_break
                all == old(reader)@,
                0 <= at <= all.len(),
                reader@ == all.skip(at),
                parse_stanza(all) == parse_fields(reader@, task@).after(at),
            ensures
                all == old(reader)@,
                0 <= at <= all.len(),
                reader@ == all.skip(at),
                parse_stanza(all) == (StanzaParse { result: close_stanza(task@), consumed: at }),
            decreases all.len() - at,
        {
            match reader.read_line() {
                None => {
                    return Err(ParseError::Truncated);
                },
                Some(raw) => {
                    proof {
                        assert(all.skip(at).drop_first() =~= all.skip(at + 1));
                        at = at + 1;
                    }
                    let line = trim_line(&raw);
                    if !skippable(&raw, &line) {
                        if is_word(&line, "[END]") {
                            break ;
                        }
                        match take_line(&mut task, &line) {
                            Ok(()) => {},
                            Err(error) => {
                                return Err(error);
                            },
                        }
                    }
                },
            }
        }
        if task.compare_paths && task.backup_path.as_str().is_empty() {
            return Err(ParseError::MissingBackupPath);
        }
        Ok(task)
    }
}

/// The mathematical content of a list of tasks that may have failed to read.
pub open spec fn tasks_view(result: Result<Vec<TaskConfig>, ParseError>) -> Result<
    Seq<TaskModel>,
    ParseErrorView,
> {
    match result {
        Ok(tasks) => Ok(tasks.deep_view()),
        Err(error) => Err(error@),
    }
}

/// `tasks` followed by what `rest` holds, unless `rest` is a failure.
pub open spec fn preceded_by(
    tasks: Seq<TaskModel>,
    rest: Result<Seq<TaskModel>, ParseErrorView>,
) -> Result<Seq<TaskModel>, ParseErrorView> {
    match rest {
        Ok(more) => Ok(tasks + more),
        Err(error) => Err(error),
    }
}

/// Reads every task that `text` holds.
pub fn read_all(text: &str) -> (result: Result<Vec<TaskConfig>, ParseError>)
    ensures
        tasks_view(result) == parse_all(lines_of(text@)),
{
    let mut reader = LineReader::new(text);
    let mut tasks: Vec<TaskConfig> = Vec::new();
    assert(preceded_by(tasks.deep_view(), parse_all(reader@)) == parse_all(reader@)) by {
        match parse_all(reader@) {
            Ok(more) => {
                assert(tasks.deep_view() + more =~= more);
            },
            Err(_) => {},
        }
    }
    loop
        invariant
            parse_all(lines_of(text@)) == preceded_by(tasks.deep_view(), parse_all(reader@)),
        decreases reader@.len(),
    {
        let ghost before = reader@;
        let ghost done = tasks.deep_view();
        proof {
            lemma_parsed_is_consistent(before);
        }
        match TaskConfig::from_reader(&mut reader) {
            Ok(task) => {
                tasks.push(task);
                proof {
                    assert(tasks.deep_view() =~= done.push(task@));
                    match parse_all(reader@) {
                        Ok(more) => {
                            assert(done + (seq![task@] + more) =~= done.push(task@) + more);
                        },
                        Err(_) => {},
                    }
                }
            },
            Err(ParseError::EndOfInput) => {
                assert(done + Seq::<TaskModel>::empty() =~= done);
                return Ok(tasks);
            },
            Err(error) => {
                return Err(error);
            },
        }
    }
}

} // verus!
