//! The stanza grammar, stated over sequences of lines.
//!
//! A stanza opens with `[BACKUP]` or `[UPDATE]`, lists its fields one per
//! line and closes with `[END]`. Blank lines, which hold nothing but white
//! space, and lines that begin with `#` may stand anywhere. White space
//! around a line is not part of it.

use crate::config::TaskModel;
use crate::text::trim;
use vstd::prelude::*;

verus! {

/// Why no task came out of a stanza.
pub enum ParseErrorView {
    EndOfInput,
    NoTaskHeader(Seq<char>),
    Truncated,
    UnexpectedBackupPath,
    UnexpectedComparePaths,
    UnexpectedLine(Seq<char>),
    MissingBackupPath,
    MissingSource,
    MissingDestination,
}

/// What reading one stanza yields, and how many lines it takes.
pub struct StanzaParse {
    pub result: Result<TaskModel, ParseErrorView>,
    pub consumed: int,
}

/// Lines that carry nothing: blank ones, which hold nothing but white
/// space, and comments, which begin with `#`.
pub open spec fn is_skippable(line: Seq<char>) -> bool {
    trim(line).len() == 0 || line[0] == '#'
}

/// What follows `key` on a line that begins with it.
pub open spec fn value_after(key: Seq<char>, line: Seq<char>) -> Seq<char> {
    line.skip(key.len() as int)
}

/// The task after one field line, or the reason the line is refused. A
/// backup path and the comparison with old backups are refused on the spot
/// in an update task.
pub open spec fn apply_line(task: TaskModel, line: Seq<char>) -> Result<TaskModel, ParseErrorView> {
    if "SRC="@.is_prefix_of(line) {
        Ok(TaskModel { src: value_after("SRC="@, line), ..task })
    } else if "DST="@.is_prefix_of(line) {
        Ok(TaskModel { dst: value_after("DST="@, line), ..task })
    } else if "EXFR="@.is_prefix_of(line) {
        Ok(TaskModel { exclude_from: value_after("EXFR="@, line), ..task })
    } else if "INFR="@.is_prefix_of(line) {
        Ok(TaskModel { include_from: value_after("INFR="@, line), ..task })
    } else if "FIFR="@.is_prefix_of(line) {
        Ok(TaskModel { files_from: value_after("FIFR="@, line), ..task })
    } else if "BPATH="@.is_prefix_of(line) {
        if task.is_update {
            Err(ParseErrorView::UnexpectedBackupPath)
        } else {
            Ok(TaskModel { backup_path: value_after("BPATH="@, line), ..task })
        }
    } else if "CDST="@.is_prefix_of(line) {
        Ok(TaskModel { compare_dest: task.compare_dest.push(value_after("CDST="@, line)), ..task })
    } else if "LDST="@.is_prefix_of(line) {
        Ok(TaskModel { link_dest: task.link_dest.push(value_after("LDST="@, line)), ..task })
    } else if "ID="@.is_prefix_of(line) {
        Ok(TaskModel { id: value_after("ID="@, line), ..task })
    } else if line == "[EXCLUDE OTHERS]"@ {
        Ok(TaskModel { exclude_others: true, ..task })
    } else if line == "[CONFIRM]"@ {
        Ok(TaskModel { always_confirm: true, ..task })
    } else if line == "[COMPARE BPATH]"@ {
        if task.is_update {
            Err(ParseErrorView::UnexpectedComparePaths)
        } else {
            Ok(TaskModel { compare_paths: true, ..task })
        }
    } else {
        Err(ParseErrorView::UnexpectedLine(line))
    }
}

/// The check made when a stanza closes: comparing with old backups needs a
/// backup path.
pub open spec fn close_stanza(task: TaskModel) -> Result<TaskModel, ParseErrorView> {
    if task.compare_paths && task.backup_path.len() == 0 {
        Err(ParseErrorView::MissingBackupPath)
    } else {
        Ok(task)
    }
}

impl StanzaParse {
    /// The same outcome, reached after `skipped` more lines.
    pub open spec fn after(self, skipped: int) -> StanzaParse {
        StanzaParse { result: self.result, consumed: self.consumed + skipped }
    }
}

/// Reads field lines, starting from `task`, up to the closing `[END]`.
/// Input that ends before it is a truncated stanza.
pub open spec fn parse_fields(lines: Seq<Seq<char>>, task: TaskModel) -> StanzaParse
    decreases lines.len(),
{
    if lines.len() == 0 {
        StanzaParse { result: Err(ParseErrorView::Truncated), consumed: 0 }
    } else if is_skippable(lines[0]) {
        parse_fields(lines.drop_first(), task).after(1)
    } else if trim(lines[0]) == "[END]"@ {
        StanzaParse { result: close_stanza(task), consumed: 1 }
    } else {
        match apply_line(task, trim(lines[0])) {
            Ok(next) => parse_fields(lines.drop_first(), next).after(1),
            Err(error) => StanzaParse { result: Err(error), consumed: 1 },
        }
    }
}

/// Looks for the type tag and reads the stanza that it opens. Input that
/// holds nothing but blank lines and comments is no error: it signals that
/// no task is left.
pub open spec fn parse_stanza(lines: Seq<Seq<char>>) -> StanzaParse
    decreases lines.len(),
{
    if lines.len() == 0 {
        StanzaParse { result: Err(ParseErrorView::EndOfInput), consumed: 0 }
    } else if is_skippable(lines[0]) {
        parse_stanza(lines.drop_first()).after(1)
    } else if trim(lines[0]) == "[BACKUP]"@ {
        parse_fields(
            lines.drop_first(),
            TaskModel { is_update: false, ..TaskModel::blank() },
        ).after(1)
    } else if trim(lines[0]) == "[UPDATE]"@ {
        parse_fields(lines.drop_first(), TaskModel::blank()).after(1)
    } else {
        StanzaParse { result: Err(ParseErrorView::NoTaskHeader(trim(lines[0]))), consumed: 1 }
    }
}

/// The type tag of a stanza.
pub open spec fn header_line(is_update: bool) -> Seq<char> {
    if is_update {
        "[UPDATE]"@
    } else {
        "[BACKUP]"@
    }
}

/// The line `key` + `value`, written only for a value that is not empty.
pub open spec fn optional_line(key: Seq<char>, value: Seq<char>) -> Seq<Seq<char>> {
    if value.len() > 0 {
        seq![key + value]
    } else {
        Seq::empty()
    }
}

/// One line `key` + value for each of `values`, in their order.
pub open spec fn list_lines(key: Seq<char>, values: Seq<Seq<char>>) -> Seq<Seq<char>> {
    Seq::new(values.len(), |i: int| key + values[i])
}

/// The line `tag`, written only when `set`.
pub open spec fn tag_line(tag: Seq<char>, set: bool) -> Seq<Seq<char>> {
    if set {
        seq![tag]
    } else {
        Seq::empty()
    }
}

/// The lines of the stanza that stands for `task`: the type tag, source and
/// destination, the texts that are not empty, the two lists, the flags that
/// are set, and `[END]`.
pub open spec fn stanza_lines(task: TaskModel) -> Seq<Seq<char>> {
    seq![header_line(task.is_update)] + seq!["SRC="@ + task.src] + seq!["DST="@ + task.dst]
        + optional_line("ID="@, task.id) + optional_line("EXFR="@, task.exclude_from)
        + optional_line("INFR="@, task.include_from) + optional_line("FIFR="@, task.files_from)
        + optional_line("BPATH="@, task.backup_path) + list_lines("CDST="@, task.compare_dest)
        + list_lines("LDST="@, task.link_dest) + tag_line(
        "[EXCLUDE OTHERS]"@,
        task.exclude_others,
    ) + tag_line("[CONFIRM]"@, task.always_confirm) + tag_line(
        "[COMPARE BPATH]"@,
        task.compare_paths,
    ) + seq!["[END]"@]
}

/// The text made of `lines`, each closed by a line feed.
pub open spec fn join_lines(lines: Seq<Seq<char>>) -> Seq<char>
    decreases lines.len(),
{
    if lines.len() == 0 {
        Seq::empty()
    } else {
        lines[0] + seq!['\n'] + join_lines(lines.drop_first())
    }
}

/// The stanza that stands for `task`, as text.
pub open spec fn stanza_text(task: TaskModel) -> Seq<char> {
    join_lines(stanza_lines(task))
}

/// Joining two lists of lines gives the two joined texts, one after the
/// other.
pub proof fn lemma_join_append(first: Seq<Seq<char>>, second: Seq<Seq<char>>)
    ensures
        join_lines(first + second) == join_lines(first) + join_lines(second),
    decreases first.len(),
{
    if first.len() == 0 {
        assert(first + second =~= second);
        assert(join_lines(first) + join_lines(second) =~= join_lines(second));
    } else {
        lemma_join_append(first.drop_first(), second);
        assert((first + second).drop_first() =~= first.drop_first() + second);
        assert(join_lines(first + second) =~= join_lines(first) + join_lines(second));
    }
}

/// Reading a field line never changes the kind of the task.
pub proof fn lemma_apply_line_keeps_kind(task: TaskModel, line: Seq<char>)
    ensures
        apply_line(task, line) matches Ok(next) ==> next.is_update == task.is_update,
{
}

/// Input that holds nothing but blank lines and comments, or nothing at all,
/// yields the signal that no task is left, and is read to its end.
pub proof fn lemma_nothing_left(lines: Seq<Seq<char>>)
    requires
        forall|i: int| 0 <= i < lines.len() ==> is_skippable(#[trigger] lines[i]),
    ensures
        parse_stanza(lines) == (StanzaParse {
            result: Err(ParseErrorView::EndOfInput),
            consumed: lines.len() as int,
        }),
    decreases lines.len(),
{
    if lines.len() > 0 {
        let rest = lines.drop_first();
        assert(is_skippable(lines[0]));
        assert forall|i: int| 0 <= i < rest.len() implies is_skippable(#[trigger] rest[i]) by {
            assert(rest[i] == lines[i + 1]);
        }
        lemma_nothing_left(rest);
    }
}

/// A line that closes a stanza.
pub open spec fn is_end_line(line: Seq<char>) -> bool {
    !is_skippable(line) && trim(line) == "[END]"@
}

/// A line that only a backup task may hold: a backup path, or the request
/// to compare with old backups.
pub open spec fn is_backup_only_line(line: Seq<char>) -> bool {
    !is_skippable(line) && ("BPATH="@.is_prefix_of(trim(line)) || trim(line)
        == "[COMPARE BPATH]"@)
}

proof fn lemma_backup_only_line_refused(task: TaskModel, line: Seq<char>)
    requires
        task.is_update,
        "BPATH="@.is_prefix_of(line) || line == "[COMPARE BPATH]"@,
    ensures
        apply_line(task, line) is Err,
        line != "[END]"@,
{
    reveal_strlit("SRC=");
    reveal_strlit("DST=");
    reveal_strlit("EXFR=");
    reveal_strlit("INFR=");
    reveal_strlit("FIFR=");
    reveal_strlit("BPATH=");
    reveal_strlit("CDST=");
    reveal_strlit("LDST=");
    reveal_strlit("ID=");
    reveal_strlit("[EXCLUDE OTHERS]");
    reveal_strlit("[CONFIRM]");
    reveal_strlit("[COMPARE BPATH]");
    reveal_strlit("[END]");
    if "BPATH="@.is_prefix_of(line) {
        assert(line.subrange(0, 6)[0] == 'B');
        assert(line[0] == 'B');
        assert(line.subrange(0, 4)[0] == 'B');
        assert(line.subrange(0, 5)[0] == 'B');
    } else {
        assert(line[0] == '[');
        assert(line[1] == 'C');
        assert(line[3] == 'M');
        assert(line.subrange(0, 3)[0] == '[');
        assert(line.subrange(0, 4)[0] == '[');
        assert(line.subrange(0, 5)[0] == '[');
        assert(line.subrange(0, 6)[0] == '[');
    }
}

/// Within an update task, a line that only a backup task may hold makes the
/// stanza fail, provided that no `[END]` stands before it.
pub proof fn lemma_update_fields_refuse_backup_lines(
    lines: Seq<Seq<char>>,
    task: TaskModel,
    at: int,
)
    requires
        task.is_update,
        0 <= at < lines.len(),
        is_backup_only_line(lines[at]),
        forall|i: int| 0 <= i < at ==> !is_end_line(#[trigger] lines[i]),
    ensures
        parse_fields(lines, task).result is Err,
    decreases lines.len(),
{
    let rest = lines.drop_first();
    if at == 0 {
        lemma_backup_only_line_refused(task, trim(lines[0]));
    } else {
        assert(!is_end_line(lines[0]));
        assert(rest[at - 1] == lines[at]);
        assert forall|i: int| 0 <= i < at - 1 implies !is_end_line(#[trigger] rest[i]) by {
            assert(rest[i] == lines[i + 1]);
        }
        if is_skippable(lines[0]) {
            lemma_update_fields_refuse_backup_lines(rest, task, at - 1);
        } else {
            match apply_line(task, trim(lines[0])) {
                Ok(next) => {
                    lemma_apply_line_keeps_kind(task, trim(lines[0]));
                    lemma_update_fields_refuse_backup_lines(rest, next, at - 1);
                },
                Err(_) => {},
            }
        }
    }
}

/// A stanza that opens with `[UPDATE]` and holds a backup path or the
/// request to compare with old backups always fails to parse.
pub proof fn lemma_update_stanza_refuses_backup_lines(
    lines: Seq<Seq<char>>,
    header: int,
    at: int,
)
    requires
        0 <= header < at < lines.len(),
        forall|i: int| 0 <= i < header ==> is_skippable(#[trigger] lines[i]),
        !is_skippable(lines[header]),
        trim(lines[header]) == "[UPDATE]"@,
        forall|i: int| header < i < at ==> !is_end_line(#[trigger] lines[i]),
        is_backup_only_line(lines[at]),
    ensures
        parse_stanza(lines).result is Err,
        parse_stanza(lines).result != Err::<TaskModel, ParseErrorView>(ParseErrorView::EndOfInput),
    decreases lines.len(),
{
    let rest = lines.drop_first();
    if header == 0 {
        reveal_strlit("[UPDATE]");
        reveal_strlit("[BACKUP]");
        assert("[UPDATE]"@[1] == 'U');
        assert("[BACKUP]"@[1] == 'B');
        assert(rest[at - 1] == lines[at]);
        assert forall|i: int| 0 <= i < at - 1 implies !is_end_line(#[trigger] rest[i]) by {
            assert(rest[i] == lines[i + 1]);
        }
        lemma_update_fields_refuse_backup_lines(rest, TaskModel::blank(), at - 1);
        lemma_fields_never_end_of_input(rest, TaskModel::blank());
    } else {
        assert(is_skippable(lines[0]));
        assert(rest[header - 1] == lines[header]);
        assert(rest[at - 1] == lines[at]);
        assert forall|i: int| 0 <= i < header - 1 implies is_skippable(#[trigger] rest[i]) by {
            assert(rest[i] == lines[i + 1]);
        }
        assert forall|i: int| header - 1 < i < at - 1 implies !is_end_line(#[trigger] rest[i]) by {
            assert(rest[i] == lines[i + 1]);
        }
        lemma_update_stanza_refuses_backup_lines(rest, header - 1, at - 1);
    }
}

/// Once the type tag is read, the end of the input is never taken for the
/// signal that no task is left.
pub proof fn lemma_fields_never_end_of_input(lines: Seq<Seq<char>>, task: TaskModel)
    ensures
        parse_fields(lines, task).result != Err::<TaskModel, ParseErrorView>(
            ParseErrorView::EndOfInput,
        ),
    decreases lines.len(),
{
    if lines.len() > 0 {
        let rest = lines.drop_first();
        if is_skippable(lines[0]) {
            lemma_fields_never_end_of_input(rest, task);
        } else if trim(lines[0]) == "[END]"@ {
        } else {
            match apply_line(task, trim(lines[0])) {
                Ok(next) => {
                    lemma_fields_never_end_of_input(rest, next);
                },
                Err(_) => {},
            }
        }
    }
}

/// The two rules on backups that every accepted stanza meets.
pub open spec fn is_consistent(task: TaskModel) -> bool {
    &&& task.is_update ==> task.backup_path.len() == 0 && !task.compare_paths
    &&& task.compare_paths ==> task.backup_path.len() > 0
}

proof fn lemma_fields_are_consistent(lines: Seq<Seq<char>>, task: TaskModel)
    requires
        task.is_update ==> task.backup_path.len() == 0 && !task.compare_paths,
    ensures
        parse_fields(lines, task).result matches Ok(parsed) ==> is_consistent(parsed),
        0 <= parse_fields(lines, task).consumed <= lines.len(),
    decreases lines.len(),
{
    if lines.len() > 0 {
        let rest = lines.drop_first();
        if is_skippable(lines[0]) {
            lemma_fields_are_consistent(rest, task);
        } else if trim(lines[0]) == "[END]"@ {
        } else {
            match apply_line(task, trim(lines[0])) {
                Ok(next) => {
                    lemma_fields_are_consistent(rest, next);
                },
                Err(_) => {},
            }
        }
    }
}

/// A task that was read from a stanza snapshots only as a backup task and
/// has a backup path whenever it compares with old backups. Reading never
/// takes more lines than there are.
pub proof fn lemma_parsed_is_consistent(lines: Seq<Seq<char>>)
    ensures
        parse_stanza(lines).result matches Ok(parsed) ==> is_consistent(parsed),
        0 <= parse_stanza(lines).consumed <= lines.len(),
        parse_stanza(lines).result is Ok ==> parse_stanza(lines).consumed > 0,
    decreases lines.len(),
{
    if lines.len() > 0 {
        let rest = lines.drop_first();
        if is_skippable(lines[0]) {
            lemma_parsed_is_consistent(rest);
        } else if trim(lines[0]) == "[BACKUP]"@ {
            lemma_fields_are_consistent(rest, TaskModel { is_update: false, ..TaskModel::blank() });
        } else if trim(lines[0]) == "[UPDATE]"@ {
            lemma_fields_are_consistent(rest, TaskModel::blank());
        }
    }
}

/// Reads stanza after stanza until no task is left. The first stanza that
/// cannot be read makes the whole reading fail.
pub open spec fn parse_all(lines: Seq<Seq<char>>) -> Result<Seq<TaskModel>, ParseErrorView>
    decreases lines.len(),
    via parse_all_terminates
{
    let first = parse_stanza(lines);
    match first.result {
        Err(ParseErrorView::EndOfInput) => Ok(Seq::empty()),
        Err(error) => Err(error),
        Ok(task) => match parse_all(lines.skip(first.consumed)) {
            Ok(rest) => Ok(seq![task] + rest),
            Err(error) => Err(error),
        },
    }
}

#[via_fn]
proof fn parse_all_terminates(lines: Seq<Seq<char>>) {
    lemma_parsed_is_consistent(lines);
}

} // verus!
