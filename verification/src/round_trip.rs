//! Reading back what was written: a stanza written for a task yields that
//! task again.

use crate::config::TaskModel;
use crate::editor::file_text;
use crate::reader::{lemma_line_end_bounds, line_end, lines_from, lines_of};
use crate::stanza::{
    apply_line, header_line, is_skippable, join_lines, lemma_join_append, list_lines,
    optional_line, parse_all, parse_fields, parse_stanza, stanza_lines, stanza_text, tag_line,
    value_after, ParseErrorView, StanzaParse,
};
use crate::text::{is_whitespace, lemma_trim_is_identity, trim};
use vstd::prelude::*;
use vstd::seq_lib::lemma_concat_associative;

verus! {

/// A text that fits on one line.
pub open spec fn is_single_line(value: Seq<char>) -> bool {
    forall|i: int| 0 <= i < value.len() ==> value[i] != '\n'
}

/// A text that does not end in white space.
pub open spec fn ends_cleanly(value: Seq<char>) -> bool {
    value.len() > 0 ==> !is_whitespace(value.last())
}

/// A text that a stanza can hold as a value: one line that does not end in
/// white space.
pub open spec fn is_storable(value: Seq<char>) -> bool {
    is_single_line(value) && ends_cleanly(value)
}

impl TaskModel {
    /// Every text of the task can be held by a stanza.
    pub open spec fn is_storable(self) -> bool {
        &&& is_storable(self.id)
        &&& is_storable(self.src)
        &&& is_storable(self.dst)
        &&& is_storable(self.backup_path)
        &&& is_storable(self.exclude_from)
        &&& is_storable(self.include_from)
        &&& is_storable(self.files_from)
        &&& forall|i: int|
            0 <= i < self.compare_dest.len() ==> is_storable(#[trigger] self.compare_dest[i])
        &&& forall|i: int|
            0 <= i < self.link_dest.len() ==> is_storable(#[trigger] self.link_dest[i])
    }
}

proof fn lemma_line_end_is(text: Seq<char>, pos: int, end: int)
    requires
        0 <= pos <= end <= text.len(),
        forall|k: int| pos <= k < end ==> text[k] != '\n',
        end < text.len() ==> text[end] == '\n',
    ensures
        line_end(text, pos) == end,
    decreases end - pos,
{
    if pos < end {
        lemma_line_end_is(text, pos + 1, end);
    }
}

proof fn lemma_line_end_shift(prefix: Seq<char>, text: Seq<char>, pos: int)
    requires
        0 <= pos <= text.len(),
    ensures
        line_end(prefix + text, prefix.len() + pos) == prefix.len() + line_end(text, pos),
{
    let whole = prefix + text;
    let end = line_end(text, pos);
    lemma_line_end_bounds(text, pos);
    assert forall|k: int| prefix.len() + pos <= k < prefix.len() + end implies whole[k] != '\n' by {
        assert(whole[k] == text[k - prefix.len()]);
    }
    if end < text.len() {
        assert(whole[prefix.len() + end] == text[end]);
    }
    lemma_line_end_is(whole, prefix.len() + pos, prefix.len() + end);
}

proof fn lemma_lines_from_shift(prefix: Seq<char>, text: Seq<char>, pos: int)
    requires
        0 <= pos <= text.len(),
    ensures
        lines_from(prefix + text, prefix.len() + pos) == lines_from(text, pos),
    decreases text.len() - pos,
{
    let whole = prefix + text;
    if pos < text.len() {
        let end = line_end(text, pos);
        lemma_line_end_bounds(text, pos);
        lemma_line_end_shift(prefix, text, pos);
        assert(whole.subrange(prefix.len() + pos, prefix.len() + end) =~= text.subrange(pos, end));
        if end < text.len() {
            lemma_lines_from_shift(prefix, text, end + 1);
        }
    }
}

/// Splitting a text that was joined from single lines gives those lines back.
pub proof fn lemma_lines_of_join(lines: Seq<Seq<char>>)
    requires
        are_single_lines(lines),
    ensures
        lines_of(join_lines(lines)) == lines,
    decreases lines.len(),
{
    if lines.len() > 0 {
        let first = lines[0];
        let rest = lines.drop_first();
        let head = first + seq!['\n'];
        let text = head + join_lines(rest);
        assert(is_single_line(first));
        assert forall|i: int| 0 <= i < rest.len() implies is_single_line(#[trigger] rest[i]) by {
            assert(rest[i] == lines[i + 1]);
        }
        lemma_lines_of_join(rest);
        assert forall|k: int| 0 <= k < first.len() implies text[k] != '\n' by {
            assert(text[k] == first[k]);
        }
        assert(text[first.len() as int] == '\n');
        lemma_line_end_is(text, 0, first.len() as int);
        assert(text.subrange(0, first.len() as int) =~= first);
        lemma_lines_from_shift(head, join_lines(rest), 0);
        if first.len() + 1 < text.len() {
            assert(lines_from(text, first.len() as int + 1) == rest);
        } else {
            assert(join_lines(rest).len() == 0);
            assert(rest.len() == 0) by {
                if rest.len() > 0 {
                    assert(join_lines(rest).len() >= 1);
                }
            }
        }
        assert(lines_of(text) =~= seq![first] + rest);
        assert(seq![first] + rest =~= lines);
    }
}


/// The words of the stanza format, character by character.
proof fn lemma_vocabulary()
    ensures
        "SRC="@ == seq!['S', 'R', 'C', '='],
        "DST="@ == seq!['D', 'S', 'T', '='],
        "EXFR="@ == seq!['E', 'X', 'F', 'R', '='],
        "INFR="@ == seq!['I', 'N', 'F', 'R', '='],
        "FIFR="@ == seq!['F', 'I', 'F', 'R', '='],
        "BPATH="@ == seq!['B', 'P', 'A', 'T', 'H', '='],
        "CDST="@ == seq!['C', 'D', 'S', 'T', '='],
        "LDST="@ == seq!['L', 'D', 'S', 'T', '='],
        "ID="@ == seq!['I', 'D', '='],
        "[EXCLUDE OTHERS]"@ == seq![
            '[', 'E', 'X', 'C', 'L', 'U', 'D', 'E', ' ', 'O', 'T', 'H', 'E', 'R', 'S', ']',
        ],
        "[CONFIRM]"@ == seq!['[', 'C', 'O', 'N', 'F', 'I', 'R', 'M', ']'],
        "[COMPARE BPATH]"@ == seq![
            '[', 'C', 'O', 'M', 'P', 'A', 'R', 'E', ' ', 'B', 'P', 'A', 'T', 'H', ']',
        ],
        "[END]"@ == seq!['[', 'E', 'N', 'D', ']'],
        "[BACKUP]"@ == seq!['[', 'B', 'A', 'C', 'K', 'U', 'P', ']'],
        "[UPDATE]"@ == seq!['[', 'U', 'P', 'D', 'A', 'T', 'E', ']'],
{
    reveal_strlit("SRC=");
    reveal_strlit("DST=");
    reveal_strlit("EXFR=");
    reveal_strlit("INFR=");
    reveal_strlit("FIFR=");
    reveal_strlit("BPATH=");
    reveal_strlit("CDST=");
    reveal_strlit("LDST=");
    reveal_strlit("ID=");
    reveal_strlit("[EXCLUDE OTHERS]");
    reveal_strlit("[CONFIRM]");
    reveal_strlit("[COMPARE BPATH]");
    reveal_strlit("[END]");
    reveal_strlit("[BACKUP]");
    reveal_strlit("[UPDATE]");
    assert("SRC="@ =~= seq!['S', 'R', 'C', '=']);
    assert("DST="@ =~= seq!['D', 'S', 'T', '=']);
    assert("EXFR="@ =~= seq!['E', 'X', 'F', 'R', '=']);
    assert("INFR="@ =~= seq!['I', 'N', 'F', 'R', '=']);
    assert("FIFR="@ =~= seq!['F', 'I', 'F', 'R', '=']);
    assert("BPATH="@ =~= seq!['B', 'P', 'A', 'T', 'H', '=']);
    assert("CDST="@ =~= seq!['C', 'D', 'S', 'T', '=']);
    assert("LDST="@ =~= seq!['L', 'D', 'S', 'T', '=']);
    assert("ID="@ =~= seq!['I', 'D', '=']);
    assert("[EXCLUDE OTHERS]"@ =~= seq![
        '[', 'E', 'X', 'C', 'L', 'U', 'D', 'E', ' ', 'O', 'T', 'H', 'E', 'R', 'S', ']',
    ]);
    assert("[CONFIRM]"@ =~= seq!['[', 'C', 'O', 'N', 'F', 'I', 'R', 'M', ']']);
    assert("[COMPARE BPATH]"@ =~= seq![
        '[', 'C', 'O', 'M', 'P', 'A', 'R', 'E', ' ', 'B', 'P', 'A', 'T', 'H', ']',
    ]);
    assert("[END]"@ =~= seq!['[', 'E', 'N', 'D', ']']);
    assert("[BACKUP]"@ =~= seq!['[', 'B', 'A', 'C', 'K', 'U', 'P', ']']);
    assert("[UPDATE]"@ =~= seq!['[', 'U', 'P', 'D', 'A', 'T', 'E', ']']);
}

proof fn lemma_differs_at(word: Seq<char>, line: Seq<char>, at: int)
    requires
        0 <= at < word.len(),
        at < line.len() ==> word[at] != line[at],
    ensures
        !word.is_prefix_of(line),
        word != line,
{
    if word.is_prefix_of(line) {
        assert(line.subrange(0, word.len() as int)[at] == line[at]);
    }
}

/// `line` is taken as it stands and turns `task` into `next`.
#[verifier::opaque]
spec fn accepts(task: TaskModel, line: Seq<char>, next: TaskModel) -> bool {
    &&& !is_skippable(line)
    &&& trim(line) == line
    &&& line != "[END]"@
    &&& apply_line(task, line) == Ok::<TaskModel, ParseErrorView>(next)
}

proof fn lemma_key_line(key: Seq<char>, value: Seq<char>)
    requires
        key.len() > 0,
        !is_whitespace(key[0]),
        !is_whitespace(key.last()),
        key[0] != '#',
        ends_cleanly(value),
    ensures
        !is_skippable(key + value),
        trim(key + value) == key + value,
        key.is_prefix_of(key + value),
        value_after(key, key + value) == value,
{
    let line = key + value;
    assert(line[0] == key[0]);
    if value.len() > 0 {
        assert(line.last() == value.last());
    } else {
        assert(line.last() == key.last());
    }
    lemma_trim_is_identity(line);
    assert(key =~= line.subrange(0, key.len() as int));
    assert(line.skip(key.len() as int) =~= value);
}

proof fn lemma_accepts_src(task: TaskModel, value: Seq<char>)
    requires
        ends_cleanly(value),
    ensures
        accepts(task, "SRC="@ + value, TaskModel { src: value, ..task }),
{
    reveal(accepts);
    lemma_vocabulary();
    let line = "SRC="@ + value;
    lemma_key_line("SRC="@, value);
    lemma_differs_at("[END]"@, line, 0);
}

proof fn lemma_accepts_dst(task: TaskModel, value: Seq<char>)
    requires
        ends_cleanly(value),
    ensures
        accepts(task, "DST="@ + value, TaskModel { dst: value, ..task }),
{
    reveal(accepts);
    lemma_vocabulary();
    let line = "DST="@ + value;
    lemma_key_line("DST="@, value);
    lemma_differs_at("[END]"@, line, 0);
    lemma_differs_at("SRC="@, line, 0);
}

proof fn lemma_accepts_exfr(task: TaskModel, value: Seq<char>)
    requires
        ends_cleanly(value),
    ensures
        accepts(task, "EXFR="@ + value, TaskModel { exclude_from: value, ..task }),
{
    reveal(accepts);
    lemma_vocabulary();
    let line = "EXFR="@ + value;
    lemma_key_line("EXFR="@, value);
    lemma_differs_at("[END]"@, line, 0);
    lemma_differs_at("SRC="@, line, 0);
    lemma_differs_at("DST="@, line, 0);
}

proof fn lemma_accepts_infr(task: TaskModel, value: Seq<char>)
    requires
        ends_cleanly(value),
    ensures
        accepts(task, "INFR="@ + value, TaskModel { include_from: value, ..task }),
{
    reveal(accepts);
    lemma_vocabulary();
    let line = "INFR="@ + value;
    lemma_key_line("INFR="@, value);
    lemma_differs_at("[END]"@, line, 0);
    lemma_differs_at("SRC="@, line, 0);
    lemma_differs_at("DST="@, line, 0);
    lemma_differs_at("EXFR="@, line, 0);
}

proof fn lemma_accepts_fifr(task: TaskModel, value: Seq<char>)
    requires
        ends_cleanly(value),
    ensures
        accepts(task, "FIFR="@ + value, TaskModel { files_from: value, ..task }),
{
    reveal(accepts);
    lemma_vocabulary();
    let line = "FIFR="@ + value;
    lemma_key_line("FIFR="@, value);
    lemma_differs_at("[END]"@, line, 0);
    lemma_differs_at("SRC="@, line, 0);
    lemma_differs_at("DST="@, line, 0);
    lemma_differs_at("EXFR="@, line, 0);
    lemma_differs_at("INFR="@, line, 0);
}

proof fn lemma_accepts_bpath(task: TaskModel, value: Seq<char>)
    requires
        ends_cleanly(value),
        !task.is_update,
    ensures
        accepts(task, "BPATH="@ + value, TaskModel { backup_path: value, ..task }),
{
    reveal(accepts);
    lemma_vocabulary();
    let line = "BPATH="@ + value;
    lemma_key_line("BPATH="@, value);
    lemma_differs_at("[END]"@, line, 0);
    lemma_differs_at("SRC="@, line, 0);
    lemma_differs_at("DST="@, line, 0);
    lemma_differs_at("EXFR="@, line, 0);
    lemma_differs_at("INFR="@, line, 0);
    lemma_differs_at("FIFR="@, line, 0);
}

proof fn lemma_accepts_cdst(task: TaskModel, value: Seq<char>)
    requires
        ends_cleanly(value),
    ensures
        accepts(
            task,
            "CDST="@ + value,
            TaskModel { compare_dest: task.compare_dest.push(value), ..task },
        ),
{
    reveal(accepts);
    lemma_vocabulary();
    let line = "CDST="@ + value;
    lemma_key_line("CDST="@, value);
    lemma_differs_at("[END]"@, line, 0);
    lemma_differs_at("SRC="@, line, 0);
    lemma_differs_at("DST="@, line, 0);
    lemma_differs_at("EXFR="@, line, 0);
    lemma_differs_at("INFR="@, line, 0);
    lemma_differs_at("FIFR="@, line, 0);
    lemma_differs_at("BPATH="@, line, 0);
}

proof fn lemma_accepts_ldst(task: TaskModel, value: Seq<char>)
    requires
        ends_cleanly(value),
    ensures
        accepts(
            task,
            "LDST="@ + value,
            TaskModel { link_dest: task.link_dest.push(value), ..task },
        ),
{
    reveal(accepts);
    lemma_vocabulary();
    let line = "LDST="@ + value;
    lemma_key_line("LDST="@, value);
    lemma_differs_at("[END]"@, line, 0);
    lemma_differs_at("SRC="@, line, 0);
    lemma_differs_at("DST="@, line, 0);
    lemma_differs_at("EXFR="@, line, 0);
    lemma_differs_at("INFR="@, line, 0);
    lemma_differs_at("FIFR="@, line, 0);
    lemma_differs_at("BPATH="@, line, 0);
    lemma_differs_at("CDST="@, line, 0);
}

proof fn lemma_accepts_id(task: TaskModel, value: Seq<char>)
    requires
        ends_cleanly(value),
    ensures
        accepts(task, "ID="@ + value, TaskModel { id: value, ..task }),
{
    reveal(accepts);
    lemma_vocabulary();
    let line = "ID="@ + value;
    lemma_key_line("ID="@, value);
    lemma_differs_at("[END]"@, line, 0);
    lemma_differs_at("SRC="@, line, 0);
    lemma_differs_at("DST="@, line, 0);
    lemma_differs_at("EXFR="@, line, 0);
    lemma_differs_at("INFR="@, line, 1);
    lemma_differs_at("FIFR="@, line, 0);
    lemma_differs_at("BPATH="@, line, 0);
    lemma_differs_at("CDST="@, line, 0);
    lemma_differs_at("LDST="@, line, 0);
}

proof fn lemma_accepts_exclude_others(task: TaskModel)
    ensures
        accepts(task, "[EXCLUDE OTHERS]"@, TaskModel { exclude_others: true, ..task }),
{
    reveal(accepts);
    lemma_vocabulary();
    let line = "[EXCLUDE OTHERS]"@;
    lemma_trim_is_identity(line);
    lemma_differs_at("[END]"@, line, 2);
    lemma_differs_at("SRC="@, line, 0);
    lemma_differs_at("DST="@, line, 0);
    lemma_differs_at("EXFR="@, line, 0);
    lemma_differs_at("INFR="@, line, 0);
    lemma_differs_at("FIFR="@, line, 0);
    lemma_differs_at("BPATH="@, line, 0);
    lemma_differs_at("CDST="@, line, 0);
    lemma_differs_at("LDST="@, line, 0);
    lemma_differs_at("ID="@, line, 0);
}

proof fn lemma_accepts_always_confirm(task: TaskModel)
    ensures
        accepts(task, "[CONFIRM]"@, TaskModel { always_confirm: true, ..task }),
{
    reveal(accepts);
    lemma_vocabulary();
    let line = "[CONFIRM]"@;
    lemma_trim_is_identity(line);
    lemma_differs_at("[END]"@, line, 1);
    lemma_differs_at("SRC="@, line, 0);
    lemma_differs_at("DST="@, line, 0);
    lemma_differs_at("EXFR="@, line, 0);
    lemma_differs_at("INFR="@, line, 0);
    lemma_differs_at("FIFR="@, line, 0);
    lemma_differs_at("BPATH="@, line, 0);
    lemma_differs_at("CDST="@, line, 0);
    lemma_differs_at("LDST="@, line, 0);
    lemma_differs_at("ID="@, line, 0);
    lemma_differs_at("[EXCLUDE OTHERS]"@, line, 1);
}

proof fn lemma_accepts_compare_paths(task: TaskModel)
    requires
        !task.is_update,
    ensures
        accepts(task, "[COMPARE BPATH]"@, TaskModel { compare_paths: true, ..task }),
{
    reveal(accepts);
    lemma_vocabulary();
    let line = "[COMPARE BPATH]"@;
    lemma_trim_is_identity(line);
    lemma_differs_at("[END]"@, line, 1);
    lemma_differs_at("SRC="@, line, 0);
    lemma_differs_at("DST="@, line, 0);
    lemma_differs_at("EXFR="@, line, 0);
    lemma_differs_at("INFR="@, line, 0);
    lemma_differs_at("FIFR="@, line, 0);
    lemma_differs_at("BPATH="@, line, 0);
    lemma_differs_at("CDST="@, line, 0);
    lemma_differs_at("LDST="@, line, 0);
    lemma_differs_at("ID="@, line, 0);
    lemma_differs_at("[EXCLUDE OTHERS]"@, line, 1);
    lemma_differs_at("[CONFIRM]"@, line, 3);
}

proof fn lemma_step(task: TaskModel, line: Seq<char>, next: TaskModel, tail: Seq<Seq<char>>)
    requires
        accepts(task, line, next),
    ensures
        parse_fields(seq![line] + tail, task) == parse_fields(tail, next).after(1),
{
    reveal(accepts);
    let lines = seq![line] + tail;
    assert(lines[0] == line);
    assert(lines.drop_first() =~= tail);
}

proof fn lemma_optional_segment(
    task: TaskModel,
    key: Seq<char>,
    value: Seq<char>,
    next: TaskModel,
    tail: Seq<Seq<char>>,
)
    requires
        value.len() > 0 ==> accepts(task, key + value, next),
        value.len() == 0 ==> next == task,
    ensures
        parse_fields(optional_line(key, value) + tail, task) == parse_fields(tail, next).after(
            optional_line(key, value).len() as int,
        ),
{
    if value.len() > 0 {
        lemma_step(task, key + value, next, tail);
    } else {
        assert(optional_line(key, value) + tail =~= tail);
    }
}

proof fn lemma_tag_segment(
    task: TaskModel,
    tag: Seq<char>,
    set: bool,
    next: TaskModel,
    tail: Seq<Seq<char>>,
)
    requires
        set ==> accepts(task, tag, next),
        !set ==> next == task,
    ensures
        parse_fields(tag_line(tag, set) + tail, task) == parse_fields(tail, next).after(
            tag_line(tag, set).len() as int,
        ),
{
    if set {
        lemma_step(task, tag, next, tail);
    } else {
        assert(tag_line(tag, set) + tail =~= tail);
    }
}

proof fn lemma_compare_dest_segment(task: TaskModel, values: Seq<Seq<char>>, tail: Seq<Seq<char>>)
    requires
        forall|i: int| 0 <= i < values.len() ==> ends_cleanly(#[trigger] values[i]),
    ensures
        parse_fields(list_lines("CDST="@, values) + tail, task) == parse_fields(
            tail,
            TaskModel { compare_dest: task.compare_dest + values, ..task },
        ).after(values.len() as int),
    decreases values.len(),
{
    let lines = list_lines("CDST="@, values);
    if values.len() == 0 {
        assert(lines + tail =~= tail);
        assert(task.compare_dest + values =~= task.compare_dest);
    } else {
        let rest = values.drop_first();
        let next = TaskModel { compare_dest: task.compare_dest.push(values[0]), ..task };
        lemma_accepts_cdst(task, values[0]);
        assert(lines + tail =~= seq!["CDST="@ + values[0]] + (list_lines("CDST="@, rest) + tail));
        lemma_step(task, "CDST="@ + values[0], next, list_lines("CDST="@, rest) + tail);
        assert forall|i: int| 0 <= i < rest.len() implies ends_cleanly(#[trigger] rest[i]) by {
            assert(rest[i] == values[i + 1]);
        }
        lemma_compare_dest_segment(next, rest, tail);
        assert(next.compare_dest + rest =~= task.compare_dest + values);
    }
}

proof fn lemma_link_dest_segment(task: TaskModel, values: Seq<Seq<char>>, tail: Seq<Seq<char>>)
    requires
        forall|i: int| 0 <= i < values.len() ==> ends_cleanly(#[trigger] values[i]),
    ensures
        parse_fields(list_lines("LDST="@, values) + tail, task) == parse_fields(
            tail,
            TaskModel { link_dest: task.link_dest + values, ..task },
        ).after(values.len() as int),
    decreases values.len(),
{
    let lines = list_lines("LDST="@, values);
    if values.len() == 0 {
        assert(lines + tail =~= tail);
        assert(task.link_dest + values =~= task.link_dest);
    } else {
        let rest = values.drop_first();
        let next = TaskModel { link_dest: task.link_dest.push(values[0]), ..task };
        lemma_accepts_ldst(task, values[0]);
        assert(lines + tail =~= seq!["LDST="@ + values[0]] + (list_lines("LDST="@, rest) + tail));
        lemma_step(task, "LDST="@ + values[0], next, list_lines("LDST="@, rest) + tail);
        assert forall|i: int| 0 <= i < rest.len() implies ends_cleanly(#[trigger] rest[i]) by {
            assert(rest[i] == values[i + 1]);
        }
        lemma_link_dest_segment(next, rest, tail);
        assert(next.link_dest + rest =~= task.link_dest + values);
    }
}

/// Lines none of which holds a line feed.
pub open spec fn are_single_lines(lines: Seq<Seq<char>>) -> bool {
    forall|i: int| 0 <= i < lines.len() ==> is_single_line(#[trigger] lines[i])
}

proof fn lemma_single_lines_append(first: Seq<Seq<char>>, second: Seq<Seq<char>>)
    requires
        are_single_lines(first),
        are_single_lines(second),
    ensures
        are_single_lines(first + second),
{
    assert forall|i: int| 0 <= i < (first + second).len() implies is_single_line(
        #[trigger] (first + second)[i],
    ) by {
        if i < first.len() {
            assert((first + second)[i] == first[i]);
        } else {
            assert((first + second)[i] == second[i - first.len()]);
        }
    }
}

proof fn lemma_single_line_append(key: Seq<char>, value: Seq<char>)
    requires
        is_single_line(key),
        is_single_line(value),
    ensures
        is_single_line(key + value),
{
    assert forall|i: int| 0 <= i < (key + value).len() implies (key + value)[i] != '\n' by {
        if i < key.len() {
            assert((key + value)[i] == key[i]);
        } else {
            assert((key + value)[i] == value[i - key.len()]);
        }
    }
}

proof fn lemma_list_lines_are_single(key: Seq<char>, values: Seq<Seq<char>>)
    requires
        is_single_line(key),
        are_single_lines(values),
    ensures
        are_single_lines(list_lines(key, values)),
{
    assert forall|i: int| 0 <= i < values.len() implies is_single_line(
        #[trigger] list_lines(key, values)[i],
    ) by {
        assert(is_single_line(values[i]));
        lemma_single_line_append(key, values[i]);
    }
}

proof fn lemma_stanza_lines_are_single(task: TaskModel)
    requires
        task.is_storable(),
    ensures
        are_single_lines(stanza_lines(task)),
{
    lemma_vocabulary();
    let s0 = seq![header_line(task.is_update)];
    let s1 = s0 + seq!["SRC="@ + task.src];
    let s2 = s1 + seq!["DST="@ + task.dst];
    let s3 = s2 + optional_line("ID="@, task.id);
    let s4 = s3 + optional_line("EXFR="@, task.exclude_from);
    let s5 = s4 + optional_line("INFR="@, task.include_from);
    let s6 = s5 + optional_line("FIFR="@, task.files_from);
    let s7 = s6 + optional_line("BPATH="@, task.backup_path);
    let s8 = s7 + list_lines("CDST="@, task.compare_dest);
    let s9 = s8 + list_lines("LDST="@, task.link_dest);
    let s10 = s9 + tag_line("[EXCLUDE OTHERS]"@, task.exclude_others);
    let s11 = s10 + tag_line("[CONFIRM]"@, task.always_confirm);
    let s12 = s11 + tag_line("[COMPARE BPATH]"@, task.compare_paths);
    let s13 = s12 + seq!["[END]"@];
    assert(are_single_lines(s0));
    lemma_single_line_append("SRC="@, task.src);
    lemma_single_lines_append(s0, seq!["SRC="@ + task.src]);
    lemma_single_line_append("DST="@, task.dst);
    lemma_single_lines_append(s1, seq!["DST="@ + task.dst]);
    lemma_single_line_append("ID="@, task.id);
    lemma_single_lines_append(s2, optional_line("ID="@, task.id));
    lemma_single_line_append("EXFR="@, task.exclude_from);
    lemma_single_lines_append(s3, optional_line("EXFR="@, task.exclude_from));
    lemma_single_line_append("INFR="@, task.include_from);
    lemma_single_lines_append(s4, optional_line("INFR="@, task.include_from));
    lemma_single_line_append("FIFR="@, task.files_from);
    lemma_single_lines_append(s5, optional_line("FIFR="@, task.files_from));
    lemma_single_line_append("BPATH="@, task.backup_path);
    lemma_single_lines_append(s6, optional_line("BPATH="@, task.backup_path));
    assert(are_single_lines(task.compare_dest));
    lemma_list_lines_are_single("CDST="@, task.compare_dest);
    lemma_single_lines_append(s7, list_lines("CDST="@, task.compare_dest));
    assert(are_single_lines(task.link_dest));
    lemma_list_lines_are_single("LDST="@, task.link_dest);
    lemma_single_lines_append(s8, list_lines("LDST="@, task.link_dest));
    lemma_single_lines_append(s9, tag_line("[EXCLUDE OTHERS]"@, task.exclude_others));
    lemma_single_lines_append(s10, tag_line("[CONFIRM]"@, task.always_confirm));
    lemma_single_lines_append(s11, tag_line("[COMPARE BPATH]"@, task.compare_paths));
    lemma_single_lines_append(s12, seq!["[END]"@]);
}

/// The closing lines of a stanza and what follows them: the flags and
/// `[END]`.
spec fn flag_part(task: TaskModel, tail: Seq<Seq<char>>) -> Seq<Seq<char>> {
    tag_line("[EXCLUDE OTHERS]"@, task.exclude_others) + (tag_line(
        "[CONFIRM]"@,
        task.always_confirm,
    ) + (tag_line("[COMPARE BPATH]"@, task.compare_paths) + (seq!["[END]"@] + tail)))
}

/// The two lists of a stanza and all that follows them.
spec fn list_part(task: TaskModel, tail: Seq<Seq<char>>) -> Seq<Seq<char>> {
    list_lines("CDST="@, task.compare_dest) + (list_lines("LDST="@, task.link_dest) + flag_part(
        task,
        tail,
    ))
}

/// The single texts of a stanza and all that follows them.
spec fn text_part(task: TaskModel, tail: Seq<Seq<char>>) -> Seq<Seq<char>> {
    seq!["SRC="@ + task.src] + (seq!["DST="@ + task.dst] + (optional_line("ID="@, task.id) + (
    optional_line("EXFR="@, task.exclude_from) + (optional_line("INFR="@, task.include_from) + (
    optional_line("FIFR="@, task.files_from) + (optional_line("BPATH="@, task.backup_path)
        + list_part(task, tail)))))))
}

/// `task` as it stands when its flags are still to be read.
spec fn before_flags(task: TaskModel) -> TaskModel {
    TaskModel { exclude_others: false, always_confirm: false, compare_paths: false, ..task }
}

/// `task` as it stands when its lists and flags are still to be read.
spec fn before_lists(task: TaskModel) -> TaskModel {
    TaskModel { compare_dest: Seq::empty(), link_dest: Seq::empty(), ..before_flags(task) }
}

/// `task` read in full, with the lines from `rest` on taken up to `tail`.
spec fn read_in_full(task: TaskModel, rest: Seq<Seq<char>>, tail: Seq<Seq<char>>) -> StanzaParse {
    StanzaParse { result: Ok(task), consumed: rest.len() - tail.len() }
}

/// The lines of a stanza and what follows them, grouped from the back.
proof fn lemma_regroup(task: TaskModel, tail: Seq<Seq<char>>)
    ensures
        stanza_lines(task) + tail == seq![header_line(task.is_update)] + text_part(task, tail),
{
    let a0 = seq![header_line(task.is_update)];
    let a1 = seq!["SRC="@ + task.src];
    let a2 = seq!["DST="@ + task.dst];
    let a3 = optional_line("ID="@, task.id);
    let a4 = optional_line("EXFR="@, task.exclude_from);
    let a5 = optional_line("INFR="@, task.include_from);
    let a6 = optional_line("FIFR="@, task.files_from);
    let a7 = optional_line("BPATH="@, task.backup_path);
    let a8 = list_lines("CDST="@, task.compare_dest);
    let a9 = list_lines("LDST="@, task.link_dest);
    let a10 = tag_line("[EXCLUDE OTHERS]"@, task.exclude_others);
    let a11 = tag_line("[CONFIRM]"@, task.always_confirm);
    let a12 = tag_line("[COMPARE BPATH]"@, task.compare_paths);
    let a13 = seq!["[END]"@];
    let b13 = a13 + tail;
    let b12 = a12 + b13;
    let b11 = a11 + b12;
    let b10 = a10 + b11;
    let b9 = a9 + b10;
    let b8 = a8 + b9;
    let b7 = a7 + b8;
    let b6 = a6 + b7;
    let b5 = a5 + b6;
    let b4 = a4 + b5;
    let b3 = a3 + b4;
    let b2 = a2 + b3;
    let b1 = a1 + b2;
    let c1 = a0 + a1;
    let c2 = c1 + a2;
    let c3 = c2 + a3;
    let c4 = c3 + a4;
    let c5 = c4 + a5;
    let c6 = c5 + a6;
    let c7 = c6 + a7;
    let c8 = c7 + a8;
    let c9 = c8 + a9;
    let c10 = c9 + a10;
    let c11 = c10 + a11;
    let c12 = c11 + a12;
    let c13 = c12 + a13;
    lemma_concat_associative(c12, a13, tail);
    lemma_concat_associative(c11, a12, b13);
    lemma_concat_associative(c10, a11, b12);
    lemma_concat_associative(c9, a10, b11);
    lemma_concat_associative(c8, a9, b10);
    lemma_concat_associative(c7, a8, b9);
    lemma_concat_associative(c6, a7, b8);
    lemma_concat_associative(c5, a6, b7);
    lemma_concat_associative(c4, a5, b6);
    lemma_concat_associative(c3, a4, b5);
    lemma_concat_associative(c2, a3, b4);
    lemma_concat_associative(c1, a2, b3);
    lemma_concat_associative(a0, a1, b2);
    assert(b10 == flag_part(task, tail));
    assert(b8 == list_part(task, tail));
    assert(b1 == text_part(task, tail));
}

proof fn lemma_flags_round_trip(task: TaskModel, tail: Seq<Seq<char>>)
    requires
        task.is_update ==> !task.compare_paths,
        task.compare_paths ==> task.backup_path.len() > 0,
    ensures
        parse_fields(flag_part(task, tail), before_flags(task)) == read_in_full(
            task,
            flag_part(task, tail),
            tail,
        ),
{
    let r_end = seq!["[END]"@] + tail;
    let r_compare = tag_line("[COMPARE BPATH]"@, task.compare_paths) + r_end;
    let r_confirm = tag_line("[CONFIRM]"@, task.always_confirm) + r_compare;
    let t9 = before_flags(task);
    let t10 = TaskModel { exclude_others: task.exclude_others, ..t9 };
    let t11 = TaskModel { always_confirm: task.always_confirm, ..t10 };
    let t12 = TaskModel { compare_paths: task.compare_paths, ..t11 };
    assert(t12 =~= task);
    assert(parse_fields(r_end, t12) == read_in_full(task, r_end, tail)) by {
        lemma_vocabulary();
        assert(r_end[0] == "[END]"@);
        lemma_trim_is_identity("[END]"@);
    }
    assert(parse_fields(r_compare, t11) == read_in_full(task, r_compare, tail)) by {
        if !task.compare_paths {
            assert(t12 =~= t11);
        } else {
            lemma_accepts_compare_paths(t11);
        }
        lemma_tag_segment(t11, "[COMPARE BPATH]"@, task.compare_paths, t12, r_end);
    }
    assert(parse_fields(r_confirm, t10) == read_in_full(task, r_confirm, tail)) by {
        lemma_accepts_always_confirm(t10);
        if !task.always_confirm {
            assert(t11 =~= t10);
        }
        lemma_tag_segment(t10, "[CONFIRM]"@, task.always_confirm, t11, r_compare);
    }
    assert(parse_fields(flag_part(task, tail), t9) == read_in_full(
        task,
        flag_part(task, tail),
        tail,
    )) by {
        lemma_accepts_exclude_others(t9);
        if !task.exclude_others {
            assert(t10 =~= t9);
        }
        lemma_tag_segment(t9, "[EXCLUDE OTHERS]"@, task.exclude_others, t10, r_confirm);
    }
}

proof fn lemma_lists_round_trip(task: TaskModel, tail: Seq<Seq<char>>)
    requires
        task.is_update ==> !task.compare_paths,
        task.compare_paths ==> task.backup_path.len() > 0,
        forall|i: int| 0 <= i < task.compare_dest.len() ==>
            ends_cleanly(#[trigger] task.compare_dest[i]),
        forall|i: int| 0 <= i < task.link_dest.len() ==> ends_cleanly(#[trigger] task.link_dest[i]),
    ensures
        parse_fields(list_part(task, tail), before_lists(task)) == read_in_full(
            task,
            list_part(task, tail),
            tail,
        ),
{
    let r_flags = flag_part(task, tail);
    let r_ldst = list_lines("LDST="@, task.link_dest) + r_flags;
    let t7 = before_lists(task);
    let t8 = TaskModel { compare_dest: task.compare_dest, ..t7 };
    let t9 = TaskModel { link_dest: task.link_dest, ..t8 };
    assert(t9 =~= before_flags(task));
    lemma_flags_round_trip(task, tail);
    assert(parse_fields(r_ldst, t8) == read_in_full(task, r_ldst, tail)) by {
        lemma_link_dest_segment(t8, task.link_dest, r_flags);
        assert(t8.link_dest + task.link_dest =~= task.link_dest);
    }
    assert(parse_fields(list_part(task, tail), t7) == read_in_full(
        task,
        list_part(task, tail),
        tail,
    )) by {
        lemma_compare_dest_segment(t7, task.compare_dest, r_ldst);
        assert(t7.compare_dest + task.compare_dest =~= task.compare_dest);
    }
}

proof fn lemma_texts_round_trip(task: TaskModel, tail: Seq<Seq<char>>)
    requires
        task.is_update ==> !task.compare_paths && task.backup_path.len() == 0,
        task.compare_paths ==> task.backup_path.len() > 0,
        ends_cleanly(task.id),
        ends_cleanly(task.src),
        ends_cleanly(task.dst),
        ends_cleanly(task.backup_path),
        ends_cleanly(task.exclude_from),
        ends_cleanly(task.include_from),
        ends_cleanly(task.files_from),
        forall|i: int| 0 <= i < task.compare_dest.len() ==>
            ends_cleanly(#[trigger] task.compare_dest[i]),
        forall|i: int| 0 <= i < task.link_dest.len() ==> ends_cleanly(#[trigger] task.link_dest[i]),
    ensures
        parse_fields(
            text_part(task, tail),
            TaskModel { is_update: task.is_update, ..TaskModel::blank() },
        ) == read_in_full(task, text_part(task, tail), tail),
{
    let r_lists = list_part(task, tail);
    let r_bpath = optional_line("BPATH="@, task.backup_path) + r_lists;
    let r_fifr = optional_line("FIFR="@, task.files_from) + r_bpath;
    let r_infr = optional_line("INFR="@, task.include_from) + r_fifr;
    let r_exfr = optional_line("EXFR="@, task.exclude_from) + r_infr;
    let r_id = optional_line("ID="@, task.id) + r_exfr;
    let r_dst = seq!["DST="@ + task.dst] + r_id;
    let t0 = TaskModel { is_update: task.is_update, ..TaskModel::blank() };
    let t1 = TaskModel { src: task.src, ..t0 };
    let t2 = TaskModel { dst: task.dst, ..t1 };
    let t3 = TaskModel { id: task.id, ..t2 };
    let t4 = TaskModel { exclude_from: task.exclude_from, ..t3 };
    let t5 = TaskModel { include_from: task.include_from, ..t4 };
    let t6 = TaskModel { files_from: task.files_from, ..t5 };
    let t7 = TaskModel { backup_path: task.backup_path, ..t6 };
    assert(t7 =~= before_lists(task));
    lemma_lists_round_trip(task, tail);
    assert(parse_fields(r_bpath, t6) == read_in_full(task, r_bpath, tail)) by {
        if task.backup_path.len() == 0 {
            assert(t7 =~= t6);
        } else {
            lemma_accepts_bpath(t6, task.backup_path);
        }
        lemma_optional_segment(t6, "BPATH="@, task.backup_path, t7, r_lists);
    }
    assert(parse_fields(r_fifr, t5) == read_in_full(task, r_fifr, tail)) by {
        lemma_accepts_fifr(t5, task.files_from);
        if task.files_from.len() == 0 {
            assert(t6 =~= t5);
        }
        lemma_optional_segment(t5, "FIFR="@, task.files_from, t6, r_bpath);
    }
    assert(parse_fields(r_infr, t4) == read_in_full(task, r_infr, tail)) by {
        lemma_accepts_infr(t4, task.include_from);
        if task.include_from.len() == 0 {
            assert(t5 =~= t4);
        }
        lemma_optional_segment(t4, "INFR="@, task.include_from, t5, r_fifr);
    }
    assert(parse_fields(r_exfr, t3) == read_in_full(task, r_exfr, tail)) by {
        lemma_accepts_exfr(t3, task.exclude_from);
        if task.exclude_from.len() == 0 {
            assert(t4 =~= t3);
        }
        lemma_optional_segment(t3, "EXFR="@, task.exclude_from, t4, r_infr);
    }
    assert(parse_fields(r_id, t2) == read_in_full(task, r_id, tail)) by {
        lemma_accepts_id(t2, task.id);
        if task.id.len() == 0 {
            assert(t3 =~= t2);
        }
        lemma_optional_segment(t2, "ID="@, task.id, t3, r_exfr);
    }
    assert(parse_fields(r_dst, t1) == read_in_full(task, r_dst, tail)) by {
        lemma_accepts_dst(t1, task.dst);
        lemma_step(t1, "DST="@ + task.dst, t2, r_id);
    }
    assert(parse_fields(text_part(task, tail), t0) == read_in_full(
        task,
        text_part(task, tail),
        tail,
    )) by {
        lemma_accepts_src(t0, task.src);
        lemma_step(t0, "SRC="@ + task.src, t1, r_dst);
    }
}

/// A stanza written for a task reads back as that task, whatever lines
/// follow it, and takes exactly its own lines. This holds of every valid
/// task whose texts do not end in white space.
pub proof fn lemma_stanza_round_trip(task: TaskModel, tail: Seq<Seq<char>>)
    requires
        task.is_valid(),
        ends_cleanly(task.id),
        ends_cleanly(task.src),
        ends_cleanly(task.dst),
        ends_cleanly(task.backup_path),
        ends_cleanly(task.exclude_from),
        ends_cleanly(task.include_from),
        ends_cleanly(task.files_from),
        forall|i: int| 0 <= i < task.compare_dest.len() ==>
            ends_cleanly(#[trigger] task.compare_dest[i]),
        forall|i: int| 0 <= i < task.link_dest.len() ==> ends_cleanly(#[trigger] task.link_dest[i]),
    ensures
        parse_stanza(stanza_lines(task) + tail) == (StanzaParse {
            result: Ok(task),
            consumed: stanza_lines(task).len() as int,
        }),
{
    let header = header_line(task.is_update);
    let rest = text_part(task, tail);
    let all = seq![header] + rest;
    lemma_regroup(task, tail);
    lemma_texts_round_trip(task, tail);
    assert(parse_stanza(all) == read_in_full(task, all, tail)) by {
        lemma_vocabulary();
        assert(all[0] == header);
        assert(all.drop_first() =~= rest);
        lemma_trim_is_identity(header);
        lemma_differs_at("[BACKUP]"@, "[UPDATE]"@, 1);
    }
    assert(all.len() == stanza_lines(task).len() + tail.len());
}

/// Reading the text written for a task gives the task back. This holds of
/// every valid task whose texts fit on one line and do not end in white
/// space.
pub proof fn lemma_text_round_trip(task: TaskModel)
    requires
        task.is_valid(),
        task.is_storable(),
    ensures
        parse_stanza(lines_of(stanza_text(task))) == (StanzaParse {
            result: Ok(task),
            consumed: lines_of(stanza_text(task)).len() as int,
        }),
{
    lemma_vocabulary();
    let lines = stanza_lines(task);
    lemma_stanza_lines_are_single(task);
    lemma_lines_of_join(lines);
    lemma_stanza_round_trip(task, Seq::empty());
    assert(lines + Seq::<Seq<char>>::empty() =~= lines);
}

/// Tasks each of which is valid and can be held by a stanza.
pub open spec fn are_storable(tasks: Seq<TaskModel>) -> bool {
    forall|i: int| 0 <= i < tasks.len() ==>
        (#[trigger] tasks[i]).is_valid() && tasks[i].is_storable()
}

/// The lines of the file that holds `tasks`.
pub open spec fn file_lines(tasks: Seq<TaskModel>) -> Seq<Seq<char>>
    decreases tasks.len(),
{
    if tasks.len() == 0 {
        Seq::empty()
    } else {
        file_lines(tasks.drop_last()) + stanza_lines(tasks.last())
    }
}

proof fn lemma_file_text_is_joined(tasks: Seq<TaskModel>)
    ensures
        file_text(tasks) == join_lines(file_lines(tasks)),
    decreases tasks.len(),
{
    if tasks.len() > 0 {
        lemma_file_text_is_joined(tasks.drop_last());
        lemma_join_append(file_lines(tasks.drop_last()), stanza_lines(tasks.last()));
    }
}

proof fn lemma_file_lines_are_single(tasks: Seq<TaskModel>)
    requires
        are_storable(tasks),
    ensures
        are_single_lines(file_lines(tasks)),
    decreases tasks.len(),
{
    if tasks.len() > 0 {
        let front = tasks.drop_last();
        assert forall|i: int| 0 <= i < front.len() implies (#[trigger] front[i]).is_valid()
            && front[i].is_storable() by {
            assert(front[i] == tasks[i]);
        }
        lemma_file_lines_are_single(front);
        assert(tasks.last() == tasks[tasks.len() - 1]);
        lemma_stanza_lines_are_single(tasks.last());
        lemma_single_lines_append(file_lines(front), stanza_lines(tasks.last()));
    }
}

proof fn lemma_file_lines_from_the_front(tasks: Seq<TaskModel>)
    requires
        tasks.len() > 0,
    ensures
        file_lines(tasks) == stanza_lines(tasks[0]) + file_lines(tasks.drop_first()),
    decreases tasks.len(),
{
    let front = tasks.drop_last();
    let rest = tasks.drop_first();
    if tasks.len() == 1 {
        assert(file_lines(front) =~= Seq::<Seq<char>>::empty());
        assert(file_lines(rest) =~= Seq::<Seq<char>>::empty());
        assert(file_lines(tasks) =~= stanza_lines(tasks[0]) + file_lines(rest));
    } else {
        lemma_file_lines_from_the_front(front);
        assert(front[0] == tasks[0]);
        assert(front.drop_first() =~= rest.drop_last());
        assert(rest.last() == tasks.last());
        lemma_concat_associative(
            stanza_lines(tasks[0]),
            file_lines(rest.drop_last()),
            stanza_lines(tasks.last()),
        );
    }
}

proof fn lemma_file_lines_round_trip(tasks: Seq<TaskModel>)
    requires
        are_storable(tasks),
    ensures
        parse_all(file_lines(tasks)) == Ok::<Seq<TaskModel>, ParseErrorView>(tasks),
    decreases tasks.len(),
{
    if tasks.len() == 0 {
        assert(tasks =~= Seq::<TaskModel>::empty());
    } else {
        let first = tasks[0];
        let rest = tasks.drop_first();
        let tail = file_lines(rest);
        lemma_file_lines_from_the_front(tasks);
        assert(first.is_valid() && first.is_storable());
        lemma_stanza_round_trip(first, tail);
        assert forall|i: int| 0 <= i < rest.len() implies (#[trigger] rest[i]).is_valid()
            && rest[i].is_storable() by {
            assert(rest[i] == tasks[i + 1]);
        }
        lemma_file_lines_round_trip(rest);
        assert((stanza_lines(first) + tail).skip(stanza_lines(first).len() as int) =~= tail);
        assert(seq![first] + rest =~= tasks);
    }
}

/// Loading the file that was saved for a list of tasks gives the list back.
/// This holds of every list of valid tasks whose texts fit on one line and do
/// not end in white space.
pub proof fn lemma_file_round_trip(tasks: Seq<TaskModel>)
    requires
        are_storable(tasks),
    ensures
        parse_all(lines_of(file_text(tasks))) == Ok::<Seq<TaskModel>, ParseErrorView>(tasks),
{
    lemma_file_text_is_joined(tasks);
    lemma_file_lines_are_single(tasks);
    lemma_lines_of_join(file_lines(tasks));
    lemma_file_lines_round_trip(tasks);
}

} // verus!
