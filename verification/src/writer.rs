//! Writing task definitions back as stanzas.

use crate::config::{TaskConfig, ValidationError};
use crate::stanza::{
    header_line, join_lines, lemma_join_append, list_lines, optional_line, stanza_lines,
    stanza_text, tag_line,
};
use vstd::prelude::*;
use vstd::string::*;

verus! {

/// Appends the line `key` + `value`.
fn put_line(out: &mut String, key: &str, value: &str)
    ensures
        final(out)@ == old(out)@ + join_lines(seq![key@ + value@]),
{
    out.append(key);
    out.append(value);
    out.append("\n");
    proof {
        reveal_strlit("\n");
        let lines = seq![key@ + value@];
        assert(join_lines(lines.drop_first()) =~= Seq::<char>::empty());
        assert("\n"@ =~= seq!['\n']);
        assert(out@ =~= old(out)@ + join_lines(lines));
    }
}

/// Appends the line `key` + `value` unless `value` is empty.
fn put_optional(out: &mut String, key: &str, value: &str)
    ensures
        final(out)@ == old(out)@ + join_lines(optional_line(key@, value@)),
{
    if !value.is_empty() {
        put_line(out, key, value);
    } else {
        assert(out@ =~= old(out)@ + join_lines(optional_line(key@, value@)));
    }
}

/// Appends one line `key` + value for each of `values`.
fn put_list(out: &mut String, key: &str, values: &Vec<String>)
    ensures
        final(out)@ == old(out)@ + join_lines(list_lines(key@, values.deep_view())),
{
    let ghost all = values.deep_view();
    let mut i: usize = 0;
    assert(out@ =~= old(out)@ + join_lines(list_lines(key@, all.take(0))));
    while i < values.len()
        invariant
            i <= values.len(),
            all == values.deep_view(),
            out@ == old(out)@ + join_lines(list_lines(key@, all.take(i as int))),
        decreases values.len() - i,
    {
        put_line(out, key, values[i].as_str());
        proof {
            let before = list_lines(key@, all.take(i as int));
            let line = seq![key@ + values[i as int]@];
            lemma_join_append(before, line);
            assert(list_lines(key@, all.take(i + 1)) =~= before + line);
            assert(out@ =~= old(out)@ + join_lines(before + line));
        }
        i += 1;
    }
    assert(all.take(i as int) =~= all);
}

/// Appends the line `tag` if `set`.
fn put_tag(out: &mut String, tag: &str, set: bool)
    ensures
        final(out)@ == old(out)@ + join_lines(tag_line(tag@, set)),
{
    if set {
        put_line(out, tag, "");
        proof {
            reveal_strlit("");
            assert(tag@ + ""@ =~= tag@);
        }
    } else {
        assert(out@ =~= old(out)@ + join_lines(tag_line(tag@, set)));
    }
}

impl TaskConfig {
    /// Renders the task as a stanza. A task that compares with old backups
    /// but names no backup path is refused, since nothing could read its
    /// stanza back.
    pub fn serialize(&self) -> (result: Result<String, ValidationError>)
        ensures
            self@.compare_paths && self@.backup_path.len() == 0 ==> result == Err::<
                String,
                ValidationError,
            >(ValidationError::NoBackupPathToCompare),
            !(self@.compare_paths && self@.backup_path.len() == 0) ==> result is Ok
                && result->Ok_0@ == stanza_text(self@),
    {
        if self.compare_paths && self.backup_path.as_str().is_empty() {
            return Err(ValidationError::NoBackupPathToCompare);
        }
        let ghost task = self@;
        let mut out = String::new();
        let ghost mut done: Seq<Seq<char>> = Seq::empty();
        assert(out@ =~= join_lines(done));

        let header = if self.is_update {
            "[UPDATE]"
        } else {
            "[BACKUP]"
        };
        put_tag(&mut out, header, true);
        proof {
            lemma_join_append(done, seq![header_line(task.is_update)]);
            done = done + seq![header_line(task.is_update)];
        }
        put_line(&mut out, "SRC=", self.src.as_str());
        proof {
            lemma_join_append(done, seq!["SRC="@ + task.src]);
            done = done + seq!["SRC="@ + task.src];
        }
        put_line(&mut out, "DST=", self.dst.as_str());
        proof {
            lemma_join_append(done, seq!["DST="@ + task.dst]);
            done = done + seq!["DST="@ + task.dst];
        }
        put_optional(&mut out, "ID=", self.id.as_str());
        proof {
            lemma_join_append(done, optional_line("ID="@, task.id));
            done = done + optional_line("ID="@, task.id);
        }
        put_optional(&mut out, "EXFR=", self.exclude_from.as_str());
        proof {
            lemma_join_append(done, optional_line("EXFR="@, task.exclude_from));
            done = done + optional_line("EXFR="@, task.exclude_from);
        }
        put_optional(&mut out, "INFR=", self.include_from.as_str());
        proof {
            lemma_join_append(done, optional_line("INFR="@, task.include_from));
            done = done + optional_line("INFR="@, task.include_from);
        }
        put_optional(&mut out, "FIFR=", self.files_from.as_str());
        proof {
            lemma_join_append(done, optional_line("FIFR="@, task.files_from));
            done = done + optional_line("FIFR="@, task.files_from);
        }
        put_optional(&mut out, "BPATH=", self.backup_path.as_str());
        proof {
            lemma_join_append(done, optional_line("BPATH="@, task.backup_path));
            done = done + optional_line("BPATH="@, task.backup_path);
        }
        put_list(&mut out, "CDST=", &self.compare_dest);
        proof {
            lemma_join_append(done, list_lines("CDST="@, task.compare_dest));
            done = done + list_lines("CDST="@, task.compare_dest);
        }
        put_list(&mut out, "LDST=", &self.link_dest);
        proof {
            lemma_join_append(done, list_lines("LDST="@, task.link_dest));
            done = done + list_lines("LDST="@, task.link_dest);
        }
        put_tag(&mut out, "[EXCLUDE OTHERS]", self.exclude_others);
        proof {
            lemma_join_append(done, tag_line("[EXCLUDE OTHERS]"@, task.exclude_others));
            done = done + tag_line("[EXCLUDE OTHERS]"@, task.exclude_others);
        }
        put_tag(&mut out, "[CONFIRM]", self.always_confirm);
        proof {
            lemma_join_append(done, tag_line("[CONFIRM]"@, task.always_confirm));
            done = done + tag_line("[CONFIRM]"@, task.always_confirm);
        }
        put_tag(&mut out, "[COMPARE BPATH]", self.compare_paths);
        proof {
            lemma_join_append(done, tag_line("[COMPARE BPATH]"@, task.compare_paths));
            done = done + tag_line("[COMPARE BPATH]"@, task.compare_paths);
        }
        put_tag(&mut out, "[END]", true);
        proof {
            lemma_join_append(done, seq!["[END]"@]);
            done = done + seq!["[END]"@];
            assert(done =~= stanza_lines(task));
        }
        Ok(out)
    }
}

} // verus!
