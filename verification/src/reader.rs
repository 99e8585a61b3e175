//! An in-memory, forward-only reader that hands out a text line by line.

use crate::text::chars_of;
use vstd::prelude::*;

verus! {

/// The index of the first line feed in `text` at or after `pos`, or the
/// length of `text` if there is none.
pub open spec fn line_end(text: Seq<char>, pos: int) -> int
    decreases text.len() - pos,
{
    if pos < 0 || pos >= text.len() || text[pos] == '\n' {
        pos
    } else {
        line_end(text, pos + 1)
    }
}

/// A line ends at or after its start and within the text; no line feed
/// stands before its end, and one stands at its end unless the text ends
/// there.
pub proof fn lemma_line_end_bounds(text: Seq<char>, pos: int)
    requires
        0 <= pos <= text.len(),
    ensures
        pos <= line_end(text, pos) <= text.len(),
        forall|k: int| pos <= k < line_end(text, pos) ==> text[k] != '\n',
        line_end(text, pos) < text.len() ==> text[line_end(text, pos)] == '\n',
    decreases text.len() - pos,
{
    if pos < text.len() && text[pos] != '\n' {
        lemma_line_end_bounds(text, pos + 1);
    }
}

/// The lines of `text` that start at or after `pos`, each without its line
/// feed. A last line needs no line feed; nothing follows a final line feed.
pub open spec fn lines_from(text: Seq<char>, pos: int) -> Seq<Seq<char>>
    decreases text.len() - pos,
    via lines_from_terminates
{
    if pos < 0 || pos >= text.len() {
        Seq::empty()
    } else {
        let end = line_end(text, pos);
        let rest = if end < text.len() {
            lines_from(text, end + 1)
        } else {
            Seq::empty()
        };
        seq![text.subrange(pos, end)] + rest
    }
}

#[via_fn]
proof fn lines_from_terminates(text: Seq<char>, pos: int) {
    if 0 <= pos < text.len() {
        lemma_line_end_bounds(text, pos);
    }
}

/// The lines of `text`.
pub open spec fn lines_of(text: Seq<char>) -> Seq<Seq<char>> {
    lines_from(text, 0)
}

/// A cursor over a text. Its view is the sequence of lines not yet read.
pub struct LineReader {
    chars: Vec<char>,
    pos: usize,
}

impl View for LineReader {
    type V = Seq<Seq<char>>;

    closed spec fn view(&self) -> Seq<Seq<char>> {
        lines_from(self.chars@, self.pos as int)
    }
}

impl LineReader {
    #[verifier::type_invariant]
    spec fn in_bounds(self) -> bool {
        self.pos <= self.chars.len()
    }

    /// A reader positioned at the start of `text`.
    pub fn new(text: &str) -> (reader: LineReader)
        ensures
            reader@ == lines_of(text@),
    {
        LineReader { chars: chars_of(text), pos: 0 }
    }

    /// Hands out the next line, without its line feed, and moves past it.
    /// Returns `None`, and stays put, once every line has been read.
    pub fn read_line(&mut self) -> (line: Option<Vec<char>>)
        ensures
            old(self)@.len() == 0 ==> line is None && final(self)@ == old(self)@,
            old(self)@.len() > 0 ==> line is Some && line->0@ == old(self)@[0] && final(self)@
                == old(self)@.drop_first(),
    {
        proof {
            use_type_invariant(&*self);
        }
        let start: usize = self.pos;
        let len: usize = self.chars.len();
        if start >= len {
            return None;
        }
        let mut line: Vec<char> = Vec::new();
        let mut i: usize = start;
        while i < len && self.chars[i] != '\n'
            invariant
                start <= i <= len,
                len == self.chars.len(),
                self.pos == start,
                self.chars == old(self).chars,
                line@ == self.chars@.subrange(start as int, i as int),
                line_end(self.chars@, start as int) == line_end(self.chars@, i as int),
            decreases len - i,
        {
            line.push(self.chars[i]);
            i += 1;
        }
        proof {
            let text = self.chars@;
            assert(line_end(text, start as int) == i);
            let rest = if i < len {
                lines_from(text, i + 1)
            } else {
                Seq::empty()
            };
            assert(old(self)@ == seq![line@] + rest);
            assert((seq![line@] + rest).drop_first() =~= rest);
        }
        self.pos = if i < len {
            i + 1
        } else {
            i
        };
        Some(line)
    }
}

} // verus!
