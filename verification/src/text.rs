//! Character-level helpers shared by the stanza reader and writer.

use vstd::prelude::*;
use vstd::string::*;

verus! {

/// Whether `c` has the Unicode `White_Space` property.
pub open spec fn is_whitespace(c: char) -> bool {
    let n = c as u32;
    ||| 0x09 <= n <= 0x0D
    ||| n == 0x20
    ||| n == 0x85
    ||| n == 0xA0
    ||| n == 0x1680
    ||| 0x2000 <= n <= 0x200A
    ||| n == 0x2028
    ||| n == 0x2029
    ||| n == 0x202F
    ||| n == 0x205F
    ||| n == 0x3000
}

/// `s` without its leading white space.
pub open spec fn trim_start(s: Seq<char>) -> Seq<char>
    decreases s.len(),
{
    if s.len() > 0 && is_whitespace(s[0]) {
        trim_start(s.drop_first())
    } else {
        s
    }
}

/// `s` without its trailing white space.
pub open spec fn trim_end(s: Seq<char>) -> Seq<char>
    decreases s.len(),
{
    if s.len() > 0 && is_whitespace(s.last()) {
        trim_end(s.drop_last())
    } else {
        s
    }
}

/// `s` without leading and trailing white space.
pub open spec fn trim(s: Seq<char>) -> Seq<char> {
    trim_end(trim_start(s))
}

/// Where leading white space ends: `trim_start` cuts off the first `k`
/// characters, which are all white space, and what is left does not begin
/// with white space.
pub proof fn lemma_trim_start_cut(s: Seq<char>) -> (k: int)
    ensures
        0 <= k <= s.len(),
        trim_start(s) == s.skip(k),
        forall|i: int| 0 <= i < k ==> is_whitespace(s[i]),
        k < s.len() ==> !is_whitespace(s[k]),
    decreases s.len(),
{
    if s.len() > 0 && is_whitespace(s[0]) {
        let rest = s.drop_first();
        let k = lemma_trim_start_cut(rest);
        assert(rest.skip(k) =~= s.skip(k + 1));
        assert forall|i: int| 0 <= i < k + 1 implies is_whitespace(s[i]) by {
            if i > 0 {
                assert(s[i] == rest[i - 1]);
            }
        }
        if k < rest.len() {
            assert(s[k + 1] == rest[k]);
        }
        k + 1
    } else {
        assert(s.skip(0) =~= s);
        0
    }
}

/// Where trailing white space begins: `trim_end` keeps the first `k`
/// characters, all that follow are white space, and what is kept does not
/// end in white space.
pub proof fn lemma_trim_end_cut(s: Seq<char>) -> (k: int)
    ensures
        0 <= k <= s.len(),
        trim_end(s) == s.take(k),
        forall|i: int| k <= i < s.len() ==> is_whitespace(s[i]),
        k > 0 ==> !is_whitespace(s[k - 1]),
    decreases s.len(),
{
    if s.len() > 0 && is_whitespace(s.last()) {
        let front = s.drop_last();
        let k = lemma_trim_end_cut(front);
        assert(front.take(k) =~= s.take(k));
        assert forall|i: int| k <= i < s.len() implies is_whitespace(s[i]) by {
            if i < front.len() {
                assert(s[i] == front[i]);
            }
        }
        if k > 0 {
            assert(s[k - 1] == front[k - 1]);
        }
        k
    } else {
        assert(s.take(s.len() as int) =~= s);
        s.len() as int
    }
}

/// What trimming does: `trim(s)` is the stretch of `s` from `cut.0` to
/// `cut.1`; all that stands before and after it is white space, and the
/// stretch itself neither begins nor ends with white space.
pub proof fn lemma_trim_cut(s: Seq<char>) -> (cut: (int, int))
    ensures
        0 <= cut.0 <= cut.1 <= s.len(),
        trim(s) == s.subrange(cut.0, cut.1),
        forall|i: int| 0 <= i < cut.0 || cut.1 <= i < s.len() ==> is_whitespace(s[i]),
        cut.0 < cut.1 ==> !is_whitespace(s[cut.0]) && !is_whitespace(s[cut.1 - 1]),
{
    let from = lemma_trim_start_cut(s);
    let rest = s.skip(from);
    let kept = lemma_trim_end_cut(rest);
    assert(rest.take(kept) =~= s.subrange(from, from + kept));
    assert forall|i: int| 0 <= i < from || from + kept <= i < s.len() implies is_whitespace(
        s[i],
    ) by {
        if i >= from + kept {
            assert(s[i] == rest[i - from]);
        }
    }
    if kept > 0 {
        assert(s[from + kept - 1] == rest[kept - 1]);
    }
    (from, from + kept)
}

/// Trimming leaves alone a text that neither starts nor ends with white space.
pub proof fn lemma_trim_is_identity(s: Seq<char>)
    requires
        s.len() > 0 ==> !is_whitespace(s[0]) && !is_whitespace(s.last()),
    ensures
        trim(s) == s,
{
}

/// Whether `c` is white space.
pub fn is_whitespace_char(c: char) -> (b: bool)
    ensures
        b == is_whitespace(c),
{
    let n: u32 = c as u32;
    (0x09 <= n && n <= 0x0D) || n == 0x20 || n == 0x85 || n == 0xA0 || n == 0x1680 || (0x2000 <= n
        && n <= 0x200A) || n == 0x2028 || n == 0x2029 || n == 0x202F || n == 0x205F || n == 0x3000
}

/// `String::push`: appends the character `c` to the end of `s`.
#[verifier::external_body]
fn push_char(s: &mut String, c: char)
    ensures
        final(s)@ == old(s)@.push(c),
{
    s.push(c);
}

/// The characters of `s`, in order.
pub fn chars_of(s: &str) -> (v: Vec<char>)
    ensures
        v@ == s@,
{
    let mut v: Vec<char> = Vec::new();
    for c in it: s.chars()
        invariant
            v@ == it.seq().take(it.index() as int),
            it.seq() == s@,
    {
        v.push(c);
    }
    v
}

/// The text made of `chars[from..to]`.
pub fn string_of(chars: &Vec<char>, from: usize, to: usize) -> (s: String)
    requires
        from <= to <= chars.len(),
    ensures
        s@ == chars@.subrange(from as int, to as int),
{
    let mut s = String::new();
    let mut i: usize = from;
    while i < to
        invariant
            from <= i <= to <= chars.len(),
            s@ == chars@.subrange(from as int, i as int),
        decreases to - i,
    {
        push_char(&mut s, chars[i]);
        i += 1;
    }
    s
}

/// The text made of all of `chars`.
pub fn text_of(chars: &Vec<char>) -> (s: String)
    ensures
        s@ == chars@,
{
    let s = string_of(chars, 0, chars.len());
    assert(chars@.subrange(0, chars@.len() as int) =~= chars@);
    s
}

/// A copy of `line` without leading and trailing white space.
pub fn trim_line(line: &Vec<char>) -> (out: Vec<char>)
    ensures
        out@ == trim(line@),
{
    let mut start: usize = 0;
    assert(line@.skip(0) =~= line@);
    while start < line.len() && is_whitespace_char(line[start])
        invariant
            start <= line.len(),
            trim_start(line@) == trim_start(line@.skip(start as int)),
        decreases line.len() - start,
    {
        proof {
            let rest = line@.skip(start as int);
            assert(rest[0] == line@[start as int]);
            assert(rest.drop_first() =~= line@.skip(start + 1));
        }
        start += 1;
    }
    assert(trim_start(line@) == line@.skip(start as int)) by {
        let rest = line@.skip(start as int);
        if rest.len() > 0 {
            assert(rest[0] == line@[start as int]);
        }
    }
    let mut end: usize = line.len();
    assert(line@.skip(start as int) =~= line@.subrange(start as int, end as int));
    while end > start && is_whitespace_char(line[end - 1])
        invariant
            start <= end <= line.len(),
            trim(line@) == trim_end(line@.subrange(start as int, end as int)),
        decreases end - start,
    {
        proof {
            let part = line@.subrange(start as int, end as int);
            assert(part.last() == line@[end - 1]);
            assert(part.drop_last() =~= line@.subrange(start as int, end - 1));
        }
        end -= 1;
    }
    assert(trim(line@) == line@.subrange(start as int, end as int)) by {
        let part = line@.subrange(start as int, end as int);
        if part.len() > 0 {
            assert(part.last() == line@[end - 1]);
        }
    }
    let mut out: Vec<char> = Vec::new();
    let mut i: usize = start;
    while i < end
        invariant
            start <= i <= end <= line.len(),
            out@ == line@.subrange(start as int, i as int),
        decreases end - i,
    {
        out.push(line[i]);
        i += 1;
    }
    out
}

/// Whether `line` begins with the characters of `word`.
pub fn has_prefix(line: &Vec<char>, word: &str) -> (b: bool)
    ensures
        b == word@.is_prefix_of(line@),
{
    let mut ok = true;
    let mut i: usize = 0;
    for c in it: word.chars()
        invariant
            it.seq() == word@,
            ok ==> i == it.index() <= line.len(),
            ok <==> (it.index() <= line.len() && forall|k: int|
                0 <= k < it.index() ==> line@[k] == word@[k]),
    {
        if ok {
            if i < line.len() && line[i] == c {
                i += 1;
            } else {
                ok = false;
            }
        }
    }
    proof {
        if ok {
            assert(word@ =~= line@.subrange(0, word@.len() as int));
        }
    }
    ok
}

/// Whether `line` consists of exactly the characters of `word`.
pub fn is_word(line: &Vec<char>, word: &str) -> (b: bool)
    ensures
        b == (line@ == word@),
{
    let prefix = has_prefix(line, word);
    let same_length = word.unicode_len() == line.len();
    proof {
        if prefix && same_length {
            assert(line@ =~= line@.subrange(0, word@.len() as int));
        }
    }
    prefix && same_length
}

/// The character that stands for the digit `d`.
pub open spec fn digit(d: int) -> char {
    seq!['0', '1', '2', '3', '4', '5', '6', '7', '8', '9'][d]
}

/// `n` written in base ten, without leading zeros.
pub open spec fn decimal(n: nat) -> Seq<char>
    decreases n,
{
    if n < 10 {
        seq![digit(n as int)]
    } else {
        decimal(n / 10).push(digit((n % 10) as int))
    }
}

/// `n` written in base ten, with a minus sign if it is negative.
pub open spec fn signed_decimal(n: int) -> Seq<char> {
    if n < 0 {
        seq!['-'] + decimal((-n) as nat)
    } else {
        decimal(n as nat)
    }
}

fn digit_char(d: u8) -> (c: char)
    requires
        d < 10,
    ensures
        c == digit(d as int),
{
    (48u8 + d) as char
}

/// Appends `n` in base ten to `out`.
pub fn push_decimal(out: &mut String, n: u64)
    ensures
        final(out)@ == old(out)@ + decimal(n as nat),
    decreases n,
{
    if n >= 10 {
        push_decimal(out, n / 10);
    }
    let last: u8 = (n % 10) as u8;
    push_char(out, digit_char(last));
    assert(out@ =~= old(out)@ + decimal(n as nat));
}

/// Appends `n` in base ten to `out`, with a minus sign if it is negative.
pub fn push_signed_decimal(out: &mut String, n: i32)
    ensures
        final(out)@ == old(out)@ + signed_decimal(n as int),
{
    if n < 0 {
        push_char(out, '-');
        let size: u64 = (-(n as i64)) as u64;
        push_decimal(out, size);
        assert(out@ =~= old(out)@ + signed_decimal(n as int));
    } else {
        push_decimal(out, n as u64);
    }
}

} // verus!
