//! Lines of a text, words of a line.

use vstd::prelude::*;
use crate::command::{joined, lemma_joined_front};
use crate::sorted::rows;
use crate::text::{is_space, is_whitespace};

verus! {

/// The first position at or after `from` that holds a line feed, or the
/// length of `s` where there is none.
pub open spec fn next_newline(s: Seq<char>, from: int) -> int
    decreases s.len() - from,
{
    if from < 0 || from >= s.len() {
        s.len() as int
    } else if s[from] == '\n' {
        from
    } else {
        next_newline(s, from + 1)
    }
}

/// `next_newline` finds the first line feed at or after `from`.
pub proof fn lemma_next_newline(s: Seq<char>, from: int)
    requires
        0 <= from <= s.len(),
    ensures
        from <= next_newline(s, from) <= s.len(),
        next_newline(s, from) < s.len() ==> s[next_newline(s, from)] == '\n',
        forall|i: int| from <= i < next_newline(s, from) ==> s[i] != '\n',
    decreases s.len() - from,
{
    if from < s.len() && s[from] != '\n' {
        lemma_next_newline(s, from + 1);
    }
}

/// `line` without the carriage return that ends it, if one does.
pub open spec fn strip_cr(line: Seq<char>) -> Seq<char> {
    if line.len() > 0 && line.last() == '\r' {
        line.drop_last()
    } else {
        line
    }
}

/// The lines of `s` from position `from` on.
pub open spec fn lines_from(s: Seq<char>, from: int) -> Seq<Seq<char>>
    decreases s.len() - from,
{
    if from < 0 || from >= s.len() {
        Seq::empty()
    } else {
        let end = next_newline(s, from);
        if end >= s.len() {
            seq![s.subrange(from, s.len() as int)]
        } else {
            proof {
                lemma_next_newline(s, from);
            }
            seq![strip_cr(s.subrange(from, end))] + lines_from(s, end + 1)
        }
    }
}

/// The lines of `s`. A line ends with a line feed, or with a carriage return
/// and a line feed; neither belongs to the line. What follows the last line
/// feed is a line of its own unless it is empty, and keeps a carriage return
/// at its end.
pub open spec fn lines_of(s: Seq<char>) -> Seq<Seq<char>> {
    lines_from(s, 0)
}

/// A position is found in `s` where it is found in what is left of `s`
/// after its first `k` characters.
pub proof fn lemma_next_newline_shift(s: Seq<char>, k: int, from: int)
    requires
        0 <= k <= from <= s.len(),
    ensures
        next_newline(s, from) == k + next_newline(s.skip(k), from - k),
    decreases s.len() - from,
{
    if from < s.len() && s[from] != '\n' {
        lemma_next_newline_shift(s, k, from + 1);
    }
}

/// The lines of `s` from position `k` on are the lines of what is left of
/// `s` after its first `k` characters.
pub proof fn lemma_lines_from_shift(s: Seq<char>, k: int)
    requires
        0 <= k <= s.len(),
    ensures
        lines_from(s, k) == lines_of(s.skip(k)),
    decreases s.len() - k,
{
    let t = s.skip(k);
    if k < s.len() {
        lemma_next_newline_shift(s, k, k);
        lemma_next_newline(s, k);
        let end = next_newline(s, k);
        let e = next_newline(t, 0);
        if end >= s.len() {
            assert(s.subrange(k, s.len() as int) =~= t.subrange(0, t.len() as int));
        } else {
            assert(s.subrange(k, end) =~= t.subrange(0, e));
            lemma_lines_from_shift(s, end + 1);
            lemma_lines_from_shift(t, e + 1);
            assert(t.skip(e + 1) =~= s.skip(end + 1));
        }
    }
}

/// Whether `s` can stand as a line of a text: it holds no line feed and does
/// not end with a carriage return.
pub open spec fn is_line(s: Seq<char>) -> bool {
    &&& forall|i: int| 0 <= i < s.len() ==> s[i] != '\n'
    &&& !(s.len() > 0 && s.last() == '\r')
}

/// The text whose lines are `lines`: each followed by a line feed.
pub open spec fn as_lines(lines: Seq<Seq<char>>) -> Seq<char>
    decreases lines.len(),
{
    if lines.len() == 0 {
        Seq::empty()
    } else {
        lines[0] + seq!['\n'] + as_lines(lines.skip(1))
    }
}

/// Writing lines out and splitting the text again gives the lines back.
pub proof fn lemma_lines_of_as_lines(lines: Seq<Seq<char>>)
    requires
        forall|i: int| 0 <= i < lines.len() ==> is_line(#[trigger] lines[i]),
    ensures
        lines_of(as_lines(lines)) == lines,
    decreases lines.len(),
{
    let text = as_lines(lines);
    if lines.len() == 0 {
        assert(lines_of(text) =~= lines);
    } else {
        let first = lines[0];
        let rest = lines.skip(1);
        let n = first.len() as int;
        assert(is_line(first));
        assert(text[n] == '\n');
        assert forall|i: int| 0 <= i < n implies text[i] != '\n' by {
            assert(text[i] == first[i]);
        }
        lemma_next_newline(text, 0);
        let end = next_newline(text, 0);
        assert(end == n);
        assert(text.subrange(0, n) =~= first);
        lemma_lines_from_shift(text, n + 1);
        assert(text.skip(n + 1) =~= as_lines(rest));
        assert forall|i: int| 0 <= i < rest.len() implies is_line(#[trigger] rest[i]) by {
            assert(rest[i] == lines[i + 1]);
        }
        lemma_lines_of_as_lines(rest);
        assert(seq![first] + rest =~= lines);
    }
}

/// Joining lines with line feeds and splitting the text again gives the
/// lines back, unless the last line is empty.
pub proof fn lemma_lines_of_joined(lines: Seq<Seq<char>>)
    requires
        forall|i: int| 0 <= i < lines.len() ==> is_line(#[trigger] lines[i]),
        lines.len() > 0 ==> lines.last().len() > 0,
    ensures
        lines_of(joined(lines, seq!['\n'])) == lines,
    decreases lines.len(),
{
    let sep = seq!['\n'];
    let text = joined(lines, sep);
    if lines.len() == 0 {
        assert(lines_of(text) =~= lines);
    } else if lines.len() == 1 {
        assert(is_line(lines[0]));
        lemma_next_newline(text, 0);
        assert(text.subrange(0, text.len() as int) =~= text);
        assert(lines_of(text) =~= lines);
    } else {
        let first = lines[0];
        let rest = lines.skip(1);
        let n = first.len() as int;
        lemma_joined_front(lines, sep);
        assert(is_line(first));
        assert(text[n] == '\n');
        assert forall|i: int| 0 <= i < n implies text[i] != '\n' by {
            assert(text[i] == first[i]);
        }
        lemma_next_newline(text, 0);
        assert(next_newline(text, 0) == n);
        assert(text.subrange(0, n) =~= first);
        lemma_lines_from_shift(text, n + 1);
        assert(text.skip(n + 1) =~= joined(rest, sep));
        assert forall|i: int| 0 <= i < rest.len() implies is_line(#[trigger] rest[i]) by {
            assert(rest[i] == lines[i + 1]);
        }
        assert(rest.last() == lines.last());
        lemma_lines_of_joined(rest);
        assert(seq![first] + rest =~= lines);
    }
}

/// Whether `s` can stand as a bare name: it is not empty and holds no
/// whitespace.
pub open spec fn is_name(s: Seq<char>) -> bool {
    &&& s.len() > 0
    &&& forall|i: int| 0 <= i < s.len() ==> !is_space(#[trigger] s[i])
}

/// A bare name can stand as a line, and is the first and only word of that
/// line.
pub proof fn lemma_name_is_word(s: Seq<char>)
    requires
        is_name(s),
    ensures
        is_line(s),
        word(s, 0) == Some(s),
        word(s, 1) is None,
{
    assert forall|i: int| 0 <= i < s.len() implies s[i] != '\n' by {
        assert(!is_space(s[i]));
    }
    assert(!is_space(s[s.len() - 1]));
    assert(!is_space(s[0]));
    lemma_run_end(s, 0, true);
    lemma_run_end(s, 0, false);
    let end = run_end(s, 0, false);
    if end < s.len() {
        assert(!is_space(s[end]));
    }
    assert(s.subrange(0, s.len() as int) =~= s);
    lemma_run_end(s, end, true);
}

/// Splits `text` into its lines.
pub fn split_lines(text: &Vec<char>) -> (out: Vec<Vec<char>>)
    ensures
        rows(out@) == lines_of(text@),
{
    let mut out: Vec<Vec<char>> = Vec::new();
    let mut start: usize = 0;
    let n = text.len();
    while start < n
        invariant
            n == text.len(),
            start <= n,
            lines_of(text@) == rows(out@) + lines_from(text@, start as int),
        decreases n - start,
    {
        let mut line: Vec<char> = Vec::new();
        let mut i: usize = start;
        while i < n && text[i] != '\n'
            invariant
                n == text.len(),
                start <= i <= n,
                line@ == text@.subrange(start as int, i as int),
                next_newline(text@, start as int) == next_newline(text@, i as int),
            decreases n - i,
        {
            line.push(text[i]);
            assert(line@ =~= text@.subrange(start as int, i + 1));
            i += 1;
        }
        let ghost before = rows(out@);
        if i < n {
            let len = line.len();
            if len > 0 && line[len - 1] == '\r' {
                line.pop();
            }
            assert(line@ =~= strip_cr(text@.subrange(start as int, i as int)));
            out.push(line);
            proof {
                assert(rows(out@) =~= before.push(line@));
                assert(lines_from(text@, start as int) =~= seq![line@] + lines_from(
                    text@,
                    i + 1,
                ));
                assert(before + (seq![line@] + lines_from(text@, i + 1)) =~= before.push(line@)
                    + lines_from(text@, i + 1));
            }
            start = i + 1;
        } else {
            out.push(line);
            proof {
                assert(rows(out@) =~= before.push(line@));
                assert(lines_from(text@, start as int) =~= seq![line@]);
                assert(lines_from(text@, n as int) =~= Seq::<Seq<char>>::empty());
                assert(before + seq![line@] =~= before.push(line@) + Seq::<Seq<char>>::empty());
            }
            start = n;
        }
    }
    proof {
        assert(lines_from(text@, start as int) =~= Seq::<Seq<char>>::empty());
        assert(rows(out@) + Seq::<Seq<char>>::empty() =~= rows(out@));
    }
    out
}

/// The end of the run that starts at `from` and holds only whitespace
/// (`spaces`) or only other characters (`!spaces`): the first position at or
/// after `from` that breaks the run, or the length of `s`.
pub open spec fn run_end(s: Seq<char>, from: int, spaces: bool) -> int
    decreases s.len() - from,
{
    if from < 0 || from >= s.len() {
        s.len() as int
    } else if is_space(s[from]) != spaces {
        from
    } else {
        run_end(s, from + 1, spaces)
    }
}

/// `run_end` lies between `from` and the end of `s`.
pub proof fn lemma_run_end(s: Seq<char>, from: int, spaces: bool)
    requires
        0 <= from <= s.len(),
    ensures
        from <= run_end(s, from, spaces) <= s.len(),
        run_end(s, from, spaces) < s.len() ==> is_space(s[run_end(s, from, spaces)]) != spaces,
        forall|i: int| from <= i < run_end(s, from, spaces) ==> is_space(s[i]) == spaces,
    decreases s.len() - from,
{
    if from < s.len() && is_space(s[from]) == spaces {
        lemma_run_end(s, from + 1, spaces);
    }
}

/// Where the word with index `n` starts, or the length of `s` where `s` has
/// no such word. Words are the longest runs without whitespace.
pub open spec fn word_start(s: Seq<char>, n: nat) -> int
    decreases n,
{
    if n == 0 {
        run_end(s, 0, true)
    } else {
        run_end(s, run_end(s, word_start(s, (n - 1) as nat), false), true)
    }
}

/// The word of `s` with index `n`, counted from 0.
pub open spec fn word(s: Seq<char>, n: nat) -> Option<Seq<char>> {
    let a = word_start(s, n);
    if 0 <= a < s.len() {
        Some(s.subrange(a, run_end(s, a, false)))
    } else {
        None
    }
}

/// `word_start` lies within `s` or at its end.
pub proof fn lemma_word_start(s: Seq<char>, n: nat)
    ensures
        0 <= word_start(s, n) <= s.len(),
    decreases n,
{
    if n == 0 {
        lemma_run_end(s, 0, true);
    } else {
        lemma_word_start(s, (n - 1) as nat);
        let a = word_start(s, (n - 1) as nat);
        lemma_run_end(s, a, false);
        lemma_run_end(s, run_end(s, a, false), true);
    }
}

/// The end of the run that starts at `from`.
fn scan_run(s: &Vec<char>, from: usize, spaces: bool) -> (end: usize)
    requires
        from <= s.len(),
    ensures
        end == run_end(s@, from as int, spaces),
        from <= end <= s.len(),
{
    let mut i: usize = from;
    while i < s.len() && is_whitespace(s[i]) == spaces
        invariant
            from <= i <= s.len(),
            run_end(s@, from as int, spaces) == run_end(s@, i as int, spaces),
        decreases s.len() - i,
    {
        i += 1;
    }
    i
}

/// The characters of `s` from `from` up to `to`.
pub fn slice_of(s: &Vec<char>, from: usize, to: usize) -> (out: Vec<char>)
    requires
        from <= to <= s.len(),
    ensures
        out@ == s@.subrange(from as int, to as int),
{
    let mut out: Vec<char> = Vec::new();
    let mut i: usize = from;
    while i < to
        invariant
            from <= i <= to <= s.len(),
            out@ == s@.subrange(from as int, i as int),
        decreases to - i,
    {
        out.push(s[i]);
        assert(out@ =~= s@.subrange(from as int, i + 1));
        i += 1;
    }
    out
}

/// The word of `s` with index `n`, counted from 0, if `s` has that many.
pub fn nth_word(s: &Vec<char>, n: usize) -> (out: Option<Vec<char>>)
    ensures
        out is Some <==> word(s@, n as nat) is Some,
        out matches Some(w) ==> word(s@, n as nat) == Some(w@),
{
    let mut start = scan_run(s, 0, true);
    let mut k: usize = 0;
    while k < n
        invariant
            k <= n,
            start <= s.len(),
            start == word_start(s@, k as nat),
        decreases n - k,
    {
        let end = scan_run(s, start, false);
        start = scan_run(s, end, true);
        k += 1;
    }
    if start < s.len() {
        let end = scan_run(s, start, false);
        Some(slice_of(s, start, end))
    } else {
        None
    }
}

/// The last position of `s` that holds `c`, or -1 where none does.
pub open spec fn last_index_of(s: Seq<char>, c: char) -> int
    decreases s.len(),
{
    if s.len() == 0 {
        -1
    } else if s.last() == c {
        s.len() - 1
    } else {
        last_index_of(s.drop_last(), c)
    }
}

/// `last_index_of` finds the last `c`.
pub proof fn lemma_last_index_of(s: Seq<char>, c: char)
    ensures
        -1 <= last_index_of(s, c) < s.len(),
        last_index_of(s, c) >= 0 ==> s[last_index_of(s, c)] == c,
        forall|i: int| last_index_of(s, c) < i < s.len() ==> s[i] != c,
    decreases s.len(),
{
    if s.len() > 0 && s.last() != c {
        let t = s.drop_last();
        lemma_last_index_of(t, c);
        assert forall|i: int| last_index_of(s, c) < i < s.len() implies s[i] != c by {
            if i < t.len() {
                assert(t[i] == s[i]);
            }
        }
    }
}

/// What stands before the last hyphen of `t`, if `t` has a hyphen.
pub open spec fn stem(t: Seq<char>) -> Option<Seq<char>> {
    let i = last_index_of(t, '-');
    if i >= 0 {
        Some(t.take(i))
    } else {
        None
    }
}

/// Cuts `t` at its last hyphen.
pub fn stem_of(t: &Vec<char>) -> (out: Option<Vec<char>>)
    ensures
        out is Some <==> stem(t@) is Some,
        out matches Some(w) ==> stem(t@) == Some(w@),
{
    let mut i: usize = t.len();
    proof {
        assert(t@.take(t.len() as int) =~= t@);
    }
    while i > 0 && t[i - 1] != '-'
        invariant
            i <= t.len(),
            last_index_of(t@, '-') == last_index_of(t@.take(i as int), '-'),
        decreases i,
    {
        proof {
            assert(t@.take(i as int).drop_last() =~= t@.take(i - 1));
        }
        i -= 1;
    }
    if i > 0 {
        assert(t@.take(i as int).last() == '-');
        let out = slice_of(t, 0, i - 1);
        assert(t@.subrange(0, i - 1) =~= t@.take(i - 1));
        Some(out)
    } else {
        None
    }
}

} // verus!
