//! From the text that a listing command prints to the list of package names.
//!
//! The text is split into lines, from each line the package name is taken
//! by the one rule that the backend's format asks for, and the names are
//! sorted, each kept once. Sorting the lines first and dropping the
//! duplicates among them, as a form that is the same for every backend,
//! gives the same list.

use vstd::prelude::*;
use vstd::utf8::{decode_utf8, encode_utf8_decode_utf8, valid_utf8};
use crate::command::{joined, texts};
use crate::err::Error;
use crate::lines::{
    as_lines, is_line, is_name, lemma_lines_of_as_lines, lemma_lines_of_joined,
    lemma_name_is_word, lines_of, nth_word, split_lines, stem, stem_of, word,
};
use crate::sorted::{
    copy_of, lemma_contains_push, lemma_sort_dedup, lemma_sort_dedup_is,
    lemma_sort_dedup_of_sorted, rows, same_elements, sort_and_dedup, sort_dedup, strictly_sorted,
};
use crate::text::{chars_of, string_from_utf8, string_of};

verus! {

/// How the package name is taken from a line.
#[derive(Clone, Copy, Debug, PartialEq, Eq, Structural)]
pub enum Extraction {
    /// The line is the name.
    Line,
    /// The first word of the line is the name; a line without a word is
    /// dropped.
    FirstWord,
    /// The name is what stands before the last hyphen of the second word; a
    /// line without a second word, or with none that has a hyphen, is
    /// dropped.
    SecondWordStem,
}

/// The name that `rule` takes from `line`, if it takes one.
pub open spec fn extract(rule: Extraction, line: Seq<char>) -> Option<Seq<char>> {
    match rule {
        Extraction::Line => Some(line),
        Extraction::FirstWord => word(line, 0),
        Extraction::SecondWordStem => match word(line, 1) {
            Some(w) => stem(w),
            None => None,
        },
    }
}

/// The names that `rule` takes from `lines`, in the order of the lines.
pub open spec fn extract_all(rule: Extraction, lines: Seq<Seq<char>>) -> Seq<Seq<char>>
    decreases lines.len(),
{
    if lines.len() == 0 {
        Seq::empty()
    } else {
        let rest = extract_all(rule, lines.drop_last());
        match extract(rule, lines.last()) {
            Some(name) => rest.push(name),
            None => rest,
        }
    }
}

/// The lines of `text`, sorted, each once: the form that is the same for
/// every backend.
pub open spec fn deduped_lines(text: Seq<char>) -> Seq<Seq<char>> {
    sort_dedup(lines_of(text))
}

/// The package names in `text` under `rule`: the names that `rule` takes
/// from the lines of `text`, sorted, each once.
pub open spec fn normalized(text: Seq<char>, rule: Extraction) -> Seq<Seq<char>> {
    sort_dedup(extract_all(rule, lines_of(text)))
}

/// `rule` takes `name` from one of `lines`.
pub open spec fn is_extracted(rule: Extraction, lines: Seq<Seq<char>>, name: Seq<char>) -> bool {
    exists|i: int| 0 <= i < lines.len() && extract(rule, #[trigger] lines[i]) == Some(name)
}

/// The names taken from a list of lines are those that the rule takes from
/// one of the lines.
pub proof fn lemma_extract_all_contains(rule: Extraction, lines: Seq<Seq<char>>, name: Seq<char>)
    ensures
        extract_all(rule, lines).contains(name) <==> is_extracted(rule, lines, name),
    decreases lines.len(),
{
    if lines.len() > 0 {
        let rest = lines.drop_last();
        let last = lines.last();
        lemma_extract_all_contains(rule, rest, name);
        let before = extract_all(rule, rest);
        if let Some(n) = extract(rule, last) {
            lemma_contains_push(before, n, name);
        }
        if is_extracted(rule, lines, name) {
            let i = choose|i: int| 0 <= i < lines.len() && extract(rule, #[trigger] lines[i])
                == Some(name);
            if i < rest.len() {
                assert(rest[i] == lines[i]);
            }
        }
        if is_extracted(rule, rest, name) {
            let i = choose|i: int| 0 <= i < rest.len() && extract(rule, #[trigger] rest[i])
                == Some(name);
            assert(lines[i] == rest[i]);
        }
        if extract(rule, last) == Some(name) {
            assert(lines[lines.len() - 1] == last);
        }
    }
}

/// Lists of lines that hold the same lines give the same names.
pub proof fn lemma_extract_all_same(rule: Extraction, a: Seq<Seq<char>>, b: Seq<Seq<char>>)
    requires
        same_elements(a, b),
    ensures
        same_elements(extract_all(rule, a), extract_all(rule, b)),
{
    assert forall|name: Seq<char>|
        extract_all(rule, a).contains(name) <==> extract_all(rule, b).contains(name) by {
        lemma_extract_all_contains(rule, a, name);
        lemma_extract_all_contains(rule, b, name);
        if is_extracted(rule, a, name) {
            let i = choose|i: int| 0 <= i < a.len() && extract(rule, #[trigger] a[i]) == Some(
                name,
            );
            assert(a.contains(a[i]));
            let j = choose|j: int| 0 <= j < b.len() && b[j] == a[i];
            assert(extract(rule, b[j]) == Some(name));
        }
        if is_extracted(rule, b, name) {
            let i = choose|i: int| 0 <= i < b.len() && extract(rule, #[trigger] b[i]) == Some(
                name,
            );
            assert(b.contains(b[i]));
            let j = choose|j: int| 0 <= j < a.len() && a[j] == b[i];
            assert(extract(rule, a[j]) == Some(name));
        }
    }
}

/// The list of names is ascending and free of duplicates under every rule,
/// and holds the names that the rule takes from a line of the text, no
/// others.
pub proof fn lemma_normalized(text: Seq<char>, rule: Extraction)
    ensures
        strictly_sorted(normalized(text, rule)),
        forall|name: Seq<char>|
            normalized(text, rule).contains(name) <==> is_extracted(rule, lines_of(text), name),
{
    let names = extract_all(rule, lines_of(text));
    lemma_sort_dedup(names);
    assert forall|name: Seq<char>|
        normalized(text, rule).contains(name) <==> is_extracted(
            rule,
            lines_of(text),
            name,
        ) by {
        lemma_extract_all_contains(rule, lines_of(text), name);
    }
}

/// The two phases: sorting the lines and dropping the duplicates among them
/// before the names are taken changes nothing in the list of names.
pub proof fn lemma_baseline_first(text: Seq<char>, rule: Extraction)
    ensures
        normalized(text, rule) == sort_dedup(extract_all(rule, deduped_lines(text))),
{
    let lines = lines_of(text);
    lemma_sort_dedup(lines);
    let a = extract_all(rule, lines);
    let b = extract_all(rule, deduped_lines(text));
    lemma_extract_all_same(rule, deduped_lines(text), lines);
    lemma_sort_dedup(b);
    lemma_sort_dedup_is(sort_dedup(b), a);
}

/// Where the line is the name, the names are the lines, sorted, each once.
pub proof fn lemma_normalized_lines(text: Seq<char>)
    ensures
        normalized(text, Extraction::Line) == deduped_lines(text),
{
    let lines = lines_of(text);
    assert(is_stripped(Extraction::Line, lines));
    lemma_extract_all_stripped(Extraction::Line, lines);
}

/// Whether `rule` leaves every name of `names` as it is.
pub open spec fn is_stripped(rule: Extraction, names: Seq<Seq<char>>) -> bool {
    forall|i: int| 0 <= i < names.len() ==> extract(rule, #[trigger] names[i]) == Some(names[i])
}

/// A rule that leaves every name of a list as it is takes the list from
/// itself.
pub proof fn lemma_extract_all_stripped(rule: Extraction, names: Seq<Seq<char>>)
    requires
        is_stripped(rule, names),
    ensures
        extract_all(rule, names) == names,
    decreases names.len(),
{
    if names.len() == 0 {
        assert(extract_all(rule, names) =~= names);
    } else {
        let rest = names.drop_last();
        assert forall|i: int| 0 <= i < rest.len() implies extract(rule, #[trigger] rest[i])
            == Some(rest[i]) by {
            assert(rest[i] == names[i]);
        }
        lemma_extract_all_stripped(rule, rest);
        assert(extract(rule, names[names.len() - 1]) == Some(names.last()));
        assert(rest.push(names.last()) =~= names);
    }
}

/// Normalizing is idempotent: a list of names that is ascending, free of
/// duplicates and left as it is by the backend's rule, written out one name
/// to a line, is normalized to itself.
pub proof fn lemma_normalize_idempotent(names: Seq<Seq<char>>, rule: Extraction)
    requires
        strictly_sorted(names),
        is_stripped(rule, names),
        forall|i: int| 0 <= i < names.len() ==> is_line(#[trigger] names[i]),
    ensures
        normalized(as_lines(names), rule) == names,
{
    lemma_lines_of_as_lines(names);
    lemma_extract_all_stripped(rule, names);
    lemma_sort_dedup_of_sorted(names);
}

/// Normalizing a list of bare names changes nothing: a list that is
/// ascending and free of duplicates, whose names are not empty and hold no
/// whitespace, is normalized to itself where the rule takes the line or its
/// first word, whether the names are joined with line feeds or each is
/// followed by one.
pub proof fn lemma_normalize_names(names: Seq<Seq<char>>, rule: Extraction)
    requires
        strictly_sorted(names),
        forall|i: int| 0 <= i < names.len() ==> is_name(#[trigger] names[i]),
        rule is Line || rule is FirstWord,
    ensures
        normalized(joined(names, seq!['\n']), rule) == names,
        normalized(as_lines(names), rule) == names,
{
    assert forall|i: int| 0 <= i < names.len() implies is_line(#[trigger] names[i]) && extract(
        rule,
        names[i],
    ) == Some(names[i]) by {
        lemma_name_is_word(names[i]);
    }
    if names.len() > 0 {
        assert(is_name(names[names.len() - 1]));
    }
    lemma_lines_of_joined(names);
    lemma_normalize_idempotent(names, rule);
    lemma_extract_all_stripped(rule, names);
    lemma_sort_dedup_of_sorted(names);
}

/// The name that `rule` takes from `line`.
pub fn extract_name(rule: Extraction, line: &Vec<char>) -> (out: Option<Vec<char>>)
    ensures
        out is Some <==> extract(rule, line@) is Some,
        out matches Some(name) ==> extract(rule, line@) == Some(name@),
{
    match rule {
        Extraction::Line => Some(copy_of(line)),
        Extraction::FirstWord => nth_word(line, 0),
        Extraction::SecondWordStem => match nth_word(line, 1) {
            Some(w) => stem_of(&w),
            None => None,
        },
    }
}

/// The names that `rule` takes from `lines`, in the order of the lines.
pub fn extract_names(rule: Extraction, lines: &Vec<Vec<char>>) -> (out: Vec<Vec<char>>)
    ensures
        rows(out@) == extract_all(rule, rows(lines@)),
{
    let mut out: Vec<Vec<char>> = Vec::new();
    let mut i: usize = 0;
    assert(rows(out@) =~= extract_all(rule, rows(lines@).take(0)));
    while i < lines.len()
        invariant
            i <= lines.len(),
            rows(out@) == extract_all(rule, rows(lines@).take(i as int)),
        decreases lines.len() - i,
    {
        let ghost before = rows(out@);
        let ghost next = rows(lines@).take(i + 1);
        proof {
            assert(next.drop_last() =~= rows(lines@).take(i as int));
            assert(next.last() == lines@[i as int]@);
        }
        match extract_name(rule, &lines[i]) {
            Some(name) => {
                out.push(name);
                assert(rows(out@) =~= before.push(name@));
            },
            None => {},
        }
        i += 1;
    }
    proof {
        assert(rows(lines@).take(lines.len() as int) =~= rows(lines@));
    }
    out
}

/// The rows as strings.
pub fn strings_of(v: &Vec<Vec<char>>) -> (out: Vec<String>)
    ensures
        texts(out@) == rows(v@),
{
    let mut out: Vec<String> = Vec::new();
    let mut i: usize = 0;
    while i < v.len()
        invariant
            i <= v.len(),
            texts(out@) == rows(v@).take(i as int),
        decreases v.len() - i,
    {
        let ghost before = texts(out@);
        out.push(string_of(&v[i]));
        proof {
            assert(texts(out@) =~= before.push(v@[i as int]@));
            assert(rows(v@).take(i + 1) =~= rows(v@).take(i as int).push(v@[i as int]@));
        }
        i += 1;
    }
    proof {
        assert(rows(v@).take(v.len() as int) =~= rows(v@));
    }
    out
}

/// The lines of `text`, sorted, each once.
pub fn sorted_lines(text: &str) -> (out: Vec<Vec<char>>)
    ensures
        rows(out@) == deduped_lines(text@),
        strictly_sorted(rows(out@)),
{
    let chars = chars_of(text);
    let lines = split_lines(&chars);
    sort_and_dedup(&lines)
}

/// The package names in `text` under `rule`: sorted, each once.
pub fn normalize_text(text: &str, rule: Extraction) -> (out: Vec<String>)
    ensures
        texts(out@) == normalized(text@, rule),
        strictly_sorted(texts(out@)),
{
    let chars = chars_of(text);
    let lines = split_lines(&chars);
    let names = extract_names(rule, &lines);
    let sorted = sort_and_dedup(&names);
    strings_of(&sorted)
}

/// The package names in the output `raw` of a listing command, under `rule`:
/// sorted, each once.
///
/// The bytes must be UTF-8: output that is not is reported, never patched.
pub fn normalize_bytes(raw: Vec<u8>, rule: Extraction) -> (out: Result<Vec<String>, Error>)
    ensures
        out is Ok <==> valid_utf8(raw@),
        out matches Ok(names) ==> texts(names@) == normalized(decode_utf8(raw@), rule),
        out matches Ok(names) ==> strictly_sorted(texts(names@)),
        out matches Err(e) ==> e is CommandOutputParse,
{
    match string_from_utf8(raw) {
        Ok(text) => {
            proof {
                encode_utf8_decode_utf8(text@);
            }
            Ok(normalize_text(text.as_str(), rule))
        },
        Err(e) => Err(Error::CommandOutputParse(e)),
    }
}

} // verus!
