//! Sorting a list of strings and dropping its duplicates.

use vstd::prelude::*;
use crate::text::{
    compare, lemma_lex_lt_total, lemma_lex_lt_transitive, lemma_not_both, lex_lt, Order,
};

verus! {

/// The character sequences that the rows hold.
pub open spec fn rows(v: Seq<Vec<char>>) -> Seq<Seq<char>> {
    v.map_values(|r: Vec<char>| r@)
}

/// Each string comes before all that follow it.
pub open spec fn strictly_sorted(s: Seq<Seq<char>>) -> bool {
    forall|i: int, j: int| 0 <= i < j < s.len() ==> lex_lt(#[trigger] s[i], #[trigger] s[j])
}

/// The two lists hold the same strings, however often and in whatever order.
pub open spec fn same_elements(a: Seq<Seq<char>>, b: Seq<Seq<char>>) -> bool {
    forall|x: Seq<char>| a.contains(x) <==> b.contains(x)
}

/// `out` lists the strings of `input` in ascending order, each once.
pub open spec fn is_sort_dedup_of(out: Seq<Seq<char>>, input: Seq<Seq<char>>) -> bool {
    strictly_sorted(out) && same_elements(out, input)
}

/// The strings of `input` in ascending order, each once.
pub open spec fn sort_dedup(input: Seq<Seq<char>>) -> Seq<Seq<char>> {
    choose|out: Seq<Seq<char>>| is_sort_dedup_of(out, input)
}

/// Two ascending lists without duplicates that hold the same strings are the
/// same list.
pub proof fn lemma_sorted_unique(a: Seq<Seq<char>>, b: Seq<Seq<char>>)
    requires
        strictly_sorted(a),
        strictly_sorted(b),
        same_elements(a, b),
    ensures
        a == b,
    decreases a.len(),
{
    if a.len() == 0 {
        if b.len() > 0 {
            assert(b.contains(b[0]));
            assert(a.contains(b[0]));
        }
        assert(a =~= b);
    } else {
        let x = a.last();
        assert(a.contains(x));
        assert(b.contains(x));
        let y = b.last();
        assert(b.contains(y));
        assert(a.contains(y));
        let i = choose|i: int| 0 <= i < b.len() && b[i] == x;
        let j = choose|j: int| 0 <= j < a.len() && a[j] == y;
        if x != y {
            assert(lex_lt(x, y));
            assert(lex_lt(y, x));
            lemma_not_both(x, y);
        }
        let a0 = a.drop_last();
        let b0 = b.drop_last();
        assert forall|z: Seq<char>| a0.contains(z) <==> b0.contains(z) by {
            if a0.contains(z) {
                let p = choose|p: int| 0 <= p < a0.len() && a0[p] == z;
                assert(a[p] == z);
                assert(lex_lt(a[p], a[a.len() - 1]));
                lemma_not_both(z, x);
                assert(a.contains(z));
                let q = choose|q: int| 0 <= q < b.len() && b[q] == z;
                assert(b0[q] == z);
            }
            if b0.contains(z) {
                let p = choose|p: int| 0 <= p < b0.len() && b0[p] == z;
                assert(b[p] == z);
                assert(lex_lt(b[p], b[b.len() - 1]));
                lemma_not_both(z, y);
                assert(b.contains(z));
                let q = choose|q: int| 0 <= q < a.len() && a[q] == z;
                assert(a0[q] == z);
            }
        }
        lemma_sorted_unique(a0, b0);
        assert(a =~= a0.push(x));
        assert(b =~= b0.push(y));
    }
}

/// The ascending list `s` with `x` put in its place, unless `s` holds `x`
/// already.
pub open spec fn inserted(s: Seq<Seq<char>>, x: Seq<char>) -> Seq<Seq<char>>
    decreases s.len(),
{
    if s.len() == 0 {
        seq![x]
    } else if lex_lt(s.last(), x) {
        s.push(x)
    } else if s.last() == x {
        s
    } else {
        inserted(s.drop_last(), x).push(s.last())
    }
}

/// Putting `x` in its place keeps the list ascending and adds `x` to what it
/// holds, nothing else.
pub proof fn lemma_inserted(s: Seq<Seq<char>>, x: Seq<char>)
    requires
        strictly_sorted(s),
    ensures
        strictly_sorted(inserted(s, x)),
        forall|y: Seq<char>| inserted(s, x).contains(y) <==> s.contains(y) || y == x,
        inserted(s, x).len() > 0,
        inserted(s, x).last() == x || (s.len() > 0 && inserted(s, x).last() == s.last()),
    decreases s.len(),
{
    let r = inserted(s, x);
    if s.len() == 0 {
        assert forall|y: Seq<char>| r.contains(y) <==> s.contains(y) || y == x by {
            lemma_contains_push(s, x, y);
            assert(r =~= s.push(x));
        }
    } else if lex_lt(s.last(), x) {
        lemma_push_sorted(s, x);
        assert forall|y: Seq<char>| r.contains(y) <==> s.contains(y) || y == x by {
            lemma_contains_push(s, x, y);
        }
    } else if s.last() == x {
        assert(s.contains(x));
    } else {
        let s0 = s.drop_last();
        let m = s.last();
        lemma_lex_lt_total(m, x);
        assert(lex_lt(x, m));
        lemma_inserted(s0, x);
        let r0 = inserted(s0, x);
        if r0.last() != x {
            assert(lex_lt(s[s0.len() - 1], s[s.len() - 1]));
        }
        lemma_push_sorted(r0, m);
        assert(s =~= s0.push(m));
        assert forall|y: Seq<char>| r.contains(y) <==> s.contains(y) || y == x by {
            lemma_contains_push(r0, m, y);
            lemma_contains_push(s0, m, y);
        }
    }
}

/// The strings of `input` put in their places one after the other.
pub open spec fn insertion_sorted(input: Seq<Seq<char>>) -> Seq<Seq<char>>
    decreases input.len(),
{
    if input.len() == 0 {
        Seq::empty()
    } else {
        inserted(insertion_sorted(input.drop_last()), input.last())
    }
}

/// Every list has a sorted form: it is ascending, free of duplicates, and
/// holds the strings of the list, no others.
pub proof fn lemma_sort_dedup(input: Seq<Seq<char>>)
    ensures
        is_sort_dedup_of(sort_dedup(input), input),
        sort_dedup(input) == insertion_sorted(input),
    decreases input.len(),
{
    let r = insertion_sorted(input);
    if input.len() == 0 {
        assert(is_sort_dedup_of(r, input));
    } else {
        let rest = input.drop_last();
        lemma_sort_dedup(rest);
        lemma_inserted(insertion_sorted(rest), input.last());
        assert(input =~= rest.push(input.last()));
        assert forall|y: Seq<char>| r.contains(y) <==> input.contains(y) by {
            lemma_contains_push(rest, input.last(), y);
        }
        assert(is_sort_dedup_of(r, input));
    }
    lemma_sort_dedup_is(r, input);
}

/// A list that is ascending and free of duplicates is its own sorted form.
pub proof fn lemma_sort_dedup_of_sorted(s: Seq<Seq<char>>)
    requires
        strictly_sorted(s),
    ensures
        sort_dedup(s) == s,
{
    assert(is_sort_dedup_of(s, s));
    lemma_sorted_unique(sort_dedup(s), s);
}

/// Whatever list meets the description of the sorted form is the sorted form.
pub proof fn lemma_sort_dedup_is(out: Seq<Seq<char>>, input: Seq<Seq<char>>)
    requires
        is_sort_dedup_of(out, input),
    ensures
        sort_dedup(input) == out,
{
    lemma_sorted_unique(sort_dedup(input), out);
}

/// A copy of `v`.
pub fn copy_of(v: &Vec<char>) -> (r: Vec<char>)
    ensures
        r@ == v@,
{
    let r = v.clone();
    assert(r@ =~= v@);
    r
}

/// Adding a string that comes after the last one keeps an ascending list
/// ascending.
pub proof fn lemma_push_sorted(s: Seq<Seq<char>>, x: Seq<char>)
    requires
        strictly_sorted(s),
        s.len() > 0 ==> lex_lt(s.last(), x),
    ensures
        strictly_sorted(s.push(x)),
{
    let t = s.push(x);
    assert forall|i: int, j: int| 0 <= i < j < t.len() implies lex_lt(
        #[trigger] t[i],
        #[trigger] t[j],
    ) by {
        if j == s.len() {
            if i < s.len() - 1 {
                assert(lex_lt(s[i], s[s.len() - 1]));
                lemma_lex_lt_transitive(s[i], s.last(), x);
            }
        } else {
            assert(lex_lt(s[i], s[j]));
        }
    }
}

/// Merges two ascending lists without duplicates into one.
pub fn merge(a: &Vec<Vec<char>>, b: &Vec<Vec<char>>) -> (out: Vec<Vec<char>>)
    requires
        strictly_sorted(rows(a@)),
        strictly_sorted(rows(b@)),
    ensures
        strictly_sorted(rows(out@)),
        forall|x: Seq<char>|
            rows(out@).contains(x) <==> rows(a@).contains(x) || rows(b@).contains(x),
{
    let mut out: Vec<Vec<char>> = Vec::new();
    let mut i: usize = 0;
    let mut j: usize = 0;
    let ghost ra = rows(a@);
    let ghost rb = rows(b@);
    while i < a.len() || j < b.len()
        invariant
            ra == rows(a@),
            rb == rows(b@),
            strictly_sorted(ra),
            strictly_sorted(rb),
            i <= a.len(),
            j <= b.len(),
            strictly_sorted(rows(out@)),
            out.len() > 0 && i < a.len() ==> lex_lt(rows(out@).last(), ra[i as int]),
            out.len() > 0 && j < b.len() ==> lex_lt(rows(out@).last(), rb[j as int]),
            forall|x: Seq<char>|
                rows(out@).contains(x) <==> ra.take(i as int).contains(x) || rb.take(
                    j as int,
                ).contains(x),
        decreases a.len() - i + b.len() - j,
    {
        let ghost before = rows(out@);
        let ghost i0 = i as int;
        let ghost j0 = j as int;
        let take_a: bool;
        let take_b: bool;
        if i < a.len() && j < b.len() {
            match compare(&a[i], &b[j]) {
                Order::Before => {
                    take_a = true;
                    take_b = false;
                },
                Order::Same => {
                    take_a = true;
                    take_b = true;
                },
                Order::After => {
                    take_a = false;
                    take_b = true;
                },
            }
        } else {
            take_a = i < a.len();
            take_b = !take_a;
        }
        let ghost x = if take_a { ra[i0] } else { rb[j0] };
        if take_a {
            out.push(copy_of(&a[i]));
        } else {
            out.push(copy_of(&b[j]));
        }
        proof {
            assert(rows(out@) =~= before.push(x));
            lemma_push_sorted(before, x);
        }
        if take_a {
            i += 1;
        }
        if take_b {
            j += 1;
        }
        proof {
            let after = rows(out@);
            assert(after.last() == x);
            if i < a.len() {
                if take_a {
                    assert(lex_lt(ra[i0], ra[i as int]));
                } else {
                    assert(lex_lt(x, ra[i as int]));
                }
            }
            if j < b.len() {
                if take_b {
                    assert(lex_lt(rb[j0], rb[j as int]));
                } else {
                    assert(lex_lt(x, rb[j as int]));
                }
            }
            let ta0 = ra.take(i0);
            let tb0 = rb.take(j0);
            let ta = ra.take(i as int);
            let tb = rb.take(j as int);
            if take_a {
                assert(ta =~= ta0.push(ra[i0]));
            } else {
                assert(ta == ta0);
            }
            if take_b {
                assert(tb =~= tb0.push(rb[j0]));
            } else {
                assert(tb == tb0);
            }
            assert forall|y: Seq<char>|
                after.contains(y) <==> ta.contains(y) || tb.contains(y) by {
                lemma_contains_push(before, x, y);
                if take_a {
                    lemma_contains_push(ta0, ra[i0], y);
                }
                if take_b {
                    lemma_contains_push(tb0, rb[j0], y);
                }
            }
        }
    }
    proof {
        assert(ra.take(i as int) =~= ra);
        assert(rb.take(j as int) =~= rb);
    }
    out
}

/// What a list holds after one more string was added.
pub proof fn lemma_contains_push(s: Seq<Seq<char>>, x: Seq<char>, y: Seq<char>)
    ensures
        s.push(x).contains(y) <==> s.contains(y) || y == x,
{
    let t = s.push(x);
    if t.contains(y) {
        let k = choose|k: int| 0 <= k < t.len() && t[k] == y;
        if k < s.len() {
            assert(s[k] == y);
        }
    }
    if s.contains(y) {
        let k = choose|k: int| 0 <= k < s.len() && s[k] == y;
        assert(t[k] == y);
    }
    if y == x {
        assert(t[s.len() as int] == y);
    }
}

/// The strings of `v[lo..hi]` in ascending order, each once.
fn sort_range(v: &Vec<Vec<char>>, lo: usize, hi: usize) -> (out: Vec<Vec<char>>)
    requires
        lo <= hi <= v.len(),
    ensures
        is_sort_dedup_of(rows(out@), rows(v@).subrange(lo as int, hi as int)),
    decreases hi - lo,
{
    let ghost whole = rows(v@).subrange(lo as int, hi as int);
    if hi - lo == 0 {
        let out: Vec<Vec<char>> = Vec::new();
        assert(rows(out@) =~= whole);
        out
    } else if hi - lo == 1 {
        let mut out: Vec<Vec<char>> = Vec::new();
        out.push(copy_of(&v[lo]));
        assert(rows(out@) =~= whole);
        out
    } else {
        let mid = lo + (hi - lo) / 2;
        let left = sort_range(v, lo, mid);
        let right = sort_range(v, mid, hi);
        let out = merge(&left, &right);
        proof {
            let l = rows(v@).subrange(lo as int, mid as int);
            let r = rows(v@).subrange(mid as int, hi as int);
            assert(whole =~= l + r);
            assert forall|x: Seq<char>| whole.contains(x) <==> l.contains(x) || r.contains(
                x,
            ) by {
                if whole.contains(x) {
                    let k = choose|k: int| 0 <= k < whole.len() && whole[k] == x;
                    if k < l.len() {
                        assert(l[k] == x);
                    } else {
                        assert(r[k - l.len()] == x);
                    }
                }
                if l.contains(x) {
                    let k = choose|k: int| 0 <= k < l.len() && l[k] == x;
                    assert(whole[k] == x);
                }
                if r.contains(x) {
                    let k = choose|k: int| 0 <= k < r.len() && r[k] == x;
                    assert(whole[k + l.len()] == x);
                }
            }
        }
        out
    }
}

/// Sorts the strings of `v` and drops the duplicates among them.
pub fn sort_and_dedup(v: &Vec<Vec<char>>) -> (out: Vec<Vec<char>>)
    ensures
        rows(out@) == sort_dedup(rows(v@)),
        strictly_sorted(rows(out@)),
        same_elements(rows(out@), rows(v@)),
{
    let out = sort_range(v, 0, v.len());
    proof {
        assert(rows(v@).subrange(0, v.len() as int) =~= rows(v@));
        lemma_sort_dedup_is(rows(out@), rows(v@));
    }
    out
}

} // verus!
