//! Text as sequences of characters: the order of strings, and the trusted
//! bridge between `String`, bytes and characters.

use vstd::prelude::*;
use vstd::utf8::*;

verus! {

/// `String::push` appends one character.
pub assume_specification[ String::push ](s: &mut String, ch: char)
    ensures
        final(s)@ == old(s)@.push(ch),
;

/// Whether `c` is whitespace: one of the 25 characters with the Unicode
/// property `White_Space`. Among them are the tab, the line feed, the
/// carriage return and the space.
pub open spec fn is_space(c: char) -> bool {
    let u = c as u32;
    ||| 0x09 <= u <= 0x0d
    ||| u == 0x20
    ||| u == 0x85
    ||| u == 0xa0
    ||| u == 0x1680
    ||| 0x2000 <= u <= 0x200a
    ||| u == 0x2028
    ||| u == 0x2029
    ||| u == 0x202f
    ||| u == 0x205f
    ||| u == 0x3000
}

/// Whether `c` is whitespace.
pub fn is_whitespace(c: char) -> (r: bool)
    ensures
        r == is_space(c),
{
    let u: u32 = c as u32;
    (0x09 <= u && u <= 0x0d) || u == 0x20 || u == 0x85 || u == 0xa0 || u == 0x1680 || (0x2000
        <= u && u <= 0x200a) || u == 0x2028 || u == 0x2029 || u == 0x202f || u == 0x205f || u
        == 0x3000
}

/// The lowercase form of `s`, as `str::to_lowercase` gives it.
pub uninterp spec fn lowercase(s: Seq<char>) -> Seq<char>;

/// `str::to_lowercase`: the result is the lowercase form of `s` by the
/// Unicode case mappings, which are not written out here.
#[verifier::external_body]
pub(crate) fn to_lowercase(s: &str) -> (r: String)
    ensures
        r@ == lowercase(s@),
{
    s.to_lowercase()
}

/// `String::from_utf8`: succeeds exactly on well-formed UTF-8, and the string
/// it gives is encoded by the bytes it was given.
#[verifier::external_body]
pub(crate) fn string_from_utf8(bytes: Vec<u8>) -> (r: std::result::Result<
    String,
    std::string::FromUtf8Error,
>)
    ensures
        r is Ok <==> valid_utf8(bytes@),
        r matches Ok(s) ==> encode_utf8(s@) == bytes@,
{
    String::from_utf8(bytes)
}

/// The code point of `c`.
pub open spec fn code(c: char) -> int {
    c as u32 as int
}

/// `a` and `b` agree before position `k`, where `a` ends or holds the smaller
/// character.
pub open spec fn lt_at(a: Seq<char>, b: Seq<char>, k: int) -> bool {
    &&& 0 <= k <= a.len()
    &&& k < b.len()
    &&& forall|i: int| 0 <= i < k ==> a[i] == b[i]
    &&& (k == a.len() || code(a[k]) < code(b[k]))
}

/// `a` comes before `b` in the lexicographic order by code point.
pub open spec fn lex_lt(a: Seq<char>, b: Seq<char>) -> bool {
    exists|k: int| lt_at(a, b, k)
}

/// No string comes before itself.
pub proof fn lemma_lex_lt_irreflexive(a: Seq<char>)
    ensures
        !lex_lt(a, a),
{
}

/// The order is transitive.
pub proof fn lemma_lex_lt_transitive(a: Seq<char>, b: Seq<char>, c: Seq<char>)
    requires
        lex_lt(a, b),
        lex_lt(b, c),
    ensures
        lex_lt(a, c),
{
    let k1 = choose|k: int| lt_at(a, b, k);
    let k2 = choose|k: int| lt_at(b, c, k);
    let k = if k1 <= k2 { k1 } else { k2 };
    assert(lt_at(a, c, k));
}

/// Of two different strings one comes before the other.
pub proof fn lemma_lex_lt_total(a: Seq<char>, b: Seq<char>)
    ensures
        a == b || lex_lt(a, b) || lex_lt(b, a),
{
    lemma_total_from(a, b, 0);
}

proof fn lemma_total_from(a: Seq<char>, b: Seq<char>, i: int)
    requires
        0 <= i <= a.len(),
        i <= b.len(),
        forall|j: int| 0 <= j < i ==> a[j] == b[j],
    ensures
        a == b || lex_lt(a, b) || lex_lt(b, a),
    decreases a.len() - i,
{
    if i == a.len() {
        if i == b.len() {
            assert(a =~= b);
        } else {
            assert(lt_at(a, b, i));
        }
    } else if i == b.len() {
        assert(lt_at(b, a, i));
    } else if a[i] == b[i] {
        lemma_total_from(a, b, i + 1);
    } else if code(a[i]) < code(b[i]) {
        assert(lt_at(a, b, i));
    } else {
        lemma_code_injective(a[i], b[i]);
        assert(lt_at(b, a, i));
    }
}

/// How two strings stand to each other.
#[derive(Clone, Copy, Debug, PartialEq, Eq, Structural)]
pub enum Order {
    Before,
    Same,
    After,
}

/// Compares `a` with `b` in the lexicographic order by code point.
pub fn compare(a: &Vec<char>, b: &Vec<char>) -> (r: Order)
    ensures
        r == Order::Before <==> lex_lt(a@, b@),
        r == Order::Same <==> a@ == b@,
        r == Order::After <==> lex_lt(b@, a@),
{
    let mut i: usize = 0;
    while i < a.len() && i < b.len() && a[i] == b[i]
        invariant
            i <= a.len(),
            i <= b.len(),
            forall|j: int| 0 <= j < i ==> a@[j] == b@[j],
        decreases a.len() - i,
    {
        i += 1;
    }
    proof {
        lemma_lex_lt_irreflexive(a@);
    }
    if i == a.len() && i == b.len() {
        assert(a@ =~= b@);
        Order::Same
    } else if i == a.len() {
        assert(lt_at(a@, b@, i as int));
        proof {
            lemma_not_both(a@, b@);
        }
        Order::Before
    } else if i == b.len() {
        assert(lt_at(b@, a@, i as int));
        proof {
            lemma_not_both(b@, a@);
        }
        Order::After
    } else if (a[i] as u32) < (b[i] as u32) {
        assert(lt_at(a@, b@, i as int));
        proof {
            lemma_not_both(a@, b@);
        }
        Order::Before
    } else {
        assert(code(b@[i as int]) < code(a@[i as int])) by {
            lemma_code_injective(a@[i as int], b@[i as int]);
        }
        assert(lt_at(b@, a@, i as int));
        proof {
            lemma_not_both(b@, a@);
        }
        Order::After
    }
}

/// Different characters have different code points.
pub proof fn lemma_code_injective(x: char, y: char)
    ensures
        code(x) == code(y) ==> x == y,
{
    if code(x) == code(y) {
        assert(x as u32 == y as u32);
        assert((x as u32) as char == x);
        assert((y as u32) as char == y);
    }
}

/// If `a` comes before `b`, the two differ and `b` does not come before `a`.
pub proof fn lemma_not_both(a: Seq<char>, b: Seq<char>)
    requires
        lex_lt(a, b),
    ensures
        a != b,
        !lex_lt(b, a),
{
    lemma_lex_lt_irreflexive(a);
    if lex_lt(b, a) {
        lemma_lex_lt_transitive(a, b, a);
    }
}

/// Whether `a` and `b` are the same text.
pub fn same_text(a: &str, b: &str) -> (r: bool)
    ensures
        r == (a@ == b@),
{
    compare(&chars_of(a), &chars_of(b)) == Order::Same
}

/// The characters of `s`, in order.
pub fn chars_of(s: &str) -> (out: Vec<char>)
    ensures
        out@ == s@,
{
    let mut out: Vec<char> = Vec::new();
    for c in it: s.chars()
        invariant
            out@ == it.seq().take(it.index() as int),
            it.seq() == s@,
    {
        out.push(c);
    }
    out
}

/// The string made of the characters `v`.
pub fn string_of(v: &Vec<char>) -> (out: String)
    ensures
        out@ == v@,
{
    let mut out = String::new();
    let mut i: usize = 0;
    while i < v.len()
        invariant
            i <= v.len(),
            out@ == v@.take(i as int),
        decreases v.len() - i,
    {
        out.push(v[i]);
        i += 1;
    }
    out
}

} // verus!
