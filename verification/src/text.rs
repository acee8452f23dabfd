//! Small string helpers shared by the other modules.
use vstd::prelude::*;

verus! {

/// Appends one character to a string (`String::push`).
#[verifier::external_body]
pub(crate) fn push_char(s: &mut String, c: char)
    ensures
        final(s)@ == old(s)@.push(c),
{
    s.push(c);
}

/// The characters of `s`, in order.
pub fn chars_of(s: &str) -> (out: Vec<char>)
    ensures
        out@ == s@,
{
    let mut out: Vec<char> = Vec::new();
    for c in it: s.chars()
        invariant
            out@ == it.seq().take(it.index() as int),
            it.seq() == s@,
    {
        out.push(c);
    }
    out
}

/// A string holding exactly the characters of `v`.
pub fn string_of(v: &Vec<char>) -> (out: String)
    ensures
        out@ == v@,
{
    let mut out = String::new();
    let n = v.len();
    for i in 0..n
        invariant
            n == v@.len(),
            out@ == v@.take(i as int),
    {
        push_char(&mut out, v[i]);
        assert(v@.take(i + 1) == v@.take(i as int).push(v@[i as int]));
    }
    assert(v@.take(n as int) == v@);
    out
}

} // verus!

verus! {

/// Unicode `White_Space` characters, the ones `char::is_whitespace` accepts.
pub open spec fn white_space(c: char) -> bool {
    ||| ('\u{9}' <= c && c <= '\u{d}')
    ||| c == ' '
    ||| c == '\u{85}'
    ||| c == '\u{a0}'
    ||| c == '\u{1680}'
    ||| ('\u{2000}' <= c && c <= '\u{200a}')
    ||| c == '\u{2028}'
    ||| c == '\u{2029}'
    ||| c == '\u{202f}'
    ||| c == '\u{205f}'
    ||| c == '\u{3000}'
}

/// Whether `c` is a Unicode white-space character.
pub fn is_white_space(c: char) -> (b: bool)
    ensures
        b == white_space(c),
{
    ('\u{9}' <= c && c <= '\u{d}') || c == ' ' || c == '\u{85}' || c == '\u{a0}' || c
        == '\u{1680}' || ('\u{2000}' <= c && c <= '\u{200a}') || c == '\u{2028}' || c
        == '\u{2029}' || c == '\u{202f}' || c == '\u{205f}' || c == '\u{3000}'
}

/// The index of the first character at or after `i` that is not white space.
pub open spec fn leading_end(s: Seq<char>, i: int) -> int
    decreases s.len() - i,
{
    if 0 <= i < s.len() && white_space(s[i]) {
        leading_end(s, i + 1)
    } else {
        i
    }
}

/// The end of `s` once the white space in `lo..j` at its end is dropped.
pub open spec fn trailing_start(s: Seq<char>, lo: int, j: int) -> int
    decreases j,
{
    if 0 <= lo < j <= s.len() && white_space(s[j - 1]) {
        trailing_start(s, lo, j - 1)
    } else {
        j
    }
}

/// `s` without its leading and trailing white space.
pub open spec fn trim(s: Seq<char>) -> Seq<char> {
    let a = leading_end(s, 0);
    s.subrange(a, trailing_start(s, a, s.len() as int))
}

/// The characters of `v` in `lo..hi`, without leading and trailing white
/// space.
pub fn trimmed_range(v: &Vec<char>, lo: usize, hi: usize) -> (out: Vec<char>)
    requires
        lo <= hi <= v@.len(),
    ensures
        out@ == trim(v@.subrange(lo as int, hi as int)),
{
    let ghost s = v@.subrange(lo as int, hi as int);
    let mut a = lo;
    while a < hi && is_white_space(v[a])
        invariant
            lo <= a <= hi <= v@.len(),
            s == v@.subrange(lo as int, hi as int),
            leading_end(s, 0) == leading_end(s, a - lo),
        decreases hi - a,
    {
        assert(s[a - lo] == v@[a as int]);
        a = a + 1;
    }
    assert(a < hi ==> s[a - lo] == v@[a as int]);
    assert(leading_end(s, 0) == a - lo);
    let mut b = hi;
    while b > a && is_white_space(v[b - 1])
        invariant
            lo <= a <= b <= hi <= v@.len(),
            s == v@.subrange(lo as int, hi as int),
            leading_end(s, 0) == a - lo,
            trailing_start(s, a - lo, s.len() as int) == trailing_start(s, a - lo, b - lo),
        decreases b,
    {
        assert(s[b - lo - 1] == v@[b - 1]);
        b = b - 1;
    }
    assert(b > a ==> s[b - lo - 1] == v@[b - 1]);
    assert(trailing_start(s, a - lo, s.len() as int) == b - lo);
    let mut out: Vec<char> = Vec::new();
    let mut k = a;
    while k < b
        invariant
            lo <= a <= k <= b <= hi <= v@.len(),
            out@ == v@.subrange(a as int, k as int),
        decreases b - k,
    {
        out.push(v[k]);
        assert(v@.subrange(a as int, k + 1) == v@.subrange(a as int, k as int).push(v@[k as int]));
        k = k + 1;
    }
    assert(out@ == s.subrange(a - lo, b - lo));
    out
}

/// Text made of white space only.
pub open spec fn all_white_space(s: Seq<char>) -> bool {
    forall|i: int| 0 <= i < s.len() ==> white_space(#[trigger] s[i])
}

/// Text that neither starts nor ends with white space.
pub open spec fn tight(s: Seq<char>) -> bool {
    s.len() > 0 && !white_space(s[0]) && !white_space(s.last())
}

proof fn lemma_leading_end_skips(s: Seq<char>, i: int, k: int)
    requires
        0 <= i <= k < s.len(),
        forall|j: int| i <= j < k ==> white_space(#[trigger] s[j]),
        !white_space(s[k]),
    ensures
        leading_end(s, i) == k,
    decreases k - i,
{
    if i < k {
        lemma_leading_end_skips(s, i + 1, k);
    }
}

proof fn lemma_trailing_start_skips(s: Seq<char>, lo: int, j: int, k: int)
    requires
        0 <= lo < k <= j <= s.len(),
        forall|m: int| k <= m < j ==> white_space(#[trigger] s[m]),
        !white_space(s[k - 1]),
    ensures
        trailing_start(s, lo, j) == k,
    decreases j - k,
{
    if k < j {
        lemma_trailing_start_skips(s, lo, j - 1, k);
    }
}

/// White space around a text is dropped by `trim`, and nothing else is.
pub proof fn lemma_trim_surrounded(w: Seq<char>, a: Seq<char>, v: Seq<char>)
    requires
        all_white_space(w),
        all_white_space(v),
        tight(a),
    ensures
        trim(w + a + v) == a,
{
    let x = w + a + v;
    let k = w.len() as int;
    let e = k + a.len();
    assert(x[k] == a[0]);
    lemma_leading_end_skips(x, 0, k);
    assert(x[e - 1] == a.last());
    assert forall|m: int| e <= m < x.len() implies white_space(#[trigger] x[m]) by {
        assert(x[m] == v[m - e]);
    }
    lemma_trailing_start_skips(x, k, x.len() as int, e);
    assert(x.subrange(k, e) =~= a);
}

/// Among ASCII characters, white space is exactly the space and the
/// controls tab, line feed, vertical tab, form feed and carriage return; so
/// no digit, letter or punctuation mark is white space.
pub proof fn lemma_ascii_white_space(c: char)
    requires
        c <= '\u{7f}',
    ensures
        white_space(c) <==> (c == ' ' || c == '\t' || c == '\n' || c == '\u{b}' || c == '\u{c}'
            || c == '\r'),
        ('0' <= c <= '9' || 'a' <= c <= 'z' || 'A' <= c <= 'Z') ==> !white_space(c),
{
}

/// What `trim` keeps: a stretch of the text, all that lies before and after
/// it is white space, and it neither starts nor ends with white space (or is
/// empty).
pub proof fn lemma_trim_shape(s: Seq<char>)
    ensures
        exists|a: int, b: int|
            #![trigger s.subrange(a, b)]
            0 <= a <= b <= s.len() && trim(s) == s.subrange(a, b) && (forall|i: int|
                0 <= i < a ==> white_space(#[trigger] s[i])) && (forall|i: int|
                b <= i < s.len() ==> white_space(#[trigger] s[i])) && (a < b ==> !white_space(s[a])
                && !white_space(s[b - 1])),
{
    let a = leading_end(s, 0);
    lemma_leading_end_facts(s, 0);
    let b = trailing_start(s, a, s.len() as int);
    lemma_trailing_start_facts(s, a, s.len() as int);
    assert(0 <= a <= b <= s.len() && trim(s) == s.subrange(a, b));
}

proof fn lemma_leading_end_facts(s: Seq<char>, i: int)
    requires
        0 <= i <= s.len(),
    ensures
        i <= leading_end(s, i) <= s.len(),
        forall|k: int| i <= k < leading_end(s, i) ==> white_space(#[trigger] s[k]),
        leading_end(s, i) < s.len() ==> !white_space(s[leading_end(s, i)]),
    decreases s.len() - i,
{
    if i < s.len() && white_space(s[i]) {
        lemma_leading_end_facts(s, i + 1);
    }
}

proof fn lemma_trailing_start_facts(s: Seq<char>, lo: int, j: int)
    requires
        0 <= lo <= j <= s.len(),
    ensures
        lo <= trailing_start(s, lo, j) <= j,
        forall|k: int| trailing_start(s, lo, j) <= k < j ==> white_space(#[trigger] s[k]),
        lo < trailing_start(s, lo, j) ==> !white_space(s[trailing_start(s, lo, j) - 1]),
    decreases j,
{
    if lo < j && white_space(s[j - 1]) {
        lemma_trailing_start_facts(s, lo, j - 1);
    }
}

} // verus!
