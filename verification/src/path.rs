//! Turning a file-system style path into the form the storage layer expects.
use vstd::prelude::*;

use crate::text::{chars_of, string_of};

verus! {

/// The character that separates path components in the storage layer.
pub open spec fn is_slash(c: char) -> bool {
    c == '/'
}

/// A path that starts with the separator.
pub open spec fn starts_with_slash(s: Seq<char>) -> bool {
    s.len() > 0 && s[0] == '/'
}

/// A path that ends with the separator.
pub open spec fn ends_with_slash(s: Seq<char>) -> bool {
    s.len() > 0 && s.last() == '/'
}

/// Every backslash turned into a forward slash.
pub open spec fn backslashes_to_slashes(s: Seq<char>) -> Seq<char> {
    s.map_values(|c: char| if c == '\\' { '/' } else { c })
}

/// The path anchored at the root: a leading separator is added when missing.
pub open spec fn rooted(p: Seq<char>) -> Seq<char> {
    if starts_with_slash(p) {
        p
    } else {
        seq!['/'] + p
    }
}

/// The rooted path with its trailing separator fixed: a directory gets one,
/// a file loses one.
pub open spec fn with_suffix(r: Seq<char>, is_dir: bool) -> Seq<char> {
    if is_dir && !ends_with_slash(r) {
        r.push('/')
    } else if !is_dir && ends_with_slash(r) {
        r.drop_last()
    } else {
        r
    }
}

/// The storage-layer form of path `p`: rooted, with the trailing separator
/// set by `is_dir`, and with backslashes replaced by forward slashes.
pub open spec fn storage_path(p: Seq<char>, is_dir: bool) -> Seq<char> {
    backslashes_to_slashes(with_suffix(rooted(p), is_dir))
}

/// Converts a path into the string form used by the storage layer.
///
/// A `/` is put in front when missing; a directory path then gets a trailing
/// `/` when it has none, and a file path loses one trailing `/`; last, every
/// `\` becomes `/`.
pub fn path_to_str(p: &str, is_dir: bool) -> (r: String)
    ensures
        r@ == storage_path(p@, is_dir),
{
    let chars = chars_of(p);
    let mut buf: Vec<char> = Vec::new();
    let starts = chars.len() > 0 && chars[0] == '/';
    if !starts {
        buf.push('/');
    }
    let n = chars.len();
    for i in 0..n
        invariant
            n == chars@.len(),
            chars@ == p@,
            starts == starts_with_slash(p@),
            buf@ == rooted(p@).take(buf@.len() as int),
            buf@.len() == i + (if starts { 0int } else { 1int }),
    {
        buf.push(chars[i]);
        assert(buf@ == rooted(p@).take(buf@.len() as int));
    }
    assert(buf@ == rooted(p@));
    let ends = buf[buf.len() - 1] == '/';
    if is_dir && !ends {
        buf.push('/');
    } else if !is_dir && ends {
        buf.pop();
    }
    assert(buf@ == with_suffix(rooted(p@), is_dir));
    let ghost suffixed = buf@;
    let m = buf.len();
    for i in 0..m
        invariant
            m == buf@.len(),
            buf@.len() == suffixed.len(),
            forall|j: int| 0 <= j < i ==> buf@[j] == backslashes_to_slashes(suffixed)[j],
            forall|j: int| i <= j < m ==> buf@[j] == suffixed[j],
    {
        if buf[i] == '\\' {
            buf.set(i, '/');
        }
    }
    assert(buf@ == backslashes_to_slashes(suffixed));
    string_of(&buf)
}


/// Directory paths are rooted and end with the separator: the storage form
/// of any path taken as a directory is non-empty, starts with `/` and ends
/// with `/`.
pub proof fn lemma_dir_path_shape(p: Seq<char>)
    ensures
        starts_with_slash(storage_path(p, true)),
        ends_with_slash(storage_path(p, true)),
{
    let s = with_suffix(rooted(p), true);
    assert(s.len() > 0);
    assert(s[0] == '/');
    assert(s.last() == '/');
}

/// The storage form never holds a backslash.
pub proof fn lemma_no_backslash(p: Seq<char>, is_dir: bool)
    ensures
        forall|i: int|
            0 <= i < storage_path(p, is_dir).len() ==> storage_path(p, is_dir)[i] != '\\',
{
}

/// The directory form of a path is its file form followed by one separator.
pub proof fn lemma_dir_is_file_plus_slash(p: Seq<char>)
    ensures
        storage_path(p, true) == storage_path(p, false).push('/'),
{
    let r = rooted(p);
    if ends_with_slash(r) {
        assert(r == r.drop_last().push('/'));
    }
    assert(backslashes_to_slashes(with_suffix(r, true)) =~= backslashes_to_slashes(
        with_suffix(r, false),
    ).push('/'));
}

/// Normalising a directory path a second time changes nothing.
pub proof fn lemma_dir_path_idempotent(p: Seq<char>)
    ensures
        storage_path(storage_path(p, true), true) == storage_path(p, true),
{
    let s = storage_path(p, true);
    lemma_dir_path_shape(p);
    lemma_no_backslash(p, true);
    assert(rooted(s) == s);
    assert(with_suffix(s, true) == s);
    assert(backslashes_to_slashes(s) =~= s);
}

/// A file path whose storage form does not end with a separator is left as
/// it is by a second normalisation.  (A file path whose last character is a
/// backslash keeps a trailing `/`, and a second pass then removes it.)
pub proof fn lemma_file_path_idempotent(p: Seq<char>)
    requires
        !ends_with_slash(storage_path(p, false)),
    ensures
        storage_path(storage_path(p, false), false) == storage_path(p, false),
{
    let s = storage_path(p, false);
    lemma_no_backslash(p, false);
    if s.len() > 0 {
        assert(s[0] == '/');
        assert(rooted(s) == s);
    } else {
        assert(rooted(s) =~= seq!['/']);
        assert(with_suffix(rooted(s), false) =~= Seq::<char>::empty());
    }
    assert(backslashes_to_slashes(with_suffix(rooted(s), false)) =~= s);
}

/// Only the ends change: the storage form is the path with a `/` put in
/// front when it does not start with one, each `\` read as `/`, and at most
/// one character added or dropped at the end.  Every character of the path
/// keeps its place (shifted by the added `/`), except a dropped last one.
pub proof fn lemma_path_keeps_characters(p: Seq<char>, is_dir: bool)
    ensures
        ({
            let off: int = if p.len() > 0 && p[0] == '/' { 0 } else { 1 };
            let s = storage_path(p, is_dir);
            &&& p.len() + off - 1 <= s.len() <= p.len() + off + 1
            &&& s.len() > 0 ==> s[0] == '/'
            &&& forall|j: int|
                0 <= j < p.len() && j + off < s.len() ==> #[trigger] s[j + off] == (if p[j]
                    == '\\' {
                    '/'
                } else {
                    p[j]
                })
        }),
{
    let off: int = if p.len() > 0 && p[0] == '/' { 0 } else { 1 };
    let r = rooted(p);
    let w = with_suffix(r, is_dir);
    let s = storage_path(p, is_dir);
    assert forall|j: int| 0 <= j < p.len() && j + off < s.len() implies #[trigger] s[j + off] == (
    if p[j] == '\\' {
        '/'
    } else {
        p[j]
    }) by {
        assert(r[j + off] == p[j]);
        assert(w[j + off] == r[j + off]);
    }
}

} // verus!
