//! Path components, as the standard library splits a path.
//!
//! How a path splits into parent, stem and extension depends on the target
//! platform (its separators and prefixes), so the results are not given names
//! here: the functions that use them take the components as arguments and are
//! verified for every value. Only of a bare file name — a path with no
//! separator or drive colon of any platform — is the split the same
//! everywhere, and there the documented rules for stems and extensions are
//! stated.
use vstd::prelude::*;
use crate::text::has_char;

verus! {

/// A path that is a single file name on every platform: not empty, `.` or
/// `..`, and without a slash, a backslash or a colon.
pub open spec fn is_bare_name(p: Seq<char>) -> bool {
    &&& p.len() > 0
    &&& p != "."@
    &&& p != ".."@
    &&& !has_char(p, '/')
    &&& !has_char(p, '\\')
    &&& !has_char(p, ':')
}

/// The index of the last `/` of a text, or -1 when it has none.
pub open spec fn last_slash(s: Seq<char>) -> int
    decreases s.len(),
{
    if s.len() == 0 {
        -1
    } else if s.last() == '/' {
        s.len() - 1
    } else {
        last_slash(s.drop_last())
    }
}

/// The text after the last `/` (all of it when there is none).
pub open spec fn file_name_of(p: Seq<char>) -> Seq<char> {
    p.subrange(last_slash(p) + 1, p.len() as int)
}

/// A path that every platform splits at its `/` alone: no backslash, no
/// colon (so no drive or other prefix), not starting with `//` (so no
/// network share), and ending in a bare file name.
pub open spec fn is_simple_path(p: Seq<char>) -> bool {
    &&& !has_char(p, '\\')
    &&& !has_char(p, ':')
    &&& !"//"@.is_prefix_of(p)
    &&& is_bare_name(file_name_of(p))
}

/// A separator on some platform: `/`, or a backslash on Windows.
pub open spec fn is_any_separator(c: char) -> bool {
    c == '/' || c == '\\'
}

/// The index of the last `/` or backslash of a text, or -1 when it has none.
pub open spec fn last_separator(s: Seq<char>) -> int
    decreases s.len(),
{
    if s.len() == 0 {
        -1
    } else if is_any_separator(s.last()) {
        s.len() - 1
    } else {
        last_separator(s.drop_last())
    }
}

/// Where the final component starts when a path is split as Windows splits
/// it: after the last separator, or after a drive such as `C:`.
pub open spec fn windows_name_start(p: Seq<char>) -> int {
    if last_separator(p) >= 0 {
        last_separator(p) + 1
    } else if p.len() >= 2 && p[1] == ':' {
        2
    } else {
        0
    }
}

/// A path that ends in a file name on every platform: not empty, not ending
/// in a separator, a colon or a dot, not starting with two separators (a
/// network share or a device), and with no colon but a drive's (`C:`).
pub open spec fn ends_in_file_name(p: Seq<char>) -> bool {
    &&& p.len() > 0
    &&& !is_any_separator(p.last())
    &&& p.last() != ':'
    &&& p.last() != '.'
    &&& !(p.len() >= 2 && is_any_separator(p[0]) && is_any_separator(p[1]))
    &&& forall|i: int|
        0 <= i < p.len() && #[trigger] p[i] == ':' ==> i == 1 && (('a' <= p[0] && p[0] <= 'z') || (
        'A' <= p[0] && p[0] <= 'Z'))
}

/// `d` is the folder of `p` whose final component starts at `start`: a start
/// of `p` followed, up to `start`, by nothing but separators and the `.`
/// components that `Path::parent` drops.
pub open spec fn is_folder_of(d: Seq<char>, p: Seq<char>, start: int) -> bool {
    &&& d.is_prefix_of(p)
    &&& d.len() <= start <= p.len()
    &&& forall|i: int| d.len() <= i < start ==> is_any_separator(#[trigger] p[i]) || p[i] == '.'
}

/// A path with a verbatim prefix (`\\?\`), which Windows rebuilds when
/// a part is adjoined.
pub open spec fn is_verbatim(p: Seq<char>) -> bool {
    seq!['\\', '\\', '?', '\\'].is_prefix_of(p)
}

/// `d` is a proper prefix of `p`.
pub open spec fn is_proper_prefix(d: Seq<char>, p: Seq<char>) -> bool {
    d.len() < p.len() && d.is_prefix_of(p)
}

/// `r` is `base` with `part` adjoined: directly, or after one `/` or one
/// backslash, as the platform's separator and the end of `base` decide.
pub open spec fn is_join_of(base: Seq<char>, part: Seq<char>, r: Seq<char>) -> bool {
    ||| r == base + part
    ||| r == base + seq!['/'] + part
    ||| r == base + seq!['\\'] + part
}

/// The file name of a simple path has no separators, nor has its stem.
pub proof fn lemma_stem_of_simple_path(p: Seq<char>)
    requires
        is_simple_path(p),
    ensures
        has_no_separator(stem_of_name(file_name_of(p))),
{
    lemma_stem_of_bare_name(file_name_of(p));
}

/// A text without a backslash has no verbatim prefix.
pub proof fn lemma_no_backslash_not_verbatim(p: Seq<char>)
    requires
        !has_char(p, '\\'),
    ensures
        !is_verbatim(p),
{
    if is_verbatim(p) {
        assert(p[0] == '\\');
    }
}

/// A prefix of a text without a backslash has none either.
pub proof fn lemma_prefix_no_backslash(d: Seq<char>, p: Seq<char>)
    requires
        d.is_prefix_of(p),
        !has_char(p, '\\'),
    ensures
        !has_char(d, '\\'),
{
    if has_char(d, '\\') {
        let i = choose|i: int| 0 <= i < d.len() && d[i] == '\\';
        assert(p[i] == '\\');
    }
}

/// The index of the last `.` of a text, or -1 when it has none.
pub open spec fn last_dot(s: Seq<char>) -> int
    decreases s.len(),
{
    if s.len() == 0 {
        -1
    } else if s.last() == '.' {
        s.len() - 1
    } else {
        last_dot(s.drop_last())
    }
}

/// `Path::file_stem` of a file name: all of it when it has no `.` after its
/// first character, else the part before the last `.`.
pub open spec fn stem_of_name(name: Seq<char>) -> Seq<char> {
    let k = last_dot(name);
    if k <= 0 {
        name
    } else {
        name.subrange(0, k)
    }
}

/// `Path::extension` of a file name: none when it has no `.` after its
/// first character, else the part after the last `.`.
pub open spec fn extension_of_name(name: Seq<char>) -> Option<Seq<char>> {
    let k = last_dot(name);
    if k <= 0 {
        None
    } else {
        Some(name.subrange(k + 1, name.len() as int))
    }
}

/// No separator or drive colon of any platform.
pub open spec fn has_no_separator(s: Seq<char>) -> bool {
    &&& !has_char(s, '/')
    &&& !has_char(s, '\\')
    &&& !has_char(s, ':')
}

/// Joining texts without separators gives a text without separators.
pub proof fn lemma_no_separator_concat(a: Seq<char>, b: Seq<char>)
    requires
        has_no_separator(a),
        has_no_separator(b),
    ensures
        has_no_separator(a + b),
{
    assert forall|c: char| #[trigger] has_char(a + b, c) implies has_char(a, c) || has_char(b, c) by {
        let i = choose|i: int| 0 <= i < (a + b).len() && (a + b)[i] == c;
        if i < a.len() {
            assert(a[i] == c);
        } else {
            assert(b[i - a.len()] == c);
        }
    }
}

/// A part of a text without separators has none either.
pub proof fn lemma_no_separator_subrange(s: Seq<char>, i: int, j: int)
    requires
        has_no_separator(s),
        0 <= i <= j <= s.len(),
    ensures
        has_no_separator(s.subrange(i, j)),
{
    assert forall|c: char| #[trigger] has_char(s.subrange(i, j), c) implies has_char(s, c) by {
        let k = choose|k: int| 0 <= k < j - i && s.subrange(i, j)[k] == c;
        assert(s[i + k] == c);
    }
}

/// The stem of a bare file name has no separator.
pub proof fn lemma_stem_of_bare_name(name: Seq<char>)
    requires
        is_bare_name(name),
    ensures
        has_no_separator(stem_of_name(name)),
{
    lemma_last_dot_bounds(name);
    let k = last_dot(name);
    if k > 0 {
        lemma_no_separator_subrange(name, 0, k);
    }
}

proof fn lemma_last_dot_bounds(s: Seq<char>)
    ensures
        -1 <= last_dot(s) < s.len(),
    decreases s.len(),
{
    if s.len() > 0 && s.last() != '.' {
        lemma_last_dot_bounds(s.drop_last());
    }
}

pub open spec fn opt_text_of(o: Option<String>) -> Option<Seq<char>> {
    match o {
        Some(s) => Some(s@),
        None => None,
    }
}

/// `Path::extension`, as text.
///
/// Trusted: an extension is the part of the file name after its final `.`,
/// so it never contains a `.`; for a simple path (whose file name is the text
/// after its last `/` on every platform) it follows the documented rule
/// (`extension_of_name`). Nothing more is stated for other paths.
#[verifier::external_body]
pub(crate) fn path_extension(path: &str) -> (r: Option<String>)
    ensures
        r matches Some(e) ==> !has_char(e@, '.'),
        is_simple_path(path@) ==> opt_text_of(r) == extension_of_name(file_name_of(path@)),
{
    match std::path::Path::new(path).extension() {
        Some(e) => Some(e.to_string_lossy().into_owned()),
        None => None,
    }
}

/// `Path::file_stem`, as text.
///
/// Trusted: for a simple path, the documented rule (`stem_of_name`) applied
/// to its file name. Nothing is stated for other paths: it depends on the
/// platform's separators and prefixes.
#[verifier::external_body]
pub(crate) fn path_file_stem(path: &str) -> (r: Option<String>)
    ensures
        is_simple_path(path@) ==> opt_text_of(r) == Some(stem_of_name(file_name_of(path@))),
{
    match std::path::Path::new(path).file_stem() {
        Some(s) => Some(s.to_string_lossy().into_owned()),
        None => None,
    }
}

/// `Path::file_name`, as text.
///
/// Trusted: the file name is the final component; for a simple path that is
/// the text after its last `/`. Nothing is stated for other paths: it
/// depends on the platform's separators and prefixes.
#[verifier::external_body]
pub(crate) fn path_file_name(path: &str) -> (r: Option<String>)
    ensures
        is_simple_path(path@) ==> opt_text_of(r) == Some(file_name_of(path@)),
{
    match std::path::Path::new(path).file_name() {
        Some(s) => Some(s.to_string_lossy().into_owned()),
        None => None,
    }
}

/// `Path::parent`, as text.
///
/// Trusted: the parent is the path without its final component (and the
/// separators and `.` components before it), so a shorter start of it; a
/// bare file name has the empty path as its parent (as the documentation's
/// example of `foo` shows). A path that ends in a file name, rather than in a
/// root or a prefix, has a parent. For a simple path the final component
/// starts after the last `/`; for other paths ending in a file name it
/// starts there on Unix and where `windows_name_start` says on Windows, so
/// one of the two holds.
#[verifier::external_body]
pub(crate) fn path_parent(path: &str) -> (r: Option<String>)
    ensures
        is_bare_name(path@) ==> opt_text_of(r) == Some(Seq::<char>::empty()),
        is_simple_path(path@) ==> r is Some,
        ends_in_file_name(path@) ==> r is Some,
        r matches Some(d) ==> (is_simple_path(path@) ==> is_folder_of(d@, path@, last_slash(path@) + 1)),
        r matches Some(d) ==> (ends_in_file_name(path@) ==> is_folder_of(d@, path@, last_slash(path@) + 1) || is_folder_of(d@, path@, windows_name_start(path@))),
        r matches Some(d) ==> is_proper_prefix(d@, path@),
{
    match std::path::Path::new(path).parent() {
        Some(p) => Some(p.to_string_lossy().into_owned()),
        None => None,
    }
}

/// `Path::join`, as text.
///
/// Trusted: a bare file name is relative, so it is adjoined at the end and the
/// result ends with it; unless the base has a verbatim prefix (which Windows
/// normalises), the result is the base, at most one separator (`/` or a
/// backslash, as the platform and the base's end decide) and the name.
/// Nothing is stated of parts that are not bare names.
#[verifier::external_body]
pub(crate) fn path_join(base: &str, part: &str) -> (r: String)
    ensures
        is_bare_name(part@) ==> part@.is_suffix_of(r@),
        is_bare_name(part@) && !is_verbatim(base@) ==> is_join_of(base@, part@, r@),
{
    std::path::Path::new(base).join(part).to_string_lossy().into_owned()
}

} // verus!
