//! Release version parsing and ordering used by the updater.
//!
//! A version such as `v0.0.4.2` or `0.0.5-alpha1` becomes a tuple
//! `(major, minor, patch, hotfix, stable)`; tuples are ordered
//! lexicographically with `false < true`, so a stable release is newer than a
//! pre-release with the same numbers.
use vstd::prelude::*;
use crate::text::{
    chars_of, find_char_from, first_index_of, lemma_first_index_bounds, parse_u64, parse_u64_chars,
    slice_chars, split_char, split_chars, trim, trim_end, trim_start, trim_start_char, trimmed,
    trimmed_start_char, is_whitespace,
};

verus! {

pub type VersionTuple = (u64, u64, u64, u64, bool);

/// The text before the first `-`, after trimming whitespace and leading `v`s.
pub open spec fn version_text(v: Seq<char>) -> Seq<char> {
    trim_start_char(trim(v), 'v')
}

/// What `version_tuple` returns for a version string.
pub open spec fn version_tuple_of(v: Seq<char>) -> Option<VersionTuple> {
    let t = version_text(v);
    let dash = first_index_of(t, '-');
    let core = t.subrange(0, dash);
    let stable = dash >= t.len();
    let parts = split_char(core, '.');
    if parts.len() >= 3 && parse_u64(parts[0]) is Some && parse_u64(parts[1]) is Some
        && parse_u64(parts[2]) is Some {
        let fourth = if parts.len() >= 4 {
            parse_u64(parts[3])
        } else {
            Some(0u64)
        };
        match fourth {
            Some(d) => Some(
                (
                    parse_u64(parts[0]).unwrap(),
                    parse_u64(parts[1]).unwrap(),
                    parse_u64(parts[2]).unwrap(),
                    d,
                    stable,
                ),
            ),
            None => None,
        }
    } else {
        None
    }
}

/// Lexicographic `<` on version tuples, with `false < true` for the flag.
pub open spec fn version_lt(a: VersionTuple, b: VersionTuple) -> bool {
    if a.0 != b.0 {
        a.0 < b.0
    } else if a.1 != b.1 {
        a.1 < b.1
    } else if a.2 != b.2 {
        a.2 < b.2
    } else if a.3 != b.3 {
        a.3 < b.3
    } else {
        !a.4 && b.4
    }
}

/// Parses a version such as `v1.2.3`, `1.2.3.4` or `1.2.3-beta`.
///
/// Returns `None` when fewer than three numeric components precede the first
/// `-`, or when one of the first four components is not a `u64`.
pub fn version_tuple(version: &str) -> (r: Option<VersionTuple>)
    ensures
        r == version_tuple_of(version@),
{
    let chars = chars_of(version);
    let trimmed_chars = trimmed(&chars);
    let t = trimmed_start_char(&trimmed_chars, 'v');
    let dash = find_char_from(&t, '-', 0);
    proof {
        assert(t@.subrange(0, t@.len() as int) == t@);
        lemma_first_index_bounds(t@, '-');
    }
    let core = slice_chars(&t, 0, dash);
    let stable = dash == t.len();
    let parts = split_chars(&core, '.');
    if parts.len() < 3 {
        return None;
    }
    let a = match parse_u64_chars(&parts[0]) {
        Some(x) => x,
        None => return None,
    };
    let b = match parse_u64_chars(&parts[1]) {
        Some(x) => x,
        None => return None,
    };
    let c = match parse_u64_chars(&parts[2]) {
        Some(x) => x,
        None => return None,
    };
    let d = if parts.len() >= 4 {
        match parse_u64_chars(&parts[3]) {
            Some(x) => x,
            None => return None,
        }
    } else {
        0
    };
    Some((a, b, c, d, stable))
}

/// Whether `remote` is a newer release than `current` (that is, not `<=`).
pub fn is_newer_version(remote: VersionTuple, current: VersionTuple) -> (r: bool)
    ensures
        r == version_lt(current, remote),
{
    if current.0 != remote.0 {
        current.0 < remote.0
    } else if current.1 != remote.1 {
        current.1 < remote.1
    } else if current.2 != remote.2 {
        current.2 < remote.2
    } else if current.3 != remote.3 {
        current.3 < remote.3
    } else {
        !current.4 && remote.4
    }
}

// ---------------------------------------------------------------------------
// Laws
// ---------------------------------------------------------------------------

/// A stable release is newer than a pre-release with the same numbers.
pub proof fn stable_release_is_newer_than_prerelease(a: u64, b: u64, c: u64, d: u64)
    ensures
        version_lt((a, b, c, d, false), (a, b, c, d, true)),
        !version_lt((a, b, c, d, true), (a, b, c, d, false)),
{
}

/// "Newer than" is a strict order: irreflexive, asymmetric and transitive.
pub proof fn newer_is_a_strict_order(x: VersionTuple, y: VersionTuple, z: VersionTuple)
    ensures
        !version_lt(x, x),
        version_lt(x, y) ==> !version_lt(y, x),
        version_lt(x, y) && version_lt(y, z) ==> version_lt(x, z),
{
}

/// Two different versions are always ordered one way or the other.
pub proof fn versions_are_totally_ordered(x: VersionTuple, y: VersionTuple)
    ensures
        x == y || version_lt(x, y) || version_lt(y, x),
{
}

/// Versions compare component by component, major first: the first
/// component that differs decides, and with equal numbers a stable release is
/// newer than a pre-release.
pub proof fn newer_compares_major_first(a: VersionTuple, b: VersionTuple)
    ensures
        a.0 < b.0 ==> version_lt(a, b),
        a.0 == b.0 && a.1 < b.1 ==> version_lt(a, b),
        a.0 == b.0 && a.1 == b.1 && a.2 < b.2 ==> version_lt(a, b),
        a.0 == b.0 && a.1 == b.1 && a.2 == b.2 && a.3 < b.3 ==> version_lt(a, b),
        a.0 == b.0 && a.1 == b.1 && a.2 == b.2 && a.3 == b.3 ==> (version_lt(a, b) <==> (!a.4
            && b.4)),
{
}

proof fn lemma_trim_end_prepend(c: char, s: Seq<char>)
    requires
        !is_whitespace(c),
    ensures
        trim_end(seq![c] + s) == seq![c] + trim_end(s),
    decreases s.len(),
{
    if s.len() > 0 && is_whitespace(s.last()) {
        assert((seq![c] + s).drop_last() == seq![c] + s.drop_last());
        lemma_trim_end_prepend(c, s.drop_last());
    } else {
        assert((seq![c] + s).last() == if s.len() > 0 {
            s.last()
        } else {
            c
        });
    }
}

/// A leading `v` (as in release tags such as `v0.0.5`) does not change the
/// parsed version.
pub proof fn leading_v_is_ignored(s: Seq<char>)
    requires
        s.len() == 0 || !is_whitespace(s[0]),
    ensures
        version_tuple_of(seq!['v'] + s) == version_tuple_of(s),
{
    let vs = seq!['v'] + s;
    assert(trim_start(vs) == vs);
    assert(trim_start(s) == s);
    lemma_trim_end_prepend('v', s);
    let te = trim_end(s);
    assert((seq!['v'] + te).drop_first() == te);
    assert(trim_start_char(seq!['v'] + te, 'v') == trim_start_char(te, 'v'));
    assert(version_text(vs) == version_text(s));
}

} // verus!
