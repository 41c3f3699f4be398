//! Character-level text model shared by the rest of the library.
//!
//! Strings are specified through their `Seq<char>` views. The ASCII case
//! mappings and the Unicode `White_Space` property are small enough to be
//! written out here; the full Unicode case mappings are named results of the
//! standard library (`lowercase_of`, `uppercase_of`).
use vstd::prelude::*;

verus! {

// ---------------------------------------------------------------------------
// Character classes
// ---------------------------------------------------------------------------

pub open spec fn is_ascii_upper(c: char) -> bool {
    'A' <= c && c <= 'Z'
}

pub open spec fn is_ascii_lower(c: char) -> bool {
    'a' <= c && c <= 'z'
}

pub open spec fn is_ascii_alpha(c: char) -> bool {
    is_ascii_upper(c) || is_ascii_lower(c)
}

pub open spec fn is_ascii_digit(c: char) -> bool {
    '0' <= c && c <= '9'
}

/// `char::is_whitespace`: the Unicode `White_Space` property.
pub open spec fn is_whitespace(c: char) -> bool {
    ||| ('\u{9}' <= c && c <= '\u{d}')
    ||| c == ' '
    ||| c == '\u{85}'
    ||| c == '\u{a0}'
    ||| c == '\u{1680}'
    ||| ('\u{2000}' <= c && c <= '\u{200a}')
    ||| c == '\u{2028}'
    ||| c == '\u{2029}'
    ||| c == '\u{202f}'
    ||| c == '\u{205f}'
    ||| c == '\u{3000}'
}

/// `char::to_ascii_lowercase`.
pub open spec fn lower_char(c: char) -> char {
    if is_ascii_upper(c) {
        ((c as u32) + 32) as char
    } else {
        c
    }
}

/// `char::to_ascii_uppercase`.
pub open spec fn upper_char(c: char) -> char {
    if is_ascii_lower(c) {
        ((c as u32) - 32) as char
    } else {
        c
    }
}

/// `str::to_ascii_lowercase`.
pub open spec fn ascii_lower(s: Seq<char>) -> Seq<char> {
    s.map_values(|c: char| lower_char(c))
}

/// `str::to_ascii_uppercase`.
pub open spec fn ascii_upper(s: Seq<char>) -> Seq<char> {
    s.map_values(|c: char| upper_char(c))
}

/// `str::eq_ignore_ascii_case`.
pub open spec fn eq_ignore_ascii_case(a: Seq<char>, b: Seq<char>) -> bool {
    ascii_lower(a) == ascii_lower(b)
}

/// Upper-casing ASCII letters does not change a text up to ASCII case.
pub proof fn lemma_upper_is_same_ignoring_case(s: Seq<char>)
    ensures
        eq_ignore_ascii_case(s, ascii_upper(s)),
{
    assert forall|i: int| 0 <= i < s.len() implies #[trigger] ascii_lower(ascii_upper(s))[i]
        == ascii_lower(s)[i] by {
        let c = s[i];
        if is_ascii_lower(c) {
            let u = ((c as u32) - 32) as char;
            assert(u as u32 == (c as u32) - 32);
            assert(is_ascii_upper(u));
            assert(((u as u32) + 32) as char == c);
        }
    }
    assert(ascii_lower(ascii_upper(s)) =~= ascii_lower(s));
}

// ---------------------------------------------------------------------------
// Substrings
// ---------------------------------------------------------------------------

/// `p` occurs in `s` starting at index `i`.
pub open spec fn occurs_at(s: Seq<char>, p: Seq<char>, i: int) -> bool {
    0 <= i && i + p.len() <= s.len() && s.subrange(i, i + p.len()) == p
}

/// `str::contains` with a string pattern.
pub open spec fn contains(s: Seq<char>, p: Seq<char>) -> bool {
    exists|i: int| occurs_at(s, p, i)
}

/// `str::contains` with a character pattern.
pub open spec fn has_char(s: Seq<char>, c: char) -> bool {
    exists|i: int| 0 <= i < s.len() && s[i] == c
}

/// Index of the first occurrence of a character, or the length when absent.
pub open spec fn first_index_of(s: Seq<char>, c: char) -> int
    decreases s.len(),
{
    if s.len() == 0 {
        0
    } else if s[0] == c {
        0
    } else {
        1 + first_index_of(s.drop_first(), c)
    }
}

// ---------------------------------------------------------------------------
// Trimming
// ---------------------------------------------------------------------------

/// `str::trim_start`.
pub open spec fn trim_start(s: Seq<char>) -> Seq<char>
    decreases s.len(),
{
    if s.len() > 0 && is_whitespace(s[0]) {
        trim_start(s.drop_first())
    } else {
        s
    }
}

/// `str::trim_end`.
pub open spec fn trim_end(s: Seq<char>) -> Seq<char>
    decreases s.len(),
{
    if s.len() > 0 && is_whitespace(s.last()) {
        trim_end(s.drop_last())
    } else {
        s
    }
}

/// `str::trim`.
pub open spec fn trim(s: Seq<char>) -> Seq<char> {
    trim_end(trim_start(s))
}

/// `trim_end` keeps a start of the text.
pub proof fn lemma_trim_end_is_prefix(s: Seq<char>)
    ensures
        trim_end(s).is_prefix_of(s),
        trim_end(s).len() > 0 ==> !is_whitespace(trim_end(s).last()),
    decreases s.len(),
{
    if s.len() > 0 && is_whitespace(s.last()) {
        lemma_trim_end_is_prefix(s.drop_last());
    }
}

/// `trim_start` keeps an end of the text.
pub proof fn lemma_trim_start_is_suffix(s: Seq<char>)
    ensures
        trim_start(s).is_suffix_of(s),
        trim_start(s).len() > 0 ==> !is_whitespace(trim_start(s)[0]),
    decreases s.len(),
{
    if s.len() > 0 && is_whitespace(s[0]) {
        lemma_trim_start_is_suffix(s.drop_first());
        let t = trim_start(s.drop_first());
        assert forall|i: int| 0 <= i < t.len() implies t[i] == s[s.len() - t.len() + i] by {
            assert(t[i] == s.drop_first()[s.drop_first().len() - t.len() + i]);
        }
    }
}

/// A trimmed text neither starts nor ends with white space, and holds only
/// characters of the text it was trimmed from.
pub proof fn lemma_trim_facts(s: Seq<char>)
    ensures
        trim(s).len() > 0 ==> !is_whitespace(trim(s)[0]) && !is_whitespace(trim(s).last()),
        forall|c: char| has_char(trim(s), c) ==> has_char(s, c),
{
    let a = trim_start(s);
    lemma_trim_start_is_suffix(s);
    lemma_trim_end_is_prefix(a);
    let t = trim_end(a);
    if t.len() > 0 {
        assert(t[0] == a[0]);
    }
    assert forall|c: char| has_char(t, c) implies has_char(s, c) by {
        let i = choose|i: int| 0 <= i < t.len() && t[i] == c;
        assert(a[i] == c);
        assert(s[s.len() - a.len() + i] == c);
    }
}

/// Replacing puts in only characters of the text or of the replacement.
pub proof fn lemma_replace_chars(s: Seq<char>, from: Seq<char>, to: Seq<char>, c: char)
    requires
        has_char(replace(s, from, to), c),
    ensures
        has_char(s, c) || has_char(to, c),
    decreases s.len(),
{
    let r = replace(s, from, to);
    let i = choose|i: int| 0 <= i < r.len() && r[i] == c;
    if s.len() == 0 {
    } else if from.len() > 0 && from.is_prefix_of(s) {
        let rest = s.subrange(from.len() as int, s.len() as int);
        if i < to.len() {
            assert(to[i] == c);
        } else {
            assert(replace(rest, from, to)[i - to.len()] == c);
            lemma_replace_chars(rest, from, to, c);
            if has_char(rest, c) {
                let j = choose|j: int| 0 <= j < rest.len() && rest[j] == c;
                assert(s[j + from.len()] == c);
            }
        }
    } else {
        let rest = s.drop_first();
        if i == 0 {
            assert(s[0] == c);
        } else {
            assert(replace(rest, from, to)[i - 1] == c);
            lemma_replace_chars(rest, from, to, c);
            if has_char(rest, c) {
                let j = choose|j: int| 0 <= j < rest.len() && rest[j] == c;
                assert(s[j + 1] == c);
            }
        }
    }
}

/// `str::trim_start_matches` with a character pattern.
pub open spec fn trim_start_char(s: Seq<char>, c: char) -> Seq<char>
    decreases s.len(),
{
    if s.len() > 0 && s[0] == c {
        trim_start_char(s.drop_first(), c)
    } else {
        s
    }
}

/// `str::trim_end_matches` with a character pattern.
pub open spec fn trim_end_char(s: Seq<char>, c: char) -> Seq<char>
    decreases s.len(),
{
    if s.len() > 0 && s.last() == c {
        trim_end_char(s.drop_last(), c)
    } else {
        s
    }
}

// ---------------------------------------------------------------------------
// Executable helpers
// ---------------------------------------------------------------------------

/// The characters of a string slice.
pub fn chars_of(s: &str) -> (v: Vec<char>)
    ensures
        v@ == s@,
{
    let n = s.unicode_len();
    let mut v: Vec<char> = Vec::new();
    let mut i: usize = 0;
    while i < n
        invariant
            n == s@.len(),
            i <= n,
            v@ == s@.subrange(0, i as int),
        decreases n - i,
    {
        v.push(s.get_char(i));
        i = i + 1;
    }
    v
}

/// `String::push`.
#[verifier::external_body]
pub(crate) fn push_char(s: &mut String, c: char)
    ensures
        final(s)@ == old(s)@.push(c),
{
    s.push(c);
}

/// A `String` holding exactly the given characters.
pub fn string_of(v: &Vec<char>) -> (s: String)
    ensures
        s@ == v@,
{
    let mut s = String::new();
    let mut i: usize = 0;
    while i < v.len()
        invariant
            i <= v.len(),
            s@ == v@.subrange(0, i as int),
        decreases v.len() - i,
    {
        push_char(&mut s, v[i]);
        i = i + 1;
    }
    s
}

/// `char::to_ascii_lowercase`.
pub fn to_lower_char(c: char) -> (r: char)
    ensures
        r == lower_char(c),
{
    if 'A' <= c && c <= 'Z' {
        let code: u32 = c as u32;
        proof {
            assert(code + 32 < 0xd800);
        }
        char_from_ascii_code(code + 32)
    } else {
        c
    }
}

/// `char::to_ascii_uppercase`.
pub fn to_upper_char(c: char) -> (r: char)
    ensures
        r == upper_char(c),
{
    if 'a' <= c && c <= 'z' {
        let code: u32 = c as u32;
        char_from_ascii_code(code - 32)
    } else {
        c
    }
}

/// The character with an ASCII code point.
fn char_from_ascii_code(code: u32) -> (c: char)
    requires
        code < 128,
    ensures
        c == code as char,
        c as u32 == code,
{
    let b: u8 = code as u8;
    b as char
}

pub fn is_whitespace_char(c: char) -> (r: bool)
    ensures
        r == is_whitespace(c),
{
    ('\u{9}' <= c && c <= '\u{d}') || c == ' ' || c == '\u{85}' || c == '\u{a0}' || c
        == '\u{1680}' || ('\u{2000}' <= c && c <= '\u{200a}') || c == '\u{2028}' || c
        == '\u{2029}' || c == '\u{202f}' || c == '\u{205f}' || c == '\u{3000}'
}

/// `str::to_ascii_lowercase` on characters.
pub fn ascii_lowercase(v: &Vec<char>) -> (r: Vec<char>)
    ensures
        r@ == ascii_lower(v@),
{
    let mut r: Vec<char> = Vec::new();
    let mut i: usize = 0;
    while i < v.len()
        invariant
            i <= v.len(),
            r@ == ascii_lower(v@.subrange(0, i as int)),
        decreases v.len() - i,
    {
        r.push(to_lower_char(v[i]));
        proof {
            assert(v@.subrange(0, i + 1) == v@.subrange(0, i as int).push(v@[i as int]));
        }
        i = i + 1;
    }
    proof {
        assert(v@.subrange(0, v@.len() as int) == v@);
    }
    r
}

/// A copy of `v[from..to]`.
pub fn slice_chars(v: &Vec<char>, from: usize, to: usize) -> (r: Vec<char>)
    requires
        from <= to <= v.len(),
    ensures
        r@ == v@.subrange(from as int, to as int),
{
    let mut r: Vec<char> = Vec::new();
    let mut i: usize = from;
    while i < to
        invariant
            from <= i <= to <= v.len(),
            r@ == v@.subrange(from as int, i as int),
        decreases to - i,
    {
        r.push(v[i]);
        proof {
            assert(v@.subrange(from as int, i + 1) == v@.subrange(from as int, i as int).push(
                v@[i as int],
            ));
        }
        i = i + 1;
    }
    r
}

/// Index where `trim_start` begins within `v[from..to]`.
fn trim_start_in(v: &Vec<char>, from: usize, to: usize) -> (i: usize)
    requires
        from <= to <= v.len(),
    ensures
        from <= i <= to,
        trim_start(v@.subrange(from as int, to as int)) == v@.subrange(i as int, to as int),
{
    let mut i = from;
    while i < to && is_whitespace_char(v[i])
        invariant
            from <= i <= to <= v.len(),
            trim_start(v@.subrange(from as int, to as int)) == trim_start(
                v@.subrange(i as int, to as int),
            ),
        decreases to - i,
    {
        proof {
            let s = v@.subrange(i as int, to as int);
            assert(s.drop_first() == v@.subrange(i + 1, to as int));
        }
        i = i + 1;
    }
    i
}

/// Index where `trim_end` stops within `v[from..to]`.
fn trim_end_in(v: &Vec<char>, from: usize, to: usize) -> (j: usize)
    requires
        from <= to <= v.len(),
    ensures
        from <= j <= to,
        trim_end(v@.subrange(from as int, to as int)) == v@.subrange(from as int, j as int),
{
    let mut j = to;
    while j > from && is_whitespace_char(v[j - 1])
        invariant
            from <= j <= to <= v.len(),
            trim_end(v@.subrange(from as int, to as int)) == trim_end(
                v@.subrange(from as int, j as int),
            ),
        decreases j - from,
    {
        proof {
            let s = v@.subrange(from as int, j as int);
            assert(s.drop_last() == v@.subrange(from as int, j - 1));
        }
        j = j - 1;
    }
    j
}

/// `str::trim` on characters.
pub fn trimmed(v: &Vec<char>) -> (r: Vec<char>)
    ensures
        r@ == trim(v@),
{
    let n = v.len();
    let i = trim_start_in(v, 0, n);
    let j = trim_end_in(v, i, n);
    proof {
        assert(v@.subrange(0, n as int) == v@);
    }
    slice_chars(v, i, j)
}

/// `str::trim_start_matches` with a character pattern.
pub fn trimmed_start_char(v: &Vec<char>, c: char) -> (r: Vec<char>)
    ensures
        r@ == trim_start_char(v@, c),
{
    let n = v.len();
    let mut i: usize = 0;
    proof {
        assert(v@.subrange(0, n as int) == v@);
    }
    while i < n && v[i] == c
        invariant
            i <= n == v.len(),
            trim_start_char(v@, c) == trim_start_char(v@.subrange(i as int, n as int), c),
        decreases n - i,
    {
        proof {
            let s = v@.subrange(i as int, n as int);
            assert(s.drop_first() == v@.subrange(i + 1, n as int));
        }
        i = i + 1;
    }
    proof {
        assert(v@.subrange(0, n as int) == v@);
    }
    slice_chars(v, i, n)
}

/// `str::trim_end_matches` with a character pattern.
pub fn trimmed_end_char(v: &Vec<char>, c: char) -> (r: Vec<char>)
    ensures
        r@ == trim_end_char(v@, c),
{
    let n = v.len();
    let mut j: usize = n;
    proof {
        assert(v@.subrange(0, n as int) == v@);
    }
    while j > 0 && v[j - 1] == c
        invariant
            j <= n == v.len(),
            trim_end_char(v@, c) == trim_end_char(v@.subrange(0, j as int), c),
        decreases j,
    {
        proof {
            let s = v@.subrange(0, j as int);
            assert(s.drop_last() == v@.subrange(0, j - 1));
        }
        j = j - 1;
    }
    proof {
        assert(v@.subrange(0, n as int) == v@);
    }
    slice_chars(v, 0, j)
}

/// Whether `p` occurs in `v` at index `i`.
pub fn occurs_at_exec(v: &Vec<char>, p: &Vec<char>, i: usize) -> (r: bool)
    ensures
        r == occurs_at(v@, p@, i as int),
{
    if i > v.len() || p.len() > v.len() - i {
        return false;
    }
    let mut k: usize = 0;
    while k < p.len()
        invariant
            i + p.len() <= v.len(),
            k <= p.len(),
            forall|m: int| 0 <= m < k ==> v@[i + m] == p@[m],
        decreases p.len() - k,
    {
        if v[i + k] != p[k] {
            proof {
                assert(v@.subrange(i as int, i + p.len())[k as int] != p@[k as int]);
            }
            return false;
        }
        k = k + 1;
    }
    proof {
        assert(v@.subrange(i as int, i + p.len()) =~= p@);
    }
    true
}

/// `str::contains` with a string pattern.
pub fn contains_chars(v: &Vec<char>, p: &Vec<char>) -> (r: bool)
    ensures
        r == contains(v@, p@),
{
    if p.len() > v.len() {
        return false;
    }
    let last = v.len() - p.len();
    let mut i: usize = 0;
    loop
        invariant
            last + p.len() == v.len(),
            i <= last,
            forall|k: int| 0 <= k < i ==> !occurs_at(v@, p@, k),
        decreases last - i,
    {
        if occurs_at_exec(v, p, i) {
            return true;
        }
        if i == last {
            proof {
                assert forall|k: int| #![auto] occurs_at(v@, p@, k) implies false by {
                    assert(k <= last);
                }
            }
            return false;
        }
        i = i + 1;
    }
}

/// `str::contains` with a literal pattern.
pub fn contains_str(v: &Vec<char>, p: &str) -> (r: bool)
    ensures
        r == contains(v@, p@),
{
    let pv = chars_of(p);
    contains_chars(v, &pv)
}

/// `str::starts_with` with a literal pattern.
pub fn starts_with_str(v: &Vec<char>, p: &str) -> (r: bool)
    ensures
        r == p@.is_prefix_of(v@),
{
    let pv = chars_of(p);
    let r = occurs_at_exec(v, &pv, 0);
    proof {
        if r {
            assert(v@.subrange(0, pv@.len() as int) == pv@);
        }
        if p@.is_prefix_of(v@) {
            assert(v@.subrange(0, pv@.len() as int) =~= pv@);
        }
    }
    r
}

/// `str::ends_with` with a literal pattern.
pub fn ends_with_str(v: &Vec<char>, p: &str) -> (r: bool)
    ensures
        r == p@.is_suffix_of(v@),
{
    let pv = chars_of(p);
    if pv.len() > v.len() {
        return false;
    }
    let r = occurs_at_exec(v, &pv, v.len() - pv.len());
    proof {
        let st = v@.len() - pv@.len();
        if p@.is_suffix_of(v@) {
            assert(v@.subrange(st, st + pv@.len()) =~= pv@);
        }
    }
    r
}

/// Equality of a character sequence with a literal.
pub fn eq_str(v: &Vec<char>, p: &str) -> (r: bool)
    ensures
        r == (v@ == p@),
{
    let pv = chars_of(p);
    if pv.len() != v.len() {
        return false;
    }
    let r = occurs_at_exec(v, &pv, 0);
    proof {
        assert(v@.subrange(0, v@.len() as int) == v@);
    }
    r
}

/// `str::eq_ignore_ascii_case`.
pub fn eq_ignore_case(a: &Vec<char>, b: &Vec<char>) -> (r: bool)
    ensures
        r == eq_ignore_ascii_case(a@, b@),
{
    if a.len() != b.len() {
        proof {
            assert(ascii_lower(a@).len() != ascii_lower(b@).len());
        }
        return false;
    }
    let mut i: usize = 0;
    while i < a.len()
        invariant
            a.len() == b.len(),
            i <= a.len(),
            forall|k: int| 0 <= k < i ==> lower_char(a@[k]) == lower_char(b@[k]),
        decreases a.len() - i,
    {
        if to_lower_char(a[i]) != to_lower_char(b[i]) {
            proof {
                assert(ascii_lower(a@)[i as int] != ascii_lower(b@)[i as int]);
            }
            return false;
        }
        i = i + 1;
    }
    proof {
        assert(ascii_lower(a@) =~= ascii_lower(b@));
    }
    true
}

/// `str::eq_ignore_ascii_case` against a literal.
pub fn eq_ignore_case_str(a: &Vec<char>, b: &str) -> (r: bool)
    ensures
        r == eq_ignore_ascii_case(a@, b@),
{
    let bv = chars_of(b);
    eq_ignore_case(a, &bv)
}

/// Concatenation of two character sequences.
pub fn concat(a: &Vec<char>, b: &Vec<char>) -> (r: Vec<char>)
    ensures
        r@ == a@ + b@,
{
    let mut r = slice_chars(a, 0, a.len());
    let mut i: usize = 0;
    proof {
        assert(a@.subrange(0, a@.len() as int) == a@);
    }
    while i < b.len()
        invariant
            i <= b.len(),
            r@ == a@ + b@.subrange(0, i as int),
        decreases b.len() - i,
    {
        r.push(b[i]);
        proof {
            assert(b@.subrange(0, i + 1) == b@.subrange(0, i as int).push(b@[i as int]));
            assert(a@ + b@.subrange(0, i + 1) == (a@ + b@.subrange(0, i as int)).push(
                b@[i as int],
            ));
        }
        i = i + 1;
    }
    proof {
        assert(b@.subrange(0, b@.len() as int) == b@);
    }
    r
}

/// Concatenation with a literal.
pub fn concat_str(a: &Vec<char>, b: &str) -> (r: Vec<char>)
    ensures
        r@ == a@ + b@,
{
    let bv = chars_of(b);
    concat(a, &bv)
}

// ---------------------------------------------------------------------------
// Splitting
// ---------------------------------------------------------------------------

pub proof fn lemma_first_index_bounds(s: Seq<char>, c: char)
    ensures
        0 <= first_index_of(s, c) <= s.len(),
        first_index_of(s, c) < s.len() ==> s[first_index_of(s, c)] == c,
        forall|k: int| 0 <= k < first_index_of(s, c) ==> s[k] != c,
    decreases s.len(),
{
    if s.len() > 0 && s[0] != c {
        lemma_first_index_bounds(s.drop_first(), c);
        assert forall|k: int| 0 <= k < first_index_of(s, c) implies s[k] != c by {
            if k > 0 {
                assert(s[k] == s.drop_first()[k - 1]);
            }
        }
    }
}

/// `str::split` with a character separator: the pieces between separators.
pub open spec fn split_char(s: Seq<char>, c: char) -> Seq<Seq<char>>
    decreases s.len(),
{
    let i = first_index_of(s, c);
    if 0 <= i < s.len() {
        seq![s.subrange(0, i)] + split_char(s.subrange(i + 1, s.len() as int), c)
    } else {
        seq![s]
    }
}

/// Index of the first occurrence of `c` in `v[from..]`, or `v.len()`.
pub fn find_char_from(v: &Vec<char>, c: char, from: usize) -> (r: usize)
    requires
        from <= v.len(),
    ensures
        from + first_index_of(v@.subrange(from as int, v@.len() as int), c) == r,
        r <= v.len(),
{
    let mut i = from;
    proof {
        lemma_first_index_bounds(v@.subrange(from as int, v@.len() as int), c);
    }
    while i < v.len() && v[i] != c
        invariant
            from <= i <= v.len(),
            first_index_of(v@.subrange(from as int, v@.len() as int), c) == (i - from)
                + first_index_of(v@.subrange(i as int, v@.len() as int), c),
        decreases v.len() - i,
    {
        proof {
            let t = v@.subrange(i as int, v@.len() as int);
            assert(t.drop_first() == v@.subrange(i + 1, v@.len() as int));
        }
        i = i + 1;
    }
    i
}

/// `str::split` with a character separator.
pub fn split_chars(v: &Vec<char>, c: char) -> (r: Vec<Vec<char>>)
    ensures
        r@.len() == split_char(v@, c).len(),
        forall|k: int| 0 <= k < r@.len() ==> #[trigger] r@[k]@ == split_char(v@, c)[k],
{
    let mut r: Vec<Vec<char>> = Vec::new();
    let mut start: usize = 0;
    let ghost whole = split_char(v@, c);
    proof {
        assert(v@.subrange(0, v@.len() as int) == v@);
    }
    loop
        invariant
            start <= v.len(),
            whole == split_char(v@, c),
            r@.len() + split_char(v@.subrange(start as int, v@.len() as int), c).len()
                == whole.len(),
            forall|k: int| 0 <= k < r@.len() ==> #[trigger] r@[k]@ == whole[k],
            forall|k: int|
                0 <= k < split_char(v@.subrange(start as int, v@.len() as int), c).len()
                    ==> #[trigger] split_char(v@.subrange(start as int, v@.len() as int), c)[k]
                    == whole[r@.len() + k],
        decreases v.len() - start,
    {
        let ghost rest = v@.subrange(start as int, v@.len() as int);
        let i = find_char_from(v, c, start);
        proof {
            lemma_first_index_bounds(rest, c);
        }
        let piece = slice_chars(v, start, i);
        proof {
            assert(piece@ == rest.subrange(0, i - start));
        }
        if i == v.len() {
            r.push(piece);
            proof {
                assert(split_char(rest, c) == seq![rest]);
                assert(rest.subrange(0, i - start) == rest);
                assert forall|k: int| 0 <= k < r@.len() implies #[trigger] r@[k]@ == whole[k] by {
                    if k == r@.len() - 1 {
                        assert(split_char(rest, c)[0] == whole[r@.len() - 1 + 0]);
                    }
                }
            }
            return r;
        }
        r.push(piece);
        proof {
            let tail = rest.subrange(i - start + 1, rest.len() as int);
            assert(tail == v@.subrange(i + 1, v@.len() as int));
            assert(split_char(rest, c) == seq![rest.subrange(0, i - start)] + split_char(tail, c));
            assert forall|k: int| 0 <= k < r@.len() implies #[trigger] r@[k]@ == whole[k] by {
                if k == r@.len() - 1 {
                    assert(split_char(rest, c)[0] == whole[r@.len() - 1 + 0]);
                }
            }
            assert forall|k: int| 0 <= k < split_char(tail, c).len() implies #[trigger] split_char(
                tail,
                c,
            )[k] == whole[r@.len() + k] by {
                assert(split_char(rest, c)[k + 1] == whole[r@.len() - 1 + (k + 1)]);
            }
        }
        start = i + 1;
    }
}

// ---------------------------------------------------------------------------
// Decimal numbers
// ---------------------------------------------------------------------------

pub open spec fn digit_char(d: nat) -> char {
    ((d + 48) as u32) as char
}

/// Decimal digits of a natural number, as `Display` writes them.
pub open spec fn decimal(n: nat) -> Seq<char>
    decreases n,
{
    if n < 10 {
        seq![digit_char(n)]
    } else {
        decimal(n / 10).push(digit_char(n % 10))
    }
}

/// `Display` of a signed integer.
pub open spec fn signed_decimal(n: int) -> Seq<char> {
    if n < 0 {
        seq!['-'] + decimal((-n) as nat)
    } else {
        decimal(n as nat)
    }
}

/// Value of a run of ASCII digits.
pub open spec fn digits_value(s: Seq<char>) -> nat
    decreases s.len(),
{
    if s.len() == 0 {
        0
    } else {
        digits_value(s.drop_last()) * 10 + ((s.last() as u32) - 48) as nat
    }
}

pub open spec fn all_digits(s: Seq<char>) -> bool {
    forall|i: int| 0 <= i < s.len() ==> is_ascii_digit(#[trigger] s[i])
}

/// `<u64 as FromStr>::from_str`: an optional `+`, then at least one ASCII
/// digit, with a value that fits in 64 bits.
pub open spec fn parse_u64(s: Seq<char>) -> Option<u64> {
    let d = if s.len() > 0 && s[0] == '+' {
        s.drop_first()
    } else {
        s
    };
    if d.len() > 0 && all_digits(d) && digits_value(d) <= u64::MAX {
        Some(digits_value(d) as u64)
    } else {
        None
    }
}

fn digit_of(d: u64) -> (c: char)
    requires
        d < 10,
    ensures
        c == digit_char(d as nat),
{
    char_from_ascii_code((d + 48) as u32)
}

/// Decimal digits of an unsigned integer.
pub fn decimal_chars(n: u64) -> (r: Vec<char>)
    ensures
        r@ == decimal(n as nat),
    decreases n,
{
    if n < 10 {
        let mut r: Vec<char> = Vec::new();
        r.push(digit_of(n));
        proof {
            assert(r@ =~= seq![digit_char(n as nat)]);
        }
        r
    } else {
        let mut r = decimal_chars(n / 10);
        r.push(digit_of(n % 10));
        r
    }
}

/// `Display` of a signed 64-bit integer.
pub fn signed_decimal_chars(n: i64) -> (r: Vec<char>)
    ensures
        r@ == signed_decimal(n as int),
{
    if n < 0 {
        let magnitude: u64 = (0i128 - (n as i128)) as u64;
        let digits = decimal_chars(magnitude);
        let mut r: Vec<char> = Vec::new();
        r.push('-');
        let r2 = concat(&r, &digits);
        proof {
            assert(r@ =~= seq!['-']);
        }
        r2
    } else {
        decimal_chars(n as u64)
    }
}

proof fn lemma_digits_value_prefix(s: Seq<char>, i: int)
    requires
        0 <= i <= s.len(),
    ensures
        digits_value(s.subrange(0, i)) <= digits_value(s),
    decreases s.len() - i,
{
    if i < s.len() {
        lemma_digits_value_prefix(s, i + 1);
        assert(s.subrange(0, i + 1).drop_last() == s.subrange(0, i));
    } else {
        assert(s.subrange(0, i) == s);
    }
}

/// `str::parse::<u64>`.
pub fn parse_u64_chars(s: &Vec<char>) -> (r: Option<u64>)
    ensures
        r == parse_u64(s@),
{
    let start: usize = if s.len() > 0 && s[0] == '+' {
        1
    } else {
        0
    };
    let ghost d = if s@.len() > 0 && s@[0] == '+' {
        s@.drop_first()
    } else {
        s@
    };
    proof {
        assert(d == s@.subrange(start as int, s@.len() as int));
    }
    if start == s.len() {
        return None;
    }
    let mut acc: u64 = 0;
    let mut i: usize = start;
    while i < s.len()
        invariant
            start <= i <= s.len(),
            d == s@.subrange(start as int, s@.len() as int),
            d.len() > 0,
            parse_u64(s@) == (if all_digits(d) && digits_value(d) <= u64::MAX {
                Some(digits_value(d) as u64)
            } else {
                None
            }),
            acc as nat == digits_value(d.subrange(0, i - start)),
            all_digits(d.subrange(0, i - start)),
        decreases s.len() - i,
    {
        let c = s[i];
        let ghost prefix = d.subrange(0, i + 1 - start);
        proof {
            assert(prefix.drop_last() == d.subrange(0, i - start));
            assert(prefix.last() == c);
        }
        if !('0' <= c && c <= '9') {
            proof {
                assert(!is_ascii_digit(d[i - start]));
                assert(!all_digits(d));
            }
            return None;
        }
        let digit: u64 = (c as u32 - 48) as u64;
        if acc > (u64::MAX - digit) / 10 {
            proof {
                let a = acc as int;
                let g = digit as int;
                assert(a * 10 + g > u64::MAX) by (nonlinear_arith)
                    requires
                        a > (u64::MAX - g) / 10,
                        0 <= g < 10,
                ;
                assert(digits_value(prefix) == digits_value(prefix.drop_last()) * 10 + ((
                prefix.last() as u32) - 48) as nat);
                assert(digits_value(prefix) > u64::MAX);
                lemma_digits_value_prefix(d, i + 1 - start);
            }
            return None;
        }
        acc = acc * 10 + digit;
        proof {
            assert forall|k: int| 0 <= k < prefix.len() implies is_ascii_digit(#[trigger] prefix[k]) by {
                if k < prefix.len() - 1 {
                    assert(prefix[k] == d.subrange(0, i - start)[k]);
                }
            }
        }
        i = i + 1;
    }
    proof {
        assert(d.subrange(0, d.len() as int) == d);
    }
    Some(acc)
}

// ---------------------------------------------------------------------------
// Unicode case mapping (standard library)
// ---------------------------------------------------------------------------

/// What `str::to_lowercase` returns: the full Unicode lower-case mapping.
pub uninterp spec fn lowercase_of(s: Seq<char>) -> Seq<char>;

/// What `str::to_uppercase` returns: the full Unicode upper-case mapping.
pub uninterp spec fn uppercase_of(s: Seq<char>) -> Seq<char>;

/// Every character is ASCII.
pub open spec fn is_ascii_text(s: Seq<char>) -> bool {
    forall|i: int| 0 <= i < s.len() ==> (s[i] as u32) < 128
}

/// `str::to_lowercase`.
///
/// Trusted: the result depends on the characters of `s` alone; the mapping
/// itself (Unicode tables) is not written out, except that ASCII text maps as
/// `to_ascii_lowercase` does (ASCII letters to their lower case, other ASCII
/// characters unchanged).
#[verifier::external_body]
pub(crate) fn to_lowercase(s: &str) -> (r: String)
    ensures
        r@ == lowercase_of(s@),
        is_ascii_text(s@) ==> r@ == ascii_lower(s@),
{
    s.to_lowercase()
}

/// `str::to_uppercase`.
///
/// Trusted: the result depends on the characters of `s` alone; the mapping
/// itself (Unicode tables) is not written out, except that ASCII text maps as
/// `to_ascii_uppercase` does (ASCII letters to their upper case, other ASCII
/// characters unchanged).
#[verifier::external_body]
pub(crate) fn to_uppercase(s: &str) -> (r: String)
    ensures
        r@ == uppercase_of(s@),
        is_ascii_text(s@) ==> r@ == ascii_upper(s@),
{
    s.to_uppercase()
}

/// `str::to_lowercase` on characters.
pub fn lowercase_chars(v: &Vec<char>) -> (r: Vec<char>)
    ensures
        r@ == lowercase_of(v@),
        is_ascii_text(v@) ==> r@ == ascii_lower(v@),
{
    let s = string_of(v);
    let l = to_lowercase(s.as_str());
    chars_of(l.as_str())
}

// ---------------------------------------------------------------------------
// Searching sequences
// ---------------------------------------------------------------------------

/// Index of the first element satisfying `p`, or the length when none does.
pub open spec fn first_where<T>(s: Seq<T>, p: spec_fn(T) -> bool) -> int
    decreases s.len(),
{
    if s.len() == 0 {
        0
    } else if p(s[0]) {
        0
    } else {
        1 + first_where(s.drop_first(), p)
    }
}

pub proof fn lemma_first_where<T>(s: Seq<T>, p: spec_fn(T) -> bool)
    ensures
        0 <= first_where(s, p) <= s.len(),
        first_where(s, p) < s.len() ==> p(s[first_where(s, p)]),
        forall|k: int| 0 <= k < first_where(s, p) ==> !p(#[trigger] s[k]),
    decreases s.len(),
{
    if s.len() > 0 && !p(s[0]) {
        lemma_first_where(s.drop_first(), p);
        assert forall|k: int| 0 <= k < first_where(s, p) implies !p(#[trigger] s[k]) by {
            if k > 0 {
                assert(s[k] == s.drop_first()[k - 1]);
            }
        }
    }
}

/// `first_where` is the unique index with `p` there and nowhere before.
pub proof fn lemma_first_where_unique<T>(s: Seq<T>, p: spec_fn(T) -> bool, i: int)
    requires
        0 <= i <= s.len(),
        i < s.len() ==> p(s[i]),
        forall|k: int| 0 <= k < i ==> !p(#[trigger] s[k]),
    ensures
        first_where(s, p) == i,
    decreases s.len(),
{
    if s.len() > 0 && i > 0 {
        assert(!p(s[0]));
        assert forall|k: int| 0 <= k < i - 1 implies !p(#[trigger] s.drop_first()[k]) by {
            assert(s.drop_first()[k] == s[k + 1]);
        }
        lemma_first_where_unique(s.drop_first(), p, i - 1);
    }
}

// ---------------------------------------------------------------------------
// Replacing
// ---------------------------------------------------------------------------

/// Non-overlapping occurrences of a non-empty `from`, scanned from the left,
/// are replaced by `to`, as `str::replace` does; an empty `from` leaves the
/// text as it is (where `str::replace` would put `to` between characters).
pub open spec fn replace(s: Seq<char>, from: Seq<char>, to: Seq<char>) -> Seq<char>
    decreases s.len(),
{
    if s.len() == 0 {
        seq![]
    } else if from.len() > 0 && from.is_prefix_of(s) {
        to + replace(s.subrange(from.len() as int, s.len() as int), from, to)
    } else {
        seq![s[0]] + replace(s.drop_first(), from, to)
    }
}

/// Replaces each occurrence of a non-empty literal pattern, as `str::replace`
/// does; an empty pattern leaves the text unchanged.
pub fn replace_str(v: &Vec<char>, from: &str, to: &str) -> (r: Vec<char>)
    ensures
        r@ == replace(v@, from@, to@),
{
    let f = chars_of(from);
    let t = chars_of(to);
    let n = v.len();
    let mut out: Vec<char> = Vec::new();
    let mut i: usize = 0;
    proof {
        assert(v@.subrange(0, n as int) == v@);
    }
    while i < n
        invariant
            i <= n == v.len(),
            f@ == from@,
            t@ == to@,
            replace(v@, f@, t@) == out@ + replace(v@.subrange(i as int, n as int), f@, t@),
        decreases n - i,
    {
        let ghost sub = v@.subrange(i as int, n as int);
        if f.len() > 0 && occurs_at_exec(v, &f, i) {
            proof {
                assert(sub.subrange(0, f@.len() as int) == v@.subrange(i as int, i + f@.len()));
                assert(f@.is_prefix_of(sub));
                assert(sub.subrange(f@.len() as int, sub.len() as int) == v@.subrange(
                    i + f@.len(),
                    n as int,
                ));
                assert(out@ + (t@ + replace(v@.subrange(i + f@.len(), n as int), f@, t@))
                    == (out@ + t@) + replace(v@.subrange(i + f@.len(), n as int), f@, t@));
            }
            out = concat(&out, &t);
            i = i + f.len();
        } else {
            proof {
                if f@.len() > 0 && f@.is_prefix_of(sub) {
                    assert(sub.subrange(0, f@.len() as int) == v@.subrange(
                        i as int,
                        i + f@.len(),
                    ));
                    assert(occurs_at(v@, f@, i as int));
                }
                assert(sub.drop_first() == v@.subrange(i + 1, n as int));
                assert(out@ + (seq![v@[i as int]] + replace(v@.subrange(i + 1, n as int), f@, t@))
                    == out@.push(v@[i as int]) + replace(v@.subrange(i + 1, n as int), f@, t@));
            }
            out.push(v[i]);
            i = i + 1;
        }
    }
    proof {
        assert(out@ + Seq::<char>::empty() == out@);
    }
    out
}

} // verus!
