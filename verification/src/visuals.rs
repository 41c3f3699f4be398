//! What the library draws when it has no picture: the letters and colour of
//! a placeholder tile, and the conversion of an executable's icon pixels.
use vstd::prelude::*;
use vstd::string::StringSliceAdditionalSpecFns;
use crate::text::{ascii_upper, is_ascii_text, string_of, to_uppercase, uppercase_of};

verus! {

// ---------------------------------------------------------------------------
// Tile letters
// ---------------------------------------------------------------------------

/// `char::is_alphanumeric`: alphabetic or numeric in Unicode.
pub uninterp spec fn char_is_alphanumeric(c: char) -> bool;

/// `char::is_alphanumeric`.
///
/// Trusted: the result is the Unicode property, named `char_is_alphanumeric`;
/// among ASCII characters exactly the letters and digits have it.
#[verifier::external_body]
fn is_alphanumeric(c: char) -> (r: bool)
    ensures
        r == char_is_alphanumeric(c),
        (c as u32) < 128 ==> (r <==> ('a' <= c <= 'z' || 'A' <= c <= 'Z' || '0' <= c <= '9')),
{
    c.is_alphanumeric()
}

/// A character that belongs to a word: among ASCII characters the letters and
/// digits, elsewhere what `char::is_alphanumeric` says.
pub open spec fn is_word_char(c: char) -> bool {
    if (c as u32) < 128 {
        'a' <= c <= 'z' || 'A' <= c <= 'Z' || '0' <= c <= '9'
    } else {
        char_is_alphanumeric(c)
    }
}

/// Scanning `s` from the left: the words completed so far and the word being
/// read. A word is a maximal run of alphanumeric characters.
pub open spec fn scan_words(s: Seq<char>) -> (Seq<Seq<char>>, Seq<char>)
    decreases s.len(),
{
    if s.len() == 0 {
        (Seq::empty(), Seq::empty())
    } else {
        let (done, current) = scan_words(s.drop_last());
        let c = s.last();
        if is_word_char(c) {
            (done, current.push(c))
        } else if current.len() > 0 {
            (done.push(current), Seq::empty())
        } else {
            (done, Seq::empty())
        }
    }
}

/// The words of `s`, in order.
pub open spec fn words(s: Seq<char>) -> Seq<Seq<char>> {
    let (done, current) = scan_words(s);
    if current.len() > 0 {
        done.push(current)
    } else {
        done
    }
}

pub open spec fn min3(n: int) -> int {
    if n < 3 {
        n
    } else {
        3
    }
}

/// The label before upper-casing: the initials of the first three words when
/// there are several, the first three characters of a single word, or `?`.
pub open spec fn label_text(s: Seq<char>) -> Seq<char> {
    let ws = words(s);
    if ws.len() > 1 {
        Seq::new(min3(ws.len() as int) as nat, |k: int| ws[k][0])
    } else if ws.len() == 1 {
        ws[0].subrange(0, min3(ws[0].len() as int))
    } else {
        "?"@
    }
}

/// The letters on a placeholder tile for a name.
pub open spec fn icon_label_spec(s: Seq<char>) -> Seq<char> {
    uppercase_of(label_text(s))
}

pub open spec fn all_nonempty(ws: Seq<Seq<char>>) -> bool {
    forall|k: int| 0 <= k < ws.len() ==> #[trigger] ws[k].len() > 0
}

proof fn lemma_scan_words_nonempty(s: Seq<char>)
    ensures
        all_nonempty(scan_words(s).0),
        all_nonempty(words(s)),
    decreases s.len(),
{
    if s.len() > 0 {
        lemma_scan_words_nonempty(s.drop_last());
    }
}

pub open spec fn all_ascii(ws: Seq<Seq<char>>) -> bool {
    forall|k: int| 0 <= k < ws.len() ==> is_ascii_text(#[trigger] ws[k])
}

proof fn lemma_scan_words_ascii(s: Seq<char>)
    requires
        is_ascii_text(s),
    ensures
        all_ascii(scan_words(s).0),
        is_ascii_text(scan_words(s).1),
    decreases s.len(),
{
    if s.len() > 0 {
        let t = s.drop_last();
        assert(is_ascii_text(t)) by {
            assert forall|i: int| 0 <= i < t.len() implies (t[i] as u32) < 128 by {
                assert(t[i] == s[i]);
            }
        }
        lemma_scan_words_ascii(t);
        let (done, current) = scan_words(t);
        let c = s.last();
        assert((c as u32) < 128);
        if is_word_char(c) {
            assert forall|i: int| 0 <= i < current.push(c).len() implies (current.push(c)[i] as u32)
                < 128 by {
                if i < current.len() {
                    assert(current.push(c)[i] == current[i]);
                }
            }
        } else if current.len() > 0 {
            assert forall|k: int| 0 <= k < done.push(current).len() implies is_ascii_text(
                #[trigger] done.push(current)[k],
            ) by {
                if k < done.len() {
                    assert(done.push(current)[k] == done[k]);
                }
            }
        }
    }
}

/// The label of an ASCII name is ASCII.
proof fn lemma_label_ascii(s: Seq<char>)
    requires
        is_ascii_text(s),
    ensures
        is_ascii_text(label_text(s)),
{
    reveal_strlit("?");
    lemma_scan_words_ascii(s);
    lemma_scan_words_nonempty(s);
    let (done, current) = scan_words(s);
    let ws = words(s);
    assert(all_ascii(ws)) by {
        if current.len() > 0 {
            assert forall|k: int| 0 <= k < ws.len() implies is_ascii_text(#[trigger] ws[k]) by {
                if k < done.len() {
                    assert(ws[k] == done[k]);
                }
            }
        }
    }
    let l = label_text(s);
    if ws.len() > 1 {
        assert forall|i: int| 0 <= i < l.len() implies (l[i] as u32) < 128 by {
            assert(l[i] == ws[i][0]);
            assert(is_ascii_text(ws[i]));
            assert(ws[i].len() > 0);
        }
    } else if ws.len() == 1 {
        assert(is_ascii_text(ws[0]));
        assert forall|i: int| 0 <= i < l.len() implies (l[i] as u32) < 128 by {
            assert(l[i] == ws[0][i]);
        }
    } else {
        assert(l == "?"@);
    }
}

pub open spec fn words_view(v: Seq<Vec<char>>) -> Seq<Seq<char>> {
    v.map_values(|w: Vec<char>| w@)
}

fn alphanumeric_words(s: &Vec<char>) -> (r: Vec<Vec<char>>)
    ensures
        words_view(r@) == words(s@),
{
    let mut done: Vec<Vec<char>> = Vec::new();
    let mut current: Vec<char> = Vec::new();
    let mut i: usize = 0;
    while i < s.len()
        invariant
            i <= s.len(),
            (words_view(done@), current@) == scan_words(s@.subrange(0, i as int)),
        decreases s.len() - i,
    {
        let c = s[i];
        proof {
            let t = s@.subrange(0, i as int + 1);
            assert(t.drop_last() == s@.subrange(0, i as int));
            assert(t.last() == c);
        }
        if is_alphanumeric(c) {
            current.push(c);
        } else if current.len() > 0 {
            let w = current;
            current = Vec::new();
            done.push(w);
            proof {
                assert(words_view(done@) =~= words_view(old_done(done@)).push(w@));
            }
        } else {
            current = Vec::new();
        }
        i = i + 1;
    }
    proof {
        assert(s@.subrange(0, s@.len() as int) == s@);
    }
    if current.len() > 0 {
        let w = current;
        done.push(w);
        proof {
            assert(words_view(done@) =~= words_view(old_done(done@)).push(w@));
        }
    }
    done
}

/// `v` without its last element (the words before the one just pushed).
spec fn old_done(v: Seq<Vec<char>>) -> Seq<Vec<char>> {
    v.drop_last()
}

/// The letters shown on a placeholder tile: up to three initials of the
/// name's words, or the start of its only word, or `?`, in upper case.
pub fn icon_label(value: &str) -> (r: String)
    ensures
        r@ == icon_label_spec(value@),
        is_ascii_text(value@) ==> r@ == ascii_upper(label_text(value@)),
{
    let n = value.unicode_len();
    let mut chars: Vec<char> = Vec::new();
    let mut j: usize = 0;
    while j < n
        invariant
            j <= n,
            n == value@.len(),
            chars@ == value@.subrange(0, j as int),
        decreases n - j,
    {
        chars.push(value.get_char(j));
        proof {
            assert(value@.subrange(0, j + 1) == value@.subrange(0, j as int).push(value@[j as int]));
        }
        j = j + 1;
    }
    proof {
        assert(value@.subrange(0, n as int) == value@);
        lemma_scan_words_nonempty(value@);
    }
    let ws = alphanumeric_words(&chars);
    assert(words_view(ws@).len() == ws@.len());
    let mut label: Vec<char> = Vec::new();
    if ws.len() > 1 {
        let m: usize = if ws.len() < 3 {
            ws.len()
        } else {
            3
        };
        let mut k: usize = 0;
        while k < m
            invariant
                k <= m,
                m == min3(ws@.len() as int),
                m <= ws@.len(),
                words_view(ws@) == words(value@),
                all_nonempty(words(value@)),
                label@ == Seq::new(k as nat, |x: int| words(value@)[x][0]),
            decreases m - k,
        {
            assert(ws@[k as int]@ == words(value@)[k as int]);
            assert(ws@[k as int]@.len() > 0);
            label.push(ws[k][0]);
            assert(label@ =~= Seq::new((k + 1) as nat, |x: int| words(value@)[x][0]));
            k = k + 1;
        }
    } else if ws.len() == 1 {
        let w = &ws[0];
        let m: usize = if w.len() < 3 {
            w.len()
        } else {
            3
        };
        let mut k: usize = 0;
        while k < m
            invariant
                k <= m,
                m <= w@.len(),
                label@ == w@.subrange(0, k as int),
            decreases m - k,
        {
            label.push(w[k]);
            assert(label@ =~= w@.subrange(0, k as int + 1));
            k = k + 1;
        }
        assert(w@ == words(value@)[0]);
    } else {
        label.push('?');
        proof {
            reveal_strlit("?");
            assert(label@ =~= "?"@);
        }
    }
    proof {
        if is_ascii_text(value@) {
            lemma_label_ascii(value@);
        }
    }
    to_uppercase(string_of(&label).as_str())
}

/// A tile label has one to three characters before it is upper-cased.
pub proof fn tile_labels_are_short(s: Seq<char>)
    ensures
        1 <= label_text(s).len() <= 3,
{
    reveal_strlit("?");
    lemma_scan_words_nonempty(s);
}

// ---------------------------------------------------------------------------
// Tile colours
// ---------------------------------------------------------------------------

/// The hash of a name's UTF-8 bytes: `h * 31 + byte`, wrapping at 256.
pub open spec fn name_hash(bytes: Seq<u8>) -> u8
    decreases bytes.len(),
{
    if bytes.len() == 0 {
        0
    } else {
        ((name_hash(bytes.drop_last()) as int * 31 + bytes.last() as int) % 256) as u8
    }
}

/// The five tile colours, as red, green and blue.
pub open spec fn palette(i: int) -> (u8, u8, u8) {
    if i == 0 {
        (71, 203, 232)
    } else if i == 1 {
        (128, 157, 255)
    } else if i == 2 {
        (191, 157, 255)
    } else if i == 3 {
        (255, 188, 105)
    } else {
        (75, 221, 190)
    }
}

/// The colour of a name's tile: its hash picks one of the five colours.
pub open spec fn accent_spec(name: &str) -> (u8, u8, u8) {
    palette(name_hash(name.spec_bytes()) as int % 5)
}

/// The colour of the placeholder tile for a name.
pub fn accent_for_name(name: &str) -> (r: (u8, u8, u8))
    ensures
        r == accent_spec(name),
{
    let bytes = name.as_bytes();
    let mut h: u8 = 0;
    let mut i: usize = 0;
    while i < bytes.len()
        invariant
            i <= bytes@.len(),
            bytes@ == name.spec_bytes(),
            h == name_hash(bytes@.subrange(0, i as int)),
        decreases bytes.len() - i,
    {
        proof {
            let t = bytes@.subrange(0, i as int + 1);
            assert(t.drop_last() == bytes@.subrange(0, i as int));
        }
        h = ((h as u32 * 31 + bytes[i] as u32) % 256) as u8;
        i = i + 1;
    }
    proof {
        assert(bytes@.subrange(0, bytes@.len() as int) == bytes@);
    }
    let k = h % 5;
    if k == 0 {
        (71, 203, 232)
    } else if k == 1 {
        (128, 157, 255)
    } else if k == 2 {
        (191, 157, 255)
    } else if k == 3 {
        (255, 188, 105)
    } else {
        (75, 221, 190)
    }
}

// ---------------------------------------------------------------------------
// Icon pixels
// ---------------------------------------------------------------------------

/// The four bytes of pixel `c`.
pub open spec fn pixel(s: Seq<u8>, c: int) -> (u8, u8, u8, u8) {
    (s[4 * c], s[4 * c + 1], s[4 * c + 2], s[4 * c + 3])
}

/// A blue-green-red-alpha pixel as red-green-blue-alpha; a fully
/// transparent alpha is taken as opaque, since icon bitmaps often leave it
/// unset.
pub open spec fn rgba_of(p: (u8, u8, u8, u8)) -> (u8, u8, u8, u8) {
    (p.2, p.1, p.0, if p.3 == 0 {
        255
    } else {
        p.3
    })
}

/// Converts icon pixels in place; bytes after the last whole pixel are left
/// as they are.
pub fn bgra_to_rgba(pixels: &mut Vec<u8>)
    ensures
        final(pixels)@.len() == old(pixels)@.len(),
        forall|c: int|
            0 <= c < old(pixels)@.len() / 4 ==> #[trigger] pixel(final(pixels)@, c) == rgba_of(
                pixel(old(pixels)@, c),
            ),
        forall|i: int|
            4 * (old(pixels)@.len() / 4) <= i < old(pixels)@.len() ==> final(pixels)@[i] == old(
                pixels,
            )@[i],
{
    let ghost original = pixels@;
    let len = pixels.len();
    let n = len / 4;
    let mut c: usize = 0;
    while c < n
        invariant
            len == original.len(),
            n == original.len() / 4,
            4 * n <= original.len(),
            c <= n,
            pixels@.len() == original.len(),
            forall|d: int| 0 <= d < c ==> #[trigger] pixel(pixels@, d) == rgba_of(pixel(original, d)),
            forall|i: int| 4 * c <= i < original.len() ==> pixels@[i] == original[i],
        decreases n - c,
    {
        let ghost prev = pixels@;
        let base = 4 * c;
        let blue = pixels[base];
        let red = pixels[base + 2];
        pixels.set(base, red);
        pixels.set(base + 2, blue);
        if pixels[base + 3] == 0 {
            pixels.set(base + 3, 255);
        }
        proof {
            assert(pixel(pixels@, c as int) == rgba_of(pixel(original, c as int)));
            assert forall|d: int| 0 <= d < c + 1 implies #[trigger] pixel(pixels@, d) == rgba_of(
                pixel(original, d),
            ) by {
                if d < c {
                    assert(pixel(pixels@, d) == pixel(prev, d));
                }
            }
            assert forall|i: int| 4 * (c + 1) <= i < original.len() implies pixels@[i]
                == original[i] by {
                assert(pixels@[i] == prev[i]);
            }
        }
        c = c + 1;
    }
}

} // verus!
