//! ROM artwork: finding cover images in TheGamesDB answers, the search terms
//! and request addresses used to look them up, and the cache file name of a
//! downloaded image.
use vstd::prelude::*;
use vstd::string::StringSliceAdditionalSpecFns;
use vstd::utf8::encode_utf8;
use crate::digest::{hex_byte, hex_digit_char, sha256_hex, sha256_hex_of};
use crate::json::{JsonValue, get, get_spec};
use crate::platform::{opt_string_view, opt_view};
use crate::text::{
    has_char, is_whitespace, lemma_first_where, lemma_replace_chars, lemma_trim_facts,
    eq_ignore_ascii_case, eq_ignore_case, first_where, lemma_first_where_unique, replace, replace_str,
    ascii_lower, ascii_lowercase, chars_of, concat, concat_str, contains, contains_str, eq_str,
    first_index_of, find_char_from, signed_decimal, signed_decimal_chars, lemma_first_index_bounds, slice_chars, string_of, trim,
    trim_end_char, trim_start_char, trimmed, trimmed_end_char, trimmed_start_char,
};

verus! {

// ---------------------------------------------------------------------------
// Percent-encoding of query values
// ---------------------------------------------------------------------------

/// Bytes that stay as they are in a query value: ASCII letters and digits,
/// and `-`, `_`, `.`, `~`.
pub open spec fn is_unreserved(b: u8) -> bool {
    ||| (48 <= b && b <= 57)
    ||| (65 <= b && b <= 90)
    ||| (97 <= b && b <= 122)
    ||| b == 45
    ||| b == 95
    ||| b == 46
    ||| b == 126
}

/// One byte, percent-encoded with upper-case hexadecimal digits.
pub open spec fn encode_byte(b: u8) -> Seq<char> {
    if is_unreserved(b) {
        seq![b as char]
    } else {
        seq!['%'] + hex_byte(b, true)
    }
}

/// Percent-encoding of a byte sequence.
pub open spec fn percent_encode(b: Seq<u8>) -> Seq<char>
    decreases b.len(),
{
    if b.len() == 0 {
        seq![]
    } else {
        encode_byte(b[0]) + percent_encode(b.drop_first())
    }
}

proof fn lemma_percent_encode_push(s: Seq<u8>, x: u8)
    ensures
        percent_encode(s.push(x)) == percent_encode(s) + encode_byte(x),
    decreases s.len(),
{
    if s.len() == 0 {
        assert(s.push(x).drop_first() == s);
        assert(percent_encode(s.push(x)) == encode_byte(x) + percent_encode(s));
        assert(percent_encode(s) == Seq::<char>::empty());
    } else {
        assert(s.push(x).drop_first() == s.drop_first().push(x));
        lemma_percent_encode_push(s.drop_first(), x);
    }
}

fn push_encoded_byte(out: &mut Vec<char>, b: u8)
    ensures
        final(out)@ == old(out)@ + encode_byte(b),
{
    if (48 <= b && b <= 57) || (65 <= b && b <= 90) || (97 <= b && b <= 122) || b == 45 || b == 95
        || b == 46 || b == 126 {
        out.push(b as char);
        proof {
            assert(final(out)@ =~= old(out)@ + encode_byte(b));
        }
    } else {
        out.push('%');
        out.push(hex_digit_char(b / 16, true));
        out.push(hex_digit_char(b % 16, true));
        proof {
            assert(final(out)@ =~= old(out)@ + encode_byte(b));
        }
    }
}

/// Percent-encodes the UTF-8 bytes of `value` for use in a query string.
pub fn url_encode(value: &str) -> (r: String)
    ensures
        r@ == percent_encode(value.spec_bytes()),
{
    let bytes = value.as_bytes();
    let mut out: Vec<char> = Vec::new();
    let mut i: usize = 0;
    while i < bytes.len()
        invariant
            i <= bytes.len(),
            out@ == percent_encode(bytes@.subrange(0, i as int)),
        decreases bytes.len() - i,
    {
        push_encoded_byte(&mut out, bytes[i]);
        proof {
            assert(bytes@.subrange(0, i + 1) == bytes@.subrange(0, i as int).push(bytes@[i as int]));
            lemma_percent_encode_push(bytes@.subrange(0, i as int), bytes@[i as int]);
        }
        i = i + 1;
    }
    proof {
        assert(bytes@.subrange(0, bytes@.len() as int) == bytes@);
    }
    string_of(&out)
}

/// Value of a hexadecimal digit.
pub open spec fn hex_value(c: char) -> int {
    if '0' <= c && c <= '9' {
        c as int - 48
    } else if 'A' <= c && c <= 'F' {
        c as int - 55
    } else if 'a' <= c && c <= 'f' {
        c as int - 87
    } else {
        0
    }
}

/// Percent-decoding: `%XY` becomes the byte `0xXY`, other characters their
/// code.
pub open spec fn percent_decode(s: Seq<char>) -> Seq<u8>
    decreases s.len(),
{
    if s.len() == 0 {
        seq![]
    } else if s[0] == '%' && s.len() >= 3 {
        seq![(hex_value(s[1]) * 16 + hex_value(s[2])) as u8] + percent_decode(
            s.subrange(3, s.len() as int),
        )
    } else {
        seq![s[0] as u8] + percent_decode(s.drop_first())
    }
}

/// Percent-decoding an encoded query value gives back its bytes.
pub proof fn percent_decoding_inverts_encoding(b: Seq<u8>)
    ensures
        percent_decode(percent_encode(b)) == b,
    decreases b.len(),
{
    if b.len() > 0 {
        let x = b[0];
        let rest = percent_encode(b.drop_first());
        percent_decoding_inverts_encoding(b.drop_first());
        let e = encode_byte(x) + rest;
        assert(percent_encode(b) == e);
        if is_unreserved(x) {
            assert(e[0] == x as char);
            assert(e.drop_first() == rest);
            assert((x as char) as u8 == x);
        } else {
            let hi = x as int / 16;
            let lo = x as int % 16;
            assert(e[0] == '%');
            assert(e[1] == crate::digest::hex_digit(hi, true));
            assert(e[2] == crate::digest::hex_digit(lo, true));
            assert(hex_value(e[1]) == hi);
            assert(hex_value(e[2]) == lo);
            assert(e.subrange(3, e.len() as int) == rest);
        }
        assert(seq![x] + b.drop_first() == b);
    }
}

/// Query values made only of unreserved characters are sent unchanged.
pub proof fn unreserved_text_is_not_escaped(b: Seq<u8>)
    requires
        forall|i: int| 0 <= i < b.len() ==> is_unreserved(#[trigger] b[i]),
    ensures
        percent_encode(b) == b.map_values(|x: u8| x as char),
    decreases b.len(),
{
    if b.len() > 0 {
        assert forall|i: int| 0 <= i < b.drop_first().len() implies is_unreserved(
            #[trigger] b.drop_first()[i],
        ) by {
            assert(b.drop_first()[i] == b[i + 1]);
        }
        unreserved_text_is_not_escaped(b.drop_first());
        assert(is_unreserved(b[0]));
        assert(percent_encode(b) =~= b.map_values(|x: u8| x as char));
    }
}

// ---------------------------------------------------------------------------
// Cache file names
// ---------------------------------------------------------------------------

/// The part of an address before its query string.
pub open spec fn before_query(url: Seq<char>) -> Seq<char> {
    url.subrange(0, first_index_of(url, '?'))
}

/// The text after the last `.`, or all of it when there is none.
pub open spec fn after_last_dot(s: Seq<char>) -> Seq<char>
    decreases s.len(),
{
    if s.len() == 0 {
        s
    } else if s.last() == '.' {
        seq![]
    } else {
        after_last_dot(s.drop_last()).push(s.last())
    }
}

/// The image extension kept for a cached download: the address's own
/// extension when it is `png`, `jpg` or `jpeg` in any ASCII case, else `jpg`.
pub open spec fn artwork_extension(url: Seq<char>) -> Seq<char> {
    let e = after_last_dot(before_query(url));
    let l = ascii_lower(e);
    if l == "png"@ || l == "jpg"@ || l == "jpeg"@ {
        e
    } else {
        "jpg"@
    }
}

/// The cache file name of an image address: the SHA-256 of the address in
/// lower-case hexadecimal, a dot, and the extension.
pub open spec fn cached_artwork_file_name_spec(url: &str) -> Seq<char> {
    sha256_hex_of(url.spec_bytes()) + "."@ + artwork_extension(url@)
}

/// A cached download always keeps an image extension: `png`, `jpg` or
/// `jpeg` in some ASCII case.
pub proof fn cached_artwork_keeps_an_image_extension(url: Seq<char>)
    ensures
        ({
            let l = ascii_lower(artwork_extension(url));
            l == "png"@ || l == "jpg"@ || l == "jpeg"@
        }),
{
    reveal_strlit("jpg");
    let e = after_last_dot(before_query(url));
    let l = ascii_lower(e);
    if !(l == "png"@ || l == "jpg"@ || l == "jpeg"@) {
        assert(ascii_lower("jpg"@) =~= "jpg"@);
    }
}

fn after_last_dot_exec(v: &Vec<char>) -> (r: Vec<char>)
    ensures
        r@ == after_last_dot(v@),
{
    let n = v.len();
    let mut k: usize = n;
    proof {
        assert(v@.subrange(0, n as int) == v@);
        assert(v@.subrange(n as int, n as int) =~= Seq::<char>::empty());
    }
    while k > 0 && v[k - 1] != '.'
        invariant
            k <= n == v.len(),
            after_last_dot(v@) == after_last_dot(v@.subrange(0, k as int)) + v@.subrange(
                k as int,
                n as int,
            ),
        decreases k,
    {
        proof {
            let s = v@.subrange(0, k as int);
            assert(s.drop_last() == v@.subrange(0, k - 1));
            assert(s.last() == v@[k - 1]);
            assert(after_last_dot(s) == after_last_dot(v@.subrange(0, k - 1)).push(v@[k - 1]));
            assert(after_last_dot(v@.subrange(0, k - 1)).push(v@[k - 1]) + v@.subrange(
                k as int,
                n as int,
            ) =~= after_last_dot(v@.subrange(0, k - 1)) + v@.subrange(k - 1, n as int));
        }
        k = k - 1;
    }
    proof {
        let s = v@.subrange(0, k as int);
        if k > 0 {
            assert(s.last() == '.');
        }
        assert(after_last_dot(s) =~= Seq::<char>::empty());
        assert(after_last_dot(v@) =~= v@.subrange(k as int, n as int));
    }
    slice_chars(v, k, n)
}

/// The cache file name for an artwork address.
pub fn cached_artwork_file_name(url: &str) -> (r: String)
    ensures
        r@ == cached_artwork_file_name_spec(url),
{
    let hash = sha256_hex(url.as_bytes());
    let chars = chars_of(url);
    let q = find_char_from(&chars, '?', 0);
    proof {
        assert(chars@.subrange(0, chars@.len() as int) == chars@);
        lemma_first_index_bounds(chars@, '?');
    }
    let before = slice_chars(&chars, 0, q);
    let last = after_last_dot_exec(&before);
    let lower = ascii_lowercase(&last);
    let ext = if eq_str(&lower, "png") || eq_str(&lower, "jpg") || eq_str(&lower, "jpeg") {
        last
    } else {
        chars_of("jpg")
    };
    let with_dot = concat_str(&hash, ".");
    let name = concat(&with_dot, &ext);
    string_of(&name)
}

// ---------------------------------------------------------------------------
// Image addresses
// ---------------------------------------------------------------------------

pub open spec fn is_web_address(v: Seq<char>) -> bool {
    "http://"@.is_prefix_of(v) || "https://"@.is_prefix_of(v)
}

/// An absolute image address from a value found in an answer: full addresses
/// are kept, scheme-relative ones get `https:`, and relative ones are joined
/// to the base address when there is one.
pub open spec fn normalize_image_url_spec(value: Seq<char>, base: Option<Seq<char>>) -> Option<
    Seq<char>,
> {
    let v = trim(value);
    if v.len() == 0 {
        None
    } else if is_web_address(v) {
        Some(v)
    } else if "//"@.is_prefix_of(v) {
        Some("https:"@ + v)
    } else {
        match base {
            Some(b) => Some(trim_end_char(b, '/') + "/"@ + trim_start_char(v, '/')),
            None => None,
        }
    }
}

fn is_web_address_exec(v: &Vec<char>) -> (r: bool)
    ensures
        r == is_web_address(v@),
{
    crate::text::starts_with_str(v, "http://") || crate::text::starts_with_str(v, "https://")
}

pub fn normalize_image_url(value: &str, base_url: Option<&str>) -> (r: Option<String>)
    ensures
        opt_string_view(r) == normalize_image_url_spec(value@, opt_view(base_url)),
{
    let raw = chars_of(value);
    let v = trimmed(&raw);
    if v.len() == 0 {
        return None;
    }
    if is_web_address_exec(&v) {
        return Some(string_of(&v));
    }
    if crate::text::starts_with_str(&v, "//") {
        let r = concat(&chars_of("https:"), &v);
        return Some(string_of(&r));
    }
    match base_url {
        Some(b) => {
            let bv = chars_of(b);
            let left = trimmed_end_char(&bv, '/');
            let right = trimmed_start_char(&v, '/');
            let joined = concat(&concat_str(&left, "/"), &right);
            Some(string_of(&joined))
        },
        None => None,
    }
}

// ---------------------------------------------------------------------------
// Searching answers for images
// ---------------------------------------------------------------------------

/// Keys whose string values may hold an image address.
pub open spec fn is_image_key(key: Seq<char>) -> bool {
    let k = ascii_lower(key);
    contains(k, "front"@) || contains(k, "boxart"@) || k == "image"@ || k == "url"@ || k
        == "filename"@
}

/// The image address held directly by the entries of one object: the first
/// entry with an image key whose string value normalizes to an address.
pub open spec fn direct_image_url(entries: Seq<(String, JsonValue)>, base: Option<Seq<char>>) -> Option<
    Seq<char>,
>
    decreases entries.len(),
{
    if entries.len() == 0 {
        None
    } else {
        let found = if is_image_key(entries[0].0@) {
            match entries[0].1 {
                JsonValue::Str(raw) => normalize_image_url_spec(raw@, base),
                _ => None,
            }
        } else {
            None
        };
        match found {
            Some(u) => Some(u),
            None => direct_image_url(entries.drop_first(), base),
        }
    }
}

/// The first image address found in a JSON value: in an object, its own
/// image keys come first, then its members in order; in an array, its
/// elements in order.
pub open spec fn image_url_of(v: JsonValue, base: Option<Seq<char>>) -> Option<Seq<char>>
    decreases v, 0int,
{
    match v {
        JsonValue::Object(entries) => match direct_image_url(entries@, base) {
            Some(u) => Some(u),
            None => image_url_in_members(entries@, base),
        },
        JsonValue::Array(items) => image_url_in_items(items@, base),
        _ => None,
    }
}

pub open spec fn image_url_in_members(entries: Seq<(String, JsonValue)>, base: Option<Seq<char>>) -> Option<
    Seq<char>,
>
    decreases entries, 1int,
{
    if entries.len() == 0 {
        None
    } else {
        match image_url_of(entries[0].1, base) {
            Some(u) => Some(u),
            None => image_url_in_members(entries.drop_first(), base),
        }
    }
}

pub open spec fn image_url_in_items(items: Seq<JsonValue>, base: Option<Seq<char>>) -> Option<
    Seq<char>,
>
    decreases items, 1int,
{
    if items.len() == 0 {
        None
    } else {
        match image_url_of(items[0], base) {
            Some(u) => Some(u),
            None => image_url_in_items(items.drop_first(), base),
        }
    }
}

fn is_image_key_exec(key: &Vec<char>) -> (r: bool)
    ensures
        r == is_image_key(key@),
{
    let k = ascii_lowercase(key);
    contains_str(&k, "front") || contains_str(&k, "boxart") || eq_str(&k, "image") || eq_str(
        &k,
        "url",
    ) || eq_str(&k, "filename")
}

fn direct_image_url_exec(entries: &Vec<(String, JsonValue)>, base_url: Option<&str>) -> (r: Option<
    String,
>)
    ensures
        opt_string_view(r) == direct_image_url(entries@, opt_view(base_url)),
{
    let ghost b = opt_view(base_url);
    let mut i: usize = 0;
    proof {
        assert(entries@.subrange(0, entries@.len() as int) == entries@);
    }
    while i < entries.len()
        invariant
            i <= entries.len(),
            b == opt_view(base_url),
            direct_image_url(entries@, b) == direct_image_url(
                entries@.subrange(i as int, entries@.len() as int),
                b,
            ),
        decreases entries.len() - i,
    {
        let ghost sub = entries@.subrange(i as int, entries@.len() as int);
        proof {
            assert(sub.drop_first() == entries@.subrange(i + 1, entries@.len() as int));
            assert(sub[0] == entries@[i as int]);
        }
        let key = chars_of(entries[i].0.as_str());
        if is_image_key_exec(&key) {
            match &entries[i].1 {
                JsonValue::Str(raw) => {
                    let found = normalize_image_url(raw.as_str(), base_url);
                    if found.is_some() {
                        return found;
                    }
                },
                _ => {},
            }
        }
        i = i + 1;
    }
    None
}

/// The first image address in a JSON answer, resolving relative addresses
/// against `base_url`.
pub fn image_url_from_value(value: &JsonValue, base_url: Option<&str>) -> (r: Option<String>)
    ensures
        opt_string_view(r) == image_url_of(*value, opt_view(base_url)),
    decreases *value,
{
    let ghost b = opt_view(base_url);
    match value {
        JsonValue::Object(entries) => {
            let direct = direct_image_url_exec(entries, base_url);
            if direct.is_some() {
                return direct;
            }
            let mut i: usize = 0;
            proof {
                assert(entries@.subrange(0, entries@.len() as int) == entries@);
            }
            while i < entries.len()
                invariant
                    i <= entries.len(),
                    *value == JsonValue::Object(*entries),
                    b == opt_view(base_url),
                    image_url_of(*value, b) == image_url_in_members(
                        entries@.subrange(i as int, entries@.len() as int),
                        b,
                    ),
                decreases entries.len() - i,
            {
                let ghost sub = entries@.subrange(i as int, entries@.len() as int);
                proof {
                    assert(sub.drop_first() == entries@.subrange(i + 1, entries@.len() as int));
                    assert(sub[0] == entries@[i as int]);
                    assert(decreases_to!(*value => entries@[i as int].1));
                }
                let found = image_url_from_value(&entries[i].1, base_url);
                if found.is_some() {
                    return found;
                }
                i = i + 1;
            }
            None
        },
        JsonValue::Array(items) => {
            let mut i: usize = 0;
            proof {
                assert(items@.subrange(0, items@.len() as int) == items@);
            }
            while i < items.len()
                invariant
                    i <= items.len(),
                    *value == JsonValue::Array(*items),
                    b == opt_view(base_url),
                    image_url_of(*value, b) == image_url_in_items(
                        items@.subrange(i as int, items@.len() as int),
                        b,
                    ),
                decreases items.len() - i,
            {
                let ghost sub = items@.subrange(i as int, items@.len() as int);
                proof {
                    assert(sub.drop_first() == items@.subrange(i + 1, items@.len() as int));
                    assert(sub[0] == items@[i as int]);
                    assert(decreases_to!(*value => items@[i as int]));
                }
                let found = image_url_from_value(&items[i], base_url);
                if found.is_some() {
                    return found;
                }
                i = i + 1;
            }
            None
        },
        _ => None,
    }
}

/// The base address of full-size images: the first `original` member (in
/// document order, outer objects first) that holds a web address.
pub open spec fn original_base_of(v: JsonValue) -> Option<Seq<char>>
    decreases v, 0int,
{
    match v {
        JsonValue::Object(entries) => {
            let own = match get_spec(v, "original"@) {
                Some(JsonValue::Str(s)) => if is_web_address(s@) {
                    Some(s@)
                } else {
                    None
                },
                _ => None,
            };
            match own {
                Some(u) => Some(u),
                None => original_base_in_members(entries@),
            }
        },
        JsonValue::Array(items) => original_base_in_items(items@),
        _ => None,
    }
}

pub open spec fn original_base_in_members(entries: Seq<(String, JsonValue)>) -> Option<Seq<char>>
    decreases entries, 1int,
{
    if entries.len() == 0 {
        None
    } else {
        match original_base_of(entries[0].1) {
            Some(u) => Some(u),
            None => original_base_in_members(entries.drop_first()),
        }
    }
}

pub open spec fn original_base_in_items(items: Seq<JsonValue>) -> Option<Seq<char>>
    decreases items, 1int,
{
    if items.len() == 0 {
        None
    } else {
        match original_base_of(items[0]) {
            Some(u) => Some(u),
            None => original_base_in_items(items.drop_first()),
        }
    }
}

/// The base address of full-size images named in an answer, if any.
pub fn find_original_image_base_url(value: &JsonValue) -> (r: Option<String>)
    ensures
        opt_string_view(r) == original_base_of(*value),
    decreases *value,
{
    match value {
        JsonValue::Object(entries) => {
            match get(value, "original") {
                Some(JsonValue::Str(s)) => {
                    let sv = chars_of(s.as_str());
                    if is_web_address_exec(&sv) {
                        return Some(string_of(&sv));
                    }
                },
                _ => {},
            }
            let mut i: usize = 0;
            proof {
                assert(entries@.subrange(0, entries@.len() as int) == entries@);
            }
            while i < entries.len()
                invariant
                    i <= entries.len(),
                    *value == JsonValue::Object(*entries),
                    original_base_of(*value) == original_base_in_members(
                        entries@.subrange(i as int, entries@.len() as int),
                    ),
                decreases entries.len() - i,
            {
                let ghost sub = entries@.subrange(i as int, entries@.len() as int);
                proof {
                    assert(sub.drop_first() == entries@.subrange(i + 1, entries@.len() as int));
                    assert(sub[0] == entries@[i as int]);
                    assert(decreases_to!(*value => entries@[i as int].1));
                }
                let found = find_original_image_base_url(&entries[i].1);
                if found.is_some() {
                    return found;
                }
                i = i + 1;
            }
            None
        },
        JsonValue::Array(items) => {
            let mut i: usize = 0;
            proof {
                assert(items@.subrange(0, items@.len() as int) == items@);
            }
            while i < items.len()
                invariant
                    i <= items.len(),
                    *value == JsonValue::Array(*items),
                    original_base_of(*value) == original_base_in_items(
                        items@.subrange(i as int, items@.len() as int),
                    ),
                decreases items.len() - i,
            {
                let ghost sub = items@.subrange(i as int, items@.len() as int);
                proof {
                    assert(sub.drop_first() == items@.subrange(i + 1, items@.len() as int));
                    assert(sub[0] == items@[i as int]);
                    assert(decreases_to!(*value => items@[i as int]));
                }
                let found = find_original_image_base_url(&items[i]);
                if found.is_some() {
                    return found;
                }
                i = i + 1;
            }
            None
        },
        _ => None,
    }
}

/// The id of the first game in a search answer: `data.games[0].id`.
pub open spec fn first_game_id_spec(v: JsonValue) -> Option<i64> {
    match get_spec(v, "data"@) {
        Some(data) => match get_spec(data, "games"@) {
            Some(JsonValue::Array(games)) => if games@.len() > 0 {
                match get_spec(games@[0], "id"@) {
                    Some(JsonValue::Number(n)) => n.integer,
                    _ => None,
                }
            } else {
                None
            },
            _ => None,
        },
        None => None,
    }
}

pub fn first_game_id(value: &JsonValue) -> (r: Option<i64>)
    ensures
        r == first_game_id_spec(*value),
{
    let data = match get(value, "data") {
        Some(d) => d,
        None => return None,
    };
    let games = match get(data, "games") {
        Some(JsonValue::Array(g)) => g,
        _ => return None,
    };
    if games.len() == 0 {
        return None;
    }
    match get(&games[0], "id") {
        Some(JsonValue::Number(n)) => n.integer,
        _ => None,
    }
}

/// The image address an answer offers, resolved against its own base.
pub open spec fn artwork_url_in(payload: JsonValue) -> Option<Seq<char>> {
    image_url_of(payload, original_base_of(payload))
}

pub fn artwork_url_in_payload(payload: &JsonValue) -> (r: Option<String>)
    ensures
        opt_string_view(r) == artwork_url_in(*payload),
{
    let base = find_original_image_base_url(payload);
    match &base {
        Some(b) => image_url_from_value(payload, Some(b.as_str())),
        None => image_url_from_value(payload, None),
    }
}

// ---------------------------------------------------------------------------
// Search terms
// ---------------------------------------------------------------------------

pub open spec fn is_bracket(c: char) -> bool {
    c == '(' || c == '['
}

/// A title cleaned for searching: the text before the first `(` or `[`,
/// with ` - ` and then double spaces turned into single spaces, trimmed.
pub open spec fn clean_term(v: Seq<char>) -> Seq<char> {
    let head = v.subrange(0, first_where(v, |c: char| is_bracket(c)));
    trim(replace(replace(head, " - "@, " "@), "  "@, " "@))
}

/// The terms after offering `v`: a cleaned term is added when it is not
/// empty and no earlier term equals it ignoring ASCII case.
pub open spec fn add_term(terms: Seq<Seq<char>>, v: Seq<char>) -> Seq<Seq<char>> {
    let t = clean_term(v);
    if t.len() > 0 && !(exists|i: int| 0 <= i < terms.len() && eq_ignore_ascii_case(terms[i], t)) {
        terms.push(t)
    } else {
        terms
    }
}

/// The search terms for a title: the title itself, then the title with
/// hyphens read as spaces.
pub open spec fn search_terms_spec(title: Seq<char>) -> Seq<Seq<char>> {
    add_term(add_term(seq![], title), replace(title, "-"@, " "@))
}

fn clean_term_exec(v: &Vec<char>) -> (r: Vec<char>)
    ensures
        r@ == clean_term(v@),
{
    let mut k: usize = 0;
    while k < v.len() && !(v[k] == '(' || v[k] == '[')
        invariant
            k <= v.len(),
            forall|m: int| 0 <= m < k ==> !is_bracket(#[trigger] v@[m]),
        decreases v.len() - k,
    {
        k = k + 1;
    }
    proof {
        lemma_first_where_unique(v@, |c: char| is_bracket(c), k as int);
    }
    let head = slice_chars(v, 0, k);
    let a = replace_str(&head, " - ", " ");
    let b = replace_str(&a, "  ", " ");
    trimmed(&b)
}

fn add_term_exec(terms: &mut Vec<String>, v: &Vec<char>)
    ensures
        final(terms)@.map_values(|s: String| s@) == add_term(
            old(terms)@.map_values(|s: String| s@),
            v@,
        ),
{
    let ghost before = old(terms)@.map_values(|s: String| s@);
    let t = clean_term_exec(v);
    if t.len() == 0 {
        return;
    }
    let mut i: usize = 0;
    while i < terms.len()
        invariant
            i <= terms.len(),
            terms@ == old(terms)@,
            before == old(terms)@.map_values(|s: String| s@),
            t@ == clean_term(v@),
            t@.len() > 0,
            forall|k: int| 0 <= k < i ==> !eq_ignore_ascii_case(#[trigger] before[k], t@),
        decreases terms.len() - i,
    {
        let existing = chars_of(terms[i].as_str());
        if eq_ignore_case(&existing, &t) {
            proof {
                assert(before[i as int] == existing@);
                assert(eq_ignore_ascii_case(before[i as int], t@));
                assert(0 <= i < before.len());
                assert(add_term(before, v@) == before);
            }
            return;
        }
        i = i + 1;
    }
    terms.push(string_of(&t));
    proof {
        assert(final(terms)@.map_values(|s: String| s@) =~= before.push(t@));
    }
}

/// Search terms for finding artwork by title.
pub fn artwork_search_terms(title: &str) -> (r: Vec<String>)
    ensures
        r@.map_values(|s: String| s@) == search_terms_spec(title@),
{
    let mut terms: Vec<String> = Vec::new();
    let chars = chars_of(title);
    proof {
        assert(terms@.map_values(|s: String| s@) =~= Seq::<Seq<char>>::empty());
    }
    add_term_exec(&mut terms, &chars);
    let dashed = replace_str(&chars, "-", " ");
    add_term_exec(&mut terms, &dashed);
    terms
}

/// A search term as `clean_term` leaves it: no bracketed tag, and no white
/// space at either end.
pub open spec fn is_clean(t: Seq<char>) -> bool {
    &&& !has_char(t, '(')
    &&& !has_char(t, '[')
    &&& (t.len() > 0 ==> !is_whitespace(t[0]) && !is_whitespace(t.last()))
}

proof fn lemma_clean_term(v: Seq<char>)
    ensures
        is_clean(clean_term(v)),
{
    let k = first_where(v, |c: char| is_bracket(c));
    lemma_first_where(v, |c: char| is_bracket(c));
    let head = v.subrange(0, k);
    let a = replace(head, " - "@, " "@);
    let b = replace(a, "  "@, " "@);
    lemma_trim_facts(b);
    assert(clean_term(v) == trim(b));
    reveal_strlit(" ");
    assert forall|c: char| is_bracket(c) implies !has_char(clean_term(v), c) by {
        if has_char(clean_term(v), c) {
            lemma_replace_chars(a, "  "@, " "@, c);
            if has_char(a, c) {
                lemma_replace_chars(head, " - "@, " "@, c);
                if has_char(head, c) {
                    let i = choose|i: int| 0 <= i < head.len() && head[i] == c;
                    assert(v[i] == c);
                }
            }
        }
    }
    assert(is_bracket('(') && is_bracket('['));
    assert(!has_char(clean_term(v), '('));
    assert(!has_char(clean_term(v), '['));
}

/// The search terms never hold two terms that are equal ignoring ASCII case,
/// nor an empty term, and there are at most two of them; every term is
/// trimmed and free of bracketed tags.
pub proof fn search_terms_are_distinct(title: Seq<char>)
    ensures
        search_terms_spec(title).len() <= 2,
        forall|i: int|
            0 <= i < search_terms_spec(title).len() ==> #[trigger] search_terms_spec(title)[i].len()
                > 0,
        forall|i: int|
            0 <= i < search_terms_spec(title).len() ==> is_clean(#[trigger] search_terms_spec(title)[i]),
        forall|i: int, j: int|
            0 <= i < j < search_terms_spec(title).len() ==> !eq_ignore_ascii_case(
                #[trigger] search_terms_spec(title)[i],
                #[trigger] search_terms_spec(title)[j],
            ),
{
    let first = add_term(seq![], title);
    let second = replace(title, "-"@, " "@);
    lemma_clean_term(title);
    lemma_clean_term(second);
    assert(first.len() <= 1);
    assert(forall|i: int| 0 <= i < first.len() ==> #[trigger] first[i].len() > 0);
    assert(forall|i: int| 0 <= i < first.len() ==> #[trigger] first[i] == clean_term(title));
    let all = add_term(first, second);
    if all.len() == 2 {
        assert(all[1] == clean_term(second));
        assert(!eq_ignore_ascii_case(first[0], clean_term(second)));
    }
    assert forall|i: int| 0 <= i < all.len() implies is_clean(#[trigger] all[i]) by {
        if i < first.len() {
            assert(all[i] == first[i]);
        } else {
            assert(all[i] == clean_term(second));
        }
    }
}

// ---------------------------------------------------------------------------
// Looking artwork up, request by request
// ---------------------------------------------------------------------------

/// The API key used for requests: the configured key trimmed, or none when
/// nothing but blanks was entered.
pub fn usable_api_key(key: &str) -> (r: Option<String>)
    ensures
        trim(key@).len() == 0 ==> r is None,
        trim(key@).len() > 0 ==> (r matches Some(k) && k@ == trim(key@)),
{
    let t = trimmed(&chars_of(key));
    if t.len() == 0 {
        None
    } else {
        Some(string_of(&t))
    }
}

/// The address that searches TheGamesDB for a title.
pub open spec fn search_url_spec(api_key: Seq<char>, term: Seq<char>) -> Seq<char> {
    "https://api.thegamesdb.net/v1/Games/ByGameName?apikey="@ + percent_encode(
        encode_utf8(api_key),
    ) + "&name="@ + percent_encode(encode_utf8(term)) + "&include=boxart"@
}

/// The address that lists the images of one game.
pub open spec fn images_url_spec(api_key: Seq<char>, game_id: i64) -> Seq<char> {
    "https://api.thegamesdb.net/v1/Games/Images?apikey="@ + percent_encode(encode_utf8(api_key))
        + "&games_id="@ + signed_decimal(game_id as int)
}

pub fn search_url(api_key: &str, term: &str) -> (r: String)
    ensures
        r@ == search_url_spec(api_key@, term@),
{
    let a = chars_of("https://api.thegamesdb.net/v1/Games/ByGameName?apikey=");
    let k = url_encode(api_key);
    let t = url_encode(term);
    let b = concat(&a, &chars_of(k.as_str()));
    let c = concat_str(&b, "&name=");
    let d = concat(&c, &chars_of(t.as_str()));
    let e = concat_str(&d, "&include=boxart");
    string_of(&e)
}

pub fn images_url(api_key: &str, game_id: i64) -> (r: String)
    ensures
        r@ == images_url_spec(api_key@, game_id),
{
    let a = chars_of("https://api.thegamesdb.net/v1/Games/Images?apikey=");
    let k = url_encode(api_key);
    let b = concat(&a, &chars_of(k.as_str()));
    let c = concat_str(&b, "&games_id=");
    let d = concat(&c, &signed_decimal_chars(game_id));
    string_of(&d)
}

/// Where a lookup stands: searching with a term, reading the image list of
/// the game found with a term, or done.
#[derive(Clone, Copy, PartialEq, Eq, Structural)]
pub enum LookupStage {
    Searching(usize),
    Images(usize),
    Finished,
}

/// What the caller does next.
pub enum ArtworkStep {
    /// Request this address and hand the JSON answer to `on_payload`.
    Fetch(String),
    /// The artwork is at this address.
    Found(String),
    /// No term led to artwork.
    NotFound,
}

pub enum StepView {
    Fetch(Seq<char>),
    Found(Seq<char>),
    NotFound,
}

impl View for ArtworkStep {
    type V = StepView;

    open spec fn view(&self) -> StepView {
        match self {
            ArtworkStep::Fetch(u) => StepView::Fetch(u@),
            ArtworkStep::Found(u) => StepView::Found(u@),
            ArtworkStep::NotFound => StepView::NotFound,
        }
    }
}

/// Moving on from the term at `i`: the next term's search, or the end.
pub open spec fn advance(terms: Seq<Seq<char>>, key: Seq<char>, i: int) -> (LookupStage, StepView) {
    if i + 1 < terms.len() {
        (LookupStage::Searching((i + 1) as usize), StepView::Fetch(search_url_spec(key, terms[i + 1])))
    } else {
        (LookupStage::Finished, StepView::NotFound)
    }
}

/// The lookup's answer to a JSON payload in each stage.
pub open spec fn lookup_transition(
    terms: Seq<Seq<char>>,
    key: Seq<char>,
    stage: LookupStage,
    payload: JsonValue,
) -> (LookupStage, StepView) {
    match stage {
        LookupStage::Searching(i) => match artwork_url_in(payload) {
            Some(u) => (LookupStage::Finished, StepView::Found(u)),
            None => match first_game_id_spec(payload) {
                Some(id) => (LookupStage::Images(i), StepView::Fetch(images_url_spec(key, id))),
                None => advance(terms, key, i as int),
            },
        },
        LookupStage::Images(i) => match artwork_url_in(payload) {
            Some(u) => (LookupStage::Finished, StepView::Found(u)),
            None => advance(terms, key, i as int),
        },
        LookupStage::Finished => (LookupStage::Finished, StepView::NotFound),
    }
}

/// A TheGamesDB artwork lookup for one title. For each search term, the
/// search answer is read for an image; failing that, the image list of the
/// first game found is read; failing that, the next term is tried.
pub struct ArtworkLookup {
    api_key: String,
    terms: Vec<String>,
    stage: LookupStage,
}

impl ArtworkLookup {
    #[verifier::type_invariant]
    spec fn well_formed(self) -> bool {
        match self.stage {
            LookupStage::Searching(i) => i < self.terms@.len(),
            LookupStage::Images(i) => i < self.terms@.len(),
            LookupStage::Finished => true,
        }
    }

    pub closed spec fn key(&self) -> Seq<char> {
        self.api_key@
    }

    pub closed spec fn terms(&self) -> Seq<Seq<char>> {
        self.terms@.map_values(|s: String| s@)
    }

    pub closed spec fn stage(&self) -> LookupStage {
        self.stage
    }

    /// Starts a lookup; the first step searches with the first term.
    pub fn start(api_key: &str, title: &str) -> (r: (ArtworkLookup, ArtworkStep))
        ensures
            r.0.key() == api_key@,
            r.0.terms() == search_terms_spec(title@),
            if search_terms_spec(title@).len() > 0 {
                &&& r.0.stage() == LookupStage::Searching(0)
                &&& r.1@ == StepView::Fetch(search_url_spec(api_key@, search_terms_spec(title@)[0]))
            } else {
                &&& r.0.stage() == LookupStage::Finished
                &&& r.1@ == StepView::NotFound
            },
    {
        let terms = artwork_search_terms(title);
        let key = string_of(&chars_of(api_key));
        if terms.len() > 0 {
            let url = search_url(api_key, terms[0].as_str());
            proof {
                assert(terms@.map_values(|s: String| s@)[0] == terms@[0]@);
            }
            (ArtworkLookup { api_key: key, terms, stage: LookupStage::Searching(0) }, ArtworkStep::Fetch(url))
        } else {
            (ArtworkLookup { api_key: key, terms, stage: LookupStage::Finished }, ArtworkStep::NotFound)
        }
    }

    /// The step after the term at `i` gave nothing.
    fn advance_from(&mut self, i: usize) -> (step: ArtworkStep)
        requires
            i < old(self).terms@.len(),
        ensures
            final(self).api_key@ == old(self).api_key@,
            final(self).terms() == old(self).terms(),
            (final(self).stage, step@) == advance(old(self).terms(), old(self).key(), i as int),
    {
        proof {
            use_type_invariant(&*self);
        }
        if i < self.terms.len() - 1 {
            let url = search_url(self.api_key.as_str(), self.terms[i + 1].as_str());
            proof {
                assert(self.terms@.map_values(|s: String| s@)[i + 1] == self.terms@[i + 1]@);
            }
            self.stage = LookupStage::Searching(i + 1);
            ArtworkStep::Fetch(url)
        } else {
            self.stage = LookupStage::Finished;
            ArtworkStep::NotFound
        }
    }

    /// Reads the JSON answer to the last `Fetch` and gives the next step.
    pub fn on_payload(&mut self, payload: &JsonValue) -> (step: ArtworkStep)
        ensures
            final(self).key() == old(self).key(),
            final(self).terms() == old(self).terms(),
            (final(self).stage(), step@) == lookup_transition(
                old(self).terms(),
                old(self).key(),
                old(self).stage(),
                *payload,
            ),
    {
        proof {
            use_type_invariant(&*self);
        }
        match self.stage {
            LookupStage::Searching(i) => {
                match artwork_url_in_payload(payload) {
                    Some(u) => {
                        self.stage = LookupStage::Finished;
                        ArtworkStep::Found(u)
                    },
                    None => match first_game_id(payload) {
                        Some(id) => {
                            let url = images_url(self.api_key.as_str(), id);
                            self.stage = LookupStage::Images(i);
                            ArtworkStep::Fetch(url)
                        },
                        None => self.advance_from(i),
                    },
                }
            },
            LookupStage::Images(i) => {
                match artwork_url_in_payload(payload) {
                    Some(u) => {
                        self.stage = LookupStage::Finished;
                        ArtworkStep::Found(u)
                    },
                    None => self.advance_from(i),
                }
            },
            LookupStage::Finished => ArtworkStep::NotFound,
        }
    }
}

/// Requests left at most before a lookup ends: two per remaining term.
pub open spec fn requests_left(stage: LookupStage, term_count: int) -> int {
    match stage {
        LookupStage::Searching(i) => 2 * (term_count - i),
        LookupStage::Images(i) => 2 * (term_count - i) - 1,
        LookupStage::Finished => 0,
    }
}

/// A search answer without an image, whose `data.games` list starts with a
/// game of integer id `n`, leads to the image list of that first game: the
/// id read is `n`, whatever games follow it, and the next request is the
/// image list of game `n`.
pub proof fn search_answer_leads_to_first_game(
    terms: Seq<Seq<char>>,
    key: Seq<char>,
    i: usize,
    payload: JsonValue,
    data: JsonValue,
    games: Vec<JsonValue>,
    n: i64,
)
    requires
        get_spec(payload, "data"@) == Some(data),
        get_spec(data, "games"@) == Some(JsonValue::Array(games)),
        games@.len() > 0,
        get_spec(games@[0], "id"@) matches Some(JsonValue::Number(num)) && num.integer == Some(n),
    ensures
        first_game_id_spec(payload) == Some(n),
        artwork_url_in(payload) is None ==> lookup_transition(
            terms,
            key,
            LookupStage::Searching(i),
            payload,
        ) == (LookupStage::Images(i), StepView::Fetch(images_url_spec(key, n))),
{
}

/// Every answer brings the lookup closer to its end: a further request only
/// comes with fewer requests left, and a finished lookup asks for nothing.
pub proof fn lookup_makes_progress(
    terms: Seq<Seq<char>>,
    key: Seq<char>,
    stage: LookupStage,
    payload: JsonValue,
)
    requires
        terms.len() <= usize::MAX,
        match stage {
            LookupStage::Searching(i) => i < terms.len(),
            LookupStage::Images(i) => i < terms.len(),
            LookupStage::Finished => true,
        },
    ensures
        ({
            let (next, step) = lookup_transition(terms, key, stage, payload);
            &&& 0 <= requests_left(next, terms.len() as int)
            &&& step is Fetch ==> requests_left(next, terms.len() as int) < requests_left(
                stage,
                terms.len() as int,
            )
            &&& !(step is Fetch) ==> next == LookupStage::Finished
        }),
{
}

} // verus!
