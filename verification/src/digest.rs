//! SHA-256 digests (computed by the `sha2` crate) and their hexadecimal text.
use vstd::prelude::*;
use sha2::Digest;
use crate::text::{
    ascii_upper, eq_ignore_ascii_case, eq_ignore_case, chars_of, lemma_upper_is_same_ignoring_case,
    string_of,
};

verus! {

/// The SHA-256 digest of a byte sequence, as `sha2::Sha256` computes it.
pub uninterp spec fn sha256_of(data: Seq<u8>) -> Seq<u8>;

/// `sha2::Sha256::digest`: the 32-byte SHA-256 digest of `data`.
///
/// Trusted: the result is the crate's digest of exactly these bytes, and a
/// SHA-256 output is always 32 bytes long (`OutputSize = U32`).
#[verifier::external_body]
fn sha256(data: &[u8]) -> (r: Vec<u8>)
    ensures
        r@ == sha256_of(data@),
        r@.len() == 32,
{
    sha2::Sha256::digest(data).to_vec()
}

/// One hexadecimal digit (`0`-`9`, then `a`-`f` or `A`-`F`).
pub open spec fn hex_digit(n: int, upper: bool) -> char {
    if n < 10 {
        ((48 + n) as u32) as char
    } else if upper {
        ((55 + n) as u32) as char
    } else {
        ((87 + n) as u32) as char
    }
}

/// Two hexadecimal digits of a byte, as `{:02x}` / `{:02X}` write them.
pub open spec fn hex_byte(b: u8, upper: bool) -> Seq<char> {
    seq![hex_digit(b as int / 16, upper), hex_digit(b as int % 16, upper)]
}

/// Lower-case hexadecimal text of a byte sequence, as `{:x}` writes a digest.
pub open spec fn hex_lower(b: Seq<u8>) -> Seq<char>
    decreases b.len(),
{
    if b.len() == 0 {
        seq![]
    } else {
        hex_lower(b.drop_last()) + hex_byte(b.last(), false)
    }
}

/// Lower-case hexadecimal SHA-256 digest text of a byte sequence.
pub open spec fn sha256_hex_of(data: Seq<u8>) -> Seq<char> {
    hex_lower(sha256_of(data))
}

pub fn hex_digit_char(n: u8, upper: bool) -> (c: char)
    requires
        n < 16,
    ensures
        c == hex_digit(n as int, upper),
{
    let code: u8 = if n < 10 {
        48 + n
    } else if upper {
        55 + n
    } else {
        87 + n
    };
    code as char
}

proof fn lemma_hex_lower_len(b: Seq<u8>)
    ensures
        hex_lower(b).len() == 2 * b.len(),
    decreases b.len(),
{
    if b.len() > 0 {
        lemma_hex_lower_len(b.drop_last());
    }
}

/// Lower-case hexadecimal text of a byte sequence.
pub fn hex_lower_string(b: &[u8]) -> (r: Vec<char>)
    ensures
        r@ == hex_lower(b@),
        r@.len() == 2 * b@.len(),
{
    let mut r: Vec<char> = Vec::new();
    let mut i: usize = 0;
    while i < b.len()
        invariant
            i <= b.len(),
            r@ == hex_lower(b@.subrange(0, i as int)),
        decreases b.len() - i,
    {
        let byte = b[i];
        r.push(hex_digit_char(byte / 16, false));
        r.push(hex_digit_char(byte % 16, false));
        proof {
            let s = b@.subrange(0, i + 1);
            assert(s.drop_last() == b@.subrange(0, i as int));
            assert(s.last() == byte);
            assert(r@ =~= hex_lower(s));
        }
        i = i + 1;
    }
    proof {
        assert(b@.subrange(0, b@.len() as int) == b@);
        lemma_hex_lower_len(b@);
    }
    r
}

/// The lower-case hexadecimal SHA-256 digest of `data` (64 characters).
pub fn sha256_hex(data: &[u8]) -> (r: Vec<char>)
    ensures
        r@ == sha256_hex_of(data@),
        r@.len() == 64,
{
    let digest = sha256(data);
    hex_lower_string(digest.as_slice())
}

/// Whether the SHA-256 digest of `bytes` matches `expected`, compared as
/// hexadecimal text without regard to ASCII case.
pub fn checksum_matches(bytes: &[u8], expected: &str) -> (r: bool)
    ensures
        r == eq_ignore_ascii_case(sha256_hex_of(bytes@), expected@),
{
    let actual = sha256_hex(bytes);
    let expected_chars = chars_of(expected);
    eq_ignore_case(&actual, &expected_chars)
}

/// The SHA-256 digest text of `data` as a `String`.
pub fn sha256_hex_string(data: &[u8]) -> (r: String)
    ensures
        r@ == sha256_hex_of(data@),
{
    let v = sha256_hex(data);
    string_of(&v)
}

/// Downloaded data passes the checksum test against its own digest, whether
/// the digest is written in lower or in upper case.
pub proof fn data_matches_its_own_checksum(data: Seq<u8>)
    ensures
        eq_ignore_ascii_case(sha256_hex_of(data), sha256_hex_of(data)),
        eq_ignore_ascii_case(sha256_hex_of(data), ascii_upper(sha256_hex_of(data))),
{
    lemma_upper_is_same_ignoring_case(sha256_hex_of(data));
}

} // verus!
