//! From a long URL to its digest, and from a digest to the short codes that
//! stand for it.

use sha2::{Digest, Sha256};
use vstd::prelude::*;
use vstd::slice::slice_subrange;

verus! {

/// The SHA-256 hash of a byte string.
pub uninterp spec fn sha256(bytes: Seq<u8>) -> Seq<u8>;

/// The Crockford base32 text of a byte string, in the canonical alphabet
/// `0123456789ABCDEFGHJKMNPQRSTVWXYZ`.
pub uninterp spec fn crockford_encode(bytes: Seq<u8>) -> Seq<char>;

/// The bytes that a Crockford base32 text stands for, read leniently: either
/// case, `O` for `0`, `I` and `L` for `1`. `None` where the text cannot be read.
pub uninterp spec fn crockford_decode(text: Seq<char>) -> Option<Seq<u8>>;

/// The characters that the lenient reading accepts: the digits, and the letters
/// of either case but `U`.
pub open spec fn is_crockford_symbol(c: char) -> bool {
    ||| '0' <= c <= '9'
    ||| 'A' <= c <= 'Z' && c != 'U'
    ||| 'a' <= c <= 'z' && c != 'u'
}

/// Whether every character of the text is one that the lenient reading accepts.
pub open spec fn is_crockford_text(text: Seq<char>) -> bool {
    forall|i: int| 0 <= i < text.len() ==> is_crockford_symbol(#[trigger] text[i])
}

/// The characters with the Unicode property `White_Space`.
pub open spec fn is_white_space(c: char) -> bool {
    ||| '\u{9}' <= c <= '\u{d}'
    ||| c == ' '
    ||| c == '\u{85}'
    ||| c == '\u{a0}'
    ||| c == '\u{1680}'
    ||| '\u{2000}' <= c <= '\u{200a}'
    ||| c == '\u{2028}'
    ||| c == '\u{2029}'
    ||| c == '\u{202f}'
    ||| c == '\u{205f}'
    ||| c == '\u{3000}'
}

/// The text without the white space at its two ends.
pub open spec fn trimmed(text: Seq<char>) -> Seq<char>
    decreases text.len(),
{
    if text.len() > 0 && is_white_space(text.first()) {
        trimmed(text.drop_first())
    } else if text.len() > 0 && is_white_space(text.last()) {
        trimmed(text.drop_last())
    } else {
        text
    }
}

/// The number of base32 characters that `n` bytes take: five for every four
/// bytes, rounded up.
pub open spec fn code_len(n: int) -> int {
    (n * 8 + 4) / 5
}

/// The digest of a URL: the SHA-256 hash of its UTF-8 bytes.
pub open spec fn digest_of(url: Seq<char>) -> Seq<u8> {
    sha256(vstd::utf8::encode_utf8(url))
}

/// The short code made of the first `n` bytes of a digest.
pub open spec fn code_at(digest: Seq<u8>, n: int) -> Seq<char> {
    crockford_encode(digest.take(n))
}

/// The canonical spelling of a code: what it stands for, written out again.
pub open spec fn normalized(code: Seq<char>) -> Option<Seq<char>> {
    match crockford_decode(code) {
        Some(bytes) => Some(crockford_encode(bytes)),
        None => None,
    }
}

/// Calls `Sha256::digest` of the crate sha2. The result is the SHA-256 hash
/// of the bytes, which is 32 bytes long whatever the input.
#[verifier::external_body]
fn sha256_of(bytes: &[u8]) -> (hash: Vec<u8>)
    ensures
        hash@ == sha256(bytes@),
        hash@.len() == 32,
{
    Sha256::digest(bytes).to_vec()
}

/// Calls `base32::encode` with the Crockford alphabet. The result has one
/// character for every five bits of the input, the last group filled up, so
/// `code_len` of them; and `base32::decode` reads it back as the input.
#[verifier::external_body]
fn base32_encode(bytes: &[u8]) -> (text: String)
    ensures
        text@ == crockford_encode(bytes@),
        text@.len() == code_len(bytes@.len() as int),
        crockford_decode(text@) == Some(bytes@),
{
    base32::encode(base32::Alphabet::Crockford, bytes)
}

/// Calls `base32::decode` with the Crockford alphabet. It reads a text exactly
/// when each of its characters is a digit or a letter other than `U`, in
/// either case.
#[verifier::external_body]
fn base32_decode(text: &str) -> (bytes: Option<Vec<u8>>)
    ensures
        bytes is Some <==> is_crockford_text(text@),
        match bytes {
            Some(b) => crockford_decode(text@) == Some(b@),
            None => crockford_decode(text@) is None,
        },
{
    base32::decode(base32::Alphabet::Crockford, text)
}

/// Calls `str::trim`, which returns the text without its leading and trailing
/// white space, that is without the characters of the Unicode property
/// `White_Space` at either end.
#[verifier::external_body]
pub(crate) fn trim(text: &str) -> (inner: &str)
    ensures
        inner@ == trimmed(text@),
{
    text.trim()
}

/// The SHA-256 digest of a URL, 32 bytes long. The same URL always has the
/// same digest.
pub fn digest(url: &str) -> (d: Vec<u8>)
    ensures
        d@ == digest_of(url@),
        d@.len() == 32,
{
    sha256_of(url.as_bytes())
}

/// The short code for the first `truncate_len` bytes of a digest, in Crockford
/// base32. Its canonical spelling is the code itself.
pub fn truncate_base32(digest: &Vec<u8>, truncate_len: usize) -> (code: String)
    requires
        truncate_len <= digest@.len(),
    ensures
        code@ == code_at(digest@, truncate_len as int),
        code@.len() == code_len(truncate_len as int),
        normalized(code@) == Some(code@),
{
    let truncated = slice_subrange(digest.as_slice(), 0, truncate_len);
    base32_encode(truncated)
}

/// The canonical spelling of a code that a person typed: decoded leniently,
/// then encoded again. `None`, a normalization failure, exactly when the code
/// holds a character that is neither a digit nor a letter other than `U`.
/// Normalizing the result again changes nothing.
pub fn base32_normalize(encoded: &str) -> (code: Option<String>)
    ensures
        code is Some <==> is_crockford_text(encoded@),
        match code {
            Some(c) => normalized(encoded@) == Some(c@) && normalized(c@) == Some(c@),
            None => normalized(encoded@) is None,
        },
{
    match base32_decode(encoded) {
        Some(decoded) => Some(base32_encode(decoded.as_slice())),
        None => None,
    }
}

} // verus!
