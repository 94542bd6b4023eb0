//! SHA-256 digests and their rendering as upper-case hexadecimal text.

use crate::text::digit_char;
use crate::text::digit_text;
use sha2::Digest;
use sha2::Sha256;
use vstd::prelude::*;

verus! {

/// The SHA-256 digest of a byte sequence, as the `sha2` crate computes it.
pub uninterp spec fn sha256(data: Seq<u8>) -> Seq<u8>;

/// Calls `sha2::Sha256::digest`, which feeds `data` to a fresh hasher and
/// finalizes it. The contract only names the 32 bytes that come back: the
/// digest is a function of the input bytes and of nothing else.
#[verifier::external_body]
pub(crate) fn sha256_digest(data: &[u8]) -> (out: [u8; 32])
    ensures
        out@ == sha256(data@),
{
    Sha256::digest(data).into()
}

/// The digit of `bytes` at position `i` of its hexadecimal text: the high
/// half of a byte at even positions, the low half at odd ones.
pub open spec fn nibble_at(bytes: Seq<u8>, i: int) -> int {
    if i % 2 == 0 {
        bytes[i / 2] as int / 16
    } else {
        bytes[i / 2] as int % 16
    }
}

/// Upper-case hexadecimal text of a byte sequence: two digits per byte.
pub open spec fn upper_hex(bytes: Seq<u8>) -> Seq<char> {
    Seq::new(2 * bytes.len(), |i: int| digit_char(nibble_at(bytes, i)))
}

/// Renders bytes as upper-case hexadecimal text.
pub fn to_upper_hex(bytes: &[u8]) -> (text: String)
    ensures
        text@ == upper_hex(bytes@),
{
    let mut text = String::new();
    let mut i: usize = 0;
    while i < bytes.len()
        invariant
            i <= bytes.len(),
            text@ == upper_hex(bytes@.take(i as int)),
        decreases bytes.len() - i,
    {
        let b: u8 = bytes[i];
        text.append(digit_text(b / 16));
        text.append(digit_text(b % 16));
        i = i + 1;
    }
    text
}

/// Upper-case hexadecimal text of the SHA-256 digest of the UTF-8 bytes of
/// `text`.
pub open spec fn sha256_hex(text: Seq<char>) -> Seq<char> {
    upper_hex(sha256(vstd::utf8::encode_utf8(text)))
}

/// Hashes the UTF-8 bytes of `text` with SHA-256 and renders the digest as
/// upper-case hexadecimal text.
pub fn hash_text(text: &str) -> (hex: String)
    ensures
        hex@ == sha256_hex(text@),
        hex@.len() == 64,
{
    let digest = sha256_digest(text.as_bytes());
    to_upper_hex(digest.as_slice())
}

} // verus!
