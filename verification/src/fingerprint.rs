//! Fingerprints of texts: SHA-256 over the UTF-8 encoding, in hexadecimal.

use crate::hex::{hex_encode, hex_encoded, is_lower_hex_digit, lemma_hex_encoded_shape};
use sha2::{Digest, Sha256};
use vstd::prelude::*;

verus! {

/// SHA-256 is defined for messages of fewer than 2^64 bits: this is the
/// number of bytes that a message must stay below.
pub const MESSAGE_LEN_LIMIT: u64 = 0x2000_0000_0000_0000;

/// The SHA-256 digest of `message`, as computed by the `sha2` crate.
pub uninterp spec fn sha256(message: Seq<u8>) -> Seq<u8>;

/// Whether the UTF-8 encoding of `text` is short enough to be hashed.
pub open spec fn hashable(text: Seq<char>) -> bool {
    vstd::utf8::encode_utf8(text).len() < MESSAGE_LEN_LIMIT
}

/// The fingerprint of `text`: the SHA-256 digest of its UTF-8 encoding,
/// rendered in lowercase hexadecimal.
pub open spec fn fingerprint(text: Seq<char>) -> Seq<char> {
    hex_encoded(sha256(vstd::utf8::encode_utf8(text)))
}

/// The UTF-8 encoding of a text has at most four bytes for each character.
pub proof fn lemma_encoding_len(text: Seq<char>)
    ensures
        vstd::utf8::encode_utf8(text).len() <= 4 * text.len(),
    decreases text.len(),
{
    if text.len() > 0 {
        lemma_encoding_len(text.drop_first());
    }
}

/// Every text of fewer than 2^59 characters is short enough to be hashed.
pub proof fn lemma_short_text_is_hashable(text: Seq<char>)
    requires
        text.len() < 0x0800_0000_0000_0000,
    ensures
        hashable(text),
{
    lemma_encoding_len(text);
}

/// Fingerprinting is a function of the text alone: texts with the same
/// characters have the same fingerprint.
pub proof fn lemma_fingerprint_deterministic(a: Seq<char>, b: Seq<char>)
    requires
        a =~= b,
    ensures
        fingerprint(a) == fingerprint(b),
{
}

/// Calls `sha2::Sha256::digest`, the one-shot form of the hasher: the
/// result is the SHA-256 digest of `message`, which has 32 bytes. Nothing is
/// proved of the digest's value. Messages of 2^61 bytes or more are left
/// out, since the hasher counts the message's bits in 64 bits.
#[verifier::external_body]
fn sha256_digest(message: &[u8]) -> (digest: [u8; 32])
    requires
        message@.len() < MESSAGE_LEN_LIMIT,
    ensures
        digest@ == sha256(message@),
{
    Sha256::digest(message).into()
}

/// Whether `content` is short enough to be hashed.
pub fn is_hashable(content: &str) -> (ok: bool)
    ensures
        ok == hashable(content@),
{
    (content.as_bytes().len() as u64) < MESSAGE_LEN_LIMIT
}

/// Fingerprints `content`: 64 lowercase hexadecimal digits that render the
/// SHA-256 digest of its UTF-8 encoding. Equal texts have equal
/// fingerprints.
pub fn hash_content(content: &str) -> (out: String)
    requires
        hashable(content@),
    ensures
        out@ == fingerprint(content@),
        out@.len() == 64,
        forall|i: int| 0 <= i < 64 ==> is_lower_hex_digit(#[trigger] out@[i]),
{
    let digest = sha256_digest(content.as_bytes());
    proof {
        lemma_hex_encoded_shape(digest@);
    }
    hex_encode(digest.as_slice())
}

} // verus!
