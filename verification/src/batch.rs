//! Fingerprints of an ordered collection of documents.
//!
//! The collection reaches the library already decoded from the caller's own
//! representation, as a [`Decoded`] value: either the documents, or the
//! reason why what the caller sent was not a sequence of texts. A malformed
//! collection fails as a whole, before any document is hashed.

use crate::fingerprint::{fingerprint, hash_content, hashable};
use vstd::prelude::*;

verus! {

/// What decoding a caller's collection gave.
#[derive(Debug, Clone, PartialEq, Eq)]
pub enum Decoded {
    /// The documents, in the caller's order.
    Documents(Vec<String>),
    /// The input was not an ordered sequence of texts; the message says why.
    Malformed(String),
}

/// Why a batch failed.
#[derive(Debug, Clone, PartialEq, Eq)]
pub enum BatchError {
    /// The input was not an ordered sequence of texts.
    Decode(String),
    /// The fingerprints could not be put into the caller's representation.
    Encode(String),
}

impl BatchError {
    /// The message that describes the failure.
    pub open spec fn message_text(self) -> Seq<char> {
        match self {
            BatchError::Decode(message) => message@,
            BatchError::Encode(message) => message@,
        }
    }

    /// The message that describes the failure.
    pub fn message(&self) -> (message: &str)
        ensures
            message@ == self.message_text(),
    {
        match self {
            BatchError::Decode(message) => message.as_str(),
            BatchError::Encode(message) => message.as_str(),
        }
    }
}

/// Whether every one of `documents` is short enough to be hashed.
pub open spec fn all_hashable(documents: Seq<String>) -> bool {
    forall|i: int| 0 <= i < documents.len() ==> hashable(#[trigger] documents[i]@)
}

/// Whether `digests` holds the fingerprint of each of `documents`, at the
/// document's index.
pub open spec fn fingerprints_of(digests: Seq<String>, documents: Seq<String>) -> bool {
    &&& digests.len() == documents.len()
    &&& forall|i: int|
        0 <= i < documents.len() ==> (#[trigger] digests[i])@ == fingerprint(documents[i]@)
}

/// Fingerprints each of `documents`. The digest at an index is that of the
/// document at the same index.
pub fn hash_all(documents: &[String]) -> (digests: Vec<String>)
    requires
        all_hashable(documents@),
    ensures
        fingerprints_of(digests@, documents@),
{
    let n = documents.len();
    let mut digests: Vec<String> = Vec::new();
    let mut i: usize = 0;
    while i < n
        invariant
            i <= n == documents@.len(),
            all_hashable(documents@),
            digests@.len() == i,
            forall|k: int| 0 <= k < i ==> (#[trigger] digests@[k])@ == fingerprint(documents@[k]@),
        decreases n - i,
    {
        let digest = hash_content(documents[i].as_str());
        digests.push(digest);
        i += 1;
    }
    digests
}

/// Fingerprints a decoded batch. Where the documents were decoded, the
/// result holds one digest for each of them, in their order. Where the input
/// was malformed, the call fails with a decode error that carries the
/// decoder's message, and no digest is computed.
pub fn batch_hash(documents: Decoded) -> (result: Result<Vec<String>, BatchError>)
    requires
        documents matches Decoded::Documents(texts) ==> all_hashable(texts@),
    ensures
        match documents {
            Decoded::Documents(texts) => result matches Ok(digests) && fingerprints_of(
                digests@,
                texts@,
            ),
            Decoded::Malformed(reason) => result matches Err(BatchError::Decode(message))
                && message@ == reason@,
        },
{
    match documents {
        Decoded::Documents(texts) => Ok(hash_all(texts.as_slice())),
        Decoded::Malformed(reason) => Err(BatchError::Decode(reason)),
    }
}

} // verus!
