//! Content addressing for text documents.
//!
//! Three operations make up the library:
//!
//! * [`normalize_content`] brings a document into a canonical textual form
//!   that ignores incidental whitespace and line-ending differences;
//! * [`hash_content`] fingerprints a text as the lowercase hexadecimal
//!   SHA-256 digest of its UTF-8 encoding;
//! * [`batch_hash`] fingerprints an ordered collection of documents, keeping
//!   their order, and fails as a whole when the collection was malformed.
//!
//! Every function is pure. The contracts are stated over `Seq<char>` and
//! `Seq<u8>` models and are checked by Verus.

pub mod batch;
pub mod canonical;
pub mod fingerprint;
pub mod hex;
pub mod lines;
pub mod normalize;
pub mod replace;
pub mod text;
pub mod trim;
pub mod whitespace;

pub use batch::{batch_hash, hash_all, BatchError, Decoded};
pub use fingerprint::{hash_content, is_hashable};
pub use normalize::normalize_content;
pub use whitespace::is_whitespace;
