//! Canonicalization of a document's text.
//!
//! The canonical form of a text is reached in four steps, taken in this
//! order: whitespace around the whole text is trimmed, CRLF line terminators
//! become LF, trailing whitespace is stripped from every line, and one pass
//! replaces three consecutive newlines by two.
//!
//! The last step is a single pass from left to right. A run of four or more
//! newlines is therefore shortened but may stay longer than two, so that
//! canonicalizing a canonical text can change it once more. It does so
//! exactly where three consecutive newlines are left.

use crate::lines::{line_ends_stripped, strip_line_ends};
use crate::replace::{replace_all, replaced};
use crate::text::{from_chars, to_chars};
use crate::trim::{all_white_space, lemma_trimmed_ignores_padding, trim, trimmed};
use vstd::prelude::*;

verus! {

/// The line terminator CRLF: a carriage return and a newline.
pub open spec fn crlf() -> Seq<char> {
    seq!['\r', '\n']
}

/// A run of `n` newlines.
pub open spec fn newlines(n: nat) -> Seq<char> {
    Seq::new(n, |i: int| '\n')
}

/// The canonical form of the text `s`.
pub open spec fn normalized(s: Seq<char>) -> Seq<char> {
    let unix = replaced(trimmed(s), crlf(), newlines(1));
    replaced(line_ends_stripped(unix), newlines(3), newlines(2))
}

/// Texts that differ only in the whitespace around them have the same
/// canonical form.
pub proof fn lemma_normalized_ignores_padding(before: Seq<char>, s: Seq<char>, after: Seq<char>)
    requires
        all_white_space(before),
        all_white_space(after),
    ensures
        normalized(before + s + after) == normalized(s),
{
    lemma_trimmed_ignores_padding(before, s, after);
}

/// Brings `content` into its canonical form.
pub fn normalize_content(content: &str) -> (out: String)
    ensures
        out@ == normalized(content@),
{
    let cr_lf: [char; 2] = ['\r', '\n'];
    let lf: [char; 1] = ['\n'];
    let three: [char; 3] = ['\n', '\n', '\n'];
    let two: [char; 2] = ['\n', '\n'];
    proof {
        assert(cr_lf@ =~= crlf());
        assert(lf@ =~= newlines(1));
        assert(three@ =~= newlines(3));
        assert(two@ =~= newlines(2));
    }
    let chars = to_chars(content);
    let trimmed = trim(chars.as_slice());
    let unix = replace_all(trimmed.as_slice(), cr_lf.as_slice(), lf.as_slice());
    let stripped = strip_line_ends(unix.as_slice());
    let collapsed = replace_all(stripped.as_slice(), three.as_slice(), two.as_slice());
    from_chars(collapsed.as_slice())
}

} // verus!
