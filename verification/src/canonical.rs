//! What canonical texts look like, and what canonicalizing them again does.
//!
//! A canonical text has no whitespace at its ends and none at the end of a
//! line. Canonicalizing it once more therefore only repeats the last step,
//! the pass that shortens runs of newlines: the text changes again exactly
//! where three consecutive newlines are left in it.

use crate::lines::{
    first_line_len, lemma_first_line_len, lemma_line_ends_stripped_unfold, line_ends_stripped,
};
use crate::normalize::{crlf, newlines, normalized};
use crate::replace::{
    lemma_replaced_first, lemma_replaced_last, lemma_replaced_len,
    lemma_replaced_without_occurrence, occurs, occurs_in, replaced,
};
use crate::trim::{
    lemma_trimmed_end_prefix, lemma_trimmed_ends, trimmed, trimmed_end, trimmed_start,
};
use crate::whitespace::is_white_space;
use vstd::prelude::*;

verus! {

/// Whether `s` is empty, or neither starts nor ends with whitespace.
pub open spec fn bare_ends(s: Seq<char>) -> bool {
    s.len() > 0 ==> !is_white_space(s.first()) && !is_white_space(s.last())
}

/// Whether no line of `s` ends with whitespace: every whitespace character
/// other than a newline has a character behind it that is not a newline.
pub open spec fn bare_line_ends(s: Seq<char>) -> bool {
    forall|i: int|
        0 <= i < s.len() && is_white_space(#[trigger] s[i]) && s[i] != '\n' ==> i + 1 < s.len()
            && s[i + 1] != '\n'
}

/// Trimming leaves a text without whitespace at its ends as it is.
pub proof fn lemma_trimmed_fixed(s: Seq<char>)
    requires
        bare_ends(s),
    ensures
        trimmed(s) == s,
{
    assert(trimmed_start(s) == s);
    assert(trimmed_end(s) == s);
}

/// Stripping leaves a text without whitespace at the end of its lines as it
/// is.
pub proof fn lemma_line_ends_fixed(s: Seq<char>)
    requires
        bare_line_ends(s),
    ensures
        line_ends_stripped(s) == s,
    decreases s.len(),
{
    let k = first_line_len(s);
    lemma_first_line_len(s);
    lemma_line_ends_stripped_unfold(s);
    if k >= s.len() {
        if s.len() > 0 {
            assert(s.last() == s[s.len() - 1]);
            assert(!is_white_space(s.last()));
        }
        assert(trimmed_end(s) == s);
    } else {
        let line = s.take(k);
        let rest = s.skip(k + 1);
        if k > 0 {
            assert(line.last() == s[k - 1]);
            assert(!is_white_space(line.last()));
        }
        assert(trimmed_end(line) == line);
        assert forall|i: int|
            0 <= i < rest.len() && is_white_space(#[trigger] rest[i]) && rest[i]
                != '\n' implies i + 1 < rest.len() && rest[i + 1] != '\n' by {
            assert(rest[i] == s[k + 1 + i]);
        }
        lemma_line_ends_fixed(rest);
        assert(line + seq!['\n'] + rest =~= s);
    }
}

/// What stripping gives has no whitespace at the end of a line.
pub proof fn lemma_stripped_bare_line_ends(s: Seq<char>)
    ensures
        bare_line_ends(line_ends_stripped(s)),
    decreases s.len(),
{
    let k = first_line_len(s);
    lemma_first_line_len(s);
    lemma_line_ends_stripped_unfold(s);
    let out = line_ends_stripped(s);
    if k >= s.len() {
        lemma_trimmed_end_prefix(s);
        assert forall|i: int|
            0 <= i < out.len() && is_white_space(#[trigger] out[i]) && out[i]
                != '\n' implies i + 1 < out.len() && out[i + 1] != '\n' by {
            assert(out[i + 1] == s[i + 1]);
        }
    } else {
        let line = s.take(k);
        let head = trimmed_end(line);
        let rest = line_ends_stripped(s.skip(k + 1));
        lemma_trimmed_end_prefix(line);
        lemma_stripped_bare_line_ends(s.skip(k + 1));
        assert(out == head + seq!['\n'] + rest);
        assert forall|i: int|
            0 <= i < out.len() && is_white_space(#[trigger] out[i]) && out[i]
                != '\n' implies i + 1 < out.len() && out[i + 1] != '\n' by {
            if i < head.len() {
                assert(out[i] == head[i]);
                assert(i + 1 < head.len());
                assert(out[i + 1] == head[i + 1]);
                assert(head[i + 1] == line[i + 1]);
                assert(line[i + 1] == s[i + 1]);
            } else {
                assert(out[i] == rest[i - head.len() - 1]);
                assert(out[i + 1] == rest[i - head.len()]);
            }
        }
    }
}

/// Stripping keeps the first character of a text that does not start with
/// whitespace, and the last character of one that does not end with it.
pub proof fn lemma_stripped_keeps_bare_ends(s: Seq<char>)
    requires
        bare_ends(s),
    ensures
        bare_ends(line_ends_stripped(s)),
{
    if s.len() > 0 {
        lemma_stripped_first(s);
        lemma_stripped_last(s);
    } else {
        lemma_line_ends_stripped_unfold(s);
        assert(trimmed_end(s) == s);
    }
}

/// Stripping keeps the first character of a text that does not start with
/// whitespace.
proof fn lemma_stripped_first(s: Seq<char>)
    requires
        s.len() > 0,
        !is_white_space(s.first()),
    ensures
        line_ends_stripped(s).len() > 0,
        line_ends_stripped(s).first() == s.first(),
{
    let k = first_line_len(s);
    lemma_first_line_len(s);
    lemma_line_ends_stripped_unfold(s);
    if k >= s.len() {
        lemma_trimmed_end_prefix(s);
    } else {
        let line = s.take(k);
        assert(k > 0);
        assert(line[0] == s[0]);
        lemma_trimmed_end_prefix(line);
        assert(trimmed_end(line)[0] == line[0]);
    }
}

/// Stripping keeps the last character of a text that does not end with
/// whitespace.
proof fn lemma_stripped_last(s: Seq<char>)
    requires
        s.len() > 0,
        !is_white_space(s.last()),
    ensures
        line_ends_stripped(s).len() > 0,
        line_ends_stripped(s).last() == s.last(),
    decreases s.len(),
{
    let k = first_line_len(s);
    lemma_first_line_len(s);
    lemma_line_ends_stripped_unfold(s);
    if k >= s.len() {
        assert(trimmed_end(s) == s);
    } else {
        let rest = s.skip(k + 1);
        assert(rest.len() > 0);
        assert(rest.last() == s.last());
        lemma_stripped_last(rest);
    }
}

/// Replacing keeps a text without whitespace at its ends so, where neither
/// end of `from` could be such an end.
pub proof fn lemma_replaced_keeps_bare_ends(s: Seq<char>, from: Seq<char>, to: Seq<char>)
    requires
        bare_ends(s),
        from.len() > 0,
        is_white_space(from.first()),
        is_white_space(from.last()),
    ensures
        bare_ends(replaced(s, from, to)),
{
    if s.len() > 0 {
        lemma_replaced_first(s, from, to);
        lemma_replaced_last(s, from, to);
    }
}

/// Replacing what starts with a newline by newlines alone puts no
/// whitespace at the end of a line.
pub proof fn lemma_replaced_keeps_bare_line_ends(s: Seq<char>, from: Seq<char>, to: Seq<char>)
    requires
        bare_line_ends(s),
        from.len() > 0,
        from.first() == '\n',
        forall|i: int| 0 <= i < to.len() ==> to[i] == '\n',
    ensures
        bare_line_ends(replaced(s, from, to)),
    decreases s.len(),
{
    let m = from.len() as int;
    let out = replaced(s, from, to);
    if s.len() < from.len() {
    } else if s.take(m) == from {
        let rest = s.skip(m);
        let tail = replaced(rest, from, to);
        assert forall|i: int|
            0 <= i < rest.len() && is_white_space(#[trigger] rest[i]) && rest[i]
                != '\n' implies i + 1 < rest.len() && rest[i + 1] != '\n' by {
            assert(rest[i] == s[m + i]);
        }
        lemma_replaced_keeps_bare_line_ends(rest, from, to);
        assert forall|i: int|
            0 <= i < out.len() && is_white_space(#[trigger] out[i]) && out[i]
                != '\n' implies i + 1 < out.len() && out[i + 1] != '\n' by {
            if i < to.len() {
                assert(out[i] == to[i]);
            } else {
                assert(out[i] == tail[i - to.len()]);
                assert(out[i + 1] == tail[i + 1 - to.len()]);
            }
        }
    } else {
        let rest = s.skip(1);
        let tail = replaced(rest, from, to);
        assert forall|i: int|
            0 <= i < rest.len() && is_white_space(#[trigger] rest[i]) && rest[i]
                != '\n' implies i + 1 < rest.len() && rest[i + 1] != '\n' by {
            assert(rest[i] == s[1 + i]);
        }
        lemma_replaced_keeps_bare_line_ends(rest, from, to);
        assert forall|i: int|
            0 <= i < out.len() && is_white_space(#[trigger] out[i]) && out[i]
                != '\n' implies i + 1 < out.len() && out[i + 1] != '\n' by {
            if i == 0 {
                assert(out[0] == s[0]);
                assert(rest.first() == s[1]);
                lemma_replaced_first(rest, from, to);
                assert(out[1] == tail[0]);
            } else {
                assert(out[i] == tail[i - 1]);
                assert(out[i + 1] == tail[i]);
            }
        }
    }
}

/// A canonical text has no whitespace at its ends and none at the end of a
/// line.
pub proof fn lemma_normalized_is_bare(s: Seq<char>)
    ensures
        bare_ends(normalized(s)),
        bare_line_ends(normalized(s)),
{
    let unix = replaced(trimmed(s), crlf(), newlines(1));
    let stripped = line_ends_stripped(unix);
    lemma_trimmed_ends(s);
    lemma_replaced_keeps_bare_ends(trimmed(s), crlf(), newlines(1));
    lemma_stripped_keeps_bare_ends(unix);
    lemma_stripped_bare_line_ends(unix);
    lemma_replaced_keeps_bare_ends(stripped, newlines(3), newlines(2));
    lemma_replaced_keeps_bare_line_ends(stripped, newlines(3), newlines(2));
}

/// Canonicalizing a canonical text only repeats the last step: it replaces
/// three consecutive newlines by two, once more from left to right.
pub proof fn lemma_normalized_again(s: Seq<char>)
    ensures
        normalized(normalized(s)) == replaced(
            normalized(s),
            newlines(3),
            newlines(2),
        ),
{
    let text = normalized(s);
    lemma_normalized_is_bare(s);
    lemma_trimmed_fixed(text);
    assert forall|at: int| !occurs(text, crlf(), at) by {
        if occurs(text, crlf(), at) {
            assert(text.subrange(at, at + 2)[0] == '\r');
            assert(text.subrange(at, at + 2)[1] == '\n');
            assert(is_white_space(text[at]));
        }
    }
    lemma_replaced_without_occurrence(text, crlf(), newlines(1));
    lemma_line_ends_fixed(text);
}

/// Canonicalizing twice gives what canonicalizing once gives exactly where
/// the canonical text holds no three consecutive newlines.
pub proof fn lemma_normalized_twice(s: Seq<char>)
    ensures
        normalized(normalized(s)) == normalized(s) <==> !occurs_in(
            normalized(s),
            newlines(3),
        ),
{
    let text = normalized(s);
    lemma_normalized_again(s);
    if occurs_in(text, newlines(3)) {
        lemma_replaced_len(text, newlines(3), newlines(2));
    } else {
        lemma_replaced_without_occurrence(text, newlines(3), newlines(2));
    }
}

} // verus!
