//! Trimming of whitespace at the two ends of a text.

use crate::whitespace::{is_white_space, is_whitespace};
use vstd::prelude::*;

verus! {

/// `s` without its leading whitespace.
pub open spec fn trimmed_start(s: Seq<char>) -> Seq<char>
    decreases s.len(),
{
    if s.len() > 0 && is_white_space(s.first()) {
        trimmed_start(s.drop_first())
    } else {
        s
    }
}

/// `s` without its trailing whitespace.
pub open spec fn trimmed_end(s: Seq<char>) -> Seq<char>
    decreases s.len(),
{
    if s.len() > 0 && is_white_space(s.last()) {
        trimmed_end(s.drop_last())
    } else {
        s
    }
}

/// `s` without its leading and trailing whitespace.
pub open spec fn trimmed(s: Seq<char>) -> Seq<char> {
    trimmed_end(trimmed_start(s))
}

/// Trimming at the start drops exactly the whitespace before the first
/// character that is not whitespace.
pub proof fn lemma_trimmed_start_skips(s: Seq<char>, k: int)
    requires
        0 <= k <= s.len(),
        forall|i: int| 0 <= i < k ==> is_white_space(#[trigger] s[i]),
        k < s.len() ==> !is_white_space(s[k]),
    ensures
        trimmed_start(s) == s.skip(k),
    decreases k,
{
    if k == 0 {
        assert(s.skip(0) =~= s);
    } else {
        let rest = s.drop_first();
        assert forall|i: int| 0 <= i < k - 1 implies is_white_space(#[trigger] rest[i]) by {
            assert(rest[i] == s[i + 1]);
        }
        lemma_trimmed_start_skips(rest, k - 1);
        assert(rest.skip(k - 1) =~= s.skip(k));
    }
}

/// Trimming at the end drops exactly the whitespace after the last
/// character that is not whitespace.
pub proof fn lemma_trimmed_end_takes(s: Seq<char>, k: int)
    requires
        0 <= k <= s.len(),
        forall|i: int| k <= i < s.len() ==> is_white_space(#[trigger] s[i]),
        0 < k ==> !is_white_space(s[k - 1]),
    ensures
        trimmed_end(s) == s.take(k),
    decreases s.len() - k,
{
    if k == s.len() {
        assert(s.take(k) =~= s);
    } else {
        let rest = s.drop_last();
        assert forall|i: int| k <= i < rest.len() implies is_white_space(#[trigger] rest[i]) by {
            assert(rest[i] == s[i]);
        }
        lemma_trimmed_end_takes(rest, k);
        assert(rest.take(k) =~= s.take(k));
    }
}

/// Trimming at the end leaves the start of the text, up to and with its
/// last character that is not whitespace.
pub proof fn lemma_trimmed_end_prefix(s: Seq<char>)
    ensures
        trimmed_end(s).len() <= s.len(),
        trimmed_end(s) == s.take(trimmed_end(s).len() as int),
        trimmed_end(s).len() > 0 ==> !is_white_space(trimmed_end(s).last()),
        forall|i: int|
            0 <= i < s.len() && !is_white_space(#[trigger] s[i]) ==> i < trimmed_end(s).len(),
    decreases s.len(),
{
    if s.len() > 0 && is_white_space(s.last()) {
        let rest = s.drop_last();
        lemma_trimmed_end_prefix(rest);
        assert(rest.take(trimmed_end(rest).len() as int) =~= s.take(trimmed_end(rest).len() as int));
        assert forall|i: int| 0 <= i < s.len() && !is_white_space(#[trigger] s[i]) implies i
            < trimmed_end(s).len() by {
            assert(rest[i] == s[i]);
        }
    } else {
        assert(s.take(s.len() as int) =~= s);
    }
}

/// Whether every character of `s` is whitespace.
pub open spec fn all_white_space(s: Seq<char>) -> bool {
    forall|i: int| 0 <= i < s.len() ==> is_white_space(#[trigger] s[i])
}

/// A trimmed text neither starts nor ends with whitespace.
pub proof fn lemma_trimmed_ends(s: Seq<char>)
    ensures
        trimmed(s).len() > 0 ==> !is_white_space(trimmed(s).first()) && !is_white_space(
            trimmed(s).last(),
        ),
{
    lemma_trimmed_start_first(s);
    lemma_trimmed_end_keeps_start(trimmed_start(s));
}

/// What trimming at the start leaves does not start with whitespace.
proof fn lemma_trimmed_start_first(s: Seq<char>)
    ensures
        trimmed_start(s).len() > 0 ==> !is_white_space(trimmed_start(s).first()),
    decreases s.len(),
{
    if s.len() > 0 && is_white_space(s.first()) {
        lemma_trimmed_start_first(s.drop_first());
    }
}

/// What trimming at the end leaves does not end with whitespace, and starts
/// as the text did.
proof fn lemma_trimmed_end_keeps_start(s: Seq<char>)
    ensures
        trimmed_end(s).len() > 0 ==> !is_white_space(trimmed_end(s).last()) && trimmed_end(
            s,
        ).first() == s.first(),
    decreases s.len(),
{
    if s.len() > 0 && is_white_space(s.last()) {
        lemma_trimmed_end_keeps_start(s.drop_last());
    }
}

/// Whitespace before and after a text does not change what trimming gives.
pub proof fn lemma_trimmed_ignores_padding(before: Seq<char>, s: Seq<char>, after: Seq<char>)
    requires
        all_white_space(before),
        all_white_space(after),
    ensures
        trimmed(before + s + after) == trimmed(s),
{
    assert(before + s + after =~= before + (s + after));
    lemma_trimmed_start_ignores_leading(before, s + after);
    lemma_trimmed_ignores_trailing(s, after);
}

/// Whitespace before a text does not change what trimming at the start
/// gives.
proof fn lemma_trimmed_start_ignores_leading(before: Seq<char>, s: Seq<char>)
    requires
        all_white_space(before),
    ensures
        trimmed_start(before + s) == trimmed_start(s),
    decreases before.len(),
{
    if before.len() == 0 {
        assert(before + s =~= s);
    } else {
        assert((before + s).first() == before[0]);
        assert((before + s).drop_first() =~= before.drop_first() + s);
        lemma_trimmed_start_ignores_leading(before.drop_first(), s);
    }
}

/// Whitespace after a text does not change what trimming at the end gives.
proof fn lemma_trimmed_end_ignores_trailing(s: Seq<char>, after: Seq<char>)
    requires
        all_white_space(after),
    ensures
        trimmed_end(s + after) == trimmed_end(s),
    decreases after.len(),
{
    if after.len() == 0 {
        assert(s + after =~= s);
    } else {
        assert((s + after).last() == after.last());
        assert((s + after).drop_last() =~= s + after.drop_last());
        lemma_trimmed_end_ignores_trailing(s, after.drop_last());
    }
}

/// Whitespace after a text does not change what trimming gives.
proof fn lemma_trimmed_ignores_trailing(s: Seq<char>, after: Seq<char>)
    requires
        all_white_space(after),
    ensures
        trimmed(s + after) == trimmed(s),
    decreases s.len(),
{
    if s.len() == 0 {
        assert(s + after =~= after);
        lemma_trimmed_start_skips(after, after.len() as int);
        assert(after.skip(after.len() as int) =~= s);
    } else if is_white_space(s.first()) {
        assert((s + after).first() == s.first());
        assert((s + after).drop_first() =~= s.drop_first() + after);
        lemma_trimmed_ignores_trailing(s.drop_first(), after);
    } else {
        assert((s + after).first() == s.first());
        lemma_trimmed_end_ignores_trailing(s, after);
    }
}

/// Strips leading and trailing whitespace.
pub fn trim(chars: &[char]) -> (out: Vec<char>)
    ensures
        out@ == trimmed(chars@),
{
    let n = chars.len();
    let mut start: usize = 0;
    while start < n && is_whitespace(chars[start])
        invariant
            start <= n == chars@.len(),
            forall|i: int| 0 <= i < start ==> is_white_space(#[trigger] chars@[i]),
        decreases n - start,
    {
        start += 1;
    }
    let mut end: usize = n;
    while end > start && is_whitespace(chars[end - 1])
        invariant
            start <= end <= n == chars@.len(),
            forall|i: int| end <= i < n ==> is_white_space(#[trigger] chars@[i]),
        decreases end,
    {
        end -= 1;
    }
    let mut out: Vec<char> = Vec::new();
    let mut i: usize = start;
    while i < end
        invariant
            start <= i <= end <= n == chars@.len(),
            out@ == chars@.subrange(start as int, i as int),
        decreases end - i,
    {
        out.push(chars[i]);
        i += 1;
    }
    proof {
        let tail = chars@.skip(start as int);
        lemma_trimmed_start_skips(chars@, start as int);
        assert forall|i: int| end - start <= i < tail.len() implies is_white_space(
            #[trigger] tail[i],
        ) by {
            assert(tail[i] == chars@[i + start]);
        }
        lemma_trimmed_end_takes(tail, end - start);
        assert(tail.take(end - start) =~= chars@.subrange(start as int, end as int));
    }
    out
}

} // verus!
