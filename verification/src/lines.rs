//! Lines of a text, and the stripping of their trailing whitespace.

use crate::trim::{lemma_trimmed_end_takes, trimmed_end};
use crate::whitespace::{is_white_space, is_whitespace};
use vstd::prelude::*;

verus! {

/// The number of characters before the first newline of `s`, or the length
/// of `s` where it holds no newline.
pub open spec fn first_line_len(s: Seq<char>) -> int
    decreases s.len(),
{
    if s.len() == 0 || s.first() == '\n' {
        0
    } else {
        1 + first_line_len(s.drop_first())
    }
}

/// The lines of `s`: the pieces that its newlines separate. A text with `n`
/// newlines has `n + 1` lines, some of which may be empty.
pub open spec fn lines(s: Seq<char>) -> Seq<Seq<char>>
    decreases s.len(),
    via lines_decreases
{
    let k = first_line_len(s);
    if k >= s.len() {
        seq![s]
    } else {
        seq![s.take(k)] + lines(s.skip(k + 1))
    }
}

#[via_fn]
proof fn lines_decreases(s: Seq<char>) {
    lemma_first_line_len(s);
}

/// The text whose lines are `lines`: they are joined with one newline
/// between each two.
pub open spec fn joined(lines: Seq<Seq<char>>) -> Seq<char>
    decreases lines.len(),
{
    if lines.len() == 0 {
        Seq::empty()
    } else if lines.len() == 1 {
        lines.first()
    } else {
        lines.first() + seq!['\n'] + joined(lines.drop_first())
    }
}

/// `s` with the trailing whitespace of every line removed. Whitespace at the
/// start of a line stays.
pub open spec fn line_ends_stripped(s: Seq<char>) -> Seq<char> {
    joined(lines(s).map_values(|line: Seq<char>| trimmed_end(line)))
}

/// The first line ends at the first newline, or at the end of the text.
pub proof fn lemma_first_line_len(s: Seq<char>)
    ensures
        0 <= first_line_len(s) <= s.len(),
        forall|i: int| 0 <= i < first_line_len(s) ==> #[trigger] s[i] != '\n',
        first_line_len(s) < s.len() ==> s[first_line_len(s)] == '\n',
    decreases s.len(),
{
    if s.len() == 0 || s.first() == '\n' {
    } else {
        let rest = s.drop_first();
        lemma_first_line_len(rest);
        assert forall|i: int| 0 <= i < first_line_len(s) implies #[trigger] s[i] != '\n' by {
            if i > 0 {
                assert(s[i] == rest[i - 1]);
            }
        }
    }
}

/// An index up to which `s` holds no newline, with a newline or the end of
/// the text at it, is the length of the first line.
pub proof fn lemma_first_line_len_is(s: Seq<char>, k: int)
    requires
        0 <= k <= s.len(),
        forall|i: int| 0 <= i < k ==> #[trigger] s[i] != '\n',
        k < s.len() ==> s[k] == '\n',
    ensures
        first_line_len(s) == k,
{
    lemma_first_line_len(s);
    let n = first_line_len(s);
    if n < k {
        assert(s[n] != '\n');
    } else if k < n {
        assert(s[k] != '\n');
    }
}

/// Stripping goes line by line: the first line is trimmed at its end, and
/// what follows its newline is stripped in the same way.
pub proof fn lemma_line_ends_stripped_unfold(s: Seq<char>)
    ensures
        first_line_len(s) >= s.len() ==> line_ends_stripped(s) == trimmed_end(s),
        first_line_len(s) < s.len() ==> line_ends_stripped(s) == trimmed_end(
            s.take(first_line_len(s)),
        ) + seq!['\n'] + line_ends_stripped(s.skip(first_line_len(s) + 1)),
{
    let strip = |line: Seq<char>| trimmed_end(line);
    let k = first_line_len(s);
    lemma_first_line_len(s);
    if k >= s.len() {
        assert(lines(s).map_values(strip) =~= seq![trimmed_end(s)]);
    } else {
        let rest = lines(s.skip(k + 1));
        lemma_lines_nonempty(s.skip(k + 1));
        let all = lines(s).map_values(strip);
        assert(all.first() == trimmed_end(s.take(k)));
        assert(all.drop_first() =~= rest.map_values(strip));
    }
}

/// Joining the lines of a text gives the text back, and no line holds a
/// newline: the lines are the pieces between the newlines, and nothing else.
pub proof fn lemma_lines_joined(s: Seq<char>)
    ensures
        joined(lines(s)) == s,
        forall|i: int, j: int|
            0 <= i < lines(s).len() && 0 <= j < lines(s)[i].len() ==> #[trigger] lines(s)[i][j]
                != '\n',
    decreases s.len(),
{
    let k = first_line_len(s);
    lemma_first_line_len(s);
    if k >= s.len() {
    } else {
        let rest = s.skip(k + 1);
        lemma_lines_joined(rest);
        lemma_lines_nonempty(rest);
        assert(lines(s).drop_first() =~= lines(rest));
        assert(s.take(k) + seq!['\n'] + rest =~= s);
        assert forall|i: int, j: int|
            0 <= i < lines(s).len() && 0 <= j < lines(s)[i].len() implies #[trigger] lines(
            s,
        )[i][j] != '\n' by {
            if i > 0 {
                assert(lines(s)[i] == lines(rest)[i - 1]);
            }
        }
    }
}

/// Every text has at least one line.
pub proof fn lemma_lines_nonempty(s: Seq<char>)
    ensures
        lines(s).len() >= 1,
{
}

/// Strips the trailing whitespace of every line of `chars`.
pub fn strip_line_ends(chars: &[char]) -> (out: Vec<char>)
    ensures
        out@ == line_ends_stripped(chars@),
{
    let n = chars.len();
    let mut out: Vec<char> = Vec::new();
    let mut start: usize = 0;
    assert(chars@.skip(0) =~= chars@);
    loop
        invariant_except_break
            start <= n,
            out@ + line_ends_stripped(chars@.skip(start as int)) == line_ends_stripped(chars@),
        invariant
            n == chars@.len(),
        ensures
            out@ == line_ends_stripped(chars@),
        decreases n - start,
    {
        let ghost rest = chars@.skip(start as int);
        let mut end: usize = start;
        while end < n && chars[end] != '\n'
            invariant
                start <= end <= n == chars@.len(),
                forall|i: int| start <= i < end ==> #[trigger] chars@[i] != '\n',
            decreases n - end,
        {
            end += 1;
        }
        let mut keep: usize = end;
        while keep > start && is_whitespace(chars[keep - 1])
            invariant
                start <= keep <= end <= n == chars@.len(),
                forall|i: int| keep <= i < end ==> is_white_space(#[trigger] chars@[i]),
            decreases keep,
        {
            keep -= 1;
        }
        let ghost before = out@;
        let mut i: usize = start;
        while i < keep
            invariant
                start <= i <= keep <= n == chars@.len(),
                out@ == before + chars@.subrange(start as int, i as int),
            decreases keep - i,
        {
            out.push(chars[i]);
            i += 1;
            assert(chars@.subrange(start as int, i as int) =~= chars@.subrange(
                start as int,
                i - 1,
            ).push(chars@[i - 1]));
        }
        proof {
            let line = chars@.subrange(start as int, end as int);
            assert forall|i: int| 0 <= i < end - start implies #[trigger] rest[i] != '\n' by {
                assert(rest[i] == chars@[start + i]);
            }
            lemma_first_line_len_is(rest, end - start);
            assert(rest.take(end - start) =~= line);
            assert forall|i: int| keep - start <= i < line.len() implies is_white_space(
                #[trigger] line[i],
            ) by {
                assert(line[i] == chars@[start + i]);
            }
            lemma_trimmed_end_takes(line, keep - start);
            assert(line.take(keep - start) =~= chars@.subrange(start as int, keep as int));
            lemma_line_ends_stripped_unfold(rest);
            assert(out@ == before + trimmed_end(line));
        }
        if end == n {
            proof {
                assert(line_ends_stripped(rest) == trimmed_end(rest));
                assert(rest =~= chars@.subrange(start as int, end as int));
            }
            break ;
        }
        out.push('\n');
        proof {
            let line = chars@.subrange(start as int, end as int);
            let tail = line_ends_stripped(rest.skip(end - start + 1));
            assert(rest.skip(end - start + 1) =~= chars@.skip(end + 1));
            assert(out@ =~= before + trimmed_end(line) + seq!['\n']);
            assert(out@ + tail =~= before + (trimmed_end(line) + seq!['\n'] + tail));
        }
        start = end + 1;
    }
    out
}

} // verus!
