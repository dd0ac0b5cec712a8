//! Substring replacement in one pass from left to right.

use vstd::prelude::*;

verus! {

/// `s` with every occurrence of `from` replaced by `to`. Occurrences are
/// found from left to right and do not overlap: the search resumes behind
/// each occurrence that was replaced, and never looks into what was put in
/// its place. An empty `from` occurs nowhere.
pub open spec fn replaced(s: Seq<char>, from: Seq<char>, to: Seq<char>) -> Seq<char>
    decreases s.len(),
{
    if from.len() == 0 || s.len() < from.len() {
        s
    } else if s.take(from.len() as int) == from {
        to + replaced(s.skip(from.len() as int), from, to)
    } else {
        seq![s.first()] + replaced(s.skip(1), from, to)
    }
}

/// Whether `pattern` occurs in `s` at index `at`.
pub open spec fn occurs(s: Seq<char>, pattern: Seq<char>, at: int) -> bool {
    &&& 0 <= at
    &&& at + pattern.len() <= s.len()
    &&& s.subrange(at, at + pattern.len()) == pattern
}

/// Whether `pattern` occurs somewhere in `s`.
pub open spec fn occurs_in(s: Seq<char>, pattern: Seq<char>) -> bool {
    exists|at: int| occurs(s, pattern, at)
}

/// A text in which `from` does not occur is left as it is.
pub proof fn lemma_replaced_without_occurrence(s: Seq<char>, from: Seq<char>, to: Seq<char>)
    requires
        !occurs_in(s, from),
    ensures
        replaced(s, from, to) == s,
    decreases s.len(),
{
    if from.len() == 0 || s.len() < from.len() {
    } else {
        assert(!occurs(s, from, 0));
        assert(s.take(from.len() as int) =~= s.subrange(0, from.len() as int));
        let rest = s.skip(1);
        assert forall|at: int| !occurs(rest, from, at) by {
            if occurs(rest, from, at) {
                assert(s.subrange(at + 1, at + 1 + from.len()) =~= rest.subrange(
                    at,
                    at + from.len(),
                ));
                assert(occurs(s, from, at + 1));
            }
        }
        lemma_replaced_without_occurrence(rest, from, to);
        assert(seq![s.first()] + rest =~= s);
    }
}

/// Where what is put in is no longer than what is taken out, the text does
/// not grow; it shrinks where the replacement is shorter and `from` occurs.
pub proof fn lemma_replaced_len(s: Seq<char>, from: Seq<char>, to: Seq<char>)
    requires
        to.len() <= from.len(),
    ensures
        replaced(s, from, to).len() <= s.len(),
        to.len() < from.len() && from.len() > 0 && occurs_in(s, from) ==> replaced(
            s,
            from,
            to,
        ).len() < s.len(),
    decreases s.len(),
{
    if from.len() == 0 || s.len() < from.len() {
        assert forall|at: int| from.len() > 0 implies !occurs(s, from, at) by {}
    } else if s.take(from.len() as int) == from {
        lemma_replaced_len(s.skip(from.len() as int), from, to);
    } else {
        let rest = s.skip(1);
        lemma_replaced_len(rest, from, to);
        if occurs_in(s, from) {
            let at = choose|at: int| occurs(s, from, at);
            assert(s.take(from.len() as int) =~= s.subrange(0, from.len() as int));
            assert(at != 0);
            assert(rest.subrange(at - 1, at - 1 + from.len()) =~= s.subrange(
                at,
                at + from.len(),
            ));
            assert(occurs(rest, from, at - 1));
        }
    }
}

/// A text that does not start as `from` does keeps its first character.
pub proof fn lemma_replaced_first(s: Seq<char>, from: Seq<char>, to: Seq<char>)
    requires
        s.len() > 0,
        from.len() > 0 ==> s.first() != from.first(),
    ensures
        replaced(s, from, to).len() > 0,
        replaced(s, from, to).first() == s.first(),
{
    if from.len() == 0 || s.len() < from.len() {
    } else {
        assert(s.take(from.len() as int)[0] == s[0]);
    }
}

/// A text that does not end as `from` does keeps its last character.
pub proof fn lemma_replaced_last(s: Seq<char>, from: Seq<char>, to: Seq<char>)
    requires
        s.len() > 0,
        from.len() > 0 ==> s.last() != from.last(),
    ensures
        replaced(s, from, to).len() > 0,
        replaced(s, from, to).last() == s.last(),
    decreases s.len(),
{
    let m = from.len() as int;
    if from.len() == 0 || s.len() < from.len() {
    } else if s.take(m) == from {
        let rest = s.skip(m);
        assert(rest.len() > 0) by {
            assert(s.take(m)[m - 1] == s[m - 1]);
        }
        assert(rest.last() == s.last());
        lemma_replaced_last(rest, from, to);
    } else {
        let rest = s.skip(1);
        if rest.len() > 0 {
            assert(rest.last() == s.last());
            lemma_replaced_last(rest, from, to);
        } else {
            assert(replaced(rest, from, to) =~= rest);
        }
    }
}

/// Whether `from` occurs in `chars` at index `at`.
fn occurs_at(chars: &[char], at: usize, from: &[char]) -> (found: bool)
    requires
        at + from@.len() <= chars@.len(),
    ensures
        found == occurs(chars@, from@, at as int),
{
    let n = chars.len();
    let m = from.len();
    let mut j: usize = 0;
    while j < m
        invariant
            j <= m == from@.len(),
            at + m <= n == chars@.len(),
            chars@.subrange(at as int, at + j) == from@.take(j as int),
        decreases m - j,
    {
        if chars[at + j] != from[j] {
            proof {
                let window = chars@.subrange(at as int, at + m);
                assert(window[j as int] != from@[j as int]);
            }
            return false;
        }
        j += 1;
        assert(chars@.subrange(at as int, at + j) =~= chars@.subrange(at as int, at + j - 1).push(
            chars@[at + j - 1],
        ));
        assert(from@.take(j as int) =~= from@.take(j - 1).push(from@[j - 1]));
    }
    assert(from@.take(m as int) =~= from@);
    true
}

/// Replaces every occurrence of `from` in `chars` by `to`, in one pass from
/// left to right.
pub fn replace_all(chars: &[char], from: &[char], to: &[char]) -> (out: Vec<char>)
    ensures
        out@ == replaced(chars@, from@, to@),
{
    let n = chars.len();
    let m = from.len();
    let mut out: Vec<char> = Vec::new();
    let mut i: usize = 0;
    assert(chars@.skip(0) =~= chars@);
    while i < n
        invariant
            i <= n == chars@.len(),
            m == from@.len(),
            out@ + replaced(chars@.skip(i as int), from@, to@) == replaced(chars@, from@, to@),
        decreases n - i,
    {
        let ghost rest = chars@.skip(i as int);
        if m == 0 || n - i < m {
            proof {
                assert(rest.skip(1) =~= chars@.skip(i + 1));
                lemma_replaced_short(rest, from@, to@);
                lemma_replaced_short(rest.skip(1), from@, to@);
                assert(seq![rest.first()] + rest.skip(1) =~= rest);
                assert(out@.push(chars@[i as int]) + rest.skip(1) =~= out@ + rest);
            }
            out.push(chars[i]);
            i += 1;
        } else if occurs_at(chars, i, from) {
            proof {
                assert(rest.take(m as int) =~= chars@.subrange(i as int, i + m));
                assert(rest.skip(m as int) =~= chars@.skip(i + m));
            }
            let ghost before = out@;
            let mut j: usize = 0;
            while j < to.len()
                invariant
                    j <= to@.len(),
                    out@ == before + to@.take(j as int),
                decreases to@.len() - j,
            {
                out.push(to[j]);
                j += 1;
                assert(to@.take(j as int) =~= to@.take(j - 1).push(to@[j - 1]));
            }
            proof {
                assert(to@.take(to@.len() as int) =~= to@);
                assert((before + to@) + replaced(chars@.skip(i + m), from@, to@) =~= before + (to@
                    + replaced(chars@.skip(i + m), from@, to@)));
            }
            i += m;
        } else {
            proof {
                assert(rest.take(m as int) =~= chars@.subrange(i as int, i + m));
                assert(rest.skip(1) =~= chars@.skip(i + 1));
                assert(out@.push(chars@[i as int]) + replaced(chars@.skip(i + 1), from@, to@)
                    =~= out@ + (seq![rest.first()] + replaced(rest.skip(1), from@, to@)));
            }
            out.push(chars[i]);
            i += 1;
        }
    }
    assert(out@ + Seq::<char>::empty() =~= out@);
    out
}

/// A text shorter than `from`, or any text when `from` is empty, is left as
/// it is.
pub proof fn lemma_replaced_short(s: Seq<char>, from: Seq<char>, to: Seq<char>)
    requires
        from.len() == 0 || s.len() < from.len(),
    ensures
        replaced(s, from, to) == s,
{
}

} // verus!
