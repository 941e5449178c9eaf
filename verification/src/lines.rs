//! Splitting a text into lines for line-granularity diffing.
//!
//! Each line keeps its trailing LF, so that a final line without a
//! terminator stays distinguishable from a terminated one; the empty text
//! has no lines.

use vstd::prelude::*;

verus! {

/// Length of the first line of `s`, terminator included; `s.len()` when no
/// LF occurs.
pub open spec fn first_line_len(s: Seq<char>) -> int
    decreases s.len(),
{
    if s.len() == 0 {
        0
    } else if s[0] == '\n' {
        1
    } else {
        1 + first_line_len(s.skip(1))
    }
}

pub proof fn lemma_first_line_len_bounds(s: Seq<char>)
    requires
        s.len() > 0,
    ensures
        1 <= first_line_len(s) <= s.len(),
    decreases s.len(),
{
    if s[0] != '\n' {
        if s.len() > 1 {
            lemma_first_line_len_bounds(s.skip(1));
        } else {
            assert(s.skip(1).len() == 0);
            assert(first_line_len(s.skip(1)) == 0);
        }
    }
}

/// The lines of `s`, each keeping its trailing LF if it has one. The guard
/// on `k` only justifies termination: `lemma_first_line_len_bounds` shows it
/// always holds of a nonempty text.
pub open spec fn lines_spec(s: Seq<char>) -> Seq<Seq<char>>
    decreases s.len(),
{
    if s.len() == 0 {
        Seq::empty()
    } else {
        let k = first_line_len(s);
        if 1 <= k <= s.len() {
            seq![s.take(k)] + lines_spec(s.skip(k))
        } else {
            Seq::empty()
        }
    }
}

/// Splitting loses nothing: the lines of `s` concatenate back to `s`.
pub proof fn lemma_lines_flatten(s: Seq<char>)
    ensures
        lines_spec(s).flatten() == s,
    decreases s.len(),
{
    if s.len() == 0 {
        assert(lines_spec(s).flatten() =~= s);
    } else {
        lemma_first_line_len_bounds(s);
        let k = first_line_len(s);
        lemma_lines_flatten(s.skip(k));
        let ls = seq![s.take(k)] + lines_spec(s.skip(k));
        assert(lines_spec(s) == ls);
        assert(ls.first() == s.take(k));
        assert(ls.drop_first() =~= lines_spec(s.skip(k)));
        assert(ls.flatten() == ls.first() + ls.drop_first().flatten());
        assert(lines_spec(s).flatten() =~= s.take(k) + s.skip(k));
        assert(s.take(k) + s.skip(k) =~= s);
    }
}

/// If no LF occurs before `m` and either `m` is the end or an LF stands at
/// `m`, then the first line ends there.
proof fn lemma_first_line_len_at(s: Seq<char>, m: int)
    requires
        0 <= m <= s.len(),
        forall|j: int| 0 <= j < m ==> s[j] != '\n',
        m == s.len() || s[m] == '\n',
    ensures
        first_line_len(s) == if m < s.len() {
            m + 1
        } else {
            m
        },
    decreases m,
{
    if s.len() == 0 {
    } else if m == 0 {
    } else {
        assert(s[0] != '\n');
        assert(forall|j: int| 0 <= j < m - 1 ==> s.skip(1)[j] != '\n');
        assert(m - 1 == s.skip(1).len() || s.skip(1)[m - 1] == '\n');
        lemma_first_line_len_at(s.skip(1), m - 1);
    }
}

/// Splits `s` into its lines, terminators kept.
pub fn split_lines(s: &str) -> (v: Vec<String>)
    ensures
        v.deep_view() == lines_spec(s@),
{
    let n = s.unicode_len();
    let mut v: Vec<String> = Vec::new();
    let mut start: usize = 0;
    proof {
        assert(s@.skip(0) =~= s@);
        assert(Seq::<Seq<char>>::empty() + lines_spec(s@) =~= lines_spec(s@));
    }
    while start < n
        invariant
            s@.len() == n as int,
            start <= n,
            lines_spec(s@) == v.deep_view() + lines_spec(s@.skip(start as int)),
        decreases n - start,
    {
        let ghost rest = s@.skip(start as int);
        let ghost v0 = v.deep_view();
        let mut end = start;
        while end < n && s.get_char(end) != '\n'
            invariant
                s@.len() == n as int,
                start <= end <= n,
                forall|j: int| start <= j < end ==> s@[j] != '\n',
            decreases n - end,
        {
            end = end + 1;
        }
        let stop = if end < n {
            end + 1
        } else {
            end
        };
        proof {
            assert(forall|j: int| 0 <= j < end - start ==> rest[j] != '\n');
            assert(end - start == rest.len() || rest[end - start] == '\n');
            lemma_first_line_len_at(rest, end - start);
            assert(first_line_len(rest) == stop - start);
            lemma_first_line_len_bounds(rest);
        }
        let line = s.substring_char(start, stop).to_owned();
        v.push(line);
        proof {
            assert(line@ =~= rest.take(first_line_len(rest)));
            assert(v.deep_view() =~= v0 + seq![line@]);
            assert(lines_spec(rest) == seq![rest.take(first_line_len(rest))] + lines_spec(
                rest.skip(first_line_len(rest)),
            ));
            assert(rest.skip(first_line_len(rest)) =~= s@.skip(stop as int));
            assert(v0 + lines_spec(rest) =~= v.deep_view() + lines_spec(s@.skip(stop as int)));
        }
        start = stop;
    }
    proof {
        assert(s@.skip(n as int) =~= Seq::<char>::empty());
        assert(v.deep_view() + lines_spec(Seq::<char>::empty()) =~= v.deep_view());
    }
    v
}

} // verus!
