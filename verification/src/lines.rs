//! Splitting a text into its lines.
//!
//! A line ends at a line feed, or at the end of the text. A carriage return
//! that stands directly before the line feed belongs to the line ending. The
//! last line needs no line ending, and a text that ends with one has no empty
//! line after it.

use vstd::prelude::*;
use crate::text::{push_range, to_chars, views_of};

verus! {

/// The index of the first line feed in `s`, or the length of `s` if it holds
/// none.
pub open spec fn first_line_feed(s: Seq<char>) -> nat
    decreases s.len(),
{
    if s.len() == 0 {
        0
    } else if s[0] == '\n' {
        0
    } else {
        1 + first_line_feed(s.drop_first())
    }
}

/// A line without the carriage return that closed it, if one did.
pub open spec fn without_carriage_return(line: Seq<char>) -> Seq<char> {
    if line.len() > 0 && line.last() == '\r' {
        line.drop_last()
    } else {
        line
    }
}

/// The lines of `s`, in order, without their line endings.
pub open spec fn lines_of(s: Seq<char>) -> Seq<Seq<char>>
    decreases s.len(),
{
    if s.len() == 0 {
        Seq::empty()
    } else {
        let end = first_line_feed(s) as int;
        if end >= s.len() {
            seq![s]
        } else {
            seq![without_carriage_return(s.take(end))] + lines_of(s.skip(end + 1))
        }
    }
}

/// What `first_line_feed` says about the characters.
pub proof fn lemma_first_line_feed(s: Seq<char>)
    ensures
        0 <= first_line_feed(s) <= s.len(),
        forall|j: int| 0 <= j < first_line_feed(s) ==> #[trigger] s[j] != '\n',
        first_line_feed(s) < s.len() ==> s[first_line_feed(s) as int] == '\n',
    decreases s.len(),
{
    if s.len() > 0 && s[0] != '\n' {
        let rest = s.drop_first();
        lemma_first_line_feed(rest);
        assert forall|j: int| 0 <= j < first_line_feed(s) implies #[trigger] s[j] != '\n' by {
            if j > 0 {
                assert(s[j] == rest[j - 1]);
            }
        }
        if first_line_feed(s) < s.len() {
            assert(s[first_line_feed(s) as int] == rest[first_line_feed(rest) as int]);
        }
    }
}

/// The first line feed is where the first line feed stands.
pub proof fn lemma_first_line_feed_is(s: Seq<char>, k: int)
    requires
        0 <= k <= s.len(),
        forall|j: int| 0 <= j < k ==> #[trigger] s[j] != '\n',
        k < s.len() ==> s[k] == '\n',
    ensures
        first_line_feed(s) == k,
{
    lemma_first_line_feed(s);
    let f = first_line_feed(s) as int;
    if f < k {
        assert(s[f] != '\n');
    } else if k < f {
        assert(s[k] != '\n');
    }
}

/// No line holds a line feed.
pub proof fn lemma_lines_hold_no_line_feed(s: Seq<char>)
    ensures
        forall|i: int, j: int|
            0 <= i < lines_of(s).len() && 0 <= j < lines_of(s)[i].len() ==> #[trigger] lines_of(
                s,
            )[i][j] != '\n',
    decreases s.len(),
{
    if s.len() > 0 {
        lemma_first_line_feed(s);
        let end = first_line_feed(s) as int;
        if end < s.len() {
            let rest = s.skip(end + 1);
            lemma_lines_hold_no_line_feed(rest);
            let head = without_carriage_return(s.take(end));
            assert forall|i: int, j: int|
                0 <= i < lines_of(s).len() && 0 <= j < lines_of(s)[i].len() implies #[trigger] lines_of(
                s,
            )[i][j] != '\n' by {
                if i == 0 {
                    assert(lines_of(s)[0] == head);
                    assert(head[j] == s[j]);
                } else {
                    assert(lines_of(s)[i] == lines_of(rest)[i - 1]);
                }
            }
        }
    }
}

/// A text that is not empty and holds no line feed is its own single line.
pub proof fn lemma_lines_of_single(s: Seq<char>)
    requires
        s.len() > 0,
        forall|j: int| 0 <= j < s.len() ==> #[trigger] s[j] != '\n',
    ensures
        lines_of(s) == seq![s],
{
    lemma_first_line_feed_is(s, s.len() as int);
}

/// The bounds of the lines of `v`, in order: line `i` is
/// `v[ranges[i].0..ranges[i].1]`.
pub(crate) fn line_ranges(v: &Vec<char>) -> (ranges: Vec<(usize, usize)>)
    ensures
        ranges.len() == lines_of(v@).len(),
        forall|i: int|
            0 <= i < ranges.len() ==> {
                &&& (#[trigger] ranges[i]).0 <= ranges[i].1 <= v.len()
                &&& v@.subrange(ranges[i].0 as int, ranges[i].1 as int) == lines_of(v@)[i]
            },
{
    let n = v.len();
    let mut ranges: Vec<(usize, usize)> = Vec::new();
    let mut start: usize = 0;
    proof {
        assert(v@.skip(0) == v@);
    }
    while start < n
        invariant
            n == v.len(),
            start <= n,
            lines_of(v@) == Seq::new(
                ranges.len() as nat,
                |i: int| v@.subrange(ranges[i].0 as int, ranges[i].1 as int),
            ) + lines_of(v@.skip(start as int)),
            forall|i: int| 0 <= i < ranges.len() ==> (#[trigger] ranges[i]).0 <= ranges[i].1 <= n,
        decreases n - start,
    {
        let ghost rest = v@.skip(start as int);
        let ghost found = Seq::new(
            ranges.len() as nat,
            |i: int| v@.subrange(ranges[i].0 as int, ranges[i].1 as int),
        );
        let mut end: usize = start;
        while end < n && v[end] != '\n'
            invariant
                n == v.len(),
                start <= end <= n,
                forall|j: int| start <= j < end ==> #[trigger] v@[j] != '\n',
            decreases n - end,
        {
            end += 1;
        }
        proof {
            assert forall|j: int| 0 <= j < end - start implies #[trigger] rest[j] != '\n' by {
                assert(rest[j] == v@[start + j]);
            }
            lemma_first_line_feed_is(rest, end - start);
        }
        if end == n {
            ranges.push((start, end));
            proof {
                assert(rest == v@.subrange(start as int, end as int));
                assert(lines_of(rest) == seq![rest]);
                assert(lines_of(v@.skip(n as int)) == Seq::<Seq<char>>::empty());
                let now = Seq::new(
                    ranges.len() as nat,
                    |i: int| v@.subrange(ranges[i].0 as int, ranges[i].1 as int),
                );
                assert(now == found + seq![rest]);
            }
            start = n;
        } else {
            let stop: usize = if end > start && v[end - 1] == '\r' {
                end - 1
            } else {
                end
            };
            ranges.push((start, stop));
            proof {
                let raw = rest.take(end - start);
                assert(raw == v@.subrange(start as int, end as int));
                if raw.len() > 0 {
                    assert(raw.last() == v@[end - 1]);
                }
                assert(without_carriage_return(raw) == v@.subrange(start as int, stop as int));
                assert(rest.skip(end - start + 1) == v@.skip(end + 1));
                let now = Seq::new(
                    ranges.len() as nat,
                    |i: int| v@.subrange(ranges[i].0 as int, ranges[i].1 as int),
                );
                assert(now == found + seq![without_carriage_return(raw)]);
            }
            start = end + 1;
        }
    }
    proof {
        assert(lines_of(v@.skip(n as int)) == Seq::<Seq<char>>::empty());
    }
    ranges
}

/// The lines of `text`, in order, without their line endings.
pub fn split_lines(text: &str) -> (lines: Vec<String>)
    ensures
        views_of(lines@) == lines_of(text@),
{
    let v = to_chars(text);
    let ranges = line_ranges(&v);
    let mut lines: Vec<String> = Vec::new();
    let mut i: usize = 0;
    while i < ranges.len()
        invariant
            i <= ranges.len(),
            ranges.len() == lines_of(v@).len(),
            lines.len() == i,
            forall|k: int|
                0 <= k < ranges.len() ==> {
                    &&& (#[trigger] ranges[k]).0 <= ranges[k].1 <= v.len()
                    &&& v@.subrange(ranges[k].0 as int, ranges[k].1 as int) == lines_of(v@)[k]
                },
            forall|k: int| 0 <= k < i ==> (#[trigger] lines[k])@ == lines_of(v@)[k],
        decreases ranges.len() - i,
    {
        let (a, b) = ranges[i];
        let mut line = String::new();
        push_range(&mut line, &v, a, b);
        lines.push(line);
        i += 1;
    }
    proof {
        assert(views_of(lines@) =~= lines_of(text@));
    }
    lines
}

} // verus!
