//! Text as lines: splitting at line feeds and joining with a separator.

use vstd::prelude::*;
use vstd::slice::slice_to_vec;

use crate::chars::{append, find_char, index_of};

verus! {

/// `line` without one trailing carriage return.
pub open spec fn without_cr(line: Seq<char>) -> Seq<char> {
    if line.len() > 0 && line.last() == '\r' {
        line.drop_last()
    } else {
        line
    }
}

/// The lines of `s`. A line ends at a line feed, which is not part of it,
/// nor is a carriage return just before that line feed. What follows the
/// last line feed is a line unless it is empty.
pub open spec fn lines_of(s: Seq<char>) -> Seq<Seq<char>>
    decreases s.len(),
{
    if s.len() == 0 {
        Seq::empty()
    } else {
        let n = index_of(s, '\n');
        if n < 0 || n >= s.len() {
            seq![s]
        } else {
            seq![without_cr(s.take(n))] + lines_of(s.skip(n + 1))
        }
    }
}

/// The character sequences that the vectors of `v` hold.
pub open spec fn line_views(v: Seq<Vec<char>>) -> Seq<Seq<char>> {
    Seq::new(v.len(), |i: int| v[i]@)
}

/// Splits `s` into its lines.
pub fn split_lines(s: &[char]) -> (out: Vec<Vec<char>>)
    ensures
        line_views(out@) == lines_of(s@),
{
    let mut out: Vec<Vec<char>> = Vec::new();
    let mut i: usize = 0;
    assert(s@.skip(0) == s@);
    while i < s.len()
        invariant
            i <= s.len(),
            lines_of(s@) == line_views(out@) + lines_of(s@.skip(i as int)),
        decreases s.len() - i,
    {
        let rest = &s[i..s.len()];
        assert(rest@ == s@.skip(i as int));
        let n = find_char(rest, '\n');
        let ghost before = out@;
        if n >= rest.len() {
            out.push(slice_to_vec(rest));
            i = s.len();
            assert(line_views(out@) == line_views(before) + seq![rest@]);
        } else {
            let mut end: usize = n;
            if end > 0 && rest[end - 1] == '\r' {
                end -= 1;
            }
            let line = &rest[0..end];
            assert(line@ == without_cr(rest@.take(n as int)));
            out.push(slice_to_vec(line));
            assert(line_views(out@) == line_views(before) + seq![line@]);
            assert(rest@.skip(n + 1) == s@.skip(i + n + 1));
            i = i + n + 1;
        }
    }
    out
}

/// The lines joined by `sep`: `sep` stands between each two neighbours.
pub open spec fn joined(lines: Seq<Seq<char>>, sep: Seq<char>) -> Seq<char>
    decreases lines.len(),
{
    if lines.len() == 0 {
        Seq::empty()
    } else if lines.len() == 1 {
        lines[0]
    } else {
        joined(lines.drop_last(), sep) + sep + lines.last()
    }
}

/// Joins the lines, with `sep` between each two neighbours.
pub fn join(lines: &[Vec<char>], sep: &[char]) -> (out: Vec<char>)
    ensures
        out@ == joined(line_views(lines@), sep@),
{
    let mut out: Vec<char> = Vec::new();
    let mut i: usize = 0;
    let ghost all = line_views(lines@);
    while i < lines.len()
        invariant
            i <= lines.len(),
            all == line_views(lines@),
            out@ == joined(all.take(i as int), sep@),
        decreases lines.len() - i,
    {
        if i > 0 {
            append(&mut out, sep);
        }
        append(&mut out, lines[i].as_slice());
        assert(all.take(i + 1).drop_last() == all.take(i as int));
        i += 1;
    }
    assert(all.take(lines.len() as int) == all);
    out
}

} // verus!
