//! Trimming and splitting of texts: surrounding whitespace, lines, words.

use vstd::prelude::*;
use crate::text::{char_is_whitespace, is_whitespace, string_of_range};

verus! {

/// The number of whitespace characters that `s` begins with.
pub open spec fn leading_whitespace(s: Seq<char>) -> nat
    decreases s.len(),
{
    if s.len() > 0 && is_whitespace(s[0]) {
        1 + leading_whitespace(s.drop_first())
    } else {
        0
    }
}

/// The number of whitespace characters that `s` ends with.
pub open spec fn trailing_whitespace(s: Seq<char>) -> nat
    decreases s.len(),
{
    if s.len() > 0 && is_whitespace(s.last()) {
        1 + trailing_whitespace(s.drop_last())
    } else {
        0
    }
}

/// `s` without the whitespace it begins and ends with.
pub open spec fn trimmed(s: Seq<char>) -> Seq<char> {
    let rest = s.skip(leading_whitespace(s) as int);
    rest.take(rest.len() - trailing_whitespace(rest))
}

/// The bounds of `trimmed(v)` within `v`.
pub fn trim_bounds(v: &Vec<char>) -> (r: (usize, usize))
    ensures
        r.0 <= r.1 <= v.len(),
        v@.subrange(r.0 as int, r.1 as int) == trimmed(v@),
{
    let n = v.len();
    let mut start: usize = 0;
    assert(v@.skip(0) =~= v@);
    while start < n && char_is_whitespace(v[start])
        invariant
            start <= n,
            n == v.len(),
            leading_whitespace(v@) == start + leading_whitespace(v@.skip(start as int)),
        decreases n - start,
    {
        assert(v@.skip(start as int).drop_first() =~= v@.skip(start + 1));
        start += 1;
    }
    assert(leading_whitespace(v@) == start) by {
        if start < n {
            assert(v@.skip(start as int)[0] == v@[start as int]);
        }
    }
    let ghost rest = v@.skip(start as int);
    let mut end: usize = n;
    assert(rest.take(n - start) =~= rest);
    while end > start && char_is_whitespace(v[end - 1])
        invariant
            start <= end <= n,
            n == v.len(),
            rest == v@.skip(start as int),
            trailing_whitespace(rest) == (n - end) + trailing_whitespace(
                rest.take(end - start),
            ),
        decreases end,
    {
        assert(rest.take(end - start).drop_last() =~= rest.take(end - 1 - start));
        assert(rest.take(end - start).last() == v@[end - 1]);
        end -= 1;
    }
    assert(trailing_whitespace(rest) == n - end) by {
        if end > start {
            assert(rest.take(end - start).last() == v@[end - 1]);
        }
    }
    assert(v@.subrange(start as int, end as int) =~= rest.take(rest.len() - (n - end)));
    (start, end)
}

/// `v` without the whitespace it begins and ends with.
pub fn trim_chars(v: &Vec<char>) -> (r: Vec<char>)
    ensures
        r@ == trimmed(v@),
{
    let (start, end) = trim_bounds(v);
    copy_range(v, start, end)
}

/// A copy of `v[from..to]`.
pub fn copy_range(v: &Vec<char>, from: usize, to: usize) -> (r: Vec<char>)
    requires
        from <= to <= v.len(),
    ensures
        r@ == v@.subrange(from as int, to as int),
{
    let mut r: Vec<char> = Vec::new();
    let mut i: usize = from;
    while i < to
        invariant
            from <= i <= to <= v.len(),
            r@ == v@.subrange(from as int, i as int),
        decreases to - i,
    {
        r.push(v[i]);
        i += 1;
    }
    r
}

// ---------------------------------------------------------------------------
// Lines

/// The position of the first line feed at or after `i`, or the length of `s`
/// where there is none.
pub open spec fn line_end(s: Seq<char>, i: int) -> int
    decreases s.len() - i,
{
    if i < 0 || i >= s.len() {
        s.len() as int
    } else if s[i] == '\n' {
        i
    } else {
        line_end(s, i + 1)
    }
}

/// `line` without one carriage return at its end.
pub open spec fn strip_cr(line: Seq<char>) -> Seq<char> {
    if line.len() > 0 && line.last() == '\r' {
        line.drop_last()
    } else {
        line
    }
}

/// The lines of `s` from position `i` on. A line ends at a line feed, or at a
/// carriage return directly before one; neither belongs to the line. What
/// follows the last line feed is a line only if it is not empty.
pub open spec fn lines_from(s: Seq<char>, i: int) -> Seq<Seq<char>>
    decreases s.len() - i,
{
    if i < 0 || i >= s.len() {
        Seq::empty()
    } else {
        let e = line_end(s, i);
        if e >= s.len() {
            seq![s.subrange(i, s.len() as int)]
        } else if e < i {
            Seq::empty()
        } else {
            seq![strip_cr(s.subrange(i, e))] + lines_from(s, e + 1)
        }
    }
}

/// The lines of `s`.
pub open spec fn lines_of(s: Seq<char>) -> Seq<Seq<char>> {
    lines_from(s, 0)
}

/// Splits `v` into its lines.
pub fn lines(v: &Vec<char>) -> (r: Vec<Vec<char>>)
    ensures
        r.deep_view() == lines_of(v@),
{
    let n = v.len();
    let mut out: Vec<Vec<char>> = Vec::new();
    let mut i: usize = 0;
    assert(out.deep_view() + lines_from(v@, 0) =~= lines_of(v@));
    while i < n
        invariant
            i <= n,
            n == v.len(),
            out.deep_view() + lines_from(v@, i as int) == lines_of(v@),
        decreases n - i,
    {
        let ghost before = out.deep_view();
        let mut e: usize = i;
        while e < n && v[e] != '\n'
            invariant
                i <= e <= n,
                n == v.len(),
                line_end(v@, e as int) == line_end(v@, i as int),
            decreases n - e,
        {
            e += 1;
        }
        if e == n {
            let line = copy_range(v, i, n);
            assert(line.deep_view() =~= line@);
            out.push(line);
            proof {
                assert(out.deep_view() =~= before.push(v@.subrange(i as int, n as int)));
                assert(lines_from(v@, n as int) =~= Seq::<Seq<char>>::empty());
                assert(out.deep_view() + lines_from(v@, n as int) =~= before + lines_from(
                    v@,
                    i as int,
                ));
            }
            i = n;
        } else {
            let stop: usize = if e > i && v[e - 1] == '\r' {
                e - 1
            } else {
                e
            };
            let line = copy_range(v, i, stop);
            assert(line.deep_view() =~= line@);
            out.push(line);
            proof {
                let whole = v@.subrange(i as int, e as int);
                if e > i {
                    assert(whole.last() == v@[e - 1]);
                    assert(whole.drop_last() =~= v@.subrange(i as int, e - 1));
                }
                assert(v@.subrange(i as int, stop as int) == strip_cr(whole));
                assert(out.deep_view() =~= before.push(strip_cr(whole)));
                assert(out.deep_view() + lines_from(v@, e + 1) =~= before + lines_from(
                    v@,
                    i as int,
                ));
            }
            i = e + 1;
        }
    }
    assert(out.deep_view() + Seq::<Seq<char>>::empty() =~= out.deep_view());
    out
}

// ---------------------------------------------------------------------------
// Words

/// What is left to emit when a word ends: the word, unless it is empty.
pub open spec fn flush(word: Seq<char>) -> Seq<Seq<char>> {
    if word.len() > 0 {
        seq![word]
    } else {
        Seq::empty()
    }
}

/// The words of `s` from position `i` on, where `word` holds the characters
/// of the word that position `i` continues. Words are the longest runs of
/// characters that are not whitespace.
pub open spec fn words_from(s: Seq<char>, i: int, word: Seq<char>) -> Seq<Seq<char>>
    decreases s.len() - i,
{
    if i < 0 || i >= s.len() {
        flush(word)
    } else if is_whitespace(s[i]) {
        flush(word) + words_from(s, i + 1, Seq::empty())
    } else {
        words_from(s, i + 1, word.push(s[i]))
    }
}

/// The words of `s`.
pub open spec fn words_of(s: Seq<char>) -> Seq<Seq<char>> {
    words_from(s, 0, Seq::empty())
}

/// Splits `v` into its words.
pub fn words(v: &Vec<char>) -> (r: Vec<String>)
    ensures
        r.deep_view() == words_of(v@),
{
    let n = v.len();
    let mut out: Vec<String> = Vec::new();
    let mut start: usize = 0;
    let mut i: usize = 0;
    assert(v@.subrange(0, 0) =~= Seq::<char>::empty());
    assert(out.deep_view() + words_of(v@) =~= words_of(v@));
    while i < n
        invariant
            start <= i <= n,
            n == v.len(),
            out.deep_view() + words_from(v@, i as int, v@.subrange(start as int, i as int))
                == words_of(v@),
        decreases n - i,
    {
        let ghost before = out.deep_view();
        let ghost word = v@.subrange(start as int, i as int);
        if char_is_whitespace(v[i]) {
            if i > start {
                let w = string_of_range(v, start, i);
                out.push(w);
                assert(out.deep_view() =~= before.push(word));
            }
            proof {
                assert(v@.subrange(i + 1, i + 1) =~= Seq::<char>::empty());
                assert(out.deep_view() + words_from(v@, i + 1, Seq::empty()) =~= before
                    + words_from(v@, i as int, word));
            }
            start = i + 1;
        } else {
            assert(word.push(v@[i as int]) =~= v@.subrange(start as int, i + 1));
        }
        i += 1;
    }
    let ghost before = out.deep_view();
    if n > start {
        let w = string_of_range(v, start, n);
        out.push(w);
        assert(out.deep_view() =~= before.push(v@.subrange(start as int, n as int)));
    }
    assert(out.deep_view() =~= before + flush(v@.subrange(start as int, n as int)));
    out
}

} // verus!
