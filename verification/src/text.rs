//! Text primitives on sequences of characters.
//!
//! Every contract in this crate speaks of strings through their view, a
//! `Seq<char>`. The functions here search, rewrite and split such sequences;
//! each one is specified by a spec function of the same meaning.

use vstd::prelude::*;
use vstd::string::StringExecFns;

verus! {

/// Appends one character to a string.
///
/// Trusted: stands for `String::push`, which appends the given `char` to the
/// end of the string.
#[verifier::external_body]
pub(crate) fn push_char(s: &mut String, c: char)
    ensures
        final(s)@ == old(s)@.push(c),
{
    s.push(c)
}

/// The lowercase form of a text, as `str::to_lowercase` computes it.
pub uninterp spec fn lowercase(s: Seq<char>) -> Seq<char>;

/// Lowercases a text.
///
/// Trusted: stands for `str::to_lowercase`. The Unicode case mapping is not
/// spelled out here; the result is only named, as a function of the input.
#[verifier::external_body]
pub(crate) fn to_lowercase(s: &str) -> (r: String)
    ensures
        r@ == lowercase(s@),
{
    s.to_lowercase()
}

/// Whether a character has the Unicode `White_Space` property: the controls
/// from tab to carriage return, the space, next line, the no-break space, the
/// ogham space mark, the spaces from en quad to hair space, the line and
/// paragraph separators, the narrow no-break space, the medium mathematical
/// space and the ideographic space.
pub open spec fn is_whitespace(c: char) -> bool {
    let p = c as u32;
    ||| 0x0009 <= p <= 0x000D
    ||| p == 0x0020
    ||| p == 0x0085
    ||| p == 0x00A0
    ||| p == 0x1680
    ||| 0x2000 <= p <= 0x200A
    ||| p == 0x2028
    ||| p == 0x2029
    ||| p == 0x202F
    ||| p == 0x205F
    ||| p == 0x3000
}

/// Tests a character for whitespace.
///
/// Trusted: stands for `char::is_whitespace`, which says whether the
/// character has the `White_Space` property of the Unicode character
/// database. Claims that these are the code points that `is_whitespace`
/// lists.
#[verifier::external_body]
pub(crate) fn char_is_whitespace(c: char) -> (b: bool)
    ensures
        b == is_whitespace(c),
{
    c.is_whitespace()
}

/// The characters of a string, in order.
pub fn chars_of(s: &str) -> (v: Vec<char>)
    ensures
        v@ == s@,
{
    let mut v: Vec<char> = Vec::new();
    for c in it: s.chars()
        invariant
            v@ == it.seq().take(it.index() as int),
            it.seq() == s@,
    {
        v.push(c);
    }
    v
}

/// The string made of `v[from..to]`.
pub fn string_of_range(v: &Vec<char>, from: usize, to: usize) -> (s: String)
    requires
        from <= to <= v.len(),
    ensures
        s@ == v@.subrange(from as int, to as int),
{
    let mut s = String::new();
    let mut i: usize = from;
    while i < to
        invariant
            from <= i <= to <= v.len(),
            s@ == v@.subrange(from as int, i as int),
        decreases to - i,
    {
        push_char(&mut s, v[i]);
        i += 1;
    }
    s
}

/// The string made of all of `v`.
pub fn string_of(v: &Vec<char>) -> (s: String)
    ensures
        s@ == v@,
{
    let s = string_of_range(v, 0, v.len());
    assert(v@.subrange(0, v.len() as int) =~= v@);
    s
}

/// Whether two strings hold the same characters.
pub fn str_eq(a: &str, b: &str) -> (r: bool)
    ensures
        r == (a@ == b@),
{
    let x = String::from_str(a);
    let y = String::from_str(b);
    x == y
}

/// A copy of a list of strings.
pub fn clone_strings(v: &Vec<String>) -> (r: Vec<String>)
    ensures
        r.deep_view() == v.deep_view(),
{
    let mut r: Vec<String> = Vec::new();
    let mut i: usize = 0;
    while i < v.len()
        invariant
            i <= v.len(),
            r.len() == i,
            forall|j: int| 0 <= j < i ==> r[j]@ == v[j]@,
        decreases v.len() - i,
    {
        r.push(v[i].clone());
        i += 1;
    }
    assert(r.deep_view() =~= v.deep_view());
    r
}

/// A copy of a list of pairs of strings.
pub fn clone_pairs(v: &Vec<(String, String)>) -> (r: Vec<(String, String)>)
    ensures
        r.deep_view() == v.deep_view(),
{
    let mut r: Vec<(String, String)> = Vec::new();
    let mut i: usize = 0;
    while i < v.len()
        invariant
            i <= v.len(),
            r.len() == i,
            forall|j: int| 0 <= j < i ==> r[j].0@ == v[j].0@ && r[j].1@ == v[j].1@,
        decreases v.len() - i,
    {
        r.push((v[i].0.clone(), v[i].1.clone()));
        i += 1;
    }
    assert(r.deep_view() =~= v.deep_view());
    r
}

/// Whether `x` is among `v`.
pub fn contains_string(v: &Vec<String>, x: &str) -> (b: bool)
    ensures
        b == v.deep_view().contains(x@),
{
    let mut i: usize = 0;
    while i < v.len()
        invariant
            i <= v.len(),
            forall|j: int| 0 <= j < i ==> v.deep_view()[j] != x@,
        decreases v.len() - i,
    {
        assert(v.deep_view()[i as int] == v[i as int]@);
        if str_eq(v[i].as_str(), x) {
            return true;
        }
        i += 1;
    }
    false
}

// ---------------------------------------------------------------------------
// Searching

/// `needle` stands in `hay` at position `i`.
pub open spec fn occurs_at(hay: Seq<char>, needle: Seq<char>, i: int) -> bool {
    &&& 0 <= i
    &&& i + needle.len() <= hay.len()
    &&& hay.subrange(i, i + needle.len()) == needle
}

/// `needle` stands somewhere in `hay`.
pub open spec fn contains_seq(hay: Seq<char>, needle: Seq<char>) -> bool {
    exists|i: int| occurs_at(hay, needle, i)
}

/// Tests whether `needle` stands in `hay` at position `i`.
pub fn occurs_at_index(hay: &Vec<char>, needle: &Vec<char>, i: usize) -> (b: bool)
    ensures
        b == occurs_at(hay@, needle@, i as int),
{
    if needle.len() > hay.len() || i > hay.len() - needle.len() {
        return false;
    }
    let mut k: usize = 0;
    while k < needle.len()
        invariant
            k <= needle.len(),
            i + needle.len() <= hay.len(),
            forall|j: int| 0 <= j < k ==> hay@[i + j] == needle@[j],
        decreases needle.len() - k,
    {
        if hay[i + k] != needle[k] {
            assert(hay@.subrange(i as int, i + needle.len())[k as int] == hay@[i + k]);
            return false;
        }
        k += 1;
    }
    assert(hay@.subrange(i as int, i + needle.len()) =~= needle@);
    true
}

/// The first position at or after `start` where `needle` stands in `hay`.
pub fn find_from(hay: &Vec<char>, needle: &Vec<char>, start: usize) -> (r: Option<usize>)
    ensures
        match r {
            Some(i) => start <= i && occurs_at(hay@, needle@, i as int) && forall|j: int|
                start <= j < i ==> !occurs_at(hay@, needle@, j),
            None => forall|j: int| start <= j ==> !occurs_at(hay@, needle@, j),
        },
{
    let mut i: usize = start;
    while i <= hay.len()
        invariant
            start <= i,
            forall|j: int| start <= j < i ==> !occurs_at(hay@, needle@, j),
        decreases hay.len() + 1 - i,
    {
        if occurs_at_index(hay, needle, i) {
            return Some(i);
        }
        if i == hay.len() {
            return None;
        }
        i += 1;
    }
    None
}

/// Tests whether `needle` stands somewhere in `hay`.
pub fn contains_chars(hay: &Vec<char>, needle: &Vec<char>) -> (b: bool)
    ensures
        b == contains_seq(hay@, needle@),
{
    find_from(hay, needle, 0).is_some()
}

/// Tests whether `needle` stands somewhere in `hay`.
pub fn contains(hay: &str, needle: &str) -> (b: bool)
    ensures
        b == contains_seq(hay@, needle@),
{
    let h = chars_of(hay);
    let n = chars_of(needle);
    contains_chars(&h, &n)
}

// ---------------------------------------------------------------------------
// Replacing and counting

/// `hay` with every occurrence of `from` replaced by `to`, scanning from the
/// left and never looking again at what was already replaced. An empty `from`
/// occurs nowhere.
pub open spec fn replace_all(hay: Seq<char>, from: Seq<char>, to: Seq<char>) -> Seq<char>
    decreases hay.len(),
{
    if from.len() == 0 || hay.len() < from.len() {
        hay
    } else if hay.subrange(0, from.len() as int) == from {
        to + replace_all(hay.subrange(from.len() as int, hay.len() as int), from, to)
    } else {
        seq![hay[0]] + replace_all(hay.subrange(1, hay.len() as int), from, to)
    }
}

/// Replaces every occurrence of `from` in `hay` by `to`.
pub fn replace_chars(hay: &Vec<char>, from: &Vec<char>, to: &Vec<char>) -> (r: Vec<char>)
    ensures
        r@ == replace_all(hay@, from@, to@),
{
    let mut out: Vec<char> = Vec::new();
    let n = hay.len();
    let mut i: usize = 0;
    if from.len() == 0 {
        while i < n
            invariant
                i <= n,
                n == hay.len(),
                out@ == hay@.take(i as int),
            decreases n - i,
        {
            out.push(hay[i]);
            i += 1;
        }
        assert(hay@.take(n as int) =~= hay@);
        return out;
    }
    assert(hay@.subrange(0, n as int) =~= hay@);
    while i < n
        invariant
            i <= n,
            n == hay.len(),
            from.len() > 0,
            out@ + replace_all(hay@.subrange(i as int, n as int), from@, to@) == replace_all(
                hay@,
                from@,
                to@,
            ),
        decreases n - i,
    {
        let ghost rest = hay@.subrange(i as int, n as int);
        let ghost before = out@;
        if occurs_at_index(hay, from, i) {
            let mut k: usize = 0;
            while k < to.len()
                invariant
                    k <= to.len(),
                    out@ == before + to@.take(k as int),
                decreases to.len() - k,
            {
                out.push(to[k]);
                k += 1;
            }
            proof {
                assert(to@.take(to.len() as int) =~= to@);
                assert(rest.subrange(0, from.len() as int) =~= hay@.subrange(
                    i as int,
                    i + from.len(),
                ));
                assert(rest.subrange(from.len() as int, rest.len() as int) =~= hay@.subrange(
                    i + from.len(),
                    n as int,
                ));
                assert(out@ + replace_all(hay@.subrange(i + from.len(), n as int), from@, to@)
                    =~= before + replace_all(rest, from@, to@));
            }
            i += from.len();
        } else {
            out.push(hay[i]);
            proof {
                if rest.len() >= from.len() {
                    assert(rest.subrange(0, from.len() as int) =~= hay@.subrange(
                        i as int,
                        i + from.len(),
                    ));
                }
                assert(rest.subrange(1, rest.len() as int) =~= hay@.subrange(i + 1, n as int));
                assert(rest[0] == hay@[i as int]);
                if rest.len() < from.len() {
                    lemma_replace_short(hay@.subrange(i + 1, n as int), from@, to@);
                    assert(seq![hay@[i as int]] + hay@.subrange(i + 1, n as int) =~= rest);
                }
                assert(out@ + replace_all(hay@.subrange(i + 1, n as int), from@, to@) =~= before
                    + replace_all(rest, from@, to@));
            }
            i += 1;
        }
    }
    assert(hay@.subrange(n as int, n as int) =~= Seq::<char>::empty());
    assert(out@ + Seq::<char>::empty() =~= out@);
    out
}

/// A text shorter than the pattern is left as it is.
pub proof fn lemma_replace_short(hay: Seq<char>, from: Seq<char>, to: Seq<char>)
    requires
        hay.len() < from.len(),
    ensures
        replace_all(hay, from, to) == hay,
{
}

/// Replaces every occurrence of `from` in `hay` by `to`.
pub fn replace(hay: &str, from: &str, to: &str) -> (r: String)
    ensures
        r@ == replace_all(hay@, from@, to@),
{
    let h = chars_of(hay);
    let f = chars_of(from);
    let t = chars_of(to);
    let out = replace_chars(&h, &f, &t);
    string_of(&out)
}

/// How many times `needle` occurs in `hay`, scanning from the left and never
/// counting overlapping occurrences. The empty text occurs once at every
/// position, the end included.
pub open spec fn count_occurrences(hay: Seq<char>, needle: Seq<char>) -> nat
    decreases hay.len(),
{
    if needle.len() == 0 {
        hay.len() + 1
    } else if hay.len() < needle.len() {
        0
    } else if hay.subrange(0, needle.len() as int) == needle {
        1 + count_occurrences(hay.subrange(needle.len() as int, hay.len() as int), needle)
    } else {
        count_occurrences(hay.subrange(1, hay.len() as int), needle)
    }
}

/// A text counts at least one occurrence exactly when it contains the other.
pub proof fn lemma_count_positive(hay: Seq<char>, needle: Seq<char>)
    ensures
        count_occurrences(hay, needle) > 0 <==> contains_seq(hay, needle),
    decreases hay.len(),
{
    if needle.len() == 0 {
        assert(hay.subrange(0, 0) =~= needle);
        assert(occurs_at(hay, needle, 0));
    } else if hay.len() < needle.len() {
    } else if hay.subrange(0, needle.len() as int) == needle {
        assert(occurs_at(hay, needle, 0));
    } else {
        let rest = hay.subrange(1, hay.len() as int);
        lemma_count_positive(rest, needle);
        if contains_seq(rest, needle) {
            let i = choose|i: int| occurs_at(rest, needle, i);
            assert(hay.subrange(i + 1, i + 1 + needle.len()) =~= rest.subrange(
                i,
                i + needle.len(),
            ));
            assert(occurs_at(hay, needle, i + 1));
        }
        if contains_seq(hay, needle) {
            let i = choose|i: int| occurs_at(hay, needle, i);
            assert(i != 0);
            assert(rest.subrange(i - 1, i - 1 + needle.len()) =~= hay.subrange(
                i,
                i + needle.len(),
            ));
            assert(occurs_at(rest, needle, i - 1));
        }
    }
}

/// Counts the occurrences of `needle` in `hay`. The count is capped at
/// `usize::MAX`, which only an empty `needle` could ever reach.
pub fn count_chars(hay: &Vec<char>, needle: &Vec<char>) -> (n: usize)
    ensures
        n as nat == if count_occurrences(hay@, needle@) <= usize::MAX {
            count_occurrences(hay@, needle@)
        } else {
            usize::MAX as nat
        },
{
    let len = hay.len();
    if needle.len() == 0 {
        if len == usize::MAX {
            return usize::MAX;
        }
        return len + 1;
    }
    let mut count: usize = 0;
    let mut i: usize = 0;
    assert(hay@.subrange(0, len as int) =~= hay@);
    while i < len
        invariant
            i <= len,
            len == hay.len(),
            needle.len() > 0,
            count <= i,
            count + count_occurrences(hay@.subrange(i as int, len as int), needle@)
                == count_occurrences(hay@, needle@),
        decreases len - i,
    {
        let ghost rest = hay@.subrange(i as int, len as int);
        if occurs_at_index(hay, needle, i) {
            proof {
                assert(rest.subrange(0, needle.len() as int) =~= hay@.subrange(
                    i as int,
                    i + needle.len(),
                ));
                assert(rest.subrange(needle.len() as int, rest.len() as int) =~= hay@.subrange(
                    i + needle.len(),
                    len as int,
                ));
            }
            count += 1;
            i += needle.len();
        } else {
            proof {
                if rest.len() >= needle.len() {
                    assert(rest.subrange(0, needle.len() as int) =~= hay@.subrange(
                        i as int,
                        i + needle.len(),
                    ));
                }
                assert(rest.subrange(1, rest.len() as int) =~= hay@.subrange(i + 1, len as int));
            }
            i += 1;
        }
    }
    assert(hay@.subrange(len as int, len as int).len() == 0);
    count
}

} // verus!
