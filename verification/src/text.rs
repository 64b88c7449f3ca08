//! Character-level helpers shared by the parsers and the renderer: conversion
//! between strings and character vectors, white space, trimming, line
//! splitting and substring search, each with its mathematical counterpart.

use vstd::prelude::*;

verus! {

/// `String::push` of std, which appends one character to a string: the
/// string afterwards is the string before, followed by `ch`. This is taken
/// from std's documentation and is not proved here.
pub assume_specification[ String::push ](s: &mut String, ch: char)
    ensures
        final(s)@ == old(s)@.push(ch),
;

/// The views of a list of texts.
pub open spec fn texts(list: Seq<String>) -> Seq<Seq<char>> {
    Seq::new(list.len(), |i: int| list[i]@)
}

/// The characters of `s`, in order.
pub fn chars_of(s: &str) -> (v: Vec<char>)
    ensures
        v@ == s@,
{
    let mut v: Vec<char> = Vec::new();
    for c in it: s.chars()
        invariant
            it.seq() == s@,
            v@ == it.seq().take(it.index() as int),
    {
        v.push(c);
    }
    v
}

/// Appends the characters `v[from..to]` to `out`.
pub(crate) fn push_range(out: &mut String, v: &Vec<char>, from: usize, to: usize)
    requires
        from <= to <= v.len(),
    ensures
        final(out)@ == old(out)@ + v@.subrange(from as int, to as int),
{
    let mut i: usize = from;
    while i < to
        invariant
            from <= i <= to <= v.len(),
            out@ == old(out)@ + v@.subrange(from as int, i as int),
        decreases to - i,
    {
        out.push(v[i]);
        i += 1;
    }
}

/// The text `v[from..to]` as a string of its own.
pub(crate) fn string_of(v: &Vec<char>, from: usize, to: usize) -> (s: String)
    requires
        from <= to <= v.len(),
    ensures
        s@ == v@.subrange(from as int, to as int),
{
    let mut s = String::new();
    push_range(&mut s, v, from, to);
    s
}

/// White space in the sense of Unicode's `White_Space` property.
pub open spec fn is_space(c: char) -> bool {
    let n = c as u32;
    ||| 0x09 <= n <= 0x0d
    ||| n == 0x20
    ||| n == 0x85
    ||| n == 0xa0
    ||| n == 0x1680
    ||| 0x2000 <= n <= 0x200a
    ||| n == 0x2028
    ||| n == 0x2029
    ||| n == 0x202f
    ||| n == 0x205f
    ||| n == 0x3000
}

/// Whether `c` is white space.
pub fn is_whitespace(c: char) -> (b: bool)
    ensures
        b == is_space(c),
{
    let n: u32 = c as u32;
    (0x09 <= n && n <= 0x0d) || n == 0x20 || n == 0x85 || n == 0xa0 || n == 0x1680 || (0x2000 <= n
        && n <= 0x200a) || n == 0x2028 || n == 0x2029 || n == 0x202f || n == 0x205f || n == 0x3000
}

/// `s` without its leading white space.
pub open spec fn trim_start(s: Seq<char>) -> Seq<char>
    decreases s.len(),
{
    if s.len() > 0 && is_space(s[0]) {
        trim_start(s.drop_first())
    } else {
        s
    }
}

/// `s` without its trailing white space.
pub open spec fn trim_end(s: Seq<char>) -> Seq<char>
    decreases s.len(),
{
    if s.len() > 0 && is_space(s.last()) {
        trim_end(s.drop_last())
    } else {
        s
    }
}

/// `s` without leading and trailing white space.
pub open spec fn trim(s: Seq<char>) -> Seq<char> {
    trim_end(trim_start(s))
}

/// Skipping `n` leading white-space characters that are followed by the end
/// of `s` or by a character that is no white space is `trim_start`.
pub proof fn lemma_trim_start(s: Seq<char>, n: int)
    requires
        0 <= n <= s.len(),
        forall|k: int| 0 <= k < n ==> is_space(#[trigger] s[k]),
        n == s.len() || !is_space(s[n]),
    ensures
        trim_start(s) == s.skip(n),
    decreases n,
{
    if n == 0 {
        assert(s.skip(0) =~= s);
    } else {
        let rest = s.drop_first();
        assert forall|k: int| 0 <= k < n - 1 implies is_space(#[trigger] rest[k]) by {
            assert(rest[k] == s[k + 1]);
        }
        lemma_trim_start(rest, n - 1);
        assert(rest.skip(n - 1) =~= s.skip(n));
    }
}

/// Keeping the first `n` characters, where all behind them are white space
/// and the `n`-th, if there is one, is not, is `trim_end`.
pub proof fn lemma_trim_end(s: Seq<char>, n: int)
    requires
        0 <= n <= s.len(),
        forall|k: int| n <= k < s.len() ==> is_space(#[trigger] s[k]),
        n == 0 || !is_space(s[n - 1]),
    ensures
        trim_end(s) == s.take(n),
    decreases s.len() - n,
{
    if n == s.len() {
        assert(s.take(n) =~= s);
    } else {
        let rest = s.drop_last();
        lemma_trim_end(rest, n);
        assert(rest.take(n) =~= s.take(n));
    }
}

/// The bounds of `trim(v[from..to])` inside `v`.
pub(crate) fn trim_range(v: &Vec<char>, from: usize, to: usize) -> (r: (usize, usize))
    requires
        from <= to <= v.len(),
    ensures
        from <= r.0 <= r.1 <= to,
        v@.subrange(r.0 as int, r.1 as int) == trim(v@.subrange(from as int, to as int)),
{
    let ghost s = v@.subrange(from as int, to as int);
    let mut i: usize = from;
    while i < to && is_whitespace(v[i])
        invariant
            from <= i <= to <= v.len(),
            forall|k: int| from <= k < i ==> is_space(#[trigger] v@[k]),
        decreases to - i,
    {
        i += 1;
    }
    let mut j: usize = to;
    while j > i && is_whitespace(v[j - 1])
        invariant
            i <= j <= to <= v.len(),
            forall|k: int| j <= k < to ==> is_space(#[trigger] v@[k]),
        decreases j,
    {
        j -= 1;
    }
    proof {
        assert forall|k: int| 0 <= k < i - from implies is_space(#[trigger] s[k]) by {
            assert(s[k] == v@[from + k]);
        }
        lemma_trim_start(s, i - from);
        let t = s.skip(i - from);
        assert(t =~= v@.subrange(i as int, to as int));
        assert forall|k: int| j - i <= k < t.len() implies is_space(#[trigger] t[k]) by {
            assert(t[k] == v@[i + k]);
        }
        lemma_trim_end(t, j - i);
        assert(t.take(j - i) =~= v@.subrange(i as int, j as int));
    }
    (i, j)
}

/// The bound up to which `v[from..to]` is leading white space.
pub(crate) fn skip_spaces(v: &Vec<char>, from: usize, to: usize) -> (start: usize)
    requires
        from <= to <= v.len(),
    ensures
        from <= start <= to,
        v@.subrange(start as int, to as int) == trim_start(v@.subrange(from as int, to as int)),
{
    let ghost s = v@.subrange(from as int, to as int);
    let mut i: usize = from;
    while i < to && is_whitespace(v[i])
        invariant
            from <= i <= to <= v.len(),
            forall|k: int| from <= k < i ==> is_space(#[trigger] v@[k]),
        decreases to - i,
    {
        i += 1;
    }
    proof {
        assert forall|k: int| 0 <= k < i - from implies is_space(#[trigger] s[k]) by {
            assert(s[k] == v@[from + k]);
        }
        lemma_trim_start(s, i - from);
        assert(s.skip(i - from) =~= v@.subrange(i as int, to as int));
    }
    i
}

/// The number of characters in front of the first white space of `s`; the
/// length of `s` if it has none.
pub open spec fn word_end(s: Seq<char>) -> nat
    decreases s.len(),
{
    if s.len() == 0 || is_space(s[0]) {
        0
    } else {
        1 + word_end(s.drop_first())
    }
}

/// The characters of `s` in front of its first white space.
pub open spec fn first_word(s: Seq<char>) -> Seq<char> {
    s.take(word_end(s) as int)
}

/// Where the first `n` characters are no white space and the `n`-th, if
/// there is one, is, the first word ends at `n`.
pub proof fn lemma_word_end(s: Seq<char>, n: int)
    requires
        0 <= n <= s.len(),
        forall|k: int| 0 <= k < n ==> !is_space(#[trigger] s[k]),
        n == s.len() || is_space(s[n]),
    ensures
        word_end(s) == n,
    decreases n,
{
    if n > 0 {
        let rest = s.drop_first();
        assert forall|k: int| 0 <= k < n - 1 implies !is_space(#[trigger] rest[k]) by {
            assert(rest[k] == s[k + 1]);
        }
        lemma_word_end(rest, n - 1);
    }
}

/// The bound at which the first word of `v[from..to]` ends.
pub(crate) fn word_bound(v: &Vec<char>, from: usize, to: usize) -> (end: usize)
    requires
        from <= to <= v.len(),
    ensures
        from <= end <= to,
        v@.subrange(from as int, end as int) == first_word(v@.subrange(from as int, to as int)),
{
    let ghost s = v@.subrange(from as int, to as int);
    let mut i: usize = from;
    while i < to && !is_whitespace(v[i])
        invariant
            from <= i <= to <= v.len(),
            forall|k: int| from <= k < i ==> !is_space(#[trigger] v@[k]),
        decreases to - i,
    {
        i += 1;
    }
    proof {
        assert forall|k: int| 0 <= k < i - from implies !is_space(#[trigger] s[k]) by {
            assert(s[k] == v@[from + k]);
        }
        lemma_word_end(s, i - from);
        assert(s.take(i - from) =~= v@.subrange(from as int, i as int));
    }
    i
}

/// The index of the first `'\n'` in `s`, or the length of `s` if it has none.
pub open spec fn line_end(s: Seq<char>) -> nat
    decreases s.len(),
{
    if s.len() == 0 || s[0] == '\n' {
        0
    } else {
        1 + line_end(s.drop_first())
    }
}

/// `line` without one trailing carriage return.
pub open spec fn strip_cr(line: Seq<char>) -> Seq<char> {
    if line.len() > 0 && line.last() == '\r' {
        line.drop_last()
    } else {
        line
    }
}

/// The lines of `s`: the pieces between line feeds, each piece that a line
/// feed ends without the carriage return just before it. A last piece that no
/// line feed ends is a line as it stands; an empty one is none.
pub open spec fn lines(s: Seq<char>) -> Seq<Seq<char>>
    decreases s.len(),
{
    if s.len() == 0 {
        Seq::empty()
    } else {
        let n = line_end(s) as int;
        if n >= s.len() {
            seq![s]
        } else {
            seq![strip_cr(s.take(n))] + lines(s.skip(n + 1))
        }
    }
}

/// Where the first `n` characters are no line feeds and the `n`-th, if
/// there is one, is, the first line ends at `n`.
pub proof fn lemma_line_end(s: Seq<char>, n: int)
    requires
        0 <= n <= s.len(),
        forall|k: int| 0 <= k < n ==> #[trigger] s[k] != '\n',
        n == s.len() || s[n] == '\n',
    ensures
        line_end(s) == n,
    decreases n,
{
    if n > 0 {
        let rest = s.drop_first();
        assert forall|k: int| 0 <= k < n - 1 implies #[trigger] rest[k] != '\n' by {
            assert(rest[k] == s[k + 1]);
        }
        lemma_line_end(rest, n - 1);
    }
}

/// What a list of bounds cuts out of `text`.
pub open spec fn pieces(text: Seq<char>, bounds: Seq<(usize, usize)>) -> Seq<Seq<char>> {
    Seq::new(bounds.len(), |i: int| text.subrange(bounds[i].0 as int, bounds[i].1 as int))
}

/// Whether every pair of `bounds` lies inside a text of `len` characters.
pub open spec fn within(bounds: Seq<(usize, usize)>, len: nat) -> bool {
    forall|i: int| 0 <= i < bounds.len() ==> (#[trigger] bounds[i]).0 <= bounds[i].1 <= len
}

/// The bounds of the lines of `v`, in order.
pub fn split_lines(v: &Vec<char>) -> (bounds: Vec<(usize, usize)>)
    ensures
        within(bounds@, v@.len()),
        pieces(v@, bounds@) == lines(v@),
{
    let mut bounds: Vec<(usize, usize)> = Vec::new();
    let mut pos: usize = 0;
    let len = v.len();
    proof {
        assert(v@.skip(0) =~= v@);
        assert(pieces(v@, bounds@) + lines(v@.skip(0)) =~= lines(v@));
    }
    while pos < len
        invariant
            pos <= len == v.len(),
            within(bounds@, v@.len()),
            pieces(v@, bounds@) + lines(v@.skip(pos as int)) == lines(v@),
        decreases len - pos,
    {
        let ghost rest = v@.skip(pos as int);
        let mut end: usize = pos;
        while end < len && v[end] != '\n'
            invariant
                pos <= end <= len == v.len(),
                forall|k: int| pos <= k < end ==> #[trigger] v@[k] != '\n',
            decreases len - end,
        {
            end += 1;
        }
        proof {
            assert forall|k: int| 0 <= k < end - pos implies #[trigger] rest[k] != '\n' by {
                assert(rest[k] == v@[pos + k]);
            }
            lemma_line_end(rest, end - pos);
        }
        let ghost before = bounds@;
        if end == len {
            bounds.push((pos, len));
            proof {
                assert(rest =~= v@.subrange(pos as int, len as int));
                assert(lines(rest) =~= seq![rest]);
                assert(v@.skip(len as int) =~= Seq::<char>::empty());
                assert(pieces(v@, bounds@) =~= pieces(v@, before) + seq![rest]);
            }
            pos = len;
        } else {
            let stop: usize = if end > pos && v[end - 1] == '\r' {
                end - 1
            } else {
                end
            };
            bounds.push((pos, stop));
            proof {
                let raw = rest.take(end - pos);
                assert(raw =~= v@.subrange(pos as int, end as int));
                assert(strip_cr(raw) =~= v@.subrange(pos as int, stop as int));
                assert(rest.skip(end - pos + 1) =~= v@.skip(end + 1));
                assert(pieces(v@, bounds@) =~= pieces(v@, before) + seq![strip_cr(raw)]);
                assert(lines(rest) == seq![strip_cr(raw)] + lines(v@.skip(end + 1)));
            }
            pos = end + 1;
        }
    }
    proof {
        assert(v@.skip(pos as int) =~= Seq::<char>::empty());
        assert(pieces(v@, bounds@) + Seq::<Seq<char>>::empty() =~= pieces(v@, bounds@));
    }
    bounds
}

/// Whether `s` begins with `prefix`.
pub open spec fn starts_with(s: Seq<char>, prefix: Seq<char>) -> bool {
    prefix.len() <= s.len() && s.take(prefix.len() as int) == prefix
}

/// Whether `v[from..to]` begins with `prefix`.
pub(crate) fn range_starts_with(v: &Vec<char>, from: usize, to: usize, prefix: &Vec<char>) -> (b: bool)
    requires
        from <= to <= v.len(),
    ensures
        b == starts_with(v@.subrange(from as int, to as int), prefix@),
{
    let ghost s = v@.subrange(from as int, to as int);
    if prefix.len() > to - from {
        return false;
    }
    let mut i: usize = 0;
    while i < prefix.len()
        invariant
            from <= to <= v.len(),
            prefix.len() <= to - from,
            i <= prefix.len(),
            s == v@.subrange(from as int, to as int),
            forall|k: int| 0 <= k < i ==> #[trigger] s[k] == prefix@[k],
        decreases prefix.len() - i,
    {
        if v[from + i] != prefix[i] {
            proof {
                assert(s.take(prefix.len() as int)[i as int] == s[i as int]);
            }
            return false;
        }
        i += 1;
    }
    proof {
        assert(s.take(prefix.len() as int) =~= prefix@);
    }
    true
}

/// The index of the first place in `s` where `pattern` begins; `None` if it
/// begins nowhere.
pub open spec fn find(s: Seq<char>, pattern: Seq<char>) -> Option<int>
    decreases s.len(),
{
    if starts_with(s, pattern) {
        Some(0)
    } else if s.len() == 0 {
        None
    } else {
        match find(s.drop_first(), pattern) {
            Some(at) => Some(at + 1),
            None => None,
        }
    }
}

/// `find` in `s` from index `from` on, as an index into `s`.
pub open spec fn find_from(s: Seq<char>, pattern: Seq<char>, from: int) -> Option<int> {
    match find(s.skip(from), pattern) {
        Some(at) => Some(from + at),
        None => None,
    }
}

/// A pattern longer than the text begins nowhere in it.
pub proof fn lemma_find_short(s: Seq<char>, pattern: Seq<char>)
    requires
        s.len() < pattern.len(),
    ensures
        find(s, pattern) is None,
    decreases s.len(),
{
    if s.len() > 0 {
        lemma_find_short(s.drop_first(), pattern);
    }
}

/// Where the pattern does not begin at `from`, the search goes on behind it.
pub proof fn lemma_find_step(s: Seq<char>, pattern: Seq<char>, from: int)
    requires
        0 <= from < s.len(),
        !starts_with(s.skip(from), pattern),
    ensures
        find_from(s, pattern, from) == find_from(s, pattern, from + 1),
{
    assert(s.skip(from).drop_first() =~= s.skip(from + 1));
}

/// The first occurrence of `pattern` in `v[from..to]`, as an index into that
/// range.
pub(crate) fn range_find(v: &Vec<char>, from: usize, to: usize, pattern: &Vec<char>) -> (r: Option<usize>)
    requires
        from <= to <= v.len(),
    ensures
        match r {
            Some(at) => find(v@.subrange(from as int, to as int), pattern@) == Some(at as int) && at
                + pattern@.len() <= to - from,
            None => find(v@.subrange(from as int, to as int), pattern@) is None,
        },
{
    let ghost s = v@.subrange(from as int, to as int);
    let n = to - from;
    let m = pattern.len();
    proof {
        assert(s.skip(0) =~= s);
    }
    if m > n {
        proof {
            lemma_find_short(s, pattern@);
        }
        return None;
    }
    let mut at: usize = 0;
    while at <= n - m
        invariant
            from <= to <= v.len(),
            n == to - from,
            m == pattern.len(),
            m <= n,
            at <= n - m + 1,
            m > 0 || at == 0,
            s == v@.subrange(from as int, to as int),
            find(s, pattern@) == find_from(s, pattern@, at as int),
        decreases n - m + 1 - at,
    {
        let ghost here = s.skip(at as int);
        let mut k: usize = 0;
        while k < m && v[from + at + k] == pattern[k]
            invariant
                from <= to <= v.len(),
                n == to - from,
                m == pattern.len(),
                at + m <= n,
                k <= m,
                s == v@.subrange(from as int, to as int),
                here == s.skip(at as int),
                forall|j: int| 0 <= j < k ==> #[trigger] here[j] == pattern@[j],
            decreases m - k,
        {
            k += 1;
        }
        if k == m {
            proof {
                assert(here.take(m as int) =~= pattern@);
            }
            return Some(at);
        }
        proof {
            assert(here[k as int] == v@[from + at + k]);
            assert(here.take(m as int)[k as int] == here[k as int]);
            if at < n {
                lemma_find_step(s, pattern@, at as int);
            }
        }
        at += 1;
    }
    proof {
        lemma_find_short(s.skip(at as int), pattern@);
    }
    None
}

} // verus!
