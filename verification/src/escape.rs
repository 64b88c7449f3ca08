//! Escaping of free-form text for quoted strings of a resource script.

use vstd::prelude::*;
use crate::text::chars_of;

verus! {

/// What one character turns into inside a quoted string: a double quote is
/// doubled, a single quote and a backslash get a backslash in front, line
/// feed, tab and carriage return become `\n`, `\t` and `\r`, and every other
/// character stands for itself.
pub open spec fn escape_char(c: char) -> Seq<char> {
    if c == '"' {
        seq!['"', '"']
    } else if c == '\'' {
        seq!['\\', '\'']
    } else if c == '\\' {
        seq!['\\', '\\']
    } else if c == '\n' {
        seq!['\\', 'n']
    } else if c == '\t' {
        seq!['\\', 't']
    } else if c == '\r' {
        seq!['\\', 'r']
    } else {
        seq![c]
    }
}

/// The escaped form of `s`: the escaped forms of its characters, in order.
pub open spec fn escape(s: Seq<char>) -> Seq<char>
    decreases s.len(),
{
    if s.len() == 0 {
        Seq::empty()
    } else {
        escape_char(s[0]) + escape(s.drop_first())
    }
}

/// Whether `c` may follow a backslash in an escaped text.
pub open spec fn is_escape_letter(c: char) -> bool {
    c == '\'' || c == '\\' || c == 'n' || c == 't' || c == 'r'
}

/// The character that a backslash followed by `c` stands for.
pub open spec fn escaped_by(c: char) -> char {
    if c == 'n' {
        '\n'
    } else if c == 't' {
        '\t'
    } else if c == 'r' {
        '\r'
    } else {
        c
    }
}

/// The inverse rule: two double quotes are one, a backslash followed by an
/// escape letter is the character the pair stands for, and anything else is
/// taken as it is.
pub open spec fn unescape(t: Seq<char>) -> Seq<char>
    decreases t.len(),
{
    if t.len() == 0 {
        Seq::empty()
    } else if t.len() >= 2 && t[0] == '"' && t[1] == '"' {
        seq!['"'] + unescape(t.skip(2))
    } else if t.len() >= 2 && t[0] == '\\' && is_escape_letter(t[1]) {
        seq![escaped_by(t[1])] + unescape(t.skip(2))
    } else {
        seq![t[0]] + unescape(t.drop_first())
    }
}

/// Escaping goes through concatenation.
pub proof fn lemma_escape_concat(a: Seq<char>, b: Seq<char>)
    ensures
        escape(a + b) == escape(a) + escape(b),
    decreases a.len(),
{
    if a.len() == 0 {
        assert(a + b =~= b);
        assert(escape(a) + escape(b) =~= escape(b));
    } else {
        assert((a + b).drop_first() =~= a.drop_first() + b);
        lemma_escape_concat(a.drop_first(), b);
        assert(escape_char(a[0]) + (escape(a.drop_first()) + escape(b)) =~= (escape_char(a[0])
            + escape(a.drop_first())) + escape(b));
    }
}

/// A text of one character escapes to that character's escaped form.
pub proof fn lemma_escape_one(c: char)
    ensures
        escape(seq![c]) == escape_char(c),
{
    assert(seq![c].drop_first() =~= Seq::<char>::empty());
    assert(escape(seq![c]) =~= escape_char(c) + escape(Seq::<char>::empty()));
    assert(escape_char(c) + Seq::<char>::empty() =~= escape_char(c));
}

/// Escaping is reversible: whatever characters a text holds, quotes,
/// backslashes and control characters among them, the inverse rule gives it
/// back from its escaped form.
pub proof fn lemma_unescape_escape(s: Seq<char>)
    ensures
        unescape(escape(s)) == s,
    decreases s.len(),
{
    if s.len() == 0 {
    } else {
        let c = s[0];
        let rest = s.drop_first();
        let t = escape(s);
        lemma_unescape_escape(rest);
        if escape_char(c).len() == 2 {
            assert(t.skip(2) =~= escape(rest));
            assert(seq![c] + rest =~= s);
        } else {
            assert(t.drop_first() =~= escape(rest));
            assert(seq![c] + rest =~= s);
        }
    }
}

/// Escaping a text twice is undone by applying the inverse rule twice.
pub proof fn lemma_unescape_twice(s: Seq<char>)
    ensures
        unescape(unescape(escape(escape(s)))) == s,
{
    lemma_unescape_escape(escape(s));
    lemma_unescape_escape(s);
}

/// Appends the escaped form of one character.
pub fn push_escaped_char(out: &mut String, chr: char)
    ensures
        final(out)@ == old(out)@ + escape_char(chr),
{
    if chr == '"' {
        out.push('"');
        out.push('"');
    } else if chr == '\'' {
        out.push('\\');
        out.push('\'');
    } else if chr == '\\' {
        out.push('\\');
        out.push('\\');
    } else if chr == '\n' {
        out.push('\\');
        out.push('n');
    } else if chr == '\t' {
        out.push('\\');
        out.push('t');
    } else if chr == '\r' {
        out.push('\\');
        out.push('r');
    } else {
        out.push(chr);
    }
    assert(out@ =~= old(out)@ + escape_char(chr));
}

/// Appends the escaped form of `v[from..to]`.
pub(crate) fn push_escaped_range(out: &mut String, v: &Vec<char>, from: usize, to: usize)
    requires
        from <= to <= v.len(),
    ensures
        final(out)@ == old(out)@ + escape(v@.subrange(from as int, to as int)),
{
    let mut i: usize = from;
    proof {
        assert(out@ + escape(v@.subrange(from as int, from as int)) =~= out@);
    }
    while i < to
        invariant
            from <= i <= to <= v.len(),
            out@ == old(out)@ + escape(v@.subrange(from as int, i as int)),
        decreases to - i,
    {
        let ghost before = out@;
        push_escaped_char(out, v[i]);
        proof {
            let done = v@.subrange(from as int, i as int);
            lemma_escape_concat(done, seq![v@[i as int]]);
            assert(done + seq![v@[i as int]] =~= v@.subrange(from as int, i + 1));
            lemma_escape_one(v@[i as int]);
            assert(out@ =~= old(out)@ + escape(v@.subrange(from as int, i + 1)));
        }
        i += 1;
    }
}

/// Appends the escaped form of `text`.
pub fn push_escaped(out: &mut String, text: &str)
    ensures
        final(out)@ == old(out)@ + escape(text@),
{
    let v = chars_of(text);
    push_escaped_range(out, &v, 0, v.len());
    assert(v@.subrange(0, v@.len() as int) =~= v@);
}

/// The escaped form of `string`, as it is written between the double quotes
/// of a resource script.
pub fn escape_string(string: &str) -> (escaped: String)
    ensures
        escaped@ == escape(string@),
{
    let mut escaped = String::new();
    push_escaped(&mut escaped, string);
    assert(Seq::<char>::empty() + escape(string@) =~= escape(string@));
    escaped
}

} // verus!
