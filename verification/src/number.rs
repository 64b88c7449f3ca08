//! Numerals: writing unsigned numbers in decimal and hexadecimal, and reading
//! a decimal numeral.

use vstd::prelude::*;
use crate::text::chars_of;

verus! {

/// The digit for `d`, lower case above nine.
pub open spec fn digit_char(d: int) -> char {
    if d == 0 {
        '0'
    } else if d == 1 {
        '1'
    } else if d == 2 {
        '2'
    } else if d == 3 {
        '3'
    } else if d == 4 {
        '4'
    } else if d == 5 {
        '5'
    } else if d == 6 {
        '6'
    } else if d == 7 {
        '7'
    } else if d == 8 {
        '8'
    } else if d == 9 {
        '9'
    } else if d == 10 {
        'a'
    } else if d == 11 {
        'b'
    } else if d == 12 {
        'c'
    } else if d == 13 {
        'd'
    } else if d == 14 {
        'e'
    } else {
        'f'
    }
}

/// The digits of `n` to the base `base`, most significant first; none for 0.
pub open spec fn digits(n: nat, base: nat) -> Seq<char>
    decreases n,
    via digits_decreases
{
    if n == 0 || base < 2 {
        Seq::empty()
    } else {
        digits(n / base, base).push(digit_char((n % base) as int))
    }
}

#[via_fn]
proof fn digits_decreases(n: nat, base: nat) {
    if n != 0 && base >= 2 {
        assert(n / base < n) by (nonlinear_arith)
            requires
                n > 0,
                base >= 2,
        ;
    }
}

/// `n` to the base `base`, without sign, prefix or padding.
pub open spec fn numeral(n: nat, base: nat) -> Seq<char> {
    if n == 0 {
        seq!['0']
    } else {
        digits(n, base)
    }
}

/// `n` in decimal.
pub open spec fn decimal(n: nat) -> Seq<char> {
    numeral(n, 10)
}

/// `n` in lower-case hexadecimal behind the prefix `0x`.
pub open spec fn hex(n: nat) -> Seq<char> {
    seq!['0', 'x'] + numeral(n, 16)
}

/// `n` as exactly four lower-case hexadecimal digits.
pub open spec fn hex4(n: u16) -> Seq<char> {
    seq![
        digit_char(n as int / 4096),
        digit_char(n as int / 256 % 16),
        digit_char(n as int / 16 % 16),
        digit_char(n as int % 16),
    ]
}

fn digit(d: u64) -> (c: char)
    requires
        d < 16,
    ensures
        c == digit_char(d as int),
{
    if d == 0 {
        '0'
    } else if d == 1 {
        '1'
    } else if d == 2 {
        '2'
    } else if d == 3 {
        '3'
    } else if d == 4 {
        '4'
    } else if d == 5 {
        '5'
    } else if d == 6 {
        '6'
    } else if d == 7 {
        '7'
    } else if d == 8 {
        '8'
    } else if d == 9 {
        '9'
    } else if d == 10 {
        'a'
    } else if d == 11 {
        'b'
    } else if d == 12 {
        'c'
    } else if d == 13 {
        'd'
    } else if d == 14 {
        'e'
    } else {
        'f'
    }
}

/// Appends `n` to the base `base`.
fn push_numeral(out: &mut String, n: u64, base: u64)
    requires
        2 <= base <= 16,
    ensures
        final(out)@ == old(out)@ + numeral(n as nat, base as nat),
{
    if n == 0 {
        out.push('0');
        assert(out@ =~= old(out)@ + numeral(0, base as nat));
        return ;
    }
    // least significant digit first
    let mut low: Vec<char> = Vec::new();
    let mut m: u64 = n;
    while m > 0
        invariant
            2 <= base <= 16,
            digits(n as nat, base as nat) == digits(m as nat, base as nat) + low@.reverse(),
        decreases m,
    {
        let ghost before = low@;
        low.push(digit(m % base));
        proof {
            let d = digit_char((m % base) as int);
            assert(low@.reverse() =~= seq![d] + before.reverse());
            assert(digits(m as nat, base as nat) == digits((m / base) as nat, base as nat).push(d));
            assert(digits((m / base) as nat, base as nat).push(d) + before.reverse() =~= digits(
                (m / base) as nat,
                base as nat,
            ) + low@.reverse());
        }
        m = m / base;
    }
    let mut i: usize = low.len();
    proof {
        assert(digits(0, base as nat) + low@.reverse() =~= low@.reverse());
        assert(out@ + low@.reverse().take(0) =~= out@);
    }
    while i > 0
        invariant
            i <= low.len(),
            out@ == old(out)@ + low@.reverse().take(low.len() - i),
        decreases i,
    {
        i -= 1;
        out.push(low[i]);
        proof {
            let r = low@.reverse();
            assert(r[low.len() - 1 - i] == low@[i as int]);
            assert(r.take(low.len() - i) =~= r.take(low.len() - 1 - i).push(low@[i as int]));
        }
    }
    proof {
        assert(low@.reverse().take(low.len() as int) =~= low@.reverse());
    }
}

/// Appends `n` in decimal.
pub fn push_decimal(out: &mut String, n: u64)
    ensures
        final(out)@ == old(out)@ + decimal(n as nat),
{
    push_numeral(out, n, 10);
}

/// Appends `n` in hexadecimal, with the prefix `0x`.
pub fn push_hex(out: &mut String, n: u64)
    ensures
        final(out)@ == old(out)@ + hex(n as nat),
{
    out.push('0');
    out.push('x');
    push_numeral(out, n, 16);
    assert(out@ =~= old(out)@ + hex(n as nat));
}

/// Appends `n` as four hexadecimal digits.
pub fn push_hex4(out: &mut String, n: u16)
    ensures
        final(out)@ == old(out)@ + hex4(n),
{
    let n: u64 = n as u64;
    out.push(digit(n / 4096));
    out.push(digit(n / 256 % 16));
    out.push(digit(n / 16 % 16));
    out.push(digit(n % 16));
    assert(out@ =~= old(out)@ + hex4(n as u16));
}

/// Whether `c` is one of the ten decimal digits.
pub open spec fn is_digit(c: char) -> bool {
    '0' <= c <= '9'
}

/// The value of the decimal digit `c`; 0 for any other character.
pub open spec fn digit_value(c: char) -> nat {
    if is_digit(c) {
        (c as u32 - '0' as u32) as nat
    } else {
        0
    }
}

/// The number that the digits of `s` denote in decimal.
pub open spec fn digits_value(s: Seq<char>) -> nat
    decreases s.len(),
{
    if s.len() == 0 {
        0
    } else {
        digits_value(s.drop_last()) * 10 + digit_value(s.last())
    }
}

/// Whether `s` holds decimal digits only.
pub open spec fn all_digits(s: Seq<char>) -> bool {
    forall|i: int| 0 <= i < s.len() ==> is_digit(#[trigger] s[i])
}

/// The numeral `s` without a plus sign in front.
pub open spec fn unsigned_part(s: Seq<char>) -> Seq<char> {
    if s.len() > 0 && s[0] == '+' {
        s.drop_first()
    } else {
        s
    }
}

/// The number that `s` denotes: decimal digits, at least one, behind an
/// optional plus sign, with a value that 64 bits can hold. `None` for
/// anything else.
pub open spec fn parse_decimal(s: Seq<char>) -> Option<u64> {
    let body = unsigned_part(s);
    if body.len() > 0 && all_digits(body) && digits_value(body) <= u64::MAX {
        Some(digits_value(body) as u64)
    } else {
        None
    }
}

/// A numeral's value is at least that of each of its prefixes.
pub proof fn lemma_prefix_value(s: Seq<char>, k: int)
    requires
        0 <= k <= s.len(),
    ensures
        digits_value(s.take(k)) <= digits_value(s),
    decreases s.len(),
{
    if k == s.len() {
        assert(s.take(k) =~= s);
    } else {
        lemma_prefix_value(s.drop_last(), k);
        assert(s.drop_last().take(k) =~= s.take(k));
    }
}

/// Reads a decimal numeral.
pub fn parse_u64(text: &str) -> (r: Option<u64>)
    ensures
        r == parse_decimal(text@),
{
    let v = chars_of(text);
    let start: usize = if v.len() > 0 && v[0] == '+' {
        1
    } else {
        0
    };
    let ghost body = unsigned_part(v@);
    proof {
        assert(body =~= v@.subrange(start as int, v@.len() as int));
    }
    if start == v.len() {
        return None;
    }
    let mut value: u64 = 0;
    let mut i: usize = start;
    proof {
        assert(body.take(0) =~= Seq::<char>::empty());
    }
    while i < v.len()
        invariant
            start <= i <= v.len(),
            start < v.len(),
            body == unsigned_part(text@),
            body == v@.subrange(start as int, v@.len() as int),
            all_digits(body.take(i - start)),
            value == digits_value(body.take(i - start)),
        decreases v.len() - i,
    {
        let c = v[i];
        let ghost next = body.take(i - start + 1);
        proof {
            assert(next.drop_last() =~= body.take(i - start));
            assert(next.last() == c);
        }
        if !('0' <= c && c <= '9') {
            proof {
                assert(body[i - start] == c);
            }
            return None;
        }
        let d: u64 = (c as u32 - '0' as u32) as u64;
        if value > (u64::MAX - d) / 10 {
            proof {
                lemma_prefix_value(body, i - start + 1);
            }
            return None;
        }
        value = value * 10 + d;
        proof {
            assert forall|k: int| 0 <= k < next.len() implies is_digit(#[trigger] next[k]) by {
                if k < next.len() - 1 {
                    assert(body.take(i - start)[k] == next[k]);
                }
            }
        }
        i += 1;
    }
    proof {
        assert(body.take(i - start) =~= body);
    }
    Some(value)
}

} // verus!
