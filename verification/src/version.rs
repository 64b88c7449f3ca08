//! Version numbers: the four 16-bit words of a packed version, and the order
//! of dotted version strings.

use vstd::prelude::*;
use crate::number::{digit_value, digits_value, is_digit};
use crate::text::chars_of;

verus! {

/// The 64-bit version whose words, from the most significant down, are
/// `major`, `minor`, `patch` and `release`. A part that does not fit in 16
/// bits spills into the words above it, and what leaves the 64 bits is lost.
pub open spec fn packed(major: u64, minor: u64, patch: u64, release: u64) -> u64 {
    (major << 48) | (minor << 32) | (patch << 16) | release
}

/// The four 16-bit words of a packed version: bits 48 to 63, 32 to 47, 16 to
/// 31 and 0 to 15.
pub open spec fn words(version: u64) -> (u16, u16, u16, u16) {
    ((version >> 48) as u16, (version >> 32) as u16, (version >> 16) as u16, version as u16)
}

/// Packs four parts into one 64-bit version.
pub fn pack_version(major: u64, minor: u64, patch: u64, release: u64) -> (version: u64)
    ensures
        version == packed(major, minor, patch, release),
{
    (major << 48) | (minor << 32) | (patch << 16) | release
}

/// Takes a packed version apart into its four words.
pub fn version_words(version: u64) -> (w: (u16, u16, u16, u16))
    ensures
        w == words(version),
{
    (
        #[verifier::truncate]
        ((version >> 48) as u16),
        #[verifier::truncate]
        ((version >> 32) as u16),
        #[verifier::truncate]
        ((version >> 16) as u16),
        #[verifier::truncate]
        (version as u16),
    )
}

/// Packing four 16-bit words and taking the version apart again gives the
/// same four words.
pub proof fn lemma_pack_round_trip(major: u16, minor: u16, patch: u16, release: u16)
    ensures
        words(packed(major as u64, minor as u64, patch as u64, release as u64)) == (
            major,
            minor,
            patch,
            release,
        ),
{
    let a = major as u64;
    let b = minor as u64;
    let c = patch as u64;
    let d = release as u64;
    assert(((((a << 48) | (b << 32) | (c << 16) | d) >> 48) as u16) == a) by (bit_vector)
        requires
            a < 0x10000,
            b < 0x10000,
            c < 0x10000,
            d < 0x10000,
    ;
    assert(((((a << 48) | (b << 32) | (c << 16) | d) >> 32) as u16) == b) by (bit_vector)
        requires
            a < 0x10000,
            b < 0x10000,
            c < 0x10000,
            d < 0x10000,
    ;
    assert(((((a << 48) | (b << 32) | (c << 16) | d) >> 16) as u16) == c) by (bit_vector)
        requires
            a < 0x10000,
            b < 0x10000,
            c < 0x10000,
            d < 0x10000,
    ;
    assert((((a << 48) | (b << 32) | (c << 16) | d) as u16) == d) by (bit_vector)
        requires
            a < 0x10000,
            b < 0x10000,
            c < 0x10000,
            d < 0x10000,
    ;
}

/// How one value stands to another.
#[derive(PartialEq, Eq, Structural, Debug, Clone, Copy)]
pub enum Order {
    Less,
    Equal,
    Greater,
}

/// How the number `a` stands to the number `b`.
pub open spec fn number_order(a: nat, b: nat) -> Order {
    if a < b {
        Order::Less
    } else if a > b {
        Order::Greater
    } else {
        Order::Equal
    }
}

/// The number of decimal digits at the front of `s`.
pub open spec fn digit_run(s: Seq<char>) -> nat
    decreases s.len(),
{
    if s.len() == 0 || !is_digit(s[0]) {
        0
    } else {
        1 + digit_run(s.drop_first())
    }
}

/// The number that a part of a version denotes: the value of the decimal
/// digits at its front, 0 if it begins with none.
pub open spec fn part_value(part: Seq<char>) -> nat {
    digits_value(part.take(digit_run(part) as int))
}

/// The index of the first `'.'` in `s`, or the length of `s` if it has none.
pub open spec fn part_end(s: Seq<char>) -> nat
    decreases s.len(),
{
    if s.len() == 0 || s[0] == '.' {
        0
    } else {
        1 + part_end(s.drop_first())
    }
}

/// The numbers that a version string denotes: the values of its parts, which
/// dots separate. It holds at least one number.
pub open spec fn version_key(s: Seq<char>) -> Seq<nat>
    decreases s.len(),
{
    let n = part_end(s) as int;
    if n >= s.len() {
        seq![part_value(s)]
    } else {
        seq![part_value(s.take(n))] + version_key(s.skip(n + 1))
    }
}

/// The order of two sequences of numbers by their first difference; a
/// sequence comes before those that continue it.
pub open spec fn key_order(a: Seq<nat>, b: Seq<nat>) -> Order
    decreases a.len(),
{
    if a.len() == 0 {
        if b.len() == 0 {
            Order::Equal
        } else {
            Order::Less
        }
    } else if b.len() == 0 {
        Order::Greater
    } else if a[0] != b[0] {
        number_order(a[0], b[0])
    } else {
        key_order(a.drop_first(), b.drop_first())
    }
}

/// How the version `a` stands to the version `b`: part by part, each part
/// as a number.
pub open spec fn version_order(a: Seq<char>, b: Seq<char>) -> Order {
    key_order(version_key(a), version_key(b))
}

/// The order of a sequence and itself is `Equal`.
pub proof fn lemma_key_order_same(a: Seq<nat>)
    ensures
        key_order(a, a) == Order::Equal,
    decreases a.len(),
{
    if a.len() > 0 {
        lemma_key_order_same(a.drop_first());
    }
}

/// Only equal sequences stand `Equal` to each other.
pub proof fn lemma_key_order_equal(a: Seq<nat>, b: Seq<nat>)
    requires
        key_order(a, b) == Order::Equal,
    ensures
        a == b,
    decreases a.len(),
{
    if a.len() > 0 {
        lemma_key_order_equal(a.drop_first(), b.drop_first());
        assert(a =~= seq![a[0]] + a.drop_first());
        assert(b =~= seq![b[0]] + b.drop_first());
    } else {
        assert(a =~= b);
    }
}

/// Turning the two sequences round turns the order round.
pub proof fn lemma_key_order_flip(a: Seq<nat>, b: Seq<nat>)
    ensures
        key_order(a, b) == Order::Less <==> key_order(b, a) == Order::Greater,
        key_order(a, b) == Order::Equal <==> key_order(b, a) == Order::Equal,
        key_order(a, b) == Order::Greater <==> key_order(b, a) == Order::Less,
    decreases a.len(),
{
    if a.len() > 0 && b.len() > 0 && a[0] == b[0] {
        lemma_key_order_flip(a.drop_first(), b.drop_first());
    }
}

/// What is not less than a second sequence, which is not less than a third,
/// is not less than the third.
pub proof fn lemma_key_order_transitive(a: Seq<nat>, b: Seq<nat>, c: Seq<nat>)
    requires
        key_order(a, b) != Order::Less,
        key_order(b, c) != Order::Less,
    ensures
        key_order(a, c) != Order::Less,
    decreases a.len(),
{
    if a.len() > 0 && b.len() > 0 && c.len() > 0 {
        if a[0] == b[0] && b[0] == c[0] {
            lemma_key_order_transitive(a.drop_first(), b.drop_first(), c.drop_first());
        }
    }
}

/// `count` zeros.
pub open spec fn zeros(count: nat) -> Seq<char> {
    Seq::new(count, |i: int| '0')
}

/// Zeros in front of a numeral do not change its value.
pub proof fn lemma_leading_zeros(count: nat, s: Seq<char>)
    ensures
        digits_value(zeros(count) + s) == digits_value(s),
    decreases s.len(), count,
{
    if s.len() == 0 {
        assert(zeros(count) + s =~= zeros(count));
        if count > 0 {
            assert(zeros(count).drop_last() =~= zeros((count - 1) as nat) + Seq::<char>::empty());
            lemma_leading_zeros((count - 1) as nat, Seq::empty());
        }
    } else {
        assert((zeros(count) + s).drop_last() =~= zeros(count) + s.drop_last());
        lemma_leading_zeros(count, s.drop_last());
    }
}

/// Where the first `n` characters are digits and the `n`-th, if there is
/// one, is none, the digits at the front are `n`.
pub proof fn lemma_digit_run(s: Seq<char>, n: int)
    requires
        0 <= n <= s.len(),
        forall|k: int| 0 <= k < n ==> is_digit(#[trigger] s[k]),
        n == s.len() || !is_digit(s[n]),
    ensures
        digit_run(s) == n,
    decreases n,
{
    if n > 0 {
        let rest = s.drop_first();
        assert forall|k: int| 0 <= k < n - 1 implies is_digit(#[trigger] rest[k]) by {
            assert(rest[k] == s[k + 1]);
        }
        lemma_digit_run(rest, n - 1);
    }
}

/// Where the first `n` characters are no dots and the `n`-th, if there is
/// one, is, the first part ends at `n`.
pub proof fn lemma_part_end(s: Seq<char>, n: int)
    requires
        0 <= n <= s.len(),
        forall|k: int| 0 <= k < n ==> #[trigger] s[k] != '.',
        n == s.len() || s[n] == '.',
    ensures
        part_end(s) == n,
    decreases n,
{
    if n > 0 {
        let rest = s.drop_first();
        assert forall|k: int| 0 <= k < n - 1 implies #[trigger] rest[k] != '.' by {
            assert(rest[k] == s[k + 1]);
        }
        lemma_part_end(rest, n - 1);
    }
}

/// A version denotes at least one number.
pub proof fn lemma_key_not_empty(s: Seq<char>)
    ensures
        version_key(s).len() >= 1,
{
}

/// How the numerals `a[a0..a1]` and `b[b0..b1]` stand to each other as
/// numbers, however many digits they have.
fn order_numerals(a: &Vec<char>, a0: usize, a1: usize, b: &Vec<char>, b0: usize, b1: usize) -> (order:
    Order)
    requires
        a0 <= a1 <= a.len(),
        b0 <= b1 <= b.len(),
        forall|k: int| a0 <= k < a1 ==> is_digit(#[trigger] a@[k]),
        forall|k: int| b0 <= k < b1 ==> is_digit(#[trigger] b@[k]),
    ensures
        order == number_order(
            digits_value(a@.subrange(a0 as int, a1 as int)),
            digits_value(b@.subrange(b0 as int, b1 as int)),
        ),
{
    let la = a1 - a0;
    let lb = b1 - b0;
    let width = if la > lb {
        la
    } else {
        lb
    };
    // Both numerals count as `width` digits long, with zeros in front.
    let ghost wa = zeros((width - la) as nat) + a@.subrange(a0 as int, a1 as int);
    let ghost wb = zeros((width - lb) as nat) + b@.subrange(b0 as int, b1 as int);
    let mut order = Order::Equal;
    let mut k: usize = 0;
    proof {
        assert(wa.take(0) =~= Seq::<char>::empty());
        assert(wb.take(0) =~= Seq::<char>::empty());
    }
    while k < width
        invariant
            k <= width,
            la == a1 - a0,
            lb == b1 - b0,
            la <= width,
            lb <= width,
            a0 <= a1 <= a.len(),
            b0 <= b1 <= b.len(),
            forall|i: int| a0 <= i < a1 ==> is_digit(#[trigger] a@[i]),
            forall|i: int| b0 <= i < b1 ==> is_digit(#[trigger] b@[i]),
            wa == zeros((width - la) as nat) + a@.subrange(a0 as int, a1 as int),
            wb == zeros((width - lb) as nat) + b@.subrange(b0 as int, b1 as int),
            order == number_order(digits_value(wa.take(k as int)), digits_value(wb.take(k as int))),
        decreases width - k,
    {
        let ca: char = if k < width - la {
            '0'
        } else {
            a[a0 + (k - (width - la))]
        };
        let cb: char = if k < width - lb {
            '0'
        } else {
            b[b0 + (k - (width - lb))]
        };
        proof {
            assert(wa[k as int] == ca);
            assert(wb[k as int] == cb);
            assert(is_digit(ca));
            assert(is_digit(cb));
            assert(wa.take(k + 1).drop_last() =~= wa.take(k as int));
            assert(wb.take(k + 1).drop_last() =~= wb.take(k as int));
            assert(wa.take(k + 1).last() == ca);
            assert(wb.take(k + 1).last() == cb);
            assert(digit_value(ca) <= 9);
            assert(digit_value(cb) <= 9);
        }
        if order == Order::Equal {
            if ca < cb {
                order = Order::Less;
            } else if ca > cb {
                order = Order::Greater;
            }
        }
        k += 1;
    }
    proof {
        assert(wa.take(width as int) =~= wa);
        assert(wb.take(width as int) =~= wb);
        lemma_leading_zeros((width - la) as nat, a@.subrange(a0 as int, a1 as int));
        lemma_leading_zeros((width - lb) as nat, b@.subrange(b0 as int, b1 as int));
    }
    order
}

/// The bound of the digits at the front of `v[from..to]`.
fn digit_bound(v: &Vec<char>, from: usize, to: usize) -> (end: usize)
    requires
        from <= to <= v.len(),
    ensures
        from <= end <= to,
        end - from == digit_run(v@.subrange(from as int, to as int)),
        forall|k: int| from <= k < end ==> is_digit(#[trigger] v@[k]),
{
    let ghost s = v@.subrange(from as int, to as int);
    let mut i: usize = from;
    while i < to && '0' <= v[i] && v[i] <= '9'
        invariant
            from <= i <= to <= v.len(),
            forall|k: int| from <= k < i ==> is_digit(#[trigger] v@[k]),
        decreases to - i,
    {
        i += 1;
    }
    proof {
        assert forall|k: int| 0 <= k < i - from implies is_digit(#[trigger] s[k]) by {
            assert(s[k] == v@[from + k]);
        }
        lemma_digit_run(s, i - from);
    }
    i
}

/// The bound of the first part of `v[from..]`: the index of the next dot,
/// or the end.
fn part_bound(v: &Vec<char>, from: usize) -> (end: usize)
    requires
        from <= v.len(),
    ensures
        from <= end <= v.len(),
        end - from == part_end(v@.skip(from as int)),
{
    let ghost s = v@.skip(from as int);
    let mut i: usize = from;
    while i < v.len() && v[i] != '.'
        invariant
            from <= i <= v.len(),
            forall|k: int| from <= k < i ==> #[trigger] v@[k] != '.',
        decreases v.len() - i,
    {
        i += 1;
    }
    proof {
        assert forall|k: int| 0 <= k < i - from implies #[trigger] s[k] != '.' by {
            assert(s[k] == v@[from + k]);
        }
        lemma_part_end(s, i - from);
    }
    i
}

/// How the version `a` stands to the version `b`. The parts between the
/// dots are compared as numbers, so that `10.0.9` comes before `10.0.10`.
pub fn compare_versions(a: &str, b: &str) -> (order: Order)
    ensures
        order == version_order(a@, b@),
{
    let va = chars_of(a);
    let vb = chars_of(b);
    let mut pa: usize = 0;
    let mut pb: usize = 0;
    proof {
        assert(va@.skip(0) =~= va@);
        assert(vb@.skip(0) =~= vb@);
    }
    loop
        invariant
            pa <= va.len(),
            pb <= vb.len(),
            va@ == a@,
            vb@ == b@,
            version_order(a@, b@) == key_order(
                version_key(va@.skip(pa as int)),
                version_key(vb@.skip(pb as int)),
            ),
        decreases va.len() - pa,
    {
        let ea = part_bound(&va, pa);
        let eb = part_bound(&vb, pb);
        let da = digit_bound(&va, pa, ea);
        let db = digit_bound(&vb, pb, eb);
        let order = order_numerals(&va, pa, da, &vb, pb, db);
        let ghost sa = va@.skip(pa as int);
        let ghost sb = vb@.skip(pb as int);
        let ghost ka = version_key(sa);
        let ghost kb = version_key(sb);
        proof {
            let part_a = va@.subrange(pa as int, ea as int);
            let part_b = vb@.subrange(pb as int, eb as int);
            assert(sa.take(ea - pa) =~= part_a);
            assert(sb.take(eb - pb) =~= part_b);
            assert(part_a.take(da - pa) =~= va@.subrange(pa as int, da as int));
            assert(part_b.take(db - pb) =~= vb@.subrange(pb as int, db as int));
            if ea == va.len() {
                assert(sa =~= part_a);
            } else {
                assert(sa.skip(ea - pa + 1) =~= va@.skip(ea + 1));
                lemma_key_not_empty(va@.skip(ea + 1));
            }
            if eb == vb.len() {
                assert(sb =~= part_b);
            } else {
                assert(sb.skip(eb - pb + 1) =~= vb@.skip(eb + 1));
                lemma_key_not_empty(vb@.skip(eb + 1));
            }
            assert(ka[0] == part_value(part_a));
            assert(kb[0] == part_value(part_b));
            assert(order == number_order(ka[0], kb[0]));
        }
        if order != Order::Equal {
            return order;
        }
        if ea == va.len() {
            proof {
                assert(ka.drop_first() =~= Seq::<nat>::empty());
                if eb < vb.len() {
                    assert(kb.drop_first() =~= version_key(vb@.skip(eb + 1)));
                    assert(key_order(ka.drop_first(), kb.drop_first()) == Order::Less);
                } else {
                    assert(kb.drop_first() =~= Seq::<nat>::empty());
                    assert(key_order(ka.drop_first(), kb.drop_first()) == Order::Equal);
                }
            }
            if eb == vb.len() {
                return Order::Equal;
            } else {
                return Order::Less;
            }
        }
        if eb == vb.len() {
            proof {
                assert(kb.drop_first() =~= Seq::<nat>::empty());
                assert(ka.drop_first() =~= version_key(va@.skip(ea + 1)));
                assert(key_order(ka.drop_first(), kb.drop_first()) == Order::Greater);
            }
            return Order::Greater;
        }
        proof {
            assert(ka.drop_first() =~= version_key(va@.skip(ea + 1)));
            assert(kb.drop_first() =~= version_key(vb@.skip(eb + 1)));
        }
        pa = ea + 1;
        pb = eb + 1;
    }
}

} // verus!
