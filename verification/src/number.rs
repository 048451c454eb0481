//! Decimal integers as `str::parse` reads them for `usize` and `i32`.

use vstd::prelude::*;

verus! {

/// Whether `c` is one of `'0'..='9'`.
pub open spec fn is_ascii_digit(c: char) -> bool {
    48 <= c as u32 <= 57
}

/// The value of the ASCII digit `c`.
pub open spec fn digit_value(c: char) -> nat {
    (c as u32 - 48) as nat
}

/// Whether every character of `s` is an ASCII digit.
pub open spec fn all_digits(s: Seq<char>) -> bool {
    forall|i: int| 0 <= i < s.len() ==> is_ascii_digit(#[trigger] s[i])
}

/// The value of the decimal numeral `s` (most significant digit first).
pub open spec fn decimal_value(s: Seq<char>) -> nat
    decreases s.len(),
{
    if s.len() == 0 {
        0
    } else {
        decimal_value(s.drop_last()) * 10 + digit_value(s.last())
    }
}

/// `s` without one leading `'+'`, if it has one.
pub open spec fn unsigned_digits(s: Seq<char>) -> Seq<char> {
    if s.len() > 0 && s[0] == '+' {
        s.drop_first()
    } else {
        s
    }
}

/// Whether `d` is a non-empty run of ASCII digits whose value is at most `max`.
pub open spec fn numeral_within(d: Seq<char>, max: nat) -> bool {
    d.len() > 0 && all_digits(d) && decimal_value(d) <= max
}

/// What `s.parse::<usize>()` gives: an optional `'+'`, then one or more ASCII
/// digits whose value fits in `usize`.
pub open spec fn spec_parse_usize(s: Seq<char>) -> Option<usize> {
    let d = unsigned_digits(s);
    if numeral_within(d, usize::MAX as nat) {
        Some(decimal_value(d) as usize)
    } else {
        None
    }
}

/// What `s.parse::<i32>()` gives: an optional `'+'` or `'-'`, then one or
/// more ASCII digits whose signed value fits in `i32`.
pub open spec fn spec_parse_i32(s: Seq<char>) -> Option<i32> {
    if s.len() > 0 && s[0] == '-' {
        let d = s.drop_first();
        if numeral_within(d, 0x8000_0000) {
            Some((0 - decimal_value(d)) as i32)
        } else {
            None
        }
    } else {
        let d = unsigned_digits(s);
        if numeral_within(d, 0x7fff_ffff) {
            Some(decimal_value(d) as i32)
        } else {
            None
        }
    }
}


/// A single ASCII digit reads as its own value.
pub proof fn lemma_parse_usize_one_digit(c: char)
    requires
        48 <= c as u32 <= 57,
    ensures
        spec_parse_usize(seq![c]) == Some((c as u32 - 48) as usize),
{
    let d = seq![c];
    assert(d.drop_last() =~= Seq::<char>::empty());
    assert(d.last() == c);
    assert(d[0] == c);
    assert(unsigned_digits(d) == d);
    assert(decimal_value(Seq::<char>::empty()) == 0);
    assert(decimal_value(d) == decimal_value(d.drop_last()) * 10 + digit_value(d.last()));
    assert(decimal_value(d) == digit_value(c));
    assert(all_digits(d));
    assert(numeral_within(d, usize::MAX as nat));
}

/// Appending an ASCII digit to a numeral that reads as `v` gives the value
/// `10 * v` plus that digit, where it fits, and nothing otherwise: every
/// digit counts, in place.
pub proof fn lemma_parse_usize_push_digit(d: Seq<char>, c: char, v: usize)
    requires
        spec_parse_usize(d) == Some(v),
        48 <= c as u32 <= 57,
    ensures
        spec_parse_usize(d.push(c)) == if v * 10 + (c as u32 - 48) <= usize::MAX {
            Some((v * 10 + (c as u32 - 48)) as usize)
        } else {
            None::<usize>
        },
{
    let u = unsigned_digits(d);
    let w = d.push(c);
    assert(d.len() > 0);
    assert(w[0] == d[0]);
    if d[0] == '+' {
        assert(unsigned_digits(w) =~= u.push(c));
    } else {
        assert(unsigned_digits(w) =~= u.push(c));
    }
    let uw = u.push(c);
    assert(uw.drop_last() =~= u);
    assert(uw.last() == c);
    assert(all_digits(uw)) by {
        assert forall|i: int| 0 <= i < uw.len() implies is_ascii_digit(#[trigger] uw[i]) by {
            if i < u.len() {
                assert(uw[i] == u[i]);
            }
        }
    }
}

/// A character that is not an ASCII digit, wherever it is appended, makes
/// the text unreadable as a `usize`.
pub proof fn lemma_parse_usize_non_digit(d: Seq<char>, c: char)
    requires
        !(48 <= c as u32 <= 57),
    ensures
        spec_parse_usize(d.push(c)) is None,
{
    let w = d.push(c);
    let u = unsigned_digits(w);
    if u.len() > 0 {
        assert(u[u.len() - 1] == c);
    }
}

/// A leading `'+'` changes nothing, except that it alone, or before another
/// sign, reads as nothing.
pub proof fn lemma_parse_usize_plus(d: Seq<char>)
    requires
        d.len() == 0 || d[0] != '+',
    ensures
        spec_parse_usize(seq!['+'] + d) == spec_parse_usize(d),
{
    let w = seq!['+'] + d;
    assert(w[0] == '+');
    assert(w.drop_first() =~= d);
    if d.len() > 0 {
        assert(unsigned_digits(d) == d);
    }
}

/// Text without a leading `'-'` reads as an `i32` exactly when it reads as a
/// `usize` no larger than `i32::MAX`, with the same value.
pub proof fn lemma_parse_i32_unsigned(s: Seq<char>)
    requires
        s.len() == 0 || s[0] != '-',
    ensures
        spec_parse_i32(s) == match spec_parse_usize(s) {
            Some(v) => if v <= 0x7fff_ffff {
                Some(v as i32)
            } else {
                None::<i32>
            },
            None => None::<i32>,
        },
{
}

/// `'-'` followed by digits (no second sign) reads as the negated value,
/// down to `i32::MIN`.
pub proof fn lemma_parse_i32_negative(d: Seq<char>)
    requires
        d.len() == 0 || d[0] != '+',
    ensures
        spec_parse_i32(seq!['-'] + d) == match spec_parse_usize(d) {
            Some(v) => if v <= 0x8000_0000 {
                Some((0 - v) as i32)
            } else {
                None::<i32>
            },
            None => None::<i32>,
        },
{
    let w = seq!['-'] + d;
    assert(w[0] == '-');
    assert(w.drop_first() =~= d);
    assert(unsigned_digits(d) == d);
}

/// A numeral's value is at least that of each of its prefixes.
proof fn lemma_prefix_value_le(s: Seq<char>, k: int)
    requires
        0 <= k <= s.len(),
    ensures
        decimal_value(s.take(k)) <= decimal_value(s),
    decreases s.len(),
{
    if k < s.len() {
        lemma_prefix_value_le(s.drop_last(), k);
        assert(s.drop_last().take(k) == s.take(k));
    } else {
        assert(s.take(k) == s);
    }
}

/// The value of `s[start..]` if it is a non-empty run of ASCII digits with
/// value at most `max`, and `None` otherwise.
fn numeral_value(s: &[char], start: usize, max: u64) -> (res: Option<u64>)
    requires
        start <= s.len(),
    ensures
        res is Some <==> numeral_within(s@.skip(start as int), max as nat),
        res matches Some(v) ==> v == decimal_value(s@.skip(start as int)),
{
    let ghost d = s@.skip(start as int);
    if start == s.len() {
        return None;
    }
    let mut acc: u128 = 0;
    let mut i: usize = start;
    assert(s@.subrange(start as int, start as int) =~= Seq::<char>::empty());
    while i < s.len()
        invariant
            start <= i <= s.len(),
            d == s@.skip(start as int),
            acc <= max,
            all_digits(s@.subrange(start as int, i as int)),
            acc == decimal_value(s@.subrange(start as int, i as int)),
        decreases s.len() - i,
    {
        let u = s[i] as u32;
        let ghost next = s@.subrange(start as int, i + 1);
        assert(next.drop_last() =~= s@.subrange(start as int, i as int));
        assert(next.last() == s@[i as int]);
        assert(d.take(i + 1 - start) =~= next);
        if u < 48 || u > 57 {
            assert(!is_ascii_digit(d[i - start]));
            return None;
        }
        acc = acc * 10 + (u - 48) as u128;
        i = i + 1;
        if acc > max as u128 {
            proof {
                if all_digits(d) {
                    lemma_prefix_value_le(d, i - start);
                }
            }
            return None;
        }
    }
    assert(s@.subrange(start as int, i as int) =~= d);
    Some(acc as u64)
}

/// Reads `s` as `s.parse::<usize>()` does.
pub fn parse_usize(s: &[char]) -> (res: Option<usize>)
    ensures
        res == spec_parse_usize(s@),
{
    let start: usize = if s.len() > 0 && s[0] == '+' {
        1
    } else {
        0
    };
    assert(s@.skip(start as int) =~= unsigned_digits(s@));
    match numeral_value(s, start, usize::MAX as u64) {
        Some(v) => Some(v as usize),
        None => None,
    }
}

/// Reads `s` as `s.parse::<i32>()` does.
pub fn parse_i32(s: &[char]) -> (res: Option<i32>)
    ensures
        res == spec_parse_i32(s@),
{
    if s.len() > 0 && s[0] == '-' {
        assert(s@.skip(1) =~= s@.drop_first());
        match numeral_value(s, 1, 0x8000_0000) {
            Some(v) => Some((0 - (v as i64)) as i32),
            None => None,
        }
    } else {
        let start: usize = if s.len() > 0 && s[0] == '+' {
            1
        } else {
            0
        };
        assert(s@.skip(start as int) =~= unsigned_digits(s@));
        match numeral_value(s, start, 0x7fff_ffff) {
            Some(v) => Some(v as i32),
            None => None,
        }
    }
}

} // verus!
