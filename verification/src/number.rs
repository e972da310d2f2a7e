//! Decimal numbers as they are typed: an optional sign followed by digits.
//!
//! A text stands for a number only if all of it does: a sign alone, a blank, a
//! letter or an underscore anywhere make it stand for none. Leading zeros are
//! accepted. A number that does not fit the type asked for is no number of
//! that type.

use vstd::prelude::*;
use vstd::slice::slice_subrange;

verus! {

/// `c` is one of the ten digits `0` to `9`.
pub open spec fn is_digit(c: char) -> bool {
    0x30 <= c as u32 <= 0x39
}

/// The value of the digit `c`.
pub open spec fn digit_value(c: char) -> nat
    recommends
        is_digit(c),
{
    (c as u32 - 0x30) as nat
}

/// Every character of `s` is a digit.
pub open spec fn all_digits(s: Seq<char>) -> bool {
    forall|i: int| 0 <= i < s.len() ==> is_digit(#[trigger] s[i])
}

/// The number that the digits of `s` spell in base ten.
pub open spec fn decimal_value(s: Seq<char>) -> nat
    recommends
        all_digits(s),
    decreases s.len(),
{
    if s.len() == 0 {
        0
    } else {
        10 * decimal_value(s.drop_last()) + digit_value(s.last())
    }
}

/// The number that `s` spells if it is a run of at least one digit.
pub open spec fn digits_value(s: Seq<char>) -> Option<nat> {
    if s.len() > 0 && all_digits(s) {
        Some(decimal_value(s))
    } else {
        None
    }
}

/// The number that `s` spells as an unsigned number: digits, with or without
/// a `+` before them.
pub open spec fn unsigned_value(s: Seq<char>) -> Option<nat> {
    if s.len() > 0 && s[0] == '+' {
        digits_value(s.skip(1))
    } else {
        digits_value(s)
    }
}

/// The number that `s` spells as a signed number: digits, with or without a
/// `+` or a `-` before them.
pub open spec fn signed_value(s: Seq<char>) -> Option<int> {
    if s.len() > 0 && s[0] == '-' {
        match digits_value(s.skip(1)) {
            Some(v) => Some(-(v as int)),
            None => None,
        }
    } else {
        match unsigned_value(s) {
            Some(v) => Some(v as int),
            None => None,
        }
    }
}

/// The `usize` that `s` spells, if it spells an unsigned number that fits.
pub open spec fn usize_value(s: Seq<char>) -> Option<usize> {
    match unsigned_value(s) {
        Some(v) => if v <= usize::MAX {
            Some(v as usize)
        } else {
            None
        },
        None => None,
    }
}

/// The `i32` that `s` spells, if it spells a signed number that fits.
pub open spec fn i32_value(s: Seq<char>) -> Option<i32> {
    match signed_value(s) {
        Some(v) => if i32::MIN <= v <= i32::MAX {
            Some(v as i32)
        } else {
            None
        },
        None => None,
    }
}

/// A run of digits spells at least what any of its beginnings spells.
pub proof fn lemma_decimal_value_grows(s: Seq<char>, k: int)
    requires
        0 <= k <= s.len(),
    ensures
        decimal_value(s.take(k)) <= decimal_value(s),
    decreases s.len(),
{
    if k == s.len() {
        assert(s.take(k) =~= s);
    } else {
        lemma_decimal_value_grows(s.drop_last(), k);
        assert(s.drop_last().take(k) =~= s.take(k));
    }
}

/// The number that `chars` spells, if it is a run of at least one digit that
/// spells at most `limit`.
pub fn parse_digits(chars: &[char], limit: u64) -> (r: Option<u64>)
    ensures
        r == match digits_value(chars@) {
            Some(v) => if v <= limit {
                Some(v as u64)
            } else {
                None
            },
            None => None,
        },
{
    let ghost s = chars@;
    let n = chars.len();
    if n == 0 {
        return None;
    }
    let mut acc: u128 = 0;
    let mut i: usize = 0;
    while i < n
        invariant
            i <= n,
            n == chars.len(),
            s == chars@,
            all_digits(s.take(i as int)),
            acc == decimal_value(s.take(i as int)),
            acc <= limit,
        decreases n - i,
    {
        let u = chars[i] as u32;
        if u < 0x30 || u > 0x39 {
            return None;
        }
        let next = acc * 10 + (u - 0x30) as u128;
        proof {
            let t = s.take(i + 1);
            assert(t.drop_last() =~= s.take(i as int));
            assert(t.last() == s[i as int]);
            assert(all_digits(t)) by {
                assert forall|k: int| 0 <= k < t.len() implies is_digit(#[trigger] t[k]) by {
                    if k < i {
                        assert(t[k] == s.take(i as int)[k]);
                    }
                }
            }
        }
        if next > limit as u128 {
            proof {
                lemma_decimal_value_grows(s, i + 1);
            }
            return None;
        }
        acc = next;
        i += 1;
    }
    assert(s.take(i as int) =~= s);
    Some(acc as u64)
}

/// The `usize` that `chars` spells, if it spells an unsigned number that
/// fits.
pub fn parse_usize(chars: &[char]) -> (r: Option<usize>)
    ensures
        r == usize_value(chars@),
{
    let n = chars.len();
    let digits = if n > 0 && chars[0] == '+' {
        slice_subrange(chars, 1, n)
    } else {
        chars
    };
    match parse_digits(digits, usize::MAX as u64) {
        Some(v) => Some(v as usize),
        None => None,
    }
}

/// The `i32` that `chars` spells, if it spells a signed number that fits.
pub fn parse_i32(chars: &[char]) -> (r: Option<i32>)
    ensures
        r == i32_value(chars@),
{
    let n = chars.len();
    if n > 0 && chars[0] == '-' {
        match parse_digits(slice_subrange(chars, 1, n), 0x8000_0000) {
            Some(v) => Some((-(v as i64)) as i32),
            None => None,
        }
    } else {
        let digits = if n > 0 && chars[0] == '+' {
            slice_subrange(chars, 1, n)
        } else {
            chars
        };
        match parse_digits(digits, 0x7fff_ffff) {
            Some(v) => Some(v as i32),
            None => None,
        }
    }
}

} // verus!
