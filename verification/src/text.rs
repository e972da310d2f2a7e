//! Characters of a typed line: white space, and what is left of a line once
//! the white space at both ends is taken away.

use vstd::prelude::*;
use vstd::slice::slice_subrange;

verus! {

/// `c` is white space: one of the characters that Unicode gives the property
/// `White_Space`.
pub open spec fn is_space(c: char) -> bool {
    let u = c as u32;
    ||| 0x09 <= u <= 0x0D
    ||| u == 0x20
    ||| u == 0x85
    ||| u == 0xA0
    ||| u == 0x1680
    ||| 0x2000 <= u <= 0x200A
    ||| u == 0x2028
    ||| u == 0x2029
    ||| u == 0x202F
    ||| u == 0x205F
    ||| u == 0x3000
}

/// Whether `c` is white space.
pub fn space(c: char) -> (r: bool)
    ensures
        r == is_space(c),
{
    let u = c as u32;
    (0x09 <= u && u <= 0x0D) || u == 0x20 || u == 0x85 || u == 0xA0 || u == 0x1680 || (0x2000 <= u
        && u <= 0x200A) || u == 0x2028 || u == 0x2029 || u == 0x202F || u == 0x205F || u == 0x3000
}

/// The number of white-space characters at the start of `s`.
pub open spec fn leading_spaces(s: Seq<char>) -> nat
    decreases s.len(),
{
    if s.len() > 0 && is_space(s[0]) {
        1 + leading_spaces(s.skip(1))
    } else {
        0
    }
}

/// The number of white-space characters at the end of `s`.
pub open spec fn trailing_spaces(s: Seq<char>) -> nat
    decreases s.len(),
{
    if s.len() > 0 && is_space(s.last()) {
        1 + trailing_spaces(s.drop_last())
    } else {
        0
    }
}

/// `s` without the white space at its start.
pub open spec fn trim_start(s: Seq<char>) -> Seq<char> {
    s.skip(leading_spaces(s) as int)
}

/// `s` without the white space at its end.
pub open spec fn trim_end(s: Seq<char>) -> Seq<char> {
    s.take(s.len() - trailing_spaces(s))
}

/// `s` without the white space at its start and at its end.
pub open spec fn trimmed(s: Seq<char>) -> Seq<char> {
    trim_end(trim_start(s))
}

/// The characters of `s`, in order.
pub fn chars_of(s: &str) -> (v: Vec<char>)
    ensures
        v@ == s@,
{
    let mut v: Vec<char> = Vec::new();
    let chars = s.chars();
    for c in it: chars
        invariant
            it.seq() == s@,
            v@ == s@.take(it.index()),
    {
        v.push(c);
    }
    v
}

/// `chars` without the white space at its two ends.
pub fn trim(chars: &[char]) -> (r: &[char])
    ensures
        r@ == trimmed(chars@),
{
    let n = chars.len();
    let ghost s = chars@;
    let mut start: usize = 0;
    assert(s.skip(0) =~= s);
    while start < n && space(chars[start])
        invariant
            start <= n,
            n == chars.len(),
            s == chars@,
            leading_spaces(s) == start + leading_spaces(s.skip(start as int)),
        decreases n - start,
    {
        assert(s.skip(start as int).skip(1) =~= s.skip(start + 1));
        start += 1;
    }
    let ghost t = s.skip(start as int);
    let mut end: usize = n;
    assert(t.take(n - start) =~= t);
    while end > start && space(chars[end - 1])
        invariant
            start <= end <= n,
            n == chars.len(),
            s == chars@,
            t == s.skip(start as int),
            trailing_spaces(t) == (n - end) + trailing_spaces(t.take(end - start)),
        decreases end,
    {
        assert(t.take(end - start).last() == chars@[end - 1]);
        assert(t.take(end - start).drop_last() =~= t.take(end - start - 1));
        end -= 1;
    }
    assert(trailing_spaces(t.take(end - start)) == 0) by {
        if end > start {
            assert(t.take(end - start).last() == chars@[end - 1]);
        }
    }
    assert(trim_end(t) =~= s.subrange(start as int, end as int));
    slice_subrange(chars, start, end)
}

} // verus!
