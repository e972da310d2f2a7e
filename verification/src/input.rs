//! What a typed line means: a count of rows or columns, the column count of a
//! second factor, or a row of entries.

use vstd::prelude::*;
use vstd::slice::slice_subrange;
use crate::error::MatrixError;
use crate::number::i32_value;
use crate::number::parse_i32;
use crate::number::parse_usize;
use crate::number::usize_value;
use crate::text::chars_of;
use crate::text::is_space;
use crate::text::space;
use crate::text::trim;
use crate::text::trimmed;

verus! {

/// What a line typed for a number of rows or of columns holds.
#[derive(Debug, Clone, Copy, PartialEq, Eq, Structural)]
pub enum CountEntry {
    /// A positive number.
    Accepted(usize),
    /// The number zero.
    NotPositive,
    /// Nothing that reads as a number that fits `usize`.
    NotANumber,
}

/// What `line` holds as a count: the number that the line spells once the
/// white space at its ends is taken away.
pub open spec fn count_entry(line: Seq<char>) -> CountEntry {
    match usize_value(trimmed(line)) {
        Some(n) => if n > 0 {
            CountEntry::Accepted(n)
        } else {
            CountEntry::NotPositive
        },
        None => CountEntry::NotANumber,
    }
}

/// Reads a line typed for a number of rows or of columns.
pub fn parse_count(line: &str) -> (r: CountEntry)
    ensures
        r == count_entry(line@),
{
    let chars = chars_of(line);
    match parse_usize(trim(chars.as_slice())) {
        Some(n) => if n > 0 {
            CountEntry::Accepted(n)
        } else {
            CountEntry::NotPositive
        },
        None => CountEntry::NotANumber,
    }
}

/// Reads the line typed for the number of columns of a second factor. Only a
/// positive number is taken; anything else is invalid input.
pub fn parse_column_count(line: &str) -> (r: Result<usize, MatrixError>)
    ensures
        r == match count_entry(line@) {
            CountEntry::Accepted(n) => Ok::<usize, MatrixError>(n),
            _ => Err::<usize, MatrixError>(MatrixError::InvalidInput),
        },
{
    match parse_count(line) {
        CountEntry::Accepted(n) => Ok(n),
        _ => Err(MatrixError::InvalidInput),
    }
}

/// The number of characters at the start of `s` that are not white space.
pub open spec fn word_len(s: Seq<char>) -> nat
    decreases s.len(),
{
    if s.len() > 0 && !is_space(s[0]) {
        1 + word_len(s.skip(1))
    } else {
        0
    }
}

/// A word is no longer than the text it starts.
pub proof fn lemma_word_len_bound(s: Seq<char>)
    ensures
        word_len(s) <= s.len(),
        s.len() > 0 && !is_space(s[0]) ==> word_len(s) >= 1,
    decreases s.len(),
{
    if s.len() > 0 && !is_space(s[0]) {
        lemma_word_len_bound(s.skip(1));
    }
}

/// The words of `s`: its longest runs of characters that are not white
/// space, from left to right.
pub open spec fn words(s: Seq<char>) -> Seq<Seq<char>>
    decreases s.len(),
    via words_decreases
{
    if s.len() == 0 {
        Seq::empty()
    } else if is_space(s[0]) {
        words(s.skip(1))
    } else {
        seq![s.take(word_len(s) as int)] + words(s.skip(word_len(s) as int))
    }
}

#[via_fn]
proof fn words_decreases(s: Seq<char>) {
    lemma_word_len_bound(s);
}

/// The entries that `ws` holds: each word that spells an `i32`, in order.
/// Words that spell none are passed over.
pub open spec fn entries_of(ws: Seq<Seq<char>>) -> Seq<i32>
    decreases ws.len(),
{
    if ws.len() == 0 {
        Seq::empty()
    } else {
        match i32_value(ws[0]) {
            Some(v) => seq![v] + entries_of(ws.skip(1)),
            None => entries_of(ws.skip(1)),
        }
    }
}

/// The entries that a typed line holds.
pub open spec fn row_entries(line: Seq<char>) -> Seq<i32> {
    entries_of(words(line))
}

/// Where the word that starts at `start` ends.
fn word_end(chars: &Vec<char>, start: usize) -> (end: usize)
    requires
        start < chars.len(),
        !is_space(chars@[start as int]),
    ensures
        start < end <= chars.len(),
        end - start == word_len(chars@.skip(start as int)),
{
    let n = chars.len();
    let ghost s = chars@;
    let mut end: usize = start;
    assert(s.skip(start as int)[0] == s[start as int]);
    while end < n && !space(chars[end])
        invariant
            start <= end <= n,
            n == chars.len(),
            s == chars@,
            end == start ==> !is_space(s[start as int]),
            word_len(s.skip(start as int)) == (end - start) + word_len(s.skip(end as int)),
        decreases n - end,
    {
        assert(s.skip(end as int).skip(1) =~= s.skip(end + 1));
        end += 1;
    }
    end
}

/// The entries that a typed line holds: every word of the line that spells an
/// `i32`, from left to right. Words that spell none are passed over.
pub fn parse_entries(line: &str) -> (r: Vec<i32>)
    ensures
        r@ == row_entries(line@),
{
    let chars = chars_of(line);
    let n = chars.len();
    let ghost s = chars@;
    let mut out: Vec<i32> = Vec::new();
    let mut i: usize = 0;
    assert(s.skip(0) =~= s);
    while i < n
        invariant
            i <= n,
            n == chars.len(),
            s == chars@,
            out@ + row_entries(s.skip(i as int)) == row_entries(s),
        decreases n - i,
    {
        let ghost rest = s.skip(i as int);
        assert(rest[0] == s[i as int]);
        if space(chars[i]) {
            assert(rest.skip(1) =~= s.skip(i + 1));
            i += 1;
        } else {
            let end = word_end(&chars, i);
            let value = parse_i32(slice_subrange(chars.as_slice(), i, end));
            proof {
                let w = rest.take(end - i);
                assert(w =~= s.subrange(i as int, end as int));
                assert(rest.skip(end - i) =~= s.skip(end as int));
                let ws = words(rest);
                assert(ws == seq![w] + words(s.skip(end as int)));
                assert(ws[0] == w);
                assert(ws.skip(1) =~= words(s.skip(end as int)));
            }
            match value {
                Some(v) => {
                    assert(out@.push(v) + row_entries(s.skip(end as int)) =~= out@ + (seq![v]
                        + row_entries(s.skip(end as int))));
                    out.push(v);
                },
                None => {},
            }
            i = end;
        }
    }
    assert(out@ + Seq::<i32>::empty() =~= out@);
    out
}

/// Reads a line typed for a row of `cols` entries. The row is taken if the
/// line holds exactly `cols` entries, and refused otherwise.
pub fn parse_row(line: &str, cols: usize) -> (r: Option<Vec<i32>>)
    ensures
        r is Some <==> row_entries(line@).len() == cols,
        r matches Some(row) ==> row@ == row_entries(line@),
{
    let row = parse_entries(line);
    if row.len() == cols {
        Some(row)
    } else {
        None
    }
}

} // verus!
