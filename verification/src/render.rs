//! A matrix laid out as text: one line for each row, each entry written in
//! base ten and set to the right of a field four characters wide.

use vstd::prelude::*;
use vstd::string::*;

verus! {

/// The width of the field that an entry is set in.
pub const CELL_WIDTH: usize = 4;

/// The character that stands for the digit `d`.
pub open spec fn digit_char(d: nat) -> char
    recommends
        d < 10,
{
    ((0x30 + d) as u8) as char
}

/// The digits of `n` in base ten, without leading zeros; for zero, `0`.
pub open spec fn decimal_digits(n: nat) -> Seq<char>
    decreases n,
{
    if n < 10 {
        seq![digit_char(n)]
    } else {
        decimal_digits(n / 10).push(digit_char(n % 10))
    }
}

/// `v` written in base ten, with `-` before the digits of a negative number.
pub open spec fn decimal_text(v: int) -> Seq<char> {
    if v < 0 {
        seq!['-'] + decimal_digits((-v) as nat)
    } else {
        decimal_digits(v as nat)
    }
}

/// `t` with as many blanks before it as bring it to `width` characters; a
/// longer `t` is left as it is.
pub open spec fn padded(t: Seq<char>, width: nat) -> Seq<char> {
    if t.len() < width {
        Seq::new((width - t.len()) as nat, |i: int| ' ') + t
    } else {
        t
    }
}

/// The text of one entry.
pub open spec fn cell_text(v: i32) -> Seq<char> {
    padded(decimal_text(v as int), CELL_WIDTH as nat)
}

/// The text of one row: its entries one after the other, nothing between
/// them.
pub open spec fn row_text(row: Seq<i32>) -> Seq<char>
    decreases row.len(),
{
    if row.len() == 0 {
        Seq::empty()
    } else {
        row_text(row.drop_last()) + cell_text(row.last())
    }
}

/// The text of a matrix: each row followed by a line feed.
pub open spec fn matrix_text(m: Seq<Seq<i32>>) -> Seq<char>
    decreases m.len(),
{
    if m.len() == 0 {
        Seq::empty()
    } else {
        matrix_text(m.drop_last()) + row_text(m.last()) + seq!['\n']
    }
}

/// The digit `d` as a text of one character.
fn digit_str(d: u32) -> (r: &'static str)
    requires
        d < 10,
    ensures
        r@ == seq![digit_char(d as nat)],
{
    proof {
        reveal_strlit("0");
        reveal_strlit("1");
        reveal_strlit("2");
        reveal_strlit("3");
        reveal_strlit("4");
        reveal_strlit("5");
        reveal_strlit("6");
        reveal_strlit("7");
        reveal_strlit("8");
        reveal_strlit("9");
    }
    let r = if d == 0 {
        "0"
    } else if d == 1 {
        "1"
    } else if d == 2 {
        "2"
    } else if d == 3 {
        "3"
    } else if d == 4 {
        "4"
    } else if d == 5 {
        "5"
    } else if d == 6 {
        "6"
    } else if d == 7 {
        "7"
    } else if d == 8 {
        "8"
    } else {
        "9"
    };
    assert(r@ =~= seq![digit_char(d as nat)]);
    r
}

/// Writes the digits of `n` at the end of `out` and says how many they are.
fn push_digits(out: &mut String, n: u32) -> (count: usize)
    ensures
        final(out)@ == old(out)@ + decimal_digits(n as nat),
        count == decimal_digits(n as nat).len(),
        1 <= count <= 10,
    decreases n,
{
    let mut count: usize = 0;
    if n >= 10 {
        count = push_digits(out, n / 10);
        assert(count <= 9) by {
            lemma_digit_count((n / 10) as nat);
        }
    }
    out.append(digit_str(n % 10));
    assert(out@ =~= old(out)@ + decimal_digits(n as nat));
    count + 1
}

/// A number below one thousand million is written with nine digits at most.
proof fn lemma_digit_count(n: nat)
    requires
        n < 1_000_000_000,
    ensures
        decimal_digits(n).len() <= 9,
{
    reveal_with_fuel(decimal_digits, 10);
}

/// Writes the text of the entry `v` at the end of `out`.
fn push_cell(out: &mut String, v: i32)
    ensures
        final(out)@ == old(out)@ + cell_text(v),
{
    let mut body = String::new();
    let mut len: usize = 0;
    let magnitude: u32 = if v < 0 {
        proof {
            reveal_strlit("-");
        }
        body.append("-");
        len = 1;
        (-(v as i64)) as u32
    } else {
        v as u32
    };
    let count = push_digits(&mut body, magnitude);
    len = len + count;
    assert(body@ =~= decimal_text(v as int));
    let mut written: usize = len;
    while written < CELL_WIDTH
        invariant
            len <= written,
            len < CELL_WIDTH ==> written <= CELL_WIDTH,
            len >= CELL_WIDTH ==> written == len,
            out@ == old(out)@ + Seq::new((written - len) as nat, |i: int| ' '),
        decreases CELL_WIDTH - written,
    {
        proof {
            reveal_strlit(" ");
        }
        out.append(" ");
        written += 1;
    }
    out.append(body.as_str());
    assert(out@ =~= old(out)@ + cell_text(v));
}

/// The text of the entry `v`: its digits, with `-` before them if it is
/// negative, and blanks before that to fill four characters.
pub fn render_cell(v: i32) -> (r: String)
    ensures
        r@ == cell_text(v),
{
    let mut out = String::new();
    push_cell(&mut out, v);
    assert(out@ =~= cell_text(v));
    out
}

/// Writes the text of `row` at the end of `out`.
fn push_row(out: &mut String, row: &Vec<i32>)
    ensures
        final(out)@ == old(out)@ + row_text(row@),
{
    let mut j: usize = 0;
    assert(row@.take(0) =~= Seq::<i32>::empty());
    while j < row.len()
        invariant
            j <= row.len(),
            out@ == old(out)@ + row_text(row@.take(j as int)),
        decreases row.len() - j,
    {
        proof {
            let t = row@.take(j + 1);
            assert(t.drop_last() =~= row@.take(j as int));
            assert(t.last() == row@[j as int]);
        }
        push_cell(out, row[j]);
        assert(out@ =~= old(out)@ + row_text(row@.take(j + 1)));
        j += 1;
    }
    assert(row@.take(j as int) =~= row@);
}

/// The text of one row, without a line feed.
pub fn render_row(row: &Vec<i32>) -> (r: String)
    ensures
        r@ == row_text(row@),
{
    let mut out = String::new();
    push_row(&mut out, row);
    assert(out@ =~= row_text(row@));
    out
}

/// The text of a matrix: each row on a line of its own, closed by a line
/// feed. The matrix without rows gives the empty text.
pub fn render_matrix(matrix: &Vec<Vec<i32>>) -> (r: String)
    ensures
        r@ == matrix_text(matrix.deep_view()),
{
    let ghost m = matrix.deep_view();
    let mut out = String::new();
    let mut i: usize = 0;
    assert(m.take(0) =~= Seq::<Seq<i32>>::empty());
    while i < matrix.len()
        invariant
            i <= matrix.len(),
            m == matrix.deep_view(),
            out@ == matrix_text(m.take(i as int)),
        decreases matrix.len() - i,
    {
        proof {
            let t = m.take(i + 1);
            assert(t.drop_last() =~= m.take(i as int));
            assert(t.last() =~= matrix@[i as int]@);
            reveal_strlit("\n");
        }
        push_row(&mut out, &matrix[i]);
        out.append("\n");
        assert(out@ =~= matrix_text(m.take(i + 1)));
        i += 1;
    }
    assert(m.take(i as int) =~= m);
    out
}

} // verus!
