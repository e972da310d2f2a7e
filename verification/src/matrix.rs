//! Matrices of `i32` entries and the three operations on them.
//!
//! A matrix is a `Vec` of rows, each row a `Vec<i32>`. Nothing in the type
//! keeps the rows equally long, so every operation checks the shape of what it
//! is given and reports what is wrong with it. In contracts a matrix is the
//! sequence of its rows, `Seq<Seq<i32>>`, obtained with `deep_view()`.
//!
//! Entries that leave the range of `i32` wrap around (see
//! [`wrap_i32`](crate::wrapping::wrap_i32)).

use vstd::prelude::*;
use crate::error::MatrixError;
use crate::wrapping::wrap_i32;
use crate::wrapping::wrapping_sum;
use crate::wrapping::wrapping_difference;
use crate::wrapping::wrapping_product;
use crate::wrapping::lemma_wrap_sum;

verus! {

/// `m` has exactly `rows` rows, and each of them has `cols` entries.
pub open spec fn has_shape(m: Seq<Seq<i32>>, rows: nat, cols: nat) -> bool {
    &&& m.len() == rows
    &&& forall|i: int| 0 <= i < m.len() ==> (#[trigger] m[i]).len() == cols
}

/// All rows of `m` are as long as its first row. The matrix without rows is
/// well-formed.
pub open spec fn well_formed(m: Seq<Seq<i32>>) -> bool {
    forall|i: int| 0 <= i < m.len() ==> (#[trigger] m[i]).len() == m[0].len()
}

/// `m` can stand as the first operand: it has a row, and is well-formed.
pub open spec fn usable(m: Seq<Seq<i32>>) -> bool {
    m.len() > 0 && well_formed(m)
}

/// `a` can stand as the first operand, and `b` has the shape of `a`.
pub open spec fn conformable(a: Seq<Seq<i32>>, b: Seq<Seq<i32>>) -> bool {
    usable(a) && has_shape(b, a.len(), a[0].len())
}

/// `a` can stand as the first factor, the second factor is announced with
/// `cols` columns, a positive number, and `b` has as many rows as `a` has
/// columns, each with `cols` entries.
pub open spec fn multipliable(a: Seq<Seq<i32>>, b: Seq<Seq<i32>>, cols: nat) -> bool {
    usable(a) && cols > 0 && has_shape(b, a[0].len(), cols)
}

/// The entrywise sum of two rows, as long as `x`.
pub open spec fn sum_row(x: Seq<i32>, y: Seq<i32>) -> Seq<i32> {
    Seq::new(x.len(), |j: int| wrap_i32(x[j] + y[j]))
}

/// The entrywise difference of two rows, as long as `x`.
pub open spec fn difference_row(x: Seq<i32>, y: Seq<i32>) -> Seq<i32> {
    Seq::new(x.len(), |j: int| wrap_i32(x[j] - y[j]))
}

/// The entrywise sum of `a` and `b`, in the shape of `a`.
pub open spec fn sum_of(a: Seq<Seq<i32>>, b: Seq<Seq<i32>>) -> Seq<Seq<i32>> {
    Seq::new(a.len(), |i: int| sum_row(a[i], b[i]))
}

/// The entrywise difference of `a` and `b`, in the shape of `a`.
pub open spec fn difference_of(a: Seq<Seq<i32>>, b: Seq<Seq<i32>>) -> Seq<Seq<i32>> {
    Seq::new(a.len(), |i: int| difference_row(a[i], b[i]))
}

/// The sum of the first `n` terms `a[i][k] * b[k][j]`, as an exact integer.
pub open spec fn dot(a: Seq<Seq<i32>>, b: Seq<Seq<i32>>, i: int, j: int, n: nat) -> int
    decreases n,
{
    if n == 0 {
        0
    } else {
        dot(a, b, i, j, (n - 1) as nat) + a[i][n - 1] * b[n - 1][j]
    }
}

/// Row `i` of the product of `a` and `b`, where `b` has `cols` columns.
pub open spec fn product_row(a: Seq<Seq<i32>>, b: Seq<Seq<i32>>, i: int, cols: nat) -> Seq<i32> {
    Seq::new(cols, |j: int| wrap_i32(dot(a, b, i, j, b.len())))
}

/// The matrix product of `a` and `b`, where `b` has `cols` columns: entry
/// `(i, j)` is the sum over `k` of `a[i][k] * b[k][j]`.
pub open spec fn product_of(a: Seq<Seq<i32>>, b: Seq<Seq<i32>>, cols: nat) -> Seq<Seq<i32>> {
    Seq::new(a.len(), |i: int| product_row(a, b, i, cols))
}

/// The rows of a matrix, seen one level down, are the views of its rows.
pub proof fn lemma_rows(m: &Vec<Vec<i32>>)
    ensures
        m.deep_view().len() == m.len(),
        forall|i: int|
            #![trigger m.deep_view()[i]]
            #![trigger m@[i]]
            0 <= i < m.len() ==> m.deep_view()[i] == m@[i]@,
{
    assert forall|i: int| 0 <= i < m.len() implies #[trigger] m.deep_view()[i] == m@[i]@ by {
        assert(m.deep_view()[i] =~= m@[i]@);
    }
}

/// Whether every row of `matrix` has `cols` entries and there are `rows` of
/// them.
pub fn shaped(matrix: &Vec<Vec<i32>>, rows: usize, cols: usize) -> (r: bool)
    ensures
        r == has_shape(matrix.deep_view(), rows as nat, cols as nat),
{
    if matrix.len() != rows {
        return false;
    }
    let mut i: usize = 0;
    while i < matrix.len()
        invariant
            i <= matrix.len(),
            forall|k: int| 0 <= k < i ==> (#[trigger] matrix.deep_view()[k]).len() == cols,
        decreases matrix.len() - i,
    {
        if matrix[i].len() != cols {
            assert(matrix.deep_view()[i as int].len() != cols);
            return false;
        }
        i += 1;
    }
    true
}

/// The number of rows and of columns of a matrix that can stand as the first
/// operand of an operation.
///
/// A matrix without rows is refused as empty, one whose rows differ in length
/// as mismatched.
pub fn shape_of(matrix: &Vec<Vec<i32>>) -> (r: Result<(usize, usize), MatrixError>)
    ensures
        matrix.len() == 0 ==> r == Err::<(usize, usize), MatrixError>(MatrixError::EmptyMatrix),
        matrix.len() > 0 && !well_formed(matrix.deep_view()) ==> r == Err::<
            (usize, usize),
            MatrixError,
        >(MatrixError::DimensionMismatch),
        usable(matrix.deep_view()) ==> r == Ok::<(usize, usize), MatrixError>(
            (matrix.len(), matrix[0].len()),
        ),
{
    let rows = matrix.len();
    if rows == 0 {
        return Err(MatrixError::EmptyMatrix);
    }
    let cols = matrix[0].len();
    assert(matrix.deep_view()[0].len() == cols);
    if !shaped(matrix, rows, cols) {
        return Err(MatrixError::DimensionMismatch);
    }
    Ok((rows, cols))
}

/// The entrywise sum of two rows of equal length.
fn add_rows(a: &Vec<i32>, b: &Vec<i32>) -> (r: Vec<i32>)
    requires
        a.len() == b.len(),
    ensures
        r@ == sum_row(a@, b@),
{
    let mut row: Vec<i32> = Vec::new();
    let mut j: usize = 0;
    while j < a.len()
        invariant
            j <= a.len(),
            a.len() == b.len(),
            row@ == sum_row(a@, b@).take(j as int),
        decreases a.len() - j,
    {
        row.push(wrapping_sum(a[j], b[j]));
        j += 1;
    }
    row
}

/// The entrywise difference of two rows of equal length.
fn subtract_rows(a: &Vec<i32>, b: &Vec<i32>) -> (r: Vec<i32>)
    requires
        a.len() == b.len(),
    ensures
        r@ == difference_row(a@, b@),
{
    let mut row: Vec<i32> = Vec::new();
    let mut j: usize = 0;
    while j < a.len()
        invariant
            j <= a.len(),
            a.len() == b.len(),
            row@ == difference_row(a@, b@).take(j as int),
        decreases a.len() - j,
    {
        row.push(wrapping_difference(a[j], b[j]));
        j += 1;
    }
    row
}

/// Adds `second` to `first`, entry by entry.
///
/// `first` must have a row and be well-formed, and `second` must have the
/// shape of `first`; the error says which of these failed first. Each entry of
/// the result is the sum of the two entries in its place, wrapped into `i32`.
pub fn add_matrices(first: &Vec<Vec<i32>>, second: &Vec<Vec<i32>>) -> (r: Result<
    Vec<Vec<i32>>,
    MatrixError,
>)
    ensures
        r is Ok <==> conformable(first.deep_view(), second.deep_view()),
        first.len() == 0 ==> r == Err::<Vec<Vec<i32>>, MatrixError>(MatrixError::EmptyMatrix),
        first.len() > 0 && !well_formed(first.deep_view()) ==> r == Err::<
            Vec<Vec<i32>>,
            MatrixError,
        >(MatrixError::DimensionMismatch),
        usable(first.deep_view()) && !has_shape(
            second.deep_view(),
            first.len() as nat,
            first[0].len() as nat,
        ) ==> r == Err::<Vec<Vec<i32>>, MatrixError>(MatrixError::DimensionMismatch),
        r matches Ok(m) ==> {
            &&& m.deep_view() == sum_of(first.deep_view(), second.deep_view())
            &&& has_shape(m.deep_view(), first.len() as nat, first[0].len() as nat)
            &&& forall|i: int, j: int|
                0 <= i < first.len() && 0 <= j < first[0].len() ==> {
                    &&& #[trigger] m[i][j] == wrap_i32(first[i][j] + second[i][j])
                    &&& (i32::MIN <= first[i][j] + second[i][j] <= i32::MAX ==> m[i][j]
                        == first[i][j] + second[i][j])
                }
        },
{
    let (rows, cols) = match shape_of(first) {
        Ok(shape) => shape,
        Err(e) => {
            return Err(e);
        },
    };
    if !shaped(second, rows, cols) {
        return Err(MatrixError::DimensionMismatch);
    }
    proof {
        lemma_rows(first);
        lemma_rows(second);
    }
    let mut result: Vec<Vec<i32>> = Vec::new();
    let mut i: usize = 0;
    while i < rows
        invariant
            i <= rows,
            rows == first.len(),
            rows == second.len(),
            result.len() == i,
            forall|k: int| 0 <= k < rows ==> (#[trigger] first@[k]).len() == cols,
            forall|k: int| 0 <= k < rows ==> (#[trigger] second@[k]).len() == cols,
            forall|k: int|
                0 <= k < i ==> (#[trigger] result@[k])@ == sum_row(first@[k]@, second@[k]@),
        decreases rows - i,
    {
        let row = add_rows(&first[i], &second[i]);
        result.push(row);
        i += 1;
    }
    proof {
        lemma_rows(&result);
        assert(result.deep_view() =~= sum_of(first.deep_view(), second.deep_view()));
    }
    Ok(result)
}

/// Subtracts `second` from `first`, entry by entry.
///
/// `first` must have a row and be well-formed, and `second` must have the
/// shape of `first`; the error says which of these failed first. Each entry of
/// the result is the difference of the two entries in its place, wrapped into
/// `i32`.
pub fn subtract_matrices(first: &Vec<Vec<i32>>, second: &Vec<Vec<i32>>) -> (r: Result<
    Vec<Vec<i32>>,
    MatrixError,
>)
    ensures
        r is Ok <==> conformable(first.deep_view(), second.deep_view()),
        first.len() == 0 ==> r == Err::<Vec<Vec<i32>>, MatrixError>(MatrixError::EmptyMatrix),
        first.len() > 0 && !well_formed(first.deep_view()) ==> r == Err::<
            Vec<Vec<i32>>,
            MatrixError,
        >(MatrixError::DimensionMismatch),
        usable(first.deep_view()) && !has_shape(
            second.deep_view(),
            first.len() as nat,
            first[0].len() as nat,
        ) ==> r == Err::<Vec<Vec<i32>>, MatrixError>(MatrixError::DimensionMismatch),
        r matches Ok(m) ==> {
            &&& m.deep_view() == difference_of(first.deep_view(), second.deep_view())
            &&& has_shape(m.deep_view(), first.len() as nat, first[0].len() as nat)
            &&& forall|i: int, j: int|
                0 <= i < first.len() && 0 <= j < first[0].len() ==> {
                    &&& #[trigger] m[i][j] == wrap_i32(first[i][j] - second[i][j])
                    &&& (i32::MIN <= first[i][j] - second[i][j] <= i32::MAX ==> m[i][j]
                        == first[i][j] - second[i][j])
                }
        },
{
    let (rows, cols) = match shape_of(first) {
        Ok(shape) => shape,
        Err(e) => {
            return Err(e);
        },
    };
    if !shaped(second, rows, cols) {
        return Err(MatrixError::DimensionMismatch);
    }
    proof {
        lemma_rows(first);
        lemma_rows(second);
    }
    let mut result: Vec<Vec<i32>> = Vec::new();
    let mut i: usize = 0;
    while i < rows
        invariant
            i <= rows,
            rows == first.len(),
            rows == second.len(),
            result.len() == i,
            forall|k: int| 0 <= k < rows ==> (#[trigger] first@[k]).len() == cols,
            forall|k: int| 0 <= k < rows ==> (#[trigger] second@[k]).len() == cols,
            forall|k: int|
                0 <= k < i ==> (#[trigger] result@[k])@ == difference_row(
                    first@[k]@,
                    second@[k]@,
                ),
        decreases rows - i,
    {
        let row = subtract_rows(&first[i], &second[i]);
        result.push(row);
        i += 1;
    }
    proof {
        lemma_rows(&result);
        assert(result.deep_view() =~= difference_of(first.deep_view(), second.deep_view()));
    }
    Ok(result)
}

/// Entry `(i, j)` of the product of `first` and `second`.
fn product_entry(first: &Vec<Vec<i32>>, second: &Vec<Vec<i32>>, i: usize, j: usize) -> (r: i32)
    requires
        i < first.len(),
        first@[i as int].len() == second.len(),
        forall|k: int| 0 <= k < second.len() ==> j < (#[trigger] second@[k]).len(),
    ensures
        r == wrap_i32(
            dot(first.deep_view(), second.deep_view(), i as int, j as int, second.len() as nat),
        ),
{
    let n = second.len();
    let ghost a = first.deep_view();
    let ghost b = second.deep_view();
    proof {
        lemma_rows(first);
        lemma_rows(second);
    }
    let mut acc: i32 = 0;
    let mut k: usize = 0;
    while k < n
        invariant
            k <= n,
            n == second.len(),
            i < first.len(),
            first@[i as int].len() == n,
            forall|t: int| 0 <= t < second.len() ==> j < (#[trigger] second@[t]).len(),
            a == first.deep_view(),
            b == second.deep_view(),
            a[i as int] == first@[i as int]@,
            forall|t: int| 0 <= t < n ==> #[trigger] b[t] == second@[t]@,
            acc == wrap_i32(dot(a, b, i as int, j as int, k as nat)),
        decreases n - k,
    {
        let x = first[i][k];
        let y = second[k][j];
        let term = wrapping_product(x, y);
        proof {
            assert(b[k as int] == second@[k as int]@);
            assert(x == a[i as int][k as int]);
            assert(y == b[k as int][j as int]);
            lemma_wrap_sum(dot(a, b, i as int, j as int, k as nat), x * y);
        }
        acc = wrapping_sum(acc, term);
        k += 1;
    }
    acc
}

/// Row `i` of the product of `first` and `second`, where `second` has `cols`
/// columns.
fn multiply_row(first: &Vec<Vec<i32>>, second: &Vec<Vec<i32>>, i: usize, cols: usize) -> (r: Vec<
    i32,
>)
    requires
        i < first.len(),
        first@[i as int].len() == second.len(),
        forall|k: int| 0 <= k < second.len() ==> (#[trigger] second@[k]).len() == cols,
    ensures
        r@ == product_row(first.deep_view(), second.deep_view(), i as int, cols as nat),
{
    let mut row: Vec<i32> = Vec::new();
    let mut j: usize = 0;
    while j < cols
        invariant
            j <= cols,
            i < first.len(),
            first@[i as int].len() == second.len(),
            forall|k: int| 0 <= k < second.len() ==> (#[trigger] second@[k]).len() == cols,
            row@ == product_row(first.deep_view(), second.deep_view(), i as int, cols as nat).take(
                j as int,
            ),
        decreases cols - j,
    {
        let entry = product_entry(first, second, i, j);
        row.push(entry);
        j += 1;
    }
    row
}

/// Multiplies `first` by `second`, a matrix announced with `cols_b` columns.
///
/// `first` must have a row and be well-formed, `cols_b` must be positive, and
/// `second` must have one row for each column of `first`, each with `cols_b`
/// entries; the error says which of these failed first. Entry `(i, j)` of the
/// result is the sum over `k` of `first[i][k] * second[k][j]`, wrapped into
/// `i32`; the result has the rows of `first` and `cols_b` columns.
pub fn multiply_matrices(first: &Vec<Vec<i32>>, second: &Vec<Vec<i32>>, cols_b: usize) -> (r:
    Result<Vec<Vec<i32>>, MatrixError>)
    ensures
        r is Ok <==> multipliable(first.deep_view(), second.deep_view(), cols_b as nat),
        first.len() == 0 ==> r == Err::<Vec<Vec<i32>>, MatrixError>(MatrixError::EmptyMatrix),
        first.len() > 0 && !well_formed(first.deep_view()) ==> r == Err::<
            Vec<Vec<i32>>,
            MatrixError,
        >(MatrixError::DimensionMismatch),
        usable(first.deep_view()) && cols_b == 0 ==> r == Err::<Vec<Vec<i32>>, MatrixError>(
            MatrixError::InvalidInput,
        ),
        usable(first.deep_view()) && cols_b > 0 && !has_shape(
            second.deep_view(),
            first[0].len() as nat,
            cols_b as nat,
        ) ==> r == Err::<Vec<Vec<i32>>, MatrixError>(MatrixError::DimensionMismatch),
        r matches Ok(m) ==> {
            &&& m.deep_view() == product_of(first.deep_view(), second.deep_view(), cols_b as nat)
            &&& has_shape(m.deep_view(), first.len() as nat, cols_b as nat)
            &&& first[0].len() == second.len()
            &&& forall|i: int, j: int|
                0 <= i < first.len() && 0 <= j < cols_b ==> #[trigger] m[i][j] == wrap_i32(
                    dot(first.deep_view(), second.deep_view(), i, j, second.len() as nat),
                )
        },
{
    let (rows_a, cols_a) = match shape_of(first) {
        Ok(shape) => shape,
        Err(e) => {
            return Err(e);
        },
    };
    if cols_b == 0 {
        return Err(MatrixError::InvalidInput);
    }
    if !shaped(second, cols_a, cols_b) {
        return Err(MatrixError::DimensionMismatch);
    }
    proof {
        lemma_rows(first);
        lemma_rows(second);
    }
    let mut result: Vec<Vec<i32>> = Vec::new();
    let mut i: usize = 0;
    while i < rows_a
        invariant
            i <= rows_a,
            rows_a == first.len(),
            cols_a == second.len(),
            result.len() == i,
            forall|k: int| 0 <= k < rows_a ==> (#[trigger] first@[k]).len() == cols_a,
            forall|k: int| 0 <= k < cols_a ==> (#[trigger] second@[k]).len() == cols_b,
            forall|k: int|
                0 <= k < i ==> (#[trigger] result@[k])@ == product_row(
                    first.deep_view(),
                    second.deep_view(),
                    k,
                    cols_b as nat,
                ),
        decreases rows_a - i,
    {
        let row = multiply_row(first, second, i, cols_b);
        result.push(row);
        i += 1;
    }
    proof {
        lemma_rows(&result);
        assert(result.deep_view() =~= product_of(
            first.deep_view(),
            second.deep_view(),
            cols_b as nat,
        ));
    }
    Ok(result)
}

} // verus!
