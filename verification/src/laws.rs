//! Algebraic facts about the matrix operations, proved from their
//! definitions.

use vstd::prelude::*;
use crate::matrix::conformable;
use crate::matrix::difference_of;
use crate::matrix::dot;
use crate::matrix::has_shape;
use crate::matrix::multipliable;
use crate::matrix::product_of;
use crate::matrix::sum_of;
use crate::matrix::usable;
use crate::wrapping::wrap_i32;

verus! {

/// The square matrix of size `n` with ones on the diagonal and zeros
/// elsewhere.
pub open spec fn identity(n: nat) -> Seq<Seq<i32>> {
    Seq::new(n, |i: int| Seq::new(n, |j: int| if i == j { 1i32 } else { 0i32 }))
}

/// Subtracting `b` from the sum of `a` and `b` gives `a` back, whether or not
/// an entry of the sum wrapped around.
pub proof fn law_subtract_undoes_add(a: Seq<Seq<i32>>, b: Seq<Seq<i32>>)
    requires
        conformable(a, b),
    ensures
        conformable(sum_of(a, b), b),
        difference_of(sum_of(a, b), b) == a,
{
    let s = sum_of(a, b);
    assert(s[0].len() == a[0].len());
    let d = difference_of(s, b);
    assert forall|i: int| 0 <= i < a.len() implies #[trigger] d[i] == a[i] by {
        assert(s[i].len() == a[i].len());
        assert forall|j: int| 0 <= j < a[i].len() implies d[i][j] == a[i][j] by {
            assert(s[i][j] == wrap_i32(a[i][j] + b[i][j]));
        }
        assert(d[i] =~= a[i]);
    }
    assert(d =~= a);
}

/// Adding `b` to the difference of `a` and `b` gives `a` back.
pub proof fn law_add_undoes_subtract(a: Seq<Seq<i32>>, b: Seq<Seq<i32>>)
    requires
        conformable(a, b),
    ensures
        conformable(difference_of(a, b), b),
        sum_of(difference_of(a, b), b) == a,
{
    let d = difference_of(a, b);
    assert(d[0].len() == a[0].len());
    let s = sum_of(d, b);
    assert forall|i: int| 0 <= i < a.len() implies #[trigger] s[i] == a[i] by {
        assert(d[i].len() == a[i].len());
        assert forall|j: int| 0 <= j < a[i].len() implies s[i][j] == a[i][j] by {
            assert(d[i][j] == wrap_i32(a[i][j] - b[i][j]));
        }
        assert(s[i] =~= a[i]);
    }
    assert(s =~= a);
}

/// For a first factor that has a row and is well-formed, and a second factor
/// whose rows all have `cols` entries, `cols` positive, the product is defined
/// exactly if the first has as many columns as the second has rows. It then
/// has the rows of the first and the columns of the second.
pub proof fn law_product_defined(a: Seq<Seq<i32>>, b: Seq<Seq<i32>>, cols: nat)
    requires
        usable(a),
        cols > 0,
        has_shape(b, b.len(), cols),
    ensures
        multipliable(a, b, cols) <==> a[0].len() == b.len(),
        multipliable(a, b, cols) ==> has_shape(product_of(a, b, cols), a.len(), cols),
{
}

/// Against column `j` of the identity, the first `n` terms of row `i` of `a`
/// add up to `a[i][j]` once `n` has passed `j`, and to zero before.
proof fn lemma_dot_identity_right(a: Seq<Seq<i32>>, size: nat, i: int, j: int, n: nat)
    requires
        0 <= j < size,
        n <= size,
    ensures
        dot(a, identity(size), i, j, n) == if j < n {
            a[i][j] as int
        } else {
            0
        },
    decreases n,
{
    if n > 0 {
        lemma_dot_identity_right(a, size, i, j, (n - 1) as nat);
        let e = identity(size)[n - 1][j];
        assert(e == if n - 1 == j { 1i32 } else { 0i32 });
        assert(a[i][n - 1] * e == if n - 1 == j { a[i][n - 1] as int } else { 0 }) by {
            if n - 1 == j {
                assert(a[i][n - 1] * 1 == a[i][n - 1]);
            } else {
                assert(a[i][n - 1] * 0 == 0);
            }
        }
    }
}

/// Against row `i` of the identity, the first `n` terms of column `j` of `a`
/// add up to `a[i][j]` once `n` has passed `i`, and to zero before.
proof fn lemma_dot_identity_left(a: Seq<Seq<i32>>, size: nat, i: int, j: int, n: nat)
    requires
        0 <= i < size,
        n <= size,
    ensures
        dot(identity(size), a, i, j, n) == if i < n {
            a[i][j] as int
        } else {
            0
        },
    decreases n,
{
    if n > 0 {
        lemma_dot_identity_left(a, size, i, j, (n - 1) as nat);
        let e = identity(size)[i][n - 1];
        assert(e == if n - 1 == i { 1i32 } else { 0i32 });
        assert(e * a[n - 1][j] == if n - 1 == i { a[n - 1][j] as int } else { 0 }) by {
            if n - 1 == i {
                assert(1 * a[n - 1][j] == a[n - 1][j]);
            } else {
                assert(0 * a[n - 1][j] == 0);
            }
        }
    }
}

/// Multiplying a matrix that has a row and at least one column by the
/// identity of its column count, on the right, leaves it unchanged.
pub proof fn law_identity_right(a: Seq<Seq<i32>>)
    requires
        usable(a),
        a[0].len() > 0,
    ensures
        multipliable(a, identity(a[0].len()), a[0].len()),
        product_of(a, identity(a[0].len()), a[0].len()) == a,
{
    let n = a[0].len();
    let id = identity(n);
    let p = product_of(a, id, n);
    assert forall|i: int| 0 <= i < a.len() implies #[trigger] p[i] == a[i] by {
        assert(a[i].len() == n);
        assert forall|j: int| 0 <= j < n implies p[i][j] == a[i][j] by {
            lemma_dot_identity_right(a, n, i, j, n);
        }
        assert(p[i] =~= a[i]);
    }
    assert(p =~= a);
}

/// Multiplying a matrix that has a row and at least one column by the
/// identity of its row count, on the left, leaves it unchanged.
pub proof fn law_identity_left(a: Seq<Seq<i32>>)
    requires
        usable(a),
        a[0].len() > 0,
    ensures
        multipliable(identity(a.len()), a, a[0].len()),
        product_of(identity(a.len()), a, a[0].len()) == a,
{
    let m = a.len();
    let n = a[0].len();
    let id = identity(m);
    assert(id[0].len() == m);
    let p = product_of(id, a, n);
    assert forall|i: int| 0 <= i < m implies #[trigger] p[i] == a[i] by {
        assert(a[i].len() == n);
        assert forall|j: int| 0 <= j < n implies p[i][j] == a[i][j] by {
            lemma_dot_identity_left(a, m, i, j, m);
        }
        assert(p[i] =~= a[i]);
    }
    assert(p =~= a);
}

} // verus!
