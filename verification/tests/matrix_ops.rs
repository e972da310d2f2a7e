use matrix_calc::error::MatrixError;
use matrix_calc::matrix::{add_matrices, multiply_matrices, shape_of, shaped, subtract_matrices};
use matrix_calc::wrapping::{wrapping_difference, wrapping_product, wrapping_sum};

fn two_by_two() -> (Vec<Vec<i32>>, Vec<Vec<i32>>) {
    (vec![vec![1, 2], vec![3, 4]], vec![vec![5, 6], vec![7, 8]])
}

#[test]
fn adds_two_by_two() {
    let (a, b) = two_by_two();
    assert_eq!(add_matrices(&a, &b), Ok(vec![vec![6, 8], vec![10, 12]]));
}

#[test]
fn subtracts_two_by_two() {
    let (a, b) = two_by_two();
    assert_eq!(subtract_matrices(&a, &b), Ok(vec![vec![-4, -4], vec![-4, -4]]));
}

#[test]
fn multiplies_two_by_two() {
    let (a, b) = two_by_two();
    assert_eq!(multiply_matrices(&a, &b, 2), Ok(vec![vec![19, 22], vec![43, 50]]));
}

#[test]
fn multiplies_row_by_column() {
    let a = vec![vec![1, 2, 3]];
    let b = vec![vec![1], vec![2], vec![3]];
    assert_eq!(multiply_matrices(&a, &b, 1), Ok(vec![vec![14]]));
}

#[test]
fn multiplies_column_by_row() {
    let a = vec![vec![1], vec![2], vec![3]];
    let b = vec![vec![4, 5]];
    assert_eq!(
        multiply_matrices(&a, &b, 2),
        Ok(vec![vec![4, 5], vec![8, 10], vec![12, 15]])
    );
}

#[test]
fn empty_first_matrix_is_refused() {
    let empty: Vec<Vec<i32>> = Vec::new();
    let b = vec![vec![1]];
    assert_eq!(add_matrices(&empty, &b), Err(MatrixError::EmptyMatrix));
    assert_eq!(subtract_matrices(&empty, &b), Err(MatrixError::EmptyMatrix));
    assert_eq!(multiply_matrices(&empty, &b, 1), Err(MatrixError::EmptyMatrix));
    assert_eq!(add_matrices(&empty, &empty), Err(MatrixError::EmptyMatrix));
    assert_eq!(multiply_matrices(&empty, &empty, 0), Err(MatrixError::EmptyMatrix));
    assert_eq!(shape_of(&empty), Err(MatrixError::EmptyMatrix));
}

#[test]
fn ragged_first_matrix_is_refused() {
    let ragged = vec![vec![1, 2], vec![3]];
    let b = vec![vec![1, 2], vec![3, 4]];
    assert_eq!(add_matrices(&ragged, &b), Err(MatrixError::DimensionMismatch));
    assert_eq!(subtract_matrices(&ragged, &b), Err(MatrixError::DimensionMismatch));
    assert_eq!(multiply_matrices(&ragged, &b, 2), Err(MatrixError::DimensionMismatch));
    assert_eq!(multiply_matrices(&ragged, &b, 0), Err(MatrixError::DimensionMismatch));
    assert_eq!(shape_of(&ragged), Err(MatrixError::DimensionMismatch));
}

#[test]
fn second_matrix_of_other_shape_is_refused() {
    let a = vec![vec![1, 2], vec![3, 4]];
    let fewer_rows = vec![vec![1, 2]];
    let more_rows = vec![vec![1, 2], vec![3, 4], vec![5, 6]];
    let short_row = vec![vec![1, 2], vec![3]];
    let wide = vec![vec![1, 2, 3], vec![4, 5, 6]];
    let empty: Vec<Vec<i32>> = Vec::new();
    for b in [&fewer_rows, &more_rows, &short_row, &wide, &empty] {
        assert_eq!(add_matrices(&a, b), Err(MatrixError::DimensionMismatch));
        assert_eq!(subtract_matrices(&a, b), Err(MatrixError::DimensionMismatch));
    }
}

#[test]
fn second_factor_must_match_announced_shape() {
    let a = vec![vec![1, 2], vec![3, 4]];
    let three_rows = vec![vec![1], vec![2], vec![3]];
    let one_row = vec![vec![1, 2]];
    let short_row = vec![vec![1, 2], vec![3]];
    let good = vec![vec![1, 2], vec![3, 4]];
    assert_eq!(multiply_matrices(&a, &three_rows, 1), Err(MatrixError::DimensionMismatch));
    assert_eq!(multiply_matrices(&a, &one_row, 2), Err(MatrixError::DimensionMismatch));
    assert_eq!(multiply_matrices(&a, &short_row, 2), Err(MatrixError::DimensionMismatch));
    assert_eq!(multiply_matrices(&a, &good, 3), Err(MatrixError::DimensionMismatch));
    assert_eq!(multiply_matrices(&a, &good, 1), Err(MatrixError::DimensionMismatch));
}

#[test]
fn zero_columns_announced_is_invalid_input() {
    let a = vec![vec![1, 2], vec![3, 4]];
    let b = vec![vec![1, 2], vec![3, 4]];
    let no_columns: Vec<Vec<i32>> = vec![vec![], vec![]];
    assert_eq!(multiply_matrices(&a, &b, 0), Err(MatrixError::InvalidInput));
    assert_eq!(multiply_matrices(&a, &no_columns, 0), Err(MatrixError::InvalidInput));
}

#[test]
fn product_is_defined_only_for_matching_inner_sizes() {
    let a = vec![vec![1, 2, 3], vec![4, 5, 6]];
    for rows in 0..6usize {
        let b: Vec<Vec<i32>> = (0..rows).map(|_| vec![1, 1]).collect();
        let product = multiply_matrices(&a, &b, 2);
        assert_eq!(product.is_ok(), rows == 3);
        if let Ok(p) = product {
            assert!(shaped(&p, 2, 2));
            assert_eq!(p, vec![vec![6, 6], vec![15, 15]]);
        }
    }
}

#[test]
fn subtracting_what_was_added_gives_the_first_back() {
    let a = vec![vec![1, -2, 30], vec![i32::MAX, i32::MIN, 0]];
    let b = vec![vec![7, 8, -9], vec![1, -1, i32::MAX]];
    let sum = add_matrices(&a, &b).unwrap();
    assert_eq!(subtract_matrices(&sum, &b), Ok(a.clone()));
    let difference = subtract_matrices(&a, &b).unwrap();
    assert_eq!(add_matrices(&difference, &b), Ok(a));
}

#[test]
fn identity_leaves_a_matrix_unchanged() {
    let a = vec![vec![1, 2, 3], vec![4, 5, 6]];
    let two = vec![vec![1, 0], vec![0, 1]];
    let three = vec![vec![1, 0, 0], vec![0, 1, 0], vec![0, 0, 1]];
    assert_eq!(multiply_matrices(&a, &three, 3), Ok(a.clone()));
    assert_eq!(multiply_matrices(&two, &a, 3), Ok(a));
}

#[test]
fn entries_wrap_around() {
    let a = vec![vec![i32::MAX, i32::MIN]];
    let b = vec![vec![1, -1]];
    assert_eq!(add_matrices(&a, &b), Ok(vec![vec![i32::MIN, i32::MAX]]));
    let c = vec![vec![i32::MIN, i32::MAX]];
    let d = vec![vec![1, -1]];
    assert_eq!(subtract_matrices(&c, &d), Ok(vec![vec![i32::MAX, i32::MIN]]));
    let e = vec![vec![65536, 65536]];
    let f = vec![vec![65536], vec![32768]];
    assert_eq!(multiply_matrices(&e, &f, 1), Ok(vec![vec![i32::MIN]]));
}

#[test]
fn row_without_columns_times_nothing_is_zero() {
    let a: Vec<Vec<i32>> = vec![vec![], vec![]];
    let b: Vec<Vec<i32>> = Vec::new();
    assert_eq!(multiply_matrices(&a, &b, 3), Ok(vec![vec![0, 0, 0], vec![0, 0, 0]]));
    assert_eq!(add_matrices(&a, &a), Ok(vec![vec![], vec![]]));
}

#[test]
fn shape_is_rows_then_columns() {
    let a = vec![vec![1, 2, 3], vec![4, 5, 6]];
    assert_eq!(shape_of(&a), Ok((2, 3)));
    assert!(shaped(&a, 2, 3));
    assert!(!shaped(&a, 3, 2));
    assert!(!shaped(&a, 2, 2));
    let empty: Vec<Vec<i32>> = Vec::new();
    assert!(shaped(&empty, 0, 5));
}

#[test]
fn sums_inside_the_range_are_exact() {
    assert_eq!(wrapping_sum(2, 3), 5);
    assert_eq!(wrapping_sum(-7, 3), -4);
    assert_eq!(wrapping_sum(i32::MAX, 0), i32::MAX);
    assert_eq!(wrapping_sum(i32::MIN, i32::MAX), -1);
    assert_eq!(wrapping_difference(2, 3), -1);
    assert_eq!(wrapping_difference(-7, -7), 0);
    assert_eq!(wrapping_difference(0, i32::MAX), i32::MIN + 1);
    assert_eq!(wrapping_product(6, 7), 42);
    assert_eq!(wrapping_product(-6, 7), -42);
    assert_eq!(wrapping_product(46340, 46340), 2147395600);
    assert_eq!(wrapping_product(i32::MIN, 1), i32::MIN);
}

#[test]
fn sums_outside_the_range_wrap() {
    assert_eq!(wrapping_sum(i32::MAX, 1), i32::MIN);
    assert_eq!(wrapping_sum(i32::MIN, -1), i32::MAX);
    assert_eq!(wrapping_sum(i32::MAX, i32::MAX), -2);
    assert_eq!(wrapping_sum(i32::MIN, i32::MIN), 0);
    assert_eq!(wrapping_difference(i32::MIN, 1), i32::MAX);
    assert_eq!(wrapping_difference(i32::MAX, -1), i32::MIN);
    assert_eq!(wrapping_difference(0, i32::MIN), i32::MIN);
    assert_eq!(wrapping_product(46341, 46341), -2147479015);
    assert_eq!(wrapping_product(i32::MIN, -1), i32::MIN);
    assert_eq!(wrapping_product(i32::MAX, i32::MAX), 1);
    assert_eq!(wrapping_product(65536, 65536), 0);
}

#[test]
fn larger_product() {
    let a = vec![vec![2, 0, -1], vec![1, 3, 4]];
    let b = vec![vec![1, 2, 3, 4], vec![0, -1, 0, 1], vec![5, 5, 5, 5]];
    assert_eq!(
        multiply_matrices(&a, &b, 4),
        Ok(vec![vec![-3, -1, 1, 3], vec![21, 19, 23, 27]])
    );
}
