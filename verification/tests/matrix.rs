use anyhow::Result;
use concurrency::{check_dimensions, multiply, Matrix, MatrixError};

#[test]
fn test_matrix() -> Result<()> {
    let a = Matrix::new(vec![1, 2, 3, 4, 5, 6], 2, 3);
    let b = Matrix::new(vec![7, 8, 9, 10, 11, 12], 3, 2);
    let c = a * b;
    assert_eq!(c.to_debug_string(), "Matrix(2x2):{58 64},{139 154}");
    Ok(())
}

#[test]
fn multiply_two_by_two() {
    let a = Matrix::new(vec![1, 2, 3, 4], 2, 2);
    let b = Matrix::new(vec![1, 2, 3, 4], 2, 2);
    let c = multiply(&a, &b).unwrap();
    assert_eq!(c.to_string(), "{7 10},{15 22}");
    assert_eq!(*c.get(0, 0), 7);
    assert_eq!(*c.get(0, 1), 10);
    assert_eq!(*c.get(1, 0), 15);
    assert_eq!(*c.get(1, 1), 22);
}

#[test]
fn multiply_two_by_three_and_three_by_two() {
    let a = Matrix::new(vec![1, 2, 3, 4, 5, 6], 2, 3);
    let b = Matrix::new(vec![7, 8, 9, 10, 11, 12], 3, 2);
    let c = multiply(&a, &b).unwrap();
    assert_eq!(c.to_string(), "{58 64},{139 154}");
}

#[test]
fn multiply_gives_rows_of_left_and_cols_of_right() {
    let a = Matrix::new(vec![1i64, 2, 3, 4, 5, 6], 3, 2);
    let b = Matrix::new(vec![1i64, 0, 2, 0, 0, 1, 0, 3], 2, 4);
    let c = multiply(&a, &b).unwrap();
    assert_eq!(c.rows(), 3);
    assert_eq!(c.cols(), 4);
    assert_eq!(c.to_string(), "{1 2 2 6},{3 4 6 12},{5 6 10 18}");
}

#[test]
fn multiply_rejects_mismatched_dimensions() {
    let a = Matrix::new(vec![1, 2, 3, 4, 5, 6], 2, 3);
    let b = Matrix::new(vec![1, 2, 3, 4], 2, 2);
    assert!(matches!(multiply(&a, &b), Err(MatrixError::DimensionMismatch)));
    let c = Matrix::new(vec![1, 2, 3, 4, 5, 6], 3, 2);
    assert!(matches!(multiply(&c, &c), Err(MatrixError::DimensionMismatch)));
    assert_eq!(check_dimensions(&a, &b), Err(MatrixError::DimensionMismatch));
    assert_eq!(check_dimensions(&a, &c), Ok(()));
}

#[test]
fn multiply_by_identity_changes_nothing() {
    let a = Matrix::new(vec![3, -1, 4, 1, -5, 9, 2, 6, -5], 3, 3);
    let e = Matrix::new(vec![1, 0, 0, 0, 1, 0, 0, 0, 1], 3, 3);
    let right = multiply(&a, &e).unwrap();
    let left = multiply(&e, &a).unwrap();
    assert_eq!(right.to_string(), a.to_string());
    assert_eq!(left.to_string(), a.to_string());
    for i in 0..3 {
        for j in 0..3 {
            assert_eq!(right.get(i, j), a.get(i, j));
            assert_eq!(left.get(i, j), a.get(i, j));
        }
    }
}

#[test]
fn multiply_fails_when_a_cell_overflows() {
    let a = Matrix::new(vec![i32::MAX, 1], 1, 2);
    let b = Matrix::new(vec![1, 1], 2, 1);
    assert!(matches!(multiply(&a, &b), Err(MatrixError::Overflow)));
    let c = Matrix::new(vec![65536], 1, 1);
    assert!(matches!(multiply(&c, &c), Err(MatrixError::Overflow)));
    let d = Matrix::new(vec![65536i64], 1, 1);
    assert_eq!(multiply(&d, &d).unwrap().to_string(), "{4294967296}");
}

#[test]
fn multiply_with_empty_inner_dimension_gives_zeros() {
    let a: Matrix<i32> = Matrix::new(vec![], 2, 0);
    let b: Matrix<i32> = Matrix::new(vec![], 0, 3);
    let c = multiply(&a, &b).unwrap();
    assert_eq!(c.to_string(), "{0 0 0},{0 0 0}");
}

#[test]
fn try_new_checks_the_shape() {
    assert!(matches!(Matrix::try_new(vec![1, 2, 3], 2, 2), Err(MatrixError::ShapeMismatch)));
    assert!(matches!(
        Matrix::try_new(vec![1, 2, 3], usize::MAX, 2),
        Err(MatrixError::ShapeMismatch)
    ));
    let m = Matrix::try_new(vec![1, 2, 3, 4, 5, 6], 3, 2).unwrap();
    assert_eq!(m.rows(), 3);
    assert_eq!(m.cols(), 2);
    assert_eq!(m.len(), 6);
    assert!(m.is_well_formed());
    assert_eq!(*m.get(2, 1), 6);
}

#[test]
fn rows_and_columns_are_extracted() {
    let m = Matrix::new(vec![1, 2, 3, 4, 5, 6], 2, 3);
    let row = m.row_vector(1);
    assert_eq!(row.len(), 3);
    assert_eq!((*row.get(0), *row.get(1), *row.get(2)), (4, 5, 6));
    let col = m.col_vector(2);
    assert_eq!(col.len(), 2);
    assert_eq!((*col.get(0), *col.get(1)), (3, 6));
}

#[test]
fn display_of_a_two_by_three_matrix() {
    let m = Matrix::new(vec![1, 2, 3, 4, 5, 6], 2, 3);
    assert_eq!(m.to_string(), "{1 2 3},{4 5 6}");
    assert_eq!(m.to_debug_string(), "Matrix(2x3):{1 2 3},{4 5 6}");
}

#[test]
fn display_of_negative_and_extreme_elements() {
    let m = Matrix::new(vec![-1, 0, i32::MIN, i32::MAX], 2, 2);
    assert_eq!(m.to_string(), "{-1 0},{-2147483648 2147483647}");
    let n = Matrix::new(vec![i64::MIN, i64::MAX, -10, 100], 1, 4);
    assert_eq!(n.to_string(), "{-9223372036854775808 9223372036854775807 -10 100}");
    assert_eq!(
        n.to_debug_string(),
        "Matrix(1x4):{-9223372036854775808 9223372036854775807 -10 100}"
    );
}

#[test]
fn display_of_matrices_without_cells() {
    let none: Matrix<i32> = Matrix::new(vec![], 0, 0);
    assert_eq!(none.to_string(), "");
    assert_eq!(none.to_debug_string(), "Matrix(0x0):");
    let no_cols: Matrix<i32> = Matrix::new(vec![], 3, 0);
    assert_eq!(no_cols.to_string(), "{},{},{}");
    let no_rows: Matrix<i32> = Matrix::new(vec![], 0, 12);
    assert_eq!(no_rows.to_debug_string(), "Matrix(0x12):");
    let one = Matrix::new(vec![42], 1, 1);
    assert_eq!(one.to_string(), "{42}");
}
