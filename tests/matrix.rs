use linalg::{DimensionMismatch, Matrix, Vector};
use std::ops::{Add, Sub};

#[test]
fn matrix_utils() {
    let u = Matrix::from([[1.2, 2.], [3., 4.]]);
    let v = Matrix::from([[7., 4.], [-2., 2.]]);

    assert_eq!((2, 2), u.shape());
    assert_eq!((2, 2), v.shape());
}

#[test]
fn matrix_add() {
    let mut u = Matrix::from([[1, 2], [3, 4]]);
    let v = Matrix::from([[7, 4], [-2, 2]]);
    u.add_mut(&v).unwrap();
    assert_eq!(Vec::from([8, 6]), u[0].e);
    assert_eq!(Vec::from([1, 6]), u[1].e);

    let mut u = Matrix::from([[1, 2], [3, 4]]);
    let v = Matrix::from([[7, 4], [-2, 2]]);
    u = u.add(v);
    assert_eq!(Vec::from([8, 6]), u[0].e);
    assert_eq!(Vec::from([1, 6]), u[1].e);

    let mut u = Matrix::from([[1, 2], [3, 4]]);
    let v = Matrix::from([[7, 4], [-2, 2]]);
    u = u + v;
    assert_eq!(Vec::from([8, 6]), u[0].e);
    assert_eq!(Vec::from([1, 6]), u[1].e);

    let mut u = Matrix::from([[1, 2], [3, 4]]);
    let v = Matrix::from([[7, 4], [-2, 2]]);
    u += v;
    assert_eq!(Vec::from([8, 6]), u[0].e);
    assert_eq!(Vec::from([1, 6]), u[1].e);
}

#[test]
fn matrix_sub() {
    let mut u = Matrix::from([[1, 1], [1, 1]]);
    let v = Matrix::from([[1, 1], [1, 1]]);
    u.sub_mut(&v).unwrap();
    assert_eq!(Vec::from([0, 0]), u[0].e);
    assert_eq!(Vec::from([0, 0]), u[1].e);

    let mut u = Matrix::from([[1, 1], [1, 1]]);
    let v = Matrix::from([[1, 1], [1, 1]]);
    u = u.sub(v);
    assert_eq!(Vec::from([0, 0]), u[0].e);
    assert_eq!(Vec::from([0, 0]), u[1].e);

    let mut u = Matrix::from([[1, 1], [1, 1]]);
    let v = Matrix::from([[1, 1], [1, 1]]);
    u = u - v;
    assert_eq!(Vec::from([0, 0]), u[0].e);
    assert_eq!(Vec::from([0, 0]), u[1].e);

    let mut u = Matrix::from([[1, 1], [1, 1]]);
    let v = Matrix::from([[1, 1], [1, 1]]);
    u -= v;
    assert_eq!(Vec::from([0, 0]), u[0].e);
    assert_eq!(Vec::from([0, 0]), u[1].e);
}

#[test]
fn matrix_scale() {
    let mut u = Matrix::from([[1, 1], [1, 1]]);
    u.scl(42);
    assert_eq!(Vec::from([42, 42]), u[0].e);
    assert_eq!(Vec::from([42, 42]), u[1].e);

    let mut u = Matrix::from([[1, 1], [1, 1]]);
    u *= 42;
    assert_eq!(Vec::from([42, 42]), u[0].e);
    assert_eq!(Vec::from([42, 42]), u[1].e);

    let mut u = Matrix::from([[1, 1], [1, 1]]);
    u = u * 42;
    assert_eq!(Vec::from([42, 42]), u[0].e);
    assert_eq!(Vec::from([42, 42]), u[1].e);
}

#[test]
fn shape_mismatch_is_refused_and_changes_nothing() {
    let mut u = Matrix::from([[1, 2]]);
    let v = Matrix::from([[1, 2], [3, 4]]);
    assert_eq!(Err(DimensionMismatch), u.add_mut(&v));
    assert_eq!((1, 2), u.shape());
    assert_eq!(Vec::from([1, 2]), u[0].e);
    assert_eq!(Err(DimensionMismatch), u.sub_mut(&v));
    assert_eq!(Vec::from([1, 2]), u[0].e);
}

#[test]
fn columns_of_other_lengths_are_refused() {
    let mut u = Matrix::from(vec![vec![1, 2], vec![3, 4]]);
    let v = Matrix::from(vec![vec![1, 2], vec![3]]);
    assert_eq!(Err(DimensionMismatch), u.add_mut(&v));
    assert_eq!(Vec::from([3, 4]), u[1].e);
}

#[test]
fn empty_matrix_has_shape_zero() {
    let mut u: Matrix<i32> = Matrix::new(Vector::new(Vec::new()));
    let v: Matrix<i32> = Matrix::new(Vector::new(Vec::new()));
    assert_eq!((0, 0), u.shape());
    assert_eq!(Ok(()), u.add_mut(&v));
    assert_eq!((0, 0), u.shape());
}

#[test]
fn shape_counts_columns_then_their_length() {
    let u = Matrix::from([[1, 2, 3], [4, 5, 6]]);
    assert_eq!((2, 3), u.shape());
}

#[test]
fn matrix_add_then_sub_restores_it() {
    let original = Matrix::from([[i64::MAX, 2], [3, -4]]);
    let v = Matrix::from([[5, 6], [7, 8]]);
    let mut u = original.clone();
    u.add_mut(&v).unwrap();
    assert_eq!(Vec::from([i64::MIN + 4, 8]), u[0].e);
    u.sub_mut(&v).unwrap();
    assert_eq!(original[0].e, u[0].e);
    assert_eq!(original[1].e, u[1].e);
}

#[test]
fn matrix_accessors() {
    let mut u = Matrix::new(Vector::new(vec![Vector::new(vec![1u32, 2])]));
    assert_eq!(1, u.m().size());
    u.m_mut().e.push(Vector::new(vec![3, 4]));
    assert_eq!((2, 2), u.shape());
    u[1].scl(10);
    assert_eq!(Vec::from([30, 40]), u[1].e);
    u.set_m(Vector::new(vec![Vector::new(vec![9, 9, 9])]));
    assert_eq!((1, 3), u.shape());
    assert_eq!(Vec::from([9, 9, 9]), u.m.e[0].e);
}
