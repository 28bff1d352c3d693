use linalg::{DimensionMismatch, Vector};
use std::ops::{Add, Sub};

#[test]
fn vector_utils() {
    let u = Vector::from([1., 2., 3., 4.]);

    assert_eq!(4, u.size());
}

#[test]
fn vector_add() {
    let mut u = Vector::from([1, 2]);
    let v = Vector::from([7, 4]);
    u.add_mut(&v).unwrap();
    assert_eq!(Vec::from([8, 6]), u.e);

    let mut u = Vector::from([1, 2]);
    let v = Vector::from([7, 4]);
    u = u.add(v);
    assert_eq!(Vec::from([8, 6]), u.e);

    let mut u = Vector::from([1, 2]);
    let v = Vector::from([7, 4]);
    u = u + v;
    assert_eq!(Vec::from([8, 6]), u.e);

    let mut u = Vector::from([1, 2]);
    let v = Vector::from([7, 4]);
    u += v;
    assert_eq!(Vec::from([8, 6]), u.e);
}

#[test]
fn vector_sub() {
    let mut u = Vector::from([1, 2]);
    let v = Vector::from([7, 4]);
    u.sub_mut(&v).unwrap();
    assert_eq!(Vec::from([-6, -2]), u.e);

    let mut u = Vector::from([1, 2]);
    let v = Vector::from([7, 4]);
    u = u.sub(v);
    assert_eq!(Vec::from([-6, -2]), u.e);

    let mut u = Vector::from([1, 2]);
    let v = Vector::from([7, 4]);
    u = u - v;
    assert_eq!(Vec::from([-6, -2]), u.e);

    let mut u = Vector::from([1, 2]);
    let v = Vector::from([7, 4]);
    u -= v;
    assert_eq!(Vec::from([-6, -2]), u.e);
}

#[test]
fn vector_scale() {
    let mut u = Vector::from([1, 1]);
    u.scl(42);
    assert_eq!(Vec::from([42, 42]), u.e);

    let mut u = Vector::from([1, 1]);
    u *= 42;
    assert_eq!(Vec::from([42, 42]), u.e);

    let mut u = Vector::from([1, 1]);
    u = u * 42;
    assert_eq!(Vec::from([42, 42]), u.e);
}

#[test]
fn dot_basics() {
    let u = Vector::from([0, 0]);
    let v = Vector::from([1, 1]);
    assert_eq!(Ok(0), u.dot(&v));
    let u = Vector::from([1, 1]);
    let v = Vector::from([1, 1]);
    assert_eq!(Ok(2), u.dot(&v));
    let u = Vector::from([-1, 6]);
    let v = Vector::from([3, 2]);
    assert_eq!(Ok(9), u.dot(&v));
}

#[test]
fn dot_more() {
    let u = Vector::from([0, 0]);
    let v = Vector::from([0, 0]);
    assert_eq!(Ok(0), u.dot(&v));

    let u = Vector::from([1, 0]);
    let v = Vector::from([0, 0]);
    assert_eq!(Ok(0), u.dot(&v));

    let u = Vector::from([1, 0]);
    let v = Vector::from([1, 0]);
    assert_eq!(Ok(1), u.dot(&v));

    let u = Vector::from([1, 0]);
    let v = Vector::from([0, 1]);
    assert_eq!(Ok(0), u.dot(&v));

    let u = Vector::from([1, 1]);
    let v = Vector::from([1, 1]);
    assert_eq!(Ok(2), u.dot(&v));

    let u = Vector::from([4, 2]);
    let v = Vector::from([2, 1]);
    assert_eq!(Ok(10), u.dot(&v));
}

#[test]
fn add_of_different_sizes_is_refused_and_changes_nothing() {
    let mut u = Vector::from([1, 2, 3]);
    let v = Vector::from([7, 4]);
    assert_eq!(Err(DimensionMismatch), u.add_mut(&v));
    assert_eq!(Vec::from([1, 2, 3]), u.e);
    assert_eq!(Err(DimensionMismatch), u.sub_mut(&v));
    assert_eq!(Vec::from([1, 2, 3]), u.e);
}

#[test]
fn dot_of_different_sizes_is_refused() {
    let u = Vector::from([1, 2, 3]);
    let v = Vector::from([1, 2]);
    assert_eq!(Err(DimensionMismatch), u.dot(&v));
}

#[test]
fn empty_vectors() {
    let mut u: Vector<i32> = Vector::new(Vec::new());
    let v: Vector<i32> = Vector::new(Vec::new());
    assert_eq!(0, u.size());
    assert_eq!(Ok(0), u.dot(&v));
    assert_eq!(Ok(()), u.add_mut(&v));
    u.scl(5);
    assert!(u.e.is_empty());
}

#[test]
fn arithmetic_wraps_on_overflow() {
    let mut u = Vector::from([i32::MAX, i32::MIN]);
    let v = Vector::from([1, 1]);
    u.add_mut(&v).unwrap();
    assert_eq!(Vec::from([i32::MIN, i32::MIN + 1]), u.e);
    u.sub_mut(&v).unwrap();
    assert_eq!(Vec::from([i32::MAX, i32::MIN]), u.e);

    let mut w = Vector::from([u64::MAX, 3]);
    w.scl(2);
    assert_eq!(Vec::from([u64::MAX - 1, 6]), w.e);

    let a = Vector::from([u32::MAX, 2]);
    let b = Vector::from([2u32, 3]);
    assert_eq!(Ok(4), a.dot(&b));
}

#[test]
fn dot_accumulates_every_product() {
    let u = Vector::from([1i64, 2, 3]);
    let v = Vector::from([4i64, 5, 6]);
    assert_eq!(Ok(32), u.dot(&v));
}

#[test]
fn add_then_sub_restores_the_vector() {
    let original = Vector::from([5, -3, i32::MAX]);
    let v = Vector::from([100, 7, 9]);
    let mut u = original.clone();
    u.add_mut(&v).unwrap();
    assert_ne!(original.e, u.e);
    u.sub_mut(&v).unwrap();
    assert_eq!(original.e, u.e);
}

#[test]
fn scaling_by_one_and_twice() {
    let original = Vector::from([5i64, -3, 12]);
    let mut u = original.clone();
    u.scl(1);
    assert_eq!(original.e, u.e);

    let mut twice = original.clone();
    twice.scl(3);
    twice.scl(-4);
    let mut once = original.clone();
    once.scl(-12);
    assert_eq!(Vec::from([-60, 36, -144]), twice.e);
    assert_eq!(once.e, twice.e);
}

#[test]
fn dot_is_symmetric() {
    let u = Vector::from([3, -1, 4]);
    let v = Vector::from([2, 7, -5]);
    assert_eq!(u.dot(&v), v.dot(&u));
    assert_eq!(Ok(-21), u.dot(&v));
}

#[test]
fn operators_agree_with_in_place_forms() {
    let u = Vector::from([3, -1, 4]);
    let v = Vector::from([2, 7, -5]);
    let mut w = u.clone();
    w.add_mut(&v).unwrap();
    assert_eq!(w.e, (u.clone() + v.clone()).e);
    let mut w = u.clone();
    w.sub_mut(&v).unwrap();
    assert_eq!(w.e, (u.clone() - v.clone()).e);
    let mut w = u.clone();
    w.scl(-2);
    assert_eq!(w.e, (u * -2).e);
}

#[test]
fn accessors() {
    let mut u = Vector::new(vec![1, 2, 3]);
    assert_eq!(&[1, 2, 3], u.e());
    u.e_mut().push(4);
    assert_eq!(4, u.size());
    u.set_e(vec![9]);
    assert_eq!(vec![9], u.e);
    let from_slice = Vector::from(&[4, 5][..]);
    assert_eq!(vec![4, 5], from_slice.e);
    let from_vec = Vector::from(vec![6, 7]);
    assert_eq!(vec![6, 7], from_vec.e);
    let zeros: Vector<i32> = Vector::zeros(3);
    assert_eq!(vec![0, 0, 0], zeros.e);
}
