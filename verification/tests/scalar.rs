use concurrency::{dot_product, multiply, Matrix, MatrixError, Scalar, Vector};

#[test]
fn zero_is_the_additive_identity() {
    assert_eq!(<i32 as Scalar>::zero(), 0);
    assert_eq!(<u64 as Scalar>::zero(), 0);
    assert_eq!(7i16.checked_sum(<i16 as Scalar>::zero()), Some(7));
}

#[test]
fn checked_sum_is_exact_or_nothing() {
    assert_eq!(100i8.checked_sum(27), Some(127));
    assert_eq!(100i8.checked_sum(28), None);
    assert_eq!((-100i8).checked_sum(-29), None);
    assert_eq!(250u8.checked_sum(5), Some(255));
    assert_eq!(250u8.checked_sum(6), None);
    assert_eq!(i64::MAX.checked_sum(-1), Some(i64::MAX - 1));
}

#[test]
fn checked_product_is_exact_or_nothing() {
    assert_eq!(16u8.checked_product(15), Some(240));
    assert_eq!(16u8.checked_product(16), None);
    assert_eq!((-128i8).checked_product(-1), None);
    assert_eq!((-64i8).checked_product(2), Some(-128));
    assert_eq!(3_000_000_000u32.checked_product(2), None);
    assert_eq!(3_000_000_000u64.checked_product(2), Some(6_000_000_000));
}

#[test]
fn append_text_writes_the_decimal_text() {
    let mut out = String::from("x=");
    (-45i16).append_text(&mut out);
    assert_eq!(out, "x=-45");
    let mut wide = String::new();
    u128::MAX.append_text(&mut wide);
    assert_eq!(wide, "340282366920938463463374607431768211455");
    let mut low = String::new();
    i128::MIN.append_text(&mut low);
    assert_eq!(low, "-170141183460469231731687303715884105728");
    let mut zero = String::new();
    0usize.append_text(&mut zero);
    assert_eq!(zero, "0");
    let mut round = String::new();
    1000isize.append_text(&mut round);
    assert_eq!(round, "1000");
}

#[test]
fn unsigned_elements_multiply_and_overflow() {
    let a = Matrix::new(vec![10u8, 20, 30, 40], 2, 2);
    let b = Matrix::new(vec![1u8, 2, 3, 4], 2, 2);
    assert_eq!(multiply(&a, &b).unwrap().to_string(), "{70 100},{150 220}");
    let c = Matrix::new(vec![10u8, 20, 30, 40], 2, 2);
    let d = Matrix::new(vec![1u8, 2, 3, 5], 2, 2);
    assert!(matches!(multiply(&c, &d), Err(MatrixError::Overflow)));
}

#[test]
fn wide_elements_keep_every_digit() {
    let big = 10_000_000_000_000_000_000i128;
    let r = dot_product(Vector::new(vec![big, -1]), Vector::new(vec![big, 1]));
    assert_eq!(r, Ok(99_999_999_999_999_999_999_999_999_999_999_999_999i128));
    let m = Matrix::new(vec![u128::MAX, 0], 1, 2);
    assert_eq!(m.to_debug_string(), "Matrix(1x2):{340282366920938463463374607431768211455 0}");
}
