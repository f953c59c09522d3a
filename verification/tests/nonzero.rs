use drbot::nonzero::{
    div_ceil_nonzero, is_nonzero, is_zero, nonzero_u32, nonzero_u32_or_one, nonzero_usize_or_one,
    NonNegative, NonZeroError, NonZeroU32, NonZeroUsize, Positive, TryIntoNonZero,
};

#[test]
fn test_try_into_nonzero() {
    let nz: Result<NonZeroU32, NonZeroError> = 42u32.try_into_nonzero();
    assert!(nz.is_ok());
    assert_eq!(nz.unwrap().get(), 42);

    let zero: Result<NonZeroU32, NonZeroError> = 0u32.try_into_nonzero();
    assert!(zero.is_err());
}

#[test]
fn test_positive() {
    assert!(Positive::<i32>::new(42).is_ok());
    assert!(Positive::<i32>::new(0).is_err());
    assert!(Positive::<i32>::new(-1).is_err());
}

#[test]
fn test_non_negative() {
    assert!(NonNegative::<i32>::new(42).is_ok());
    assert!(NonNegative::<i32>::new(0).is_ok());
    assert!(NonNegative::<i32>::new(-1).is_err());
}

#[test]
fn test_div_ceil() {
    let divisor = NonZeroUsize::new(3).unwrap();
    assert_eq!(div_ceil_nonzero(10, divisor), 4);
    assert_eq!(div_ceil_nonzero(9, divisor), 3);
}

#[test]
fn test_is_zero() {
    assert!(is_zero(&0));
    assert!(!is_zero(&1));
    assert!(is_nonzero(&1));
}

#[test]
fn nonzero_errors_and_defaults() {
    assert_eq!(0i64.try_into_nonzero().unwrap_err(), NonZeroError::IsZero);
    assert_eq!((-7i32).try_into_nonzero().unwrap().get(), -7);
    assert_eq!(5usize.try_into_nonzero().unwrap().get(), 5);
    assert_eq!(Positive::<i64>::new(0).unwrap_err(), NonZeroError::NotPositive);
    assert_eq!(NonNegative::<i64>::new(-1).unwrap_err(), NonZeroError::IsNegative);
    assert_eq!(*NonNegative::<i64>::zero().get(), 0);
    assert_eq!(Positive::<i64>::new(9).unwrap().into_inner(), 9);
    assert_eq!(nonzero_u32_or_one(0).get(), 1);
    assert_eq!(nonzero_usize_or_one(6).get(), 6);
    assert_eq!(nonzero_u32(8).get(), 8);
    assert_eq!(div_ceil_nonzero(0, NonZeroUsize::new(5).unwrap()), 0);
}
