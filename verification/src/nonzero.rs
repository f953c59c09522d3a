//! Non-zero and sign-constrained integers.

use vstd::prelude::*;

verus! {

/// Why a value was refused.
#[derive(Debug, Clone, Copy, PartialEq, Eq)]
pub enum NonZeroError {
    IsZero,
    IsNegative,
    NotPositive,
}

/// A `u32` that is never zero.
#[derive(Debug, Clone, Copy, PartialEq, Eq)]
pub struct NonZeroU32(u32);

/// A `u64` that is never zero.
#[derive(Debug, Clone, Copy, PartialEq, Eq)]
pub struct NonZeroU64(u64);

/// A `usize` that is never zero.
#[derive(Debug, Clone, Copy, PartialEq, Eq)]
pub struct NonZeroUsize(usize);

/// An `i32` that is never zero.
#[derive(Debug, Clone, Copy, PartialEq, Eq)]
pub struct NonZeroI32(i32);

/// An `i64` that is never zero.
#[derive(Debug, Clone, Copy, PartialEq, Eq)]
pub struct NonZeroI64(i64);

impl NonZeroU32 {
    pub closed spec fn value(self) -> u32 {
        self.0
    }

    #[verifier::type_invariant]
    closed spec fn inv(self) -> bool {
        self.0 != 0
    }

    /// `Some` exactly when `v` is not zero.
    pub fn new(v: u32) -> (r: Option<Self>)
        ensures
            r is Some <==> v != 0,
            r matches Some(n) ==> n.value() == v,
    {
        if v != 0 {
            Some(NonZeroU32(v))
        } else {
            None
        }
    }

    /// The wrapped value, which is never zero.
    pub fn get(self) -> (r: u32)
        ensures
            r == self.value(),
            r != 0,
    {
        proof {
            use_type_invariant(&self);
        }
        self.0
    }
}

impl NonZeroU64 {
    pub closed spec fn value(self) -> u64 {
        self.0
    }

    #[verifier::type_invariant]
    closed spec fn inv(self) -> bool {
        self.0 != 0
    }

    /// `Some` exactly when `v` is not zero.
    pub fn new(v: u64) -> (r: Option<Self>)
        ensures
            r is Some <==> v != 0,
            r matches Some(n) ==> n.value() == v,
    {
        if v != 0 {
            Some(NonZeroU64(v))
        } else {
            None
        }
    }

    /// The wrapped value, which is never zero.
    pub fn get(self) -> (r: u64)
        ensures
            r == self.value(),
            r != 0,
    {
        proof {
            use_type_invariant(&self);
        }
        self.0
    }
}

impl NonZeroUsize {
    pub closed spec fn value(self) -> usize {
        self.0
    }

    #[verifier::type_invariant]
    closed spec fn inv(self) -> bool {
        self.0 != 0
    }

    /// `Some` exactly when `v` is not zero.
    pub fn new(v: usize) -> (r: Option<Self>)
        ensures
            r is Some <==> v != 0,
            r matches Some(n) ==> n.value() == v,
    {
        if v != 0 {
            Some(NonZeroUsize(v))
        } else {
            None
        }
    }

    /// The wrapped value, which is never zero.
    pub fn get(self) -> (r: usize)
        ensures
            r == self.value(),
            r != 0,
    {
        proof {
            use_type_invariant(&self);
        }
        self.0
    }
}

impl NonZeroI32 {
    pub closed spec fn value(self) -> i32 {
        self.0
    }

    #[verifier::type_invariant]
    closed spec fn inv(self) -> bool {
        self.0 != 0
    }

    /// `Some` exactly when `v` is not zero.
    pub fn new(v: i32) -> (r: Option<Self>)
        ensures
            r is Some <==> v != 0,
            r matches Some(n) ==> n.value() == v,
    {
        if v != 0 {
            Some(NonZeroI32(v))
        } else {
            None
        }
    }

    /// The wrapped value, which is never zero.
    pub fn get(self) -> (r: i32)
        ensures
            r == self.value(),
            r != 0,
    {
        proof {
            use_type_invariant(&self);
        }
        self.0
    }
}

impl NonZeroI64 {
    pub closed spec fn value(self) -> i64 {
        self.0
    }

    #[verifier::type_invariant]
    closed spec fn inv(self) -> bool {
        self.0 != 0
    }

    /// `Some` exactly when `v` is not zero.
    pub fn new(v: i64) -> (r: Option<Self>)
        ensures
            r is Some <==> v != 0,
            r matches Some(n) ==> n.value() == v,
    {
        if v != 0 {
            Some(NonZeroI64(v))
        } else {
            None
        }
    }

    /// The wrapped value, which is never zero.
    pub fn get(self) -> (r: i64)
        ensures
            r == self.value(),
            r != 0,
    {
        proof {
            use_type_invariant(&self);
        }
        self.0
    }
}

/// Conversion of an integer into its non-zero counterpart.
pub trait TryIntoNonZero: Sized {
    /// The non-zero type.
    type NonZero;

    /// `Err(IsZero)` for zero, the wrapped value otherwise.
    fn try_into_nonzero(self) -> Result<Self::NonZero, NonZeroError>;
}

impl TryIntoNonZero for u32 {
    type NonZero = NonZeroU32;

    fn try_into_nonzero(self) -> (r: Result<NonZeroU32, NonZeroError>)
        ensures
            r is Err <==> self == 0,
            r matches Err(e) ==> e == NonZeroError::IsZero,
            r matches Ok(n) ==> n.value() == self,
    {
        match NonZeroU32::new(self) {
            Some(n) => Ok(n),
            None => Err(NonZeroError::IsZero),
        }
    }
}

impl TryIntoNonZero for u64 {
    type NonZero = NonZeroU64;

    fn try_into_nonzero(self) -> (r: Result<NonZeroU64, NonZeroError>)
        ensures
            r is Err <==> self == 0,
            r matches Err(e) ==> e == NonZeroError::IsZero,
            r matches Ok(n) ==> n.value() == self,
    {
        match NonZeroU64::new(self) {
            Some(n) => Ok(n),
            None => Err(NonZeroError::IsZero),
        }
    }
}

impl TryIntoNonZero for usize {
    type NonZero = NonZeroUsize;

    fn try_into_nonzero(self) -> (r: Result<NonZeroUsize, NonZeroError>)
        ensures
            r is Err <==> self == 0,
            r matches Err(e) ==> e == NonZeroError::IsZero,
            r matches Ok(n) ==> n.value() == self,
    {
        match NonZeroUsize::new(self) {
            Some(n) => Ok(n),
            None => Err(NonZeroError::IsZero),
        }
    }
}

impl TryIntoNonZero for i32 {
    type NonZero = NonZeroI32;

    fn try_into_nonzero(self) -> (r: Result<NonZeroI32, NonZeroError>)
        ensures
            r is Err <==> self == 0,
            r matches Err(e) ==> e == NonZeroError::IsZero,
            r matches Ok(n) ==> n.value() == self,
    {
        match NonZeroI32::new(self) {
            Some(n) => Ok(n),
            None => Err(NonZeroError::IsZero),
        }
    }
}

impl TryIntoNonZero for i64 {
    type NonZero = NonZeroI64;

    fn try_into_nonzero(self) -> (r: Result<NonZeroI64, NonZeroError>)
        ensures
            r is Err <==> self == 0,
            r matches Err(e) ==> e == NonZeroError::IsZero,
            r matches Ok(n) ==> n.value() == self,
    {
        match NonZeroI64::new(self) {
            Some(n) => Ok(n),
            None => Err(NonZeroError::IsZero),
        }
    }
}

/// A strictly positive number.
#[derive(Debug, Clone, Copy, PartialEq, Eq, PartialOrd, Ord, Hash)]
pub struct Positive<T>(T);

impl<T> Positive<T> {
    pub closed spec fn value(self) -> T {
        self.0
    }

    /// The wrapped number.
    pub fn into_inner(self) -> (r: T)
        ensures
            r == self.value(),
    {
        self.0
    }

    /// A reference to the wrapped number.
    pub fn get(&self) -> (r: &T)
        ensures
            *r == self.value(),
    {
        &self.0
    }
}

impl Positive<i32> {
    /// `Ok` exactly when `value > 0`.
    pub fn new(value: i32) -> (r: Result<Self, NonZeroError>)
        ensures
            r is Ok <==> value > 0,
            r matches Ok(p) ==> p.value() == value,
            r matches Err(e) ==> e == NonZeroError::NotPositive,
    {
        if value > 0 {
            Ok(Positive(value))
        } else {
            Err(NonZeroError::NotPositive)
        }
    }
}

impl Positive<i64> {
    /// `Ok` exactly when `value > 0`.
    pub fn new(value: i64) -> (r: Result<Self, NonZeroError>)
        ensures
            r is Ok <==> value > 0,
            r matches Ok(p) ==> p.value() == value,
            r matches Err(e) ==> e == NonZeroError::NotPositive,
    {
        if value > 0 {
            Ok(Positive(value))
        } else {
            Err(NonZeroError::NotPositive)
        }
    }
}

/// A number that is zero or more.
#[derive(Debug, Clone, Copy, PartialEq, Eq, PartialOrd, Ord, Hash)]
pub struct NonNegative<T>(T);

impl<T> NonNegative<T> {
    pub closed spec fn value(self) -> T {
        self.0
    }

    /// The wrapped number.
    pub fn into_inner(self) -> (r: T)
        ensures
            r == self.value(),
    {
        self.0
    }

    /// A reference to the wrapped number.
    pub fn get(&self) -> (r: &T)
        ensures
            *r == self.value(),
    {
        &self.0
    }
}

impl NonNegative<i32> {
    /// `Ok` exactly when `value >= 0`.
    pub fn new(value: i32) -> (r: Result<Self, NonZeroError>)
        ensures
            r is Ok <==> value >= 0,
            r matches Ok(p) ==> p.value() == value,
            r matches Err(e) ==> e == NonZeroError::IsNegative,
    {
        if value >= 0 {
            Ok(NonNegative(value))
        } else {
            Err(NonZeroError::IsNegative)
        }
    }

    /// Zero.
    pub fn zero() -> (r: Self)
        ensures
            r.value() == 0,
    {
        NonNegative(0)
    }
}

impl NonNegative<i64> {
    /// `Ok` exactly when `value >= 0`.
    pub fn new(value: i64) -> (r: Result<Self, NonZeroError>)
        ensures
            r is Ok <==> value >= 0,
            r matches Ok(p) ==> p.value() == value,
            r matches Err(e) ==> e == NonZeroError::IsNegative,
    {
        if value >= 0 {
            Ok(NonNegative(value))
        } else {
            Err(NonZeroError::IsNegative)
        }
    }

    /// Zero.
    pub fn zero() -> (r: Self)
        ensures
            r.value() == 0,
    {
        NonNegative(0)
    }
}

/// The non-zero form of `value`, which must not be zero.
pub fn nonzero_u32(value: u32) -> (r: NonZeroU32)
    requires
        value != 0,
    ensures
        r.value() == value,
{
    NonZeroU32::new(value).unwrap()
}

/// The non-zero form of `value`, which must not be zero.
pub fn nonzero_u64(value: u64) -> (r: NonZeroU64)
    requires
        value != 0,
    ensures
        r.value() == value,
{
    NonZeroU64::new(value).unwrap()
}

/// The non-zero form of `value`, which must not be zero.
pub fn nonzero_usize(value: usize) -> (r: NonZeroUsize)
    requires
        value != 0,
    ensures
        r.value() == value,
{
    NonZeroUsize::new(value).unwrap()
}

/// `value` made non-zero, with one standing in for zero.
pub fn nonzero_u32_or_one(value: u32) -> (r: NonZeroU32)
    ensures
        r.value() == (if value == 0 { 1 } else { value }),
{
    match NonZeroU32::new(value) {
        Some(n) => n,
        None => NonZeroU32::new(1).unwrap(),
    }
}

/// `value` made non-zero, with one standing in for zero.
pub fn nonzero_usize_or_one(value: usize) -> (r: NonZeroUsize)
    ensures
        r.value() == (if value == 0 { 1 } else { value }),
{
    match NonZeroUsize::new(value) {
        Some(n) => n,
        None => NonZeroUsize::new(1).unwrap(),
    }
}

/// `a / b` rounded up.
pub fn div_ceil_nonzero(a: usize, b: NonZeroUsize) -> (r: usize)
    requires
        a + b.value() <= usize::MAX,
    ensures
        r == (a + b.value() - 1) / (b.value() as int),
        r * b.value() >= a,
        r * b.value() < a + b.value(),
{
    let d = b.get();
    let r = (a + d - 1) / d;
    assert(r * d >= a && r * d < a + d) by (nonlinear_arith)
        requires
            d > 0,
            r == (a + d - 1) / (d as int),
    ;
    r
}

/// Whether the value equals the default (zero).
pub fn is_zero(value: &i64) -> (r: bool)
    ensures
        r == (*value == 0),
{
    *value == 0
}

/// Whether the value differs from the default (zero).
pub fn is_nonzero(value: &i64) -> (r: bool)
    ensures
        r == (*value != 0),
{
    *value != 0
}

} // verus!
