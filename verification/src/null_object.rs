//! Null-object helpers: do-nothing implementations and an optional value type.

use vstd::prelude::*;
use std::marker::PhantomData;

verus! {

/// Errors of the null-object helpers.
#[derive(Debug, Clone, Copy, PartialEq, Eq)]
pub enum NullObjectError {
    NullOperation,
    Invalid,
}

/// Types that have a distinguished null value.
pub trait Nullable: Default {
    /// Whether this value is the null one.
    spec fn spec_is_null(&self) -> bool;

    /// Check if this is the null object.
    fn is_null(&self) -> (r: bool)
        ensures
            r == self.spec_is_null(),
    ;

    /// The null instance (the type's default).
    fn null() -> (r: Self)
        where Self: Sized
        ensures
            call_ensures(Self::default, (), r),
    {
        Self::default()
    }
}

/// A logger that discards everything.
#[derive(Debug, Clone, Copy, Default)]
pub struct NullLogger;

impl NullLogger {
    /// Create a null logger.
    pub fn new() -> (r: Self) {
        NullLogger
    }

    /// Discard a message.
    pub fn log(&self, _message: &str) {
    }

    /// Discard an error message.
    pub fn error(&self, _message: &str) {
    }

    /// Discard a warning.
    pub fn warn(&self, _message: &str) {
    }

    /// Discard an informational message.
    pub fn info(&self, _message: &str) {
    }

    /// Discard a debug message.
    pub fn debug(&self, _message: &str) {
    }
}

impl Nullable for NullLogger {
    open spec fn spec_is_null(&self) -> bool {
        true
    }

    fn is_null(&self) -> (r: bool) {
        true
    }
}

/// A cache that never stores anything.
#[derive(Debug, Default)]
pub struct NullCache<K, V> {
    _marker: PhantomData<(K, V)>,
}

impl<K, V> Clone for NullCache<K, V> {
    fn clone(&self) -> (r: Self) {
        NullCache { _marker: PhantomData }
    }
}

impl<K, V> NullCache<K, V> {
    /// Create a null cache.
    pub fn new() -> (r: Self) {
        NullCache { _marker: PhantomData }
    }

    /// Always a miss.
    pub fn get(&self, _key: &K) -> (r: Option<&V>)
        ensures
            r is None,
    {
        None
    }

    /// Accepts and forgets the entry.
    pub fn set(&self, _key: K, _value: V) {
    }

    /// Nothing to remove.
    pub fn remove(&self, _key: &K) -> (r: Option<V>)
        ensures
            r is None,
    {
        None
    }

    /// Nothing to clear.
    pub fn clear(&self) {
    }
}

impl<K: Default, V: Default> Nullable for NullCache<K, V> {
    open spec fn spec_is_null(&self) -> bool {
        true
    }

    fn is_null(&self) -> (r: bool) {
        true
    }
}

/// A handler that ignores every value.
#[derive(Debug, Default)]
pub struct NullHandler<T> {
    _marker: PhantomData<T>,
}

impl<T> Clone for NullHandler<T> {
    fn clone(&self) -> (r: Self) {
        NullHandler { _marker: PhantomData }
    }
}

impl<T> NullHandler<T> {
    /// Create a null handler.
    pub fn new() -> (r: Self) {
        NullHandler { _marker: PhantomData }
    }

    /// Ignore the value.
    pub fn handle(&self, _value: T) {
    }
}

impl<T: Default> Nullable for NullHandler<T> {
    open spec fn spec_is_null(&self) -> bool {
        true
    }

    fn is_null(&self) -> (r: bool) {
        true
    }
}

/// A provider that hands out default values.
#[derive(Debug, Default)]
pub struct NullProvider<T: Default> {
    _marker: PhantomData<T>,
}

impl<T: Default> Clone for NullProvider<T> {
    fn clone(&self) -> (r: Self) {
        NullProvider { _marker: PhantomData }
    }
}

impl<T: Default> NullProvider<T> {
    /// Create a null provider.
    pub fn new() -> (r: Self) {
        NullProvider { _marker: PhantomData }
    }

    /// The type's default value.
    pub fn get(&self) -> (r: T)
        ensures
            call_ensures(T::default, (), r),
    {
        T::default()
    }
}

impl<T: Default> Nullable for NullProvider<T> {
    open spec fn spec_is_null(&self) -> bool {
        true
    }

    fn is_null(&self) -> (r: bool) {
        true
    }
}

/// A value that may be absent.
#[derive(Debug, Clone, PartialEq, Eq)]
pub enum Maybe<T> {
    /// A value.
    Just(T),
    /// No value.
    Null,
}

impl<T> Maybe<T> {
    /// The same value as an `Option`.
    pub open spec fn to_option(self) -> Option<T> {
        match self {
            Maybe::Just(v) => Some(v),
            Maybe::Null => None,
        }
    }

    /// Wrap a value.
    pub fn just(value: T) -> (r: Self)
        ensures
            r == Maybe::Just(value),
    {
        Maybe::Just(value)
    }

    /// No value.
    pub fn null() -> (r: Self)
        ensures
            r == Maybe::<T>::Null,
    {
        Maybe::Null
    }

    /// Whether there is no value.
    pub fn is_null(&self) -> (r: bool)
        ensures
            r == (*self is Null),
    {
        match self {
            Maybe::Null => true,
            Maybe::Just(_) => false,
        }
    }

    /// Whether there is a value.
    pub fn is_just(&self) -> (r: bool)
        ensures
            r == (*self is Just),
    {
        match self {
            Maybe::Just(_) => true,
            Maybe::Null => false,
        }
    }

    /// The value, or `default` when there is none.
    pub fn unwrap_or(self, default: T) -> (r: T)
        ensures
            r == (match self {
                Maybe::Just(v) => v,
                Maybe::Null => default,
            }),
    {
        match self {
            Maybe::Just(v) => v,
            Maybe::Null => default,
        }
    }

    /// The value, or what `f` computes when there is none.
    pub fn unwrap_or_else<F: FnOnce() -> T>(self, f: F) -> (r: T)
        requires
            self is Null ==> f.requires(()),
        ensures
            match self {
                Maybe::Just(v) => r == v,
                Maybe::Null => f.ensures((), r),
            },
    {
        match self {
            Maybe::Just(v) => v,
            Maybe::Null => f(),
        }
    }

    /// Apply `f` to the value, if any.
    pub fn map<U, F: FnOnce(T) -> U>(self, f: F) -> (r: Maybe<U>)
        requires
            self matches Maybe::Just(v) ==> f.requires((v,)),
        ensures
            match self {
                Maybe::Just(v) => r matches Maybe::Just(u) && f.ensures((v,), u),
                Maybe::Null => r is Null,
            },
    {
        match self {
            Maybe::Just(v) => Maybe::Just(f(v)),
            Maybe::Null => Maybe::Null,
        }
    }

    /// Apply `f`, which may itself produce no value.
    pub fn and_then<U, F: FnOnce(T) -> Maybe<U>>(self, f: F) -> (r: Maybe<U>)
        requires
            self matches Maybe::Just(v) ==> f.requires((v,)),
        ensures
            match self {
                Maybe::Just(v) => f.ensures((v,), r),
                Maybe::Null => r is Null,
            },
    {
        match self {
            Maybe::Just(v) => f(v),
            Maybe::Null => Maybe::Null,
        }
    }

    /// The same value as an `Option`.
    pub fn into_option(self) -> (r: Option<T>)
        ensures
            r == self.to_option(),
    {
        match self {
            Maybe::Just(v) => Some(v),
            Maybe::Null => None,
        }
    }

    /// The `Maybe` holding what the option holds.
    pub fn from_option(opt: Option<T>) -> (r: Self)
        ensures
            r.to_option() == opt,
    {
        match opt {
            Some(v) => Maybe::Just(v),
            None => Maybe::Null,
        }
    }
}

impl<T> Default for Maybe<T> {
    fn default() -> (r: Self)
        ensures
            r is Null,
    {
        Maybe::Null
    }
}

impl<T> From<Option<T>> for Maybe<T> {
    fn from(opt: Option<T>) -> (r: Self) {
        Self::from_option(opt)
    }
}

impl<T> vstd::std_specs::convert::FromSpecImpl<Option<T>> for Maybe<T> {
    open spec fn obeys_from_spec() -> bool {
        true
    }

    open spec fn from_spec(opt: Option<T>) -> Self {
        match opt {
            Some(v) => Maybe::Just(v),
            None => Maybe::Null,
        }
    }
}

impl<T> From<Maybe<T>> for Option<T> {
    fn from(maybe: Maybe<T>) -> (r: Self) {
        maybe.into_option()
    }
}

impl<T> vstd::std_specs::convert::FromSpecImpl<Maybe<T>> for Option<T> {
    open spec fn obeys_from_spec() -> bool {
        true
    }

    open spec fn from_spec(maybe: Maybe<T>) -> Self {
        maybe.to_option()
    }
}

/// A wrapper around a nullable value.
pub struct NullSafe<T: Nullable> {
    inner: T,
}

impl<T: Nullable> NullSafe<T> {
    /// The wrapped value.
    pub closed spec fn value(&self) -> T {
        self.inner
    }

    /// Wrap a value.
    pub fn new(value: T) -> (r: Self)
        ensures
            r.value() == value,
    {
        NullSafe { inner: value }
    }

    /// Wrap the null value.
    pub fn null() -> (r: Self)
        ensures
            call_ensures(T::default, (), r.value()),
    {
        NullSafe { inner: T::default() }
    }

    /// Whether the wrapped value is null.
    pub fn is_null(&self) -> (r: bool)
        ensures
            r == self.value().spec_is_null(),
    {
        self.inner.is_null()
    }

    /// The wrapped value, by reference.
    pub fn inner(&self) -> (r: &T)
        ensures
            *r == self.value(),
    {
        &self.inner
    }

    /// The wrapped value, for modification.
    pub fn inner_mut(&mut self) -> (r: &mut T)
        ensures
            *r == old(self).value(),
            final(self).value() == *final(r),
    {
        &mut self.inner
    }

    /// Unwrap.
    pub fn into_inner(self) -> (r: T)
        ensures
            r == self.value(),
    {
        self.inner
    }
}

impl<T: Nullable> Default for NullSafe<T> {
    fn default() -> (r: Self)
        ensures
            call_ensures(T::default, (), r.value()),
    {
        Self::null()
    }
}

/// Converting to an `Option` and back gives the same `Maybe`.
pub proof fn lemma_maybe_option_roundtrip<T>(m: Maybe<T>)
    ensures
        (match m.to_option() {
            Some(v) => Maybe::Just(v),
            None => Maybe::<T>::Null,
        }) == m,
{
}

} // verus!
