//! Value-level memory helpers: swapping, taking, replacing, layout queries,
//! a manually-dropped box and an explicitly initialised slot.

use vstd::prelude::*;
use std::mem::ManuallyDrop;

verus! {

/// Errors of the memory helpers.
#[derive(Debug, Clone, Copy, PartialEq, Eq)]
pub enum MemError {
    SizeMismatch,
    AlignmentError,
}

/// Exchange the two values.
pub fn swap<T>(a: &mut T, b: &mut T)
    ensures
        *final(a) == *old(b),
        *final(b) == *old(a),
{
    std::mem::swap(a, b);
}

/// Move the value out, leaving the type's default behind.
pub fn take<T: Default>(dest: &mut T) -> (r: T)
    ensures
        r == *old(dest),
        call_ensures(T::default, (), *final(dest)),
{
    let mut fresh = T::default();
    std::mem::swap(dest, &mut fresh);
    fresh
}

/// Store `src`, handing back what was there.
pub fn replace<T>(dest: &mut T, src: T) -> (r: T)
    ensures
        r == *old(dest),
        *final(dest) == src,
{
    let mut src = src;
    std::mem::swap(dest, &mut src);
    src
}

/// Drop the value now.
pub fn drop_value<T>(value: T) {
    let _ = value;
}

/// Release ownership without running the value's destructor.
pub fn forget<T>(value: T) {
    let _kept = ManuallyDrop::new(value);
}

/// Size in bytes of `T`.
pub fn size_of<T>() -> (r: usize)
    ensures
        r as nat == vstd::layout::size_of::<T>(),
{
    core::mem::size_of::<T>()
}

/// Size in bytes of the value.
pub fn size_of_val<T>(val: &T) -> (r: usize)
    ensures
        r as nat == vstd::layout::spec_size_of_val::<T>(val),
{
    core::mem::size_of_val(val)
}

/// Alignment in bytes of `T`.
pub fn align_of<T>() -> (r: usize)
    ensures
        r as nat == vstd::layout::align_of::<T>(),
{
    core::mem::align_of::<T>()
}

/// Whether `T` occupies no bytes.
pub fn is_zst<T>() -> (r: bool)
    ensures
        r == (vstd::layout::size_of::<T>() == 0),
{
    size_of::<T>() == 0
}

/// A value whose destructor runs only when it is taken out.
pub struct ManualDrop<T> {
    value: ManuallyDrop<T>,
}

impl<T> ManualDrop<T> {
    /// The held value.
    pub closed spec fn value(&self) -> T {
        self.value@
    }

    /// Wrap a value.
    pub fn new(value: T) -> (r: Self)
        ensures
            r.value() == value,
    {
        ManualDrop { value: ManuallyDrop::new(value) }
    }

    /// The held value, by reference.
    pub fn get(&self) -> (r: &T)
        ensures
            *r == self.value(),
    {
        &*self.value
    }

    /// The held value, for modification.
    pub fn get_mut(&mut self) -> (r: &mut T)
        ensures
            *r == old(self).value(),
            final(self).value() == *final(r),
    {
        manually_drop_deref_mut(&mut self.value)
    }

    /// Move the held value out.
    pub fn take(self) -> (r: T)
        ensures
            r == self.value(),
    {
        ManuallyDrop::into_inner(self.value)
    }
}

/// `<ManuallyDrop<T> as DerefMut>::deref_mut`: a mutable reference to the
/// wrapped value, through which writes land in the wrapper.
#[verifier::external_body]
fn manually_drop_deref_mut<T>(m: &mut ManuallyDrop<T>) -> (r: &mut T)
    ensures
        *r == old(m)@,
        final(m)@ == *final(r),
{
    std::ops::DerefMut::deref_mut(m)
}

/// A slot that starts empty and is filled by `write`.
pub struct MaybeUninit<T> {
    inner: Option<T>,
}

impl<T> MaybeUninit<T> {
    /// The slot's contents, `None` while unwritten.
    pub closed spec fn contents(&self) -> Option<T> {
        self.inner
    }

    /// An empty slot.
    pub fn uninit() -> (r: Self)
        ensures
            r.contents() is None,
    {
        MaybeUninit { inner: None }
    }

    /// A slot holding `value`.
    pub fn new(value: T) -> (r: Self)
        ensures
            r.contents() == Some(value),
    {
        MaybeUninit { inner: Some(value) }
    }

    /// Store `value`, returning a reference to it in the slot.
    pub fn write(&mut self, value: T) -> (r: &mut T)
        ensures
            *r == value,
            final(self).contents() == Some(*final(r)),
    {
        self.inner = Some(value);
        match &mut self.inner {
            Some(v) => v,
            None => vstd::pervasive::unreached(),
        }
    }

    /// The written value; the slot must have been written.
    pub fn assume_init(self) -> (r: T)
        requires
            self.contents() is Some,
        ensures
            Some(r) == self.contents(),
    {
        self.inner.unwrap()
    }

    /// Whether the slot holds a value.
    pub fn is_init(&self) -> (r: bool)
        ensures
            r == self.contents() is Some,
    {
        self.inner.is_some()
    }
}

impl<T> Default for MaybeUninit<T> {
    fn default() -> (r: Self)
        ensures
            r.contents() is None,
    {
        Self::uninit()
    }
}

/// Copy `src` over `dest`, which must have the same length.
pub fn copy_from_slice<T: Copy>(dest: &mut [T], src: &[T])
    requires
        old(dest)@.len() == src@.len(),
    ensures
        final(dest)@ == src@,
{
    let n = src.len();
    let mut i: usize = 0;
    while i < n
        invariant
            n == src@.len(),
            dest@.len() == n,
            i <= n,
            forall|j: int| 0 <= j < i ==> dest@[j] == src@[j],
        decreases n - i,
    {
        dest[i] = src[i];
        i = i + 1;
    }
    assert(dest@ =~= src@);
}

/// Clone each element of `src` into `dest`, which must have the same length.
pub fn clone_from_slice<T: Clone>(dest: &mut [T], src: &[T])
    requires
        old(dest)@.len() == src@.len(),
    ensures
        final(dest)@.len() == src@.len(),
        forall|j: int| 0 <= j < src@.len() ==> cloned(src@[j], #[trigger] final(dest)@[j]),
{
    let n = src.len();
    let mut i: usize = 0;
    while i < n
        invariant
            n == src@.len(),
            dest@.len() == n,
            i <= n,
            forall|j: int| 0 <= j < i ==> cloned(src@[j], #[trigger] dest@[j]),
        decreases n - i,
    {
        dest[i] = src[i].clone();
        i = i + 1;
    }
}

} // verus!
