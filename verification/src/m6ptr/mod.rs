//! An owning pointer, and further names under which byte strings are read
//! and copy-on-write values are staged.

use vstd::prelude::*;

pub mod bytestr;
pub mod cow;

verus! {

/// A value on the heap, owned through one pointer.
#[derive(Debug, PartialEq, Eq, PartialOrd, Ord, Hash)]
pub struct OwnedPtr<T: ?Sized> {
    value: Box<T>,
}

impl<T> View for OwnedPtr<T> {
    type V = T;

    /// The value pointed to.
    closed spec fn view(&self) -> T {
        *self.value
    }
}

impl<T> OwnedPtr<T> {
    /// Puts `value` on the heap.
    pub fn new(value: T) -> (ptr: Self)
        ensures
            ptr@ == value,
    {
        Self { value: Box::new(value) }
    }

    /// Takes over the value in `value`.
    pub fn from_box(value: Box<T>) -> (ptr: Self)
        ensures
            ptr@ == *value,
    {
        Self { value }
    }

    /// Gives the value back in its box.
    pub fn into_box(self) -> (value: Box<T>)
        ensures
            *value == self@,
    {
        self.value
    }
}

impl<T> core::ops::Deref for OwnedPtr<T> {
    type Target = T;

    /// The value pointed to.
    fn deref(&self) -> (value: &T)
        ensures
            *value == self@,
    {
        &*self.value
    }
}

} // verus!
