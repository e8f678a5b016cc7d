use vstd::prelude::*;

verus! {

/// Holds a value whose lifetime is worth watching for leaks; the
/// accessors pass the value through unchanged.
pub struct Track<T> {
    pub value: T,
}

impl<T> Track<T> {
    /// Track a value for leaks
    pub fn new(value: T) -> (t: Track<T>)
        ensures
            t.value == value,
    {
        Track { value }
    }

    /// Get a reference to the value
    pub fn get_ref(&self) -> (r: &T)
        ensures
            *r == self.value,
    {
        &self.value
    }

    /// Get a mutable reference to the value
    pub fn get_mut(&mut self) -> (r: &mut T)
        ensures
            *r == old(self).value,
            final(self).value == *final(r),
    {
        &mut self.value
    }

    /// Stop tracking the value for leaks
    pub fn into_inner(self) -> (v: T)
        ensures
            v == self.value,
    {
        self.value
    }
}

} // verus!
