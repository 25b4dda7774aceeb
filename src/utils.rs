//! Ownership marker for the peripheral singleton.
use vstd::prelude::*;

verus! {

/// Holds a single value that is shared between interrupt and foreground
/// code; the owner serialises every access with a critical section.
pub struct SyncWrapper<T>(T);

impl<T> SyncWrapper<T> {
    /// The wrapped value.
    pub closed spec fn inner(&self) -> T {
        self.0
    }

    pub fn new(value: T) -> (r: SyncWrapper<T>)
        ensures
            r.inner() == value,
    {
        SyncWrapper(value)
    }
}

impl<T> core::ops::Deref for SyncWrapper<T> {
    type Target = T;

    fn deref(&self) -> (r: &T)
        ensures
            *r == self.inner(),
    {
        &self.0
    }
}

impl<T> core::ops::DerefMut for SyncWrapper<T> {
    fn deref_mut(&mut self) -> (r: &mut T)
        ensures
            *r == old(self).inner(),
            *final(r) == final(self).inner(),
    {
        &mut self.0
    }
}

} // verus!
