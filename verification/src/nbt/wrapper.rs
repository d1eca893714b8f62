//! A value carried in a packet as an NBT blob.

use vstd::prelude::*;

verus! {

/// A value that a packet carries as an NBT blob.
pub struct Nbt<T>(pub T);

impl<T> Nbt<T> {
    /// The value carried.
    pub fn get(&self) -> (r: &T)
        ensures
            *r == self.0,
    {
        &self.0
    }

    /// The value carried, taken out.
    pub fn into_inner(self) -> (r: T)
        ensures
            r == self.0,
    {
        self.0
    }
}

impl<T> std::ops::Deref for Nbt<T> {
    type Target = T;

    fn deref(&self) -> (r: &T)
        ensures
            *r == self.0,
    {
        &self.0
    }
}

} // verus!
