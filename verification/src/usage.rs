//! A zero-sized marker for a type that a virtual function table uses.

use vstd::prelude::*;
use core::marker::PhantomData;

verus! {

/// Marks a use of `T` inside a virtual function table, where the class
/// macro writes it for a `virtual use T as name;` item.
pub struct Usage<T: ?Sized>(pub PhantomData<T>);

impl<T: ?Sized> Usage<T> {
    /// The marker.
    pub fn new() -> (r: Self)
        ensures
            r == Usage::<T>(PhantomData),
    {
        Usage(PhantomData)
    }
}

impl<T: ?Sized> Clone for Usage<T> {
    /// Another copy of the marker, whatever `T` is.
    fn clone(&self) -> (r: Self)
        ensures
            r == *self,
    {
        Usage(PhantomData)
    }
}

impl<T: ?Sized> Copy for Usage<T> {}

impl<T: ?Sized> Default for Usage<T> {
    /// The marker, as `new` makes it.
    fn default() -> (r: Self)
        ensures
            r == Usage::<T>(PhantomData),
    {
        Self::new()
    }
}

} // verus!
