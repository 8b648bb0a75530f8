//! A box that owns one value and gives it out by reference.

use vstd::prelude::*;

verus! {

/// A value in a box.
pub struct MyBox<T>(pub T);

impl<T> MyBox<T> {
    /// Puts `x` in a box.
    pub fn new(x: T) -> (boxed: MyBox<T>)
        ensures
            boxed.0 == x,
    {
        MyBox(x)
    }
}

impl<T> std::ops::Deref for MyBox<T> {
    type Target = T;

    /// The value in the box.
    fn deref(&self) -> (value: &T)
        ensures
            *value == self.0,
    {
        &self.0
    }
}

} // verus!
