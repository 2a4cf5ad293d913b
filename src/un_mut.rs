use vstd::prelude::*;

verus! {

/// A value that is only ever read once wrapped.
pub struct UnMut<T>(T);

impl<T> View for UnMut<T> {
    type V = T;

    closed spec fn view(&self) -> T {
        self.0
    }
}

impl<T> UnMut<T> {
    pub fn new(x: T) -> (r: UnMut<T>)
        ensures
            r@ == x,
    {
        UnMut(x)
    }

    /// A shared reference to the wrapped value.
    pub fn as_const_ref(&self) -> (r: &T)
        ensures
            *r == self@,
    {
        &self.0
    }
}

} // verus!
