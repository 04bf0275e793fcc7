//! Values shared with handlers for the length of a run.
use vstd::prelude::*;

verus! {

/// A value registered with the worker's shared state, handed to handlers.
/// It lives as long as the run: a change that one handler makes through
/// `get_mut` is seen by the handlers of later events.
pub struct State<T>(T);

impl<T> State<T> {
    /// Wraps `value` for registration.
    pub fn new(value: T) -> (r: State<T>)
        ensures
            r.value() == value,
    {
        State(value)
    }

    /// The wrapped value.
    pub closed spec fn value(&self) -> T {
        self.0
    }

    /// Reads the wrapped value.
    pub fn get(&self) -> (r: &T)
        ensures
            *r == self.value(),
    {
        &self.0
    }

    /// Gives write access to the wrapped value.
    pub fn get_mut(&mut self) -> (r: &mut T)
        ensures
            *r == old(self).value(),
            final(self).value() == *final(r),
    {
        &mut self.0
    }

    /// Takes the wrapped value back.
    pub fn into_inner(self) -> (r: T)
        ensures
            r == self.value(),
    {
        self.0
    }
}

impl<T> std::ops::Deref for State<T> {
    type Target = T;

    fn deref(&self) -> (r: &T) {
        &self.0
    }
}

impl<T> std::ops::DerefMut for State<T> {
    fn deref_mut(&mut self) -> (r: &mut T) {
        &mut self.0
    }
}

} // verus!
