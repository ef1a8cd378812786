//! Small helpers around the shell's ownership transfer.

use vstd::prelude::*;

verus! {

/// A witness that a value is handed to the shell thread whole: wrapped on the
/// initializing thread, taken back exactly once where the dispatch loop runs,
/// untouched in between.
pub struct SendWrapper<T>(pub T);

impl<T> SendWrapper<T> {
    pub fn new(val: T) -> (r: SendWrapper<T>)
        ensures
            r.0 == val,
    {
        SendWrapper(val)
    }

    pub fn take(self) -> (r: T)
        ensures
            r == self.0,
    {
        self.0
    }
}

} // verus!
