//! Small helpers shared across the crate.

use vstd::prelude::*;

verus! {

/// Unwrapping a `Result` whose error case is known not to occur.
pub trait InfallibleResultExt<T>: Sized {
    /// Whether the value can be unwrapped.
    spec fn can_unwrap(self) -> bool;

    /// The unwrapped value.
    spec fn unwrapped(self) -> T;

    /// Extracts the success value of a result that cannot be an error.
    fn infallible(self) -> (t: T)
        requires
            self.can_unwrap(),
        ensures
            t == self.unwrapped(),
    ;
}

impl<T, E> InfallibleResultExt<T> for Result<T, E> {
    open spec fn can_unwrap(self) -> bool {
        self is Ok
    }

    open spec fn unwrapped(self) -> T {
        self->Ok_0
    }

    fn infallible(self) -> (t: T) {
        match self {
            Ok(t) => t,
            Err(_) => vstd::pervasive::unreached(),
        }
    }
}

} // verus!
