//! Common utilities: a preallocated append buffer, small collection helpers,
//! and a URN type, with machine-checked contracts.

use vstd::prelude::*;

pub mod collections;
pub mod urn;
pub mod logging;
pub mod util;

verus! {

/// Wraps any value in the `Ok` variant of a `Result`.
///
/// Convenient where a `Result` is expected but the computation cannot fail.
pub trait IntoOk where Self: Sized {
    /// Converts `self` into a `Result::Ok` variant.
    fn into_ok<E>(self) -> (r: Result<Self, E>)
        ensures
            r == Result::<Self, E>::Ok(self),
    ;
}

impl<T> IntoOk for T where Self: Sized {
    fn into_ok<E>(self) -> (r: Result<Self, E>)
        ensures
            r == Result::<Self, E>::Ok(self),
    {
        Ok(self)
    }
}

/// A fallible counterpart of `From`: the conversion may be refused.
///
/// Implementors decide on which inputs the conversion succeeds; this crate
/// only declares the interface.
pub trait MaybeFrom<T> {
    /// Attempts to convert `value` into `Self`, returning `None` on failure.
    fn maybe_from(value: T) -> Option<Self> where Self: Sized;
}

} // verus!
