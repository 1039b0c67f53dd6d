//! Result-to-Option conversion keyed to a log severity.
//!
//! The severity levels mirror the usual logging hierarchy; the caller-facing
//! conversion itself performs no output, so it can be used from any context.
//! Emitting the dropped error to a log sink is the embedding application's
//! business.

use vstd::prelude::*;

verus! {

/// A log severity, from most to least verbose.
#[derive(Debug, Clone, Copy, PartialEq, Eq, Structural)]
pub enum Level {
    /// Designates very fine-grained information.
    Trace,
    /// Designates lower-priority information.
    Debug,
    /// Designates useful information.
    Info,
    /// Designates hazardous situations.
    Warn,
    /// Designates serious errors.
    Error,
}

/// Converting a `Result` into an `Option`, with a severity at which the
/// discarded error is meant to be reported.
pub trait OkOrLog<T> {
    /// Converts `self` into an `Option<T>`, consuming `self`; the error, if
    /// any, is dropped and `level` names the severity of that loss.
    fn ok_or_log(self, level: Level) -> Option<T>;
}

impl<T, E> OkOrLog<T> for Result<T, E> {
    /// `Some` of the success value, or `None` where there was an error.
    fn ok_or_log(self, level: Level) -> (r: Option<T>)
        ensures
            r == match self {
                Ok(value) => Some(value),
                Err(_) => None::<T>,
            },
    {
        match self {
            Ok(value) => Some(value),
            Err(_) => None,
        }
    }
}

} // verus!
