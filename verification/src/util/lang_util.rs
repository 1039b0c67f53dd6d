//! Extensions to standard-library features.

use std::collections::HashSet;
use std::hash::Hash;
use vstd::pervasive::cloned;
use vstd::prelude::*;

pub mod more_hashset;
pub mod prealloc_vec;

pub use crate::collections::more_hashset::DiffItem;
use crate::collections::more_hashset::clone_is_identity;
use crate::collections::more_hashset::describes_membership;
use crate::collections::more_hashset::diff_covers;
use crate::collections::more_hashset::diff_payload;
use crate::collections::more_hashset::hash_set_modeled;
use crate::collections::more_hashset::MoreHashSet;
use crate::logging::Level;

verus! {

/// Compares two sets and reports each element as shared (`Same`), only in
/// `x` (`Removed`), or only in `y` (`Added`).
pub fn diff<T: Eq + Hash + Clone>(x: &HashSet<T>, y: &HashSet<T>) -> (r: Vec<DiffItem<T>>)
    requires
        hash_set_modeled::<T>(),
    ensures
        forall|i: int| 0 <= i < r@.len() ==> describes_membership(#[trigger] r@[i], x@, y@),
        forall|e: T| #[trigger] x@.contains(e) ==> diff_covers(r@, e),
        forall|e: T|
            #[trigger] y@.contains(e) ==> diff_covers(r@, e) || (exists|z: T|
                #[trigger] cloned::<T>(e, z) && x@.contains(z)),
        clone_is_identity::<T>() ==> {
            &&& forall|i: int, j: int|
                #![trigger r@[i], r@[j]]
                0 <= i < j < r@.len() ==> diff_payload(r@[i]) != diff_payload(r@[j])
            &&& r@.len() == x@.union(y@).len()
        },
{
    x.diff(y)
}

/// Converting a `Result` into an `Option`, with a severity at which the
/// discarded error is meant to be reported.
pub trait LogAndNone<T> {
    /// Converts `self` into an `Option<T>`, consuming `self`; the error, if
    /// any, is dropped and `level` names the severity of that loss.
    fn ok_or_log(self, level: Level) -> Option<T>;
}

impl<T, E> LogAndNone<T> for Result<T, E> {
    /// `Some` of the success value, or `None` where there was an error.
    fn ok_or_log(self, level: Level) -> (r: Option<T>)
        ensures
            r == match self {
                Ok(value) => Some(value),
                Err(_) => None::<T>,
            },
    {
        match self {
            Ok(value) => Some(value),
            Err(_) => None,
        }
    }
}

/// Converting a `Result` into an `Option`, with a severity at which the
/// discarded error is meant to be reported: the interface of the logging
/// module's trait of the same name, declared here for implementors that want
/// their own reporting.
pub trait OkOrLog<T> {
    /// Converts `self` into an `Option<T>`, consuming `self`; the error, if
    /// any, is dropped and `level` names the severity of that loss.
    fn ok_or_log(self, level: Level) -> Option<T>;
}

/// A fallible counterpart of `From`: the conversion may be refused.
pub trait MaybeFrom<T> {
    /// Attempts to convert `value` into `Self`, returning `None` on failure.
    fn maybe_from(value: T) -> Option<Self> where Self: Sized;
}

} // verus!
