//! Intersection of inclusive ranges.

use core::cmp::Ordering;
use core::ops::RangeInclusive;
use vstd::prelude::*;
use vstd::std_specs::cmp::PartialOrdSpec;
use vstd::std_specs::range::RangeInclusiveView;

verus! {

/// Relies on `RangeInclusive::start`: it returns the range's lower bound.
pub assume_specification<Idx>[ RangeInclusive::<Idx>::start ](r: &RangeInclusive<Idx>) -> (s: &Idx)
    ensures
        *s == r@.start,
;

/// Relies on `RangeInclusive::end`: it returns the range's upper bound.
pub assume_specification<Idx>[ RangeInclusive::<Idx>::end ](r: &RangeInclusive<Idx>) -> (e: &Idx)
    ensures
        *e == r@.end,
;

/// The larger of two starts, as `intersection` picks it: `a` only when the
/// comparison says it is strictly greater.
pub open spec fn later_start<T: PartialOrd>(a: T, b: T) -> T {
    if a.partial_cmp_spec(&b) == Some(Ordering::Greater) {
        a
    } else {
        b
    }
}

/// The smaller of two ends, as `intersection` picks it: `a` only when the
/// comparison says it is strictly less.
pub open spec fn earlier_end<T: PartialOrd>(a: T, b: T) -> T {
    if a.partial_cmp_spec(&b) == Some(Ordering::Less) {
        a
    } else {
        b
    }
}

/// Extension trait for `RangeInclusive`: range intersection.
pub trait MoreRangeInclusive<T>: View<V = RangeInclusiveView<T>> where T: Copy + PartialOrd {
    /// The overlap of the two ranges: from the larger start to the smaller
    /// end, or absence when that span is empty.
    fn intersection(&self, other: &RangeInclusive<T>) -> (r: Option<RangeInclusive<T>>)
        ensures
            T::obeys_partial_cmp_spec() ==> {
                let s = later_start(self@.start, other@.start);
                let e = earlier_end(self@.end, other@.end);
                match r {
                    Some(overlap) => {
                        &&& s.partial_cmp_spec(&e) matches Some(
                            Ordering::Less
                            | Ordering::Equal,
                        )
                        &&& overlap@.start == s
                        &&& overlap@.end == e
                        &&& overlap@.exhausted == false
                    },
                    None => !(s.partial_cmp_spec(&e) matches Some(
                        Ordering::Less
                        | Ordering::Equal,
                    )),
                }
            },
    ;
}

impl<T> MoreRangeInclusive<T> for RangeInclusive<T> where T: Copy + PartialOrd {
    fn intersection(&self, other: &RangeInclusive<T>) -> (r: Option<RangeInclusive<T>>) {
        let start: T = if *self.start() > *other.start() {
            *self.start()
        } else {
            *other.start()
        };
        let end: T = if *self.end() < *other.end() {
            *self.end()
        } else {
            *other.end()
        };
        if start <= end {
            Some(RangeInclusive::new(start, end))
        } else {
            None
        }
    }
}

} // verus!
