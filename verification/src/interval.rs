//! Half-open intervals, ordered only where they do not overlap.
use core::cmp::Ordering;
use vstd::prelude::*;
use vstd::std_specs::cmp::{PartialEqSpec, PartialOrdSpec};

verus! {

/// The half-open interval from `start` up to, not including, `end`.
#[derive(Debug)]
pub struct Interval<T> {
    pub start: T,
    pub end: T,
}

impl<T: PartialEq> PartialEq for Interval<T> {
    /// Two intervals are equal when both of their bounds are.
    fn eq(&self, other: &Self) -> (r: bool) {
        self.start == other.start && self.end == other.end
    }
}

impl<T: PartialEq> vstd::std_specs::cmp::PartialEqSpecImpl for Interval<T> {
    open spec fn obeys_eq_spec() -> bool {
        T::obeys_eq_spec()
    }

    open spec fn eq_spec(&self, other: &Self) -> bool {
        self.start.eq_spec(&other.start) && self.end.eq_spec(&other.end)
    }
}

impl<T: Eq> Eq for Interval<T> {

}

/// `a` is at most `b`, as far as the order on `T` says.
pub open spec fn at_most<T: PartialOrd>(a: &T, b: &T) -> bool {
    a.partial_cmp_spec(b) matches Some(Ordering::Less | Ordering::Equal)
}

/// `a` is at least `b`, as far as the order on `T` says.
pub open spec fn at_least<T: PartialOrd>(a: &T, b: &T) -> bool {
    a.partial_cmp_spec(b) matches Some(Ordering::Greater | Ordering::Equal)
}

impl<T: PartialOrd> PartialOrd for Interval<T> {
    /// Equal intervals are equal; an interval that ends where another
    /// starts, or before, is less; one that starts where another ends, or
    /// after, is greater; intervals that overlap are not ordered.
    fn partial_cmp(&self, other: &Self) -> (r: Option<Ordering>) {
        if self == other {
            Some(Ordering::Equal)
        } else if self.end <= other.start {
            Some(Ordering::Less)
        } else if self.start >= other.end {
            Some(Ordering::Greater)
        } else {
            None
        }
    }
}

impl<T: PartialOrd> vstd::std_specs::cmp::PartialOrdSpecImpl for Interval<T> {
    open spec fn obeys_partial_cmp_spec() -> bool {
        T::obeys_eq_spec() && T::obeys_partial_cmp_spec()
    }

    open spec fn partial_cmp_spec(&self, other: &Self) -> Option<Ordering> {
        if self.eq_spec(other) {
            Some(Ordering::Equal)
        } else if at_most(&self.end, &other.start) {
            Some(Ordering::Less)
        } else if at_least(&self.start, &other.end) {
            Some(Ordering::Greater)
        } else {
            None
        }
    }
}

} // verus!
