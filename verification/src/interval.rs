//! Closed ranges of fixed-point scalars.
//!
//! The sentinel with `min > max` (as produced by `new`) is the empty
//! interval; it is the identity element of `from_intervals` (union).

use crate::scalar::{scalar_in_range, SCALAR_LIMIT};
use vstd::prelude::*;

verus! {

#[derive(Clone, Copy, PartialEq, Eq, Structural, Debug)]
pub struct Interval {
    pub min: i64,
    pub max: i64,
}

impl Interval {
    /// Both endpoints are representable scalars.
    pub open spec fn wf(self) -> bool {
        scalar_in_range(self.min as int) && scalar_in_range(self.max as int)
    }

    /// The empty interval: the identity element of union.
    pub open spec fn spec_empty() -> Interval {
        Interval { min: SCALAR_LIMIT, max: (-SCALAR_LIMIT) as i64 }
    }

    /// `x` lies in the closed range `[min, max]`.
    pub open spec fn spec_contains(self, x: int) -> bool {
        self.min <= x <= self.max
    }

    /// `x` lies in the open range `(min, max)`.
    pub open spec fn spec_surrounds(self, x: int) -> bool {
        self.min < x < self.max
    }

    /// Smallest interval containing both `a` and `b`.
    pub open spec fn spec_union(a: Interval, b: Interval) -> Interval {
        Interval {
            min: if a.min <= b.min {
                a.min
            } else {
                b.min
            },
            max: if a.max >= b.max {
                a.max
            } else {
                b.max
            },
        }
    }

    /// The empty interval.
    pub fn new() -> (r: Self)
        ensures
            r == Self::spec_empty(),
    {
        Self { min: SCALAR_LIMIT, max: -SCALAR_LIMIT }
    }

    /// The interval `[min, max]`.
    pub fn from(min: i64, max: i64) -> (r: Self)
        ensures
            r.min == min,
            r.max == max,
    {
        Self { min, max }
    }

    /// The range of ray parameters used when casting: biased one tick away
    /// from zero so a scattered ray cannot re-intersect its own origin.
    pub fn casting_default() -> (r: Self)
        ensures
            r == (Interval { min: 1i64, max: SCALAR_LIMIT }),
    {
        Self { min: 1, max: SCALAR_LIMIT }
    }

    /// Union of two intervals.
    pub fn from_intervals(a: &Self, b: &Self) -> (r: Self)
        ensures
            r == Self::spec_union(*a, *b),
    {
        let min = if a.min <= b.min {
            a.min
        } else {
            b.min
        };
        let max = if a.max >= b.max {
            a.max
        } else {
            b.max
        };
        Self { min, max }
    }

    /// Width of the interval (negative for empty intervals).
    pub fn size(&self) -> (r: i64)
        requires
            self.wf(),
        ensures
            r == self.max - self.min,
    {
        self.max - self.min
    }

    /// Closed containment.
    pub fn contains(&self, x: i64) -> (r: bool)
        ensures
            r == self.spec_contains(x as int),
    {
        self.min <= x && x <= self.max
    }

    /// Open containment.
    pub fn surrounds(&self, x: i64) -> (r: bool)
        ensures
            r == self.spec_surrounds(x as int),
    {
        self.min < x && x < self.max
    }

    /// Widen the interval by `delta`, half on each side.
    pub fn expand(&self, delta: i64) -> (r: Self)
        requires
            self.wf(),
            0 <= delta <= SCALAR_LIMIT,
        ensures
            r.min == self.min - delta / 2,
            r.max == self.max + delta / 2,
    {
        let padding = delta / 2;
        Self { min: self.min - padding, max: self.max + padding }
    }

    /// Clamp `x` into the interval (for non-empty intervals).
    pub fn clamp(&self, x: i64) -> (r: i64)
        requires
            self.min <= self.max,
        ensures
            r == if x < self.min {
                self.min
            } else if x > self.max {
                self.max
            } else {
                x
            },
    {
        if x < self.min {
            self.min
        } else if x > self.max {
            self.max
        } else {
            x
        }
    }
}

impl Default for Interval {
    /// The default interval is the empty one.
    fn default() -> (r: Self)
        ensures
            r == Self::spec_empty(),
    {
        Self::new()
    }
}

} // verus!
