//! Scalar ranges used to bound valid hit distances.

use vstd::prelude::*;

verus! {

/// The sentinel standing in for an unbounded range end: the largest
/// representable fixed-point scalar.
pub const INFINITY: i64 = 0x7fff_ffff_ffff_ffff;

/// A closed scalar range `[min, max]`; `surrounds` tests the open interior.
#[derive(Clone, Copy, Debug, PartialEq, Eq, Structural)]
pub struct Interval {
    pub min: i64,
    pub max: i64,
}

impl Interval {
    pub fn new(min: i64, max: i64) -> (r: Interval)
        ensures
            r.min == min,
            r.max == max,
    {
        Interval { min, max }
    }

    /// Whether `x` lies in the closed range.
    pub fn contains(&self, x: i64) -> (r: bool)
        ensures
            r == (self.min <= x && x <= self.max),
    {
        self.min <= x && self.max >= x
    }

    /// Whether `x` lies strictly inside the range.
    pub fn surrounds(&self, x: i64) -> (r: bool)
        ensures
            r == (self.min < x && x < self.max),
    {
        self.min < x && self.max > x
    }

    pub fn max(&self) -> (r: i64)
        ensures
            r == self.max,
    {
        self.max
    }

    pub fn min(&self) -> (r: i64)
        ensures
            r == self.min,
    {
        self.min
    }

    /// `x` clamped into the range (for `min <= max`).
    pub fn clamp(&self, x: i64) -> (r: i64)
        ensures
            x < self.min ==> r == self.min,
            self.min <= x && x > self.max ==> r == self.max,
            self.min <= x <= self.max ==> r == x,
    {
        if x < self.min {
            self.min
        } else if x > self.max {
            self.max
        } else {
            x
        }
    }

    /// The empty range: no scalar lies in it.
    pub fn empty() -> (r: Interval)
        ensures
            r.min == INFINITY,
            r.max == -INFINITY,
    {
        Interval { min: INFINITY, max: -INFINITY }
    }

    /// The range holding every representable scalar.
    pub fn universe() -> (r: Interval)
        ensures
            r.min == -INFINITY,
            r.max == INFINITY,
    {
        Interval { min: -INFINITY, max: INFINITY }
    }
}

} // verus!
