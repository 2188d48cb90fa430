//! Time primitives.

use vstd::prelude::*;

pub mod hrtimer;

verus! {

/// A time or a duration in nanoseconds.
#[derive(Clone, Copy, Debug, PartialEq, Eq, Structural)]
pub struct Ktime {
    pub ns: i64,
}

impl Ktime {
    /// The time of `ns` nanoseconds.
    pub fn from_nanos(ns: i64) -> (r: Ktime)
        ensures
            r.ns == ns,
    {
        Ktime { ns }
    }

    /// The number of nanoseconds.
    pub fn to_ns(self) -> (r: i64)
        ensures
            r == self.ns,
    {
        self.ns
    }
}

} // verus!
