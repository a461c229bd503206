//! The precisions of a clock as types: each names the unit boundary at which
//! a clock redraws.
use vstd::prelude::*;

use crate::clock::{tick_nanos, TimeOfDay};

verus! {

/// Update the clock when the current day changes.
#[derive(Clone, Debug)]
pub struct Days;

/// Update the clock when the current hour changes.
#[derive(Clone, Debug)]
pub struct Hours;

/// Update the clock when the current minute changes.
#[derive(Clone, Debug)]
pub struct Minutes;

/// Update the clock when the current second changes.
#[derive(Clone, Debug)]
pub struct Seconds;

/// The trait implemented by all clock precisions.
pub trait Precision {
    /// The unit whose boundaries the precision follows.
    spec fn unit() -> crate::clock::Precision;

    /// How many nanoseconds until the next unit boundary, seen from `now`.
    fn tick(now: TimeOfDay) -> (r: u64)
        requires
            now.hour < 24,
            now.minute < 60,
            now.second < 60,
        ensures
            r as int == tick_nanos(Self::unit(), now),
    ;
}

impl Precision for Days {
    open spec fn unit() -> crate::clock::Precision {
        crate::clock::Precision::Days
    }

    fn tick(now: TimeOfDay) -> (r: u64) {
        crate::clock::Precision::Days.tick(now)
    }
}

impl Precision for Hours {
    open spec fn unit() -> crate::clock::Precision {
        crate::clock::Precision::Hours
    }

    fn tick(now: TimeOfDay) -> (r: u64) {
        crate::clock::Precision::Hours.tick(now)
    }
}

impl Precision for Minutes {
    open spec fn unit() -> crate::clock::Precision {
        crate::clock::Precision::Minutes
    }

    fn tick(now: TimeOfDay) -> (r: u64) {
        crate::clock::Precision::Minutes.tick(now)
    }
}

impl Precision for Seconds {
    open spec fn unit() -> crate::clock::Precision {
        crate::clock::Precision::Seconds
    }

    fn tick(now: TimeOfDay) -> (r: u64) {
        crate::clock::Precision::Seconds.tick(now)
    }
}

} // verus!
