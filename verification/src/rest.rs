//! Rests: pitchless events with a duration and rhythm dots.

use crate::dots::Dots;
use crate::duration::Duration;
use vstd::prelude::*;

verus! {

/// A rest with its base duration and rhythm dots.
#[derive(Clone, Copy, Debug, PartialEq, Eq, Structural)]
pub struct Rest {
    pub duration: Duration,
    pub dots: Dots,
}

impl Rest {
    /// A rest from its duration and dots.
    pub fn new(duration: Duration, dots: Dots) -> (r: Rest)
        ensures
            r == (Rest { duration, dots }),
    {
        Rest { duration, dots }
    }
}

impl Default for Rest {
    /// A whole-note rest without dots.
    fn default() -> (r: Self)
        ensures
            r == (Rest { duration: Duration { num: 1, denom: 1 }, dots: Dots::NoDot }),
    {
        Rest { duration: Duration { num: 1, denom: 1 }, dots: Dots::NoDot }
    }
}

} // verus!
