//! Dotted-rhythm augmentation: zero to three trailing dots on a note or
//! rest, each mapping to a canonical extra-duration fraction.

use crate::duration::Duration;
use vstd::prelude::*;

verus! {

/// The number of rhythm dots carried by a note or rest.
#[derive(Clone, Copy, Debug, PartialEq, Eq, Structural)]
pub enum Dots {
    NoDot,
    Single,
    Double,
    Triple,
}

/// The number of dots, as an integer.
pub open spec fn spec_dots_count(d: Dots) -> int {
    match d {
        Dots::NoDot => 0,
        Dots::Single => 1,
        Dots::Double => 2,
        Dots::Triple => 3,
    }
}

/// The canonical extra-duration fraction of each dot count:
/// 0, 1/2, 3/4 and 7/8.
pub open spec fn spec_dots_duration(d: Dots) -> Duration {
    match d {
        Dots::NoDot => Duration { num: 0, denom: 1 },
        Dots::Single => Duration { num: 1, denom: 2 },
        Dots::Double => Duration { num: 3, denom: 4 },
        Dots::Triple => Duration { num: 7, denom: 8 },
    }
}

/// One plus the extra-duration fraction: the factor a dotted note's base
/// duration is multiplied by (1, 3/2, 7/4, 15/8).
pub open spec fn spec_dots_factor(d: Dots) -> Duration {
    match d {
        Dots::NoDot => Duration { num: 1, denom: 1 },
        Dots::Single => Duration { num: 3, denom: 2 },
        Dots::Double => Duration { num: 7, denom: 4 },
        Dots::Triple => Duration { num: 15, denom: 8 },
    }
}

/// The dot count parsed at `i`: up to three `.` characters.
pub open spec fn sp_dots(s: Seq<char>, i: int) -> (Dots, int) {
    if i < s.len() && s[i] == '.' {
        if i + 1 < s.len() && s[i + 1] == '.' {
            if i + 2 < s.len() && s[i + 2] == '.' {
                (Dots::Triple, i + 3)
            } else {
                (Dots::Double, i + 2)
            }
        } else {
            (Dots::Single, i + 1)
        }
    } else {
        (Dots::NoDot, i)
    }
}

impl Dots {
    /// The number of dots.
    pub fn count(&self) -> (r: usize)
        ensures
            r == spec_dots_count(*self),
    {
        match self {
            Dots::NoDot => 0,
            Dots::Single => 1,
            Dots::Double => 2,
            Dots::Triple => 3,
        }
    }

    /// The extra-duration fraction added by the dots.
    pub fn duration(&self) -> (r: Duration)
        ensures
            r == spec_dots_duration(*self),
    {
        match self {
            Dots::NoDot => Duration { num: 0, denom: 1 },
            Dots::Single => Duration { num: 1, denom: 2 },
            Dots::Double => Duration { num: 3, denom: 4 },
            Dots::Triple => Duration { num: 7, denom: 8 },
        }
    }

    /// One plus the extra-duration fraction.
    pub fn factor(&self) -> (r: Duration)
        ensures
            r == spec_dots_factor(*self),
    {
        match self {
            Dots::NoDot => Duration { num: 1, denom: 1 },
            Dots::Single => Duration { num: 3, denom: 2 },
            Dots::Double => Duration { num: 7, denom: 4 },
            Dots::Triple => Duration { num: 15, denom: 8 },
        }
    }

    /// Parse up to three trailing dots.
    pub fn parse(s: &Vec<char>, i: usize) -> (r: (Dots, usize))
        requires
            i <= s@.len(),
        ensures
            sp_dots(s@, i as int) == (r.0, r.1 as int),
            i <= r.1 <= s@.len(),
    {
        if i < s.len() && s[i] == '.' {
            if i + 1 < s.len() && s[i + 1] == '.' {
                if i + 2 < s.len() && s[i + 2] == '.' {
                    (Dots::Triple, i + 3)
                } else {
                    (Dots::Double, i + 2)
                }
            } else {
                (Dots::Single, i + 1)
            }
        } else {
            (Dots::NoDot, i)
        }
    }
}

impl Default for Dots {
    /// No dots.
    fn default() -> (r: Self)
        ensures
            r == Dots::NoDot,
    {
        Dots::NoDot
    }
}

} // verus!
