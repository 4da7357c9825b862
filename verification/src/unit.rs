//! Physical length and height units accepted after a numeric tag
//! parameter.

use crate::scan::has_lit;
use crate::scan::match_lit;
use vstd::prelude::*;
use vstd::string::StringExecFns;

verus! {

/// A physical unit attached to a numeric tag parameter.
#[derive(Clone, Copy, Debug, PartialEq, Eq, Structural)]
pub enum Unit {
    M,
    Cm,
    Mm,
    In,
    Pt,
    Pc,
    Hs,
}

/// The textual name of each unit.
pub open spec fn spec_unit_name(u: Unit) -> Seq<char> {
    match u {
        Unit::M => "m"@,
        Unit::Cm => "cm"@,
        Unit::Mm => "mm"@,
        Unit::In => "in"@,
        Unit::Pt => "pt"@,
        Unit::Pc => "pc"@,
        Unit::Hs => "hs"@,
    }
}

/// The unit parsed at `i`.  `mm` is tried before `m`, so the longer
/// spelling wins; the remaining names are disjoint two-letter spellings.
pub open spec fn sp_unit(s: Seq<char>, i: int) -> Option<(Unit, int)> {
    if has_lit(s, i, "mm"@) {
        Option::Some((Unit::Mm, i + 2))
    } else if has_lit(s, i, "m"@) {
        Option::Some((Unit::M, i + 1))
    } else if has_lit(s, i, "cm"@) {
        Option::Some((Unit::Cm, i + 2))
    } else if has_lit(s, i, "in"@) {
        Option::Some((Unit::In, i + 2))
    } else if has_lit(s, i, "pt"@) {
        Option::Some((Unit::Pt, i + 2))
    } else if has_lit(s, i, "pc"@) {
        Option::Some((Unit::Pc, i + 2))
    } else if has_lit(s, i, "hs"@) {
        Option::Some((Unit::Hs, i + 2))
    } else {
        Option::None
    }
}

impl Unit {
    /// Parse a unit name at `i`.
    pub fn parse(s: &Vec<char>, i: usize) -> (r: Option<(Unit, usize)>)
        requires
            i <= s@.len(),
        ensures
            match r {
                Option::Some((u, j)) => sp_unit(s@, i as int) == Option::Some((u, j as int)) && i
                    < j <= s@.len(),
                Option::None => sp_unit(s@, i as int) is None,
            },
    {
        let n = s.len();
        proof {
            assert(n == s@.len());
            reveal_strlit("mm");
            reveal_strlit("m");
            reveal_strlit("cm");
            reveal_strlit("in");
            reveal_strlit("pt");
            reveal_strlit("pc");
            reveal_strlit("hs");
        }
        if match_lit(s, i, "mm") {
            Option::Some((Unit::Mm, i + 2))
        } else if match_lit(s, i, "m") {
            Option::Some((Unit::M, i + 1))
        } else if match_lit(s, i, "cm") {
            Option::Some((Unit::Cm, i + 2))
        } else if match_lit(s, i, "in") {
            Option::Some((Unit::In, i + 2))
        } else if match_lit(s, i, "pt") {
            Option::Some((Unit::Pt, i + 2))
        } else if match_lit(s, i, "pc") {
            Option::Some((Unit::Pc, i + 2))
        } else if match_lit(s, i, "hs") {
            Option::Some((Unit::Hs, i + 2))
        } else {
            Option::None
        }
    }

    /// The textual name of the unit.
    pub fn name(&self) -> (r: String)
        ensures
            r@ == spec_unit_name(*self),
    {
        match self {
            Unit::M => String::from_str("m"),
            Unit::Cm => String::from_str("cm"),
            Unit::Mm => String::from_str("mm"),
            Unit::In => String::from_str("in"),
            Unit::Pt => String::from_str("pt"),
            Unit::Pc => String::from_str("pc"),
            Unit::Hs => String::from_str("hs"),
        }
    }
}

} // verus!
