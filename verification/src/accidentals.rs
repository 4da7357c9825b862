//! Accidentals attached to a note: a run of `#` and `&` characters.

use vstd::prelude::*;

verus! {

/// The accidental carried by a note.
#[derive(Clone, Copy, Debug, PartialEq, Eq, Structural)]
pub enum Accidentals {
    Natural,
    Sharp,
    Flat,
    DoubleSharp,
    DoubleFlat,
}

/// An accidental character.
pub open spec fn is_acc_char(c: char) -> bool {
    c == '#' || c == '&'
}

/// The end of the run of accidental characters starting at `i`.
pub open spec fn sp_acc_end(s: Seq<char>, i: int) -> int
    decreases s.len() - i,
    when 0 <= i <= s.len()
{
    if i < s.len() && is_acc_char(s[i]) {
        sp_acc_end(s, i + 1)
    } else {
        i
    }
}

pub proof fn lemma_acc_end_bounds(s: Seq<char>, i: int)
    requires
        0 <= i <= s.len(),
    ensures
        i <= sp_acc_end(s, i) <= s.len(),
    decreases s.len() - i,
{
    if i < s.len() && is_acc_char(s[i]) {
        lemma_acc_end_bounds(s, i + 1);
    }
}

/// The accidental parsed at `i`: an empty run means natural; the runs
/// `#`, `&`, `##` and `&&` name the four altered forms; any other run is
/// rejected.
pub open spec fn sp_accidentals(s: Seq<char>, i: int) -> Option<(Accidentals, int)> {
    let j = sp_acc_end(s, i);
    if j == i {
        Option::Some((Accidentals::Natural, i))
    } else if j == i + 1 {
        if s[i] == '#' {
            Option::Some((Accidentals::Sharp, j))
        } else {
            Option::Some((Accidentals::Flat, j))
        }
    } else if j == i + 2 {
        if s[i] == '#' && s[i + 1] == '#' {
            Option::Some((Accidentals::DoubleSharp, j))
        } else if s[i] == '&' && s[i + 1] == '&' {
            Option::Some((Accidentals::DoubleFlat, j))
        } else {
            Option::None
        }
    } else {
        Option::None
    }
}

impl Accidentals {
    /// Parse the accidental run at `i`.
    pub fn parse(s: &Vec<char>, i: usize) -> (r: Option<(Accidentals, usize)>)
        requires
            i <= s@.len(),
        ensures
            match r {
                Option::Some((a, j)) => sp_accidentals(s@, i as int) == Option::Some(
                    (a, j as int),
                ) && i <= j <= s@.len(),
                Option::None => sp_accidentals(s@, i as int) is None,
            },
    {
        let mut j = i;
        while j < s.len() && (s[j] == '#' || s[j] == '&')
            invariant
                i <= j <= s@.len(),
                sp_acc_end(s@, i as int) == sp_acc_end(s@, j as int),
            decreases s@.len() - j,
        {
            j = j + 1;
        }
        proof {
            lemma_acc_end_bounds(s@, j as int);
            assert(j == sp_acc_end(s@, i as int));
        }
        if j == i {
            Option::Some((Accidentals::Natural, i))
        } else if j == i + 1 {
            if s[i] == '#' {
                Option::Some((Accidentals::Sharp, j))
            } else {
                Option::Some((Accidentals::Flat, j))
            }
        } else if j == i + 2 {
            if s[i] == '#' && s[i + 1] == '#' {
                Option::Some((Accidentals::DoubleSharp, j))
            } else if s[i] == '&' && s[i + 1] == '&' {
                Option::Some((Accidentals::DoubleFlat, j))
            } else {
                Option::None
            }
        } else {
            Option::None
        }
    }
}

} // verus!
