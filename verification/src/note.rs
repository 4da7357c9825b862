//! Notes and their naming systems.
//!
//! A note name comes from one of three systems — diatonic letters,
//! chromatic raised pitches, or solfège syllables — or is the `empty`
//! placeholder.  Each name exposes a diatonic scale step and a chromatic
//! semitone offset relative to C, from which a note's absolute pitch at a
//! given octave is computed.

use crate::accidentals::Accidentals;
use crate::dots::Dots;
use crate::dots::spec_dots_factor;
use crate::duration::Duration;
use crate::duration::spec_new_duration;
use crate::scan::has_lit;
use crate::scan::match_lit;
use vstd::prelude::*;

verus! {

/// A diatonic note letter; `H` is the German spelling of `B`.
#[derive(Clone, Copy, Debug, PartialEq, Eq, Structural)]
pub enum Diatonic {
    C,
    D,
    E,
    F,
    G,
    A,
    B,
    H,
}

/// A chromatic raised pitch.
#[derive(Clone, Copy, Debug, PartialEq, Eq, Structural)]
pub enum Chromatic {
    Cis,
    Dis,
    Fis,
    Gis,
    Ais,
}

/// A solfège syllable; `Si` and `Ti` name the same step.
#[derive(Clone, Copy, Debug, PartialEq, Eq, Structural)]
pub enum Solfege {
    Do,
    Re,
    Me,
    Fa,
    Sol,
    La,
    Si,
    Ti,
}

/// A note's name in any of the three systems, or the placeholder.
#[derive(Clone, Copy, Debug, PartialEq, Eq, Structural)]
pub enum NoteName {
    Empty,
    Diatonic(Diatonic),
    Chromatic(Chromatic),
    Solfege(Solfege),
}

/// The direction of a note's stem when drawn.
#[derive(Clone, Copy, Debug, PartialEq, Eq, Structural)]
pub enum StemDirection {
    Down,
    Up,
}

/// Diatonic scale steps relative to A.
pub open spec fn spec_diatonic_pitch(d: Diatonic) -> int {
    match d {
        Diatonic::C => -5,
        Diatonic::D => -4,
        Diatonic::E => -3,
        Diatonic::F => -2,
        Diatonic::G => -1,
        Diatonic::A => 0,
        Diatonic::B => 1,
        Diatonic::H => 1,
    }
}

/// Chromatic semitones relative to A.
pub open spec fn spec_diatonic_chromatic_pitch(d: Diatonic) -> int {
    match d {
        Diatonic::C => -9,
        Diatonic::D => -7,
        Diatonic::E => -5,
        Diatonic::F => -4,
        Diatonic::G => -2,
        Diatonic::A => 0,
        Diatonic::B => 2,
        Diatonic::H => 2,
    }
}

/// Diatonic scale steps of the raised pitches.
pub open spec fn spec_chromatic_diatonic_pitch(c: Chromatic) -> int {
    match c {
        Chromatic::Cis => -5,
        Chromatic::Dis => -4,
        Chromatic::Fis => -2,
        Chromatic::Gis => -1,
        Chromatic::Ais => 0,
    }
}

/// Chromatic semitones of the raised pitches.
pub open spec fn spec_chromatic_chromatic_pitch(c: Chromatic) -> int {
    match c {
        Chromatic::Cis => -8,
        Chromatic::Dis => -6,
        Chromatic::Fis => -3,
        Chromatic::Gis => -1,
        Chromatic::Ais => 0,
    }
}

/// Diatonic scale steps of the solfège syllables.
pub open spec fn spec_solfege_diatonic_pitch(s: Solfege) -> int {
    match s {
        Solfege::Do => -5,
        Solfege::Re => -4,
        Solfege::Me => -3,
        Solfege::Fa => -2,
        Solfege::Sol => -1,
        Solfege::La => 0,
        Solfege::Si => 1,
        Solfege::Ti => 1,
    }
}

/// Chromatic semitones of the solfège syllables.
pub open spec fn spec_solfege_chromatic_pitch(s: Solfege) -> int {
    match s {
        Solfege::Do => -9,
        Solfege::Re => -7,
        Solfege::Me => -5,
        Solfege::Fa => -4,
        Solfege::Sol => -2,
        Solfege::La => 0,
        Solfege::Si => 2,
        Solfege::Ti => 2,
    }
}

/// The diatonic scale step of any note name; the placeholder sits at A.
pub open spec fn spec_name_diatonic_pitch(n: NoteName) -> int {
    match n {
        NoteName::Empty => 0,
        NoteName::Diatonic(d) => spec_diatonic_pitch(d),
        NoteName::Chromatic(c) => spec_chromatic_diatonic_pitch(c),
        NoteName::Solfege(s) => spec_solfege_diatonic_pitch(s),
    }
}

/// The chromatic semitone offset of any note name.
pub open spec fn spec_name_chromatic_pitch(n: NoteName) -> int {
    match n {
        NoteName::Empty => 0,
        NoteName::Diatonic(d) => spec_diatonic_chromatic_pitch(d),
        NoteName::Chromatic(c) => spec_chromatic_chromatic_pitch(c),
        NoteName::Solfege(s) => spec_solfege_chromatic_pitch(s),
    }
}

impl Diatonic {
    pub fn diatonic_pitch(&self) -> (r: i32)
        ensures
            r == spec_diatonic_pitch(*self),
    {
        match self {
            Diatonic::C => -5,
            Diatonic::D => -4,
            Diatonic::E => -3,
            Diatonic::F => -2,
            Diatonic::G => -1,
            Diatonic::A => 0,
            Diatonic::B => 1,
            Diatonic::H => 1,
        }
    }

    pub fn chromatic_pitch(&self) -> (r: i32)
        ensures
            r == spec_diatonic_chromatic_pitch(*self),
    {
        match self {
            Diatonic::C => -9,
            Diatonic::D => -7,
            Diatonic::E => -5,
            Diatonic::F => -4,
            Diatonic::G => -2,
            Diatonic::A => 0,
            Diatonic::B => 2,
            Diatonic::H => 2,
        }
    }

    /// Parse a single diatonic letter `a` through `h`.
    pub fn parse(s: &Vec<char>, i: usize) -> (r: Option<(Diatonic, usize)>)
        requires
            i <= s@.len(),
        ensures
            match r {
                Option::Some((d, j)) => sp_diatonic(s@, i as int) == Option::Some((d, j as int))
                    && j == i + 1 && j <= s@.len(),
                Option::None => sp_diatonic(s@, i as int) is None,
            },
    {
        if i >= s.len() {
            return Option::None;
        }
        let c = s[i];
        let d = match c {
            'a' => Diatonic::A,
            'b' => Diatonic::B,
            'c' => Diatonic::C,
            'd' => Diatonic::D,
            'e' => Diatonic::E,
            'f' => Diatonic::F,
            'g' => Diatonic::G,
            'h' => Diatonic::H,
            _ => {
                return Option::None;
            },
        };
        Option::Some((d, i + 1))
    }
}

/// The diatonic letter at `i`, if any.
pub open spec fn sp_diatonic(s: Seq<char>, i: int) -> Option<(Diatonic, int)> {
    if 0 <= i < s.len() {
        match s[i] {
            'a' => Option::Some((Diatonic::A, i + 1)),
            'b' => Option::Some((Diatonic::B, i + 1)),
            'c' => Option::Some((Diatonic::C, i + 1)),
            'd' => Option::Some((Diatonic::D, i + 1)),
            'e' => Option::Some((Diatonic::E, i + 1)),
            'f' => Option::Some((Diatonic::F, i + 1)),
            'g' => Option::Some((Diatonic::G, i + 1)),
            'h' => Option::Some((Diatonic::H, i + 1)),
            _ => Option::None,
        }
    } else {
        Option::None
    }
}

impl Chromatic {
    pub fn diatonic_pitch(&self) -> (r: i32)
        ensures
            r == spec_chromatic_diatonic_pitch(*self),
    {
        match self {
            Chromatic::Cis => -5,
            Chromatic::Dis => -4,
            Chromatic::Fis => -2,
            Chromatic::Gis => -1,
            Chromatic::Ais => 0,
        }
    }

    pub fn chromatic_pitch(&self) -> (r: i32)
        ensures
            r == spec_chromatic_chromatic_pitch(*self),
    {
        match self {
            Chromatic::Cis => -8,
            Chromatic::Dis => -6,
            Chromatic::Fis => -3,
            Chromatic::Gis => -1,
            Chromatic::Ais => 0,
        }
    }

    /// Parse one of the chromatic spellings `cis` … `ais`.
    pub fn parse(s: &Vec<char>, i: usize) -> (r: Option<(Chromatic, usize)>)
        requires
            i <= s@.len(),
        ensures
            match r {
                Option::Some((c, j)) => sp_chromatic(s@, i as int) == Option::Some((c, j as int))
                    && i < j <= s@.len(),
                Option::None => sp_chromatic(s@, i as int) is None,
            },
    {
        proof {
            reveal_strlit("cis");
            reveal_strlit("dis");
            reveal_strlit("fis");
            reveal_strlit("gis");
            reveal_strlit("ais");
        }
        let n = s.len();
        if match_lit(s, i, "cis") {
            Option::Some((Chromatic::Cis, i + 3))
        } else if match_lit(s, i, "dis") {
            Option::Some((Chromatic::Dis, i + 3))
        } else if match_lit(s, i, "fis") {
            Option::Some((Chromatic::Fis, i + 3))
        } else if match_lit(s, i, "gis") {
            Option::Some((Chromatic::Gis, i + 3))
        } else if match_lit(s, i, "ais") {
            Option::Some((Chromatic::Ais, i + 3))
        } else {
            Option::None
        }
    }
}

/// The chromatic spelling at `i`, if any.
pub open spec fn sp_chromatic(s: Seq<char>, i: int) -> Option<(Chromatic, int)> {
    if has_lit(s, i, "cis"@) {
        Option::Some((Chromatic::Cis, i + 3))
    } else if has_lit(s, i, "dis"@) {
        Option::Some((Chromatic::Dis, i + 3))
    } else if has_lit(s, i, "fis"@) {
        Option::Some((Chromatic::Fis, i + 3))
    } else if has_lit(s, i, "gis"@) {
        Option::Some((Chromatic::Gis, i + 3))
    } else if has_lit(s, i, "ais"@) {
        Option::Some((Chromatic::Ais, i + 3))
    } else {
        Option::None
    }
}

impl Solfege {
    pub fn diatonic_pitch(&self) -> (r: i32)
        ensures
            r == spec_solfege_diatonic_pitch(*self),
    {
        match self {
            Solfege::Do => -5,
            Solfege::Re => -4,
            Solfege::Me => -3,
            Solfege::Fa => -2,
            Solfege::Sol => -1,
            Solfege::La => 0,
            Solfege::Si => 1,
            Solfege::Ti => 1,
        }
    }

    pub fn chromatic_pitch(&self) -> (r: i32)
        ensures
            r == spec_solfege_chromatic_pitch(*self),
    {
        match self {
            Solfege::Do => -9,
            Solfege::Re => -7,
            Solfege::Me => -5,
            Solfege::Fa => -4,
            Solfege::Sol => -2,
            Solfege::La => 0,
            Solfege::Si => 2,
            Solfege::Ti => 2,
        }
    }

    /// Parse a solfège syllable; `sol` is tried before `si`.
    pub fn parse(s: &Vec<char>, i: usize) -> (r: Option<(Solfege, usize)>)
        requires
            i <= s@.len(),
        ensures
            match r {
                Option::Some((v, j)) => sp_solfege(s@, i as int) == Option::Some((v, j as int))
                    && i < j <= s@.len(),
                Option::None => sp_solfege(s@, i as int) is None,
            },
    {
        proof {
            reveal_strlit("do");
            reveal_strlit("re");
            reveal_strlit("me");
            reveal_strlit("fa");
            reveal_strlit("sol");
            reveal_strlit("la");
            reveal_strlit("si");
            reveal_strlit("ti");
        }
        let n = s.len();
        if match_lit(s, i, "do") {
            Option::Some((Solfege::Do, i + 2))
        } else if match_lit(s, i, "re") {
            Option::Some((Solfege::Re, i + 2))
        } else if match_lit(s, i, "me") {
            Option::Some((Solfege::Me, i + 2))
        } else if match_lit(s, i, "fa") {
            Option::Some((Solfege::Fa, i + 2))
        } else if match_lit(s, i, "sol") {
            Option::Some((Solfege::Sol, i + 3))
        } else if match_lit(s, i, "la") {
            Option::Some((Solfege::La, i + 2))
        } else if match_lit(s, i, "si") {
            Option::Some((Solfege::Si, i + 2))
        } else if match_lit(s, i, "ti") {
            Option::Some((Solfege::Ti, i + 2))
        } else {
            Option::None
        }
    }
}

/// The solfège syllable at `i`, if any; `sol` is tried before `si`.
pub open spec fn sp_solfege(s: Seq<char>, i: int) -> Option<(Solfege, int)> {
    if has_lit(s, i, "do"@) {
        Option::Some((Solfege::Do, i + 2))
    } else if has_lit(s, i, "re"@) {
        Option::Some((Solfege::Re, i + 2))
    } else if has_lit(s, i, "me"@) {
        Option::Some((Solfege::Me, i + 2))
    } else if has_lit(s, i, "fa"@) {
        Option::Some((Solfege::Fa, i + 2))
    } else if has_lit(s, i, "sol"@) {
        Option::Some((Solfege::Sol, i + 3))
    } else if has_lit(s, i, "la"@) {
        Option::Some((Solfege::La, i + 2))
    } else if has_lit(s, i, "si"@) {
        Option::Some((Solfege::Si, i + 2))
    } else if has_lit(s, i, "ti"@) {
        Option::Some((Solfege::Ti, i + 2))
    } else {
        Option::None
    }
}

impl NoteName {
    pub fn diatonic_pitch(&self) -> (r: i32)
        ensures
            r == spec_name_diatonic_pitch(*self),
    {
        match self {
            NoteName::Empty => 0,
            NoteName::Diatonic(d) => d.diatonic_pitch(),
            NoteName::Chromatic(c) => c.diatonic_pitch(),
            NoteName::Solfege(s) => s.diatonic_pitch(),
        }
    }

    pub fn chromatic_pitch(&self) -> (r: i32)
        ensures
            r == spec_name_chromatic_pitch(*self),
    {
        match self {
            NoteName::Empty => 0,
            NoteName::Diatonic(d) => d.chromatic_pitch(),
            NoteName::Chromatic(c) => c.chromatic_pitch(),
            NoteName::Solfege(s) => s.chromatic_pitch(),
        }
    }
}

/// The note name at `i`: the `empty` placeholder first, then a chromatic
/// spelling, then a diatonic letter, then a solfège syllable.  The order
/// matters: chromatic spellings extend diatonic letters and must win.
pub open spec fn sp_note_name(s: Seq<char>, i: int) -> Option<(NoteName, int)> {
    if has_lit(s, i, "empty"@) {
        Option::Some((NoteName::Empty, i + 5))
    } else {
        match sp_chromatic(s, i) {
            Option::Some((c, j)) => Option::Some((NoteName::Chromatic(c), j)),
            Option::None => match sp_diatonic(s, i) {
                Option::Some((d, j)) => Option::Some((NoteName::Diatonic(d), j)),
                Option::None => match sp_solfege(s, i) {
                    Option::Some((v, j)) => Option::Some((NoteName::Solfege(v), j)),
                    Option::None => Option::None,
                },
            },
        }
    }
}

/// Parse a note name at `i`.
pub fn parse_note_name(s: &Vec<char>, i: usize) -> (r: Option<(NoteName, usize)>)
    requires
        i <= s@.len(),
    ensures
        match r {
            Option::Some((v, j)) => sp_note_name(s@, i as int) == Option::Some((v, j as int)) && i
                < j <= s@.len(),
            Option::None => sp_note_name(s@, i as int) is None,
        },
{
    let n = s.len();
    proof {
        reveal_strlit("empty");
        assert(n == s@.len());
    }
    if match_lit(s, i, "empty") {
        return Option::Some((NoteName::Empty, i + 5));
    }
    match Chromatic::parse(s, i) {
        Option::Some((c, j)) => Option::Some((NoteName::Chromatic(c), j)),
        Option::None => match Diatonic::parse(s, i) {
            Option::Some((d, j)) => Option::Some((NoteName::Diatonic(d), j)),
            Option::None => match Solfege::parse(s, i) {
                Option::Some((v, j)) => Option::Some((NoteName::Solfege(v), j)),
                Option::None => Option::None,
            },
        },
    }
}

/// A note: a name, an octave, an accidental, a base duration and its
/// rhythm dots.
#[derive(Clone, Copy, Debug, PartialEq, Eq, Structural)]
pub struct Note {
    pub name: NoteName,
    pub octave: i8,
    pub accidentals: Accidentals,
    pub duration: Duration,
    pub dots: Dots,
}

/// The duration of a note once its dots are applied:
/// `duration * (1 + dots fraction)`.
pub open spec fn spec_full_duration(duration: Duration, dots: Dots) -> Duration {
    spec_new_duration(
        duration.num * spec_dots_factor(dots).num,
        duration.denom * spec_dots_factor(dots).denom,
    )
}

impl Note {
    /// A note built from its five parts.
    pub fn new(name: NoteName, accidentals: Accidentals, octave: i8, duration: Duration, dots: Dots) -> (r: Note)
        ensures
            r == (Note { name, octave, accidentals, duration, dots }),
    {
        Note { name, octave, accidentals, duration, dots }
    }

    /// A natural whole note at octave one with the given name.
    pub fn from_name(name: NoteName) -> (r: Note)
        ensures
            r == (Note {
                name,
                octave: 1,
                accidentals: Accidentals::Natural,
                duration: Duration { num: 1, denom: 1 },
                dots: Dots::NoDot,
            }),
    {
        Note {
            name,
            octave: 1,
            accidentals: Accidentals::Natural,
            duration: Duration { num: 1, denom: 1 },
            dots: Dots::NoDot,
        }
    }

    /// The same note with the reduced duration `num / denom`.
    pub fn with_duration(self, num: u16, denom: u16) -> (r: Note)
        ensures
            r == (Note { duration: spec_new_duration(num as int, denom as int), ..self }),
    {
        Note { duration: Duration::new(num, denom), ..self }
    }

    /// The same note at another octave.
    pub fn with_octave(self, octave: i8) -> (r: Note)
        ensures
            r == (Note { octave, ..self }),
    {
        Note { octave, ..self }
    }

    /// The same note with another accidental.
    pub fn with_accidentals(self, accidentals: Accidentals) -> (r: Note)
        ensures
            r == (Note { accidentals, ..self }),
    {
        Note { accidentals, ..self }
    }

    /// The absolute diatonic scale step: seven steps per octave.
    pub fn diatonic_pitch(&self) -> (r: i32)
        ensures
            r == spec_name_diatonic_pitch(self.name) + 7 * (self.octave - 1),
    {
        self.name.diatonic_pitch() + 7 * (self.octave as i32 - 1)
    }

    /// The absolute chromatic pitch: twelve semitones per octave.
    pub fn chromatic_pitch(&self) -> (r: i32)
        ensures
            r == spec_name_chromatic_pitch(self.name) + 12 * (self.octave - 1),
    {
        self.name.chromatic_pitch() + 12 * (self.octave as i32 - 1)
    }

    /// A note is drawn with a stem unless it is a whole note.
    pub fn has_stem(&self) -> (r: bool)
        ensures
            r == (self.duration != Duration { num: 1, denom: 1 }),
    {
        !(self.duration.num == 1 && self.duration.denom == 1)
    }

    /// The stem direction when drawn.
    pub fn stem_direction(&self) -> (r: StemDirection)
        ensures
            r == StemDirection::Down,
    {
        StemDirection::Down
    }

    /// The number of beams of the six drawable durations: none down to a
    /// quarter note, then one per further halving.
    pub fn num_beams(&self) -> (r: u8)
        requires
            self.duration.num == 1,
            self.duration.denom == 1 || self.duration.denom == 2 || self.duration.denom == 4
                || self.duration.denom == 8 || self.duration.denom == 16 || self.duration.denom
                == 32,
        ensures
            self.duration.denom == 1 ==> r == 0,
            self.duration.denom == 2 ==> r == 0,
            self.duration.denom == 4 ==> r == 0,
            self.duration.denom == 8 ==> r == 1,
            self.duration.denom == 16 ==> r == 2,
            self.duration.denom == 32 ==> r == 3,
    {
        match self.duration.denom {
            1 => 0,
            2 => 0,
            4 => 0,
            8 => 1,
            16 => 2,
            _ => 3,
        }
    }

    /// The duration with dots applied.
    pub fn full_duration(&self) -> (r: Duration)
        requires
            self.duration.num * spec_dots_factor(self.dots).num <= u16::MAX,
            self.duration.denom * spec_dots_factor(self.dots).denom <= u16::MAX,
        ensures
            r == spec_full_duration(self.duration, self.dots),
            r.wf(),
    {
        self.duration.times(&self.dots.factor())
    }
}

} // verus!
