//! Tag identifiers: the closed set of canonical tag names, each spelled
//! in camel case in the textual language, plus a fixed table of short
//! aliases.

use crate::scan::chars_eq_lit;
use vstd::prelude::*;

verus! {

/// The identifier of a tag.
#[derive(Clone, Copy, Debug, PartialEq, Eq, Hash, Structural)]
pub enum TagId {
    Accidental,
    Alter,
    Accent,
    Bow,
    BreathMark,
    Fermata,
    Glissando,
    Marcato,
    PedalOn,
    PedalOff,
    Pizzicato,
    Slur,
    Staccato,
    Tenuto,
    Bar,
    BarFormat,
    DoubleBar,
    EndBar,
    Beam,
    BeamsAuto,
    BeamsOff,
    BeamsFull,
    FBeam,
    Clef,
    Key,
    Meter,
    Crescendo,
    Decrescendo,
    Intensity,
    Accolade,
    NewPage,
    NewLine,
    PageFormat,
    Staff,
    StaffFormat,
    StaffOff,
    StaffOn,
    SystemFormat,
    Auto,
    Space,
    Special,
    Cue,
    DisplayDuration,
    DotFormat,
    Grace,
    Harmonic,
    Mrest,
    NoteFormat,
    Octava,
    RestFormat,
    HeadsCenter,
    HeadsLeft,
    HeadsRight,
    HeadsNormal,
    HeadsReverse,
    StemsOff,
    StemsAuto,
    StemsDown,
    StemsUp,
    Tie,
    Tuplet,
    Arpeggio,
    Mordent,
    Trill,
    Turn,
    Coda,
    DaCapo,
    DaCapoAlFine,
    DaCoda,
    DalSegno,
    DalSegnoAlFine,
    Fine,
    RepeatBegin,
    RepeatEnd,
    Segno,
    Tremolo,
    Volta,
    Accelerando,
    Ritardando,
    Tempo,
    Composer,
    Fingering,
    Footer,
    Harmony,
    Instrument,
    Lyrics,
    Mark,
    Text,
    Title,
}

/// The canonical camel-case spelling of each tag identifier.
pub open spec fn spec_tag_id_name(id: TagId) -> Seq<char> {
    match id {
        TagId::Accidental => "accidental"@,
        TagId::Alter => "alter"@,
        TagId::Accent => "accent"@,
        TagId::Bow => "bow"@,
        TagId::BreathMark => "breathMark"@,
        TagId::Fermata => "fermata"@,
        TagId::Glissando => "glissando"@,
        TagId::Marcato => "marcato"@,
        TagId::PedalOn => "pedalOn"@,
        TagId::PedalOff => "pedalOff"@,
        TagId::Pizzicato => "pizzicato"@,
        TagId::Slur => "slur"@,
        TagId::Staccato => "staccato"@,
        TagId::Tenuto => "tenuto"@,
        TagId::Bar => "bar"@,
        TagId::BarFormat => "barFormat"@,
        TagId::DoubleBar => "doubleBar"@,
        TagId::EndBar => "endBar"@,
        TagId::Beam => "beam"@,
        TagId::BeamsAuto => "beamsAuto"@,
        TagId::BeamsOff => "beamsOff"@,
        TagId::BeamsFull => "beamsFull"@,
        TagId::FBeam => "fBeam"@,
        TagId::Clef => "clef"@,
        TagId::Key => "key"@,
        TagId::Meter => "meter"@,
        TagId::Crescendo => "crescendo"@,
        TagId::Decrescendo => "decrescendo"@,
        TagId::Intensity => "intensity"@,
        TagId::Accolade => "accolade"@,
        TagId::NewPage => "newPage"@,
        TagId::NewLine => "newLine"@,
        TagId::PageFormat => "pageFormat"@,
        TagId::Staff => "staff"@,
        TagId::StaffFormat => "staffFormat"@,
        TagId::StaffOff => "staffOff"@,
        TagId::StaffOn => "staffOn"@,
        TagId::SystemFormat => "systemFormat"@,
        TagId::Auto => "auto"@,
        TagId::Space => "space"@,
        TagId::Special => "special"@,
        TagId::Cue => "cue"@,
        TagId::DisplayDuration => "displayDuration"@,
        TagId::DotFormat => "dotFormat"@,
        TagId::Grace => "grace"@,
        TagId::Harmonic => "harmonic"@,
        TagId::Mrest => "mrest"@,
        TagId::NoteFormat => "noteFormat"@,
        TagId::Octava => "octava"@,
        TagId::RestFormat => "restFormat"@,
        TagId::HeadsCenter => "headsCenter"@,
        TagId::HeadsLeft => "headsLeft"@,
        TagId::HeadsRight => "headsRight"@,
        TagId::HeadsNormal => "headsNormal"@,
        TagId::HeadsReverse => "headsReverse"@,
        TagId::StemsOff => "stemsOff"@,
        TagId::StemsAuto => "stemsAuto"@,
        TagId::StemsDown => "stemsDown"@,
        TagId::StemsUp => "stemsUp"@,
        TagId::Tie => "tie"@,
        TagId::Tuplet => "tuplet"@,
        TagId::Arpeggio => "arpeggio"@,
        TagId::Mordent => "mordent"@,
        TagId::Trill => "trill"@,
        TagId::Turn => "turn"@,
        TagId::Coda => "coda"@,
        TagId::DaCapo => "daCapo"@,
        TagId::DaCapoAlFine => "daCapoAlFine"@,
        TagId::DaCoda => "daCoda"@,
        TagId::DalSegno => "dalSegno"@,
        TagId::DalSegnoAlFine => "dalSegnoAlFine"@,
        TagId::Fine => "fine"@,
        TagId::RepeatBegin => "repeatBegin"@,
        TagId::RepeatEnd => "repeatEnd"@,
        TagId::Segno => "segno"@,
        TagId::Tremolo => "tremolo"@,
        TagId::Volta => "volta"@,
        TagId::Accelerando => "accelerando"@,
        TagId::Ritardando => "ritardando"@,
        TagId::Tempo => "tempo"@,
        TagId::Composer => "composer"@,
        TagId::Fingering => "fingering"@,
        TagId::Footer => "footer"@,
        TagId::Harmony => "harmony"@,
        TagId::Instrument => "instrument"@,
        TagId::Lyrics => "lyrics"@,
        TagId::Mark => "mark"@,
        TagId::Text => "text"@,
        TagId::Title => "title"@,
    }
}

/// The identifier whose canonical spelling is `n`, if any.
pub open spec fn sp_tag_id_from_name(n: Seq<char>) -> Option<TagId> {
    if n == "accidental"@ {
        Option::Some(TagId::Accidental)
    } else if n == "alter"@ {
        Option::Some(TagId::Alter)
    } else if n == "accent"@ {
        Option::Some(TagId::Accent)
    } else if n == "bow"@ {
        Option::Some(TagId::Bow)
    } else if n == "breathMark"@ {
        Option::Some(TagId::BreathMark)
    } else if n == "fermata"@ {
        Option::Some(TagId::Fermata)
    } else if n == "glissando"@ {
        Option::Some(TagId::Glissando)
    } else if n == "marcato"@ {
        Option::Some(TagId::Marcato)
    } else if n == "pedalOn"@ {
        Option::Some(TagId::PedalOn)
    } else if n == "pedalOff"@ {
        Option::Some(TagId::PedalOff)
    } else if n == "pizzicato"@ {
        Option::Some(TagId::Pizzicato)
    } else if n == "slur"@ {
        Option::Some(TagId::Slur)
    } else if n == "staccato"@ {
        Option::Some(TagId::Staccato)
    } else if n == "tenuto"@ {
        Option::Some(TagId::Tenuto)
    } else if n == "bar"@ {
        Option::Some(TagId::Bar)
    } else if n == "barFormat"@ {
        Option::Some(TagId::BarFormat)
    } else if n == "doubleBar"@ {
        Option::Some(TagId::DoubleBar)
    } else if n == "endBar"@ {
        Option::Some(TagId::EndBar)
    } else if n == "beam"@ {
        Option::Some(TagId::Beam)
    } else if n == "beamsAuto"@ {
        Option::Some(TagId::BeamsAuto)
    } else if n == "beamsOff"@ {
        Option::Some(TagId::BeamsOff)
    } else if n == "beamsFull"@ {
        Option::Some(TagId::BeamsFull)
    } else if n == "fBeam"@ {
        Option::Some(TagId::FBeam)
    } else if n == "clef"@ {
        Option::Some(TagId::Clef)
    } else if n == "key"@ {
        Option::Some(TagId::Key)
    } else if n == "meter"@ {
        Option::Some(TagId::Meter)
    } else if n == "crescendo"@ {
        Option::Some(TagId::Crescendo)
    } else if n == "decrescendo"@ {
        Option::Some(TagId::Decrescendo)
    } else if n == "intensity"@ {
        Option::Some(TagId::Intensity)
    } else if n == "accolade"@ {
        Option::Some(TagId::Accolade)
    } else if n == "newPage"@ {
        Option::Some(TagId::NewPage)
    } else if n == "newLine"@ {
        Option::Some(TagId::NewLine)
    } else if n == "pageFormat"@ {
        Option::Some(TagId::PageFormat)
    } else if n == "staff"@ {
        Option::Some(TagId::Staff)
    } else if n == "staffFormat"@ {
        Option::Some(TagId::StaffFormat)
    } else if n == "staffOff"@ {
        Option::Some(TagId::StaffOff)
    } else if n == "staffOn"@ {
        Option::Some(TagId::StaffOn)
    } else if n == "systemFormat"@ {
        Option::Some(TagId::SystemFormat)
    } else if n == "auto"@ {
        Option::Some(TagId::Auto)
    } else if n == "space"@ {
        Option::Some(TagId::Space)
    } else if n == "special"@ {
        Option::Some(TagId::Special)
    } else if n == "cue"@ {
        Option::Some(TagId::Cue)
    } else if n == "displayDuration"@ {
        Option::Some(TagId::DisplayDuration)
    } else if n == "dotFormat"@ {
        Option::Some(TagId::DotFormat)
    } else if n == "grace"@ {
        Option::Some(TagId::Grace)
    } else if n == "harmonic"@ {
        Option::Some(TagId::Harmonic)
    } else if n == "mrest"@ {
        Option::Some(TagId::Mrest)
    } else if n == "noteFormat"@ {
        Option::Some(TagId::NoteFormat)
    } else if n == "octava"@ {
        Option::Some(TagId::Octava)
    } else if n == "restFormat"@ {
        Option::Some(TagId::RestFormat)
    } else if n == "headsCenter"@ {
        Option::Some(TagId::HeadsCenter)
    } else if n == "headsLeft"@ {
        Option::Some(TagId::HeadsLeft)
    } else if n == "headsRight"@ {
        Option::Some(TagId::HeadsRight)
    } else if n == "headsNormal"@ {
        Option::Some(TagId::HeadsNormal)
    } else if n == "headsReverse"@ {
        Option::Some(TagId::HeadsReverse)
    } else if n == "stemsOff"@ {
        Option::Some(TagId::StemsOff)
    } else if n == "stemsAuto"@ {
        Option::Some(TagId::StemsAuto)
    } else if n == "stemsDown"@ {
        Option::Some(TagId::StemsDown)
    } else if n == "stemsUp"@ {
        Option::Some(TagId::StemsUp)
    } else if n == "tie"@ {
        Option::Some(TagId::Tie)
    } else if n == "tuplet"@ {
        Option::Some(TagId::Tuplet)
    } else if n == "arpeggio"@ {
        Option::Some(TagId::Arpeggio)
    } else if n == "mordent"@ {
        Option::Some(TagId::Mordent)
    } else if n == "trill"@ {
        Option::Some(TagId::Trill)
    } else if n == "turn"@ {
        Option::Some(TagId::Turn)
    } else if n == "coda"@ {
        Option::Some(TagId::Coda)
    } else if n == "daCapo"@ {
        Option::Some(TagId::DaCapo)
    } else if n == "daCapoAlFine"@ {
        Option::Some(TagId::DaCapoAlFine)
    } else if n == "daCoda"@ {
        Option::Some(TagId::DaCoda)
    } else if n == "dalSegno"@ {
        Option::Some(TagId::DalSegno)
    } else if n == "dalSegnoAlFine"@ {
        Option::Some(TagId::DalSegnoAlFine)
    } else if n == "fine"@ {
        Option::Some(TagId::Fine)
    } else if n == "repeatBegin"@ {
        Option::Some(TagId::RepeatBegin)
    } else if n == "repeatEnd"@ {
        Option::Some(TagId::RepeatEnd)
    } else if n == "segno"@ {
        Option::Some(TagId::Segno)
    } else if n == "tremolo"@ {
        Option::Some(TagId::Tremolo)
    } else if n == "volta"@ {
        Option::Some(TagId::Volta)
    } else if n == "accelerando"@ {
        Option::Some(TagId::Accelerando)
    } else if n == "ritardando"@ {
        Option::Some(TagId::Ritardando)
    } else if n == "tempo"@ {
        Option::Some(TagId::Tempo)
    } else if n == "composer"@ {
        Option::Some(TagId::Composer)
    } else if n == "fingering"@ {
        Option::Some(TagId::Fingering)
    } else if n == "footer"@ {
        Option::Some(TagId::Footer)
    } else if n == "harmony"@ {
        Option::Some(TagId::Harmony)
    } else if n == "instrument"@ {
        Option::Some(TagId::Instrument)
    } else if n == "lyrics"@ {
        Option::Some(TagId::Lyrics)
    } else if n == "mark"@ {
        Option::Some(TagId::Mark)
    } else if n == "text"@ {
        Option::Some(TagId::Text)
    } else if n == "title"@ {
        Option::Some(TagId::Title)
    } else {
        Option::None
    }
}

/// The fixed alias table: each short spelling and the identifier it
/// resolves to.
pub open spec fn sp_tag_id_alias(n: Seq<char>) -> Option<TagId> {
    if n == "|"@ {
        Option::Some(TagId::Bar)
    } else if n == "acc"@ {
        Option::Some(TagId::Accidental)
    } else if n == "accol"@ {
        Option::Some(TagId::Accolade)
    } else if n == "cresc"@ {
        Option::Some(TagId::Crescendo)
    } else if n == "dim"@ {
        Option::Some(TagId::Decrescendo)
    } else if n == "instr"@ {
        Option::Some(TagId::Instrument)
    } else if n == "mord"@ {
        Option::Some(TagId::Mordent)
    } else if n == "pizz"@ {
        Option::Some(TagId::Pizzicato)
    } else if n == "set"@ {
        Option::Some(TagId::Auto)
    } else if n == "stacc"@ {
        Option::Some(TagId::Staccato)
    } else if n == "ten"@ {
        Option::Some(TagId::Tenuto)
    } else {
        Option::None
    }
}

/// An alias resolves through the fixed table, any other name through its
/// canonical spelling.
pub open spec fn sp_tag_id_lookup(n: Seq<char>) -> Option<TagId> {
    match sp_tag_id_alias(n) {
        Option::Some(id) => Option::Some(id),
        Option::None => sp_tag_id_from_name(n),
    }
}

impl TagId {
    /// The identifier whose canonical camel-case spelling is `name`.
    pub fn from_name(name: &Vec<char>) -> (r: Option<TagId>)
        ensures
            r == sp_tag_id_from_name(name@),
    {
        if chars_eq_lit(name, "accidental") {
            Option::Some(TagId::Accidental)
        } else if chars_eq_lit(name, "alter") {
            Option::Some(TagId::Alter)
        } else if chars_eq_lit(name, "accent") {
            Option::Some(TagId::Accent)
        } else if chars_eq_lit(name, "bow") {
            Option::Some(TagId::Bow)
        } else if chars_eq_lit(name, "breathMark") {
            Option::Some(TagId::BreathMark)
        } else if chars_eq_lit(name, "fermata") {
            Option::Some(TagId::Fermata)
        } else if chars_eq_lit(name, "glissando") {
            Option::Some(TagId::Glissando)
        } else if chars_eq_lit(name, "marcato") {
            Option::Some(TagId::Marcato)
        } else if chars_eq_lit(name, "pedalOn") {
            Option::Some(TagId::PedalOn)
        } else if chars_eq_lit(name, "pedalOff") {
            Option::Some(TagId::PedalOff)
        } else if chars_eq_lit(name, "pizzicato") {
            Option::Some(TagId::Pizzicato)
        } else if chars_eq_lit(name, "slur") {
            Option::Some(TagId::Slur)
        } else if chars_eq_lit(name, "staccato") {
            Option::Some(TagId::Staccato)
        } else if chars_eq_lit(name, "tenuto") {
            Option::Some(TagId::Tenuto)
        } else if chars_eq_lit(name, "bar") {
            Option::Some(TagId::Bar)
        } else if chars_eq_lit(name, "barFormat") {
            Option::Some(TagId::BarFormat)
        } else if chars_eq_lit(name, "doubleBar") {
            Option::Some(TagId::DoubleBar)
        } else if chars_eq_lit(name, "endBar") {
            Option::Some(TagId::EndBar)
        } else if chars_eq_lit(name, "beam") {
            Option::Some(TagId::Beam)
        } else if chars_eq_lit(name, "beamsAuto") {
            Option::Some(TagId::BeamsAuto)
        } else if chars_eq_lit(name, "beamsOff") {
            Option::Some(TagId::BeamsOff)
        } else if chars_eq_lit(name, "beamsFull") {
            Option::Some(TagId::BeamsFull)
        } else if chars_eq_lit(name, "fBeam") {
            Option::Some(TagId::FBeam)
        } else if chars_eq_lit(name, "clef") {
            Option::Some(TagId::Clef)
        } else if chars_eq_lit(name, "key") {
            Option::Some(TagId::Key)
        } else if chars_eq_lit(name, "meter") {
            Option::Some(TagId::Meter)
        } else if chars_eq_lit(name, "crescendo") {
            Option::Some(TagId::Crescendo)
        } else if chars_eq_lit(name, "decrescendo") {
            Option::Some(TagId::Decrescendo)
        } else if chars_eq_lit(name, "intensity") {
            Option::Some(TagId::Intensity)
        } else if chars_eq_lit(name, "accolade") {
            Option::Some(TagId::Accolade)
        } else if chars_eq_lit(name, "newPage") {
            Option::Some(TagId::NewPage)
        } else if chars_eq_lit(name, "newLine") {
            Option::Some(TagId::NewLine)
        } else if chars_eq_lit(name, "pageFormat") {
            Option::Some(TagId::PageFormat)
        } else if chars_eq_lit(name, "staff") {
            Option::Some(TagId::Staff)
        } else if chars_eq_lit(name, "staffFormat") {
            Option::Some(TagId::StaffFormat)
        } else if chars_eq_lit(name, "staffOff") {
            Option::Some(TagId::StaffOff)
        } else if chars_eq_lit(name, "staffOn") {
            Option::Some(TagId::StaffOn)
        } else if chars_eq_lit(name, "systemFormat") {
            Option::Some(TagId::SystemFormat)
        } else if chars_eq_lit(name, "auto") {
            Option::Some(TagId::Auto)
        } else if chars_eq_lit(name, "space") {
            Option::Some(TagId::Space)
        } else if chars_eq_lit(name, "special") {
            Option::Some(TagId::Special)
        } else if chars_eq_lit(name, "cue") {
            Option::Some(TagId::Cue)
        } else if chars_eq_lit(name, "displayDuration") {
            Option::Some(TagId::DisplayDuration)
        } else if chars_eq_lit(name, "dotFormat") {
            Option::Some(TagId::DotFormat)
        } else if chars_eq_lit(name, "grace") {
            Option::Some(TagId::Grace)
        } else if chars_eq_lit(name, "harmonic") {
            Option::Some(TagId::Harmonic)
        } else if chars_eq_lit(name, "mrest") {
            Option::Some(TagId::Mrest)
        } else if chars_eq_lit(name, "noteFormat") {
            Option::Some(TagId::NoteFormat)
        } else if chars_eq_lit(name, "octava") {
            Option::Some(TagId::Octava)
        } else if chars_eq_lit(name, "restFormat") {
            Option::Some(TagId::RestFormat)
        } else if chars_eq_lit(name, "headsCenter") {
            Option::Some(TagId::HeadsCenter)
        } else if chars_eq_lit(name, "headsLeft") {
            Option::Some(TagId::HeadsLeft)
        } else if chars_eq_lit(name, "headsRight") {
            Option::Some(TagId::HeadsRight)
        } else if chars_eq_lit(name, "headsNormal") {
            Option::Some(TagId::HeadsNormal)
        } else if chars_eq_lit(name, "headsReverse") {
            Option::Some(TagId::HeadsReverse)
        } else if chars_eq_lit(name, "stemsOff") {
            Option::Some(TagId::StemsOff)
        } else if chars_eq_lit(name, "stemsAuto") {
            Option::Some(TagId::StemsAuto)
        } else if chars_eq_lit(name, "stemsDown") {
            Option::Some(TagId::StemsDown)
        } else if chars_eq_lit(name, "stemsUp") {
            Option::Some(TagId::StemsUp)
        } else if chars_eq_lit(name, "tie") {
            Option::Some(TagId::Tie)
        } else if chars_eq_lit(name, "tuplet") {
            Option::Some(TagId::Tuplet)
        } else if chars_eq_lit(name, "arpeggio") {
            Option::Some(TagId::Arpeggio)
        } else if chars_eq_lit(name, "mordent") {
            Option::Some(TagId::Mordent)
        } else if chars_eq_lit(name, "trill") {
            Option::Some(TagId::Trill)
        } else if chars_eq_lit(name, "turn") {
            Option::Some(TagId::Turn)
        } else if chars_eq_lit(name, "coda") {
            Option::Some(TagId::Coda)
        } else if chars_eq_lit(name, "daCapo") {
            Option::Some(TagId::DaCapo)
        } else if chars_eq_lit(name, "daCapoAlFine") {
            Option::Some(TagId::DaCapoAlFine)
        } else if chars_eq_lit(name, "daCoda") {
            Option::Some(TagId::DaCoda)
        } else if chars_eq_lit(name, "dalSegno") {
            Option::Some(TagId::DalSegno)
        } else if chars_eq_lit(name, "dalSegnoAlFine") {
            Option::Some(TagId::DalSegnoAlFine)
        } else if chars_eq_lit(name, "fine") {
            Option::Some(TagId::Fine)
        } else if chars_eq_lit(name, "repeatBegin") {
            Option::Some(TagId::RepeatBegin)
        } else if chars_eq_lit(name, "repeatEnd") {
            Option::Some(TagId::RepeatEnd)
        } else if chars_eq_lit(name, "segno") {
            Option::Some(TagId::Segno)
        } else if chars_eq_lit(name, "tremolo") {
            Option::Some(TagId::Tremolo)
        } else if chars_eq_lit(name, "volta") {
            Option::Some(TagId::Volta)
        } else if chars_eq_lit(name, "accelerando") {
            Option::Some(TagId::Accelerando)
        } else if chars_eq_lit(name, "ritardando") {
            Option::Some(TagId::Ritardando)
        } else if chars_eq_lit(name, "tempo") {
            Option::Some(TagId::Tempo)
        } else if chars_eq_lit(name, "composer") {
            Option::Some(TagId::Composer)
        } else if chars_eq_lit(name, "fingering") {
            Option::Some(TagId::Fingering)
        } else if chars_eq_lit(name, "footer") {
            Option::Some(TagId::Footer)
        } else if chars_eq_lit(name, "harmony") {
            Option::Some(TagId::Harmony)
        } else if chars_eq_lit(name, "instrument") {
            Option::Some(TagId::Instrument)
        } else if chars_eq_lit(name, "lyrics") {
            Option::Some(TagId::Lyrics)
        } else if chars_eq_lit(name, "mark") {
            Option::Some(TagId::Mark)
        } else if chars_eq_lit(name, "text") {
            Option::Some(TagId::Text)
        } else if chars_eq_lit(name, "title") {
            Option::Some(TagId::Title)
        } else {
            Option::None
        }
    }

    /// Resolve a name through the alias table first, then through the
    /// canonical spellings.
    pub fn lookup(name: &Vec<char>) -> (r: Option<TagId>)
        ensures
            r == sp_tag_id_lookup(name@),
    {
        if chars_eq_lit(name, "|") {
            Option::Some(TagId::Bar)
        } else if chars_eq_lit(name, "acc") {
            Option::Some(TagId::Accidental)
        } else if chars_eq_lit(name, "accol") {
            Option::Some(TagId::Accolade)
        } else if chars_eq_lit(name, "cresc") {
            Option::Some(TagId::Crescendo)
        } else if chars_eq_lit(name, "dim") {
            Option::Some(TagId::Decrescendo)
        } else if chars_eq_lit(name, "instr") {
            Option::Some(TagId::Instrument)
        } else if chars_eq_lit(name, "mord") {
            Option::Some(TagId::Mordent)
        } else if chars_eq_lit(name, "pizz") {
            Option::Some(TagId::Pizzicato)
        } else if chars_eq_lit(name, "set") {
            Option::Some(TagId::Auto)
        } else if chars_eq_lit(name, "stacc") {
            Option::Some(TagId::Staccato)
        } else if chars_eq_lit(name, "ten") {
            Option::Some(TagId::Tenuto)
        } else {
            TagId::from_name(name)
        }
    }
}

} // verus!
