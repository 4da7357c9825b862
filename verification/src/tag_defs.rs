//! The tag schema: a table of tag definitions keyed by identifier.
//!
//! Each definition gives the shape the tag must take, a list of
//! alternative spellings that resolve to it, and declarations of the
//! parameters it documents.  The default table is permissive — most tags
//! accept any shape — except the span-like tags, which are declared as
//! ranges and so reject bare positional use.

use crate::scan::chars_eq_lit;
use crate::tag::TagType;
use crate::tag_id::TagId;
use crate::tag_id::sp_tag_id_from_name;
use vstd::prelude::*;
use vstd::string::StringExecFns;

verus! {

/// The declared type of a tag parameter.
#[derive(Clone, Copy, Debug, PartialEq, Eq, Structural)]
pub enum TagParamType {
    Boolean,
    Float,
    Integer,
    Str,
    StringOrInt,
    Unit,
}

/// The declaration of one tag parameter: its name, type and whether it
/// may be omitted.
#[derive(Debug)]
pub struct TagParamDefinition {
    pub name: String,
    pub ty: TagParamType,
    pub optional: bool,
}

/// The model of a parameter declaration.
#[verifier::ext_equal]
pub struct ParamDefM {
    pub name: Seq<char>,
    pub ty: TagParamType,
    pub optional: bool,
}

impl View for TagParamDefinition {
    type V = ParamDefM;

    open spec fn view(&self) -> ParamDefM {
        ParamDefM { name: self.name@, ty: self.ty, optional: self.optional }
    }
}

/// The schema entry of one tag.
#[derive(Debug)]
pub struct TagDefinition {
    pub ty: TagType,
    pub alternatives: Vec<String>,
    pub params: Vec<TagParamDefinition>,
}

/// The model of a schema entry.
#[verifier::ext_equal]
pub struct TagDefM {
    pub ty: TagType,
    pub alternatives: Seq<Seq<char>>,
    pub params: Seq<ParamDefM>,
}

impl View for TagDefinition {
    type V = TagDefM;

    open spec fn view(&self) -> TagDefM {
        TagDefM {
            ty: self.ty,
            alternatives: view_alts(self.alternatives@),
            params: view_param_defs(self.params@),
        }
    }
}

impl TagDefinition {
    /// A definition from its parts.
    pub fn new(ty: TagType, alternatives: Vec<String>, params: Vec<TagParamDefinition>) -> (r:
        TagDefinition)
        ensures
            r@ == (TagDefM {
                ty,
                alternatives: view_alts(alternatives@),
                params: view_param_defs(params@),
            }),
    {
        TagDefinition { ty, alternatives, params }
    }
}

/// The models of a list of alternative spellings.
pub open spec fn view_alts(alts: Seq<String>) -> Seq<Seq<char>> {
    alts.map_values(|a: String| a@)
}

/// The models of a list of parameter declarations.
pub open spec fn view_param_defs(params: Seq<TagParamDefinition>) -> Seq<ParamDefM> {
    params.map_values(|p: TagParamDefinition| p@)
}

/// The models of a list of schema entries.
pub open spec fn view_def_entries(entries: Seq<(TagId, TagDefinition)>) -> Seq<(TagId, TagDefM)> {
    entries.map_values(|e: (TagId, TagDefinition)| (e.0, e.1@))
}

/// The models of an alias table.
pub open spec fn view_aliases(aliases: Seq<(String, TagId)>) -> Seq<(Seq<char>, TagId)> {
    aliases.map_values(|a: (String, TagId)| (a.0@, a.1))
}

/// The whole schema: the entries and the alias table derived from their
/// alternative spellings.
pub struct TagDefinitions {
    pub entries: Vec<(TagId, TagDefinition)>,
    pub lookup: Vec<(String, TagId)>,
}

/// The model of the schema.
#[verifier::ext_equal]
pub struct DefsM {
    pub entries: Seq<(TagId, TagDefM)>,
    pub aliases: Seq<(Seq<char>, TagId)>,
}

impl View for TagDefinitions {
    type V = DefsM;

    open spec fn view(&self) -> DefsM {
        DefsM {
            entries: view_def_entries(self.entries@),
            aliases: view_aliases(self.lookup@),
        }
    }
}

/// The first entry for `id`, scanning from the front.
pub open spec fn spec_defs_get(entries: Seq<(TagId, TagDefM)>, id: TagId) -> Option<TagDefM>
    decreases entries.len(),
{
    if entries.len() == 0 {
        Option::None
    } else if entries.first().0 == id {
        Option::Some(entries.first().1)
    } else {
        spec_defs_get(entries.drop_first(), id)
    }
}

/// The first alias equal to `n`, scanning from the front.
pub open spec fn spec_alias_lookup(aliases: Seq<(Seq<char>, TagId)>, n: Seq<char>) -> Option<
    TagId,
>
    decreases aliases.len(),
{
    if aliases.len() == 0 {
        Option::None
    } else if aliases.first().0 == n {
        Option::Some(aliases.first().1)
    } else {
        spec_alias_lookup(aliases.drop_first(), n)
    }
}

/// Name resolution through a schema: aliases first, canonical spellings
/// second.
pub open spec fn spec_defs_lookup(defs: DefsM, n: Seq<char>) -> Option<TagId> {
    match spec_alias_lookup(defs.aliases, n) {
        Option::Some(id) => Option::Some(id),
        Option::None => sp_tag_id_from_name(n),
    }
}

impl TagDefinitions {
    /// The entry for `id`, if the schema has one.
    pub fn get(&self, id: TagId) -> (r: Option<&TagDefinition>)
        ensures
            match r {
                Option::Some(d) => spec_defs_get(self@.entries, id) == Option::Some(d@),
                Option::None => spec_defs_get(self@.entries, id) is None,
            },
    {
        let mut k: usize = 0;
        proof {
            assert(self@.entries.subrange(0, self@.entries.len() as int) =~= self@.entries);
        }
        while k < self.entries.len()
            invariant
                0 <= k <= self.entries@.len(),
                spec_defs_get(self@.entries, id) == spec_defs_get(
                    self@.entries.subrange(k as int, self@.entries.len() as int),
                    id,
                ),
            decreases self.entries@.len() - k,
        {
            proof {
                let tail = self@.entries.subrange(k as int, self@.entries.len() as int);
                assert(tail.first() == self@.entries[k as int]);
                assert(tail.drop_first() =~= self@.entries.subrange(
                    k + 1 as int,
                    self@.entries.len() as int,
                ));
            }
            if self.entries[k].0 == id {
                return Option::Some(&self.entries[k].1);
            }
            k = k + 1;
        }
        proof {
            assert(self@.entries.subrange(
                self@.entries.len() as int,
                self@.entries.len() as int,
            ) =~= Seq::<(TagId, TagDefM)>::empty());
        }
        Option::None
    }

    /// Resolve a tag name: the alias table first, then the canonical
    /// spellings.
    pub fn lookup(&self, name: &Vec<char>) -> (r: Option<TagId>)
        ensures
            r == spec_defs_lookup(self@, name@),
    {
        let mut k: usize = 0;
        proof {
            assert(self@.aliases.subrange(0, self@.aliases.len() as int) =~= self@.aliases);
        }
        while k < self.lookup.len()
            invariant
                0 <= k <= self.lookup@.len(),
                spec_alias_lookup(self@.aliases, name@) == spec_alias_lookup(
                    self@.aliases.subrange(k as int, self@.aliases.len() as int),
                    name@,
                ),
            decreases self.lookup@.len() - k,
        {
            proof {
                let tail = self@.aliases.subrange(k as int, self@.aliases.len() as int);
                assert(tail.first() == self@.aliases[k as int]);
                assert(tail.drop_first() =~= self@.aliases.subrange(
                    k + 1 as int,
                    self@.aliases.len() as int,
                ));
            }
            if chars_eq_lit_string(name, &self.lookup[k].0) {
                return Option::Some(self.lookup[k].1);
            }
            k = k + 1;
        }
        proof {
            assert(self@.aliases.subrange(
                self@.aliases.len() as int,
                self@.aliases.len() as int,
            ) =~= Seq::<(Seq<char>, TagId)>::empty());
        }
        TagId::from_name(name)
    }
}

/// Whether the characters of the vector are exactly those of the string.
fn chars_eq_lit_string(v: &Vec<char>, s: &String) -> (r: bool)
    ensures
        r == (v@ == s@),
{
    let n = s.as_str().unicode_len();
    if n != v.len() {
        proof {
            assert(v@.len() != s@.len());
        }
        return false;
    }
    let mut k: usize = 0;
    while k < n
        invariant
            0 <= k <= n,
            n == s@.len(),
            n == v@.len(),
            forall|m: int| 0 <= m < k ==> v@[m] == #[trigger] s@[m],
        decreases n - k,
    {
        if v[k] != s.as_str().get_char(k) {
            proof {
                assert(v@[k as int] != s@[k as int]);
            }
            return false;
        }
        k = k + 1;
    }
    proof {
        assert(v@ =~= s@);
    }
    true
}

/// The default shape of each tag: the span-like tags are ranges, every
/// other tag accepts any shape.
pub open spec fn spec_default_ty(id: TagId) -> TagType {
    match id {

        TagId::Accidental => TagType::Any,
        TagId::Alter => TagType::Any,
        TagId::Accent => TagType::Any,
        TagId::Bow => TagType::Any,
        TagId::BreathMark => TagType::Any,
        TagId::Fermata => TagType::Any,
        TagId::Glissando => TagType::Any,
        TagId::Marcato => TagType::Any,
        TagId::PedalOn => TagType::Any,
        TagId::PedalOff => TagType::Any,
        TagId::Pizzicato => TagType::Any,
        TagId::Slur => TagType::Range,
        TagId::Staccato => TagType::Any,
        TagId::Tenuto => TagType::Any,
        TagId::Bar => TagType::Any,
        TagId::BarFormat => TagType::Any,
        TagId::DoubleBar => TagType::Any,
        TagId::EndBar => TagType::Any,
        TagId::Beam => TagType::Any,
        TagId::BeamsAuto => TagType::Any,
        TagId::BeamsOff => TagType::Any,
        TagId::BeamsFull => TagType::Any,
        TagId::FBeam => TagType::Any,
        TagId::Clef => TagType::Any,
        TagId::Key => TagType::Any,
        TagId::Meter => TagType::Any,
        TagId::Crescendo => TagType::Range,
        TagId::Decrescendo => TagType::Range,
        TagId::Intensity => TagType::Any,
        TagId::Accolade => TagType::Any,
        TagId::NewPage => TagType::Any,
        TagId::NewLine => TagType::Any,
        TagId::PageFormat => TagType::Any,
        TagId::Staff => TagType::Any,
        TagId::StaffFormat => TagType::Any,
        TagId::StaffOff => TagType::Any,
        TagId::StaffOn => TagType::Any,
        TagId::SystemFormat => TagType::Any,
        TagId::Auto => TagType::Any,
        TagId::Space => TagType::Any,
        TagId::Special => TagType::Any,
        TagId::Cue => TagType::Any,
        TagId::DisplayDuration => TagType::Any,
        TagId::DotFormat => TagType::Any,
        TagId::Grace => TagType::Any,
        TagId::Harmonic => TagType::Any,
        TagId::Mrest => TagType::Any,
        TagId::NoteFormat => TagType::Any,
        TagId::Octava => TagType::Any,
        TagId::RestFormat => TagType::Any,
        TagId::HeadsCenter => TagType::Any,
        TagId::HeadsLeft => TagType::Any,
        TagId::HeadsRight => TagType::Any,
        TagId::HeadsNormal => TagType::Any,
        TagId::HeadsReverse => TagType::Any,
        TagId::StemsOff => TagType::Any,
        TagId::StemsAuto => TagType::Any,
        TagId::StemsDown => TagType::Any,
        TagId::StemsUp => TagType::Any,
        TagId::Tie => TagType::Range,
        TagId::Tuplet => TagType::Range,
        TagId::Arpeggio => TagType::Any,
        TagId::Mordent => TagType::Any,
        TagId::Trill => TagType::Any,
        TagId::Turn => TagType::Any,
        TagId::Coda => TagType::Any,
        TagId::DaCapo => TagType::Any,
        TagId::DaCapoAlFine => TagType::Any,
        TagId::DaCoda => TagType::Any,
        TagId::DalSegno => TagType::Any,
        TagId::DalSegnoAlFine => TagType::Any,
        TagId::Fine => TagType::Any,
        TagId::RepeatBegin => TagType::Any,
        TagId::RepeatEnd => TagType::Any,
        TagId::Segno => TagType::Any,
        TagId::Tremolo => TagType::Any,
        TagId::Volta => TagType::Any,
        TagId::Accelerando => TagType::Range,
        TagId::Ritardando => TagType::Range,
        TagId::Tempo => TagType::Any,
        TagId::Composer => TagType::Any,
        TagId::Fingering => TagType::Any,
        TagId::Footer => TagType::Any,
        TagId::Harmony => TagType::Any,
        TagId::Instrument => TagType::Any,
        TagId::Lyrics => TagType::Any,
        TagId::Mark => TagType::Any,
        TagId::Text => TagType::Any,
        TagId::Title => TagType::Any,
    }
}

/// The default alias spellings of each tag.
pub open spec fn spec_default_alts(id: TagId) -> Seq<Seq<char>> {
    match id {

        TagId::Accidental => seq!["acc"@],
        TagId::Pizzicato => seq!["pizz"@],
        TagId::Staccato => seq!["stacc"@],
        TagId::Tenuto => seq!["ten"@],
        TagId::Bar => seq!["|"@],
        TagId::Crescendo => seq!["cresc"@],
        TagId::Decrescendo => seq!["dim"@],
        TagId::Accolade => seq!["accol"@],
        TagId::Auto => seq!["set"@],
        TagId::Mordent => seq!["mord"@],
        TagId::Instrument => seq!["instr"@],
        _ => Seq::empty(),
    }
}

/// The default schema has one entry per tag identifier, in declaration
/// order, each with its default shape and aliases and no parameter
/// declarations.
pub open spec fn spec_default_entry(id: TagId) -> (TagId, TagDefM) {
    (id, TagDefM { ty: spec_default_ty(id), alternatives: spec_default_alts(id), params: Seq::empty() })
}

/// The order of the default entries.
pub open spec fn spec_default_order() -> Seq<TagId> {
    seq![

        TagId::Accidental,
        TagId::Alter,
        TagId::Accent,
        TagId::Bow,
        TagId::BreathMark,
        TagId::Fermata,
        TagId::Glissando,
        TagId::Marcato,
        TagId::PedalOn,
        TagId::PedalOff,
        TagId::Pizzicato,
        TagId::Slur,
        TagId::Staccato,
        TagId::Tenuto,
        TagId::Bar,
        TagId::BarFormat,
        TagId::DoubleBar,
        TagId::EndBar,
        TagId::Beam,
        TagId::BeamsAuto,
        TagId::BeamsOff,
        TagId::BeamsFull,
        TagId::FBeam,
        TagId::Clef,
        TagId::Key,
        TagId::Meter,
        TagId::Crescendo,
        TagId::Decrescendo,
        TagId::Intensity,
        TagId::Accolade,
        TagId::NewPage,
        TagId::NewLine,
        TagId::PageFormat,
        TagId::Staff,
        TagId::StaffFormat,
        TagId::StaffOff,
        TagId::StaffOn,
        TagId::SystemFormat,
        TagId::Auto,
        TagId::Space,
        TagId::Special,
        TagId::Cue,
        TagId::DisplayDuration,
        TagId::DotFormat,
        TagId::Grace,
        TagId::Harmonic,
        TagId::Mrest,
        TagId::NoteFormat,
        TagId::Octava,
        TagId::RestFormat,
        TagId::HeadsCenter,
        TagId::HeadsLeft,
        TagId::HeadsRight,
        TagId::HeadsNormal,
        TagId::HeadsReverse,
        TagId::StemsOff,
        TagId::StemsAuto,
        TagId::StemsDown,
        TagId::StemsUp,
        TagId::Tie,
        TagId::Tuplet,
        TagId::Arpeggio,
        TagId::Mordent,
        TagId::Trill,
        TagId::Turn,
        TagId::Coda,
        TagId::DaCapo,
        TagId::DaCapoAlFine,
        TagId::DaCoda,
        TagId::DalSegno,
        TagId::DalSegnoAlFine,
        TagId::Fine,
        TagId::RepeatBegin,
        TagId::RepeatEnd,
        TagId::Segno,
        TagId::Tremolo,
        TagId::Volta,
        TagId::Accelerando,
        TagId::Ritardando,
        TagId::Tempo,
        TagId::Composer,
        TagId::Fingering,
        TagId::Footer,
        TagId::Harmony,
        TagId::Instrument,
        TagId::Lyrics,
        TagId::Mark,
        TagId::Text,
        TagId::Title,
    ]
}

/// The model of the default schema.
pub open spec fn spec_default_defs() -> DefsM {
    DefsM {
        entries: spec_default_order().map_values(|id: TagId| spec_default_entry(id)),
        aliases: seq![

            ("acc"@, TagId::Accidental),
            ("pizz"@, TagId::Pizzicato),
            ("stacc"@, TagId::Staccato),
            ("ten"@, TagId::Tenuto),
            ("|"@, TagId::Bar),
            ("cresc"@, TagId::Crescendo),
            ("dim"@, TagId::Decrescendo),
            ("accol"@, TagId::Accolade),
            ("set"@, TagId::Auto),
            ("mord"@, TagId::Mordent),
            ("instr"@, TagId::Instrument),
        ],
    }
}

/// A definition without alternatives or parameter declarations.
fn plain_def(ty: TagType) -> (r: TagDefinition)
    ensures
        r@ == (TagDefM { ty, alternatives: Seq::<Seq<char>>::empty(), params: Seq::<ParamDefM>::empty() }),
{
    let r = TagDefinition { ty, alternatives: Vec::new(), params: Vec::new() };
    proof {
        assert(view_alts(r.alternatives@) =~= Seq::<Seq<char>>::empty());
        assert(view_param_defs(r.params@) =~= Seq::<ParamDefM>::empty());
    }
    r
}

/// A definition with one alternative spelling and no parameter
/// declarations.
fn alias_def(ty: TagType, alt: &str) -> (r: TagDefinition)
    ensures
        r@ == (TagDefM { ty, alternatives: seq![alt@], params: Seq::<ParamDefM>::empty() }),
{
    let mut alternatives: Vec<String> = Vec::new();
    alternatives.push(String::from_str(alt));
    let r = TagDefinition { ty, alternatives, params: Vec::new() };
    proof {
        assert(view_alts(r.alternatives@) =~= seq![alt@]);
        assert(view_param_defs(r.params@) =~= Seq::<ParamDefM>::empty());
    }
    r
}

impl Default for TagDefinitions {
    /// The built-in schema, one entry per tag identifier.
    #[verifier::rlimit(100)]
    fn default() -> (r: Self)
        ensures
            r@ == spec_default_defs(),
    {
        let mut entries: Vec<(TagId, TagDefinition)> = Vec::new();
        entries.push((TagId::Accidental, alias_def(TagType::Any, "acc")));
        entries.push((TagId::Alter, plain_def(TagType::Any)));
        entries.push((TagId::Accent, plain_def(TagType::Any)));
        entries.push((TagId::Bow, plain_def(TagType::Any)));
        entries.push((TagId::BreathMark, plain_def(TagType::Any)));
        entries.push((TagId::Fermata, plain_def(TagType::Any)));
        entries.push((TagId::Glissando, plain_def(TagType::Any)));
        entries.push((TagId::Marcato, plain_def(TagType::Any)));
        entries.push((TagId::PedalOn, plain_def(TagType::Any)));
        entries.push((TagId::PedalOff, plain_def(TagType::Any)));
        entries.push((TagId::Pizzicato, alias_def(TagType::Any, "pizz")));
        entries.push((TagId::Slur, plain_def(TagType::Range)));
        entries.push((TagId::Staccato, alias_def(TagType::Any, "stacc")));
        entries.push((TagId::Tenuto, alias_def(TagType::Any, "ten")));
        entries.push((TagId::Bar, alias_def(TagType::Any, "|")));
        entries.push((TagId::BarFormat, plain_def(TagType::Any)));
        entries.push((TagId::DoubleBar, plain_def(TagType::Any)));
        entries.push((TagId::EndBar, plain_def(TagType::Any)));
        entries.push((TagId::Beam, plain_def(TagType::Any)));
        entries.push((TagId::BeamsAuto, plain_def(TagType::Any)));
        entries.push((TagId::BeamsOff, plain_def(TagType::Any)));
        entries.push((TagId::BeamsFull, plain_def(TagType::Any)));
        entries.push((TagId::FBeam, plain_def(TagType::Any)));
        entries.push((TagId::Clef, plain_def(TagType::Any)));
        entries.push((TagId::Key, plain_def(TagType::Any)));
        entries.push((TagId::Meter, plain_def(TagType::Any)));
        entries.push((TagId::Crescendo, alias_def(TagType::Range, "cresc")));
        entries.push((TagId::Decrescendo, alias_def(TagType::Range, "dim")));
        entries.push((TagId::Intensity, plain_def(TagType::Any)));
        entries.push((TagId::Accolade, alias_def(TagType::Any, "accol")));
        entries.push((TagId::NewPage, plain_def(TagType::Any)));
        entries.push((TagId::NewLine, plain_def(TagType::Any)));
        entries.push((TagId::PageFormat, plain_def(TagType::Any)));
        entries.push((TagId::Staff, plain_def(TagType::Any)));
        entries.push((TagId::StaffFormat, plain_def(TagType::Any)));
        entries.push((TagId::StaffOff, plain_def(TagType::Any)));
        entries.push((TagId::StaffOn, plain_def(TagType::Any)));
        entries.push((TagId::SystemFormat, plain_def(TagType::Any)));
        entries.push((TagId::Auto, alias_def(TagType::Any, "set")));
        entries.push((TagId::Space, plain_def(TagType::Any)));
        entries.push((TagId::Special, plain_def(TagType::Any)));
        entries.push((TagId::Cue, plain_def(TagType::Any)));
        entries.push((TagId::DisplayDuration, plain_def(TagType::Any)));
        entries.push((TagId::DotFormat, plain_def(TagType::Any)));
        entries.push((TagId::Grace, plain_def(TagType::Any)));
        entries.push((TagId::Harmonic, plain_def(TagType::Any)));
        entries.push((TagId::Mrest, plain_def(TagType::Any)));
        entries.push((TagId::NoteFormat, plain_def(TagType::Any)));
        entries.push((TagId::Octava, plain_def(TagType::Any)));
        entries.push((TagId::RestFormat, plain_def(TagType::Any)));
        entries.push((TagId::HeadsCenter, plain_def(TagType::Any)));
        entries.push((TagId::HeadsLeft, plain_def(TagType::Any)));
        entries.push((TagId::HeadsRight, plain_def(TagType::Any)));
        entries.push((TagId::HeadsNormal, plain_def(TagType::Any)));
        entries.push((TagId::HeadsReverse, plain_def(TagType::Any)));
        entries.push((TagId::StemsOff, plain_def(TagType::Any)));
        entries.push((TagId::StemsAuto, plain_def(TagType::Any)));
        entries.push((TagId::StemsDown, plain_def(TagType::Any)));
        entries.push((TagId::StemsUp, plain_def(TagType::Any)));
        entries.push((TagId::Tie, plain_def(TagType::Range)));
        entries.push((TagId::Tuplet, plain_def(TagType::Range)));
        entries.push((TagId::Arpeggio, plain_def(TagType::Any)));
        entries.push((TagId::Mordent, alias_def(TagType::Any, "mord")));
        entries.push((TagId::Trill, plain_def(TagType::Any)));
        entries.push((TagId::Turn, plain_def(TagType::Any)));
        entries.push((TagId::Coda, plain_def(TagType::Any)));
        entries.push((TagId::DaCapo, plain_def(TagType::Any)));
        entries.push((TagId::DaCapoAlFine, plain_def(TagType::Any)));
        entries.push((TagId::DaCoda, plain_def(TagType::Any)));
        entries.push((TagId::DalSegno, plain_def(TagType::Any)));
        entries.push((TagId::DalSegnoAlFine, plain_def(TagType::Any)));
        entries.push((TagId::Fine, plain_def(TagType::Any)));
        entries.push((TagId::RepeatBegin, plain_def(TagType::Any)));
        entries.push((TagId::RepeatEnd, plain_def(TagType::Any)));
        entries.push((TagId::Segno, plain_def(TagType::Any)));
        entries.push((TagId::Tremolo, plain_def(TagType::Any)));
        entries.push((TagId::Volta, plain_def(TagType::Any)));
        entries.push((TagId::Accelerando, plain_def(TagType::Range)));
        entries.push((TagId::Ritardando, plain_def(TagType::Range)));
        entries.push((TagId::Tempo, plain_def(TagType::Any)));
        entries.push((TagId::Composer, plain_def(TagType::Any)));
        entries.push((TagId::Fingering, plain_def(TagType::Any)));
        entries.push((TagId::Footer, plain_def(TagType::Any)));
        entries.push((TagId::Harmony, plain_def(TagType::Any)));
        entries.push((TagId::Instrument, alias_def(TagType::Any, "instr")));
        entries.push((TagId::Lyrics, plain_def(TagType::Any)));
        entries.push((TagId::Mark, plain_def(TagType::Any)));
        entries.push((TagId::Text, plain_def(TagType::Any)));
        entries.push((TagId::Title, plain_def(TagType::Any)));
        let mut lookup: Vec<(String, TagId)> = Vec::new();
        lookup.push((String::from_str("acc"), TagId::Accidental));
        lookup.push((String::from_str("pizz"), TagId::Pizzicato));
        lookup.push((String::from_str("stacc"), TagId::Staccato));
        lookup.push((String::from_str("ten"), TagId::Tenuto));
        lookup.push((String::from_str("|"), TagId::Bar));
        lookup.push((String::from_str("cresc"), TagId::Crescendo));
        lookup.push((String::from_str("dim"), TagId::Decrescendo));
        lookup.push((String::from_str("accol"), TagId::Accolade));
        lookup.push((String::from_str("set"), TagId::Auto));
        lookup.push((String::from_str("mord"), TagId::Mordent));
        lookup.push((String::from_str("instr"), TagId::Instrument));
        let r = TagDefinitions { entries, lookup };
        proof {
            assert(r@.entries =~~= spec_default_defs().entries);
            assert(r@.aliases =~~= spec_default_defs().aliases);
            assert(r@ =~~= spec_default_defs());
        }
        r
    }
}

/// Whether an alias is already present in the table being built.
fn alias_present(acc: &Vec<(String, TagId)>, name: &String) -> (r: bool)
    ensures
        r == (spec_alias_lookup(view_aliases(acc@), name@) is Some),
{
    let ghost aliases = view_aliases(acc@);
    let mut k: usize = 0;
    proof {
        assert(aliases.subrange(0, aliases.len() as int) =~= aliases);
    }
    while k < acc.len()
        invariant
            0 <= k <= acc@.len(),
            aliases == acc@.map_values(|a: (String, TagId)| (a.0@, a.1)),
            spec_alias_lookup(aliases, name@) == spec_alias_lookup(
                aliases.subrange(k as int, aliases.len() as int),
                name@,
            ),
        decreases acc@.len() - k,
    {
        proof {
            let tail = aliases.subrange(k as int, aliases.len() as int);
            assert(tail.first() == aliases[k as int]);
            assert(tail.drop_first() =~= aliases.subrange(k + 1 as int, aliases.len() as int));
        }
        if acc[k].0 == *name {
            return true;
        }
        k = k + 1;
    }
    proof {
        assert(aliases.subrange(aliases.len() as int, aliases.len() as int) =~= Seq::<
            (Seq<char>, TagId),
        >::empty());
    }
    false
}

/// The alias table that a list of entries induces: each entry's
/// alternatives in order, rejected when a spelling occurs twice.
pub open spec fn spec_add_alts(
    acc: Seq<(Seq<char>, TagId)>,
    id: TagId,
    alts: Seq<Seq<char>>,
) -> Option<Seq<(Seq<char>, TagId)>>
    decreases alts.len(),
{
    if alts.len() == 0 {
        Option::Some(acc)
    } else if spec_alias_lookup(acc, alts.first()) is Some {
        Option::None
    } else {
        spec_add_alts(acc.push((alts.first(), id)), id, alts.drop_first())
    }
}

/// The alias table built from the entries in order, or nothing when a
/// spelling occurs twice.
pub open spec fn spec_build_lookup_from(
    acc: Seq<(Seq<char>, TagId)>,
    entries: Seq<(TagId, TagDefM)>,
) -> Option<Seq<(Seq<char>, TagId)>>
    decreases entries.len(),
{
    if entries.len() == 0 {
        Option::Some(acc)
    } else {
        match spec_add_alts(acc, entries.first().0, entries.first().1.alternatives) {
            Option::Some(acc2) => spec_build_lookup_from(acc2, entries.drop_first()),
            Option::None => Option::None,
        }
    }
}

/// The alias table of a list of entries.
pub open spec fn spec_build_lookup(entries: Seq<(TagId, TagDefM)>) -> Option<
    Seq<(Seq<char>, TagId)>,
> {
    spec_build_lookup_from(Seq::empty(), entries)
}

/// Build the alias table of the entries, failing when two entries claim
/// one spelling.
pub fn build_lookup(entries: &Vec<(TagId, TagDefinition)>) -> (r: Option<Vec<(String, TagId)>>)
    ensures
        r is Some ==> spec_build_lookup(view_def_entries(entries@)) == Option::Some(
            view_aliases(r.unwrap()@),
        ),
        r is None ==> spec_build_lookup(view_def_entries(entries@)) is None,
{
    let ghost entries_m = view_def_entries(entries@);
    let mut acc: Vec<(String, TagId)> = Vec::new();
    proof {
        assert(view_aliases(acc@) =~= Seq::<(Seq<char>, TagId)>::empty());
    }
    let mut k: usize = 0;
    proof {
        assert(entries_m.subrange(0, entries_m.len() as int) =~= entries_m);
    }
    while k < entries.len()
        invariant
            0 <= k <= entries@.len(),
            entries_m == view_def_entries(entries@),
            entries_m.len() == entries@.len(),
            spec_build_lookup(entries_m) == spec_build_lookup_from(
                view_aliases(acc@),
                entries_m.subrange(k as int, entries_m.len() as int),
            ),
        decreases entries@.len() - k,
    {
        proof {
            let tail = entries_m.subrange(k as int, entries_m.len() as int);
            assert(tail.first() == entries_m[k as int]);
            assert(tail.drop_first() =~= entries_m.subrange(
                k + 1 as int,
                entries_m.len() as int,
            ));
        }
        let id = entries[k].0;
        let alts = &entries[k].1.alternatives;
        let ghost alts_m = entries_m[k as int].1.alternatives;
        let ghost acc_start = view_aliases(acc@);
        let mut j: usize = 0;
        proof {
            assert(alts_m.subrange(0, alts_m.len() as int) =~= alts_m);
        }
        while j < alts.len()
            invariant
                0 <= j <= alts@.len(),
                alts_m == view_alts(alts@),
                alts_m.len() == alts@.len(),
                entries_m == view_def_entries(entries@),
                spec_build_lookup(entries_m) == (match spec_add_alts(acc_start, id, alts_m) {
                    Option::Some(acc2) => spec_build_lookup_from(
                        acc2,
                        entries_m.subrange(k + 1 as int, entries_m.len() as int),
                    ),
                    Option::None => Option::None::<Seq<(Seq<char>, TagId)>>,
                }),
                spec_add_alts(acc_start, id, alts_m) == spec_add_alts(
                    view_aliases(acc@),
                    id,
                    alts_m.subrange(j as int, alts_m.len() as int),
                ),
            decreases alts@.len() - j,
        {
            proof {
                let atail = alts_m.subrange(j as int, alts_m.len() as int);
                assert(atail.first() == alts_m[j as int]);
                assert(atail.drop_first() =~= alts_m.subrange(
                    j + 1 as int,
                    alts_m.len() as int,
                ));
            }
            if alias_present(&acc, &alts[j]) {
                proof {
                    assert(spec_add_alts(
                        view_aliases(acc@),
                        id,
                        alts_m.subrange(j as int, alts_m.len() as int),
                    ) is None);
                    assert(spec_add_alts(acc_start, id, alts_m) is None);
                    assert(spec_build_lookup(entries_m) is None);
                }
                return Option::None;
            }
            let ghost before = acc@;
            acc.push((alts[j].clone(), id));
            proof {
                assert(view_aliases(acc@) =~= view_aliases(before).push((alts_m[j as int], id)));
            }
            j = j + 1;
        }
        proof {
            assert(alts_m.subrange(alts_m.len() as int, alts_m.len() as int) =~= Seq::<
                Seq<char>,
            >::empty());
        }
        k = k + 1;
    }
    proof {
        assert(entries_m.subrange(entries_m.len() as int, entries_m.len() as int) =~= Seq::<
            (TagId, TagDefM),
        >::empty());
    }
    Option::Some(acc)
}

impl TagDefinitions {
    /// A schema from explicit entries; fails when two entries claim one
    /// alternative spelling.
    pub fn new(entries: Vec<(TagId, TagDefinition)>) -> (r: Option<TagDefinitions>)
        ensures
            match r {
                Option::Some(d) => {
                    &&& spec_build_lookup(view_def_entries(entries@)) == Option::Some(d@.aliases)
                    &&& d@.entries == view_def_entries(entries@)
                },
                Option::None => spec_build_lookup(view_def_entries(entries@)) is None,
            },
    {
        match build_lookup(&entries) {
            Option::Some(lookup) => Option::Some(TagDefinitions { entries, lookup }),
            Option::None => Option::None,
        }
    }
}

} // verus!
