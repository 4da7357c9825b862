//! The recursive-descent grammar.
//!
//! Every production has a spec twin over `Seq<char>` that pins down
//! exactly which input it consumes, what value it yields, how it
//! threads the parse context, and on which inputs it fails with which
//! error.  The executable parsers are proved equal to their twins.
//!
//! Failure semantics follow the language: the first failure aborts the
//! whole parse and carries the offending position; a tag whose shape
//! disagrees with the schema aborts with a type mismatch; an identifier
//! the schema does not know aborts as unknown.  A failing spec twin
//! also carries the context as it stood at the failure point, so each
//! parser's contract pins the final context on the error arm as well —
//! in particular, a tag the validator rejects is never registered.
//!
//! The recursive spec functions guard every recursive call on a bounds
//! check of the position it advances to, so termination is structural;
//! on reachable inputs the guards always hold, and the executable
//! parsers test the same conditions so that they equal their twins
//! branch for branch.
//!
//! The grammar is deterministic — each production is chosen by looking
//! at the next character — so the context is only ever mutated on the
//! success path of a production, never by an abandoned alternative.

use crate::context::Context;
use crate::context::CtxM;
use crate::context::ctx_m_wf;
use crate::dots::Dots;
use crate::dots::sp_dots;
use crate::duration::Duration;
use crate::duration::spec_new_duration;
use crate::error::ParseError;
use crate::event::parsed_dur_wf;
use crate::note::Note;
use crate::note::parse_note_name;
use crate::note::sp_note_name;
use crate::accidentals::Accidentals;
use crate::accidentals::sp_accidentals;
use crate::rest::Rest;
use crate::scan::has_lit;
use crate::scan::match_lit;
use crate::scan::scan_i8;
use crate::scan::scan_uint;
use crate::scan::skip_ws;
use crate::scan::sp_i8;
use crate::scan::sp_uint;
use crate::scan::sp_ws;
use crate::scan::sp_alpha_end;
use crate::chord::ChordM;
use crate::event::EventM;
use crate::event::spec_max_full;
use crate::tag::TagM;
use crate::tag::TagType;
use crate::tag_defs::DefsM;
use crate::tag_defs::spec_defs_lookup;
use crate::tag_id::TagId;
use crate::tag_param::TagParamM;
use crate::tag_param::sp_param;
use crate::tag_validator::spec_validate;
use crate::chord::Chord;
use crate::event::Event;
use crate::event::clone_events;
use crate::event::clone_params;
use crate::event::event_m_wf;
use crate::event::events_m_wf;
use crate::event::max_full_duration;
use crate::event::view_events;
use crate::event::view_params;
use crate::event::tag_m_wf;
use crate::scan::alpha_end;
use crate::scan::subchars;
use crate::tag::Tag;
use crate::tag_param::TagParam;
use crate::tag_param::param_m_wf;
use crate::context::spec_get_tag;
use crate::voice::Voice;
use crate::voice::VoiceM;
use crate::voice::view_voices;
use crate::comment::spec_all_comments;
use crate::score::Score;
use crate::score::spec_group;
use vstd::prelude::*;

verus! {

/// The duration suffix at `i`: `*num`, `*num/denom` or `/denom`,
/// optionally followed by a literal `ms` marker.  One of `*` or `/` must
/// be present, but a `*` whose number fails to read leaves everything
/// unconsumed and yields the whole-note duration, exactly as the
/// combinator grammar behaves.
pub open spec fn sp_duration(s: Seq<char>, i: int) -> Option<(Duration, int)> {
    if 0 <= i < s.len() && (s[i] == '*' || s[i] == '/') {
        let (num, j): (int, int) = if s[i] == '*' {
            match sp_uint(s, i + 1, 255) {
                Option::Some((v, j)) => (v as int, j),
                Option::None => (1, i),
            }
        } else {
            (1, i)
        };
        let (den, k): (int, int) = if j < s.len() && s[j] == '/' {
            match sp_uint(s, j + 1, 255) {
                Option::Some((v, k)) => (v as int, k),
                Option::None => (1, j),
            }
        } else {
            (1, j)
        };
        let e: int = if has_lit(s, k, "ms"@) {
            k + 2
        } else {
            k
        };
        Option::Some((spec_new_duration(num, den), e))
    } else {
        Option::None
    }
}

impl Duration {
    /// Parse a duration suffix at `i`.
    pub fn parse(s: &Vec<char>, i: usize) -> (r: Option<(Duration, usize)>)
        requires
            i <= s@.len(),
        ensures
            match r {
                Option::Some((d, j)) => sp_duration(s@, i as int) == Option::Some((d, j as int))
                    && i <= j <= s@.len() && parsed_dur_wf(d),
                Option::None => sp_duration(s@, i as int) is None,
            },
    {
        let n = s.len();
        if !(i < n && (s[i] == '*' || s[i] == '/')) {
            return Option::None;
        }
        let (num, j): (u16, usize) = if s[i] == '*' {
            match scan_uint(s, i + 1, 255) {
                Option::Some((v, j)) => (v as u16, j),
                Option::None => (1, i),
            }
        } else {
            (1, i)
        };
        let (den, k): (u16, usize) = if j < n && s[j] == '/' {
            match scan_uint(s, j + 1, 255) {
                Option::Some((v, k)) => (v as u16, k),
                Option::None => (1, j),
            }
        } else {
            (1, j)
        };
        proof {
            reveal_strlit("ms");
        }
        let e: usize = if match_lit(s, k, "ms") {
            k + 2
        } else {
            k
        };
        let d = Duration::new(num, den);
        proof {
            if num == 0 || den == 0 {
                reveal_with_fuel(crate::duration::spec_gcd, 3);
            } else {
                crate::duration::lemma_new_bounds(num as int, den as int);
            }
        }
        Option::Some((d, e))
    }
}

/// The note at `i` under the context: a name, an accidental run, an
/// optional octave, an optional duration and dots, with trailing
/// whitespace consumed.  An omitted octave or duration is taken from the
/// context, and whichever values are used overwrite the context for the
/// next sibling.
pub open spec fn sp_note(s: Seq<char>, i: int, ctx: CtxM) -> Result<(Note, int, CtxM), (ParseError, CtxM)> {
    match sp_note_name(s, i) {
        Option::None => Result::Err((ParseError::Syntax { pos: i as usize }, ctx)),
        Option::Some((name, j)) => match sp_accidentals(s, j) {
            Option::None => Result::Err((ParseError::Syntax { pos: j as usize }, ctx)),
            Option::Some((acc, k)) => {
                let (oct, k2): (i8, int) = match sp_i8(s, k) {
                    Option::Some((o, k2)) => (o, k2),
                    Option::None => (ctx.octave, k),
                };
                let (dur, k3): (Duration, int) = match sp_duration(s, k2) {
                    Option::Some((d, k3)) => (d, k3),
                    Option::None => (ctx.duration, k2),
                };
                let (dots, k4) = sp_dots(s, k3);
                let k5 = sp_ws(s, k4);
                let note = Note { name, octave: oct, accidentals: acc, duration: dur, dots };
                let ctx2 = CtxM { octave: oct, duration: dur, ..ctx };
                Result::Ok((note, k5, ctx2))
            },
        },
    }
}

impl Note {
    /// Parse a note at `i`, threading the context.
    pub fn parse(s: &Vec<char>, i: usize, ctx: &mut Context) -> (r: Result<
        (Note, usize),
        ParseError,
    >)
        requires
            i <= s@.len(),
        ensures
            final(ctx).defs@ == old(ctx).defs@,
            match r {
                Result::Ok((note, j)) => sp_note(s@, i as int, old(ctx)@) == Result::Ok::<
                    (Note, int, CtxM),
                    (ParseError, CtxM),
                >((note, j as int, final(ctx)@)) && i < j <= s@.len() && (ctx_m_wf(old(ctx)@) ==> ctx_m_wf(final(ctx)@)
                    && parsed_dur_wf(note.duration)),
                Result::Err(e) => sp_note(s@, i as int, old(ctx)@) == Result::Err::<
                    (Note, int, CtxM),
                    (ParseError, CtxM),
                >((e, final(ctx)@)) && final(ctx)@ == old(ctx)@,
            },
    {
        let (name, j) = match parse_note_name(s, i) {
            Option::Some(p) => p,
            Option::None => {
                return Result::Err(ParseError::Syntax { pos: i });
            },
        };
        let (acc, k) = match Accidentals::parse(s, j) {
            Option::Some(p) => p,
            Option::None => {
                return Result::Err(ParseError::Syntax { pos: j });
            },
        };
        let (oct, k2): (i8, usize) = match scan_i8(s, k) {
            Option::Some((o, k2)) => (o, k2),
            Option::None => (ctx.octave, k),
        };
        let (dur, k3): (Duration, usize) = match Duration::parse(s, k2) {
            Option::Some((d, k3)) => (d, k3),
            Option::None => (ctx.duration, k2),
        };
        let (dots, k4) = Dots::parse(s, k3);
        let k5 = skip_ws(s, k4);
        let note = Note { name, octave: oct, accidentals: acc, duration: dur, dots };
        ctx.octave = oct;
        ctx.duration = dur;
        proof {
            assert(ctx@ =~= (CtxM { octave: oct, duration: dur, ..old(ctx)@ }));
        }
        Result::Ok((note, k5))
    }
}

/// The rest at `i` under the context: an underscore, an optional
/// duration and dots.  The duration used, explicit or inherited,
/// overwrites the context's implicit duration.
pub open spec fn sp_rest(s: Seq<char>, i: int, ctx: CtxM) -> Result<(Rest, int, CtxM), (ParseError, CtxM)> {
    if 0 <= i < s.len() && s[i] == '_' {
        let (dur, k): (Duration, int) = match sp_duration(s, i + 1) {
            Option::Some((d, k)) => (d, k),
            Option::None => (ctx.duration, i + 1),
        };
        let (dots, k2) = sp_dots(s, k);
        Result::Ok((Rest { duration: dur, dots }, k2, CtxM { duration: dur, ..ctx }))
    } else {
        Result::Err((ParseError::Syntax { pos: i as usize }, ctx))
    }
}

impl Rest {
    /// Parse a rest at `i`, threading the context.
    pub fn parse(s: &Vec<char>, i: usize, ctx: &mut Context) -> (r: Result<
        (Rest, usize),
        ParseError,
    >)
        requires
            i <= s@.len(),
        ensures
            final(ctx).defs@ == old(ctx).defs@,
            match r {
                Result::Ok((rest, j)) => sp_rest(s@, i as int, old(ctx)@) == Result::Ok::<
                    (Rest, int, CtxM),
                    (ParseError, CtxM),
                >((rest, j as int, final(ctx)@)) && i < j <= s@.len() && (ctx_m_wf(old(ctx)@) ==> ctx_m_wf(final(ctx)@)
                    && parsed_dur_wf(rest.duration)),
                Result::Err(e) => sp_rest(s@, i as int, old(ctx)@) == Result::Err::<
                    (Rest, int, CtxM),
                    (ParseError, CtxM),
                >((e, final(ctx)@)) && final(ctx)@ == old(ctx)@,
            },
    {
        if !(i < s.len() && s[i] == '_') {
            return Result::Err(ParseError::Syntax { pos: i });
        }
        let (dur, k): (Duration, usize) = match Duration::parse(s, i + 1) {
            Option::Some((d, k)) => (d, k),
            Option::None => (ctx.duration, i + 1),
        };
        let (dots, k2) = Dots::parse(s, k);
        ctx.duration = dur;
        proof {
            assert(ctx@ =~= (CtxM { duration: dur, ..old(ctx)@ }));
        }
        Result::Ok((Rest { duration: dur, dots }, k2))
    }
}

/// A character that can start an event: a note name or `empty` letter,
/// a brace, a rest, a bar, or a backslash.
pub open spec fn is_starter(c: char) -> bool {
    ||| c == 'a' || c == 'b' || c == 'c' || c == 'd' || c == 'e' || c == 'f' || c == 'g'
    ||| c == 'h' || c == 'i' || c == 'l' || c == 'm' || c == 'r' || c == 's' || c == 't'
    ||| c == '{' || c == '_' || c == '|' || c == '\\'
}

/// Whether `c` can start an event.
pub fn starter_char(c: char) -> (r: bool)
    ensures
        r == is_starter(c),
{
    c == 'a' || c == 'b' || c == 'c' || c == 'd' || c == 'e' || c == 'f' || c == 'g' || c == 'h'
        || c == 'i' || c == 'l' || c == 'm' || c == 'r' || c == 's' || c == 't' || c == '{' || c
        == '_' || c == '|' || c == '\\'
}

/// The comma-separated parameter list at `i`: the first parameter, then
/// any number of comma-led ones.  A comma after which no parameter can
/// be read is left unconsumed and ends the list.
pub open spec fn sp_params(s: Seq<char>, i: int) -> Option<(Seq<TagParamM>, int)> {
    match sp_param(s, i) {
        Option::None => Option::None,
        Option::Some((p, j)) => if i < j <= s.len() {
            sp_params_rest(s, j, seq![p])
        } else {
            Option::None
        },
    }
}

/// The remainder of a parameter list after `acc`.
pub open spec fn sp_params_rest(s: Seq<char>, j: int, acc: Seq<TagParamM>) -> Option<
    (Seq<TagParamM>, int),
>
    decreases s.len() - j,
    when 0 <= j <= s.len()
{
    if j < s.len() && s[j] == ',' {
        let jw = sp_ws(s, j + 1);
        if j < jw <= s.len() {
            match sp_param(s, jw) {
                Option::None => Option::Some((acc, j)),
                Option::Some((p, j2)) => if j2 > j && j2 <= s.len() {
                    sp_params_rest(s, j2, acc.push(p))
                } else {
                    Option::Some((acc, j))
                },
            }
        } else {
            Option::Some((acc, j))
        }
    } else {
        Option::Some((acc, j))
    }
}

/// The name ends with the given suffix.
pub open spec fn ends_with(name: Seq<char>, sfx: Seq<char>) -> bool {
    name.len() >= sfx.len() && name.subrange(name.len() - sfx.len(), name.len() as int) == sfx
}

/// Resolve a tag identifier: the schema's aliases and the canonical
/// spellings first; a name that ends in `Begin` or `End` without being a
/// name itself is stripped, resolved again, and marked as the opener or
/// closer of a pair.
pub open spec fn sp_resolve_tag_name(defs: DefsM, name: Seq<char>) -> Option<
    (TagId, Option<bool>),
> {
    match spec_defs_lookup(defs, name) {
        Option::Some(id) => Option::Some((id, Option::None)),
        Option::None => if ends_with(name, "Begin"@) {
            match spec_defs_lookup(defs, name.subrange(0, name.len() - 5)) {
                Option::Some(id) => Option::Some((id, Option::Some(true))),
                Option::None => Option::None,
            }
        } else if ends_with(name, "End"@) {
            match spec_defs_lookup(defs, name.subrange(0, name.len() - 3)) {
                Option::Some(id) => Option::Some((id, Option::Some(false))),
                Option::None => Option::None,
            }
        } else {
            Option::None
        },
    }
}

/// The shape a tag occurrence takes: a stripped `Begin`/`End` name wins,
/// then a parenthesized body makes a range, and a bare tag is a
/// position.
pub open spec fn sp_tag_shape(marker: Option<bool>, sfx: u8, has_events: bool) -> TagType {
    match marker {
        Option::Some(true) => TagType::Begin(sfx),
        Option::Some(false) => TagType::End(sfx),
        Option::None => if has_events {
            TagType::Range
        } else {
            TagType::Position
        },
    }
}

/// Finish a tag: infer its shape, validate it against the schema, and
/// register it in the context.
pub open spec fn sp_tag_finish(
    id: TagId,
    marker: Option<bool>,
    sfx: u8,
    params: Seq<TagParamM>,
    evs: Seq<EventM>,
    has_events: bool,
    end: int,
    defs: DefsM,
    ctx: CtxM,
) -> Result<(TagM, int, CtxM), (ParseError, CtxM)> {
    let ty = sp_tag_shape(marker, sfx, has_events);
    let t = TagM { id, ty, params, events: evs };
    match spec_validate(t, defs.entries) {
        Result::Ok(u) => Result::Ok((t, end, CtxM { tags: ctx.tags.push(t), ..ctx })),
        Result::Err(e) => Result::Err((e, ctx)),
    }
}

/// A tag whose shape the validator rejects is not registered: the
/// context a failing tag production hands back is exactly the one it was
/// given — holding the registrations of nested productions that
/// succeeded earlier, but no entry for the failing occurrence itself.
pub proof fn lemma_rejected_tag_not_registered(
    id: TagId,
    marker: Option<bool>,
    sfx: u8,
    params: Seq<TagParamM>,
    evs: Seq<EventM>,
    has_events: bool,
    end: int,
    defs: DefsM,
    ctx: CtxM,
)
    ensures
        match sp_tag_finish(id, marker, sfx, params, evs, has_events, end, defs, ctx) {
            Result::Ok(o) => true,
            Result::Err((e, c)) => c == ctx,
        },
{
}

/// The tag at `i`: a backslash and a letter run, or the bar alias `|`;
/// an optional `:digits` pairing suffix; optional angle-bracketed
/// parameters; an optional parenthesized body of nested events.  The
/// validated tag is registered in the context.
pub open spec fn sp_tag(s: Seq<char>, i: int, defs: DefsM, ctx: CtxM) -> Result<
    (TagM, int, CtxM),
    (ParseError, CtxM),
>
    decreases s.len() - i, 8int,
    when 0 <= i <= s.len()
{
    if i < s.len() && s[i] == '\\' {
        let j = sp_alpha_end(s, i + 1);
        if i + 1 < j <= s.len() {
            sp_tag_suffix(s, i + 1, s.subrange(i + 1, j), j, defs, ctx)
        } else {
            Result::Err((ParseError::Syntax { pos: (i + 1) as usize }, ctx))
        }
    } else if i < s.len() && s[i] == '|' {
        sp_tag_suffix(s, i, seq!['|'], i + 1, defs, ctx)
    } else {
        Result::Err((ParseError::Syntax { pos: i as usize }, ctx))
    }
}

/// The pairing suffix and the whitespace after a tag's name.
pub open spec fn sp_tag_suffix(
    s: Seq<char>,
    npos: int,
    name: Seq<char>,
    j: int,
    defs: DefsM,
    ctx: CtxM,
) -> Result<(TagM, int, CtxM), (ParseError, CtxM)>
    decreases s.len() - j, 7int,
    when 0 <= j <= s.len()
{
    if j < s.len() && s[j] == ':' {
        match sp_uint(s, j + 1, 255) {
            Option::None => Result::Err((ParseError::Syntax { pos: (j + 1) as usize }, ctx)),
            Option::Some((v, jn)) => {
                let j3 = sp_ws(s, jn);
                if j <= j3 <= s.len() {
                    sp_tag_params(s, npos, name, v as u8, j3, defs, ctx)
                } else {
                    Result::Err((ParseError::Syntax { pos: j as usize }, ctx))
                }
            },
        }
    } else {
        let j3 = sp_ws(s, j);
        if j <= j3 <= s.len() {
            sp_tag_params(s, npos, name, 0, j3, defs, ctx)
        } else {
            Result::Err((ParseError::Syntax { pos: j as usize }, ctx))
        }
    }
}

/// Resolve the tag's name and read its parameter list, if any.
pub open spec fn sp_tag_params(
    s: Seq<char>,
    npos: int,
    name: Seq<char>,
    sfx: u8,
    j3: int,
    defs: DefsM,
    ctx: CtxM,
) -> Result<(TagM, int, CtxM), (ParseError, CtxM)>
    decreases s.len() - j3, 6int,
    when 0 <= j3 <= s.len()
{
    match sp_resolve_tag_name(defs, name) {
        Option::None => Result::Err((ParseError::UnknownTag { pos: npos as usize }, ctx)),
        Option::Some((id, marker)) => if j3 < s.len() && s[j3] == '<' {
            let jp = sp_ws(s, j3 + 1);
            if j3 < jp <= s.len() {
                match sp_params(s, jp) {
                    Option::None => Result::Err((ParseError::Syntax { pos: jp as usize }, ctx)),
                    Option::Some((params, q)) => if q < s.len() && s[q] == '>' {
                        let j4 = sp_ws(s, q + 1);
                        if j3 < j4 <= s.len() {
                            sp_tag_events(s, id, marker, sfx, params, j4, defs, ctx)
                        } else {
                            Result::Err((ParseError::Syntax { pos: q as usize }, ctx))
                        }
                    } else {
                        Result::Err((ParseError::Syntax { pos: q as usize }, ctx))
                    },
                }
            } else {
                Result::Err((ParseError::Syntax { pos: j3 as usize }, ctx))
            }
        } else {
            sp_tag_events(s, id, marker, sfx, Seq::empty(), j3, defs, ctx)
        },
    }
}

/// Read the tag's parenthesized body of nested events, if any, then
/// finish the tag.
pub open spec fn sp_tag_events(
    s: Seq<char>,
    id: TagId,
    marker: Option<bool>,
    sfx: u8,
    params: Seq<TagParamM>,
    j4: int,
    defs: DefsM,
    ctx: CtxM,
) -> Result<(TagM, int, CtxM), (ParseError, CtxM)>
    decreases s.len() - j4, 5int,
    when 0 <= j4 <= s.len()
{
    if j4 < s.len() && s[j4] == '(' {
        let je = sp_ws(s, j4 + 1);
        if j4 < je <= s.len() {
            match sp_events(s, je, defs, ctx) {
                Result::Err(e) => Result::Err(e),
                Result::Ok((evs, q, ctx2)) => if q < s.len() && s[q] == ')' {
                    let end = sp_ws(s, q + 1);
                    if q < end <= s.len() {
                        sp_tag_finish(id, marker, sfx, params, evs, true, end, defs, ctx2)
                    } else {
                        Result::Err((ParseError::Syntax { pos: q as usize }, ctx2))
                    }
                } else {
                    Result::Err((ParseError::Syntax { pos: q as usize }, ctx2))
                },
            }
        } else {
            Result::Err((ParseError::Syntax { pos: j4 as usize }, ctx))
        }
    } else {
        sp_tag_finish(id, marker, sfx, params, Seq::empty(), false, j4, defs, ctx)
    }
}

/// The chord at `i`: a brace-delimited event list; its duration is the
/// largest full duration among its members.
pub open spec fn sp_chord(s: Seq<char>, i: int, defs: DefsM, ctx: CtxM) -> Result<
    (ChordM, int, CtxM),
    (ParseError, CtxM),
>
    decreases s.len() - i, 9int,
    when 0 <= i <= s.len()
{
    if i < s.len() && s[i] == '{' {
        let jw = sp_ws(s, i + 1);
        if i < jw <= s.len() {
            match sp_events(s, jw, defs, ctx) {
                Result::Err(e) => Result::Err(e),
                Result::Ok((evs, k, ctx2)) => if k < s.len() && s[k] == '}' {
                    let end = sp_ws(s, k + 1);
                    Result::Ok((ChordM { events: evs, duration: spec_max_full(evs) }, end, ctx2))
                } else {
                    Result::Err((ParseError::Syntax { pos: k as usize }, ctx2))
                },
            }
        } else {
            Result::Err((ParseError::Syntax { pos: i as usize }, ctx))
        }
    } else {
        Result::Err((ParseError::Syntax { pos: i as usize }, ctx))
    }
}

/// The event at `i`: the first character decides — a backslash or bar
/// opens a tag, a brace a chord, an underscore a rest, and a note
/// otherwise; a non-starter fails.
pub open spec fn sp_event(s: Seq<char>, i: int, defs: DefsM, ctx: CtxM) -> Result<
    (EventM, int, CtxM),
    (ParseError, CtxM),
>
    decreases s.len() - i, 10int,
    when 0 <= i <= s.len()
{
    if i < s.len() && is_starter(s[i]) {
        if s[i] == '\\' || s[i] == '|' {
            match sp_tag(s, i, defs, ctx) {
                Result::Ok((t, j, c)) => Result::Ok((EventM::Tag(t), j, c)),
                Result::Err(e) => Result::Err(e),
            }
        } else if s[i] == '{' {
            match sp_chord(s, i, defs, ctx) {
                Result::Ok((ch, j, c)) => Result::Ok((EventM::Chord(ch), j, c)),
                Result::Err(e) => Result::Err(e),
            }
        } else if s[i] == '_' {
            match sp_rest(s, i, ctx) {
                Result::Ok((rs, j, c)) => Result::Ok((EventM::Rest(rs), j, c)),
                Result::Err(e) => Result::Err(e),
            }
        } else {
            match sp_note(s, i, ctx) {
                Result::Ok((n, j, c)) => Result::Ok((EventM::Note(n), j, c)),
                Result::Err(e) => Result::Err(e),
            }
        }
    } else {
        Result::Err((ParseError::Syntax { pos: i as usize }, ctx))
    }
}

/// The event list at `i`: one or more events, separated by whitespace
/// and optional commas; the list ends before the first position where no
/// further event starts.
pub open spec fn sp_events(s: Seq<char>, i: int, defs: DefsM, ctx: CtxM) -> Result<
    (Seq<EventM>, int, CtxM),
    (ParseError, CtxM),
>
    decreases s.len() - i, 11int,
    when 0 <= i <= s.len()
{
    match sp_event(s, i, defs, ctx) {
        Result::Err(e) => Result::Err(e),
        Result::Ok((e, j, ctx2)) => if i < j <= s.len() {
            sp_events_rest(s, j, defs, ctx2, seq![e])
        } else {
            Result::Err((ParseError::Syntax { pos: i as usize }, ctx2))
        },
    }
}

/// The remainder of an event list after `acc`: an optional comma, then
/// whitespace, then another event while one starts there; a failure of a
/// started event aborts the parse.
pub open spec fn sp_events_rest(
    s: Seq<char>,
    j: int,
    defs: DefsM,
    ctx: CtxM,
    acc: Seq<EventM>,
) -> Result<(Seq<EventM>, int, CtxM), (ParseError, CtxM)>
    decreases s.len() - j, 12int,
    when 0 <= j <= s.len()
{
    let jc: int = if j < s.len() && s[j] == ',' {
        j + 1
    } else {
        j
    };
    let jw = sp_ws(s, jc);
    if j <= jw <= s.len() && jw < s.len() && is_starter(s[jw]) {
        match sp_event(s, jw, defs, ctx) {
            Result::Err(e) => Result::Err(e),
            Result::Ok((e, j2, ctx2)) => if j < j2 <= s.len() {
                sp_events_rest(s, j2, defs, ctx2, acc.push(e))
            } else {
                Result::Err((ParseError::Syntax { pos: jw as usize }, ctx2))
            },
        }
    } else {
        Result::Ok((acc, j, ctx))
    }
}

/// Parse a comma-separated parameter list at `i`.
pub fn parse_params(s: &Vec<char>, i: usize) -> (r: Option<(Vec<TagParam>, usize)>)
    requires
        i <= s@.len(),
    ensures
        match r {
            Option::Some((ps, j)) => sp_params(s@, i as int) == Option::Some(
                (view_params(ps@), j as int),
            ) && i < j <= s@.len() && (forall|k: int|
                0 <= k < ps@.len() ==> param_m_wf(#[trigger] view_params(ps@)[k])),
            Option::None => sp_params(s@, i as int) is None,
        },
{
    let (p0, j0) = match TagParam::parse(s, i) {
        Option::Some(p) => p,
        Option::None => {
            return Option::None;
        },
    };
    let mut acc: Vec<TagParam> = Vec::new();
    acc.push(p0);
    let mut j = j0;
    proof {
        assert(view_params(acc@) =~= seq![p0@]);
    }
    loop
        invariant
            i < j <= s@.len(),
            sp_params(s@, i as int) == sp_params_rest(s@, j as int, view_params(acc@)),
            forall|k: int| 0 <= k < acc@.len() ==> param_m_wf(#[trigger] view_params(acc@)[k]),
        decreases s@.len() - j,
    {
        if j < s.len() && s[j] == ',' {
            let jw = skip_ws(s, j + 1);
            match TagParam::parse(s, jw) {
                Option::None => {
                    return Option::Some((acc, j));
                },
                Option::Some((p, j2)) => {
                    if j2 > j {
                        let ghost before = acc@;
                        acc.push(p);
                        proof {
                            assert(view_params(acc@) =~= view_params(before).push(p@));
                        }
                        j = j2;
                    } else {
                        return Option::Some((acc, j));
                    }
                },
            }
        } else {
            return Option::Some((acc, j));
        }
    }
}

/// Whether the vector's characters end with the literal.
pub fn chars_end_with(v: &Vec<char>, lit: &str) -> (r: bool)
    ensures
        r == ends_with(v@, lit@),
{
    let n = lit.unicode_len();
    let vn = v.len();
    if vn < n {
        return false;
    }
    let start = vn - n;
    let mut k: usize = 0;
    while k < n
        invariant
            0 <= k <= n,
            n == lit@.len(),
            vn == v@.len(),
            start == v@.len() - n,
            start + n == v@.len(),
            forall|m: int| 0 <= m < k ==> v@[start + m] == #[trigger] lit@[m],
        decreases n - k,
    {
        let idx = start + k;
        if v[idx] != lit.get_char(k) {
            proof {
                assert(v@.subrange(start as int, v@.len() as int)[k as int] != lit@[k as int]);
            }
            return false;
        }
        k = k + 1;
    }
    proof {
        assert(v@.subrange(start as int, v@.len() as int) =~= lit@);
    }
    true
}

impl Tag {
    /// Parse a tag at `i`, threading the context: the validated tag is
    /// also registered in the context's tag registry.
    pub fn parse(s: &Vec<char>, i: usize, ctx: &mut Context) -> (r: Result<
        (Tag, usize),
        ParseError,
    >)
        requires
            i <= s@.len(),
            ctx_m_wf(old(ctx)@),
        ensures
            final(ctx).defs@ == old(ctx).defs@,
            match r {
                Result::Ok((t, j)) => sp_tag(s@, i as int, old(ctx).defs@, old(ctx)@)
                    == Result::Ok::<(TagM, int, CtxM), (ParseError, CtxM)>((t@, j as int, final(ctx)@))
                    && i < j <= s@.len() && ctx_m_wf(final(ctx)@) && tag_m_wf(t@),
                Result::Err(e) => sp_tag(s@, i as int, old(ctx).defs@, old(ctx)@) == Result::Err::<
                    (TagM, int, CtxM),
                    (ParseError, CtxM),
                >((e, final(ctx)@)),
            },
        decreases s@.len() - i, 8int,
    {
        if i < s.len() && s[i] == '\\' {
            let j = alpha_end(s, i + 1);
            if !(i + 1 < j) {
                return Result::Err(ParseError::Syntax { pos: i + 1 });
            }
            let name = subchars(s, i + 1, j);
            parse_tag_suffix(s, i + 1, &name, j, ctx)
        } else if i < s.len() && s[i] == '|' {
            let mut name: Vec<char> = Vec::new();
            name.push('|');
            proof {
                assert(name@ =~= seq!['|']);
            }
            parse_tag_suffix(s, i, &name, i + 1, ctx)
        } else {
            Result::Err(ParseError::Syntax { pos: i })
        }
    }
}

/// Parse a tag's pairing suffix and the whitespace after its name.
fn parse_tag_suffix(s: &Vec<char>, npos: usize, name: &Vec<char>, j: usize, ctx: &mut Context) -> (r:
    Result<(Tag, usize), ParseError>)
    requires
        npos <= j <= s@.len(),
        ctx_m_wf(old(ctx)@),
    ensures
        final(ctx).defs@ == old(ctx).defs@,
        match r {
            Result::Ok((t, jj)) => sp_tag_suffix(s@, npos as int, name@, j as int, old(ctx).defs@, old(ctx)@)
                == Result::Ok::<(TagM, int, CtxM), (ParseError, CtxM)>((t@, jj as int, final(ctx)@)) && j
                <= jj <= s@.len() && ctx_m_wf(final(ctx)@) && tag_m_wf(t@),
            Result::Err(e) => sp_tag_suffix(s@, npos as int, name@, j as int, old(ctx).defs@, old(ctx)@)
                == Result::Err::<(TagM, int, CtxM), (ParseError, CtxM)>((e, final(ctx)@)),
        },
    decreases s@.len() - j, 7int,
{
    if j < s.len() && s[j] == ':' {
        match scan_uint(s, j + 1, 255) {
            Option::None => Result::Err(ParseError::Syntax { pos: j + 1 }),
            Option::Some((v, jn)) => {
                let j3 = skip_ws(s, jn);
                parse_tag_params(s, npos, name, v as u8, j3, ctx)
            },
        }
    } else {
        let j3 = skip_ws(s, j);
        parse_tag_params(s, npos, name, 0, j3, ctx)
    }
}

/// Resolve the tag's name and parse its parameter list, if any.
fn parse_tag_params(
    s: &Vec<char>,
    npos: usize,
    name: &Vec<char>,
    sfx: u8,
    j3: usize,
    ctx: &mut Context,
) -> (r: Result<(Tag, usize), ParseError>)
    requires
        j3 <= s@.len(),
        ctx_m_wf(old(ctx)@),
    ensures
        final(ctx).defs@ == old(ctx).defs@,
        match r {
            Result::Ok((t, jj)) => sp_tag_params(
                s@,
                npos as int,
                name@,
                sfx,
                j3 as int,
                old(ctx).defs@,
                old(ctx)@,
            ) == Result::Ok::<(TagM, int, CtxM), (ParseError, CtxM)>((t@, jj as int, final(ctx)@)) && j3
                <= jj <= s@.len() && ctx_m_wf(final(ctx)@) && tag_m_wf(t@),
            Result::Err(e) => sp_tag_params(
                s@,
                npos as int,
                name@,
                sfx,
                j3 as int,
                old(ctx).defs@,
                old(ctx)@,
            ) == Result::Err::<(TagM, int, CtxM), (ParseError, CtxM)>((e, final(ctx)@)),
        },
    decreases s@.len() - j3, 6int,
{
    let resolved: (TagId, Option<bool>) = match ctx.lookup_tag(name) {
        Option::Some(id) => (id, Option::None),
        Option::None => {
            proof {
                reveal_strlit("Begin");
                reveal_strlit("End");
            }
            if chars_end_with(name, "Begin") {
                let base = subchars(name, 0, name.len() - 5);
                match ctx.lookup_tag(&base) {
                    Option::Some(id) => (id, Option::Some(true)),
                    Option::None => {
                        return Result::Err(ParseError::UnknownTag { pos: npos });
                    },
                }
            } else if chars_end_with(name, "End") {
                let base = subchars(name, 0, name.len() - 3);
                match ctx.lookup_tag(&base) {
                    Option::Some(id) => (id, Option::Some(false)),
                    Option::None => {
                        return Result::Err(ParseError::UnknownTag { pos: npos });
                    },
                }
            } else {
                return Result::Err(ParseError::UnknownTag { pos: npos });
            }
        },
    };
    let (id, marker) = resolved;
    proof {
        assert(sp_resolve_tag_name(old(ctx).defs@, name@) == Option::Some((id, marker)));
    }
    if j3 < s.len() && s[j3] == '<' {
        let jp = skip_ws(s, j3 + 1);
        match parse_params(s, jp) {
            Option::None => Result::Err(ParseError::Syntax { pos: jp }),
            Option::Some((params, q)) => {
                if q < s.len() && s[q] == '>' {
                    let j4 = skip_ws(s, q + 1);
                    parse_tag_events(s, id, marker, sfx, params, j4, ctx)
                } else {
                    Result::Err(ParseError::Syntax { pos: q })
                }
            },
        }
    } else {
        let params: Vec<TagParam> = Vec::new();
        proof {
            assert(view_params(params@) =~= Seq::<TagParamM>::empty());
        }
        parse_tag_events(s, id, marker, sfx, params, j3, ctx)
    }
}

/// Parse the tag's parenthesized body of nested events, if any, then
/// finish the tag.
fn parse_tag_events(
    s: &Vec<char>,
    id: TagId,
    marker: Option<bool>,
    sfx: u8,
    params: Vec<TagParam>,
    j4: usize,
    ctx: &mut Context,
) -> (r: Result<(Tag, usize), ParseError>)
    requires
        j4 <= s@.len(),
        ctx_m_wf(old(ctx)@),
        forall|k: int| 0 <= k < params@.len() ==> param_m_wf(#[trigger] view_params(params@)[k]),
    ensures
        final(ctx).defs@ == old(ctx).defs@,
        match r {
            Result::Ok((t, jj)) => sp_tag_events(
                s@,
                id,
                marker,
                sfx,
                view_params(params@),
                j4 as int,
                old(ctx).defs@,
                old(ctx)@,
            ) == Result::Ok::<(TagM, int, CtxM), (ParseError, CtxM)>((t@, jj as int, final(ctx)@)) && j4
                <= jj <= s@.len() && ctx_m_wf(final(ctx)@) && tag_m_wf(t@),
            Result::Err(e) => sp_tag_events(
                s@,
                id,
                marker,
                sfx,
                view_params(params@),
                j4 as int,
                old(ctx).defs@,
                old(ctx)@,
            ) == Result::Err::<(TagM, int, CtxM), (ParseError, CtxM)>((e, final(ctx)@)),
        },
    decreases s@.len() - j4, 5int,
{
    if j4 < s.len() && s[j4] == '(' {
        let je = skip_ws(s, j4 + 1);
        match parse_events(s, je, ctx) {
            Result::Err(e) => Result::Err(e),
            Result::Ok((evs, q)) => {
                if q < s.len() && s[q] == ')' {
                    let end = skip_ws(s, q + 1);
                    parse_tag_finish(id, marker, sfx, params, evs, true, end, ctx)
                } else {
                    Result::Err(ParseError::Syntax { pos: q })
                }
            },
        }
    } else {
        let events: Vec<Event> = Vec::new();
        proof {
            assert(view_events(events@) =~= Seq::<EventM>::empty());
        }
        parse_tag_finish(id, marker, sfx, params, events, false, j4, ctx)
    }
}

/// Infer the tag's shape, validate it, and register it.
#[verifier::rlimit(30)]
fn parse_tag_finish(
    id: TagId,
    marker: Option<bool>,
    sfx: u8,
    params: Vec<TagParam>,
    events: Vec<Event>,
    has_events: bool,
    end: usize,
    ctx: &mut Context,
) -> (r: Result<(Tag, usize), ParseError>)
    requires
        ctx_m_wf(old(ctx)@),
        forall|k: int| 0 <= k < params@.len() ==> param_m_wf(#[trigger] view_params(params@)[k]),
        events_m_wf(view_events(events@)),
    ensures
        final(ctx).defs@ == old(ctx).defs@,
        match r {
            Result::Ok((t, jj)) => sp_tag_finish(
                id,
                marker,
                sfx,
                view_params(params@),
                view_events(events@),
                has_events,
                end as int,
                old(ctx).defs@,
                old(ctx)@,
            ) == Result::Ok::<(TagM, int, CtxM), (ParseError, CtxM)>((t@, jj as int, final(ctx)@)) && jj
                == end && ctx_m_wf(final(ctx)@) && tag_m_wf(t@),
            Result::Err(e) => sp_tag_finish(
                id,
                marker,
                sfx,
                view_params(params@),
                view_events(events@),
                has_events,
                end as int,
                old(ctx).defs@,
                old(ctx)@,
            ) == Result::Err::<(TagM, int, CtxM), (ParseError, CtxM)>((e, final(ctx)@))
                && final(ctx)@ == old(ctx)@,
        },
{
    let ty: TagType = match marker {
        Option::Some(true) => TagType::Begin(sfx),
        Option::Some(false) => TagType::End(sfx),
        Option::None => if has_events {
            TagType::Range
        } else {
            TagType::Position
        },
    };
    let t = Tag { id, ty, params, events };
    match ctx.validate(&t) {
        Result::Ok(u) => {
            let t2 = Tag {
                id,
                ty,
                params: clone_params(&t.params),
                events: clone_events(&t.events),
            };
            proof {
                assert(t2@ =~= t@);
            }
            ctx.add_tag(t2);
            proof {
                assert(tag_m_wf(t@));
                assert(ctx_m_wf(ctx@)) by {
                    assert(forall|k: int|
                        0 <= k < ctx@.tags.len() ==> tag_m_wf(#[trigger] ctx@.tags[k]));
                }
            }
            Result::Ok((t, end))
        },
        Result::Err(e) => Result::Err(e),
    }
}

impl Chord {
    /// Parse a chord at `i`, threading the context.
    pub fn parse(s: &Vec<char>, i: usize, ctx: &mut Context) -> (r: Result<
        (Chord, usize),
        ParseError,
    >)
        requires
            i <= s@.len(),
            ctx_m_wf(old(ctx)@),
        ensures
            final(ctx).defs@ == old(ctx).defs@,
            match r {
                Result::Ok((c, j)) => sp_chord(s@, i as int, old(ctx).defs@, old(ctx)@)
                    == Result::Ok::<(ChordM, int, CtxM), (ParseError, CtxM)>((c@, j as int, final(ctx)@))
                    && i < j <= s@.len() && ctx_m_wf(final(ctx)@) && event_m_wf(EventM::Chord(c@)),
                Result::Err(e) => sp_chord(s@, i as int, old(ctx).defs@, old(ctx)@)
                    == Result::Err::<(ChordM, int, CtxM), (ParseError, CtxM)>((e, final(ctx)@)),
            },
        decreases s@.len() - i, 9int,
    {
        if i < s.len() && s[i] == '{' {
            let jw = skip_ws(s, i + 1);
            match parse_events(s, jw, ctx) {
                Result::Err(e) => Result::Err(e),
                Result::Ok((evs, k)) => {
                    if k < s.len() && s[k] == '}' {
                        let end = skip_ws(s, k + 1);
                        let d = max_full_duration(&evs);
                        proof {
                            if d == (Duration { num: 0, denom: 1 }) {
                                assert(crate::duration::reduced(0, 1));
                            }
                        }
                        Result::Ok((Chord { events: evs, duration: d }, end))
                    } else {
                        Result::Err(ParseError::Syntax { pos: k })
                    }
                },
            }
        } else {
            Result::Err(ParseError::Syntax { pos: i })
        }
    }
}

/// Parse one event at `i`: a tag, a chord, a rest, or a note by its
/// first character.
pub fn parse_event(s: &Vec<char>, i: usize, ctx: &mut Context) -> (r: Result<
    (Event, usize),
    ParseError,
>)
    requires
        i <= s@.len(),
        ctx_m_wf(old(ctx)@),
    ensures
        final(ctx).defs@ == old(ctx).defs@,
        match r {
            Result::Ok((e, j)) => sp_event(s@, i as int, old(ctx).defs@, old(ctx)@)
                == Result::Ok::<(EventM, int, CtxM), (ParseError, CtxM)>((e@, j as int, final(ctx)@)) && i
                < j <= s@.len() && ctx_m_wf(final(ctx)@) && event_m_wf(e@),
            Result::Err(er) => sp_event(s@, i as int, old(ctx).defs@, old(ctx)@) == Result::Err::<
                (EventM, int, CtxM),
                (ParseError, CtxM),
            >((er, final(ctx)@)),
        },
    decreases s@.len() - i, 10int,
{
    if i < s.len() && starter_char(s[i]) {
        if s[i] == '\\' || s[i] == '|' {
            match Tag::parse(s, i, ctx) {
                Result::Ok((t, j)) => Result::Ok((Event::Tag(t), j)),
                Result::Err(e) => Result::Err(e),
            }
        } else if s[i] == '{' {
            match Chord::parse(s, i, ctx) {
                Result::Ok((c, j)) => Result::Ok((Event::Chord(c), j)),
                Result::Err(e) => Result::Err(e),
            }
        } else if s[i] == '_' {
            match Rest::parse(s, i, ctx) {
                Result::Ok((rs, j)) => Result::Ok((Event::Rest(rs), j)),
                Result::Err(e) => Result::Err(e),
            }
        } else {
            match Note::parse(s, i, ctx) {
                Result::Ok((n, j)) => Result::Ok((Event::Note(n), j)),
                Result::Err(e) => Result::Err(e),
            }
        }
    } else {
        Result::Err(ParseError::Syntax { pos: i })
    }
}

/// Parse an event list at `i`: one or more events with optional comma
/// separators, ending before the first position where no event starts.
pub fn parse_events(s: &Vec<char>, i: usize, ctx: &mut Context) -> (r: Result<
    (Vec<Event>, usize),
    ParseError,
>)
    requires
        i <= s@.len(),
        ctx_m_wf(old(ctx)@),
    ensures
        final(ctx).defs@ == old(ctx).defs@,
        match r {
            Result::Ok((v, j)) => sp_events(s@, i as int, old(ctx).defs@, old(ctx)@)
                == Result::Ok::<(Seq<EventM>, int, CtxM), (ParseError, CtxM)>(
                (view_events(v@), j as int, final(ctx)@),
            ) && i < j <= s@.len() && ctx_m_wf(final(ctx)@) && events_m_wf(view_events(v@)),
            Result::Err(e) => sp_events(s@, i as int, old(ctx).defs@, old(ctx)@) == Result::Err::<
                (Seq<EventM>, int, CtxM),
                (ParseError, CtxM),
            >((e, final(ctx)@)),
        },
    decreases s@.len() - i, 11int,
{
    let ghost defs0 = old(ctx).defs@;
    let (e0, j0) = match parse_event(s, i, ctx) {
        Result::Ok(p) => p,
        Result::Err(e) => {
            return Result::Err(e);
        },
    };
    let mut acc: Vec<Event> = Vec::new();
    acc.push(e0);
    let mut j = j0;
    proof {
        crate::event::lemma_view_events_index(acc@);
        assert(view_events(acc@) =~= seq![e0@]);
    }
    loop
        invariant
            i < j <= s@.len(),
            defs0 == old(ctx).defs@,
            ctx.defs@ == defs0,
            ctx_m_wf(ctx@),
            events_m_wf(view_events(acc@)),
            sp_events(s@, i as int, defs0, old(ctx)@) == sp_events_rest(
                s@,
                j as int,
                defs0,
                ctx@,
                view_events(acc@),
            ),
        decreases s@.len() - j,
    {
        let jc: usize = if j < s.len() && s[j] == ',' {
            j + 1
        } else {
            j
        };
        let jw = skip_ws(s, jc);
        if jw < s.len() && starter_char(s[jw]) {
            match parse_event(s, jw, ctx) {
                Result::Err(e) => {
                    return Result::Err(e);
                },
                Result::Ok((e, j2)) => {
                    if j2 > j {
                        let ghost before = acc@;
                        acc.push(e);
                        proof {
                            crate::event::lemma_view_events_push(before, e);
                            crate::event::lemma_view_events_index(acc@);
                        }
                        j = j2;
                    } else {
                        return Result::Err(ParseError::Syntax { pos: jw });
                    }
                },
            }
        } else {
            return Result::Ok((acc, j));
        }
    }
}

/// The staff number a finished voice targets: the most recently
/// registered `staff` tag's first bare-number parameter when it is a
/// whole number within range, and one otherwise.
pub open spec fn sp_staff_of(ctx: CtxM) -> u8 {
    match spec_get_tag(ctx.tags, TagId::Staff) {
        Option::None => 1,
        Option::Some(t) => if t.params.len() > 0 {
            match t.params[0] {
                TagParamM::Number(d) => if !d.neg && d.scale == 0 && d.mantissa <= 255 {
                    d.mantissa as u8
                } else {
                    1
                },
                _ => 1,
            }
        } else {
            1
        },
    }
}

/// The voice at `i`: a bracket-delimited event list; its staff number is
/// resolved from the context after its events are parsed.
pub open spec fn sp_voice(s: Seq<char>, i: int, defs: DefsM, ctx: CtxM) -> Result<
    (VoiceM, int, CtxM),
    (ParseError, CtxM),
>
    decreases s.len() - i, 13int,
    when 0 <= i <= s.len()
{
    if i < s.len() && s[i] == '[' {
        let jw = sp_ws(s, i + 1);
        if i < jw <= s.len() {
            match sp_events(s, jw, defs, ctx) {
                Result::Err(e) => Result::Err(e),
                Result::Ok((evs, k, ctx2)) => {
                    let kw = sp_ws(s, k);
                    if k <= kw < s.len() && s[kw] == ']' {
                        Result::Ok(
                            (
                                VoiceM { staff: sp_staff_of(ctx2), events: evs },
                                sp_ws(s, kw + 1),
                                ctx2,
                            ),
                        )
                    } else {
                        Result::Err((ParseError::Syntax { pos: kw as usize }, ctx2))
                    }
                },
            }
        } else {
            Result::Err((ParseError::Syntax { pos: i as usize }, ctx))
        }
    } else {
        Result::Err((ParseError::Syntax { pos: i as usize }, ctx))
    }
}

/// The comma-separated voice list at `i`.
pub open spec fn sp_voices(s: Seq<char>, i: int, defs: DefsM, ctx: CtxM) -> Result<
    (Seq<VoiceM>, int, CtxM),
    (ParseError, CtxM),
>
    decreases s.len() - i, 14int,
    when 0 <= i <= s.len()
{
    match sp_voice(s, i, defs, ctx) {
        Result::Err(e) => Result::Err(e),
        Result::Ok((v, j, ctx2)) => if i < j <= s.len() {
            sp_voices_rest(s, j, defs, ctx2, seq![v])
        } else {
            Result::Err((ParseError::Syntax { pos: i as usize }, ctx2))
        },
    }
}

/// The remainder of a voice list after `acc`: further voices led by
/// commas.
pub open spec fn sp_voices_rest(
    s: Seq<char>,
    j: int,
    defs: DefsM,
    ctx: CtxM,
    acc: Seq<VoiceM>,
) -> Result<(Seq<VoiceM>, int, CtxM), (ParseError, CtxM)>
    decreases s.len() - j, 15int,
    when 0 <= j <= s.len()
{
    if j < s.len() && s[j] == ',' {
        let jw = sp_ws(s, j + 1);
        if j < jw <= s.len() {
            match sp_voice(s, jw, defs, ctx) {
                Result::Err(e) => Result::Err(e),
                Result::Ok((v, j2, ctx2)) => if j < j2 <= s.len() {
                    sp_voices_rest(s, j2, defs, ctx2, acc.push(v))
                } else {
                    Result::Err((ParseError::Syntax { pos: jw as usize }, ctx2))
                },
            }
        } else {
            Result::Err((ParseError::Syntax { pos: j as usize }, ctx))
        }
    } else {
        Result::Ok((acc, j, ctx))
    }
}

/// The score at `i`: a single voice, or a brace-delimited list of
/// voices.  Input after the score is left unread.
pub open spec fn sp_score(s: Seq<char>, i: int, defs: DefsM, ctx: CtxM) -> Result<
    (Seq<VoiceM>, int, CtxM),
    (ParseError, CtxM),
>
    decreases s.len() - i, 16int,
    when 0 <= i <= s.len()
{
    if i < s.len() && s[i] == '{' {
        let jw = sp_ws(s, i + 1);
        if i < jw <= s.len() {
            match sp_voices(s, jw, defs, ctx) {
                Result::Err(e) => Result::Err(e),
                Result::Ok((vs, k, ctx2)) => if k < s.len() && s[k] == '}' {
                    Result::Ok((vs, sp_ws(s, k + 1), ctx2))
                } else {
                    Result::Err((ParseError::Syntax { pos: k as usize }, ctx2))
                },
            }
        } else {
            Result::Err((ParseError::Syntax { pos: i as usize }, ctx))
        }
    } else if i < s.len() && s[i] == '[' {
        match sp_voice(s, i, defs, ctx) {
            Result::Err(e) => Result::Err(e),
            Result::Ok((v, j, ctx2)) => Result::Ok((seq![v], j, ctx2)),
        }
    } else {
        Result::Err((ParseError::Syntax { pos: i as usize }, ctx))
    }
}

/// The staff number the context assigns to a finished voice.
fn staff_of(ctx: &Context) -> (r: u8)
    ensures
        r == sp_staff_of(ctx@),
{
    match ctx.get_tag(TagId::Staff) {
        Option::None => 1,
        Option::Some(t) => match t.as_number() {
            Option::Some(d) => match d.as_u8() {
                Option::Some(v) => v,
                Option::None => 1,
            },
            Option::None => 1,
        },
    }
}

impl Voice {
    /// Parse a voice at `i`, threading the context.
    pub fn parse(s: &Vec<char>, i: usize, ctx: &mut Context) -> (r: Result<
        (Voice, usize),
        ParseError,
    >)
        requires
            i <= s@.len(),
            ctx_m_wf(old(ctx)@),
        ensures
            final(ctx).defs@ == old(ctx).defs@,
            match r {
                Result::Ok((v, j)) => sp_voice(s@, i as int, old(ctx).defs@, old(ctx)@)
                    == Result::Ok::<(VoiceM, int, CtxM), (ParseError, CtxM)>((v@, j as int, final(ctx)@))
                    && i < j <= s@.len() && ctx_m_wf(final(ctx)@) && events_m_wf(v@.events),
                Result::Err(e) => sp_voice(s@, i as int, old(ctx).defs@, old(ctx)@)
                    == Result::Err::<(VoiceM, int, CtxM), (ParseError, CtxM)>((e, final(ctx)@)),
            },
        decreases s@.len() - i, 13int,
    {
        if i < s.len() && s[i] == '[' {
            let jw = skip_ws(s, i + 1);
            match parse_events(s, jw, ctx) {
                Result::Err(e) => Result::Err(e),
                Result::Ok((evs, k)) => {
                    let kw = skip_ws(s, k);
                    if kw < s.len() && s[kw] == ']' {
                        let st = staff_of(ctx);
                        let end = skip_ws(s, kw + 1);
                        Result::Ok((Voice { staff: st, events: evs }, end))
                    } else {
                        Result::Err(ParseError::Syntax { pos: kw })
                    }
                },
            }
        } else {
            Result::Err(ParseError::Syntax { pos: i })
        }
    }
}

/// Parse a comma-separated voice list at `i`.
pub fn parse_voices(s: &Vec<char>, i: usize, ctx: &mut Context) -> (r: Result<
    (Vec<Voice>, usize),
    ParseError,
>)
    requires
        i <= s@.len(),
        ctx_m_wf(old(ctx)@),
    ensures
        final(ctx).defs@ == old(ctx).defs@,
        match r {
            Result::Ok((vs, j)) => sp_voices(s@, i as int, old(ctx).defs@, old(ctx)@)
                == Result::Ok::<(Seq<VoiceM>, int, CtxM), (ParseError, CtxM)>(
                (view_voices(vs@), j as int, final(ctx)@),
            ) && i < j <= s@.len() && ctx_m_wf(final(ctx)@),
            Result::Err(e) => sp_voices(s@, i as int, old(ctx).defs@, old(ctx)@) == Result::Err::<
                (Seq<VoiceM>, int, CtxM),
                (ParseError, CtxM),
            >((e, final(ctx)@)),
        },
    decreases s@.len() - i, 14int,
{
    let ghost defs0 = old(ctx).defs@;
    let (v0, j0) = match Voice::parse(s, i, ctx) {
        Result::Ok(p) => p,
        Result::Err(e) => {
            return Result::Err(e);
        },
    };
    let mut acc: Vec<Voice> = Vec::new();
    acc.push(v0);
    let mut j = j0;
    proof {
        assert(view_voices(acc@) =~= seq![v0@]);
    }
    loop
        invariant
            i < j <= s@.len(),
            defs0 == old(ctx).defs@,
            ctx.defs@ == defs0,
            ctx_m_wf(ctx@),
            sp_voices(s@, i as int, defs0, old(ctx)@) == sp_voices_rest(
                s@,
                j as int,
                defs0,
                ctx@,
                view_voices(acc@),
            ),
        decreases s@.len() - j,
    {
        if j < s.len() && s[j] == ',' {
            let jw = skip_ws(s, j + 1);
            match Voice::parse(s, jw, ctx) {
                Result::Err(e) => {
                    return Result::Err(e);
                },
                Result::Ok((v, j2)) => {
                    if j2 > j {
                        let ghost before = acc@;
                        acc.push(v);
                        proof {
                            assert(view_voices(acc@) =~= view_voices(before).push(
                                acc@.last()@,
                            ));
                        }
                        j = j2;
                    } else {
                        return Result::Err(ParseError::Syntax { pos: jw });
                    }
                },
            }
        } else {
            return Result::Ok((acc, j));
        }
    }
}

/// Parse a score at `i`: a single voice or a braced list of voices.
pub fn parse_score(s: &Vec<char>, i: usize, ctx: &mut Context) -> (r: Result<
    (Vec<Voice>, usize),
    ParseError,
>)
    requires
        i <= s@.len(),
        ctx_m_wf(old(ctx)@),
    ensures
        final(ctx).defs@ == old(ctx).defs@,
        match r {
            Result::Ok((vs, j)) => sp_score(s@, i as int, old(ctx).defs@, old(ctx)@)
                == Result::Ok::<(Seq<VoiceM>, int, CtxM), (ParseError, CtxM)>(
                (view_voices(vs@), j as int, final(ctx)@),
            ) && i < j <= s@.len() && ctx_m_wf(final(ctx)@),
            Result::Err(e) => sp_score(s@, i as int, old(ctx).defs@, old(ctx)@) == Result::Err::<
                (Seq<VoiceM>, int, CtxM),
                (ParseError, CtxM),
            >((e, final(ctx)@)),
        },
    decreases s@.len() - i, 16int,
{
    if i < s.len() && s[i] == '{' {
        let jw = skip_ws(s, i + 1);
        match parse_voices(s, jw, ctx) {
            Result::Err(e) => Result::Err(e),
            Result::Ok((vs, k)) => {
                if k < s.len() && s[k] == '}' {
                    let end = skip_ws(s, k + 1);
                    Result::Ok((vs, end))
                } else {
                    Result::Err(ParseError::Syntax { pos: k })
                }
            },
        }
    } else if i < s.len() && s[i] == '[' {
        match Voice::parse(s, i, ctx) {
            Result::Err(e) => Result::Err(e),
            Result::Ok((v, j)) => {
                let mut vs: Vec<Voice> = Vec::new();
                let ghost vm = v@;
                vs.push(v);
                proof {
                    assert(view_voices(vs@) =~= seq![vm]);
                }
                Result::Ok((vs, j))
            },
        }
    } else {
        Result::Err(ParseError::Syntax { pos: i })
    }
}

/// The outcome a whole-document parse owes: comments stripped, leading
/// whitespace skipped, a score parsed, and its voices grouped into
/// staves.  Input after the score is left unread.
pub open spec fn sp_parse_score(input: Seq<char>, defs: DefsM, ctx: CtxM) -> Result<
    (Seq<(u8, Seq<VoiceM>)>, CtxM),
    (ParseError, CtxM),
> {
    let t = spec_all_comments(input);
    let j = sp_ws(t, 0);
    if 0 <= j <= t.len() {
        match sp_score(t, j, defs, ctx) {
            Result::Ok((vs, end, ctx2)) => Result::Ok((spec_group(vs), ctx2)),
            Result::Err(e) => Result::Err(e),
        }
    } else {
        Result::Err((ParseError::Syntax { pos: 0 }, ctx))
    }
}

/// Stripping a document's comments before parsing changes nothing:
/// `Score::parse` strips them itself, and on a document whose stripped
/// form holds no remaining block-comment opener a second strip is the
/// identity.  (Removing a block can juxtapose a `(` with a `*` and form
/// a new opener; on such documents the two parses may differ, as a
/// second strip removes more.)
pub proof fn lemma_parse_after_strip(input: Seq<char>, defs: DefsM, ctx: CtxM)
    requires
        !crate::comment::spec_has_open(spec_all_comments(input)),
    ensures
        sp_parse_score(spec_all_comments(input), defs, ctx) == sp_parse_score(input, defs, ctx),
{
    crate::comment::lemma_all_comments_idempotent(input);
}

impl Score {
    /// Parse a whole document: strip its comments, then read a score.
    pub fn parse(input: &str, ctx: &mut Context) -> (r: Result<Score, ParseError>)
        requires
            ctx_m_wf(old(ctx)@),
        ensures
            final(ctx).defs@ == old(ctx).defs@,
            match r {
                Result::Ok(score) => sp_parse_score(input@, old(ctx).defs@, old(ctx)@)
                    == Result::Ok::<(Seq<(u8, Seq<VoiceM>)>, CtxM), (ParseError, CtxM)>(
                    (score@, final(ctx)@),
                ),
                Result::Err(e) => sp_parse_score(input@, old(ctx).defs@, old(ctx)@)
                    == Result::Err::<(Seq<(u8, Seq<VoiceM>)>, CtxM), (ParseError, CtxM)>(
                    (e, final(ctx)@),
                ),
            },
    {
        let stripped = crate::comment::all_comments(input);
        let chars = crate::scan::chars_of(stripped.as_str());
        let j = skip_ws(&chars, 0);
        match parse_score(&chars, j, ctx) {
            Result::Ok((vs, _end)) => Result::Ok(Score::new(vs)),
            Result::Err(e) => Result::Err(e),
        }
    }
}

} // verus!
