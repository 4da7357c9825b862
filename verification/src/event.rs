//! The closed set of event kinds a voice can hold, with their
//! mathematical models.
//!
//! An event is a note, a rest, a chord of nested events, or a tag with
//! nested events.  The model types mirror the executable ones with
//! sequences in place of vectors and character sequences in place of
//! strings; every contract about parsed structure speaks of these models.

use crate::chord::Chord;
use crate::chord::ChordM;
use crate::dots::spec_dots_factor;
use crate::duration::Duration;
use crate::note::Note;
use crate::note::spec_full_duration;
use crate::rest::Rest;
use crate::tag::Tag;
use crate::tag::TagM;
use crate::tag_param::TagParam;
use crate::tag_param::TagParamM;
use crate::tag_param::param_m_wf;
use vstd::prelude::*;

verus! {

/// A single musical event.
#[derive(Debug)]
pub enum Event {
    Note(Note),
    Rest(Rest),
    Chord(Chord),
    Tag(Tag),
}

/// The model of an event.
#[verifier::ext_equal]
pub enum EventM {
    Note(Note),
    Rest(Rest),
    Chord(ChordM),
    Tag(TagM),
}

/// The models of a parameter list.
pub open spec fn view_params(s: Seq<TagParam>) -> Seq<TagParamM> {
    s.map_values(|p: TagParam| p@)
}

/// The model of an event.
pub open spec fn view_event(e: Event) -> EventM
    decreases e,
{
    match e {
        Event::Note(n) => EventM::Note(n),
        Event::Rest(r) => EventM::Rest(r),
        Event::Chord(c) => EventM::Chord(
            ChordM { events: view_events(c.events@), duration: c.duration },
        ),
        Event::Tag(t) => EventM::Tag(
            TagM { id: t.id, ty: t.ty, params: view_params(t.params@), events: view_events(t.events@) },
        ),
    }
}

/// The models of a sequence of events.
pub open spec fn view_events(s: Seq<Event>) -> Seq<EventM>
    decreases s,
{
    if s.len() == 0 {
        Seq::empty()
    } else {
        view_events(s.drop_last()).push(view_event(s.last()))
    }
}

/// The model of an event sequence is the sequence of the models.
pub proof fn lemma_view_events_index(s: Seq<Event>)
    ensures
        view_events(s).len() == s.len(),
        forall|i: int| 0 <= i < s.len() ==> view_events(s)[i] == view_event(#[trigger] s[i]),
    decreases s,
{
    if s.len() > 0 {
        lemma_view_events_index(s.drop_last());
        assert forall|i: int| 0 <= i < s.len() implies view_events(s)[i] == view_event(
            #[trigger] s[i],
        ) by {
            if i < s.len() - 1 {
                assert(s.drop_last()[i] == s[i]);
                assert(view_events(s)[i] == view_events(s.drop_last())[i]);
            } else {
                assert(s.last() == s[i]);
            }
        }
    }
}

/// Extending an event sequence extends its model.
pub proof fn lemma_view_events_push(s: Seq<Event>, e: Event)
    ensures
        view_events(s.push(e)) == view_events(s).push(view_event(e)),
{
    assert(s.push(e).drop_last() =~= s);
    assert(s.push(e).last() == e);
}

impl View for Event {
    type V = EventM;

    open spec fn view(&self) -> EventM {
        view_event(*self)
    }
}

/// Durations produced by the duration grammar: reduced, with both parts
/// within the eight-bit range the grammar accepts.
pub open spec fn parsed_dur_wf(d: Duration) -> bool {
    &&& d.wf()
    &&& d.num <= 255
    &&& d.denom <= 255
}

/// Durations of chords: the largest full duration of a member, bounded
/// by the dotted extension of a parsed duration.
pub open spec fn chord_dur_wf(d: Duration) -> bool {
    &&& d.wf()
    &&& d.num <= 3825
    &&& d.denom <= 2040
}

/// Well-formedness of an event model: every duration came from the
/// grammar's bounded range and every decimal is normalized.
pub open spec fn event_m_wf(e: EventM) -> bool
    decreases e,
{
    match e {
        EventM::Note(n) => parsed_dur_wf(n.duration),
        EventM::Rest(r) => parsed_dur_wf(r.duration),
        EventM::Chord(c) => chord_dur_wf(c.duration) && events_m_wf(c.events),
        EventM::Tag(t) => tag_m_wf(t),
    }
}

/// Well-formedness of every event in a sequence.
pub open spec fn events_m_wf(s: Seq<EventM>) -> bool
    decreases s,
{
    forall|i: int| 0 <= i < s.len() ==> event_m_wf(#[trigger] s[i])
}

/// Well-formedness of a tag model.
pub open spec fn tag_m_wf(t: TagM) -> bool
    decreases t,
{
    &&& (forall|i: int| 0 <= i < t.params.len() ==> param_m_wf(#[trigger] t.params[i]))
    &&& events_m_wf(t.events)
}

/// The full duration an event contributes to a chord: a note or rest is
/// extended by its dots, a chord contributes its own duration, and a tag
/// contributes nothing.
pub open spec fn spec_event_full_duration(e: EventM) -> Duration {
    match e {
        EventM::Note(n) => spec_full_duration(n.duration, n.dots),
        EventM::Rest(r) => spec_full_duration(r.duration, r.dots),
        EventM::Chord(c) => c.duration,
        EventM::Tag(_) => Duration { num: 0, denom: 1 },
    }
}

/// The largest full duration among the events, by fraction value; the
/// zero fraction when there are none.
pub open spec fn spec_max_full(s: Seq<EventM>) -> Duration
    decreases s,
{
    if s.len() == 0 {
        Duration { num: 0, denom: 1 }
    } else {
        let rest = spec_max_full(s.drop_last());
        let f = spec_event_full_duration(s.last());
        if rest.spec_lt(f) {
            f
        } else {
            rest
        }
    }
}

/// The full duration an event contributes to a chord.
pub fn event_full_duration(e: &Event) -> (r: Duration)
    requires
        event_m_wf(e@),
    ensures
        r == spec_event_full_duration(e@),
{
    match e {
        Event::Note(n) => {
            proof {
                lemma_full_bounded(n.duration, n.dots);
            }
            n.full_duration()
        },
        Event::Rest(r) => {
            proof {
                lemma_full_bounded(r.duration, r.dots);
            }
            let n = Note {
                name: crate::note::NoteName::Empty,
                octave: 1,
                accidentals: crate::accidentals::Accidentals::Natural,
                duration: r.duration,
                dots: r.dots,
            };
            n.full_duration()
        },
        Event::Chord(c) => c.duration,
        Event::Tag(_) => Duration { num: 0, denom: 1 },
    }
}

/// The maximum full duration taken by a chord over its members.
pub fn max_full_duration(events: &Vec<Event>) -> (r: Duration)
    requires
        events_m_wf(view_events(events@)),
    ensures
        r == spec_max_full(view_events(events@)),
        chord_dur_wf(r) || r == (Duration { num: 0, denom: 1 }),
{
    proof {
        lemma_view_events_index(events@);
    }
    let mut cur = Duration { num: 0, denom: 1 };
    let mut i: usize = 0;
    while i < events.len()
        invariant
            0 <= i <= events@.len(),
            events_m_wf(view_events(events@)),
            view_events(events@).len() == events@.len(),
            forall|k: int|
                0 <= k < events@.len() ==> view_events(events@)[k] == view_event(
                    #[trigger] events@[k],
                ),
            cur == spec_max_full(view_events(events@).subrange(0, i as int)),
            chord_dur_wf(cur) || cur == (Duration { num: 0, denom: 1 }),
        decreases events@.len() - i,
    {
        proof {
            lemma_full_duration_bounds(events@[i as int]@);
        }
        let f = event_full_duration(&events[i]);
        if cur.lt(&f) {
            cur = f;
        }
        proof {
            let vs = view_events(events@);
            assert(vs.subrange(0, i + 1 as int).drop_last() =~= vs.subrange(0, i as int));
            assert(vs.subrange(0, i + 1 as int).last() == vs[i as int]);
        }
        i = i + 1;
    }
    proof {
        assert(view_events(events@).subrange(0, events@.len() as int) =~= view_events(events@));
    }
    cur
}

/// A member's full duration stays within the chord bound.
proof fn lemma_full_duration_bounds(e: EventM)
    requires
        event_m_wf(e),
    ensures
        chord_dur_wf(spec_event_full_duration(e)) || spec_event_full_duration(e) == (Duration {
            num: 0,
            denom: 1,
        }),
{
    match e {
        EventM::Note(n) => {
            lemma_full_bounded(n.duration, n.dots);
        },
        EventM::Rest(r) => {
            lemma_full_bounded(r.duration, r.dots);
        },
        EventM::Chord(_) => {},
        EventM::Tag(_) => {},
    }
}

/// The dotted extension of a parsed duration stays within the chord
/// bound.
proof fn lemma_full_bounded(d: Duration, dots: crate::dots::Dots)
    requires
        parsed_dur_wf(d),
    ensures
        chord_dur_wf(spec_full_duration(d, dots)) || spec_full_duration(d, dots) == (Duration {
            num: 0,
            denom: 1,
        }),
        d.num * spec_dots_factor(dots).num <= u16::MAX,
        d.denom * spec_dots_factor(dots).denom <= u16::MAX,
{
    let f = spec_dots_factor(dots);
    assert(d.num * f.num <= 255 * 15 && d.denom * f.denom <= 255 * 8 && d.num * f.num >= 0
        && d.denom * f.denom >= 1) by (nonlinear_arith)
        requires
            0 <= d.num <= 255,
            1 <= d.denom <= 255,
            1 <= f.num <= 15,
            1 <= f.denom <= 8,
    ;
    crate::duration::lemma_new_bounds(d.num * f.num, d.denom * f.denom);
}

/// Whether two event vectors have the same model, element for element.
pub fn same_symbols(lhs: &Vec<Event>, rhs: &Vec<Event>) -> (r: bool)
    ensures
        r == (view_events(lhs@) == view_events(rhs@)),
{
    events_equal(lhs, rhs)
}

/// Structural equality of event vectors.
pub fn events_equal(a: &Vec<Event>, b: &Vec<Event>) -> (r: bool)
    ensures
        r == (view_events(a@) == view_events(b@)),
    decreases a@,
{
    proof {
        lemma_view_events_index(a@);
        lemma_view_events_index(b@);
    }
    if a.len() != b.len() {
        return false;
    }
    let mut k: usize = 0;
    while k < a.len()
        invariant
            0 <= k <= a@.len(),
            a@.len() == b@.len(),
            view_events(a@).len() == a@.len(),
            view_events(b@).len() == b@.len(),
            forall|i: int|
                0 <= i < a@.len() ==> view_events(a@)[i] == view_event(#[trigger] a@[i]),
            forall|i: int|
                0 <= i < b@.len() ==> view_events(b@)[i] == view_event(#[trigger] b@[i]),
            forall|i: int| 0 <= i < k ==> view_events(a@)[i] == #[trigger] view_events(b@)[i],
        decreases a@.len() - k,
    {
        proof {
            assert(decreases_to!(a@ => a@[k as int]));
        }
        if !event_equal(&a[k], &b[k]) {
            proof {
                assert(view_events(a@)[k as int] != view_events(b@)[k as int]);
            }
            return false;
        }
        k = k + 1;
    }
    proof {
        assert(view_events(a@) =~= view_events(b@));
    }
    true
}

/// Structural equality of single events.
pub fn event_equal(x: &Event, y: &Event) -> (r: bool)
    ensures
        r == (x@ == y@),
    decreases *x,
{
    match x {
        Event::Note(a) => match y {
            Event::Note(b) => *a == *b,
            _ => false,
        },
        Event::Rest(a) => match y {
            Event::Rest(b) => *a == *b,
            _ => false,
        },
        Event::Chord(a) => match y {
            Event::Chord(b) => {
                let r = a.duration == b.duration && events_equal(&a.events, &b.events);
                proof {
                    if r {
                        assert(x@->Chord_0 =~= y@->Chord_0);
                    }
                }
                r
            },
            _ => false,
        },
        Event::Tag(a) => match y {
            Event::Tag(b) => {
                let r = a.id == b.id && a.ty == b.ty && params_equal(&a.params, &b.params)
                    && events_equal(&a.events, &b.events);
                proof {
                    if r {
                        assert(x@->Tag_0 =~= y@->Tag_0);
                    }
                }
                r
            },
            _ => false,
        },
    }
}

/// Structural equality of parameter vectors.
pub fn params_equal(a: &Vec<TagParam>, b: &Vec<TagParam>) -> (r: bool)
    ensures
        r == (view_params(a@) == view_params(b@)),
{
    if a.len() != b.len() {
        return false;
    }
    let mut k: usize = 0;
    while k < a.len()
        invariant
            0 <= k <= a@.len(),
            a@.len() == b@.len(),
            forall|i: int| 0 <= i < k ==> view_params(a@)[i] == #[trigger] view_params(b@)[i],
        decreases a@.len() - k,
    {
        if !(a[k] == b[k]) {
            proof {
                assert(view_params(a@)[k as int] != view_params(b@)[k as int]);
            }
            return false;
        }
        k = k + 1;
    }
    proof {
        assert(view_params(a@) =~= view_params(b@));
    }
    true
}

/// A copy of an event with the same model.
pub fn clone_event(x: &Event) -> (r: Event)
    ensures
        r@ == x@,
    decreases *x,
{
    match x {
        Event::Note(n) => Event::Note(*n),
        Event::Rest(rs) => Event::Rest(*rs),
        Event::Chord(c) => {
            proof {
                assert(decreases_to!(*x => c.events));
            }
            let evs = clone_events(&c.events);
            Event::Chord(Chord { events: evs, duration: c.duration })
        },
        Event::Tag(t) => {
            proof {
                assert(decreases_to!(*x => t.events));
            }
            let evs = clone_events(&t.events);
            let ps = clone_params(&t.params);
            Event::Tag(Tag { id: t.id, ty: t.ty, params: ps, events: evs })
        },
    }
}

/// A copy of an event vector with the same model.
pub fn clone_events(v: &Vec<Event>) -> (r: Vec<Event>)
    ensures
        view_events(r@) == view_events(v@),
    decreases v@,
{
    proof {
        lemma_view_events_index(v@);
    }
    let mut r: Vec<Event> = Vec::new();
    let mut k: usize = 0;
    while k < v.len()
        invariant
            0 <= k <= v@.len(),
            view_events(v@).len() == v@.len(),
            forall|i: int|
                0 <= i < v@.len() ==> view_events(v@)[i] == view_event(#[trigger] v@[i]),
            view_events(r@) == view_events(v@).subrange(0, k as int),
        decreases v@.len() - k,
    {
        proof {
            assert(decreases_to!(v@ => v@[k as int]));
        }
        let ghost old_r = r@;
        let e = clone_event(&v[k]);
        r.push(e);
        proof {
            lemma_view_events_push(old_r, e);
            assert(view_events(v@).subrange(0, k + 1 as int) =~= view_events(v@).subrange(
                0,
                k as int,
            ).push(view_events(v@)[k as int]));
        }
        k = k + 1;
    }
    proof {
        assert(view_events(v@).subrange(0, v@.len() as int) =~= view_events(v@));
    }
    r
}

/// A copy of a parameter vector with the same model.
pub fn clone_params(v: &Vec<TagParam>) -> (r: Vec<TagParam>)
    ensures
        view_params(r@) == view_params(v@),
{
    let mut r: Vec<TagParam> = Vec::new();
    let mut k: usize = 0;
    while k < v.len()
        invariant
            0 <= k <= v@.len(),
            view_params(r@) == view_params(v@).subrange(0, k as int),
        decreases v@.len() - k,
    {
        let ghost old_r = r@;
        let p = v[k].clone();
        r.push(p);
        proof {
            assert(view_params(old_r.push(p)) =~= view_params(old_r).push(p@));
            assert(view_params(v@).subrange(0, k + 1 as int) =~= view_params(v@).subrange(
                0,
                k as int,
            ).push(view_params(v@)[k as int]));
        }
        k = k + 1;
    }
    proof {
        assert(view_params(v@).subrange(0, v@.len() as int) =~= view_params(v@));
    }
    r
}

impl PartialEq for Event {
    /// Events are equal when their models are.
    fn eq(&self, other: &Self) -> (r: bool) {
        event_equal(self, other)
    }
}

impl vstd::std_specs::cmp::PartialEqSpecImpl for Event {
    open spec fn obeys_eq_spec() -> bool {
        true
    }

    open spec fn eq_spec(&self, other: &Self) -> bool {
        self@ == other@
    }
}

impl Clone for Event {
    /// A clone has the same model.
    fn clone(&self) -> (r: Self)
        ensures
            r@ == self@,
    {
        clone_event(self)
    }
}

impl PartialEq for Chord {
    /// Chords are equal when their models are.
    fn eq(&self, other: &Self) -> (r: bool) {
        let r = self.duration == other.duration && events_equal(&self.events, &other.events);
        proof {
            if r {
                assert(self@ =~= other@);
            }
        }
        r
    }
}

impl vstd::std_specs::cmp::PartialEqSpecImpl for Chord {
    open spec fn obeys_eq_spec() -> bool {
        true
    }

    open spec fn eq_spec(&self, other: &Self) -> bool {
        self@ == other@
    }
}

impl PartialEq for Tag {
    /// Tags are equal when their models are.
    fn eq(&self, other: &Self) -> (r: bool) {
        let r = self.id == other.id && self.ty == other.ty && params_equal(
            &self.params,
            &other.params,
        ) && events_equal(&self.events, &other.events);
        proof {
            if r {
                assert(self@ =~= other@);
            }
        }
        r
    }
}

impl vstd::std_specs::cmp::PartialEqSpecImpl for Tag {
    open spec fn obeys_eq_spec() -> bool {
        true
    }

    open spec fn eq_spec(&self, other: &Self) -> bool {
        self@ == other@
    }
}

impl Clone for Tag {
    /// A clone has the same model.
    fn clone(&self) -> (r: Self)
        ensures
            r@ == self@,
    {
        let r = Tag {
            id: self.id,
            ty: self.ty,
            params: clone_params(&self.params),
            events: clone_events(&self.events),
        };
        proof {
            assert(r@ =~= self@);
        }
        r
    }
}

} // verus!
