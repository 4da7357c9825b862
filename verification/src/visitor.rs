//! The visitor contract: the boundary through which consumers such as
//! renderers and players observe a parsed score.
//!
//! The document order of a walk is fixed by a verified flattening:
//! `Score::flatten` produces the exact sequence of steps — each staff
//! entered and left around its voices, each voice announced before its
//! events, each chord or tag before its nested events — and
//! `Score::visit` is a thin loop that dispatches one callback per step
//! of that sequence, in order.

use crate::chord::Chord;
use crate::chord::ChordM;
use crate::event::Event;
use crate::event::EventM;
use crate::event::clone_events;
use crate::event::view_events;
use crate::note::Note;
use crate::rest::Rest;
use crate::score::Score;
use crate::tag::Tag;
use crate::tag::TagM;
use crate::voice::Voice;
use crate::voice::VoiceM;
use crate::voice::view_voices;
use vstd::prelude::*;

verus! {

/// Callbacks a consumer of a parsed score implements.
pub trait Visitor {
    fn on_chord(&mut self, chord: &Chord);

    fn on_note(&mut self, note: &Note);

    fn on_rest(&mut self, rest: &Rest);

    fn on_staff_begin(&mut self);

    fn on_staff_end(&mut self);

    fn on_tag(&mut self, tag: &Tag);

    fn on_voice(&mut self, voice: &Voice);
}

/// One step of a document-order walk: the callback it stands for, with
/// the value handed to it.
#[derive(Debug)]
pub enum VisitItem {
    StaffBegin,
    StaffEnd,
    Voice(Voice),
    Note(Note),
    Rest(Rest),
    Chord(Chord),
    Tag(Tag),
}

/// The model of a walk step.
#[verifier::ext_equal]
pub enum VisitStepM {
    StaffBegin,
    StaffEnd,
    Voice(VoiceM),
    Note(Note),
    Rest(Rest),
    Chord(ChordM),
    Tag(TagM),
}

impl View for VisitItem {
    type V = VisitStepM;

    open spec fn view(&self) -> VisitStepM {
        match self {
            VisitItem::StaffBegin => VisitStepM::StaffBegin,
            VisitItem::StaffEnd => VisitStepM::StaffEnd,
            VisitItem::Voice(w) => VisitStepM::Voice(w@),
            VisitItem::Note(n) => VisitStepM::Note(*n),
            VisitItem::Rest(r) => VisitStepM::Rest(*r),
            VisitItem::Chord(c) => VisitStepM::Chord(c@),
            VisitItem::Tag(t) => VisitStepM::Tag(t@),
        }
    }
}

/// The models of a step vector.
pub open spec fn view_items(s: Seq<VisitItem>) -> Seq<VisitStepM> {
    s.map_values(|x: VisitItem| x@)
}

/// The walk steps of one event: the event itself, then its nested
/// events in order.
pub open spec fn sp_flat_event(e: EventM) -> Seq<VisitStepM>
    decreases e,
{
    match e {
        EventM::Note(n) => seq![VisitStepM::Note(n)],
        EventM::Rest(r) => seq![VisitStepM::Rest(r)],
        EventM::Chord(c) => seq![VisitStepM::Chord(c)] + sp_flat_events(c.events),
        EventM::Tag(t) => seq![VisitStepM::Tag(t)] + sp_flat_events(t.events),
    }
}

/// The walk steps of an event list, in order.
pub open spec fn sp_flat_events(s: Seq<EventM>) -> Seq<VisitStepM>
    decreases s,
{
    if s.len() == 0 {
        Seq::empty()
    } else {
        sp_flat_events(s.drop_last()) + sp_flat_event(s.last())
    }
}

/// The walk steps of one voice: the voice itself, then its events.
pub open spec fn sp_flat_voice(v: VoiceM) -> Seq<VisitStepM> {
    seq![VisitStepM::Voice(v)] + sp_flat_events(v.events)
}

/// The walk steps of a voice list, in order.
pub open spec fn sp_flat_voices(vs: Seq<VoiceM>) -> Seq<VisitStepM>
    decreases vs,
{
    if vs.len() == 0 {
        Seq::empty()
    } else {
        sp_flat_voices(vs.drop_last()) + sp_flat_voice(vs.last())
    }
}

/// The walk steps of a whole score: each staff entered and left around
/// its voices, staves in encounter order.
pub open spec fn sp_flatten(score: Seq<(u8, Seq<VoiceM>)>) -> Seq<VisitStepM>
    decreases score,
{
    if score.len() == 0 {
        Seq::empty()
    } else {
        sp_flatten(score.drop_last()) + (seq![VisitStepM::StaffBegin] + sp_flat_voices(
            score.last().1,
        ) + seq![VisitStepM::StaffEnd])
    }
}

/// Append one step, extending the model by its view.
fn push_item(out: &mut Vec<VisitItem>, x: VisitItem)
    ensures
        view_items(final(out)@) == view_items(old(out)@) + seq![x@],
{
    let ghost before = out@;
    out.push(x);
    proof {
        assert(view_items(out@) =~= view_items(before) + seq![out@.last()@]);
    }
}

/// Append the walk steps of one event.
fn flatten_event(e: &Event, out: &mut Vec<VisitItem>)
    ensures
        view_items(final(out)@) == view_items(old(out)@) + sp_flat_event(e@),
    decreases *e,
{
    match e {
        Event::Note(n) => {
            push_item(out, VisitItem::Note(*n));
        },
        Event::Rest(r) => {
            push_item(out, VisitItem::Rest(*r));
        },
        Event::Chord(c) => {
            proof {
                assert(decreases_to!(*e => c.events));
            }
            let copy = Chord { events: clone_events(&c.events), duration: c.duration };
            proof {
                assert(copy@ =~= c@);
            }
            push_item(out, VisitItem::Chord(copy));
            flatten_events(&c.events, out);
            proof {
                assert(view_items(out@) =~= view_items(old(out)@) + sp_flat_event(e@));
            }
        },
        Event::Tag(t) => {
            proof {
                assert(decreases_to!(*e => t.events));
            }
            push_item(out, VisitItem::Tag(t.clone()));
            flatten_events(&t.events, out);
            proof {
                assert(view_items(out@) =~= view_items(old(out)@) + sp_flat_event(e@));
            }
        },
    }
}

/// Append the walk steps of an event list.
fn flatten_events(v: &Vec<Event>, out: &mut Vec<VisitItem>)
    ensures
        view_items(final(out)@) == view_items(old(out)@) + sp_flat_events(view_events(v@)),
    decreases v@,
{
    proof {
        crate::event::lemma_view_events_index(v@);
    }
    let mut i: usize = 0;
    proof {
        assert(view_items(out@) =~= view_items(old(out)@) + sp_flat_events(
            view_events(v@).subrange(0, 0),
        ));
    }
    while i < v.len()
        invariant
            0 <= i <= v@.len(),
            view_events(v@).len() == v@.len(),
            forall|k: int| 0 <= k < v@.len() ==> view_events(v@)[k] == (#[trigger] v@[k])@,
            view_items(out@) == view_items(old(out)@) + sp_flat_events(
                view_events(v@).subrange(0, i as int),
            ),
        decreases v@.len() - i,
    {
        proof {
            assert(decreases_to!(v@ => v@[i as int]));
        }
        flatten_event(&v[i], out);
        proof {
            let vm = view_events(v@);
            assert(vm.subrange(0, i + 1 as int).drop_last() =~= vm.subrange(0, i as int));
            assert(vm.subrange(0, i + 1 as int).last() == vm[i as int]);
            assert(view_items(out@) =~= view_items(old(out)@) + sp_flat_events(
                vm.subrange(0, i + 1 as int),
            ));
        }
        i = i + 1;
    }
    proof {
        assert(view_events(v@).subrange(0, v@.len() as int) =~= view_events(v@));
    }
}

/// Append the walk steps of one voice.
fn flatten_voice(w: &Voice, out: &mut Vec<VisitItem>)
    ensures
        view_items(final(out)@) == view_items(old(out)@) + sp_flat_voice(w@),
{
    let copy = Voice { staff: w.staff, events: clone_events(&w.events) };
    proof {
        assert(copy@ =~= w@);
    }
    push_item(out, VisitItem::Voice(copy));
    flatten_events(&w.events, out);
    proof {
        assert(view_items(out@) =~= view_items(old(out)@) + sp_flat_voice(w@));
    }
}

impl Score {
    /// The document-order flattening of the score: the exact sequence of
    /// walk steps a visitor is shown.
    pub fn flatten(&self) -> (r: Vec<VisitItem>)
        ensures
            view_items(r@) == sp_flatten(self@),
    {
        let mut out: Vec<VisitItem> = Vec::new();
        proof {
            assert(view_items(out@) =~= Seq::<VisitStepM>::empty());
            assert(self@.subrange(0, 0) =~= Seq::<(u8, Seq<VoiceM>)>::empty());
        }
        let mut k: usize = 0;
        while k < self.staffs.len()
            invariant
                0 <= k <= self.staffs@.len(),
                view_items(out@) == sp_flatten(self@.subrange(0, k as int)),
            decreases self.staffs@.len() - k,
        {
            let ghost before = view_items(out@);
            push_item(&mut out, VisitItem::StaffBegin);
            let voices = &self.staffs[k].1.voices;
            let ghost vs_m = view_voices(voices@);
            let mut j: usize = 0;
            proof {
                assert(vs_m.subrange(0, 0) =~= Seq::<VoiceM>::empty());
                assert(view_items(out@) =~= before + seq![VisitStepM::StaffBegin]
                    + sp_flat_voices(vs_m.subrange(0, 0)));
            }
            while j < voices.len()
                invariant
                    0 <= k < self.staffs@.len(),
                    0 <= j <= voices@.len(),
                    voices@ == self.staffs@[k as int].1.voices@,
                    vs_m == view_voices(voices@),
                    vs_m.len() == voices@.len(),
                    view_items(out@) == before + seq![VisitStepM::StaffBegin] + sp_flat_voices(
                        vs_m.subrange(0, j as int),
                    ),
                decreases voices@.len() - j,
            {
                flatten_voice(&voices[j], &mut out);
                proof {
                    assert(vs_m.subrange(0, j + 1 as int).drop_last() =~= vs_m.subrange(
                        0,
                        j as int,
                    ));
                    assert(vs_m.subrange(0, j + 1 as int).last() == vs_m[j as int]);
                    assert(vs_m[j as int] == voices@[j as int]@);
                    assert(view_items(out@) =~= before + seq![VisitStepM::StaffBegin]
                        + sp_flat_voices(vs_m.subrange(0, j + 1 as int)));
                }
                j = j + 1;
            }
            proof {
                assert(vs_m.subrange(0, vs_m.len() as int) =~= vs_m);
            }
            push_item(&mut out, VisitItem::StaffEnd);
            proof {
                assert(self@.subrange(0, k + 1 as int).drop_last() =~= self@.subrange(
                    0,
                    k as int,
                ));
                assert(self@.subrange(0, k + 1 as int).last() == self@[k as int]);
                assert(self@[k as int].1 == view_voices(self.staffs@[k as int].1.voices@));
                assert(view_items(out@) =~= sp_flatten(self@.subrange(0, k + 1 as int)));
            }
            k = k + 1;
        }
        proof {
            assert(self@.subrange(0, self@.len() as int) =~= self@);
        }
        out
    }

    /// Walk the score in document order: one callback per step of
    /// `flatten`, whose contract fixes exactly which staves, voices and
    /// events are handed out, and in which order.
    pub fn visit<V: Visitor>(&self, v: &mut V) {
        let items = self.flatten();
        let mut i: usize = 0;
        while i < items.len()
            invariant
                0 <= i <= items@.len(),
            decreases items@.len() - i,
        {
            match &items[i] {
                VisitItem::StaffBegin => v.on_staff_begin(),
                VisitItem::StaffEnd => v.on_staff_end(),
                VisitItem::Voice(w) => v.on_voice(w),
                VisitItem::Note(n) => v.on_note(n),
                VisitItem::Rest(r) => v.on_rest(r),
                VisitItem::Chord(c) => v.on_chord(c),
                VisitItem::Tag(t) => v.on_tag(t),
            }
            i = i + 1;
        }
    }
}

} // verus!
