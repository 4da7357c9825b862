//! Scores: voices grouped into staves keyed by staff number.
//!
//! The staves appear in first-encounter order of their numbers; within a
//! staff the voices keep document order.

use crate::voice::Voice;
use crate::voice::VoiceM;
use crate::voice::view_voices;
use vstd::prelude::*;

verus! {

/// A staff: its voices in document order.
#[derive(Debug)]
pub struct Staff {
    pub voices: Vec<Voice>,
}

/// The model of a staff: the sequence of its voices' models.
pub open spec fn view_staff(s: Staff) -> Seq<VoiceM> {
    view_voices(s.voices@)
}

impl View for Staff {
    type V = Seq<VoiceM>;

    open spec fn view(&self) -> Seq<VoiceM> {
        view_staff(*self)
    }
}

impl Staff {
    /// Append a voice to the staff.
    pub fn add_voice(&mut self, voice: Voice)
        ensures
            final(self)@ == old(self)@.push(voice@),
    {
        let ghost before = self.voices@;
        self.voices.push(voice);
        proof {
            assert(view_voices(self.voices@) =~= view_voices(before).push(self.voices@.last()@));
        }
    }
}

impl Default for Staff {
    /// A staff with no voices.
    fn default() -> (r: Self)
        ensures
            r@ == Seq::<VoiceM>::empty(),
    {
        let r = Staff { voices: Vec::new() };
        proof {
            assert(view_voices(r.voices@) =~= Seq::<VoiceM>::empty());
        }
        r
    }
}

/// A score: staves in first-encounter order, each keyed by its number.
#[derive(Debug)]
pub struct Score {
    pub staffs: Vec<(u8, Staff)>,
}

/// The model of a score.
pub open spec fn view_score(s: Seq<(u8, Staff)>) -> Seq<(u8, Seq<VoiceM>)> {
    s.map_values(|p: (u8, Staff)| (p.0, view_staff(p.1)))
}

impl View for Score {
    type V = Seq<(u8, Seq<VoiceM>)>;

    open spec fn view(&self) -> Seq<(u8, Seq<VoiceM>)> {
        view_score(self.staffs@)
    }
}

/// The position of the staff with the given number, if present.
pub open spec fn spec_find_staff(groups: Seq<(u8, Seq<VoiceM>)>, key: u8) -> Option<int>
    decreases groups.len(),
{
    if groups.len() == 0 {
        Option::None
    } else if groups.first().0 == key {
        Option::Some(0)
    } else {
        match spec_find_staff(groups.drop_first(), key) {
            Option::Some(ix) => Option::Some(ix + 1),
            Option::None => Option::None,
        }
    }
}

/// What `spec_find_staff` finds: the first entry with the key.
pub proof fn lemma_find_staff(groups: Seq<(u8, Seq<VoiceM>)>, key: u8)
    ensures
        match spec_find_staff(groups, key) {
            Option::Some(ix) => 0 <= ix < groups.len() && groups[ix].0 == key && (forall|m: int|
                0 <= m < ix ==> (#[trigger] groups[m]).0 != key),
            Option::None => forall|m: int|
                0 <= m < groups.len() ==> (#[trigger] groups[m]).0 != key,
        },
    decreases groups.len(),
{
    if groups.len() > 0 && groups.first().0 != key {
        lemma_find_staff(groups.drop_first(), key);
        assert forall|m: int| 1 <= m < groups.len() implies groups.drop_first()[m - 1]
            == groups[m] by {}
    }
}

/// A voice added to its staff: an existing staff gains the voice, a new
/// number opens a staff at the end.
pub open spec fn spec_add_voice(groups: Seq<(u8, Seq<VoiceM>)>, v: VoiceM) -> Seq<
    (u8, Seq<VoiceM>),
> {
    match spec_find_staff(groups, v.staff) {
        Option::Some(ix) => groups.update(ix, (v.staff, groups[ix].1.push(v))),
        Option::None => groups.push((v.staff, seq![v])),
    }
}

/// The grouping of a list of voices into staves, in document order.
pub open spec fn spec_group(vs: Seq<VoiceM>) -> Seq<(u8, Seq<VoiceM>)>
    decreases vs.len(),
{
    if vs.len() == 0 {
        Seq::empty()
    } else {
        spec_add_voice(spec_group(vs.drop_last()), vs.last())
    }
}

/// The position of the staff with the given number, scanning in order.
fn find_staff(staffs: &Vec<(u8, Staff)>, key: u8) -> (r: Option<usize>)
    ensures
        match r {
            Option::Some(ix) => spec_find_staff(view_score(staffs@), key) == Option::Some(
                ix as int,
            ) && ix < staffs@.len(),
            Option::None => spec_find_staff(view_score(staffs@), key) is None,
        },
{
    proof {
        lemma_find_staff(view_score(staffs@), key);
    }
    let mut ix: usize = 0;
    while ix < staffs.len()
        invariant
            0 <= ix <= staffs@.len(),
            forall|m: int| 0 <= m < ix ==> (#[trigger] view_score(staffs@)[m]).0 != key,
        decreases staffs@.len() - ix,
    {
        if staffs[ix].0 == key {
            proof {
                lemma_find_staff(view_score(staffs@), key);
                assert(view_score(staffs@)[ix as int].0 == key);
                match spec_find_staff(view_score(staffs@), key) {
                    Option::Some(fix) => {
                        if fix < ix as int {
                            assert((view_score(staffs@)[fix]).0 == key);
                            assert(false);
                        }
                        if fix > ix as int {
                            assert((view_score(staffs@)[ix as int]).0 != key);
                            assert(false);
                        }
                    },
                    Option::None => {
                        assert((view_score(staffs@)[ix as int]).0 != key);
                        assert(false);
                    },
                }
            }
            return Option::Some(ix);
        }
        ix = ix + 1;
    }
    proof {
        lemma_find_staff(view_score(staffs@), key);
        match spec_find_staff(view_score(staffs@), key) {
            Option::Some(fix) => {
                assert((view_score(staffs@)[fix]).0 == key);
                assert(false);
            },
            Option::None => {},
        }
    }
    Option::None
}

/// A copy of a voice with the same model.
fn clone_voice(v: &Voice) -> (r: Voice)
    ensures
        r@ == v@,
{
    let r = Voice { staff: v.staff, events: crate::event::clone_events(&v.events) };
    proof {
        assert(r@ =~= v@);
    }
    r
}

impl Score {
    /// Group the voices into staves keyed by staff number.
    pub fn new(voices: Vec<Voice>) -> (r: Score)
        ensures
            r@ == spec_group(view_voices(voices@)),
    {
        let ghost vs_m = view_voices(voices@);
        let mut staffs: Vec<(u8, Staff)> = Vec::new();
        proof {
            assert(view_score(staffs@) =~= Seq::<(u8, Seq<VoiceM>)>::empty());
            assert(vs_m.subrange(0, 0) =~= Seq::<VoiceM>::empty());
        }
        let mut i: usize = 0;
        let n = voices.len();
        while i < n
            invariant
                0 <= i <= n,
                n == voices@.len(),
                vs_m == view_voices(voices@),
                vs_m.len() == n,
                view_score(staffs@) == spec_group(vs_m.subrange(0, i as int)),
            decreases n - i,
        {
            let ghost prefix = vs_m.subrange(0, i as int);
            let v = clone_voice(&voices[i]);
            let key = v.staff;
            let ghost before = view_score(staffs@);
            let ghost raw_before = staffs@;
            match find_staff(&staffs, key) {
                Option::Some(ix) => {
                    proof {
                        lemma_find_staff(before, key);
                    }
                    let removed = staffs.remove(ix);
                    let (pkey, mut pstaff) = removed;
                    pstaff.add_voice(v);
                    staffs.insert(ix, (pkey, pstaff));
                    proof {
                        assert(staffs@ =~= raw_before.update(ix as int, (pkey, pstaff)));
                        assert(pkey == key);
                        assert(view_staff(pstaff) == view_staff(raw_before[ix as int].1).push(
                            vs_m[i as int],
                        ));
                        assert(before[ix as int] == (
                            raw_before[ix as int].0,
                            view_staff(raw_before[ix as int].1),
                        ));
                        assert(view_score(staffs@) =~= before.update(
                            ix as int,
                            (key, before[ix as int].1.push(vs_m[i as int])),
                        ));
                    }
                },
                Option::None => {
                    let mut st = Staff { voices: Vec::new() };
                    st.voices.push(v);
                    staffs.push((key, st));
                    proof {
                        assert(view_voices(st.voices@) =~= seq![vs_m[i as int]]);
                        assert(view_score(staffs@) =~= before.push((key, seq![vs_m[i as int]])));
                    }
                },
            }
            proof {
                assert(vs_m.subrange(0, i + 1 as int).drop_last() =~= prefix);
                assert(vs_m.subrange(0, i + 1 as int).last() == vs_m[i as int]);
                assert(view_score(staffs@) == spec_group(vs_m.subrange(0, i + 1 as int)));
            }
            i = i + 1;
        }
        proof {
            assert(vs_m.subrange(0, vs_m.len() as int) =~= vs_m);
        }
        Score { staffs }
    }

    /// How many staves the score has.
    pub fn num_staffs(&self) -> (r: usize)
        ensures
            r == self@.len(),
    {
        self.staffs.len()
    }

    /// The staff with the given number, if present.
    pub fn staff(&self, id: u8) -> (r: Option<&Staff>)
        ensures
            match r {
                Option::Some(st) => {
                    &&& spec_find_staff(self@, id) is Some
                    &&& self@[spec_find_staff(self@, id)->0].1 == st@
                },
                Option::None => spec_find_staff(self@, id) is None,
            },
    {
        match find_staff(&self.staffs, id) {
            Option::Some(ix) => Option::Some(&self.staffs[ix].1),
            Option::None => Option::None,
        }
    }
}

/// Structural equality of voice vectors.
pub fn voices_equal(a: &Vec<Voice>, b: &Vec<Voice>) -> (r: bool)
    ensures
        r == (view_voices(a@) == view_voices(b@)),
{
    if a.len() != b.len() {
        return false;
    }
    let mut k: usize = 0;
    while k < a.len()
        invariant
            0 <= k <= a@.len(),
            a@.len() == b@.len(),
            forall|i: int| 0 <= i < k ==> view_voices(a@)[i] == #[trigger] view_voices(b@)[i],
        decreases a@.len() - k,
    {
        if !(a[k] == b[k]) {
            proof {
                assert(view_voices(a@)[k as int] != view_voices(b@)[k as int]);
            }
            return false;
        }
        k = k + 1;
    }
    proof {
        assert(view_voices(a@) =~= view_voices(b@));
    }
    true
}

impl PartialEq for Staff {
    /// Staves are equal when their voices are.
    fn eq(&self, other: &Self) -> (r: bool) {
        voices_equal(&self.voices, &other.voices)
    }
}

impl vstd::std_specs::cmp::PartialEqSpecImpl for Staff {
    open spec fn obeys_eq_spec() -> bool {
        true
    }

    open spec fn eq_spec(&self, other: &Self) -> bool {
        self@ == other@
    }
}

impl PartialEq for Score {
    /// Scores are equal when their staves are, numbers and all, in
    /// order.
    fn eq(&self, other: &Self) -> (r: bool) {
        if self.staffs.len() != other.staffs.len() {
            proof {
                assert(self@.len() != other@.len());
            }
            return false;
        }
        let mut k: usize = 0;
        while k < self.staffs.len()
            invariant
                0 <= k <= self.staffs@.len(),
                self.staffs@.len() == other.staffs@.len(),
                forall|i: int| 0 <= i < k ==> self@[i] == #[trigger] other@[i],
            decreases self.staffs@.len() - k,
        {
            if !(self.staffs[k].0 == other.staffs[k].0 && voices_equal(
                &self.staffs[k].1.voices,
                &other.staffs[k].1.voices,
            )) {
                proof {
                    assert(self@[k as int] != other@[k as int]);
                }
                return false;
            }
            k = k + 1;
        }
        proof {
            assert(self@ =~= other@);
        }
        true
    }
}

impl vstd::std_specs::cmp::PartialEqSpecImpl for Score {
    open spec fn obeys_eq_spec() -> bool {
        true
    }

    open spec fn eq_spec(&self, other: &Self) -> bool {
        self@ == other@
    }
}

} // verus!
