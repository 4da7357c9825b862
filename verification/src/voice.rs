//! Voices: bracket-delimited event sequences assigned to a staff.

use crate::event::Event;
use crate::event::EventM;
use crate::event::view_events;
use vstd::prelude::*;

verus! {

/// A voice: its target staff number and its events in order.
#[derive(Debug)]
pub struct Voice {
    pub staff: u8,
    pub events: Vec<Event>,
}

/// The model of a voice.
#[verifier::ext_equal]
pub struct VoiceM {
    pub staff: u8,
    pub events: Seq<EventM>,
}

impl View for Voice {
    type V = VoiceM;

    open spec fn view(&self) -> VoiceM {
        VoiceM { staff: self.staff, events: view_events(self.events@) }
    }
}

/// The models of a sequence of voices.
pub open spec fn view_voices(s: Seq<Voice>) -> Seq<VoiceM> {
    s.map_values(|v: Voice| v@)
}

impl Voice {
    /// A voice from its staff number and events.
    pub fn new(staff: u8, events: Vec<Event>) -> (r: Voice)
        ensures
            r@ == (VoiceM { staff, events: view_events(events@) }),
    {
        Voice { staff, events }
    }
}

impl PartialEq for Voice {
    /// Voices are equal when their models are.
    fn eq(&self, other: &Self) -> (r: bool) {
        let r = self.staff == other.staff && crate::event::events_equal(
            &self.events,
            &other.events,
        );
        proof {
            if r {
                assert(self@ =~= other@);
            }
        }
        r
    }
}

impl vstd::std_specs::cmp::PartialEqSpecImpl for Voice {
    open spec fn obeys_eq_spec() -> bool {
        true
    }

    open spec fn eq_spec(&self, other: &Self) -> bool {
        self@ == other@
    }
}

} // verus!
