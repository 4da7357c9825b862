//! Chords: brace-delimited groups of events sounded together.

use crate::duration::Duration;
use crate::event::Event;
use crate::event::EventM;
use crate::event::view_events;
use vstd::prelude::*;

verus! {

/// A chord: its member events and its duration, the largest full
/// duration among the members.
#[derive(Debug)]
pub struct Chord {
    pub events: Vec<Event>,
    pub duration: Duration,
}

/// The model of a chord.
#[verifier::ext_equal]
pub struct ChordM {
    pub events: Seq<EventM>,
    pub duration: Duration,
}

impl View for Chord {
    type V = ChordM;

    open spec fn view(&self) -> ChordM {
        ChordM { events: view_events(self.events@), duration: self.duration }
    }
}

impl Chord {
    /// A chord from its events and duration.
    pub fn new(events: Vec<Event>, duration: Duration) -> (r: Chord)
        ensures
            r@ == (ChordM { events: view_events(events@), duration }),
    {
        Chord { events, duration }
    }
}

} // verus!
