use munote::chord::Chord;
use munote::context::Context;
use munote::decimal::Decimal;
use munote::duration::Duration;
use munote::event::{same_symbols, Event};
use munote::note::{Diatonic, Note, NoteName};
use munote::rest::Rest;
use munote::scan::chars_of;
use munote::tag::Tag;
use munote::tag_id::TagId;
use munote::tag_param::TagParam;
use munote::voice::Voice;

fn chord_of(input: &str) -> Chord {
    let mut ctx = Context::default();
    let s = chars_of(input);
    let (chord, end) = Chord::parse(&s, 0, &mut ctx).expect("chord should parse");
    assert_eq!(end, s.len());
    chord
}

fn assert_same_symbols(lhs: &Vec<Event>, rhs: &Vec<Event>) {
    assert!(same_symbols(lhs, rhs));
}

fn note(d: Diatonic) -> Note {
    Note::from_name(NoteName::Diatonic(d))
}

#[test]
fn parse_one() {
    let chord = chord_of("{ a1 }");
    assert_same_symbols(&chord.events, &vec![Event::Note(note(Diatonic::A))]);
}

#[test]
fn parse_multiple() {
    let chord = chord_of("{ a1, b1 }");
    assert_same_symbols(
        &chord.events,
        &vec![Event::Note(note(Diatonic::A)), Event::Note(note(Diatonic::B))],
    );
}

#[test]
fn duration() {
    let chord = chord_of("{ a1*2, b1*4 }");
    assert_eq!(chord.duration, Duration::new(4, 1));
}

#[test]
fn chord_same_duration() {
    let chord = chord_of("{ a1*2, b1 }");
    assert_same_symbols(
        &chord.events,
        &vec![
            Event::Note(note(Diatonic::A).with_duration(2, 1)),
            Event::Note(note(Diatonic::B).with_duration(2, 1)),
        ],
    );
    // The chord's own duration is the largest full duration among its
    // members.
    assert_eq!(chord.duration, Duration::new(2, 1));
}

#[test]
fn chord_same_octave() {
    let chord = chord_of("{ a2, b }");
    assert_same_symbols(
        &chord.events,
        &vec![
            Event::Note(note(Diatonic::A).with_octave(2)),
            Event::Note(note(Diatonic::B).with_octave(2)),
        ],
    );
}

#[test]
fn with_tags() {
    let chord = chord_of("{ c, \\staff<1> g }");
    assert_same_symbols(
        &chord.events,
        &vec![
            Event::Note(note(Diatonic::C)),
            Event::Tag(
                Tag::from_id(TagId::Staff)
                    .with_param(TagParam::Number(Decimal::from_int(false, 1))),
            ),
            Event::Note(note(Diatonic::G)),
        ],
    );
}

fn parse_voice(input: &str) -> Voice {
    let mut ctx = Context::default();
    let s = chars_of(input);
    let (voice, end) = Voice::parse(&s, 0, &mut ctx).expect("voice should parse");
    assert_eq!(end, s.len());
    voice
}

#[test]
fn parse_one_note() {
    let voice = parse_voice("[ a1 ]");
    assert_eq!(voice.events[0], Event::Note(note(Diatonic::A)));
    assert_eq!(voice.staff, 1);
}

#[test]
fn parse_notes_and_rests() {
    let voice = parse_voice("[ a1 _ ]");
    assert_eq!(voice.events.len(), 2);
    assert_eq!(voice.events[0], Event::Note(note(Diatonic::A)));
    assert_eq!(voice.events[1], Event::Rest(Rest::default()));
}

#[test]
fn parse_chord() {
    let voice = parse_voice("[ { a1*2, b } ]");
    assert_eq!(voice.events.len(), 1);

    let chord = Chord::new(
        vec![
            Event::Note(note(Diatonic::A).with_duration(2, 1)),
            Event::Note(note(Diatonic::B).with_duration(2, 1)),
        ],
        Duration::new(2, 1),
    );
    assert_eq!(voice.events[0], Event::Chord(chord));
}
