use munote::accidentals::Accidentals;
use munote::context::Context;
use munote::dots::Dots;
use munote::duration::Duration;
use munote::note::{Chromatic, Diatonic, Note, NoteName, Solfege, StemDirection};
use munote::rest::Rest;
use munote::scan::chars_of;

fn parse_note(input: &str) -> Note {
    let mut ctx = Context::default();
    let s = chars_of(input);
    let (parsed, end) = Note::parse(&s, 0, &mut ctx).expect("note should parse");
    assert_eq!(end, s.len());
    parsed
}

fn assert_note(note: &Note, name: NoteName, octave: i8) {
    assert_eq!(note.name, name);
    assert_eq!(note.octave, octave);
}

#[test]
fn parse_empty() {
    let note = parse_note("empty");
    assert_eq!(note.name, NoteName::Empty);
}

#[test]
fn note_parse_diatonic() {
    let note = parse_note("a1");
    assert_note(&note, NoteName::Diatonic(Diatonic::A), 1);
    assert_eq!(note.duration, Duration::new(1, 1));

    let note = parse_note("f");
    assert_note(&note, NoteName::Diatonic(Diatonic::F), 1);
}

#[test]
fn note_parse_chromatic() {
    let note = parse_note("cis2");
    assert_note(&note, NoteName::Chromatic(Chromatic::Cis), 2);
}

#[test]
fn note_parse_solfege() {
    let note = parse_note("sol-1");
    assert_note(&note, NoteName::Solfege(Solfege::Sol), -1);
}

#[test]
fn note_parse_accidentals() {
    let note = parse_note("c#1");
    assert_eq!(note.accidentals, Accidentals::Sharp);
}

#[test]
fn note_parse_duration() {
    let note = parse_note("c*1");
    assert_eq!(note.duration, Duration::new(1, 1));
}

fn assert_stem_beams(note: &Note, has_stem: bool, num_beams: u8) {
    assert_eq!(note.has_stem(), has_stem);
    assert_eq!(note.num_beams(), num_beams);
}

#[test]
fn stem_and_beams() {
    assert_stem_beams(&parse_note("c"), false, 0);
    assert_stem_beams(&parse_note("c/2"), true, 0);
    assert_stem_beams(&parse_note("c/4"), true, 0);
    assert_stem_beams(&parse_note("c/8"), true, 1);
    assert_stem_beams(&parse_note("c/16"), true, 2);
    assert_stem_beams(&parse_note("c/32"), true, 3);
    assert_eq!(parse_note("c").stem_direction(), StemDirection::Down);
}

fn assert_dots(note: &Note, dots: Dots, duration: Duration, duration_val: f32) {
    assert_eq!(note.dots, dots);
    assert_eq!(note.full_duration(), duration);
    let f = note.full_duration();
    assert!(((f.num as f32 / f.denom as f32) - duration_val).abs() < 1e-6);
}

#[test]
fn note_parse_dots() {
    assert_dots(&parse_note("c"), Dots::NoDot, Duration::new(1, 1), 1.0);
    assert_dots(&parse_note("c."), Dots::Single, Duration::new(3, 2), 1.5);
    assert_dots(&parse_note("c.."), Dots::Double, Duration::new(7, 4), 1.75);
    assert_dots(&parse_note("c..."), Dots::Triple, Duration::new(15, 8), 1.875);
    assert_dots(&parse_note("c/8."), Dots::Single, Duration::new(3, 16), 0.1875);
}

#[test]
fn note_same_octave() {
    let mut ctx = Context::default();
    ctx.octave = 2;

    let s = chars_of("c");
    let (note, _) = Note::parse(&s, 0, &mut ctx).expect("note should parse");
    assert_note(&note, NoteName::Diatonic(Diatonic::C), 2);
}

#[test]
fn note_same_duration() {
    let duration = Duration::new(2, 1);
    let mut ctx = Context::default();
    ctx.duration = duration;

    let s = chars_of("c");
    let (note, _) = Note::parse(&s, 0, &mut ctx).expect("note should parse");
    assert_eq!(note.duration, duration);
}

#[test]
fn diatonic_pitch() {
    assert_eq!(
        Note::from_name(NoteName::Diatonic(Diatonic::C)).diatonic_pitch(),
        -5
    );
    assert_eq!(
        Note::from_name(NoteName::Diatonic(Diatonic::A))
            .with_octave(2)
            .diatonic_pitch(),
        7
    );
    assert_eq!(
        Note::from_name(NoteName::Diatonic(Diatonic::C))
            .with_octave(2)
            .diatonic_pitch(),
        7 - 5
    );
    assert_eq!(
        Note::from_name(NoteName::Diatonic(Diatonic::C))
            .with_octave(0)
            .diatonic_pitch(),
        -7 - 5
    );
}

#[test]
fn chromatic_pitch() {
    assert_eq!(
        Note::from_name(NoteName::Diatonic(Diatonic::C)).chromatic_pitch(),
        -9
    );
    assert_eq!(
        Note::from_name(NoteName::Diatonic(Diatonic::A))
            .with_octave(2)
            .chromatic_pitch(),
        12
    );
    assert_eq!(
        Note::from_name(NoteName::Diatonic(Diatonic::C))
            .with_octave(2)
            .chromatic_pitch(),
        12 - 9
    );
    assert_eq!(
        Note::from_name(NoteName::Diatonic(Diatonic::C))
            .with_octave(0)
            .chromatic_pitch(),
        -12 - 9
    );
}

fn parse_rest(input: &str) -> Rest {
    let mut ctx = Context::default();
    let s = chars_of(input);
    let (rest, end) = Rest::parse(&s, 0, &mut ctx).expect("rest should parse");
    assert_eq!(end, s.len());
    rest
}

#[test]
fn parse() {
    let rest = parse_rest("_");
    assert_eq!(rest.duration, Duration::new(1, 1));
    assert_eq!(rest.dots, Dots::NoDot);
}

#[test]
fn rest_parse_duration() {
    let rest = parse_rest("_*5/2");
    assert_eq!(rest.duration, Duration::new(5, 2));
}

#[test]
fn rest_parse_dots() {
    let rest = parse_rest("_.");
    assert_eq!(rest.dots, Dots::Single);
}

#[test]
fn rest_same_duration() {
    let duration = Duration::new(2, 1);
    let mut ctx = Context::default();
    ctx.duration = duration;

    let s = chars_of("_");
    let (rest, _) = Rest::parse(&s, 0, &mut ctx).expect("rest should parse");
    assert_eq!(rest.duration, duration);
}
