use munote::accidentals::Accidentals;
use munote::decimal::Decimal;
use munote::dots::Dots;
use munote::duration::{gcd, Duration};
use munote::scan::{chars_of, is_whitespace, skip_ws};
use munote::unit::Unit;

fn parse_duration(input: &str) -> Duration {
    let s = chars_of(input);
    let (parsed, end) = Duration::parse(&s, 0).expect("duration should parse");
    assert_eq!(end, s.len());
    parsed
}

fn assert_duration(actual: Duration, e1: Duration, e2: f32) {
    assert_eq!(actual, e1);
    assert!((actual.num as f32 / actual.denom as f32 - e2).abs() < 0.001);
}

#[test]
fn valid() {
    assert_duration(parse_duration("*1"), Duration::new(1, 1), 1.0);
    assert_duration(parse_duration("*2/4"), Duration::new(2, 4), 0.5);
    assert_duration(parse_duration("/3"), Duration::new(1, 3), 0.333);
    assert_duration(parse_duration("*5ms"), Duration::new(5, 1), 5.0);
}

#[test]
fn add() {
    assert_duration(
        Duration::new(1, 1).plus(&Duration::new(1, 1)),
        Duration::new(2, 1),
        2.0,
    );
    assert_duration(
        Duration::new(1, 1).plus(&Duration::new(1, 2)),
        Duration::new(3, 2),
        1.5,
    );
    assert_duration(
        Duration::new(1, 2).plus(&Duration::new(1, 2)),
        Duration::new(1, 1),
        1.0,
    );
}

#[test]
fn add_scalar() {
    assert_duration(
        Duration::new(1, 1).plus(&Duration::new(1, 1)),
        Duration::new(2, 1),
        2.0,
    );
}

#[test]
fn lowest_terms() {
    // For every pair with a nonzero denominator the stored fraction is
    // reduced; zero on either side degrades to the fraction one.
    assert_eq!(Duration::new(4, 8), Duration { num: 1, denom: 2 });
    assert_eq!(Duration::new(6, 9), Duration { num: 2, denom: 3 });
    assert_eq!(Duration::new(7, 7), Duration { num: 1, denom: 1 });
    assert_eq!(Duration::new(0, 5), Duration { num: 1, denom: 1 });
    assert_eq!(Duration::new(5, 0), Duration { num: 1, denom: 1 });
    assert_eq!(Duration::new(0, 0), Duration { num: 1, denom: 1 });
    for n in 1..40u16 {
        for d in 1..40u16 {
            let r = Duration::new(n, d);
            assert_eq!(gcd(r.num as u64, r.denom as u64), 1);
        }
    }
}

fn parse_dots(input: &str) -> Dots {
    let s = chars_of(input);
    let (parsed, end) = Dots::parse(&s, 0);
    assert_eq!(end, s.len());
    parsed
}

fn assert_dots(dots: Dots, expected: Dots, len: usize, duration: Duration) {
    assert_eq!(dots, expected);
    assert_eq!(dots as usize, len);
    assert_eq!(dots.duration(), duration);
}

#[test]
fn parse_valid() {
    assert_dots(parse_dots(""), Dots::NoDot, 0, Duration { num: 0, denom: 1 });
    assert_dots(parse_dots("."), Dots::Single, 1, Duration::new(1, 2));
    assert_dots(parse_dots(".."), Dots::Double, 2, Duration::new(3, 4));
    assert_dots(parse_dots("..."), Dots::Triple, 3, Duration::new(7, 8));
}

#[test]
fn triple_dots_augmentation() {
    // The canonical dotted-note series ends at 7/8, and a whole note
    // with triple dots lasts 15/8.
    assert_eq!(Dots::Triple.duration(), Duration { num: 7, denom: 8 });
    let full = Duration::new(1, 1).times(&Dots::Triple.factor());
    assert_eq!(full, Duration::new(15, 8));
}

fn parse_accidental(input: &str) -> Accidentals {
    let s = chars_of(input);
    let (parsed, end) = Accidentals::parse(&s, 0).expect("accidentals should parse");
    assert_eq!(end, s.len());
    parsed
}

#[test]
fn accidentals_parse_accidentals() {
    assert_eq!(parse_accidental(""), Accidentals::Natural);
    assert_eq!(parse_accidental("#"), Accidentals::Sharp);
    assert_eq!(parse_accidental("&"), Accidentals::Flat);
    assert_eq!(parse_accidental("##"), Accidentals::DoubleSharp);
    assert_eq!(parse_accidental("&&"), Accidentals::DoubleFlat);
}

#[test]
fn mixed_accidental_run_rejected() {
    let s = chars_of("#&");
    assert!(Accidentals::parse(&s, 0).is_none());
}

#[test]
fn whitespaces() {
    let s = chars_of(" \t\n");
    assert_eq!(skip_ws(&s, 0), s.len());
    assert!(is_whitespace(' '));
    assert!(is_whitespace('\t'));
    assert!(is_whitespace('\n'));
    assert!(!is_whitespace('a'));
}

#[test]
fn unit_names_parse_back() {
    let units = [
        Unit::M,
        Unit::Cm,
        Unit::Mm,
        Unit::In,
        Unit::Pt,
        Unit::Pc,
        Unit::Hs,
    ];
    for u in units {
        let s = chars_of(&u.name());
        let (parsed, end) = Unit::parse(&s, 0).expect("unit should parse");
        assert_eq!(parsed, u);
        assert_eq!(end, s.len());
    }
}

#[test]
fn decimal_normalized() {
    // Equal values get equal representations.
    assert_eq!(Decimal::new(false, 150, 2), Decimal::new(false, 15, 1));
    assert_eq!(Decimal::new(false, 20, 1), Decimal::from_int(false, 2));
    assert_eq!(Decimal::new(true, 0, 3), Decimal::from_int(false, 0));
    assert_eq!(Decimal::from_int(false, 1).as_u8(), Some(1));
    assert_eq!(Decimal::new(true, 5, 1).as_u8(), None);
}
