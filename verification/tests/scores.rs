use munote::comment::{all_comments, inline_comments, multiline_comments};
use munote::context::Context;
use munote::error::ParseError;
use munote::score::Score;
use munote::visitor::VisitItem;

fn parse_score(input: &str) -> Result<Score, ParseError> {
    let mut ctx = Context::default();
    Score::parse(input, &mut ctx)
}

#[test]
fn parse_one_voice() {
    let score = parse_score("[ a1 ]").expect("score should parse");
    assert_eq!(score.num_staffs(), 1);

    let staff = score.staff(1).expect("staff one should exist");
    assert_eq!(staff.voices.len(), 1);
    assert_eq!(staff.voices[0].events.len(), 1);
}

#[test]
fn parse_multiple_voices() {
    let score = parse_score(
        "\
{
  [ a1 ],
  [ b1 ]
}",
    )
    .expect("score should parse");

    assert_eq!(score.num_staffs(), 1);

    let staff = score.staff(1).expect("staff one should exist");
    assert_eq!(staff.voices.len(), 2);
}

#[test]
fn skip_comments() {
    let score = parse_score(
        "\
(* this is a comment *)
{
  [ a1 ],% and this too
  [ b1 ]
}",
    )
    .expect("score should parse");

    assert_eq!(score.num_staffs(), 1);
}

#[test]
fn invalid_score() {
    let res = parse_score("{ [ \\unknown ] }");
    assert_eq!(res.unwrap_err(), ParseError::UnknownTag { pos: 5 });

    assert!(parse_score("{ [ \\accelerando ] }").is_err());
}

#[test]
fn unterminated_voice_fails() {
    assert!(matches!(
        parse_score("[ a1"),
        Err(ParseError::Syntax { .. })
    ));
}

#[test]
fn staff_assignment() {
    // A staff tag routes the enclosing voice, and stays in effect for
    // later voices until another staff tag replaces it.
    let score = parse_score("{ [ \\staff<2> a1 ], [ b1 ] }").expect("score should parse");
    assert_eq!(score.num_staffs(), 1);
    let staff = score.staff(2).expect("staff two should exist");
    assert_eq!(staff.voices.len(), 2);
    assert!(score.staff(1).is_none());
}

#[test]
fn remove_inline_comments() {
    let res = inline_comments(
        "\
a % remove this
b % remove this
",
    );
    assert_eq!(&res, "a \nb \n");
}

#[test]
fn remove_multiline_comments() {
    let res = multiline_comments(
        "\
a (* remove this
until this *) b(* also this *)
",
    );
    assert_eq!(&res, "a  b\n");
}

#[test]
fn all_comments_strips_both() {
    let res = all_comments("a (* x *)b % y\nc");
    assert_eq!(&res, "a b \nc");
}

#[test]
fn comment_stripping_idempotent() {
    // Stripping a stripped document changes nothing, so parsing after
    // one pass or two yields the same score.
    let doc = "\
(* lead *)
{
  [ a1 ], % first
  [ b1 (* inner *) ]
}";
    let once = all_comments(doc);
    let twice = all_comments(&once);
    assert_eq!(once, twice);

    let mut ctx1 = Context::default();
    let s1 = Score::parse(doc, &mut ctx1).expect("score should parse");
    let mut ctx2 = Context::default();
    let s2 = Score::parse(&once, &mut ctx2).expect("stripped score should parse");
    assert_eq!(s1, s2);
}

struct TraceVisitor {
    trace: Vec<String>,
}

impl munote::visitor::Visitor for TraceVisitor {
    fn on_chord(&mut self, _chord: &munote::chord::Chord) {
        self.trace.push("chord".to_string());
    }

    fn on_note(&mut self, _note: &munote::note::Note) {
        self.trace.push("note".to_string());
    }

    fn on_rest(&mut self, _rest: &munote::rest::Rest) {
        self.trace.push("rest".to_string());
    }

    fn on_staff_begin(&mut self) {
        self.trace.push("staff begin".to_string());
    }

    fn on_staff_end(&mut self) {
        self.trace.push("staff end".to_string());
    }

    fn on_tag(&mut self, _tag: &munote::tag::Tag) {
        self.trace.push("tag".to_string());
    }

    fn on_voice(&mut self, _voice: &munote::voice::Voice) {
        self.trace.push("voice".to_string());
    }
}

#[test]
fn visit_in_document_order() {
    let score = parse_score("{ [ a1 _ ], [ { c, e } \\bar ] }").expect("score should parse");
    let mut v = TraceVisitor { trace: Vec::new() };
    score.visit(&mut v);
    assert_eq!(
        v.trace,
        vec![
            "staff begin".to_string(),
            "voice".to_string(),
            "note".to_string(),
            "rest".to_string(),
            "voice".to_string(),
            "chord".to_string(),
            "note".to_string(),
            "note".to_string(),
            "tag".to_string(),
            "staff end".to_string(),
        ]
    );
}

#[test]
fn flatten_matches_trace() {
    let score = parse_score("{ [ a1 _ ], [ { c, e } \\bar ] }").expect("score should parse");
    let items = score.flatten();
    let kinds: Vec<&str> = items
        .iter()
        .map(|it| match it {
            VisitItem::StaffBegin => "staff begin",
            VisitItem::StaffEnd => "staff end",
            VisitItem::Voice(_) => "voice",
            VisitItem::Note(_) => "note",
            VisitItem::Rest(_) => "rest",
            VisitItem::Chord(_) => "chord",
            VisitItem::Tag(_) => "tag",
        })
        .collect();
    assert_eq!(
        kinds,
        vec![
            "staff begin",
            "voice",
            "note",
            "rest",
            "voice",
            "chord",
            "note",
            "note",
            "tag",
            "staff end",
        ]
    );

    let mut v = TraceVisitor { trace: Vec::new() };
    score.visit(&mut v);
    assert_eq!(v.trace.len(), items.len());
}
