use munote::accidentals::Accidentals;
use munote::context::Context;
use munote::decimal::Decimal;
use munote::error::ParseError;
use munote::event::Event;
use munote::note::{Diatonic, Note, NoteName};
use munote::scan::chars_of;
use munote::tag::{Tag, TagType};
use munote::tag_defs::{TagDefinition, TagDefinitions};
use munote::tag_id::TagId;
use munote::tag_param::TagParam;
use munote::tag_validator::TagValidator;
use munote::unit::Unit;

fn parse_tag(input: &str) -> Tag {
    let mut ctx = Context::default();
    let s = chars_of(input);
    let (tag, end) = Tag::parse(&s, 0, &mut ctx).expect("tag should parse");
    assert_eq!(end, s.len());
    tag
}

#[test]
fn parse_simple() {
    let tag = parse_tag("\\bar");
    assert_eq!(tag.id, TagId::Bar);
}

#[test]
fn tag_parse_string_param() {
    let tag = parse_tag("\\meter<\"2/4\">");
    assert_eq!(tag.id, TagId::Meter);
    assert_eq!(tag.params, vec![TagParam::Str("2/4".to_string())]);

    let tag = parse_tag("\\harmony<\"F#m7\">");
    assert_eq!(tag.id, TagId::Harmony);
    assert_eq!(tag.params, vec![TagParam::Str("F#m7".to_string())]);
}

#[test]
fn parse_int_number_param() {
    let tag = parse_tag("\\staff<1>");
    assert_eq!(tag.id, TagId::Staff);
    assert_eq!(tag.params, vec![TagParam::Number(Decimal::from_int(false, 1))]);
}

#[test]
fn parse_float_number_param() {
    let tag = parse_tag("\\accidental<dy=-0.5hs>");
    assert_eq!(tag.id, TagId::Accidental);
    assert_eq!(
        tag.params,
        vec![TagParam::VarNumberUnit(
            "dy".to_string(),
            Decimal::new(true, 5, 1),
            Unit::Hs
        )]
    );
}

#[test]
fn parse_number_unit_param() {
    let tag = parse_tag("\\space<1cm>");
    assert_eq!(tag.id, TagId::Space);
    assert_eq!(
        tag.params,
        vec![TagParam::NumberUnit(Decimal::from_int(false, 1), Unit::Cm)]
    );
}

#[test]
fn parse_param_list() {
    let tag = parse_tag("\\pageFormat<lm=1cm, tm=1cm, bm=1cm, rm=1cm>");
    assert_eq!(tag.id, TagId::PageFormat);
    assert_eq!(
        tag.params,
        vec![
            TagParam::VarNumberUnit("lm".to_string(), Decimal::from_int(false, 1), Unit::Cm),
            TagParam::VarNumberUnit("tm".to_string(), Decimal::from_int(false, 1), Unit::Cm),
            TagParam::VarNumberUnit("bm".to_string(), Decimal::from_int(false, 1), Unit::Cm),
            TagParam::VarNumberUnit("rm".to_string(), Decimal::from_int(false, 1), Unit::Cm),
        ]
    );
}

#[test]
fn tag_parse_variable_number_unit_param() {
    let tag = parse_tag("\\systemFormat<dx=1cm>");
    assert_eq!(tag.id, TagId::SystemFormat);
    assert_eq!(
        tag.params,
        vec![TagParam::VarNumberUnit(
            "dx".to_string(),
            Decimal::from_int(false, 1),
            Unit::Cm
        )]
    );
}

#[test]
fn parse_units() {
    let units = [
        Unit::M,
        Unit::Cm,
        Unit::Mm,
        Unit::In,
        Unit::Pt,
        Unit::Pc,
        Unit::Hs,
    ];
    for u in units {
        let tag = parse_tag(&format!("\\systemFormat<dx=1{}>", u.name()));
        assert_eq!(
            tag.params,
            vec![TagParam::VarNumberUnit(
                "dx".to_string(),
                Decimal::from_int(false, 1),
                u
            )]
        );
    }
}

#[test]
fn tag_parse_variable_string_param() {
    let tag = parse_tag("\\accol<type=\"thinBrace\">");
    assert_eq!(tag.id, TagId::Accolade);
    assert_eq!(
        tag.params,
        vec![TagParam::VarString(
            "type".to_string(),
            "thinBrace".to_string()
        )]
    );
}

#[test]
fn parse_symbols() {
    let tag = parse_tag("\\tie(d e)");
    assert_eq!(tag.id, TagId::Tie);
    assert_eq!(tag.events.len(), 2);
    assert_eq!(
        tag.events[0],
        Event::Note(Note::from_name(NoteName::Diatonic(Diatonic::D)))
    );
    assert_eq!(
        tag.events[1],
        Event::Note(Note::from_name(NoteName::Diatonic(Diatonic::E)))
    );
}

#[test]
fn as_number() {
    let tag = parse_tag("\\staff<1>");
    assert_eq!(tag.as_number().unwrap(), Decimal::from_int(false, 1));
}

#[test]
fn compound() {
    let tag = parse_tag("\\accidental<size=1.4>(d&)");
    assert_eq!(tag.id, TagId::Accidental);
    assert_eq!(
        tag.params,
        vec![TagParam::VarNumber("size".to_string(), Decimal::new(false, 14, 1))]
    );
    assert_eq!(
        tag.events[0],
        Event::Note(
            Note::from_name(NoteName::Diatonic(Diatonic::D))
                .with_accidentals(Accidentals::Flat)
        )
    );

    let tag = parse_tag("\\tuplet<\"-3-\",dy1=-3, dy2=1>(c/6 d e&)");
    assert_eq!(tag.id, TagId::Tuplet);

    let tag = parse_tag("\\tie (a/1 | \\harmony<\"G7\", dy=2> a)");
    assert_eq!(tag.id, TagId::Tie);

    let tag = parse_tag("\\instr<\"Pizz.\",  autopos=\"on\", fsize=10pt>");
    assert_eq!(tag.id, TagId::Instrument);

    let tag = parse_tag("\\pizz<\"buzz\"> (\\stacc(a1 b) \\ten(a1 b))");
    assert_eq!(tag.id, TagId::Pizzicato);
}

#[test]
fn eat_whitespaces() {
    let tag = parse_tag("\\tuplet < \"-3-\",dy1=-3, dy2=1>(c/6 d e&)");
    assert_eq!(tag.id, TagId::Tuplet);
}

#[test]
fn lookup_variants() {
    assert_eq!(parse_tag("\\acc").id, TagId::Accidental);
    assert_eq!(parse_tag("|").id, TagId::Bar);
}

#[test]
fn begin_suffix_pairing() {
    // A name ending in `Begin` that is not itself a tag name is
    // stripped, and the suffix pairs the opener.
    let tag = parse_tag("\\tieBegin:1(a)");
    assert_eq!(tag.id, TagId::Tie);
    assert_eq!(tag.ty, TagType::Begin(1));
    assert_eq!(tag.events.len(), 1);
    assert_eq!(
        tag.events[0],
        Event::Note(Note::from_name(NoteName::Diatonic(Diatonic::A)))
    );

    let tag = parse_tag("\\tieEnd:1");
    assert_eq!(tag.id, TagId::Tie);
    assert_eq!(tag.ty, TagType::End(1));
}

fn parse_tag_param(input: &str) -> TagParam {
    let s = chars_of(input);
    let (param, end) = TagParam::parse(&s, 0).expect("param should parse");
    assert_eq!(end, s.len());
    param
}

#[test]
fn tag_param_parse_string_param() {
    assert_eq!(parse_tag_param("\"2/4\""), TagParam::Str("2/4".to_string()));
    assert_eq!(parse_tag_param("\"F#m7\""), TagParam::Str("F#m7".to_string()));
    assert_eq!(parse_tag_param("\"\\166\""), TagParam::Str("\\166".to_string()));
}

#[test]
fn parse_number_param() {
    assert_eq!(
        parse_tag_param("1"),
        TagParam::Number(Decimal::from_int(false, 1))
    );
    assert_eq!(
        parse_tag_param("-0.5"),
        TagParam::Number(Decimal::new(true, 5, 1))
    );
}

#[test]
fn tag_param_parse_variable_number_unit_param() {
    assert_eq!(
        parse_tag_param("dx=1cm"),
        TagParam::VarNumberUnit("dx".to_string(), Decimal::from_int(false, 1), Unit::Cm)
    );
}

#[test]
fn parse_number_units() {
    let units = [
        Unit::M,
        Unit::Cm,
        Unit::Mm,
        Unit::In,
        Unit::Pt,
        Unit::Pc,
        Unit::Hs,
    ];
    for u in units {
        assert_eq!(
            parse_tag_param(&format!("1{}", u.name())),
            TagParam::NumberUnit(Decimal::from_int(false, 1), u)
        );
    }
}

#[test]
fn tag_param_parse_variable_string_param() {
    assert_eq!(
        parse_tag_param("type=\"thinBrace\""),
        TagParam::VarString("type".to_string(), "thinBrace".to_string())
    );
}

#[test]
fn valid_tag() {
    let defs = TagDefinitions::default();
    let validator = TagValidator;
    let tag = Tag::from_id(TagId::Accelerando).with_type(TagType::Range);
    assert!(validator.validate(&tag, &defs).is_ok());
}

#[test]
fn position_rejected_when_schema_declares_range() {
    // A positional occurrence of a tag the schema declares as a range
    // fails validation with a type mismatch.
    let entries = vec![(
        TagId::Accelerando,
        TagDefinition::new(TagType::Range, Vec::new(), Vec::new()),
    )];
    let defs = TagDefinitions::new(entries).expect("schema should build");
    let validator = TagValidator;
    let tag = Tag::from_id(TagId::Accelerando);
    assert_eq!(
        validator.validate(&tag, &defs),
        Err(ParseError::TypeMismatch {
            id: TagId::Accelerando,
            expected: TagType::Range,
            found: TagType::Position,
        })
    );
}

#[test]
fn undefined_tag_is_a_configuration_error() {
    let entries = vec![(
        TagId::Meter,
        TagDefinition::new(TagType::Any, Vec::new(), Vec::new()),
    )];
    let defs = TagDefinitions::new(entries).expect("schema should build");
    let validator = TagValidator;
    let tag = Tag::from_id(TagId::Bar);
    assert_eq!(
        validator.validate(&tag, &defs),
        Err(ParseError::UndefinedTag { id: TagId::Bar })
    );
}

#[test]
fn duplicate_alternative_rejected() {
    let entries = vec![
        (
            TagId::Meter,
            TagDefinition::new(TagType::Any, vec!["m".to_string()], Vec::new()),
        ),
        (
            TagId::Mark,
            TagDefinition::new(TagType::Any, vec!["m".to_string()], Vec::new()),
        ),
    ];
    assert!(TagDefinitions::new(entries).is_none());
}

#[test]
fn context_add_tag() {
    let mut ctx = Context::default();
    let tag = Tag::from_id(TagId::Bar);
    ctx.add_tag(tag.clone());
    assert_eq!(ctx.get_tag(TagId::Bar).unwrap(), &tag);
}

#[test]
fn unknown_identifier_fails() {
    let mut ctx = Context::default();
    let s = chars_of("\\unknown");
    assert_eq!(
        Tag::parse(&s, 0, &mut ctx),
        Err(ParseError::UnknownTag { pos: 1 })
    );
}

#[test]
fn empty_param_list_fails() {
    let mut ctx = Context::default();
    let s = chars_of("\\meter<>");
    assert!(matches!(
        Tag::parse(&s, 0, &mut ctx),
        Err(ParseError::Syntax { .. })
    ));
}

#[test]
fn empty_string_param_fails() {
    let s = chars_of("\"\"");
    assert!(TagParam::parse(&s, 0).is_none());
}
