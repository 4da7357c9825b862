use munote::accidentals::Accidentals;
use munote::decimal::Decimal;
use munote::dots::Dots;
use munote::error::ParseError;
use munote::lexer::{Lexer, Token};
use munote::tag_id::TagId;

fn lex(input: &str) -> Result<Vec<Token>, ParseError> {
    let lexer = Lexer::default();
    lexer.lex(input)
}

#[test]
fn lex_identifier() {
    assert_eq!(lex("a").unwrap(), vec![Token::Identifier("a".to_string())]);
    assert_eq!(lex("abc").unwrap(), vec![Token::Identifier("abc".to_string())]);
    assert_eq!(lex("a1").unwrap(), vec![Token::Identifier("a1".to_string())]);
}

#[test]
fn lex_number() {
    assert_eq!(lex("1").unwrap(), vec![Token::Number(Decimal::from_int(false, 1))]);
    assert_eq!(lex("2.0").unwrap(), vec![Token::Number(Decimal::from_int(false, 2))]);
    assert_eq!(lex("+3.0").unwrap(), vec![Token::Number(Decimal::from_int(false, 3))]);
    assert_eq!(lex("-4.0").unwrap(), vec![Token::Number(Decimal::from_int(true, 4))]);
}

#[test]
fn lex_parens() {
    assert_eq!(
        lex("{[()]}").unwrap(),
        vec![
            Token::Parens('{'),
            Token::Parens('['),
            Token::Parens('('),
            Token::Parens(')'),
            Token::Parens(']'),
            Token::Parens('}'),
        ]
    );
}

#[test]
fn lex_tag_id() {
    assert_eq!(lex("\\tie").unwrap(), vec![Token::TagId(TagId::Tie)]);
}

#[test]
fn lex_string() {
    assert_eq!(lex("\"hello\"").unwrap(), vec![Token::Str("hello".to_string())]);
}

#[test]
fn lex_accidentals() {
    assert_eq!(
        lex("& # && ##").unwrap(),
        vec![
            Token::Accidental(Accidentals::Flat),
            Token::Accidental(Accidentals::Sharp),
            Token::Accidental(Accidentals::DoubleFlat),
            Token::Accidental(Accidentals::DoubleSharp),
        ]
    );
}

#[test]
fn lex_dots() {
    assert_eq!(
        lex(". .. ...").unwrap(),
        vec![
            Token::Dots(Dots::Single),
            Token::Dots(Dots::Double),
            Token::Dots(Dots::Triple),
        ]
    );
}

#[test]
fn lex_failures() {
    assert!(lex("....").is_err());
    assert!(lex("\"open").is_err());
    assert!(lex("\\nosuchtag").is_err());
    assert!(lex("+x").is_err());
    assert!(lex("?").is_err());
}
