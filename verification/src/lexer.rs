//! A standalone tokenizer for the notation language.
//!
//! The lexer turns a document into a flat token stream: numbers,
//! identifiers, quoted strings, parenthesis characters, dot runs,
//! accidental runs and backslash-led tag identifiers, with whitespace
//! skipped.  It stands apart from the recursive-descent grammar, which
//! scans characters itself.
//!
//! Identifier and tag-name runs accept ASCII letters and digits only —
//! a deliberate restriction, since the notation's whole alphabet is
//! ASCII; a non-ASCII letter fails with a syntax error rather than
//! starting an identifier.

use crate::accidentals::Accidentals;
use crate::accidentals::lemma_acc_end_bounds;
use crate::accidentals::sp_acc_end;
use crate::decimal::Decimal;
use crate::decimal::scan_decimal;
use crate::decimal::sp_decimal;
use crate::dots::Dots;
use crate::error::ParseError;
use crate::scan::chars_of;
use crate::scan::is_alnum_char;
use crate::scan::is_digit_char;
use crate::scan::is_ws_char;
use crate::scan::lemma_alnum_end_bounds;
use crate::scan::lemma_quote_end_bounds;
use crate::scan::sp_alnum_end;
use crate::scan::sp_quote_end;
use crate::scan::string_from_chars;
use crate::scan::subchars;
use crate::tag_id::TagId;
use crate::tag_id::sp_tag_id_lookup;
use vstd::prelude::*;

verus! {

/// The token stream's lexer; it carries no state.
#[derive(Debug)]
pub struct Lexer {}

/// One token of the stream.
#[derive(Debug)]
pub enum Token {
    Accidental(Accidentals),
    Dots(Dots),
    Identifier(String),
    Number(Decimal),
    Parens(char),
    TagId(TagId),
    Str(String),
}

/// The model of a token.
#[verifier::ext_equal]
pub enum TokenM {
    Accidental(Accidentals),
    Dots(Dots),
    Identifier(Seq<char>),
    Number(Decimal),
    Parens(char),
    TagId(TagId),
    Str(Seq<char>),
}

impl View for Token {
    type V = TokenM;

    open spec fn view(&self) -> TokenM {
        match self {
            Token::Accidental(a) => TokenM::Accidental(*a),
            Token::Dots(d) => TokenM::Dots(*d),
            Token::Identifier(s) => TokenM::Identifier(s@),
            Token::Number(d) => TokenM::Number(*d),
            Token::Parens(c) => TokenM::Parens(*c),
            Token::TagId(t) => TokenM::TagId(*t),
            Token::Str(s) => TokenM::Str(s@),
        }
    }
}

impl PartialEq for Token {
    /// Tokens are equal when their models are.
    fn eq(&self, other: &Self) -> (r: bool) {
        match self {
            Token::Accidental(a) => match other {
                Token::Accidental(b) => *a == *b,
                _ => false,
            },
            Token::Dots(a) => match other {
                Token::Dots(b) => *a == *b,
                _ => false,
            },
            Token::Identifier(a) => match other {
                Token::Identifier(b) => *a == *b,
                _ => false,
            },
            Token::Number(a) => match other {
                Token::Number(b) => *a == *b,
                _ => false,
            },
            Token::Parens(a) => match other {
                Token::Parens(b) => *a == *b,
                _ => false,
            },
            Token::TagId(a) => match other {
                Token::TagId(b) => *a == *b,
                _ => false,
            },
            Token::Str(a) => match other {
                Token::Str(b) => *a == *b,
                _ => false,
            },
        }
    }
}

impl vstd::std_specs::cmp::PartialEqSpecImpl for Token {
    open spec fn obeys_eq_spec() -> bool {
        true
    }

    open spec fn eq_spec(&self, other: &Self) -> bool {
        self@ == other@
    }
}

/// The models of a token vector.
pub open spec fn view_tokens(s: Seq<Token>) -> Seq<TokenM> {
    s.map_values(|t: Token| t@)
}

/// A character that can open or close a group.
pub open spec fn is_paren_char(c: char) -> bool {
    c == '{' || c == '[' || c == '(' || c == ')' || c == ']' || c == '}'
}

/// An accidental character.
pub fn is_accidental(ch: char) -> (r: bool)
    ensures
        r == (ch == '&' || ch == '#'),
{
    ch == '&' || ch == '#'
}

/// A decimal digit.
pub fn is_digit(ch: char) -> (r: bool)
    ensures
        r == is_digit_char(ch),
{
    crate::scan::digit_char(ch)
}

/// A letter or digit; the lexer treats identifiers and tag names as
/// alphanumeric runs.
pub fn is_alpha(ch: char) -> (r: bool)
    ensures
        r == is_alnum_char(ch),
{
    crate::scan::alpha_char(ch) || crate::scan::digit_char(ch)
}

/// A letter or digit.
pub fn is_alphanum(ch: char) -> (r: bool)
    ensures
        r == is_alnum_char(ch),
{
    is_alpha(ch) || is_digit(ch)
}

/// The character at `i`, with the null character standing for the end
/// of input.
pub fn peek(s: &Vec<char>, i: usize) -> (r: char)
    ensures
        r == sp_peek(s@, i as int),
{
    if i < s.len() {
        s[i]
    } else {
        '\0'
    }
}

/// The character at `i`, or the end-of-input marker.
pub open spec fn sp_peek(s: Seq<char>, i: int) -> char {
    if 0 <= i < s.len() {
        s[i]
    } else {
        '\0'
    }
}

/// The character after the one at `i`.
pub fn peek_next(s: &Vec<char>, i: usize) -> (r: char)
    requires
        i < usize::MAX,
    ensures
        r == sp_peek(s@, i + 1),
{
    peek(s, i + 1)
}

/// Whether the whole input has been consumed.
pub fn is_at_end(s: &Vec<char>, i: usize) -> (r: bool)
    ensures
        r == (i >= s@.len()),
{
    i >= s.len()
}

/// Yield the character at `i` and move past it; at the end of input the
/// position stays and the null character is returned.
pub fn advance(s: &Vec<char>, i: &mut usize) -> (r: char)
    ensures
        *old(i) < s@.len() ==> r == s@[*old(i) as int] && *final(i) == *old(i) + 1,
        *old(i) >= s@.len() ==> r == '\0' && *final(i) == *old(i),
{
    if *i < s.len() {
        let c = s[*i];
        *i = *i + 1;
        c
    } else {
        '\0'
    }
}

/// The token stream of the suffix of `s` from `i`.
///
/// Whitespace is skipped; a sign must be followed by a digit; a dot run
/// of more than three dots, a mixed or long accidental run, an
/// unterminated string, an unresolvable tag name and any other
/// unexpected character fail with the offending position.
pub open spec fn sp_lex_from(s: Seq<char>, i: int) -> Result<Seq<TokenM>, ParseError>
    decreases s.len() - i,
    when 0 <= i <= s.len()
{
    if i >= s.len() {
        Result::Ok(Seq::empty())
    } else if is_ws_char(s[i]) {
        sp_lex_from(s, i + 1)
    } else if s[i] == '+' || s[i] == '-' || is_digit_char(s[i]) {
        if (s[i] == '+' || s[i] == '-') && !(i + 1 < s.len() && is_digit_char(s[i + 1])) {
            Result::Err(ParseError::Syntax { pos: i as usize })
        } else {
            match sp_decimal(s, i) {
                Option::None => Result::Err(ParseError::Syntax { pos: i as usize }),
                Option::Some((d, j)) => if i < j <= s.len() {
                    sp_lex_cons(TokenM::Number(d), sp_lex_from(s, j))
                } else {
                    Result::Err(ParseError::Syntax { pos: i as usize })
                },
            }
        }
    } else if is_paren_char(s[i]) {
        sp_lex_cons(TokenM::Parens(s[i]), sp_lex_from(s, i + 1))
    } else if s[i] == '"' {
        let e = sp_quote_end(s, i + 1);
        if e < s.len() && i + 1 <= e {
            sp_lex_cons(TokenM::Str(s.subrange(i + 1, e)), sp_lex_from(s, e + 1))
        } else {
            Result::Err(ParseError::Syntax { pos: i as usize })
        }
    } else if s[i] == '.' {
        let e = sp_dot_end(s, i);
        if i < e <= s.len() && e - i <= 3 {
            let d = if e - i == 1 {
                Dots::Single
            } else if e - i == 2 {
                Dots::Double
            } else {
                Dots::Triple
            };
            sp_lex_cons(TokenM::Dots(d), sp_lex_from(s, e))
        } else {
            Result::Err(ParseError::Syntax { pos: i as usize })
        }
    } else if s[i] == '#' || s[i] == '&' {
        let e = sp_acc_end(s, i);
        if i < e <= s.len() {
            match sp_lex_acc(s, i, e) {
                Option::Some(a) => sp_lex_cons(TokenM::Accidental(a), sp_lex_from(s, e)),
                Option::None => Result::Err(ParseError::Syntax { pos: i as usize }),
            }
        } else {
            Result::Err(ParseError::Syntax { pos: i as usize })
        }
    } else if s[i] == '\\' {
        let e = sp_alnum_end(s, i + 1);
        if i + 1 < e <= s.len() {
            match sp_tag_id_lookup(s.subrange(i + 1, e)) {
                Option::Some(id) => sp_lex_cons(TokenM::TagId(id), sp_lex_from(s, e)),
                Option::None => Result::Err(ParseError::UnknownTag { pos: (i + 1) as usize }),
            }
        } else {
            Result::Err(ParseError::Syntax { pos: (i + 1) as usize })
        }
    } else if is_alnum_char(s[i]) && !is_digit_char(s[i]) {
        let e = sp_alnum_end(s, i + 1);
        if i < e <= s.len() {
            sp_lex_cons(TokenM::Identifier(s.subrange(i, e)), sp_lex_from(s, e))
        } else {
            Result::Err(ParseError::Syntax { pos: i as usize })
        }
    } else {
        Result::Err(ParseError::Syntax { pos: i as usize })
    }
}

/// Prepend a token to a lexing outcome.
pub open spec fn sp_lex_cons(t: TokenM, rest: Result<Seq<TokenM>, ParseError>) -> Result<
    Seq<TokenM>,
    ParseError,
> {
    match rest {
        Result::Ok(ts) => Result::Ok(seq![t] + ts),
        Result::Err(e) => Result::Err(e),
    }
}

/// The end of the dot run starting at `i`.
pub open spec fn sp_dot_end(s: Seq<char>, i: int) -> int
    decreases s.len() - i,
    when 0 <= i <= s.len()
{
    if i < s.len() && s[i] == '.' {
        sp_dot_end(s, i + 1)
    } else {
        i
    }
}

proof fn lemma_dot_end_bounds(s: Seq<char>, i: int)
    requires
        0 <= i <= s.len(),
    ensures
        i <= sp_dot_end(s, i) <= s.len(),
    decreases s.len() - i,
{
    if i < s.len() && s[i] == '.' {
        lemma_dot_end_bounds(s, i + 1);
    }
}

/// The accidental named by the run `s[i..e)`.
pub open spec fn sp_lex_acc(s: Seq<char>, i: int, e: int) -> Option<Accidentals> {
    if e == i + 1 {
        if s[i] == '#' {
            Option::Some(Accidentals::Sharp)
        } else {
            Option::Some(Accidentals::Flat)
        }
    } else if e == i + 2 {
        if s[i] == '#' && s[i + 1] == '#' {
            Option::Some(Accidentals::DoubleSharp)
        } else if s[i] == '&' && s[i + 1] == '&' {
            Option::Some(Accidentals::DoubleFlat)
        } else {
            Option::None
        }
    } else {
        Option::None
    }
}

/// The token stream of a whole document.
pub open spec fn spec_lex(s: Seq<char>) -> Result<Seq<TokenM>, ParseError> {
    sp_lex_from(s, 0)
}

impl Lexer {
    /// Tokenize a document.
    pub fn lex(&self, input: &str) -> (r: Result<Vec<Token>, ParseError>)
        ensures
            match r {
                Result::Ok(ts) => spec_lex(input@) == Result::Ok::<Seq<TokenM>, ParseError>(
                    view_tokens(ts@),
                ),
                Result::Err(e) => spec_lex(input@) == Result::Err::<Seq<TokenM>, ParseError>(e),
            },
    {
        let s = chars_of(input);
        let mut out: Vec<Token> = Vec::new();
        let mut i: usize = 0;
        proof {
            assert(view_tokens(out@) =~= Seq::<TokenM>::empty());
        }
        while i < s.len()
            invariant
                0 <= i <= s@.len(),
                s@ == input@,
                spec_lex(s@) == (match sp_lex_from(s@, i as int) {
                    Result::Ok(rest) => Result::Ok::<Seq<TokenM>, ParseError>(
                        view_tokens(out@) + rest,
                    ),
                    Result::Err(e) => Result::Err::<Seq<TokenM>, ParseError>(e),
                }),
            decreases s@.len() - i,
        {
            let c = s[i];
            if c == ' ' || c == '\t' || c == '\n' {
                i = i + 1;
            } else if c == '+' || c == '-' || crate::scan::digit_char(c) {
                if (c == '+' || c == '-') && !(i + 1 < s.len() && crate::scan::digit_char(
                    s[i + 1],
                )) {
                    return Result::Err(ParseError::Syntax { pos: i });
                }
                match scan_decimal(&s, i) {
                    Option::None => {
                        return Result::Err(ParseError::Syntax { pos: i });
                    },
                    Option::Some((d, j)) => {
                        proof {
                            lemma_lex_step(
                                s@,
                                i as int,
                                j as int,
                                TokenM::Number(d),
                                view_tokens(out@),
                            );
                        }
                        lex_push(&mut out, Token::Number(d));
                        i = j;
                    },
                }
            } else if c == '{' || c == '[' || c == '(' || c == ')' || c == ']' || c == '}' {
                proof {
                    lemma_lex_step(
                        s@,
                        i as int,
                        i + 1 as int,
                        TokenM::Parens(s@[i as int]),
                        view_tokens(out@),
                    );
                }
                lex_push(&mut out, Token::Parens(c));
                i = i + 1;
            } else if c == '"' {
                let mut e = i + 1;
                while e < s.len() && s[e] != '"'
                    invariant
                        i + 1 <= e <= s@.len(),
                        sp_quote_end(s@, (i + 1) as int) == sp_quote_end(s@, e as int),
                    decreases s@.len() - e,
                {
                    e = e + 1;
                }
                proof {
                    lemma_quote_end_bounds(s@, e as int);
                }
                if e < s.len() {
                    let content = subchars(&s, i + 1, e);
                    proof {
                        lemma_lex_step(
                            s@,
                            i as int,
                            e + 1 as int,
                            TokenM::Str(s@.subrange(i + 1 as int, e as int)),
                            view_tokens(out@),
                        );
                    }
                    lex_push(&mut out, Token::Str(string_from_chars(&content)));
                    i = e + 1;
                } else {
                    return Result::Err(ParseError::Syntax { pos: i });
                }
            } else if c == '.' {
                let mut e = i;
                while e < s.len() && s[e] == '.'
                    invariant
                        i <= e <= s@.len(),
                        sp_dot_end(s@, i as int) == sp_dot_end(s@, e as int),
                    decreases s@.len() - e,
                {
                    e = e + 1;
                }
                proof {
                    lemma_dot_end_bounds(s@, e as int);
                }
                let count = e - i;
                if count == 1 {
                    proof {
                        lemma_lex_step(
                            s@,
                            i as int,
                            e as int,
                            TokenM::Dots(Dots::Single),
                            view_tokens(out@),
                        );
                    }
                    lex_push(&mut out, Token::Dots(Dots::Single));
                } else if count == 2 {
                    proof {
                        lemma_lex_step(
                            s@,
                            i as int,
                            e as int,
                            TokenM::Dots(Dots::Double),
                            view_tokens(out@),
                        );
                    }
                    lex_push(&mut out, Token::Dots(Dots::Double));
                } else if count == 3 {
                    proof {
                        lemma_lex_step(
                            s@,
                            i as int,
                            e as int,
                            TokenM::Dots(Dots::Triple),
                            view_tokens(out@),
                        );
                    }
                    lex_push(&mut out, Token::Dots(Dots::Triple));
                } else {
                    return Result::Err(ParseError::Syntax { pos: i });
                }
                i = e;
            } else if c == '#' || c == '&' {
                let mut e = i;
                while e < s.len() && (s[e] == '#' || s[e] == '&')
                    invariant
                        i <= e <= s@.len(),
                        sp_acc_end(s@, i as int) == sp_acc_end(s@, e as int),
                    decreases s@.len() - e,
                {
                    e = e + 1;
                }
                proof {
                    lemma_acc_end_bounds(s@, e as int);
                }
                if e == i + 1 {
                    if s[i] == '#' {
                        proof {
                            lemma_lex_step(
                                s@,
                                i as int,
                                e as int,
                                TokenM::Accidental(Accidentals::Sharp),
                                view_tokens(out@),
                            );
                        }
                        lex_push(&mut out, Token::Accidental(Accidentals::Sharp));
                    } else {
                        proof {
                            lemma_lex_step(
                                s@,
                                i as int,
                                e as int,
                                TokenM::Accidental(Accidentals::Flat),
                                view_tokens(out@),
                            );
                        }
                        lex_push(&mut out, Token::Accidental(Accidentals::Flat));
                    }
                } else if e == i + 2 {
                    if s[i] == '#' && s[i + 1] == '#' {
                        proof {
                            lemma_lex_step(
                                s@,
                                i as int,
                                e as int,
                                TokenM::Accidental(Accidentals::DoubleSharp),
                                view_tokens(out@),
                            );
                        }
                        lex_push(&mut out, Token::Accidental(Accidentals::DoubleSharp));
                    } else if s[i] == '&' && s[i + 1] == '&' {
                        proof {
                            lemma_lex_step(
                                s@,
                                i as int,
                                e as int,
                                TokenM::Accidental(Accidentals::DoubleFlat),
                                view_tokens(out@),
                            );
                        }
                        lex_push(&mut out, Token::Accidental(Accidentals::DoubleFlat));
                    } else {
                        return Result::Err(ParseError::Syntax { pos: i });
                    }
                } else {
                    return Result::Err(ParseError::Syntax { pos: i });
                }
                i = e;
            } else if c == '\\' {
                let mut e = i + 1;
                while e < s.len() && (crate::scan::alpha_char(s[e]) || crate::scan::digit_char(
                    s[e],
                ))
                    invariant
                        i + 1 <= e <= s@.len(),
                        sp_alnum_end(s@, (i + 1) as int) == sp_alnum_end(s@, e as int),
                    decreases s@.len() - e,
                {
                    e = e + 1;
                }
                proof {
                    lemma_alnum_end_bounds(s@, e as int);
                }
                if e > i + 1 {
                    let name = subchars(&s, i + 1, e);
                    match TagId::lookup(&name) {
                        Option::Some(id) => {
                            proof {
                                lemma_lex_step(
                                    s@,
                                    i as int,
                                    e as int,
                                    TokenM::TagId(id),
                                    view_tokens(out@),
                                );
                            }
                            lex_push(&mut out, Token::TagId(id));
                            i = e;
                        },
                        Option::None => {
                            return Result::Err(ParseError::UnknownTag { pos: i + 1 });
                        },
                    }
                } else {
                    return Result::Err(ParseError::Syntax { pos: i + 1 });
                }
            } else if crate::scan::alpha_char(c) {
                let mut e = i + 1;
                while e < s.len() && (crate::scan::alpha_char(s[e]) || crate::scan::digit_char(
                    s[e],
                ))
                    invariant
                        i + 1 <= e <= s@.len(),
                        sp_alnum_end(s@, (i + 1) as int) == sp_alnum_end(s@, e as int),
                    decreases s@.len() - e,
                {
                    e = e + 1;
                }
                proof {
                    lemma_alnum_end_bounds(s@, e as int);
                }
                let name = subchars(&s, i, e);
                proof {
                    lemma_lex_step(
                        s@,
                        i as int,
                        e as int,
                        TokenM::Identifier(s@.subrange(i as int, e as int)),
                        view_tokens(out@),
                    );
                }
                lex_push(&mut out, Token::Identifier(string_from_chars(&name)));
                i = e;
            } else {
                return Result::Err(ParseError::Syntax { pos: i });
            }
        }
        Result::Ok(out)
    }
}

/// Append a token, extending the model by its view.
fn lex_push(out: &mut Vec<Token>, t: Token)
    ensures
        final(out)@ == old(out)@.push(t),
        view_tokens(final(out)@) == view_tokens(old(out)@).push(t@),
{
    let ghost before = out@;
    out.push(t);
    proof {
        assert(view_tokens(out@) =~= view_tokens(before).push(out@.last()@));
    }
}

/// One lexing step: consuming a token at `iold` and continuing at
/// `inew` extends the accumulated stream by that token.
proof fn lemma_lex_step(s: Seq<char>, iold: int, inew: int, t: TokenM, m: Seq<TokenM>)
    requires
        sp_lex_from(s, iold) == sp_lex_cons(t, sp_lex_from(s, inew)),
    ensures
        (match sp_lex_from(s, iold) {
            Result::Ok(rest) => Result::Ok::<Seq<TokenM>, ParseError>(m + rest),
            Result::Err(e) => Result::Err::<Seq<TokenM>, ParseError>(e),
        }) == (match sp_lex_from(s, inew) {
            Result::Ok(rest) => Result::Ok::<Seq<TokenM>, ParseError>(m.push(t) + rest),
            Result::Err(e) => Result::Err::<Seq<TokenM>, ParseError>(e),
        }),
{
    match sp_lex_from(s, inew) {
        Result::Ok(rest) => {
            assert(m + (seq![t] + rest) =~= m.push(t) + rest);
        },
        Result::Err(e) => {},
    }
}

impl Default for Lexer {
    /// The lexer carries no state.
    fn default() -> (r: Self)
        ensures
            r == (Lexer {  }),
    {
        Lexer {  }
    }
}

} // verus!
