//! Tag parameters: bare or named numbers, numbers with units, and quoted
//! strings.

use crate::decimal::Decimal;
use crate::decimal::dec_wf;
use crate::decimal::scan_decimal;
use crate::decimal::sp_decimal;
use crate::scan::ident_end;
use crate::scan::quoted;
use crate::scan::skip_ws;
use crate::scan::sp_ident_end;
use crate::scan::sp_quoted;
use crate::scan::sp_ws;
use crate::scan::string_from_chars;
use crate::scan::subchars;
use crate::unit::Unit;
use crate::unit::sp_unit;
use vstd::prelude::*;

verus! {

/// One parameter of a tag: a positional value, or a `name=value` pair.
#[derive(Debug)]
pub enum TagParam {
    Number(Decimal),
    NumberUnit(Decimal, Unit),
    Str(String),
    VarNumber(String, Decimal),
    VarNumberUnit(String, Decimal, Unit),
    VarString(String, String),
}

/// The mathematical model of a tag parameter: strings are character
/// sequences.
#[verifier::ext_equal]
pub enum TagParamM {
    Number(Decimal),
    NumberUnit(Decimal, Unit),
    Str(Seq<char>),
    VarNumber(Seq<char>, Decimal),
    VarNumberUnit(Seq<char>, Decimal, Unit),
    VarString(Seq<char>, Seq<char>),
}

impl View for TagParam {
    type V = TagParamM;

    open spec fn view(&self) -> TagParamM {
        match self {
            TagParam::Number(d) => TagParamM::Number(*d),
            TagParam::NumberUnit(d, u) => TagParamM::NumberUnit(*d, *u),
            TagParam::Str(s) => TagParamM::Str(s@),
            TagParam::VarNumber(n, d) => TagParamM::VarNumber(n@, *d),
            TagParam::VarNumberUnit(n, d, u) => TagParamM::VarNumberUnit(n@, *d, *u),
            TagParam::VarString(n, s) => TagParamM::VarString(n@, s@),
        }
    }
}

impl PartialEq for TagParam {
    /// Parameters are equal when their models are: same shape, same
    /// numbers and units, same characters.
    fn eq(&self, other: &Self) -> (r: bool) {
        match self {
            TagParam::Number(a) => match other {
                TagParam::Number(b) => *a == *b,
                _ => false,
            },
            TagParam::NumberUnit(a, u) => match other {
                TagParam::NumberUnit(b, v) => *a == *b && *u == *v,
                _ => false,
            },
            TagParam::Str(a) => match other {
                TagParam::Str(b) => *a == *b,
                _ => false,
            },
            TagParam::VarNumber(n, a) => match other {
                TagParam::VarNumber(m, b) => *n == *m && *a == *b,
                _ => false,
            },
            TagParam::VarNumberUnit(n, a, u) => match other {
                TagParam::VarNumberUnit(m, b, v) => *n == *m && *a == *b && *u == *v,
                _ => false,
            },
            TagParam::VarString(n, a) => match other {
                TagParam::VarString(m, b) => *n == *m && *a == *b,
                _ => false,
            },
        }
    }
}

impl vstd::std_specs::cmp::PartialEqSpecImpl for TagParam {
    open spec fn obeys_eq_spec() -> bool {
        true
    }

    open spec fn eq_spec(&self, other: &Self) -> bool {
        self@ == other@
    }
}

impl Clone for TagParam {
    /// A clone has the same model.
    fn clone(&self) -> (r: Self)
        ensures
            r@ == self@,
    {
        match self {
            TagParam::Number(d) => TagParam::Number(*d),
            TagParam::NumberUnit(d, u) => TagParam::NumberUnit(*d, *u),
            TagParam::Str(s) => TagParam::Str(s.clone()),
            TagParam::VarNumber(n, d) => TagParam::VarNumber(n.clone(), *d),
            TagParam::VarNumberUnit(n, d, u) => TagParam::VarNumberUnit(n.clone(), *d, *u),
            TagParam::VarString(n, s) => TagParam::VarString(n.clone(), s.clone()),
        }
    }
}

/// Every decimal inside the parameter is normalized.
pub open spec fn param_m_wf(p: TagParamM) -> bool {
    match p {
        TagParamM::Number(d) => dec_wf(d),
        TagParamM::NumberUnit(d, _) => dec_wf(d),
        TagParamM::Str(_) => true,
        TagParamM::VarNumber(_, d) => dec_wf(d),
        TagParamM::VarNumberUnit(_, d, _) => dec_wf(d),
        TagParamM::VarString(_, _) => true,
    }
}

/// The parameter parsed at `i`, with its trailing whitespace consumed.
///
/// A double quote opens a bare string; a letter opens a `name=value`
/// pair whose value is a string, a number with a unit, or a number; and
/// anything else must be a number, optionally followed by a unit.
pub open spec fn sp_param(s: Seq<char>, i: int) -> Option<(TagParamM, int)> {
    if 0 <= i < s.len() && s[i] == '"' {
        match sp_quoted(s, i) {
            Option::Some((f, t)) => Option::Some(
                (TagParamM::Str(s.subrange(f, t)), sp_ws(s, t + 1)),
            ),
            Option::None => Option::None,
        }
    } else if 0 <= i < s.len() && sp_ident_end(s, i) is Some {
        let j = sp_ident_end(s, i)->0;
        let name = s.subrange(i, j);
        let k = sp_ws(s, j);
        if k < s.len() && s[k] == '=' {
            let k2 = sp_ws(s, k + 1);
            if k2 < s.len() && s[k2] == '"' {
                match sp_quoted(s, k2) {
                    Option::Some((f, t)) => Option::Some(
                        (TagParamM::VarString(name, s.subrange(f, t)), sp_ws(s, t + 1)),
                    ),
                    Option::None => Option::None,
                }
            } else {
                match sp_decimal(s, k2) {
                    Option::Some((d, e)) => match sp_unit(s, e) {
                        Option::Some((u, e2)) => Option::Some(
                            (TagParamM::VarNumberUnit(name, d, u), sp_ws(s, e2)),
                        ),
                        Option::None => Option::Some((TagParamM::VarNumber(name, d), sp_ws(s, e))),
                    },
                    Option::None => Option::None,
                }
            }
        } else {
            Option::None
        }
    } else {
        match sp_decimal(s, i) {
            Option::Some((d, e)) => match sp_unit(s, e) {
                Option::Some((u, e2)) => Option::Some((TagParamM::NumberUnit(d, u), sp_ws(s, e2))),
                Option::None => Option::Some((TagParamM::Number(d), sp_ws(s, e))),
            },
            Option::None => Option::None,
        }
    }
}

impl TagParam {
    /// Parse one tag parameter at `i`, consuming trailing whitespace.
    pub fn parse(s: &Vec<char>, i: usize) -> (r: Option<(TagParam, usize)>)
        requires
            i <= s@.len(),
        ensures
            match r {
                Option::Some((p, j)) => sp_param(s@, i as int) == Option::Some((p@, j as int)) && i
                    < j <= s@.len() && param_m_wf(p@),
                Option::None => sp_param(s@, i as int) is None,
            },
    {
        if i < s.len() && s[i] == '"' {
            match quoted(s, i) {
                Option::Some((f, t)) => {
                    let content = subchars(s, f, t);
                    let j = skip_ws(s, t + 1);
                    Option::Some((TagParam::Str(string_from_chars(&content)), j))
                },
                Option::None => Option::None,
            }
        } else if i < s.len() {
            match ident_end(s, i) {
                Option::Some(j) => {
                    let name_chars = subchars(s, i, j);
                    let k = skip_ws(s, j);
                    if k < s.len() && s[k] == '=' {
                        let k2 = skip_ws(s, k + 1);
                        if k2 < s.len() && s[k2] == '"' {
                            match quoted(s, k2) {
                                Option::Some((f, t)) => {
                                    let content = subchars(s, f, t);
                                    let j2 = skip_ws(s, t + 1);
                                    Option::Some(
                                        (
                                            TagParam::VarString(
                                                string_from_chars(&name_chars),
                                                string_from_chars(&content),
                                            ),
                                            j2,
                                        ),
                                    )
                                },
                                Option::None => Option::None,
                            }
                        } else {
                            match scan_decimal(s, k2) {
                                Option::Some((d, e)) => match Unit::parse(s, e) {
                                    Option::Some((u, e2)) => {
                                        let j2 = skip_ws(s, e2);
                                        Option::Some(
                                            (
                                                TagParam::VarNumberUnit(
                                                    string_from_chars(&name_chars),
                                                    d,
                                                    u,
                                                ),
                                                j2,
                                            ),
                                        )
                                    },
                                    Option::None => {
                                        let j2 = skip_ws(s, e);
                                        Option::Some(
                                            (
                                                TagParam::VarNumber(
                                                    string_from_chars(&name_chars),
                                                    d,
                                                ),
                                                j2,
                                            ),
                                        )
                                    },
                                },
                                Option::None => Option::None,
                            }
                        }
                    } else {
                        Option::None
                    }
                },
                Option::None => Self::parse_bare_number(s, i),
            }
        } else {
            Self::parse_bare_number(s, i)
        }
    }

    /// Parse a bare number, optionally with a unit, at `i`.
    fn parse_bare_number(s: &Vec<char>, i: usize) -> (r: Option<(TagParam, usize)>)
        requires
            i <= s@.len(),
            sp_ident_end(s@, i as int) is None,
            !(i < s@.len() && s@[i as int] == '"'),
        ensures
            match r {
                Option::Some((p, j)) => sp_param(s@, i as int) == Option::Some((p@, j as int)) && i
                    < j <= s@.len() && param_m_wf(p@),
                Option::None => sp_param(s@, i as int) is None,
            },
    {
        match scan_decimal(s, i) {
            Option::Some((d, e)) => match Unit::parse(s, e) {
                Option::Some((u, e2)) => {
                    let j = skip_ws(s, e2);
                    Option::Some((TagParam::NumberUnit(d, u), j))
                },
                Option::None => {
                    let j = skip_ws(s, e);
                    Option::Some((TagParam::Number(d), j))
                },
            },
            Option::None => Option::None,
        }
    }
}

} // verus!
