//! Character-level scanning primitives shared by every grammar production.
//!
//! The parser works over a vector of characters with an index; each helper
//! here has a spec twin that pins down exactly which characters it consumes
//! and what value it yields.

use vstd::prelude::*;

verus! {

/// The whitespace characters of the notation language.
pub open spec fn is_ws_char(c: char) -> bool {
    c == ' ' || c == '\t' || c == '\n'
}

/// Whether `c` is one of the language's whitespace characters.
pub fn is_whitespace(c: char) -> (r: bool)
    ensures
        r == is_ws_char(c),
{
    c == ' ' || c == '\t' || c == '\n'
}

/// The first index at or after `i` that does not hold whitespace.
pub open spec fn sp_ws(s: Seq<char>, i: int) -> int
    decreases s.len() - i,
    when 0 <= i <= s.len()
{
    if i < s.len() && is_ws_char(s[i]) {
        sp_ws(s, i + 1)
    } else {
        i
    }
}

pub proof fn lemma_ws_bounds(s: Seq<char>, i: int)
    requires
        0 <= i <= s.len(),
    ensures
        i <= sp_ws(s, i) <= s.len(),
    decreases s.len() - i,
{
    if i < s.len() && is_ws_char(s[i]) {
        lemma_ws_bounds(s, i + 1);
    }
}

/// Skip whitespace, returning the index of the first other character.
pub fn skip_ws(s: &Vec<char>, i: usize) -> (r: usize)
    requires
        i <= s@.len(),
    ensures
        r == sp_ws(s@, i as int),
        i <= r <= s@.len(),
{
    let mut j = i;
    while j < s.len() && is_whitespace(s[j])
        invariant
            i <= j <= s@.len(),
            sp_ws(s@, i as int) == sp_ws(s@, j as int),
        decreases s@.len() - j,
    {
        j = j + 1;
    }
    proof {
        lemma_ws_bounds(s@, j as int);
    }
    j
}

/// A decimal digit.
pub open spec fn is_digit_char(c: char) -> bool {
    48 <= c as u32 && c as u32 <= 57
}

/// Whether `c` is a decimal digit.
pub fn digit_char(c: char) -> (r: bool)
    ensures
        r == is_digit_char(c),
{
    let u = c as u32;
    48 <= u && u <= 57
}

/// The numeric value of a digit character.
pub open spec fn digit_val(c: char) -> int {
    c as u32 - 48
}

/// The end of the run of digits starting at `i`.
pub open spec fn sp_digits_end(s: Seq<char>, i: int) -> int
    decreases s.len() - i,
    when 0 <= i <= s.len()
{
    if i < s.len() && is_digit_char(s[i]) {
        sp_digits_end(s, i + 1)
    } else {
        i
    }
}

pub proof fn lemma_digits_end_bounds(s: Seq<char>, i: int)
    requires
        0 <= i <= s.len(),
    ensures
        i <= sp_digits_end(s, i) <= s.len(),
        forall|k: int| i <= k < sp_digits_end(s, i) ==> is_digit_char(#[trigger] s[k]),
    decreases s.len() - i,
{
    if i < s.len() && is_digit_char(s[i]) {
        lemma_digits_end_bounds(s, i + 1);
    }
}

/// The value of the digits in `s[i..j)`, read most significant first.
pub open spec fn sp_digits_val(s: Seq<char>, i: int, j: int) -> int
    decreases j - i,
    when 0 <= i <= j <= s.len()
{
    if i >= j {
        0
    } else {
        sp_digits_val(s, i, j - 1) * 10 + digit_val(s[j - 1])
    }
}

pub proof fn lemma_digits_val_nonneg(s: Seq<char>, i: int, j: int)
    requires
        0 <= i <= j <= s.len(),
        forall|k: int| i <= k < j ==> is_digit_char(#[trigger] s[k]),
    ensures
        sp_digits_val(s, i, j) >= 0,
    decreases j - i,
{
    if i < j {
        lemma_digits_val_nonneg(s, i, j - 1);
    }
}

/// An unsigned number of at most `max`: the digit run starting at `i`,
/// rejected when empty or when its value exceeds `max`.
pub open spec fn sp_uint(s: Seq<char>, i: int, max: int) -> Option<(u64, int)> {
    let j = sp_digits_end(s, i);
    if j == i {
        Option::None
    } else if sp_digits_val(s, i, j) > max {
        Option::None
    } else {
        Option::Some((sp_digits_val(s, i, j) as u64, j))
    }
}

/// Parse an unsigned decimal number bounded by `max`.
pub fn scan_uint(s: &Vec<char>, i: usize, max: u64) -> (r: Option<(u64, usize)>)
    requires
        i <= s@.len(),
        max <= 0xffff_ffff,
    ensures
        match r {
            Option::Some((v, j)) => sp_uint(s@, i as int, max as int) == Option::Some(
                (v, j as int),
            ) && i < j <= s@.len() && v <= max,
            Option::None => sp_uint(s@, i as int, max as int) is None,
        },
{
    proof {
        lemma_digits_end_bounds(s@, i as int);
    }
    let ghost end = sp_digits_end(s@, i as int);
    let mut j = i;
    let mut acc: u64 = 0;
    let mut over = false;
    while j < s.len() && digit_char(s[j])
        invariant
            i <= j <= s@.len(),
            sp_digits_end(s@, i as int) == sp_digits_end(s@, j as int),
            end == sp_digits_end(s@, i as int),
            i <= j <= end <= s@.len(),
            !over ==> acc == sp_digits_val(s@, i as int, j as int) && acc <= max,
            over ==> sp_digits_val(s@, i as int, j as int) > max,
            max <= 0xffff_ffff,
        decreases s@.len() - j,
    {
        proof {
            lemma_digits_end_bounds(s@, (j + 1) as int);
            assert(sp_digits_end(s@, j as int) == sp_digits_end(s@, j + 1 as int));
            assert(j < end);
        }
        let d32: u32 = (s[j] as u32) - 48;
        let d: u64 = d32 as u64;
        if over {
        } else {
            let next: u64 = acc * 10 + d;
            if next > max {
                over = true;
            } else {
                acc = next;
            }
        }
        j = j + 1;
        proof {
            if over {
                lemma_digits_end_bounds(s@, i as int);
                lemma_digits_val_nonneg(s@, i as int, j as int);
            }
        }
    }
    proof {
        assert(j == end);
    }
    if j == i {
        Option::None
    } else if over {
        Option::None
    } else {
        Option::Some((acc, j))
    }
}

/// A signed octave number as `nom`'s `i8` parser reads it: an optional
/// sign, then digits, rejected on overflow of the `i8` range.
pub open spec fn sp_i8(s: Seq<char>, i: int) -> Option<(i8, int)> {
    if i < s.len() && (s[i] == '-' || s[i] == '+') {
        let neg = s[i] == '-';
        match sp_uint(s, i + 1, if neg {
            128
        } else {
            127
        }) {
            Option::Some((v, j)) => Option::Some(
                (
                    if neg {
                        (-(v as int)) as i8
                    } else {
                        v as i8
                    },
                    j,
                ),
            ),
            Option::None => Option::None,
        }
    } else {
        match sp_uint(s, i, 127) {
            Option::Some((v, j)) => Option::Some((v as i8, j)),
            Option::None => Option::None,
        }
    }
}

/// Parse a signed number in the `i8` range.
pub fn scan_i8(s: &Vec<char>, i: usize) -> (r: Option<(i8, usize)>)
    requires
        i <= s@.len(),
    ensures
        match r {
            Option::Some((v, j)) => sp_i8(s@, i as int) == Option::Some((v, j as int)) && i < j
                <= s@.len(),
            Option::None => sp_i8(s@, i as int) is None,
        },
{
    if i < s.len() && (s[i] == '-' || s[i] == '+') {
        let neg = s[i] == '-';
        let bound: u64 = if neg {
            128
        } else {
            127
        };
        match scan_uint(s, i + 1, bound) {
            Option::Some((v, j)) => {
                let val: i8 = if neg {
                    -(v as i64) as i8
                } else {
                    v as i8
                };
                Option::Some((val, j))
            },
            Option::None => Option::None,
        }
    } else {
        match scan_uint(s, i, 127) {
            Option::Some((v, j)) => Option::Some((v as i8, j)),
            Option::None => Option::None,
        }
    }
}

/// The end of the digit run starting at `i`, as executable code.
pub fn digits_end(s: &Vec<char>, i: usize) -> (r: usize)
    requires
        i <= s@.len(),
    ensures
        r == sp_digits_end(s@, i as int),
        i <= r <= s@.len(),
        forall|k: int| i <= k < r ==> is_digit_char(#[trigger] s@[k]),
{
    let mut j = i;
    while j < s.len() && digit_char(s[j])
        invariant
            i <= j <= s@.len(),
            sp_digits_end(s@, i as int) == sp_digits_end(s@, j as int),
        decreases s@.len() - j,
    {
        j = j + 1;
    }
    proof {
        lemma_digits_end_bounds(s@, j as int);
        lemma_digits_end_bounds(s@, i as int);
    }
    j
}

/// The value of the digits in `s[from..to)`, or nothing when it exceeds
/// `0xffff_ffff`.
pub fn scan_val_range(s: &Vec<char>, from: usize, to: usize) -> (r: Option<u64>)
    requires
        from <= to <= s@.len(),
        forall|k: int| from <= k < to ==> is_digit_char(#[trigger] s@[k]),
    ensures
        match r {
            Option::Some(v) => v == sp_digits_val(s@, from as int, to as int) && v <= 0xffff_ffff,
            Option::None => sp_digits_val(s@, from as int, to as int) > 0xffff_ffff,
        },
{
    let mut j = from;
    let mut acc: u64 = 0;
    let mut over = false;
    while j < to
        invariant
            from <= j <= to <= s@.len(),
            forall|k: int| from <= k < to ==> is_digit_char(#[trigger] s@[k]),
            !over ==> acc == sp_digits_val(s@, from as int, j as int) && acc <= 0xffff_ffff,
            over ==> sp_digits_val(s@, from as int, j as int) > 0xffff_ffff,
        decreases to - j,
    {
        let d32: u32 = (s[j] as u32) - 48;
        let d: u64 = d32 as u64;
        if over {
        } else {
            let next: u64 = acc * 10 + d;
            if next > 0xffff_ffff {
                over = true;
            } else {
                acc = next;
            }
        }
        j = j + 1;
        proof {
            if over {
                lemma_digits_val_nonneg(s@, from as int, j as int);
            }
        }
    }
    if over {
        Option::None
    } else {
        Option::Some(acc)
    }
}

/// An ASCII letter.
pub open spec fn is_alpha_char(c: char) -> bool {
    (65 <= c as u32 && c as u32 <= 90) || (97 <= c as u32 && c as u32 <= 122)
}

/// Whether `c` is an ASCII letter.
pub fn alpha_char(c: char) -> (r: bool)
    ensures
        r == is_alpha_char(c),
{
    let u = c as u32;
    (65 <= u && u <= 90) || (97 <= u && u <= 122)
}

/// An ASCII letter or digit.
pub open spec fn is_alnum_char(c: char) -> bool {
    is_alpha_char(c) || is_digit_char(c)
}

/// The end of the run of letters and digits starting at `i`.
pub open spec fn sp_alnum_end(s: Seq<char>, i: int) -> int
    decreases s.len() - i,
    when 0 <= i <= s.len()
{
    if i < s.len() && is_alnum_char(s[i]) {
        sp_alnum_end(s, i + 1)
    } else {
        i
    }
}

pub proof fn lemma_alnum_end_bounds(s: Seq<char>, i: int)
    requires
        0 <= i <= s.len(),
    ensures
        i <= sp_alnum_end(s, i) <= s.len(),
    decreases s.len() - i,
{
    if i < s.len() && is_alnum_char(s[i]) {
        lemma_alnum_end_bounds(s, i + 1);
    }
}

/// The end of the run of letters starting at `i`.
pub open spec fn sp_alpha_end(s: Seq<char>, i: int) -> int
    decreases s.len() - i,
    when 0 <= i <= s.len()
{
    if i < s.len() && is_alpha_char(s[i]) {
        sp_alpha_end(s, i + 1)
    } else {
        i
    }
}

pub proof fn lemma_alpha_end_bounds(s: Seq<char>, i: int)
    requires
        0 <= i <= s.len(),
    ensures
        i <= sp_alpha_end(s, i) <= s.len(),
    decreases s.len() - i,
{
    if i < s.len() && is_alpha_char(s[i]) {
        lemma_alpha_end_bounds(s, i + 1);
    }
}

/// The end of the letter run at `i`, as executable code.
pub fn alpha_end(s: &Vec<char>, i: usize) -> (r: usize)
    requires
        i <= s@.len(),
    ensures
        r == sp_alpha_end(s@, i as int),
        i <= r <= s@.len(),
{
    let mut j = i;
    while j < s.len() && alpha_char(s[j])
        invariant
            i <= j <= s@.len(),
            sp_alpha_end(s@, i as int) == sp_alpha_end(s@, j as int),
        decreases s@.len() - j,
    {
        j = j + 1;
    }
    proof {
        lemma_alpha_end_bounds(s@, j as int);
    }
    j
}

/// An identifier: a letter, then letters and digits.  Yields the index
/// just past it.
pub open spec fn sp_ident_end(s: Seq<char>, i: int) -> Option<int> {
    if 0 <= i < s.len() && is_alpha_char(s[i]) {
        Option::Some(sp_alnum_end(s, i + 1))
    } else {
        Option::None
    }
}

/// Parse an identifier at `i`.
pub fn ident_end(s: &Vec<char>, i: usize) -> (r: Option<usize>)
    requires
        i <= s@.len(),
    ensures
        match r {
            Option::Some(j) => sp_ident_end(s@, i as int) == Option::Some(j as int) && i < j
                <= s@.len(),
            Option::None => sp_ident_end(s@, i as int) is None,
        },
{
    if i < s.len() && alpha_char(s[i]) {
        let mut j = i + 1;
        while j < s.len() && (alpha_char(s[j]) || digit_char(s[j]))
            invariant
                i + 1 <= j <= s@.len(),
                sp_alnum_end(s@, (i + 1) as int) == sp_alnum_end(s@, j as int),
            decreases s@.len() - j,
        {
            j = j + 1;
        }
        proof {
            lemma_alnum_end_bounds(s@, j as int);
        }
        Option::Some(j)
    } else {
        Option::None
    }
}

/// A quoted string at `i`: a double quote, one or more other characters,
/// and a closing double quote.  Yields the content range and the index
/// past the closing quote.
pub open spec fn sp_quoted(s: Seq<char>, i: int) -> Option<(int, int)> {
    if 0 <= i < s.len() && s[i] == '"' {
        let q = sp_quote_end(s, i + 1);
        if q < s.len() && q > i + 1 {
            Option::Some((i + 1, q))
        } else {
            Option::None
        }
    } else {
        Option::None
    }
}

/// The index of the next double quote at or after `i`, or the length.
pub open spec fn sp_quote_end(s: Seq<char>, i: int) -> int
    decreases s.len() - i,
    when 0 <= i <= s.len()
{
    if i < s.len() && s[i] != '"' {
        sp_quote_end(s, i + 1)
    } else {
        i
    }
}

pub proof fn lemma_quote_end_bounds(s: Seq<char>, i: int)
    requires
        0 <= i <= s.len(),
    ensures
        i <= sp_quote_end(s, i) <= s.len(),
    decreases s.len() - i,
{
    if i < s.len() && s[i] != '"' {
        lemma_quote_end_bounds(s, i + 1);
    }
}

/// Parse a quoted string at `i`; the result is the content range and the
/// index past the closing quote.
pub fn quoted(s: &Vec<char>, i: usize) -> (r: Option<(usize, usize)>)
    requires
        i <= s@.len(),
    ensures
        match r {
            Option::Some((f, t)) => sp_quoted(s@, i as int) == Option::Some((f as int, t as int))
                && i < f <= t < s@.len(),
            Option::None => sp_quoted(s@, i as int) is None,
        },
{
    if i < s.len() && s[i] == '"' {
        let mut q = i + 1;
        while q < s.len() && s[q] != '"'
            invariant
                i + 1 <= q <= s@.len(),
                sp_quote_end(s@, (i + 1) as int) == sp_quote_end(s@, q as int),
            decreases s@.len() - q,
        {
            q = q + 1;
        }
        proof {
            lemma_quote_end_bounds(s@, q as int);
        }
        if q < s.len() && q > i + 1 {
            Option::Some((i + 1, q))
        } else {
            Option::None
        }
    } else {
        Option::None
    }
}

/// The literal `lit` occurs in `s` starting at `i`.
pub open spec fn has_lit(s: Seq<char>, i: int, lit: Seq<char>) -> bool {
    &&& 0 <= i
    &&& i + lit.len() <= s.len()
    &&& forall|k: int| 0 <= k < lit.len() ==> s[i + k] == #[trigger] lit[k]
}

/// Whether the characters of `lit` occur in `s` starting at `i`.
pub fn match_lit(s: &Vec<char>, i: usize, lit: &str) -> (r: bool)
    requires
        i <= s@.len(),
    ensures
        r == has_lit(s@, i as int, lit@),
{
    let n = lit.unicode_len();
    let slen = s.len();
    if n > slen - i {
        return false;
    }
    let mut k: usize = 0;
    while k < n
        invariant
            0 <= k <= n,
            n == lit@.len(),
            i <= s@.len(),
            slen == s@.len(),
            i + n <= slen,
            forall|m: int| 0 <= m < k ==> s@[i + m] == #[trigger] lit@[m],
        decreases n - k,
    {
        let idx = i + k;
        if s[idx] != lit.get_char(k) {
            return false;
        }
        k = k + 1;
    }
    true
}

/// The characters of the vector are exactly those of the literal.
pub fn chars_eq_lit(s: &Vec<char>, lit: &str) -> (r: bool)
    ensures
        r == (s@ == lit@),
{
    let n = lit.unicode_len();
    if n != s.len() {
        proof {
            assert(s@.len() != lit@.len());
        }
        return false;
    }
    let mut k: usize = 0;
    while k < n
        invariant
            0 <= k <= n,
            n == lit@.len(),
            n == s@.len(),
            forall|m: int| 0 <= m < k ==> s@[m] == #[trigger] lit@[m],
        decreases n - k,
    {
        if s[k] != lit.get_char(k) {
            proof {
                assert(s@[k as int] != lit@[k as int]);
            }
            return false;
        }
        k = k + 1;
    }
    proof {
        assert(s@ =~= lit@);
    }
    true
}

/// The characters of a string, in order.
pub fn chars_of(s: &str) -> (r: Vec<char>)
    ensures
        r@ == s@,
{
    let n = s.unicode_len();
    let mut r: Vec<char> = Vec::new();
    let mut i: usize = 0;
    while i < n
        invariant
            n == s@.len(),
            i <= n,
            r@ == s@.subrange(0, i as int),
        decreases n - i,
    {
        r.push(s.get_char(i));
        proof {
            assert(r@ =~= s@.subrange(0, i + 1 as int));
        }
        i = i + 1;
    }
    proof {
        assert(r@ =~= s@);
    }
    r
}

/// The characters `s[from..to)`, as a vector.
pub fn subchars(s: &Vec<char>, from: usize, to: usize) -> (r: Vec<char>)
    requires
        from <= to <= s@.len(),
    ensures
        r@ == s@.subrange(from as int, to as int),
{
    let mut r: Vec<char> = Vec::new();
    let mut i = from;
    while i < to
        invariant
            from <= i <= to <= s@.len(),
            r@ == s@.subrange(from as int, i as int),
        decreases to - i,
    {
        r.push(s[i]);
        proof {
            assert(r@ =~= s@.subrange(from as int, i + 1 as int));
        }
        i = i + 1;
    }
    r
}

/// Relies on `String::from_iter` over `char`: the string holds exactly the
/// given characters, in order.
#[verifier::external_body]
pub(crate) fn string_from_chars(cs: &Vec<char>) -> (r: String)
    ensures
        r@ == cs@,
{
    cs.iter().collect()
}

} // verus!
