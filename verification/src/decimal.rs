//! Exact decimal numbers for tag parameters.
//!
//! A `Decimal` stores a signed decimal literal exactly as the value
//! `(-1)^neg * mantissa / 10^scale`, normalized so that equal values have
//! equal representations: the mantissa carries no trailing zero that the
//! scale could absorb, and zero is unsigned with scale zero.

use crate::scan::digits_end;
use crate::scan::is_digit_char;
use crate::scan::lemma_digits_end_bounds;
use crate::scan::lemma_digits_val_nonneg;
use crate::scan::scan_val_range;
use crate::scan::sp_digits_end;
use crate::scan::sp_digits_val;
use vstd::prelude::*;

verus! {

/// Ten to the power `n`.
pub open spec fn pow10(n: nat) -> nat
    decreases n,
{
    if n == 0 {
        1
    } else {
        10 * pow10((n - 1) as nat)
    }
}

/// A signed decimal number `(-1)^neg * mantissa / 10^scale`.
#[derive(Clone, Copy, Debug, PartialEq, Eq, Structural)]
pub struct Decimal {
    pub neg: bool,
    pub mantissa: u32,
    pub scale: u8,
}

/// The representation is normalized: no trailing mantissa zero absorbed
/// by the scale, and zero is unsigned with scale zero.
pub open spec fn dec_wf(d: Decimal) -> bool {
    &&& (d.scale > 0 ==> d.mantissa % 10 != 0)
    &&& (d.mantissa == 0 ==> !d.neg && d.scale == 0)
}

/// The normalized form of `(-1)^neg * m / 10^sc`.
pub open spec fn spec_normalize(neg: bool, m: nat, sc: nat) -> Decimal
    decreases sc,
{
    if m == 0 {
        Decimal { neg: false, mantissa: 0, scale: 0 }
    } else if sc > 0 && m % 10 == 0 {
        spec_normalize(neg, m / 10, (sc - 1) as nat)
    } else {
        Decimal { neg, mantissa: m as u32, scale: sc as u8 }
    }
}

pub proof fn lemma_normalize_wf(neg: bool, m: nat, sc: nat)
    requires
        m <= u32::MAX,
        sc <= u8::MAX,
    ensures
        dec_wf(spec_normalize(neg, m, sc)),
    decreases sc,
{
    if m == 0 {
    } else if sc > 0 && m % 10 == 0 {
        lemma_normalize_wf(neg, m / 10, (sc - 1) as nat);
    }
}

impl Decimal {
    /// The normalized decimal `(-1)^neg * mantissa / 10^scale`.
    pub fn new(neg: bool, mantissa: u32, scale: u8) -> (r: Decimal)
        ensures
            r == spec_normalize(neg, mantissa as nat, scale as nat),
            dec_wf(r),
    {
        let mut m = mantissa;
        let mut sc = scale;
        while sc > 0 && m % 10 == 0 && m != 0
            invariant
                spec_normalize(neg, mantissa as nat, scale as nat) == spec_normalize(
                    neg,
                    m as nat,
                    sc as nat,
                ),
            decreases sc,
        {
            m = m / 10;
            sc = sc - 1;
        }
        proof {
            lemma_normalize_wf(neg, mantissa as nat, scale as nat);
        }
        if m == 0 {
            Decimal { neg: false, mantissa: 0, scale: 0 }
        } else {
            Decimal { neg, mantissa: m, scale: sc }
        }
    }

    /// The decimal equal to the whole number `v`, with `neg` giving its
    /// sign.
    pub fn from_int(neg: bool, v: u32) -> (r: Decimal)
        ensures
            r == spec_normalize(neg, v as nat, 0),
            dec_wf(r),
    {
        Decimal::new(neg, v, 0)
    }

    /// The value as an unsigned byte, when it is exactly a whole number
    /// in that range.
    pub fn as_u8(&self) -> (r: Option<u8>)
        ensures
            match r {
                Option::Some(v) => !self.neg && self.scale == 0 && self.mantissa == v,
                Option::None => self.neg || self.scale != 0 || self.mantissa > 255,
            },
    {
        if !self.neg && self.scale == 0 && self.mantissa <= 255 {
            Option::Some(self.mantissa as u8)
        } else {
            Option::None
        }
    }
}

/// The end of the fractional digit run once trailing zeros are dropped.
pub open spec fn sp_strip_zeros(s: Seq<char>, i: int, j: int) -> int
    decreases j - i,
    when 0 <= i <= j <= s.len()
{
    if j > i && s[j - 1] == '0' {
        sp_strip_zeros(s, i, j - 1)
    } else {
        j
    }
}

/// The decimal literal parsed at `i`: an optional sign, then either an
/// integer part with an optional fraction after a dot, or a bare dotted
/// fraction.  Trailing fraction zeros carry no value and are dropped
/// before the mantissa is read; a mantissa beyond `u32::MAX` or a scale
/// beyond `u8::MAX` is rejected.
pub open spec fn sp_decimal(s: Seq<char>, i: int) -> Option<(Decimal, int)> {
    if i > s.len() {
        Option::None
    } else {
        let neg = i < s.len() && s[i] == '-';
        let i1 = if i < s.len() && (s[i] == '-' || s[i] == '+') {
            i + 1
        } else {
            i
        };
        let j1 = sp_digits_end(s, i1);
        let dotted = j1 < s.len() && s[j1] == '.';
        let fs = if dotted {
            j1 + 1
        } else {
            j1
        };
        let fe_raw = if dotted {
            sp_digits_end(s, fs)
        } else {
            fs
        };
        if j1 == i1 && (!dotted || fe_raw == fs) {
            Option::None
        } else {
            let end = if dotted {
                fe_raw
            } else {
                j1
            };
            let fe = sp_strip_zeros(s, fs, fe_raw);
            let efflen = fe - fs;
            let intval = sp_digits_val(s, i1, j1);
            let fracval = sp_digits_val(s, fs, fe);
            let m = intval * pow10(efflen as nat) + fracval;
            if efflen > u8::MAX || m > u32::MAX {
                Option::None
            } else {
                Option::Some((spec_normalize(neg, m as nat, efflen as nat), end))
            }
        }
    }
}

/// `pow10` grows monotonically and `pow10(10)` already exceeds `u32::MAX`.
proof fn lemma_pow10_big(n: nat)
    requires
        n >= 10,
    ensures
        pow10(n) > u32::MAX,
    decreases n,
{
    reveal_with_fuel(pow10, 12);
    if n == 10 {
        assert(pow10(10) == 10000000000);
    } else {
        lemma_pow10_big((n - 1) as nat);
        assert(pow10(n) == 10 * pow10((n - 1) as nat));
        assert(10 * pow10((n - 1) as nat) >= pow10((n - 1) as nat)) by (nonlinear_arith)
            requires
                pow10((n - 1) as nat) >= 0,
        ;
    }
}

/// Parse a decimal number literal at `i`.
pub fn scan_decimal(s: &Vec<char>, i: usize) -> (r: Option<(Decimal, usize)>)
    requires
        i <= s@.len(),
    ensures
        match r {
            Option::Some((d, j)) => sp_decimal(s@, i as int) == Option::Some((d, j as int)) && i
                < j <= s@.len() && dec_wf(d),
            Option::None => sp_decimal(s@, i as int) is None,
        },
{
    let n = s.len();
    let neg = i < n && s[i] == '-';
    let i1 = if i < n && (s[i] == '-' || s[i] == '+') {
        i + 1
    } else {
        i
    };
    let j1 = digits_end(s, i1);
    let dotted = j1 < n && s[j1] == '.';
    let fs = if dotted {
        j1 + 1
    } else {
        j1
    };
    let fe_raw = if dotted {
        digits_end(s, fs)
    } else {
        fs
    };
    if j1 == i1 && (!dotted || fe_raw == fs) {
        return Option::None;
    }
    let end = if dotted {
        fe_raw
    } else {
        j1
    };
    let mut fe = fe_raw;
    while fe > fs && s[fe - 1] == '0'
        invariant
            fs <= fe <= fe_raw <= s@.len(),
            sp_strip_zeros(s@, fs as int, fe_raw as int) == sp_strip_zeros(
                s@,
                fs as int,
                fe as int,
            ),
        decreases fe,
    {
        fe = fe - 1;
    }
    proof {
        assert(fe == sp_strip_zeros(s@, fs as int, fe_raw as int));
    }
    let efflen = fe - fs;
    let ghost intval = sp_digits_val(s@, i1 as int, j1 as int);
    let ghost fracval = sp_digits_val(s@, fs as int, fe as int);
    let ghost m_spec = intval * pow10(efflen as nat) + fracval;
    proof {
        lemma_digits_end_bounds(s@, i1 as int);
        lemma_digits_end_bounds(s@, fs as int);
        lemma_digits_val_nonneg(s@, i1 as int, j1 as int);
        lemma_digits_val_nonneg(s@, fs as int, fe as int);
        assert(pow10(efflen as nat) >= 1) by {
            lemma_pow10_pos(efflen as nat);
        }
        assert(intval * pow10(efflen as nat) >= intval && intval * pow10(efflen as nat) >= 0)
            by (nonlinear_arith)
            requires
                intval >= 0,
                pow10(efflen as nat) >= 1,
        ;
    }
    if efflen > 255 {
        return Option::None;
    }
    let v1 = match scan_val_range(s, i1, j1) {
        Option::Some(v) => v,
        Option::None => {
            return Option::None;
        },
    };
    let v2 = match scan_val_range(s, fs, fe) {
        Option::Some(v) => v,
        Option::None => {
            proof {
                assert(m_spec >= fracval);
            }
            return Option::None;
        },
    };
    let m: u64 = if v1 == 0 {
        proof {
            assert(m_spec == fracval) by (nonlinear_arith)
                requires
                    intval == 0,
                    m_spec == intval * pow10(efflen as nat) + fracval,
            ;
        }
        v2
    } else {
        if efflen > 9 {
            proof {
                lemma_pow10_big(efflen as nat);
                assert(m_spec > u32::MAX) by (nonlinear_arith)
                    requires
                        intval >= 1,
                        pow10(efflen as nat) > u32::MAX,
                        fracval >= 0,
                        m_spec == intval * pow10(efflen as nat) + fracval,
                ;
            }
            return Option::None;
        }
        let mut p: u64 = 1;
        let mut k: usize = 0;
        while k < efflen
            invariant
                0 <= k <= efflen <= 9,
                p == pow10(k as nat),
                p <= 1000000000,
        decreases efflen - k,
        {
            proof {
                lemma_pow10_le9(k as nat, efflen as nat);
            }
            p = p * 10;
            k = k + 1;
        }
        proof {
            assert(v1 * p + v2 == m_spec);
            assert(v1 * p <= 0xffff_ffff * 1000000000) by (nonlinear_arith)
                requires
                    0 <= v1 <= 0xffff_ffff,
                    0 <= p <= 1000000000,
            ;
        }
        v1 * p + v2
    };
    if m > 0xffff_ffff {
        return Option::None;
    }
    let d = Decimal::new(neg, m as u32, efflen as u8);
    Option::Some((d, end))
}

/// Ten to any power is at least one.
proof fn lemma_pow10_pos(n: nat)
    ensures
        pow10(n) >= 1,
    decreases n,
{
    if n > 0 {
        lemma_pow10_pos((n - 1) as nat);
        assert(10 * pow10((n - 1) as nat) >= pow10((n - 1) as nat)) by (nonlinear_arith)
            requires
                pow10((n - 1) as nat) >= 1,
        ;
    }
}

/// Ten to a power of at most nine stays within `10^9`.
proof fn lemma_pow10_le9(k: nat, e: nat)
    requires
        k < e,
        e <= 9,
    ensures
        pow10(k) * 10 <= 1000000000,
        pow10((k + 1) as nat) == pow10(k) * 10,
    decreases k,
{
    reveal_with_fuel(pow10, 12);
    assert(pow10(0) == 1 && pow10(1) == 10 && pow10(2) == 100 && pow10(3) == 1000 && pow10(4)
        == 10000 && pow10(5) == 100000 && pow10(6) == 1000000 && pow10(7) == 10000000 && pow10(8)
        == 100000000 && pow10(9) == 1000000000);
}

} // verus!
