//! Reduced fractions used as note durations.
//!
//! A `Duration` is a fraction stored in lowest terms.  A degenerate
//! numerator or denominator of zero degrades to the fraction one rather
//! than being an error.

use vstd::prelude::*;
use vstd::arithmetic::div_mod::lemma_fundamental_div_mod;

verus! {

/// `k` divides `a` exactly.
pub open spec fn divides(k: int, a: int) -> bool {
    exists|q: int| a == #[trigger] (k * q)
}

/// Greatest common divisor by Euclid's algorithm.
pub open spec fn spec_gcd(a: nat, b: nat) -> nat
    decreases b,
{
    if b == 0 {
        a
    } else {
        spec_gcd(b, a % b)
    }
}

/// A fraction `num / denom`, stored in lowest terms.
#[derive(Clone, Copy, Debug, PartialEq, Eq, Structural)]
pub struct Duration {
    pub num: u16,
    pub denom: u16,
}

/// The fraction is in lowest terms with a positive denominator; the
/// zero fraction is written over one.
pub open spec fn reduced(num: int, denom: int) -> bool {
    &&& denom >= 1
    &&& num >= 0
    &&& (num == 0 ==> denom == 1)
    &&& (num >= 1 ==> spec_gcd(num as nat, denom as nat) == 1)
}

/// What `Duration::new` returns: zeros degrade to the fraction one,
/// anything else is divided by the greatest common divisor.
pub open spec fn spec_new_duration(num: int, denom: int) -> Duration {
    if num == 0 || denom == 0 {
        Duration { num: 1, denom: 1 }
    } else {
        let g = spec_gcd(num as nat, denom as nat) as int;
        Duration { num: (num / g) as u16, denom: (denom / g) as u16 }
    }
}

proof fn lemma_gcd_divides(a: nat, b: nat)
    ensures
        divides(spec_gcd(a, b) as int, a as int),
        divides(spec_gcd(a, b) as int, b as int),
        a > 0 || b > 0 ==> spec_gcd(a, b) > 0,
    decreases b,
{
    if b == 0 {
        assert(a as int == (a as int) * 1);
        assert(0 == (a as int) * 0);
    } else {
        lemma_gcd_divides(b, a % b);
        let g = spec_gcd(b, a % b) as int;
        let qb = choose|q: int| b as int == #[trigger] (g * q);
        let qr = choose|q: int| (a % b) as int == #[trigger] (g * q);
        lemma_fundamental_div_mod(a as int, b as int);
        assert(a as int == b * ((a as int) / (b as int)) + (a % b));
        assert(a as int == g * (qb * ((a as int) / (b as int)) + qr)) by (nonlinear_arith)
            requires
                b as int == g * qb,
                (a % b) as int == g * qr,
                a as int == b * ((a as int) / (b as int)) + (a % b),
        ;
    }
}

proof fn lemma_gcd_greatest(a: nat, b: nat, k: int)
    requires
        k > 0,
        divides(k, a as int),
        divides(k, b as int),
    ensures
        divides(k, spec_gcd(a, b) as int),
    decreases b,
{
    if b == 0 {
    } else {
        let qa = choose|q: int| a as int == #[trigger] (k * q);
        let qb = choose|q: int| b as int == #[trigger] (k * q);
        lemma_fundamental_div_mod(a as int, b as int);
        let d = (a as int) / (b as int);
        assert((a % b) as int == k * (qa - qb * d)) by (nonlinear_arith)
            requires
                a as int == k * qa,
                b as int == k * qb,
                a as int == b * d + (a % b),
        ;
        lemma_gcd_greatest(b, a % b, k);
    }
}

proof fn lemma_divides_le(k: int, a: int)
    requires
        k > 0,
        a > 0,
        divides(k, a),
    ensures
        k <= a,
{
    let q = choose|x: int| a == #[trigger] (k * x);
    assert(k <= a) by (nonlinear_arith)
        requires
            a == k * q,
            k > 0,
            a > 0,
    ;
}

/// Dividing both parts of a fraction by their greatest common divisor
/// leaves a fraction in lowest terms.
proof fn lemma_quotients_coprime(a: nat, b: nat)
    requires
        a > 0,
        b > 0,
    ensures
        ({
            let g = spec_gcd(a, b) as int;
            &&& g >= 1
            &&& 1 <= a as int / g <= a
            &&& 1 <= b as int / g <= b
            &&& reduced(a as int / g, b as int / g)
        }),
{
    let g = spec_gcd(a, b) as int;
    lemma_gcd_divides(a, b);
    let qa = choose|q: int| a as int == #[trigger] (g * q);
    let qb = choose|q: int| b as int == #[trigger] (g * q);
    lemma_fundamental_div_mod(a as int, g);
    lemma_fundamental_div_mod(b as int, g);
    assert(a as int % g == 0 && a as int / g == qa) by (nonlinear_arith)
        requires
            g > 0,
            a as int == g * qa,
            a as int == g * (a as int / g) + a as int % g,
            0 <= a as int % g < g,
    ;
    assert(b as int % g == 0 && b as int / g == qb) by (nonlinear_arith)
        requires
            g > 0,
            b as int == g * qb,
            b as int == g * (b as int / g) + b as int % g,
            0 <= b as int % g < g,
    ;
    assert(qa >= 1) by (nonlinear_arith)
        requires
            a as int == g * qa,
            a > 0,
            g > 0,
    ;
    assert(qb >= 1) by (nonlinear_arith)
        requires
            b as int == g * qb,
            b > 0,
            g > 0,
    ;
    assert(qa <= a && qb <= b) by (nonlinear_arith)
        requires
            a as int == g * qa,
            b as int == g * qb,
            g >= 1,
            qa >= 1,
            qb >= 1,
    ;
    let k = spec_gcd(qa as nat, qb as nat) as int;
    lemma_gcd_divides(qa as nat, qb as nat);
    if k > 1 {
        let ra = choose|q: int| qa == #[trigger] (k * q);
        let rb = choose|q: int| qb == #[trigger] (k * q);
        assert(a as int == (g * k) * ra) by (nonlinear_arith)
            requires
                a as int == g * qa,
                qa == k * ra,
        ;
        assert(b as int == (g * k) * rb) by (nonlinear_arith)
            requires
                b as int == g * qb,
                qb == k * rb,
        ;
        assert(g * k > g) by (nonlinear_arith)
            requires
                g > 0,
                k > 1,
        ;
        lemma_gcd_greatest(a, b, g * k);
        lemma_divides_le(g * k, g);
        assert(false);
    }
}

/// Common divisors are unchanged by replacing `m` with `m % n`.
proof fn lemma_common_divisors_mod(n: int, m: int, k: int)
    requires
        n > 0,
        k > 0,
    ensures
        (divides(k, n) && divides(k, m)) <==> (divides(k, n) && divides(k, m % n)),
{
    lemma_fundamental_div_mod(m, n);
    let d = m / n;
    if divides(k, n) {
        let qn = choose|q: int| n == #[trigger] (k * q);
        if divides(k, m) {
            let qm = choose|q: int| m == #[trigger] (k * q);
            assert(m % n == k * (qm - qn * d)) by (nonlinear_arith)
                requires
                    m == k * qm,
                    n == k * qn,
                    m == n * d + m % n,
            ;
        }
        if divides(k, m % n) {
            let qr = choose|q: int| m % n == #[trigger] (k * q);
            assert(m == k * (qn * d + qr)) by (nonlinear_arith)
                requires
                    m % n == k * qr,
                    n == k * qn,
                    m == n * d + m % n,
            ;
        }
    }
}

/// Two positive numbers that divide each other are equal.
proof fn lemma_divides_antisymmetric(a: int, b: int)
    requires
        a > 0,
        b > 0,
        divides(a, b),
        divides(b, a),
    ensures
        a == b,
{
    lemma_divides_le(a, b);
    lemma_divides_le(b, a);
}

/// Greatest common divisor of `n` and `m`, with the convention that a
/// zero on either side yields one.
pub fn gcd(n: u64, m: u64) -> (r: u64)
    ensures
        n == 0 || m == 0 ==> r == 1,
        n > 0 && m > 0 ==> r == spec_gcd(n as nat, m as nat),
{
    if m == 0 || n == 0 {
        return 1;
    }
    let ghost n0 = n as int;
    let ghost m0 = m as int;
    let mut n = n;
    let mut m = m;
    proof {
        lemma_gcd_divides(n0 as nat, m0 as nat);
    }
    while m != 0
        invariant
            n > 0,
            n0 > 0,
            m0 > 0,
            forall|k: int|
                k > 0 ==> ((divides(k, n as int) && divides(k, m as int)) <==> (divides(k, n0)
                    && divides(k, m0))),
        decreases m,
    {
        if m < n {
            let t = m;
            m = n;
            n = t;
        }
        proof {
            lemma_common_divisors_mod(n as int, m as int, 1);
            assert forall|k: int|
                k > 0 implies ((divides(k, n as int) && divides(k, (m % n) as int)) <==> (divides(
                k,
                n0,
            ) && divides(k, m0))) by {
                lemma_common_divisors_mod(n as int, m as int, k);
            }
            assert((m % n) < n || n <= m % n);
            vstd::arithmetic::div_mod::lemma_mod_bound(m as int, n as int);
        }
        m = m % n;
    }
    proof {
        let g = spec_gcd(n0 as nat, m0 as nat) as int;
        lemma_gcd_divides(n0 as nat, m0 as nat);
        assert(divides(n as int, n as int)) by {
            assert(n as int == (n as int) * 1);
        }
        assert(divides(n as int, m as int)) by {
            assert(0 == (n as int) * 0);
        }
        lemma_gcd_greatest(n0 as nat, m0 as nat, n as int);
        lemma_divides_antisymmetric(n as int, g);
    }
    n
}

/// The product of two 16-bit values fits below `2^32`.
proof fn lemma_u16_mul_bound(a: u16, b: u16)
    ensures
        0 <= (a as int) * (b as int) < 0x1_0000_0000,
{
    assert(0 <= (a as int) * (b as int) < 0x1_0000_0000) by (nonlinear_arith)
        requires
            0 <= a <= u16::MAX,
            0 <= b <= u16::MAX,
    ;
}

impl Duration {
    /// Build the reduced fraction `num / denom`; a zero numerator or
    /// denominator degrades to the fraction one.
    pub fn new(num: u16, denom: u16) -> (r: Duration)
        ensures
            r == spec_new_duration(num as int, denom as int),
            r.wf(),
    {
        if num == 0 || denom == 0 {
            proof {
                reveal_with_fuel(spec_gcd, 3);
            }
            return Duration { num: 1, denom: 1 };
        }
        proof {
            lemma_gcd_divides(num as nat, denom as nat);
            lemma_divides_le(spec_gcd(num as nat, denom as nat) as int, num as int);
            lemma_quotients_coprime(num as nat, denom as nat);
        }
        let g = gcd(num as u64, denom as u64);
        let rn = (num as u64 / g) as u16;
        let rd = (denom as u64 / g) as u16;
        Duration { num: rn, denom: rd }
    }

    /// The fraction is in lowest terms.
    pub open spec fn wf(self) -> bool {
        reduced(self.num as int, self.denom as int)
    }

    /// The exact rational value, as the pair of a spec-level comparison:
    /// `self` and `other` compare as `self.num * other.denom` against
    /// `other.num * self.denom`.
    pub open spec fn spec_lt(self, other: Duration) -> bool {
        self.num * other.denom < other.num * self.denom
    }

    /// Whether this fraction is strictly smaller in value than `other`.
    pub fn lt(&self, other: &Duration) -> (r: bool)
        ensures
            r == self.spec_lt(*other),
    {
        proof {
            lemma_u16_mul_bound(self.num, other.denom);
            lemma_u16_mul_bound(other.num, self.denom);
        }
        (self.num as u64) * (other.denom as u64) < (other.num as u64) * (self.denom as u64)
    }

    /// Fraction addition, reduced: machine limits bound the intermediate
    /// cross products.
    pub fn plus(&self, rhs: &Duration) -> (r: Duration)
        requires
            self.num * rhs.denom + rhs.num * self.denom <= u16::MAX,
            self.denom * rhs.denom <= u16::MAX,
        ensures
            r == spec_new_duration(
                self.num * rhs.denom + rhs.num * self.denom,
                self.denom * rhs.denom,
            ),
            r.wf(),
    {
        let n1 = (self.num as u32) * (rhs.denom as u32);
        let n2 = (rhs.num as u32) * (self.denom as u32);
        let d = (self.denom as u32) * (rhs.denom as u32);
        Duration::new((n1 + n2) as u16, d as u16)
    }

    /// Fraction multiplication, reduced: machine limits bound the
    /// intermediate products.
    pub fn times(&self, rhs: &Duration) -> (r: Duration)
        requires
            self.num * rhs.num <= u16::MAX,
            self.denom * rhs.denom <= u16::MAX,
        ensures
            r == spec_new_duration(self.num * rhs.num, self.denom * rhs.denom),
            r.wf(),
    {
        let n = (self.num as u32) * (rhs.num as u32);
        let d = (self.denom as u32) * (rhs.denom as u32);
        Duration::new(n as u16, d as u16)
    }
}

impl Default for Duration {
    /// The whole-note duration, one.
    fn default() -> (r: Self)
        ensures
            r == (Duration { num: 1, denom: 1 }),
    {
        Duration { num: 1, denom: 1 }
    }
}

/// What `Duration::new` yields stays within the bounds of its inputs.
pub proof fn lemma_new_bounds(num: int, denom: int)
    requires
        0 <= num <= u16::MAX,
        1 <= denom <= u16::MAX,
    ensures
        ({
            let r = spec_new_duration(num, denom);
            &&& r.wf()
            &&& r.num <= (if num == 0 { 1int } else { num })
            &&& 1 <= r.denom <= denom
        }),
{
    if num == 0 {
        reveal_with_fuel(spec_gcd, 3);
    } else {
        let g = spec_gcd(num as nat, denom as nat) as int;
        lemma_quotients_coprime(num as nat, denom as nat);
    }
}

/// Every duration built by `Duration::new` is in lowest terms, and a zero
/// numerator or denominator yields exactly the fraction one.
pub proof fn lemma_new_lowest_terms(num: int, denom: int)
    requires
        0 <= num <= u16::MAX,
        0 <= denom <= u16::MAX,
    ensures
        spec_new_duration(num, denom).wf(),
        num == 0 || denom == 0 ==> spec_new_duration(num, denom) == (Duration { num: 1, denom: 1 }),
{
    if num == 0 || denom == 0 {
        reveal_with_fuel(spec_gcd, 3);
        assert(spec_gcd(1, 1) == 1);
    } else {
        lemma_quotients_coprime(num as nat, denom as nat);
    }
}

} // verus!
