//! Single-precision numbers by their bit patterns.
//!
//! Temperatures and fan speeds travel as IEEE 754 single-precision numbers.
//! Here such a number is its bit pattern: comparing, clamping and printing one
//! are integer work, and what they mean is stated over the exact value that
//! the pattern stands for.

use vstd::arithmetic::power2;
use vstd::prelude::*;

use crate::number;

pub mod laws;

verus! {

/// An IEEE 754 single-precision number.
#[derive(Clone, Copy, Debug)]
pub struct Single {
    /// The bit pattern: sign, eight bits of exponent, 23 bits of fraction.
    pub bits: u32,
}

/// The lowest bit pattern with the sign bit set.
pub const SIGN: u32 = 0x8000_0000;

/// The bit pattern of positive infinity; greater magnitudes are not numbers.
pub const INFINITY: u32 = 0x7f80_0000;

/// The bit pattern of the least normal number: one more than the fraction holds.
pub const HIDDEN: u32 = 0x0080_0000;

/// How many units in the last place of the least number make one.
pub open spec fn one() -> int {
    power2::pow2(149) as int
}

/// The significand of a magnitude, with the hidden bit of a normal number.
pub open spec fn significand(magnitude: nat) -> nat {
    if magnitude < HIDDEN {
        magnitude
    } else {
        HIDDEN as nat + magnitude % (HIDDEN as nat)
    }
}

/// The power of two, above the least, by which the significand is scaled.
pub open spec fn scale(magnitude: nat) -> nat {
    if magnitude < HIDDEN {
        0
    } else {
        (magnitude / (HIDDEN as nat) - 1) as nat
    }
}

/// The exact value of a magnitude, in units of the least positive number. For
/// infinity it is the value that would follow the greatest finite one.
pub open spec fn magnitude_units(magnitude: nat) -> nat {
    significand(magnitude) * power2::pow2(scale(magnitude))
}

/// `n / d` rounded to the nearest whole number, to the even one of two.
pub open spec fn round_half_even(n: nat, d: nat) -> nat {
    let q = n / d;
    let r = n % d;
    if 2 * r > d || (2 * r == d && q % 2 == 1) {
        q + 1
    } else {
        q
    }
}

impl Single {
    /// Whether the sign bit is set.
    pub open spec fn negative(self) -> bool {
        self.bits >= SIGN
    }

    /// The pattern without the sign bit.
    pub open spec fn magnitude(self) -> nat {
        (self.bits % SIGN) as nat
    }

    /// Whether the pattern is not a number.
    pub open spec fn nan(self) -> bool {
        self.magnitude() > INFINITY
    }

    /// Whether the pattern is one of the two infinities.
    pub open spec fn infinite(self) -> bool {
        self.magnitude() == INFINITY
    }

    /// The exact value, in units of the least positive number.
    pub open spec fn units(self) -> int {
        if self.negative() {
            -(magnitude_units(self.magnitude()) as int)
        } else {
            magnitude_units(self.magnitude()) as int
        }
    }

    /// Whether the number is exactly `n`.
    pub open spec fn is_whole(self, n: int) -> bool {
        !self.nan() && !self.infinite() && self.units() == n * one()
    }

    /// `self < other`; never where one of them is not a number.
    pub open spec fn lt(self, other: Single) -> bool {
        !self.nan() && !other.nan() && self.units() < other.units()
    }

    /// `self == other`; never where one of them is not a number.
    pub open spec fn same(self, other: Single) -> bool {
        !self.nan() && !other.nan() && self.units() == other.units()
    }

    /// `self`, or the bound that it lies beyond.
    pub open spec fn clamped(self, min: Single, max: Single) -> Single {
        if self.lt(min) {
            min
        } else if max.lt(self) {
            max
        } else {
            self
        }
    }

    /// The absolute value in tenths, rounded to the nearest, ties to even.
    pub open spec fn tenths(self) -> nat {
        round_half_even(10 * magnitude_units(self.magnitude()), power2::pow2(149))
    }

    /// The number with one digit after the point.
    pub open spec fn one_decimal_text(self) -> Seq<char> {
        let sign = if self.negative() {
            seq!['-']
        } else {
            Seq::<char>::empty()
        };
        if self.nan() {
            "NaN"@
        } else if self.infinite() {
            sign + "inf"@
        } else {
            sign + number::decimal_text(self.tenths() / 10) + seq![
                '.',
                number::digit_char(self.tenths() % 10),
            ]
        }
    }
}

// --- Order ---

/// The next pattern stands for a greater value.
proof fn lemma_successor_is_greater(m: nat)
    ensures
        magnitude_units(m) < magnitude_units(m + 1),
{
    let h = HIDDEN as nat;
    let e = m / h;
    let f = m % h;
    assert(m == e * h + f) by (nonlinear_arith)
        requires
            h == 0x80_0000nat,
            e == m / h,
            f == m % h,
    ;
    power2::lemma_pow2_pos(scale(m));
    power2::lemma_pow2_pos(scale(m + 1));
    if m < h {
        power2::lemma2_to64();
        let unit = power2::pow2(0);
        assert(m * unit < (m + 1) * unit) by (nonlinear_arith)
            requires
                unit == 1,
        ;
        assert(significand(m + 1) == m + 1 && scale(m + 1) == 0);
    } else if f + 1 < h {
        assert((m + 1) / h == e && (m + 1) % h == f + 1) by {
            vstd::arithmetic::div_mod::lemma_fundamental_div_mod_converse(
                (m + 1) as int,
                h as int,
                e as int,
                f as int + 1,
            );
        }
        let p = power2::pow2(scale(m));
        assert((h + f) * p < (h + (f + 1)) * p) by (nonlinear_arith)
            requires
                p > 0,
        ;
    } else {
        assert((m + 1) / h == e + 1 && (m + 1) % h == 0) by {
            vstd::arithmetic::div_mod::lemma_fundamental_div_mod_converse(
                (m + 1) as int,
                h as int,
                e as int + 1,
                0,
            );
        }
        let p = power2::pow2(scale(m));
        power2::lemma_pow2_unfold(scale(m + 1));
        assert(power2::pow2(scale(m + 1)) == 2 * p);
        assert((h + f) * p < h * (2 * p)) by (nonlinear_arith)
            requires
                p > 0,
                f + 1 == h,
        ;
    }
}

/// Greater patterns stand for greater values.
pub proof fn lemma_magnitude_order(a: nat, b: nat)
    ensures
        a < b <==> magnitude_units(a) < magnitude_units(b),
        a == b <==> magnitude_units(a) == magnitude_units(b),
{
    if a < b {
        lemma_magnitude_increases(a, b);
    } else if b < a {
        lemma_magnitude_increases(b, a);
    }
}

proof fn lemma_magnitude_increases(a: nat, b: nat)
    requires
        a < b,
    ensures
        magnitude_units(a) < magnitude_units(b),
    decreases b,
{
    lemma_successor_is_greater((b - 1) as nat);
    if a < b - 1 {
        lemma_magnitude_increases(a, (b - 1) as nat);
    }
}

/// The integer by which numbers are ordered as their values are.
pub open spec fn rank(x: Single) -> int {
    if x.negative() {
        -(x.magnitude() as int)
    } else {
        x.magnitude() as int
    }
}

/// Ranks are ordered as values are.
pub proof fn lemma_rank_order(a: Single, b: Single)
    ensures
        rank(a) < rank(b) <==> a.units() < b.units(),
        rank(a) == rank(b) <==> a.units() == b.units(),
{
    lemma_magnitude_order(a.magnitude(), b.magnitude());
    lemma_magnitude_order(b.magnitude(), a.magnitude());
    lemma_magnitude_order(0, a.magnitude());
    lemma_magnitude_order(0, b.magnitude());
    assert(magnitude_units(0) == 0) by (nonlinear_arith)
        requires
            magnitude_units(0) == significand(0) * power2::pow2(scale(0)),
            significand(0) == 0,
    ;
}

impl Single {
    /// Whether the pattern is not a number.
    pub fn is_nan(self) -> (r: bool)
        ensures
            r == self.nan(),
    {
        self.bits % SIGN > INFINITY
    }

    fn order(self) -> (r: i64)
        ensures
            r == rank(self),
    {
        if self.bits >= SIGN {
            0 - (self.bits % SIGN) as i64
        } else {
            (self.bits % SIGN) as i64
        }
    }

    /// Whether `self` is less than `other`.
    pub fn less_than(self, other: Single) -> (r: bool)
        ensures
            r == self.lt(other),
    {
        proof {
            lemma_rank_order(self, other);
        }
        !self.is_nan() && !other.is_nan() && self.order() < other.order()
    }

    /// Whether `self` equals `other`.
    pub fn equals(self, other: Single) -> (r: bool)
        ensures
            r == self.same(other),
    {
        proof {
            lemma_rank_order(self, other);
        }
        !self.is_nan() && !other.is_nan() && self.order() == other.order()
    }

    /// Restricts the number to `min..=max`. What is not a number stays as it is.
    pub fn clamp(self, min: Single, max: Single) -> (r: Single)
        requires
            !min.nan(),
            !max.nan(),
            !max.lt(min),
        ensures
            r == self.clamped(min, max),
    {
        if self.less_than(min) {
            min
        } else if max.less_than(self) {
            max
        } else {
            self
        }
    }
}

/// A clamped number lies within the bounds.
pub proof fn law_clamped_is_within(x: Single, min: Single, max: Single)
    requires
        !x.nan(),
        !min.nan(),
        !max.nan(),
        !max.lt(min),
    ensures
        !x.clamped(min, max).nan(),
        min.units() <= x.clamped(min, max).units() <= max.units(),
{
}

/// A pattern whose significand is `n` scaled up by the missing power of two is
/// exactly `n`.
pub proof fn lemma_whole(bits: u32, n: nat, shift: nat)
    requires
        bits < INFINITY,
        significand(bits as nat) == n * power2::pow2(shift),
        scale(bits as nat) + shift == 149,
    ensures
        (Single { bits }).is_whole(n as int),
{
    let k = scale(bits as nat);
    power2::lemma_pow2_adds(shift, k);
    assert((n * power2::pow2(shift)) * power2::pow2(k) == n * (power2::pow2(shift) * power2::pow2(
        k,
    ))) by (nonlinear_arith);
}

// --- Printing ---

/// Two to the power of `k`.
fn power_of_two(k: u32) -> (p: u128)
    requires
        k <= 104,
    ensures
        p == power2::pow2(k as nat),
{
    let mut p: u128 = 1;
    let mut i: u32 = 0;
    proof {
        power2::lemma2_to64();
    }
    while i < k
        invariant
            i <= k <= 104,
            p == power2::pow2(i as nat),
        decreases k - i,
    {
        proof {
            power2::lemma_pow2_unfold((i + 1) as nat);
            lemma_pow2_fits(i as nat);
        }
        p = 2 * p;
        i = i + 1;
    }
    p
}

proof fn lemma_pow2_fits(k: nat)
    requires
        k <= 104,
    ensures
        power2::pow2(k) <= 0x100_0000_0000_0000_0000_0000_0000,
{
    power2::lemma2_to64();
    power2::lemma_pow2_adds(52, 52);
    power2::lemma2_to64_rest();
    if k < 104 {
        power2::lemma_pow2_strictly_increases(k, 104);
    }
}

/// Scaling both sides of a division by the same factor changes nothing.
proof fn lemma_round_scaled(n: nat, d: nat, p: nat)
    requires
        d > 0,
        p > 0,
    ensures
        round_half_even(n * p, d * p) == round_half_even(n, d),
{
    let q = n / d;
    let r = n % d;
    vstd::arithmetic::div_mod::lemma_fundamental_div_mod(n as int, d as int);
    assert(r * p < d * p && d * p > 0 && r * p >= 0) by (nonlinear_arith)
        requires
            r < d,
            p > 0,
            d > 0,
    ;
    assert(n * p == q * (d * p) + r * p) by (nonlinear_arith)
        requires
            n == d * q + r,
    ;
    vstd::arithmetic::div_mod::lemma_fundamental_div_mod_converse(
        (n * p) as int,
        (d * p) as int,
        q as int,
        (r * p) as int,
    );
    assert(2 * (r * p) > d * p <==> 2 * r > d) by (nonlinear_arith)
        requires
            p > 0,
    ;
    assert(2 * (r * p) == d * p <==> 2 * r == d) by (nonlinear_arith)
        requires
            p > 0,
    ;
}

impl Single {
    /// The number with one digit after the point, rounded to the nearest, ties
    /// to even.
    pub fn one_decimal(self) -> (s: String)
        ensures
            s@ == self.one_decimal_text(),
    {
        let magnitude: u32 = self.bits % SIGN;
        if magnitude > INFINITY {
            return "NaN".to_owned();
        }
        let mut s = String::new();
        if self.bits >= SIGN {
            s.push('-');
        }
        let ghost sign = s@;
        if magnitude == INFINITY {
            s.append("inf");
            assert(s@ == self.one_decimal_text());
            return s;
        }
        let (sig, k): (u32, u32) = if magnitude < HIDDEN {
            (magnitude, 0)
        } else {
            (HIDDEN + magnitude % HIDDEN, magnitude / HIDDEN - 1)
        };
        let ghost m = magnitude as nat;
        assert(sig == significand(m) && k == scale(m));
        assert(sig < 0x100_0000 && k <= 253);
        if k >= 149 {
            let p = power_of_two(k - 149);
            proof {
                lemma_pow2_fits((k - 149) as nat);
                assert(sig * p < 0x1_0000_0000_0000_0000_0000_0000_0000_0000) by (nonlinear_arith)
                    requires
                        0 <= sig < 0x100_0000,
                        0 <= p <= 0x100_0000_0000_0000_0000_0000_0000,
                ;
            }
            let whole: u128 = sig as u128 * p;
            proof {
                let one = power2::pow2(149);
                power2::lemma_pow2_adds((k - 149) as nat, 149);
                power2::lemma_pow2_pos(149);
                let units = magnitude_units(m);
                assert(10 * units == (10 * whole) * one + 0) by (nonlinear_arith)
                    requires
                        units == sig * power2::pow2(k as nat),
                        power2::pow2(k as nat) == p * one,
                        whole == sig * p,
                ;
                vstd::arithmetic::div_mod::lemma_fundamental_div_mod_converse(
                    (10 * units) as int,
                    one as int,
                    10 * whole as int,
                    0,
                );
                assert(self.tenths() == 10 * whole);
                assert(self.tenths() / 10 == whole);
                assert(self.tenths() % 10 == 0);
            }
            number::push_decimal(&mut s, whole);
            s.push('.');
            s.push('0');
            assert(number::digit_char(0) == '0');
            assert(s@ == self.one_decimal_text());
            return s;
        }
        let places: u32 = 149 - k;
        let numerator: u64 = 10 * sig as u64;
        proof {
            power2::lemma_pow2_adds(places as nat, k as nat);
            power2::lemma_pow2_pos(places as nat);
            power2::lemma_pow2_pos(k as nat);
            let one = power2::pow2(149);
            let d = power2::pow2(places as nat);
            let p = power2::pow2(k as nat);
            lemma_round_scaled(numerator as nat, d, p);
            let units = magnitude_units(m);
            assert(10 * units == numerator * p) by (nonlinear_arith)
                requires
                    units == sig * p,
                    numerator == 10 * sig,
            ;
            assert(self.tenths() == round_half_even(numerator as nat, d));
        }
        let tenths: u64 = if places >= 30 {
            proof {
                power2::lemma2_to64();
                if places > 30 {
                    power2::lemma_pow2_strictly_increases(30, places as nat);
                }
                let d = power2::pow2(places as nat);
                vstd::arithmetic::div_mod::lemma_small_mod(numerator as nat, d);
                vstd::arithmetic::div_mod::lemma_basic_div(numerator as int, d as int);
            }
            0
        } else {
            proof {
                power2::lemma2_to64();
                power2::lemma_pow2_strictly_increases(places as nat, 30);
            }
            let d: u64 = power_of_two(places) as u64;
            let q: u64 = numerator / d;
            let r: u64 = numerator % d;
            if 2 * r > d || (2 * r == d && q % 2 == 1) {
                assert(q <= numerator) by (nonlinear_arith)
                    requires
                        q == numerator / d,
                        d > 0,
                ;
                q + 1
            } else {
                q
            }
        };
        assert(tenths == self.tenths());
        number::push_decimal(&mut s, (tenths / 10) as u128);
        s.push('.');
        let digit: u8 = 48 + (tenths % 10) as u8;
        s.push(digit as char);
        assert(s@ == self.one_decimal_text());
        s
    }
}

} // verus!
