//! What holds of 32-bit floating-point numbers.

use vstd::arithmetic::power2;
use vstd::prelude::*;

use super::Single;
use crate::number;

verus! {

/// The patterns count up in steps of the least positive number, and from then
/// on with twice the step for each power of two; the sign bit turns a number
/// into its negative.
pub proof fn law_value_of_a_pattern(bits: u32)
    requires
        bits < 0x8000_0000,
    ensures
        bits < 0x100_0000 ==> (Single { bits }).units() == bits,
        0x80_0000 <= bits < 0x7f80_0000 ==> (Single { bits: (bits + 0x80_0000) as u32 }).units()
            == 2 * (Single { bits }).units(),
        (Single { bits: (bits + 0x8000_0000) as u32 }).units() == -(Single { bits }).units(),
        (Single { bits: 0x3f80_0000 }).units() == super::one(),
{
    power2::lemma2_to64();
    let m = bits as nat;
    if bits < 0x100_0000 {
        assert(super::scale(m) == 0);
        assert(super::significand(m) == m);
        assert(m * 1 == m);
    }
    if 0x80_0000 <= bits < 0x7f80_0000 {
        let k = super::scale(m);
        let next = m + 0x80_0000;
        assert(super::significand(next) == super::significand(m));
        assert(super::scale(next) == k + 1);
        power2::lemma_pow2_unfold(k + 1);
        let sig = super::significand(m);
        let p = power2::pow2(k);
        assert(sig * (2 * p) == 2 * (sig * p)) by (nonlinear_arith);
    }
    super::lemma_whole(0x3f80_0000, 1, 23);
}

/// Patterns beyond that of infinity are no numbers, and compare as neither less
/// nor the same; all others compare as their values do.
pub proof fn law_comparisons(a: Single, b: Single)
    ensures
        a.nan() <==> 0x7f80_0000 < a.bits < 0x8000_0000 || 0xff80_0000 < a.bits,
        a.lt(b) <==> !a.nan() && !b.nan() && a.units() < b.units(),
        a.same(b) <==> !a.nan() && !b.nan() && a.units() == b.units(),
{
}

/// A number is kept where it lies within the bounds, and is the bound that it
/// lies beyond otherwise.
pub proof fn law_clamped_is_the_nearest(x: Single, min: Single, max: Single)
    requires
        !min.nan(),
        !max.nan(),
        min.units() <= max.units(),
    ensures
        x.nan() ==> x.clamped(min, max) == x,
        !x.nan() && x.units() < min.units() ==> x.clamped(min, max) == min,
        !x.nan() && x.units() > max.units() ==> x.clamped(min, max) == max,
        !x.nan() && min.units() <= x.units() <= max.units() ==> x.clamped(min, max) == x,
{
}

proof fn lemma_rounded(n: nat, d: nat)
    requires
        d > 0,
    ensures
        ({
            let q = super::round_half_even(n, d);
            &&& -(d as int) <= 2 * (n - q * d) <= d
            &&& (2 * (n - q * d) == d || 2 * (n - q * d) == -(d as int)) ==> q % 2 == 0
        }),
{
    let q = n / d;
    let r = n % d;
    vstd::arithmetic::div_mod::lemma_fundamental_div_mod(n as int, d as int);
    assert(n - q * d == r) by (nonlinear_arith)
        requires
            n == d * q + r,
    ;
    assert(n - (q + 1) * d == r - d) by (nonlinear_arith)
        requires
            n == d * q + r,
    ;
}

/// A number is printed with one digit after the point, as the nearest tenth,
/// the even one of two; with its sign, and without superfluous zeros.
pub proof fn law_one_decimal_is_the_nearest_tenth(x: Single)
    requires
        !x.nan(),
        !x.infinite(),
    ensures
        ({
            let printed = x.one_decimal_text();
            let size = if x.bits < 0x8000_0000 {
                x.units()
            } else {
                -x.units()
            };
            let unsigned = if x.bits < 0x8000_0000 {
                printed
            } else {
                printed.skip(1)
            };
            let whole = unsigned.take(unsigned.len() - 2);
            let n = 10 * number::digits_value(whole) + number::digit_value(unsigned.last());
            &&& x.bits >= 0x8000_0000 ==> printed.len() > 0 && printed[0] == '-'
            &&& unsigned.len() >= 3
            &&& number::all_digits(whole)
            &&& whole[0] == '0' ==> whole.len() == 1
            &&& unsigned[unsigned.len() - 2] == '.'
            &&& number::is_digit(unsigned.last())
            &&& -super::one() <= 2 * (10 * size - n * super::one()) <= super::one()
            &&& (2 * (10 * size - n * super::one()) == super::one() || 2 * (10 * size - n
                * super::one()) == -super::one()) ==> n % 2 == 0
        }),
{
    let tenths = x.tenths();
    let q = tenths / 10;
    let text = number::decimal_text(q);
    let printed = x.one_decimal_text();
    let unsigned = text + seq!['.', number::digit_char(tenths % 10)];
    number::lemma_decimal_text(q);
    number::laws::law_decimal_text_has_no_leading_zero(q);
    if x.negative() {
        assert(printed.skip(1) == unsigned);
    } else {
        assert(printed == unsigned);
    }
    assert(unsigned.take(unsigned.len() - 2) == text);
    power2::lemma_pow2_pos(149);
    lemma_rounded(10 * super::magnitude_units(x.magnitude()), power2::pow2(149));
}

/// What is not a finite number is printed by name.
pub proof fn law_others_are_printed_by_name(x: Single)
    ensures
        x.nan() ==> x.one_decimal_text() == "NaN"@,
        x.bits == 0x7f80_0000 ==> x.one_decimal_text() == "inf"@,
        x.bits == 0xff80_0000 ==> x.one_decimal_text() == seq!['-'] + "inf"@,
        x.infinite() <==> x.bits == 0x7f80_0000 || x.bits == 0xff80_0000,
{
}

} // verus!
