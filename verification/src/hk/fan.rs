//! Fan rates on the HomeKit rotation speed slider.
//!
//! Fan-rate tokens, ordered from lowest to highest airflow, are mapped linearly
//! onto the 0-100% slider. `B` = silent, `3`..`7` = levels 1-5, `A` = automatic
//! (top of the range).

use vstd::arithmetic::power2;
use vstd::prelude::*;

use crate::single;
use crate::single::Single;
use crate::text;

verus! {

/// How many fan rates there are.
pub const FAN_RATES: usize = 7;

/// The fan-rate tokens, from lowest to highest airflow.
pub open spec fn fan_tokens() -> Seq<Seq<char>> {
    seq!["B"@, "3"@, "4"@, "5"@, "6"@, "7"@, "A"@]
}

/// The fan-rate tokens, from lowest to highest airflow.
pub fn fan_order() -> (tokens: [&'static str; 7])
    ensures
        forall|i: int| 0 <= i < FAN_RATES ==> (#[trigger] tokens@[i])@ == fan_tokens()[i],
{
    ["B", "3", "4", "5", "6", "7", "A"]
}

/// The position of a token; that of the top one for any other text.
pub open spec fn fan_index(rate: Seq<char>) -> nat {
    if rate == "B"@ {
        0
    } else if rate == "3"@ {
        1
    } else if rate == "4"@ {
        2
    } else if rate == "5"@ {
        3
    } else if rate == "6"@ {
        4
    } else if rate == "7"@ {
        5
    } else {
        6
    }
}

/// The position of a token on the slider: the whole percentage nearest to
/// `(index + 1) / 7`.
pub open spec fn fan_percent(index: nat) -> nat {
    (200 * (index + 1) + 7) / 14
}

/// The bit patterns of the percentages.
pub open spec fn fan_percent_bits(index: nat) -> u32 {
    if index == 0 {
        0x4160_0000
    } else if index == 1 {
        0x41e8_0000
    } else if index == 2 {
        0x422c_0000
    } else if index == 3 {
        0x4264_0000
    } else if index == 4 {
        0x428e_0000
    } else if index == 5 {
        0x42ac_0000
    } else {
        0x42c8_0000
    }
}

/// The bit pattern of the least speed at which a rate is chosen over the one
/// below it: the least number `p` for which `p / 100 * 7`, computed in single
/// precision, comes to `index + 1/2` or more.
pub open spec fn fan_threshold_bits(index: nat) -> u32 {
    if index == 1 {
        0x41ab_6db7
    } else if index == 2 {
        0x420e_db6e
    } else if index == 3 {
        0x4248_0000
    } else if index == 4 {
        0x4280_9249
    } else if index == 5 {
        0x429d_2492
    } else {
        0x42b9_b6db
    }
}

/// Whether a speed is at or above the threshold of a rate.
pub open spec fn reaches(pct: Single, index: nat) -> bool {
    !pct.nan() && !pct.lt(Single { bits: fan_threshold_bits(index) })
}

/// The position of the rate for a speed.
pub open spec fn fan_step(pct: Single) -> nat {
    if reaches(pct, 6) {
        6
    } else if reaches(pct, 5) {
        5
    } else if reaches(pct, 4) {
        4
    } else if reaches(pct, 3) {
        3
    } else if reaches(pct, 2) {
        2
    } else if reaches(pct, 1) {
        1
    } else {
        0
    }
}

/// The bit pattern of the negative speed from which on downward `p / 100 * 7`
/// is no 32-bit number. Such a speed is no speed at all.
pub const FAN_FLOOR: u32 = 0xd0e4_924a;

/// Whether a speed can be mapped to a rate.
pub open spec fn is_speed(pct: Single) -> bool {
    pct.nan() || (Single { bits: FAN_FLOOR }).lt(pct)
}

/// Whether a speed can be mapped to a rate.
pub fn can_map_speed(pct: Single) -> (r: bool)
    ensures
        r == is_speed(pct),
{
    pct.is_nan() || (Single { bits: FAN_FLOOR }).less_than(pct)
}

/// The percentages are whole numbers.
pub proof fn lemma_fan_percents(index: nat)
    requires
        index < FAN_RATES,
    ensures
        (Single { bits: fan_percent_bits(index) }).is_whole(fan_percent(index) as int),
{
    power2::lemma2_to64();
    let bits = fan_percent_bits(index);
    if index == 0 {
        single::lemma_whole(bits, 14, 20);
    } else if index == 1 {
        single::lemma_whole(bits, 29, 19);
    } else if index == 2 {
        single::lemma_whole(bits, 43, 18);
    } else if index == 3 {
        single::lemma_whole(bits, 57, 18);
    } else if index == 4 {
        single::lemma_whole(bits, 71, 17);
    } else if index == 5 {
        single::lemma_whole(bits, 86, 17);
    } else {
        single::lemma_whole(bits, 100, 17);
    }
}

/// Maps a fan-rate token to a rotation speed in percent.
pub fn fan_rate_to_percent(rate: &str) -> (pct: Single)
    ensures
        pct.is_whole(fan_percent(fan_index(rate@)) as int),
        pct.bits == fan_percent_bits(fan_index(rate@)),
{
    proof {
        lemma_fan_percents(fan_index(rate@));
    }
    if text::same_text(rate, "B") {
        Single { bits: 0x4160_0000 }
    } else if text::same_text(rate, "3") {
        Single { bits: 0x41e8_0000 }
    } else if text::same_text(rate, "4") {
        Single { bits: 0x422c_0000 }
    } else if text::same_text(rate, "5") {
        Single { bits: 0x4264_0000 }
    } else if text::same_text(rate, "6") {
        Single { bits: 0x428e_0000 }
    } else if text::same_text(rate, "7") {
        Single { bits: 0x42ac_0000 }
    } else {
        Single { bits: 0x42c8_0000 }
    }
}

fn at_or_above(pct: Single, threshold: u32) -> (r: bool)
    ensures
        r == (!pct.nan() && !pct.lt(Single { bits: threshold })),
{
    !pct.is_nan() && !pct.less_than(Single { bits: threshold })
}

/// Maps a rotation speed in percent to a fan-rate token.
pub fn percent_to_fan_rate(pct: Single) -> (rate: String)
    requires
        is_speed(pct),
    ensures
        rate@ == fan_tokens()[fan_step(pct) as int],
{
    if at_or_above(pct, 0x42b9_b6db) {
        "A".to_owned()
    } else if at_or_above(pct, 0x429d_2492) {
        "7".to_owned()
    } else if at_or_above(pct, 0x4280_9249) {
        "6".to_owned()
    } else if at_or_above(pct, 0x4248_0000) {
        "5".to_owned()
    } else if at_or_above(pct, 0x420e_db6e) {
        "4".to_owned()
    } else if at_or_above(pct, 0x41ab_6db7) {
        "3".to_owned()
    } else {
        "B".to_owned()
    }
}

// --- Laws ---

/// Positive numbers are ordered as their bit patterns are.
proof fn lemma_positive_order(a: u32, b: u32)
    requires
        a <= single::INFINITY,
        b <= single::INFINITY,
    ensures
        (Single { bits: a }).lt(Single { bits: b }) <==> a < b,
{
    single::lemma_rank_order(Single { bits: a }, Single { bits: b });
}

/// Every token is at its own position.
pub proof fn lemma_fan_index_of_token(i: int)
    requires
        0 <= i < FAN_RATES,
    ensures
        fan_index(fan_tokens()[i]) == i,
{
    reveal_strlit("B");
    reveal_strlit("3");
    reveal_strlit("4");
    reveal_strlit("5");
    reveal_strlit("6");
    reveal_strlit("7");
    reveal_strlit("A");
    assert("B"@[0] == 'B');
    assert("3"@[0] == '3');
    assert("4"@[0] == '4');
    assert("5"@[0] == '5');
    assert("6"@[0] == '6');
    assert("7"@[0] == '7');
    assert("A"@[0] == 'A');
}

/// A fan rate shown on the slider and read back from it is the same rate.
pub proof fn law_fan_rate_roundtrips(i: int, pct: Single)
    requires
        0 <= i < FAN_RATES,
        pct.bits == fan_percent_bits(fan_index(fan_tokens()[i])),
    ensures
        is_speed(pct),
        fan_tokens()[fan_step(pct) as int] == fan_tokens()[i],
{
    lemma_fan_index_of_token(i);
    lemma_positive_order(pct.bits, 0x41ab_6db7);
    lemma_positive_order(pct.bits, 0x420e_db6e);
    lemma_positive_order(pct.bits, 0x4248_0000);
    lemma_positive_order(pct.bits, 0x4280_9249);
    lemma_positive_order(pct.bits, 0x429d_2492);
    lemma_positive_order(pct.bits, 0x42b9_b6db);
    single::lemma_rank_order(Single { bits: FAN_FLOOR }, pct);
}

/// More speed never means a lower rate.
pub proof fn law_fan_rate_is_monotonic(a: Single, b: Single)
    requires
        !a.nan(),
        !b.nan(),
        a.units() <= b.units(),
    ensures
        fan_step(a) <= fan_step(b),
{
}

/// More airflow never means less speed on the slider.
pub proof fn law_fan_percent_increases(i: nat, j: nat)
    requires
        i < j,
        j < FAN_RATES,
    ensures
        fan_percent(i) < fan_percent(j),
        fan_percent(j) <= 100,
{
}

/// The slider's ends are the silent rate and the automatic one.
pub proof fn law_fan_extremes(pct: Single)
    requires
        !pct.nan(),
    ensures
        pct.units() <= 0 ==> fan_step(pct) == 0,
        pct.units() >= 100 * single::one() ==> fan_step(pct) == 6,
{
    lemma_positive_order(0, 0x41ab_6db7);
    lemma_positive_order(0, 0x420e_db6e);
    lemma_positive_order(0, 0x4248_0000);
    lemma_positive_order(0, 0x4280_9249);
    lemma_positive_order(0, 0x429d_2492);
    lemma_positive_order(0, 0x42b9_b6db);
    lemma_positive_order(0x42b9_b6db, fan_percent_bits(6));
    lemma_fan_percents(6);
    assert((Single { bits: 0 }).units() == 0) by (nonlinear_arith)
        requires
            (Single { bits: 0 }).units() == single::significand(0) * power2::pow2(
                single::scale(0),
            ),
            single::significand(0) == 0,
    ;
}

/// The threshold of a rate as a multiple of a power of two.
proof fn lemma_threshold_units(index: nat, sig: nat, shift: nat)
    requires
        1 <= index < FAN_RATES,
        single::significand(fan_threshold_bits(index) as nat) == sig,
        single::scale(fan_threshold_bits(index) as nat) + shift == 149,
    ensures
        ({
            let p = power2::pow2(single::scale(fan_threshold_bits(index) as nat)) as int;
            &&& p > 0
            &&& (Single { bits: fan_threshold_bits(index) }).units() == sig * p
            &&& single::one() == power2::pow2(shift) * p
        }),
{
    let k = single::scale(fan_threshold_bits(index) as nat);
    power2::lemma_pow2_adds(shift, k);
    power2::lemma_pow2_pos(k);
}

/// The rate changes where the speed is half way between two rates, to within a
/// ten-thousandth of a percent.
pub proof fn law_fan_rate_is_the_nearest(pct: Single, index: nat)
    requires
        !pct.nan(),
        1 <= index < FAN_RATES,
    ensures
        10000 * (14 * pct.units() - 100 * (2 * index + 1) * single::one()) >= 14 * single::one()
            ==> fan_step(pct) >= index,
        10000 * (14 * pct.units() - 100 * (2 * index + 1) * single::one()) <= -14 * single::one()
            ==> fan_step(pct) < index,
{
    power2::lemma2_to64();
    let one = single::one();
    let t = (Single { bits: fan_threshold_bits(index) }).units();
    lemma_thresholds_increase();
    lemma_threshold_is_half_way(index);
    let mid = 100 * (2 * index + 1) * one;
    assert(-14 * one < 10000 * (14 * t - mid) < 14 * one);
    assert(!(Single { bits: fan_threshold_bits(index) }).nan());
    assert(reaches(pct, index) <==> pct.units() >= t);
    lemma_step_reaches(pct, index);
}

proof fn lemma_thresholds_increase()
    ensures
        forall|i: nat, j: nat|
            1 <= i < j < FAN_RATES ==> (Single { bits: #[trigger] fan_threshold_bits(i) }).units()
                < (Single { bits: #[trigger] fan_threshold_bits(j) }).units(),
{
    assert forall|i: nat, j: nat| 1 <= i < j < FAN_RATES implies (Single {
        bits: #[trigger] fan_threshold_bits(i),
    }).units() < (Single { bits: #[trigger] fan_threshold_bits(j) }).units() by {
        lemma_positive_order(fan_threshold_bits(i), fan_threshold_bits(j));
    }
}

/// A speed has reached every rate up to its own, and none above it.
proof fn lemma_step_reaches(pct: Single, index: nat)
    requires
        1 <= index < FAN_RATES,
        !pct.nan(),
    ensures
        fan_step(pct) >= index <==> reaches(pct, index),
{
    lemma_thresholds_increase();
    assert forall|i: nat| index <= i < FAN_RATES && reaches(pct, i) implies reaches(pct, index) by {
        if i > index {
            assert((Single { bits: fan_threshold_bits(index) }).units() < (Single {
                bits: fan_threshold_bits(i),
            }).units());
        }
    }
    assert(reaches(pct, 6) ==> reaches(pct, index));
    assert(index <= 5 && reaches(pct, 5) ==> reaches(pct, index));
    assert(index <= 4 && reaches(pct, 4) ==> reaches(pct, index));
    assert(index <= 3 && reaches(pct, 3) ==> reaches(pct, index));
    assert(index <= 2 && reaches(pct, 2) ==> reaches(pct, index));
}

proof fn lemma_threshold_is_half_way(index: nat)
    requires
        1 <= index < FAN_RATES,
    ensures
        ({
            let t = (Single { bits: fan_threshold_bits(index) }).units();
            let mid = 100 * (2 * index + 1) * single::one();
            -14 * single::one() < 10000 * (14 * t - mid) < 14 * single::one()
        }),
{
    power2::lemma2_to64();
    let bits = fan_threshold_bits(index) as nat;
    let sig = single::significand(bits);
    let shift = (149 - single::scale(bits)) as nat;
    lemma_threshold_units(index, sig, shift);
    let p = power2::pow2(single::scale(bits)) as int;
    let q = power2::pow2(shift) as int;
    let c = 100 * (2 * index + 1);
    if index == 1 {
        assert(sig == 0xab_6db7 && shift == 19 && q == 0x8_0000 && c == 300);
    } else if index == 2 {
        assert(sig == 0x8e_db6e && shift == 18 && q == 0x4_0000 && c == 500);
    } else if index == 3 {
        assert(sig == 0xc8_0000 && shift == 18 && q == 0x4_0000 && c == 700);
    } else if index == 4 {
        assert(sig == 0x80_9249 && shift == 17 && q == 0x2_0000 && c == 900);
    } else if index == 5 {
        assert(sig == 0x9d_2492 && shift == 17 && q == 0x2_0000 && c == 1100);
    } else {
        assert(sig == 0xb9_b6db && shift == 17 && q == 0x2_0000 && c == 1300);
    }
    assert(-14 * q < 10000 * (14 * sig - c * q) < 14 * q);
    let one = q * p;
    let t = sig * p;
    assert(-14 * one < 10000 * (14 * t - c * one) < 14 * one) by (nonlinear_arith)
        requires
            p > 0,
            one == q * p,
            t == sig * p,
            -14 * q < 10000 * (14 * sig - c * q) < 14 * q,
    ;
}

/// The rates are, from the lowest, the silent one, the levels that a unit
/// numbers from 3 to 7, and the automatic one.
pub proof fn law_fan_rates()
    ensures
        fan_tokens().len() == 7,
        fan_tokens()[0] == "B"@,
        forall|i: int|
            1 <= i <= 5 ==> #[trigger] fan_tokens()[i] == crate::number::decimal_text(
                (i + 2) as nat,
            ),
        fan_tokens()[6] == "A"@,
{
    reveal_strlit("3");
    reveal_strlit("4");
    reveal_strlit("5");
    reveal_strlit("6");
    reveal_strlit("7");
    assert forall|i: int| 1 <= i <= 5 implies #[trigger] fan_tokens()[i]
        == crate::number::decimal_text((i + 2) as nat) by {
        assert(fan_tokens()[i] =~= seq![crate::number::digit_char((i + 2) as nat)]);
    }
}

/// Each rate is at its own position, and any other text counts as the automatic
/// one.
pub proof fn law_fan_positions(rate: Seq<char>)
    ensures
        fan_index(rate) < 7,
        fan_tokens().contains(rate) ==> fan_tokens()[fan_index(rate) as int] == rate,
        !fan_tokens().contains(rate) ==> fan_index(rate) == 6,
{
    if fan_tokens().contains(rate) {
        let i = choose|i: int| 0 <= i < fan_tokens().len() && fan_tokens()[i] == rate;
        lemma_fan_index_of_token(i);
    } else {
        assert(fan_tokens()[0] == "B"@);
        assert(fan_tokens()[1] == "3"@);
        assert(fan_tokens()[2] == "4"@);
        assert(fan_tokens()[3] == "5"@);
        assert(fan_tokens()[4] == "6"@);
        assert(fan_tokens()[5] == "7"@);
    }
}

/// A rate is shown at the whole percentage nearest to its share of the seven,
/// exactly.
pub proof fn law_fan_percent_is_the_nearest(index: nat)
    requires
        index < FAN_RATES,
    ensures
        -7 <= 2 * (7 * fan_percent(index) - 100 * (index + 1)) <= 7,
        (Single { bits: fan_percent_bits(index) }).is_whole(fan_percent(index) as int),
{
    lemma_fan_percents(index);
}

/// What is no number is the lowest rate, and every speed has a rate.
pub proof fn law_every_speed_has_a_rate(pct: Single)
    ensures
        fan_step(pct) < 7,
        pct.nan() ==> fan_step(pct) == 0,
{
}

/// Every position of the slider can be mapped, and so can what is no number;
/// a speed that cannot is far below zero, and all below it cannot either.
pub proof fn law_slider_can_be_mapped(pct: Single, lower: Single)
    ensures
        pct.nan() ==> is_speed(pct),
        !pct.nan() && pct.units() >= -100 * single::one() ==> is_speed(pct),
        !pct.nan() && !lower.nan() && lower.units() <= pct.units() && !is_speed(pct)
            ==> !is_speed(lower),
{
    let hundred = Single { bits: 0xc2c8_0000 };
    lemma_fan_percents(6);
    assert(hundred.magnitude() == 0x42c8_0000);
    assert((Single { bits: 0x42c8_0000 }).magnitude() == 0x42c8_0000);
    assert(hundred.units() == -(Single { bits: 0x42c8_0000 }).units());
    assert(fan_percent(6) == 100);
    assert(fan_percent_bits(6) == 0x42c8_0000);
    assert((Single { bits: 0x42c8_0000 }).is_whole(100));
    let one = single::one();
    assert((Single { bits: 0x42c8_0000 }).units() == 100 * one);
    assert(-(100 * one) == -100 * one) by (nonlinear_arith);
    let floor = Single { bits: FAN_FLOOR };
    assert(floor.magnitude() == 0x50e4_924a);
    single::lemma_rank_order(floor, hundred);
    assert(floor.units() < hundred.units());
}

} // verus!
