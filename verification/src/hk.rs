//! HomeKit mapping: what a unit's state is in terms of a Heater Cooler
//! accessory, and what a write to the accessory is in terms of a unit.

use vstd::prelude::*;

use crate::daikin::mode as dmode;
use crate::number;
use crate::single;
use crate::single::Single;
use crate::text;

pub mod fan;
pub mod laws;
pub mod runtime;

pub use fan::{fan_rate_to_percent, percent_to_fan_rate};
pub use runtime::{DeviceRuntime, DeviceStatus};

verus! {

// HomeKit `TargetHeaterCoolerState` values.
pub const HK_TARGET_AUTO: u8 = 0;

pub const HK_TARGET_HEAT: u8 = 1;

pub const HK_TARGET_COOL: u8 = 2;

// HomeKit `CurrentHeaterCoolerState` values.
pub const HK_CURRENT_INACTIVE: u8 = 0;

pub const HK_CURRENT_IDLE: u8 = 1;

pub const HK_CURRENT_HEATING: u8 = 2;

pub const HK_CURRENT_COOLING: u8 = 3;

// --- Modes ---

/// The HomeKit target state of a mode.
pub open spec fn target_of_mode(mode: u8) -> u8 {
    if mode == dmode::HEAT {
        HK_TARGET_HEAT
    } else if mode == dmode::COOL {
        HK_TARGET_COOL
    } else {
        HK_TARGET_AUTO
    }
}

/// The mode of a HomeKit target state.
pub open spec fn mode_of_target(target: u8) -> u8 {
    if target == HK_TARGET_HEAT {
        dmode::HEAT
    } else if target == HK_TARGET_COOL {
        dmode::COOL
    } else {
        dmode::AUTO
    }
}

/// The name of a mode.
pub open spec fn mode_name(mode: u8) -> Seq<char> {
    if mode == dmode::AUTO || mode == dmode::AUTO1 || mode == dmode::AUTO7 {
        "auto"@
    } else if mode == dmode::DRY {
        "dry"@
    } else if mode == dmode::COOL {
        "cool"@
    } else if mode == dmode::HEAT {
        "heat"@
    } else if mode == dmode::FAN {
        "fan"@
    } else {
        "unknown"@
    }
}

/// The mode of that name, in any case.
pub open spec fn named_mode(name: Seq<char>) -> Option<u8> {
    let low = number::lowered(name);
    if low == "auto"@ {
        Some(dmode::AUTO)
    } else if low == "heat"@ {
        Some(dmode::HEAT)
    } else if low == "cool"@ {
        Some(dmode::COOL)
    } else if low == "dry"@ {
        Some(dmode::DRY)
    } else if low == "fan"@ {
        Some(dmode::FAN)
    } else {
        None
    }
}

/// Maps a Daikin mode to a HomeKit target state. Auto, dry and fan have no
/// distinct HomeKit target and are presented as Auto.
pub fn daikin_mode_to_hk_target(mode: u8) -> (target: u8)
    ensures
        target == target_of_mode(mode),
{
    match mode {
        dmode::HEAT => HK_TARGET_HEAT,
        dmode::COOL => HK_TARGET_COOL,
        _ => HK_TARGET_AUTO,
    }
}

/// Maps a HomeKit target state to a Daikin mode.
pub fn hk_target_to_daikin_mode(target: u8) -> (mode: u8)
    ensures
        mode == mode_of_target(target),
{
    match target {
        HK_TARGET_HEAT => dmode::HEAT,
        HK_TARGET_COOL => dmode::COOL,
        _ => dmode::AUTO,
    }
}

/// Maps a UI mode name (`auto`/`heat`/`cool`) to a Daikin mode value.
pub fn mode_name_to_daikin(name: &str) -> (mode: Option<u8>)
    ensures
        mode == named_mode(name@),
{
    let chars = text::chars_of(name);
    let chars = chars.as_slice();
    if number::lowered_is(chars, "auto") {
        Some(dmode::AUTO)
    } else if number::lowered_is(chars, "heat") {
        Some(dmode::HEAT)
    } else if number::lowered_is(chars, "cool") {
        Some(dmode::COOL)
    } else if number::lowered_is(chars, "dry") {
        Some(dmode::DRY)
    } else if number::lowered_is(chars, "fan") {
        Some(dmode::FAN)
    } else {
        None
    }
}

/// The name of a Daikin mode.
pub fn daikin_mode_name(mode: u8) -> (name: &'static str)
    ensures
        name@ == mode_name(mode),
{
    match mode {
        dmode::AUTO | dmode::AUTO1 | dmode::AUTO7 => "auto",
        dmode::DRY => "dry",
        dmode::COOL => "cool",
        dmode::HEAT => "heat",
        dmode::FAN => "fan",
        _ => "unknown",
    }
}

// --- Current state ---

/// The numbers half a degree below and half a degree above a setpoint: a unit
/// that works towards it is idle between them.
#[derive(Clone, Copy, Debug)]
pub struct Band {
    pub below: Single,
    pub above: Single,
}

/// What a unit is doing, as a HomeKit current state. A mode that can both heat
/// and cool is judged by where the room is with respect to the setpoint.
pub open spec fn state_of(
    power: bool,
    mode: u8,
    indoor: Option<Single>,
    band: Option<Band>,
) -> u8 {
    if !power {
        HK_CURRENT_INACTIVE
    } else if mode == dmode::COOL {
        HK_CURRENT_COOLING
    } else if mode == dmode::HEAT {
        HK_CURRENT_HEATING
    } else {
        match (indoor, band) {
            (Some(i), Some(b)) => if b.above.lt(i) {
                HK_CURRENT_COOLING
            } else if i.lt(b.below) {
                HK_CURRENT_HEATING
            } else {
                HK_CURRENT_IDLE
            },
            _ => HK_CURRENT_IDLE,
        }
    }
}

/// What a unit is doing, as a HomeKit current state.
pub fn current_state(power: bool, mode: u8, indoor: Option<Single>, band: Option<Band>) -> (state:
    u8)
    ensures
        state == state_of(power, mode, indoor, band),
{
    if !power {
        return HK_CURRENT_INACTIVE;
    }
    match mode {
        dmode::COOL => HK_CURRENT_COOLING,
        dmode::HEAT => HK_CURRENT_HEATING,
        _ => match (indoor, band) {
            (Some(i), Some(b)) => if b.above.less_than(i) {
                HK_CURRENT_COOLING
            } else if i.less_than(b.below) {
                HK_CURRENT_HEATING
            } else {
                HK_CURRENT_IDLE
            },
            _ => HK_CURRENT_IDLE,
        },
    }
}

// --- Setpoints ---

// Threshold temperature bounds (Celsius) exposed to HomeKit, as bit patterns.
pub const HEAT_MIN: u32 = 0x4120_0000;

pub const HEAT_MAX: u32 = 0x41f0_0000;

pub const COOL_MIN: u32 = 0x4180_0000;

pub const COOL_MAX: u32 = 0x4200_0000;

/// Twenty degrees, as a bit pattern.
pub const TWENTY: u32 = 0x41a0_0000;

/// Twenty-four degrees, as a bit pattern.
pub const TWENTY_FOUR: u32 = 0x41c0_0000;

/// Half a degree, as a bit pattern: the step of the thresholds, and how far the
/// room may be from the setpoint of an idle unit.
pub const HALF: u32 = 0x3f00_0000;

/// `t` within the range of the heating threshold.
pub open spec fn heat_clamped(t: Single) -> Single {
    t.clamped(Single { bits: HEAT_MIN }, Single { bits: HEAT_MAX })
}

/// `t` within the range of the cooling threshold.
pub open spec fn cool_clamped(t: Single) -> Single {
    t.clamped(Single { bits: COOL_MIN }, Single { bits: COOL_MAX })
}

/// `t` within the range of any setpoint.
pub open spec fn setpoint_clamped(t: Single) -> Single {
    t.clamped(Single { bits: HEAT_MIN }, Single { bits: COOL_MAX })
}

/// `t` within the range of a setpoint that goes with a mode: that of heating or
/// of cooling where the mode is one of these, else that of any setpoint.
pub open spec fn mode_clamped(mode: Option<u8>, t: Single) -> Single {
    if mode == Some(dmode::HEAT) {
        heat_clamped(t)
    } else if mode == Some(dmode::COOL) {
        cool_clamped(t)
    } else {
        setpoint_clamped(t)
    }
}

/// The bounds are the temperatures that they are named for: heating from 10 to
/// 30 degrees, cooling from 16 to 32.
pub proof fn lemma_bounds()
    ensures
        (Single { bits: HEAT_MIN }).is_whole(10),
        (Single { bits: HEAT_MAX }).is_whole(30),
        (Single { bits: COOL_MIN }).is_whole(16),
        (Single { bits: COOL_MAX }).is_whole(32),
        (Single { bits: TWENTY }).is_whole(20),
        (Single { bits: TWENTY_FOUR }).is_whole(24),
        single::one() > 0,
        2 * (Single { bits: HALF }).units() == single::one(),
{
    vstd::arithmetic::power2::lemma2_to64();
    vstd::arithmetic::power2::lemma_pow2_pos(149);
    single::lemma_whole(HEAT_MIN, 10, 20);
    single::lemma_whole(HEAT_MAX, 30, 19);
    single::lemma_whole(COOL_MIN, 16, 19);
    single::lemma_whole(COOL_MAX, 32, 18);
    single::lemma_whole(TWENTY, 20, 19);
    single::lemma_whole(TWENTY_FOUR, 24, 19);
    vstd::arithmetic::power2::lemma_pow2_adds(125, 24);
    assert(single::significand(HALF as nat) == 0x80_0000);
    assert(single::scale(HALF as nat) == 125);
    let p = vstd::arithmetic::power2::pow2(125);
    assert(2 * (0x80_0000 * p) == p * 0x100_0000) by (nonlinear_arith);
}

/// Restricts a temperature to the range of the heating threshold.
pub fn clamp_heat(t: Single) -> (r: Single)
    ensures
        r == heat_clamped(t),
{
    proof {
        lemma_bounds();
    }
    t.clamp(Single { bits: HEAT_MIN }, Single { bits: HEAT_MAX })
}

/// Restricts a temperature to the range of the cooling threshold.
pub fn clamp_cool(t: Single) -> (r: Single)
    ensures
        r == cool_clamped(t),
{
    proof {
        lemma_bounds();
    }
    t.clamp(Single { bits: COOL_MIN }, Single { bits: COOL_MAX })
}

/// Restricts a temperature to the range of any setpoint.
pub fn clamp_setpoint(t: Single) -> (r: Single)
    ensures
        r == setpoint_clamped(t),
{
    proof {
        lemma_bounds();
    }
    t.clamp(Single { bits: HEAT_MIN }, Single { bits: COOL_MAX })
}

/// Restricts a temperature to the range of a setpoint that goes with a mode.
pub fn clamp_for_mode(mode: Option<u8>, t: Single) -> (r: Single)
    ensures
        r == mode_clamped(mode, t),
{
    match mode {
        Some(dmode::HEAT) => clamp_heat(t),
        Some(dmode::COOL) => clamp_cool(t),
        _ => clamp_setpoint(t),
    }
}

} // verus!
