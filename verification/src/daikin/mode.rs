//! Daikin operation modes as reported and accepted by `mode=`.

use vstd::prelude::*;

verus! {

pub const AUTO: u8 = 0;

pub const AUTO1: u8 = 1;

pub const DRY: u8 = 2;

pub const COOL: u8 = 3;

pub const HEAT: u8 = 4;

pub const FAN: u8 = 6;

pub const AUTO7: u8 = 7;

/// Whether a mode works towards a numeric setpoint.
pub open spec fn is_setpoint_mode(mode: u8) -> bool {
    mode == AUTO || mode == AUTO1 || mode == COOL || mode == HEAT || mode == AUTO7
}

/// Whether a mode works towards a numeric setpoint.
pub fn has_setpoint(mode: u8) -> (r: bool)
    ensures
        r == is_setpoint_mode(mode),
{
    mode == AUTO || mode == AUTO1 || mode == COOL || mode == HEAT || mode == AUTO7
}

} // verus!
