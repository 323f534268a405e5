//! What holds of the HomeKit mapping as a whole.

use vstd::prelude::*;

use super::fan;
use super::runtime::{DeviceStatusView, HomekitWrite, Reading};
use crate::daikin;
use crate::daikin::mode as dmode;
use crate::number;
use crate::single;
use crate::single::Single;

verus! {

// --- Modes ---

/// A target state set from HomeKit is the one that HomeKit then shows.
pub proof fn law_target_roundtrips(target: u8)
    requires
        target == super::HK_TARGET_AUTO || target == super::HK_TARGET_HEAT || target
            == super::HK_TARGET_COOL,
    ensures
        super::target_of_mode(super::mode_of_target(target)) == target,
{
}

/// A mode that HomeKit has a target state of its own for survives the way
/// through HomeKit.
pub proof fn law_mode_roundtrips(mode: u8)
    requires
        mode == dmode::AUTO || mode == dmode::HEAT || mode == dmode::COOL,
    ensures
        super::mode_of_target(super::target_of_mode(mode)) == mode,
{
}

/// Every other mode, dry and fan among them, is presented as Auto.
pub proof fn law_other_modes_are_auto(mode: u8)
    requires
        mode != dmode::HEAT,
        mode != dmode::COOL,
    ensures
        super::target_of_mode(mode) == super::HK_TARGET_AUTO,
{
}

proof fn lemma_mode_names()
    ensures
        number::lowered("auto"@) == "auto"@,
        number::lowered("dry"@) == "dry"@,
        number::lowered("cool"@) == "cool"@,
        number::lowered("heat"@) == "heat"@,
        number::lowered("fan"@) == "fan"@,
        "auto"@ != "heat"@,
        "auto"@ != "cool"@,
        "auto"@ != "dry"@,
        "auto"@ != "fan"@,
        "heat"@ != "cool"@,
        "heat"@ != "dry"@,
        "heat"@ != "fan"@,
        "cool"@ != "dry"@,
        "cool"@ != "fan"@,
        "dry"@ != "fan"@,
{
    reveal_strlit("auto");
    reveal_strlit("dry");
    reveal_strlit("cool");
    reveal_strlit("heat");
    reveal_strlit("fan");
    assert(number::lowered("auto"@) =~= "auto"@);
    assert(number::lowered("dry"@) =~= "dry"@);
    assert(number::lowered("cool"@) =~= "cool"@);
    assert(number::lowered("heat"@) =~= "heat"@);
    assert(number::lowered("fan"@) =~= "fan"@);
    assert("auto"@[0] == 'a');
    assert("heat"@[0] == 'h');
    assert("cool"@[0] == 'c');
    assert("dry"@[0] == 'd');
    assert("fan"@[0] == 'f');
}

/// The name of a mode is a name for it. The automatic modes share one name,
/// which names the plain one.
pub proof fn law_mode_names_roundtrip(mode: u8)
    ensures
        mode == dmode::AUTO || mode == dmode::DRY || mode == dmode::COOL || mode == dmode::HEAT
            || mode == dmode::FAN ==> super::named_mode(super::mode_name(mode)) == Some(mode),
        mode == dmode::AUTO1 || mode == dmode::AUTO7 ==> super::named_mode(super::mode_name(mode))
            == Some(dmode::AUTO),
{
    lemma_mode_names();
}

/// What is found under a name is a mode with that name, in lower case.
pub proof fn law_named_mode_has_the_name(name: Seq<char>)
    ensures
        super::named_mode(name) matches Some(mode) ==> super::mode_name(mode) == number::lowered(
            name,
        ),
{
}

/// Upper and lower case name the same mode.
pub proof fn law_mode_names_ignore_case(a: Seq<char>, b: Seq<char>)
    requires
        number::lowered(a) == number::lowered(b),
    ensures
        super::named_mode(a) == super::named_mode(b),
{
}

// --- Setpoints ---

/// Setpoints stay within safe ranges: heating from 10 to 30 degrees, cooling
/// from 16 to 32, and a setpoint for either from 10 to 32.
pub proof fn law_setpoints_are_safe(t: Single)
    requires
        !t.nan(),
    ensures
        10 * single::one() <= super::heat_clamped(t).units() <= 30 * single::one(),
        16 * single::one() <= super::cool_clamped(t).units() <= 32 * single::one(),
        10 * single::one() <= super::setpoint_clamped(t).units() <= 32 * single::one(),
{
    super::lemma_bounds();
}

/// A temperature within the range is kept as it is.
pub proof fn law_setpoints_in_range_are_kept(t: Single)
    requires
        !t.nan(),
    ensures
        10 * single::one() <= t.units() <= 30 * single::one() ==> super::heat_clamped(t) == t,
        16 * single::one() <= t.units() <= 32 * single::one() ==> super::cool_clamped(t) == t,
        10 * single::one() <= t.units() <= 32 * single::one() ==> super::setpoint_clamped(t) == t,
{
    super::lemma_bounds();
}

/// Whatever number is written from HomeKit, the unit is sent a setpoint that
/// the written threshold allows.
pub proof fn law_homekit_setpoints_are_safe(t: Single)
    requires
        !t.nan(),
    ensures
        HomekitWrite::HeatingThreshold(t).command() matches daikin::CommandView::Temperature(s)
            && 10 * single::one() <= s.units() <= 30 * single::one(),
        HomekitWrite::CoolingThreshold(t).command() matches daikin::CommandView::Temperature(s)
            && 16 * single::one() <= s.units() <= 32 * single::one(),
{
    law_setpoints_are_safe(t);
}

// --- Current state ---

/// A unit that is off does nothing; one that is on is heating, cooling or idle,
/// and a heating or cooling mode says which.
pub proof fn law_current_state(
    power: bool,
    mode: u8,
    indoor: Option<Single>,
    band: Option<super::Band>,
)
    ensures
        super::state_of(power, mode, indoor, band) == super::HK_CURRENT_INACTIVE <==> !power,
        power && mode == dmode::HEAT ==> super::state_of(power, mode, indoor, band)
            == super::HK_CURRENT_HEATING,
        power && mode == dmode::COOL ==> super::state_of(power, mode, indoor, band)
            == super::HK_CURRENT_COOLING,
{
}

// --- Two-way sync ---

/// What HomeKit sets on a unit is what the next poll of the unit shows in
/// HomeKit: power, target state, setpoint, fan rate and swing.
pub proof fn law_homekit_write_is_shown(
    fields: Map<Seq<char>, Seq<char>>,
    write: HomekitWrite,
)
    requires
        write.mappable(),
    ensures
        ({
            let after = daikin::laws::after_command(fields, write.command());
            match write {
                HomekitWrite::Active(v) => daikin::power_field(after) == (v == 1),
                HomekitWrite::TargetState(v) => v <= super::HK_TARGET_COOL
                    ==> super::target_of_mode(daikin::byte_field(after, "mode"@)) == v,
                HomekitWrite::HeatingThreshold(t) => daikin::fraction_field(after, "stemp"@)
                    == Some(super::heat_clamped(t).one_decimal_text()),
                HomekitWrite::CoolingThreshold(t) => daikin::fraction_field(after, "stemp"@)
                    == Some(super::cool_clamped(t).one_decimal_text()),
                HomekitWrite::RotationSpeed(pct) => fan::fan_index(
                    daikin::field_or(after, "f_rate"@, "A"@),
                ) == fan::fan_step(pct),
                HomekitWrite::SwingMode(v) => (daikin::byte_field(after, "f_dir"@) != 0) == (v
                    == 1),
            }
        }),
{
    daikin::laws::law_command_reads_back(fields, write.command());
    if let HomekitWrite::RotationSpeed(pct) = write {
        fan::lemma_fan_index_of_token(fan::fan_step(pct) as int);
    }
}

// --- The status of a device ---

/// A reading is logged where it differs from the one before in what the unit
/// was set to, and only there: the sensors alone are not logged. (A setpoint
/// that is no number differs from every other.)
pub proof fn law_unchanged_reading_is_silent(
    status: DeviceStatusView,
    name: Seq<char>,
    before: Reading,
    now: Seq<char>,
    reading: Reading,
)
    ensures
        super::runtime::same_state(before, reading) <==> super::runtime::reading_notices(
            status.updated(before, now),
            name,
            reading,
        ).len() == 0,
        !super::runtime::same_state(before, reading) ==> super::runtime::reading_notices(
            status.updated(before, now),
            name,
            reading,
        ) == seq![
            super::runtime::device_notice(
                crate::activity::Level::Info,
                name,
                super::runtime::state_text(reading),
            ),
        ],
{
}

/// A number is the same setpoint as itself, so a unit that nobody touches stays
/// silent.
pub proof fn law_same_reading_is_silent(
    status: DeviceStatusView,
    name: Seq<char>,
    reading: Reading,
    now: Seq<char>,
)
    requires
        reading.target_temp matches Some(t) ==> !t.nan(),
    ensures
        super::runtime::reading_notices(status.updated(reading, now), name, reading).len() == 0,
{
}

/// A device that stays away is reported once.
pub proof fn law_loss_is_reported_once(
    status: DeviceStatusView,
    name: Seq<char>,
    err: Seq<char>,
    again: Seq<char>,
)
    ensures
        super::runtime::loss_notice(status.lost(err), name, again) is None,
{
}

/// A device that comes back is reported, and what was known of it is kept until
/// then.
pub proof fn law_return_is_reported(
    status: DeviceStatusView,
    name: Seq<char>,
    err: Seq<char>,
    reading: Reading,
)
    ensures
        super::runtime::reading_notices(status.lost(err), name, reading).len() > 0,
        super::runtime::reading_notices(status.lost(err), name, reading)[0]
            == super::runtime::device_notice(
            crate::activity::Level::Info,
            name,
            "device reachable"@,
        ),
        status.lost(err).differs(reading) == status.differs(reading),
{
}

// --- What each mapping gives ---

/// Heating is mode 4 of a unit and target state 1 of HomeKit, cooling is mode 3
/// and target state 2; everything else is automatic on either side.
pub proof fn law_target_states(mode: u8, target: u8)
    ensures
        super::target_of_mode(mode) == 1 <==> mode == 4,
        super::target_of_mode(mode) == 2 <==> mode == 3,
        super::target_of_mode(mode) == 0 <==> mode != 4 && mode != 3,
        super::mode_of_target(target) == 4 <==> target == 1,
        super::mode_of_target(target) == 3 <==> target == 2,
        super::mode_of_target(target) == 0 <==> target != 1 && target != 2,
{
}

/// What each mode is called.
pub proof fn law_names_of_modes(mode: u8)
    ensures
        mode == 0 || mode == 1 || mode == 7 ==> super::mode_name(mode) == "auto"@,
        mode == 2 ==> super::mode_name(mode) == "dry"@,
        mode == 3 ==> super::mode_name(mode) == "cool"@,
        mode == 4 ==> super::mode_name(mode) == "heat"@,
        mode == 6 ==> super::mode_name(mode) == "fan"@,
        mode == 5 || mode > 7 ==> super::mode_name(mode) == "unknown"@,
{
}

/// What is asked for by each name; any other name is that of no mode.
pub proof fn law_modes_by_name(name: Seq<char>)
    ensures
        super::named_mode(name) == Some(0u8) <==> number::lowered(name) == "auto"@,
        super::named_mode(name) == Some(4u8) <==> number::lowered(name) == "heat"@,
        super::named_mode(name) == Some(3u8) <==> number::lowered(name) == "cool"@,
        super::named_mode(name) == Some(2u8) <==> number::lowered(name) == "dry"@,
        super::named_mode(name) == Some(6u8) <==> number::lowered(name) == "fan"@,
        super::named_mode(name) is None <==> number::lowered(name) != "auto"@ && number::lowered(
            name,
        ) != "heat"@ && number::lowered(name) != "cool"@ && number::lowered(name) != "dry"@
            && number::lowered(name) != "fan"@,
{
    lemma_mode_names();
}

/// A unit that is on, in a mode that is neither heating nor cooling, is shown
/// by where the room is: cooling exactly where the room is above the band
/// around the setpoint, heating exactly where it is below and not above, idle
/// everywhere else, and wherever the room or the setpoint is not known.
pub proof fn law_room_decides_the_state(
    mode: u8,
    indoor: Option<Single>,
    band: Option<super::Band>,
)
    requires
        mode != dmode::HEAT,
        mode != dmode::COOL,
    ensures
        ({
            let state = super::state_of(true, mode, indoor, band);
            match (indoor, band) {
                (Some(i), Some(b)) => {
                    let above = !i.nan() && !b.above.nan() && i.units() > b.above.units();
                    let below = !i.nan() && !b.below.nan() && i.units() < b.below.units();
                    &&& state == 3 <==> above
                    &&& state == 2 <==> below && !above
                    &&& state == 1 <==> !below && !above
                },
                _ => state == 1,
            }
        }),
{
}

/// A warmer room never turns the shown state from cooling to heating or idle,
/// nor from idle to heating.
pub proof fn law_state_follows_the_room(
    mode: u8,
    cooler: Single,
    warmer: Single,
    band: super::Band,
)
    requires
        mode != dmode::HEAT,
        mode != dmode::COOL,
        !cooler.nan(),
        !warmer.nan(),
        !band.above.nan(),
        !band.below.nan(),
        cooler.units() <= warmer.units(),
    ensures
        super::state_of(true, mode, Some(cooler), Some(band)) == 3 ==> super::state_of(
            true,
            mode,
            Some(warmer),
            Some(band),
        ) == 3,
        super::state_of(true, mode, Some(warmer), Some(band)) == 2 ==> super::state_of(
            true,
            mode,
            Some(cooler),
            Some(band),
        ) == 2,
{
}

/// A unit that is off is inactive, whatever it measures; one that heats or
/// cools is shown so, whatever it measures.
pub proof fn law_mode_decides_the_state(
    mode: u8,
    indoor: Option<Single>,
    band: Option<super::Band>,
)
    ensures
        super::state_of(false, mode, indoor, band) == 0,
        super::state_of(true, 4, indoor, band) == 2,
        super::state_of(true, 3, indoor, band) == 3,
{
}

/// A setpoint beyond a range is the end of the range that it lies beyond.
pub proof fn law_setpoints_beyond_a_range(t: Single)
    requires
        !t.nan(),
    ensures
        t.units() < 10 * single::one() ==> super::heat_clamped(t).is_whole(10)
            && super::setpoint_clamped(t).is_whole(10),
        t.units() > 30 * single::one() ==> super::heat_clamped(t).is_whole(30),
        t.units() < 16 * single::one() ==> super::cool_clamped(t).is_whole(16),
        t.units() > 32 * single::one() ==> super::cool_clamped(t).is_whole(32)
            && super::setpoint_clamped(t).is_whole(32),
{
    super::lemma_bounds();
}

/// A setpoint stays within the range of the mode that goes with it: that of
/// heating with mode 4, that of cooling with mode 3, and that of either with
/// any other mode or none. A temperature within the range is kept.
pub proof fn law_mode_decides_the_range(mode: Option<u8>, t: Single)
    requires
        !t.nan(),
    ensures
        ({
            let least = if mode == Some(3u8) {
                16int
            } else {
                10
            };
            let most = if mode == Some(4u8) {
                30int
            } else {
                32
            };
            let s = super::mode_clamped(mode, t);
            &&& t.units() < least * single::one() ==> s.is_whole(least)
            &&& t.units() > most * single::one() ==> s.is_whole(most)
            &&& least * single::one() <= t.units() <= most * single::one() ==> s == t
        }),
{
    super::lemma_bounds();
}

// --- What HomeKit shows ---

/// A reading of a unit's fields is what the unit reports: on where it says
/// `pow=1`, swinging where its direction is not zero, with its rate, or the
/// automatic one where it reports none.
pub proof fn law_reading_is_what_was_reported(
    reading: Reading,
    fields: Map<Seq<char>, Seq<char>>,
    mode: u8,
    dir: u8,
)
    requires
        reading.reads(fields),
    ensures
        reading.power <==> fields.contains_key("pow"@) && fields["pow"@] == "1"@,
        fields.contains_key("mode"@) && fields["mode"@] == number::decimal_text(mode as nat)
            ==> reading.mode == mode,
        !fields.contains_key("mode"@) ==> reading.mode == 0,
        fields.contains_key("f_rate"@) ==> reading.fan_rate@ == fields["f_rate"@],
        !fields.contains_key("f_rate"@) ==> reading.fan_rate@ == "A"@,
        fields.contains_key("f_dir"@) && fields["f_dir"@] == number::decimal_text(dir as nat)
            ==> reading.swing == (dir != 0),
        !fields.contains_key("f_dir"@) ==> !reading.swing,
{
    daikin::laws::law_numeric_fields(fields, "mode"@, mode as nat);
    daikin::laws::law_numeric_fields(fields, "f_dir"@, dir as nat);
}

/// What HomeKit shows of a reading: active where the unit is on, swinging where
/// it swings; the room's temperature, else the setpoint, else 20 degrees; the
/// setpoint within the range of each threshold, or 20 degrees to heat and 24 to
/// cool to where there is none; the target and current state; and the fan rate
/// as a percentage.
pub proof fn law_reading_is_presented(reading: Reading, band: Option<super::Band>)
    ensures
        ({
            let shown = super::runtime::presented(reading, band);
            &&& shown.active == 1 <==> reading.power
            &&& shown.active == 0 <==> !reading.power
            &&& shown.swing_mode == 1 <==> reading.swing
            &&& shown.swing_mode == 0 <==> !reading.swing
            &&& reading.indoor_temp matches Some(t) ==> shown.current_temperature == t
            &&& reading.indoor_temp is None ==> (reading.target_temp matches Some(t)
                ==> shown.current_temperature == t)
            &&& reading.indoor_temp is None && reading.target_temp is None
                ==> shown.current_temperature.is_whole(20)
            &&& reading.target_temp matches Some(t) ==> shown.heating_threshold
                == super::heat_clamped(t) && shown.cooling_threshold == super::cool_clamped(t)
            &&& reading.target_temp is None ==> shown.heating_threshold.is_whole(20)
                && shown.cooling_threshold.is_whole(24)
            &&& shown.target_state == super::target_of_mode(reading.mode)
            &&& shown.current_state == super::state_of(
                reading.power,
                reading.mode,
                reading.indoor_temp,
                band,
            )
            &&& shown.rotation_speed.is_whole(
                fan::fan_percent(fan::fan_index(reading.fan_rate@)) as int,
            )
        }),
{
    super::lemma_bounds();
    fan::lemma_fan_percents(fan::fan_index(reading.fan_rate@));
}

/// The thresholds that HomeKit is shown lie within the ranges that it is given.
pub proof fn law_shown_thresholds_are_in_range(reading: Reading, band: Option<super::Band>)
    requires
        reading.target_temp matches Some(t) ==> !t.nan(),
    ensures
        ({
            let shown = super::runtime::presented(reading, band);
            &&& 10 * single::one() <= shown.heating_threshold.units() <= 30 * single::one()
            &&& 16 * single::one() <= shown.cooling_threshold.units() <= 32 * single::one()
        }),
{
    super::lemma_bounds();
}

// --- What HomeKit asks for ---

/// What each write asks of the unit: on for 1 and off for anything else, the
/// mode of the target state, the threshold within its range, the rate for the
/// speed, and swing on both axes for 1 and on none for anything else.
pub proof fn law_homekit_commands(v: u8, t: Single)
    ensures
        HomekitWrite::Active(v).command() == daikin::CommandView::Power(v == 1),
        HomekitWrite::TargetState(v).command() == daikin::CommandView::Mode(
            if v == 1 {
                4
            } else if v == 2 {
                3
            } else {
                0
            },
        ),
        HomekitWrite::HeatingThreshold(t).command() matches daikin::CommandView::Temperature(s)
            && s == super::heat_clamped(t),
        HomekitWrite::CoolingThreshold(t).command() matches daikin::CommandView::Temperature(s)
            && s == super::cool_clamped(t),
        HomekitWrite::RotationSpeed(t).command() matches daikin::CommandView::FanRate(rate)
            && rate == fan::fan_tokens()[fan::fan_step(t) as int],
        HomekitWrite::SwingMode(v).command() == daikin::CommandView::FanDir(
            if v == 1 {
                3
            } else {
                0
            },
        ),
{
}

/// What is logged of a write is what the unit is asked to do.
pub proof fn law_homekit_log_tells_the_command(write: HomekitWrite)
    ensures
        ({
            let said = write.text();
            match write.command() {
                daikin::CommandView::Power(on) => said == (if on {
                    "HomeKit: power "@ + "on"@
                } else {
                    "HomeKit: power "@ + "off"@
                }),
                daikin::CommandView::Mode(m) => said == "HomeKit: mode "@ + super::mode_name(m),
                daikin::CommandView::Temperature(s) => said == (if write is HeatingThreshold {
                    "HomeKit: heating setpoint "@
                } else {
                    "HomeKit: cooling setpoint "@
                }) + s.one_decimal_text() + "°C"@,
                daikin::CommandView::FanRate(rate) => said == "HomeKit: fan rate "@ + rate,
                daikin::CommandView::FanDir(dir) => said == (if dir != 0 {
                    "HomeKit: swing "@ + "on"@
                } else {
                    "HomeKit: swing "@ + "off"@
                }),
            }
        }),
{
}

// --- What is known of a device ---

/// Nothing is known of a device that was not polled yet.
pub proof fn law_unpolled_device_is_unknown()
    ensures
        ({
            let s = super::runtime::unknown_status();
            &&& !s.reachable && !s.power && !s.swing
            &&& s.mode.len() == 0 && s.fan.len() == 0
            &&& s.target_temp is None && s.indoor_temp is None && s.outdoor_temp is None
            &&& s.last_seen is None && s.last_error is None
        }),
{
}

/// After a reading, all that is known of a device is what was read, and when.
pub proof fn law_status_is_the_last_reading(
    status: DeviceStatusView,
    reading: Reading,
    now: Seq<char>,
)
    ensures
        ({
            let s = status.updated(reading, now);
            &&& s.reachable
            &&& s.power == reading.power
            &&& s.mode == super::mode_name(reading.mode)
            &&& s.target_temp == reading.target_temp
            &&& s.indoor_temp == reading.indoor_temp
            &&& s.outdoor_temp == reading.outdoor_temp
            &&& s.fan == reading.fan_rate@
            &&& s.swing == reading.swing
            &&& s.last_seen == Some(now)
            &&& s.last_error is None
        }),
{
}

/// A failed poll says why, and leaves what was known of the device.
pub proof fn law_loss_keeps_what_was_known(status: DeviceStatusView, err: Seq<char>)
    ensures
        ({
            let s = status.lost(err);
            &&& !s.reachable
            &&& s.last_error == Some(err)
            &&& s.power == status.power && s.mode == status.mode && s.swing == status.swing
            &&& s.fan == status.fan && s.last_seen == status.last_seen
            &&& s.target_temp == status.target_temp
            &&& s.indoor_temp == status.indoor_temp
            &&& s.outdoor_temp == status.outdoor_temp
        }),
{
}

/// A device that goes away is reported, with the reason.
pub proof fn law_loss_is_reported(status: DeviceStatusView, name: Seq<char>, err: Seq<char>)
    ensures
        status.reachable ==> (super::runtime::loss_notice(status, name, err) matches Some(n)
            && n.level == crate::activity::Level::Warn && n.device == Some(name) && n.message
            == "device unreachable: "@ + err),
        !status.reachable ==> super::runtime::loss_notice(status, name, err) is None,
{
}

/// Of a reading is logged that the device has come back, where it was away, and
/// then its state, where that differs from what was known.
pub proof fn law_readings_are_logged(
    status: DeviceStatusView,
    name: Seq<char>,
    reading: Reading,
)
    ensures
        ({
            let back = super::runtime::device_notice(
                crate::activity::Level::Info,
                name,
                "device reachable"@,
            );
            let state = super::runtime::device_notice(
                crate::activity::Level::Info,
                name,
                super::runtime::state_text(reading),
            );
            let changed = status.power != reading.power || status.mode != super::mode_name(
                reading.mode,
            ) || status.fan != reading.fan_rate@ || status.swing != reading.swing
                || !super::runtime::same_temp(status.target_temp, reading.target_temp);
            super::runtime::reading_notices(status, name, reading) == (if status.reachable {
                if changed {
                    seq![state]
                } else {
                    Seq::empty()
                }
            } else {
                if changed {
                    seq![back, state]
                } else {
                    seq![back]
                }
            })
        }),
{
}

/// Two setpoints are the same where both are there and are the same number, or
/// neither is there.
pub proof fn law_same_setpoints(a: Option<Single>, b: Option<Single>)
    ensures
        a is None && b is None ==> super::runtime::same_temp(a, b),
        a is None != b is None ==> !super::runtime::same_temp(a, b),
        a is Some && b is Some ==> (super::runtime::same_temp(a, b) <==> !a->0.nan()
            && !b->0.nan() && a->0.units() == b->0.units()),
{
}

/// A notice about a device bears its name and says what it is given to say.
pub proof fn law_notices_bear_the_name(
    level: crate::activity::Level,
    name: Seq<char>,
    message: Seq<char>,
)
    ensures
        super::runtime::device_notice(level, name, message).level == level,
        super::runtime::device_notice(level, name, message).device == Some(name),
        super::runtime::device_notice(level, name, message).message == message,
{
}

/// What is logged of a unit's state: whether it is on, its mode, its setpoint
/// or a dash, its fan rate, and that it swings where it does.
pub proof fn law_state_in_words(reading: Reading)
    ensures
        ({
            let power = if reading.power {
                "on"@
            } else {
                "off"@
            };
            let setpoint = match reading.target_temp {
                Some(t) => t.one_decimal_text() + "°C"@,
                None => "-"@,
            };
            let start = "state: "@ + power + " "@ + super::mode_name(reading.mode) + " setpoint "@
                + setpoint + " fan "@ + reading.fan_rate@;
            super::runtime::state_text(reading) == (if reading.swing {
                start + " swing"@
            } else {
                start
            })
        }),
{
}

// --- Accessories and sensors ---

/// No two devices share a serial number, which ends in the device's ID.
pub proof fn law_serial_numbers_differ(a: u64, b: u64)
    ensures
        super::runtime::serial_text(a) == super::runtime::serial_text(b) <==> a == b,
        super::runtime::serial_text(a) == "daikin-"@ + number::decimal_text(a as nat),
{
    if super::runtime::serial_text(a) == super::runtime::serial_text(b) {
        let x = number::decimal_text(a as nat);
        let y = number::decimal_text(b as nat);
        let n = "daikin-"@.len() as int;
        assert(super::runtime::serial_text(a).skip(n) == x);
        assert(super::runtime::serial_text(b).skip(n) == y);
        number::lemma_decimal_text(a as nat);
        number::lemma_decimal_text(b as nat);
    }
}

/// The room is what a unit reports as `htemp`, the outside what it reports as
/// `otemp`, each where it is a number; a poll goes on without them where the
/// sensors could not be read.
pub proof fn law_sensors_are_told_apart(
    fields: Map<Seq<char>, Seq<char>>,
    e: daikin::DaikinErrorView,
)
    ensures
        ({
            let found = super::runtime::found_temps(Ok(fields));
            &&& fields.contains_key("htemp"@) && number::is_fraction_text(fields["htemp"@])
                ==> found.0 == Some(fields["htemp"@])
            &&& !(fields.contains_key("htemp"@) && number::is_fraction_text(fields["htemp"@]))
                ==> found.0 is None
            &&& fields.contains_key("otemp"@) && number::is_fraction_text(fields["otemp"@])
                ==> found.1 == Some(fields["otemp"@])
            &&& !(fields.contains_key("otemp"@) && number::is_fraction_text(fields["otemp"@]))
                ==> found.1 is None
        }),
        super::runtime::found_temps(Err(e)).0 is None,
        super::runtime::found_temps(Err(e)).1 is None,
{
}

/// What is pushed into HomeKit is never echoed to the unit; any other write is
/// handed on, and logged under the device's name.
pub proof fn law_pushed_values_are_not_echoed(write: HomekitWrite, name: Seq<char>)
    ensures
        write.asked(name, true) is None,
        write.asked(name, false) matches Some(p) && p.0 == write.command() && p.1.message
            == write.text() && p.1.device == Some(name) && p.1.level
            == crate::activity::Level::Info,
{
}

} // verus!
