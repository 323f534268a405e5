//! A device at work: what its accessory shows, what a write to the accessory
//! does to the unit, and what is known of the unit.

use vstd::prelude::*;

use super::fan;
use super::{clamp_cool, clamp_heat, current_state, daikin_mode_name, daikin_mode_to_hk_target};
use super::{hk_target_to_daikin_mode, Band, TWENTY, TWENTY_FOUR};
use crate::activity;
use crate::activity::{Level, Notice, NoticeView};
use crate::config::DeviceConfig;
use crate::daikin;
use crate::daikin::{Command, CommandView, ControlInfo, DaikinClient, DaikinError, Exchange};
use crate::number;
use crate::single::Single;
use crate::text;

verus! {

// --- The accessory ---

/// How an accessory describes itself.
#[derive(Debug)]
pub struct AccessoryInfo {
    pub manufacturer: String,
    pub model: String,
    pub name: String,
    pub serial_number: String,
}

/// The serial number of a device's accessory.
pub open spec fn serial_text(id: u64) -> Seq<char> {
    "daikin-"@ + number::decimal_text(id as nat)
}

/// Describes the accessory of a device.
pub fn accessory_info(cfg: &DeviceConfig) -> (info: AccessoryInfo)
    ensures
        info.manufacturer@ == "Daikin"@,
        info.model@ == "BRP069B"@,
        info.name@ == cfg@.name,
        info.serial_number@ == serial_text(cfg@.id),
{
    let mut serial_number: String = "daikin-".to_owned();
    number::push_decimal(&mut serial_number, cfg.id as u128);
    AccessoryInfo {
        manufacturer: "Daikin".to_owned(),
        model: "BRP069B".to_owned(),
        name: cfg.name.clone(),
        serial_number,
    }
}

// --- Device to HomeKit ---

/// What a poll of a unit found.
#[derive(Debug)]
pub struct Reading {
    pub power: bool,
    pub mode: u8,
    pub target_temp: Option<Single>,
    pub indoor_temp: Option<Single>,
    pub outdoor_temp: Option<Single>,
    pub fan_rate: String,
    pub swing: bool,
}

impl Reading {
    /// Whether this is what the fields of a unit's control state say.
    pub open spec fn reads(self, fields: Map<Seq<char>, Seq<char>>) -> bool {
        &&& self.power == daikin::power_field(fields)
        &&& self.mode == daikin::byte_field(fields, "mode"@)
        &&& self.fan_rate@ == daikin::field_or(fields, "f_rate"@, "A"@)
        &&& self.swing == (daikin::byte_field(fields, "f_dir"@) != 0)
    }

    /// What was found, from the control state of the unit and the temperatures
    /// that it and its sensors gave.
    pub fn new(
        control: &ControlInfo,
        target_temp: Option<Single>,
        indoor_temp: Option<Single>,
        outdoor_temp: Option<Single>,
    ) -> (reading: Reading)
        ensures
            reading.reads(control@),
            reading.target_temp == target_temp,
            reading.indoor_temp == indoor_temp,
            reading.outdoor_temp == outdoor_temp,
    {
        Reading {
            power: control.power(),
            mode: control.mode(),
            target_temp,
            indoor_temp,
            outdoor_temp,
            fan_rate: control.fan_rate(),
            swing: control.fan_dir() != 0,
        }
    }
}

/// The values of an accessory's characteristics.
#[derive(Debug)]
pub struct HomekitValues {
    pub active: u8,
    pub current_state: u8,
    pub target_state: u8,
    pub current_temperature: Single,
    pub heating_threshold: Single,
    pub cooling_threshold: Single,
    pub rotation_speed: Single,
    pub swing_mode: u8,
}

/// The value in `o`, or the number with the bit pattern `default`.
pub open spec fn single_or(o: Option<Single>, default: u32) -> Single {
    match o {
        Some(x) => x,
        None => Single { bits: default },
    }
}

fn value_or(o: Option<Single>, default: u32) -> (x: Single)
    ensures
        x == single_or(o, default),
{
    match o {
        Some(x) => x,
        None => Single { bits: default },
    }
}

/// The values that present a reading in HomeKit.
pub open spec fn presented(reading: Reading, band: Option<Band>) -> HomekitValues {
    HomekitValues {
        active: if reading.power {
            1
        } else {
            0
        },
        current_state: super::state_of(reading.power, reading.mode, reading.indoor_temp, band),
        target_state: super::target_of_mode(reading.mode),
        current_temperature: match reading.indoor_temp {
            Some(indoor) => indoor,
            None => single_or(reading.target_temp, TWENTY),
        },
        heating_threshold: super::heat_clamped(single_or(reading.target_temp, TWENTY)),
        cooling_threshold: super::cool_clamped(single_or(reading.target_temp, TWENTY_FOUR)),
        rotation_speed: Single { bits: fan::fan_percent_bits(fan::fan_index(reading.fan_rate@)) },
        swing_mode: if reading.swing {
            1
        } else {
            0
        },
    }
}

/// The values that present a reading in HomeKit. `band` is that of the setpoint
/// that was read. HomeKit always wants a current temperature: without one from
/// the room, the setpoint stands in for it.
pub fn homekit_values(reading: &Reading, band: Option<Band>) -> (values: HomekitValues)
    ensures
        values == presented(*reading, band),
{
    HomekitValues {
        active: if reading.power {
            1
        } else {
            0
        },
        current_state: current_state(reading.power, reading.mode, reading.indoor_temp, band),
        target_state: daikin_mode_to_hk_target(reading.mode),
        current_temperature: match reading.indoor_temp {
            Some(indoor) => indoor,
            None => value_or(reading.target_temp, TWENTY),
        },
        heating_threshold: clamp_heat(value_or(reading.target_temp, TWENTY)),
        cooling_threshold: clamp_cool(value_or(reading.target_temp, TWENTY_FOUR)),
        rotation_speed: fan::fan_rate_to_percent(reading.fan_rate.as_str()),
        swing_mode: if reading.swing {
            1
        } else {
            0
        },
    }
}

// --- HomeKit to device ---

/// A write to one of an accessory's characteristics.
#[derive(Clone, Copy, Debug)]
pub enum HomekitWrite {
    Active(u8),
    TargetState(u8),
    HeatingThreshold(Single),
    CoolingThreshold(Single),
    RotationSpeed(Single),
    SwingMode(u8),
}

/// `on` or `off`.
pub open spec fn on_off_text(on: bool) -> Seq<char> {
    if on {
        "on"@
    } else {
        "off"@
    }
}

/// `on` or `off`.
pub fn on_off(on: bool) -> (s: &'static str)
    ensures
        s@ == on_off_text(on),
{
    if on {
        "on"
    } else {
        "off"
    }
}

impl HomekitWrite {
    /// Whether the value written can be mapped.
    pub open spec fn mappable(self) -> bool {
        self matches HomekitWrite::RotationSpeed(pct) ==> fan::is_speed(pct)
    }

    /// The command that a write amounts to.
    pub open spec fn command(self) -> CommandView {
        match self {
            HomekitWrite::Active(v) => CommandView::Power(v == 1),
            HomekitWrite::TargetState(v) => CommandView::Mode(super::mode_of_target(v)),
            HomekitWrite::HeatingThreshold(t) => CommandView::Temperature(super::heat_clamped(t)),
            HomekitWrite::CoolingThreshold(t) => CommandView::Temperature(super::cool_clamped(t)),
            HomekitWrite::RotationSpeed(pct) => CommandView::FanRate(
                fan::fan_tokens()[fan::fan_step(pct) as int],
            ),
            HomekitWrite::SwingMode(v) => CommandView::FanDir(
                if v == 1 {
                    3
                } else {
                    0
                },
            ),
        }
    }

    /// What is logged of a write.
    pub open spec fn text(self) -> Seq<char> {
        match self {
            HomekitWrite::Active(v) => "HomeKit: power "@ + on_off_text(v == 1),
            HomekitWrite::TargetState(v) => "HomeKit: mode "@ + super::mode_name(
                super::mode_of_target(v),
            ),
            HomekitWrite::HeatingThreshold(t) => "HomeKit: heating setpoint "@
                + super::heat_clamped(t).one_decimal_text() + "°C"@,
            HomekitWrite::CoolingThreshold(t) => "HomeKit: cooling setpoint "@
                + super::cool_clamped(t).one_decimal_text() + "°C"@,
            HomekitWrite::RotationSpeed(pct) => "HomeKit: fan rate "@
                + fan::fan_tokens()[fan::fan_step(pct) as int],
            HomekitWrite::SwingMode(v) => "HomeKit: swing "@ + on_off_text(v == 1),
        }
    }

    /// The command that a write to the accessory of the device `name` amounts
    /// to, and what is logged of it. While values are pushed into HomeKit, a
    /// write only echoes them and amounts to nothing.
    pub open spec fn asked(self, name: Seq<char>, pushing: bool) -> Option<
        (CommandView, NoticeView),
    > {
        if pushing {
            None
        } else {
            Some((self.command(), device_notice(Level::Info, name, self.text())))
        }
    }

    /// Whether the value written can be mapped.
    pub fn can_map(self) -> (r: bool)
        ensures
            r == self.mappable(),
    {
        match self {
            HomekitWrite::RotationSpeed(pct) => fan::can_map_speed(pct),
            _ => true,
        }
    }
}

/// A command for a unit, and what to log once the unit has accepted it.
#[derive(Debug)]
pub struct PlannedWrite {
    pub command: Command,
    pub notice: Notice,
}

impl PlannedWrite {
    /// What comes of a write, given how its command was applied: what to log
    /// where the unit accepted it, else why it did not.
    pub fn finish(self, applied: Result<(), String>) -> (r: Result<Notice, String>)
        ensures
            match applied {
                Ok(_) => r is Ok && r->Ok_0@ == self.notice@,
                Err(cause) => r is Err && r->Err_0@ == cause@,
            },
    {
        match applied {
            Ok(_) => Ok(self.notice),
            Err(cause) => Err(cause),
        }
    }
}

// --- What is known of a device ---

/// Snapshot of a unit's state for the admin web UI.
#[derive(Debug)]
pub struct DeviceStatus {
    pub reachable: bool,
    pub power: bool,
    pub mode: String,
    pub target_temp: Option<Single>,
    pub indoor_temp: Option<Single>,
    pub outdoor_temp: Option<Single>,
    pub fan: String,
    pub swing: bool,
    pub last_seen: Option<String>,
    pub last_error: Option<String>,
}

/// What a snapshot says.
#[verifier::ext_equal]
pub struct DeviceStatusView {
    pub reachable: bool,
    pub power: bool,
    pub mode: Seq<char>,
    pub target_temp: Option<Single>,
    pub indoor_temp: Option<Single>,
    pub outdoor_temp: Option<Single>,
    pub fan: Seq<char>,
    pub swing: bool,
    pub last_seen: Option<Seq<char>>,
    pub last_error: Option<Seq<char>>,
}

impl View for DeviceStatus {
    type V = DeviceStatusView;

    open spec fn view(&self) -> DeviceStatusView {
        DeviceStatusView {
            reachable: self.reachable,
            power: self.power,
            mode: self.mode@,
            target_temp: self.target_temp,
            indoor_temp: self.indoor_temp,
            outdoor_temp: self.outdoor_temp,
            fan: self.fan@,
            swing: self.swing,
            last_seen: text::opt_text(self.last_seen),
            last_error: text::opt_text(self.last_error),
        }
    }
}

/// The snapshot of a unit that has not been polled yet.
pub open spec fn unknown_status() -> DeviceStatusView {
    DeviceStatusView {
        reachable: false,
        power: false,
        mode: Seq::empty(),
        target_temp: None,
        indoor_temp: None,
        outdoor_temp: None,
        fan: Seq::empty(),
        swing: false,
        last_seen: None,
        last_error: None,
    }
}

impl Default for DeviceStatus {
    fn default() -> (status: DeviceStatus)
        ensures
            status@ == unknown_status(),
    {
        DeviceStatus {
            reachable: false,
            power: false,
            mode: String::new(),
            target_temp: None,
            indoor_temp: None,
            outdoor_temp: None,
            fan: String::new(),
            swing: false,
            last_seen: None,
            last_error: None,
        }
    }
}

impl Clone for DeviceStatus {
    fn clone(&self) -> (copy: DeviceStatus)
        ensures
            copy@ == self@,
    {
        DeviceStatus {
            reachable: self.reachable,
            power: self.power,
            mode: self.mode.clone(),
            target_temp: self.target_temp,
            indoor_temp: self.indoor_temp,
            outdoor_temp: self.outdoor_temp,
            fan: self.fan.clone(),
            swing: self.swing,
            last_seen: text::clone_opt(&self.last_seen),
            last_error: text::clone_opt(&self.last_error),
        }
    }
}

/// Whether two temperatures, where there are any, are the same number.
pub open spec fn same_temp(a: Option<Single>, b: Option<Single>) -> bool {
    match (a, b) {
        (Some(x), Some(y)) => x.same(y),
        (None, None) => true,
        _ => false,
    }
}

fn equal_temps(a: Option<Single>, b: Option<Single>) -> (r: bool)
    ensures
        r == same_temp(a, b),
{
    match (a, b) {
        (Some(x), Some(y)) => x.equals(y),
        (None, None) => true,
        _ => false,
    }
}

/// A setpoint as it is logged.
pub open spec fn setpoint_text(t: Option<Single>) -> Seq<char> {
    match t {
        Some(t) => t.one_decimal_text() + "°C"@,
        None => "-"@,
    }
}

impl DeviceStatusView {
    /// The snapshot after a reading at `now`.
    pub open spec fn updated(self, reading: Reading, now: Seq<char>) -> DeviceStatusView {
        DeviceStatusView {
            reachable: true,
            power: reading.power,
            mode: super::mode_name(reading.mode),
            target_temp: reading.target_temp,
            indoor_temp: reading.indoor_temp,
            outdoor_temp: reading.outdoor_temp,
            fan: reading.fan_rate@,
            swing: reading.swing,
            last_seen: Some(now),
            last_error: None,
        }
    }

    /// Whether a reading differs from the snapshot in what the unit was set to.
    pub open spec fn differs(self, reading: Reading) -> bool {
        ||| self.power != reading.power
        ||| self.mode != super::mode_name(reading.mode)
        ||| !same_temp(self.target_temp, reading.target_temp)
        ||| self.fan != reading.fan_rate@
        ||| self.swing != reading.swing
    }

    /// The snapshot after a poll that failed with `err`.
    pub open spec fn lost(self, err: Seq<char>) -> DeviceStatusView {
        DeviceStatusView { reachable: false, last_error: Some(err), ..self }
    }
}

/// Whether two readings agree in what the unit was set to, whatever its sensors
/// found.
pub open spec fn same_state(a: Reading, b: Reading) -> bool {
    &&& a.power == b.power
    &&& super::mode_name(a.mode) == super::mode_name(b.mode)
    &&& same_temp(a.target_temp, b.target_temp)
    &&& a.fan_rate@ == b.fan_rate@
    &&& a.swing == b.swing
}

/// What is logged of a unit's state.
pub open spec fn state_text(reading: Reading) -> Seq<char> {
    "state: "@ + on_off_text(reading.power) + " "@ + super::mode_name(reading.mode)
        + " setpoint "@ + setpoint_text(reading.target_temp) + " fan "@ + reading.fan_rate@ + (
    if reading.swing {
        " swing"@
    } else {
        Seq::empty()
    })
}

/// A notice about the device called `name`.
pub open spec fn device_notice(level: Level, name: Seq<char>, message: Seq<char>) -> NoticeView {
    NoticeView { level, device: Some(name), message }
}

/// What is logged of a reading: that the device has become reachable, and its
/// state where that has changed.
pub open spec fn reading_notices(
    status: DeviceStatusView,
    name: Seq<char>,
    reading: Reading,
) -> Seq<NoticeView> {
    let reached = if status.reachable {
        Seq::empty()
    } else {
        seq![device_notice(Level::Info, name, "device reachable"@)]
    };
    if status.differs(reading) {
        reached.push(device_notice(Level::Info, name, state_text(reading)))
    } else {
        reached
    }
}

/// What is logged of a failed poll: that the device is no longer reachable,
/// where it was.
pub open spec fn loss_notice(
    status: DeviceStatusView,
    name: Seq<char>,
    err: Seq<char>,
) -> Option<NoticeView> {
    if status.reachable {
        Some(device_notice(Level::Warn, name, "device unreachable: "@ + err))
    } else {
        None
    }
}

/// The notice in `o` over what it says.
pub open spec fn opt_notice(o: Option<Notice>) -> Option<NoticeView> {
    match o {
        Some(n) => Some(n@),
        None => None,
    }
}

/// The indoor and outdoor temperatures that came of asking a unit for its
/// sensors.
pub open spec fn found_temps(
    sensors: Result<Map<Seq<char>, Seq<char>>, daikin::DaikinErrorView>,
) -> (Option<Seq<char>>, Option<Seq<char>>) {
    match sensors {
        Ok(fields) => (
            daikin::fraction_field(fields, "htemp"@),
            daikin::fraction_field(fields, "otemp"@),
        ),
        Err(_) => (None, None),
    }
}

/// The state of one device.
#[derive(Debug)]
pub struct DeviceRuntime {
    pub name: String,
    pub client: DaikinClient,
    /// Set while the poll loop pushes device values into HomeKit, so the
    /// resulting writes don't echo those values back to the unit.
    pub suppress: bool,
    pub status: DeviceStatus,
}

fn state_message(reading: &Reading) -> (message: String)
    ensures
        message@ == state_text(*reading),
{
    let mut message: String = "state: ".to_owned();
    message.append(on_off(reading.power));
    message.append(" ");
    message.append(daikin_mode_name(reading.mode));
    message.append(" setpoint ");
    match reading.target_temp {
        Some(t) => {
            let ghost before = message@;
            message.append(t.one_decimal().as_str());
            message.append("°C");
            assert(message@ == before + setpoint_text(reading.target_temp));
        },
        None => {
            message.append("-");
        },
    }
    message.append(" fan ");
    message.append(reading.fan_rate.as_str());
    if reading.swing {
        message.append(" swing");
    }
    message
}

impl DeviceRuntime {
    /// The state of a device that has not been polled yet.
    pub fn new(cfg: &DeviceConfig) -> (r: Result<DeviceRuntime, DaikinError>)
        ensures
            r is Ok,
            r->Ok_0.name@ == cfg@.name,
            r->Ok_0.client.host@ == cfg@.ip,
            r->Ok_0.client.port == 80,
            r->Ok_0.client.timeout_secs == 5,
            !r->Ok_0.suppress,
            r->Ok_0.status@ == unknown_status(),
    {
        let client = match DaikinClient::new(cfg.ip.as_str()) {
            Ok(client) => client,
            Err(e) => {
                return Err(e);
            },
        };
        Ok(
            DeviceRuntime {
                name: cfg.name.clone(),
                client,
                suppress: false,
                status: DeviceStatus::default(),
            },
        )
    }

    /// What a write to the accessory asks of the unit. A write that only echoes
    /// what the poll loop pushed asks nothing.
    pub fn homekit_write(&self, write: HomekitWrite) -> (planned: Option<PlannedWrite>)
        requires
            self.suppress || write.mappable(),
        ensures
            match planned {
                Some(p) => Some((p.command@, p.notice@)) == write.asked(self.name@, self.suppress),
                None => write.asked(self.name@, self.suppress) is None,
            },
    {
        if self.suppress {
            return None;
        }
        let (command, message): (Command, String) = match write {
            HomekitWrite::Active(v) => {
                let mut message: String = "HomeKit: power ".to_owned();
                message.append(on_off(v == 1));
                (Command::Power(v == 1), message)
            },
            HomekitWrite::TargetState(v) => {
                let mode = hk_target_to_daikin_mode(v);
                let mut message: String = "HomeKit: mode ".to_owned();
                message.append(daikin_mode_name(mode));
                (Command::Mode(mode), message)
            },
            HomekitWrite::HeatingThreshold(t) => {
                let t = clamp_heat(t);
                let mut message: String = "HomeKit: heating setpoint ".to_owned();
                message.append(t.one_decimal().as_str());
                message.append("°C");
                (Command::Temperature(t), message)
            },
            HomekitWrite::CoolingThreshold(t) => {
                let t = clamp_cool(t);
                let mut message: String = "HomeKit: cooling setpoint ".to_owned();
                message.append(t.one_decimal().as_str());
                message.append("°C");
                (Command::Temperature(t), message)
            },
            HomekitWrite::RotationSpeed(pct) => {
                let rate = fan::percent_to_fan_rate(pct);
                let mut message: String = "HomeKit: fan rate ".to_owned();
                message.append(rate.as_str());
                (Command::FanRate(rate), message)
            },
            HomekitWrite::SwingMode(v) => {
                let dir: u8 = if v == 1 {
                    3
                } else {
                    0
                };
                let mut message: String = "HomeKit: swing ".to_owned();
                message.append(on_off(v == 1));
                (Command::FanDir(dir), message)
            },
        };
        let notice = activity::notice(Level::Info, Some(self.name.as_str()), message.as_str());
        Some(PlannedWrite { command, notice })
    }

    /// The control state of the unit, given what came of asking for it. Where
    /// that failed, the failure is recorded; what to log of it takes the place
    /// of the state.
    pub fn control_read(&mut self, io: &Exchange) -> (r: Result<ControlInfo, Option<Notice>>)
        ensures
            final(self).name == old(self).name,
            final(self).client == old(self).client,
            final(self).suppress == old(self).suppress,
            match daikin::outcome(
                old(self).client.host@,
                "/aircon/get_control_info"@,
                io@,
            ) {
                Ok(fields) => {
                    &&& r is Ok
                    &&& r->Ok_0@ == fields
                    &&& final(self).status == old(self).status
                },
                Err(e) => {
                    &&& r is Err
                    &&& final(self).status@ == old(self).status@.lost(e.text())
                    &&& opt_notice(r->Err_0) == loss_notice(
                        old(self).status@,
                        old(self).name@,
                        e.text(),
                    )
                },
            },
    {
        match self.client.control_info(io) {
            Ok(control) => Ok(control),
            Err(e) => {
                let message = e.message();
                Err(self.mark_unreachable(message.as_str()))
            },
        }
    }

    /// The indoor and outdoor temperatures of the unit, given what came of
    /// asking for its sensors. A poll goes on without them where that failed.
    pub fn sensors_read(&self, io: &Exchange) -> (temps: (Option<String>, Option<String>))
        ensures
            (text::opt_text(temps.0), text::opt_text(temps.1)) == found_temps(
                daikin::outcome(self.client.host@, "/aircon/get_sensor_info"@, io@),
            ),
    {
        match self.client.sensor_info(io) {
            Ok(sensor) => (sensor.indoor_temp(), sensor.outdoor_temp()),
            Err(_) => (None, None),
        }
    }

    /// From here on, writes to the accessory echo values that are pushed.
    pub fn begin_push(&mut self)
        ensures
            *final(self) == (DeviceRuntime { suppress: true, ..*old(self) }),
    {
        self.suppress = true;
    }

    /// From here on, writes to the accessory are those of a controller.
    pub fn end_push(&mut self)
        ensures
            *final(self) == (DeviceRuntime { suppress: false, ..*old(self) }),
    {
        self.suppress = false;
    }

    /// Records a reading that was taken at `now`, and says what to log of it.
    pub fn record_reading(&mut self, reading: &Reading, now: String) -> (notices: Vec<Notice>)
        ensures
            final(self).status@ == old(self).status@.updated(*reading, now@),
            final(self).name == old(self).name,
            final(self).client == old(self).client,
            final(self).suppress == old(self).suppress,
            notices@.map_values(|n: Notice| n@) == reading_notices(
                old(self).status@,
                old(self).name@,
                *reading,
            ),
    {
        let mode_name = daikin_mode_name(reading.mode);
        let mut notices: Vec<Notice> = Vec::new();
        if !self.status.reachable {
            notices.push(
                activity::notice(Level::Info, Some(self.name.as_str()), "device reachable"),
            );
        }
        let changed = self.status.power != reading.power || !text::same_text(
            self.status.mode.as_str(),
            mode_name,
        ) || !equal_temps(self.status.target_temp, reading.target_temp) || !text::same_text(
            self.status.fan.as_str(),
            reading.fan_rate.as_str(),
        ) || self.status.swing != reading.swing;
        if changed {
            let message = state_message(reading);
            notices.push(
                activity::notice(Level::Info, Some(self.name.as_str()), message.as_str()),
            );
        }
        assert(notices@.map_values(|n: Notice| n@) == reading_notices(
            self.status@,
            self.name@,
            *reading,
        ));
        self.status = DeviceStatus {
            reachable: true,
            power: reading.power,
            mode: mode_name.to_owned(),
            target_temp: reading.target_temp,
            indoor_temp: reading.indoor_temp,
            outdoor_temp: reading.outdoor_temp,
            fan: reading.fan_rate.clone(),
            swing: reading.swing,
            last_seen: Some(now),
            last_error: None,
        };
        notices
    }

    /// Records a reading that was taken just now, and says what to log of it.
    pub fn record_reading_now(&mut self, reading: &Reading) -> (notices: Vec<Notice>)
        ensures
            exists|now: Seq<char>|
                crate::clock::is_stamp(now) && final(self).status@ == #[trigger] old(self).status@.updated(*reading, now),
            final(self).name == old(self).name,
            final(self).client == old(self).client,
            final(self).suppress == old(self).suppress,
            notices@.map_values(|n: Notice| n@) == reading_notices(
                old(self).status@,
                old(self).name@,
                *reading,
            ),
    {
        let now = crate::clock::now_rfc3339();
        self.record_reading(reading, now)
    }

    /// Records that a poll failed with `err`, and says what to log of it.
    pub fn mark_unreachable(&mut self, err: &str) -> (notice: Option<Notice>)
        ensures
            final(self).status@ == old(self).status@.lost(err@),
            final(self).name == old(self).name,
            final(self).client == old(self).client,
            final(self).suppress == old(self).suppress,
            opt_notice(notice) == loss_notice(old(self).status@, old(self).name@, err@),
    {
        let notice: Option<Notice> = if self.status.reachable {
            let mut message: String = "device unreachable: ".to_owned();
            message.append(err);
            Some(activity::notice(Level::Warn, Some(self.name.as_str()), message.as_str()))
        } else {
            None
        };
        self.status.reachable = false;
        self.status.last_error = Some(err.to_owned());
        notice
    }
}

} // verus!
