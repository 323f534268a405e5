//! The devices of the bridge: which are configured, which are registered with
//! the HomeKit server, and how requests from the web UI change that.
//!
//! A request that needs the outside (a probe, a registration) is answered in
//! two steps: one that says what to do, and one that takes note of it being
//! done.

use vstd::prelude::*;
use vstd::slice::slice_subrange;

use crate::config;
use crate::daikin::{Command, CommandView};
use crate::hk;
use crate::hk::runtime::on_off;
use crate::number;
use crate::single::Single;
use crate::text;

pub mod laws;
pub mod manager;

pub use manager::{BridgeInfo, DeviceView, Manager};

verus! {

// --- Pairing PIN ---

/// A PIN as it is shown: `123-45-678` where it has its eight digits.
pub open spec fn shown_pin(pin: Seq<char>) -> Seq<char> {
    let digits = config::pin_chars(pin);
    if digits.len() == 8 {
        digits.subrange(0, 3) + seq!['-'] + digits.subrange(3, 5) + seq!['-'] + digits.subrange(
            5,
            8,
        )
    } else {
        digits
    }
}

/// Formats an 8-digit PIN as `123-45-678` for display.
pub fn format_pin(pin: &str) -> (shown: String)
    ensures
        shown@ == shown_pin(pin@),
{
    let digits = config::digits_of(pin);
    let digits = digits.as_slice();
    if digits.len() == 8 {
        let mut shown = text::text_of(slice_subrange(digits, 0, 3));
        shown.push('-');
        shown.append(text::text_of(slice_subrange(digits, 3, 5)).as_str());
        shown.push('-');
        shown.append(text::text_of(slice_subrange(digits, 5, 8)).as_str());
        assert(shown@ == shown_pin(pin@));
        shown
    } else {
        text::text_of(digits)
    }
}

// --- Requests ---

/// A control request from the web UI. Any subset of fields may be present; they
/// are applied to the unit in order.
#[derive(Debug)]
pub struct DeviceCommand {
    pub power: Option<bool>,
    pub mode: Option<String>,
    pub temperature: Option<Single>,
    pub fan: Option<String>,
    pub swing: Option<bool>,
}

/// What a control request says.
#[verifier::ext_equal]
pub struct DeviceCommandView {
    pub power: Option<bool>,
    pub mode: Option<Seq<char>>,
    pub temperature: Option<Single>,
    pub fan: Option<Seq<char>>,
    pub swing: Option<bool>,
}

impl View for DeviceCommand {
    type V = DeviceCommandView;

    open spec fn view(&self) -> DeviceCommandView {
        DeviceCommandView {
            power: self.power,
            mode: text::opt_text(self.mode),
            temperature: self.temperature,
            fan: text::opt_text(self.fan),
            swing: self.swing,
        }
    }
}

impl Clone for DeviceCommand {
    fn clone(&self) -> (copy: DeviceCommand)
        ensures
            copy@ == self@,
    {
        DeviceCommand {
            power: self.power,
            mode: text::clone_opt(&self.mode),
            temperature: self.temperature,
            fan: text::clone_opt(&self.fan),
            swing: self.swing,
        }
    }
}

impl Default for DeviceCommand {
    fn default() -> (cmd: DeviceCommand)
        ensures
            cmd@ == (DeviceCommandView {
                power: None,
                mode: None,
                temperature: None,
                fan: None,
                swing: None,
            }),
    {
        DeviceCommand { power: None, mode: None, temperature: None, fan: None, swing: None }
    }
}

impl DeviceCommandView {
    /// Whether no field is present.
    pub open spec fn is_empty(self) -> bool {
        self.power is None && self.mode is None && self.temperature is None && self.fan is None
            && self.swing is None
    }

    /// The mode asked for, if it is one that there is.
    pub open spec fn has_known_mode(self) -> bool {
        self.mode matches Some(m) ==> hk::named_mode(m) is Some
    }

    /// The commands that a request amounts to, in order.
    pub open spec fn commands(self) -> Seq<CommandView> {
        power_commands(self.power) + mode_commands(self.mode) + temperature_commands(
            self.mode,
            self.temperature,
        ) + fan_commands(self.fan) + swing_commands(self.swing)
    }

    /// What is said of each command of a request, in order.
    pub open spec fn summary(self) -> Seq<Seq<char>> {
        power_items(self.power) + mode_items(self.mode) + temperature_items(
            self.mode,
            self.temperature,
        ) + fan_items(self.fan) + swing_items(self.swing)
    }
}

/// The command to switch a unit on or off, if asked for.
pub open spec fn power_commands(power: Option<bool>) -> Seq<CommandView> {
    match power {
        Some(on) => seq![CommandView::Power(on)],
        None => Seq::empty(),
    }
}

/// What is said of the command to switch a unit on or off.
pub open spec fn power_items(power: Option<bool>) -> Seq<Seq<char>> {
    match power {
        Some(on) => seq!["power "@ + hk::runtime::on_off_text(on)],
        None => Seq::empty(),
    }
}

/// The command to change the mode, if asked for.
pub open spec fn mode_commands(mode: Option<Seq<char>>) -> Seq<CommandView> {
    match mode {
        Some(m) => seq![CommandView::Mode(hk::named_mode(m)->0)],
        None => Seq::empty(),
    }
}

/// What is said of the command to change the mode.
pub open spec fn mode_items(mode: Option<Seq<char>>) -> Seq<Seq<char>> {
    match mode {
        Some(m) => seq!["mode "@ + m],
        None => Seq::empty(),
    }
}

/// The mode that a request asks for along with the rest, if any.
pub open spec fn asked_mode(mode: Option<Seq<char>>) -> Option<u8> {
    match mode {
        Some(m) => hk::named_mode(m),
        None => None,
    }
}

/// The command to change the setpoint, if asked for. A setpoint stays within
/// the range of the mode that is asked for along with it.
pub open spec fn temperature_commands(
    mode: Option<Seq<char>>,
    temperature: Option<Single>,
) -> Seq<CommandView> {
    match temperature {
        Some(t) => seq![CommandView::Temperature(hk::mode_clamped(asked_mode(mode), t))],
        None => Seq::empty(),
    }
}

/// What is said of the command to change the setpoint.
pub open spec fn temperature_items(
    mode: Option<Seq<char>>,
    temperature: Option<Single>,
) -> Seq<Seq<char>> {
    match temperature {
        Some(t) => seq![
            "setpoint "@ + hk::mode_clamped(asked_mode(mode), t).one_decimal_text() + "°C"@,
        ],
        None => Seq::empty(),
    }
}

/// The command to change the fan rate, if asked for.
pub open spec fn fan_commands(fan: Option<Seq<char>>) -> Seq<CommandView> {
    match fan {
        Some(rate) => seq![CommandView::FanRate(rate)],
        None => Seq::empty(),
    }
}

/// What is said of the command to change the fan rate.
pub open spec fn fan_items(fan: Option<Seq<char>>) -> Seq<Seq<char>> {
    match fan {
        Some(rate) => seq!["fan "@ + rate],
        None => Seq::empty(),
    }
}

/// The command to change the swing, if asked for.
pub open spec fn swing_commands(swing: Option<bool>) -> Seq<CommandView> {
    match swing {
        Some(on) => seq![
            CommandView::FanDir(
                if on {
                    3
                } else {
                    0
                },
            ),
        ],
        None => Seq::empty(),
    }
}

/// What is said of the command to change the swing.
pub open spec fn swing_items(swing: Option<bool>) -> Seq<Seq<char>> {
    match swing {
        Some(on) => seq!["swing "@ + hk::runtime::on_off_text(on)],
        None => Seq::empty(),
    }
}

/// Commands with what is said of each.
pub struct CommandList {
    pub commands: Vec<Command>,
    pub items: Vec<String>,
}

impl CommandList {
    /// The commands over what they say.
    pub open spec fn command_views(self) -> Seq<CommandView> {
        self.commands@.map_values(|c: Command| c@)
    }

    /// What is said of them.
    pub open spec fn item_views(self) -> Seq<Seq<char>> {
        self.items@.map_values(|s: String| s@)
    }

    fn add(&mut self, command: Command, item: String)
        ensures
            final(self).command_views() == old(self).command_views() + seq![command@],
            final(self).item_views() == old(self).item_views() + seq![item@],
    {
        self.commands.push(command);
        self.items.push(item);
        assert(self.command_views() == old(self).command_views() + seq![command@]);
        assert(self.item_views() == old(self).item_views() + seq![item@]);
    }

    fn add_power(&mut self, power: Option<bool>)
        ensures
            final(self).command_views() == old(self).command_views() + power_commands(power),
            final(self).item_views() == old(self).item_views() + power_items(power),
    {
        if let Some(on) = power {
            let mut item: String = "power ".to_owned();
            item.append(on_off(on));
            self.add(Command::Power(on), item);
        }
    }

    fn add_mode(&mut self, mode: u8, name: &String)
        requires
            hk::named_mode(name@) == Some(mode),
        ensures
            final(self).command_views() == old(self).command_views() + mode_commands(Some(name@)),
            final(self).item_views() == old(self).item_views() + mode_items(Some(name@)),
    {
        let mut item: String = "mode ".to_owned();
        item.append(name.as_str());
        self.add(Command::Mode(mode), item);
    }

    fn add_temperature(
        &mut self,
        mode: Option<u8>,
        name: Ghost<Option<Seq<char>>>,
        temperature: Option<Single>,
    )
        requires
            mode == asked_mode(name@),
        ensures
            final(self).command_views() == old(self).command_views() + temperature_commands(
                name@,
                temperature,
            ),
            final(self).item_views() == old(self).item_views() + temperature_items(
                name@,
                temperature,
            ),
    {
        if let Some(t) = temperature {
            let t = hk::clamp_for_mode(mode, t);
            let mut item: String = "setpoint ".to_owned();
            item.append(t.one_decimal().as_str());
            item.append("°C");
            self.add(Command::Temperature(t), item);
        }
    }

    fn add_fan(&mut self, fan: Option<String>)
        ensures
            final(self).command_views() == old(self).command_views() + fan_commands(
                text::opt_text(fan),
            ),
            final(self).item_views() == old(self).item_views() + fan_items(text::opt_text(fan)),
    {
        if let Some(rate) = fan {
            let mut item: String = "fan ".to_owned();
            item.append(rate.as_str());
            self.add(Command::FanRate(rate), item);
        }
    }

    fn add_swing(&mut self, swing: Option<bool>)
        ensures
            final(self).command_views() == old(self).command_views() + swing_commands(swing),
            final(self).item_views() == old(self).item_views() + swing_items(swing),
    {
        if let Some(on) = swing {
            let mut item: String = "swing ".to_owned();
            item.append(on_off(on));
            let dir: u8 = if on {
                3
            } else {
                0
            };
            self.add(Command::FanDir(dir), item);
        }
    }
}

/// The commands that a control request amounts to, in order, with what is said
/// of each; the mode asked for where there is no such mode.
pub fn plan_commands(cmd: DeviceCommand) -> (r: Result<CommandList, String>)
    ensures
        match r {
            Ok(list) => {
                &&& cmd@.has_known_mode()
                &&& list.command_views() == cmd@.commands()
                &&& list.item_views() == cmd@.summary()
            },
            Err(mode) => !cmd@.has_known_mode() && cmd@.mode == Some(mode@),
        },
{
    let mut list = CommandList { commands: Vec::new(), items: Vec::new() };
    list.add_power(cmd.power);
    assert(list.command_views() == power_commands(cmd.power));
    assert(list.item_views() == power_items(cmd.power));
    let mode: Option<u8> = match cmd.mode {
        Some(name) => match hk::mode_name_to_daikin(name.as_str()) {
            Some(mode) => {
                list.add_mode(mode, &name);
                Some(mode)
            },
            None => {
                return Err(name);
            },
        },
        None => {
            assert(list.command_views() == power_commands(cmd.power) + mode_commands(None));
            assert(list.item_views() == power_items(cmd.power) + mode_items(None));
            None
        },
    };
    list.add_temperature(mode, Ghost(cmd@.mode), cmd.temperature);
    list.add_fan(cmd.fan);
    list.add_swing(cmd.swing);
    Ok(list)
}

/// `items` with `, ` between them.
pub open spec fn comma_list(items: Seq<Seq<char>>) -> Seq<char>
    decreases items.len(),
{
    if items.len() == 0 {
        Seq::empty()
    } else if items.len() == 1 {
        items[0]
    } else {
        comma_list(items.drop_last()) + ", "@ + items.last()
    }
}

/// Joins `items` with `, `.
pub fn join_list(items: &Vec<String>) -> (list: String)
    ensures
        list@ == comma_list(items@.map_values(|s: String| s@)),
{
    let ghost all = items@.map_values(|s: String| s@);
    let mut list = String::new();
    let mut i: usize = 0;
    while i < items.len()
        invariant
            i <= items@.len(),
            all == items@.map_values(|s: String| s@),
            list@ == comma_list(all.take(i as int)),
        decreases items@.len() - i,
    {
        assert(all.take(i + 1).drop_last() == all.take(i as int));
        if i > 0 {
            list.append(", ");
        }
        list.append(items[i].as_str());
        assert(list@ == comma_list(all.take(i + 1)));
        i = i + 1;
    }
    assert(all.take(i as int) == all);
    list
}

// --- Errors ---

/// Why a request was refused.
#[derive(Debug)]
pub enum ManagerError {
    /// There is no such device.
    NoDevice { id: u64 },
    /// There is no such mode.
    UnknownMode { mode: String },
    /// The request says nothing.
    NoFields,
    /// Another device has the address.
    DuplicateIp { ip: String },
    /// No unit answered at the address.
    NoUnit { ip: String, cause: String },
    /// A unit did not accept a command.
    NotApplied { name: String, cause: String },
}

/// What a refusal says.
#[verifier::ext_equal]
pub enum ManagerErrorView {
    NoDevice { id: u64 },
    UnknownMode { mode: Seq<char> },
    NoFields,
    DuplicateIp { ip: Seq<char> },
    NoUnit { ip: Seq<char>, cause: Seq<char> },
    NotApplied { name: Seq<char>, cause: Seq<char> },
}

impl View for ManagerError {
    type V = ManagerErrorView;

    open spec fn view(&self) -> ManagerErrorView {
        match *self {
            ManagerError::NoDevice { id } => ManagerErrorView::NoDevice { id },
            ManagerError::UnknownMode { mode } => ManagerErrorView::UnknownMode { mode: mode@ },
            ManagerError::NoFields => ManagerErrorView::NoFields,
            ManagerError::DuplicateIp { ip } => ManagerErrorView::DuplicateIp { ip: ip@ },
            ManagerError::NoUnit { ip, cause } => ManagerErrorView::NoUnit {
                ip: ip@,
                cause: cause@,
            },
            ManagerError::NotApplied { name, cause } => ManagerErrorView::NotApplied {
                name: name@,
                cause: cause@,
            },
        }
    }
}

impl ManagerErrorView {
    /// The refusal in words.
    pub open spec fn text(self) -> Seq<char> {
        match self {
            ManagerErrorView::NoDevice { id } => "no device with id "@ + number::decimal_text(
                id as nat,
            ),
            ManagerErrorView::UnknownMode { mode } => "unknown mode '"@ + mode + "'"@,
            ManagerErrorView::NoFields => "no command fields provided"@,
            ManagerErrorView::DuplicateIp { ip } => "a device with IP "@ + ip
                + " already exists"@,
            ManagerErrorView::NoUnit { ip, cause } => "no Daikin unit responded at "@ + ip + ": "@
                + cause,
            ManagerErrorView::NotApplied { name, cause } => "applying command to "@ + name
                + ": "@ + cause,
        }
    }
}

impl ManagerError {
    /// The refusal in words.
    pub fn message(&self) -> (message: String)
        ensures
            message@ == self@.text(),
    {
        match self {
            ManagerError::NoDevice { id } => {
                let mut message: String = "no device with id ".to_owned();
                number::push_decimal(&mut message, *id as u128);
                message
            },
            ManagerError::UnknownMode { mode } => {
                let mut message: String = "unknown mode '".to_owned();
                message.append(mode.as_str());
                message.append("'");
                message
            },
            ManagerError::NoFields => "no command fields provided".to_owned(),
            ManagerError::DuplicateIp { ip } => {
                let mut message: String = "a device with IP ".to_owned();
                message.append(ip.as_str());
                message.append(" already exists");
                message
            },
            ManagerError::NoUnit { ip, cause } => {
                let mut message: String = "no Daikin unit responded at ".to_owned();
                message.append(ip.as_str());
                message.append(": ");
                message.append(cause.as_str());
                message
            },
            ManagerError::NotApplied { name, cause } => {
                let mut message: String = "applying command to ".to_owned();
                message.append(name.as_str());
                message.append(": ");
                message.append(cause.as_str());
                message
            },
        }
    }
}

} // verus!
