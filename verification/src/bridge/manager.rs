//! The manager of the bridge's devices.

use std::collections::HashMap;

use vstd::prelude::*;

use super::{format_pin, join_list, plan_commands, DeviceCommand, DeviceCommandView};
use super::{ManagerError, ManagerErrorView};
use crate::activity;
use crate::activity::{Level, Notice, NoticeView};
use crate::config;
use crate::config::{AppConfig, AppConfigView, DeviceConfig, DeviceConfigView};
use crate::daikin::{Command, CommandView};
use crate::hk;
use crate::hk::runtime::{DeviceStatus, DeviceStatusView};
use crate::number;
use crate::text;

verus! {

broadcast use vstd::std_specs::hash::group_hash_axioms;

// --- What the web UI shows ---

/// Bridge-level info for the web UI header.
#[derive(Debug)]
pub struct BridgeInfo {
    pub name: String,
    pub pin: String,
    pub hap_port: u16,
    pub web_port: u16,
    pub device_count: usize,
}

/// What the header says.
#[verifier::ext_equal]
pub struct BridgeInfoView {
    pub name: Seq<char>,
    pub pin: Seq<char>,
    pub hap_port: u16,
    pub web_port: u16,
    pub device_count: nat,
}

impl View for BridgeInfo {
    type V = BridgeInfoView;

    open spec fn view(&self) -> BridgeInfoView {
        BridgeInfoView {
            name: self.name@,
            pin: self.pin@,
            hap_port: self.hap_port,
            web_port: self.web_port,
            device_count: self.device_count as nat,
        }
    }
}

impl Clone for BridgeInfo {
    fn clone(&self) -> (copy: BridgeInfo)
        ensures
            copy@ == self@,
    {
        BridgeInfo {
            name: self.name.clone(),
            pin: self.pin.clone(),
            hap_port: self.hap_port,
            web_port: self.web_port,
            device_count: self.device_count,
        }
    }
}

/// A device as presented to the web UI.
#[derive(Debug)]
pub struct DeviceView {
    pub id: u64,
    pub name: String,
    pub ip: String,
    pub status: DeviceStatus,
}

/// What the web UI shows of a device.
#[verifier::ext_equal]
pub struct ShownDevice {
    pub id: u64,
    pub name: Seq<char>,
    pub ip: Seq<char>,
    pub status: DeviceStatusView,
}

impl View for DeviceView {
    type V = ShownDevice;

    open spec fn view(&self) -> ShownDevice {
        ShownDevice {
            id: self.id,
            name: self.name@,
            ip: self.ip@,
            status: self.status@,
        }
    }
}

impl Clone for DeviceView {
    fn clone(&self) -> (copy: DeviceView)
        ensures
            copy@ == self@,
    {
        DeviceView {
            id: self.id,
            name: self.name.clone(),
            ip: self.ip.clone(),
            status: self.status.clone(),
        }
    }
}

/// What is shown of a device with the given status.
pub open spec fn shown(device: DeviceConfigView, status: DeviceStatusView) -> ShownDevice {
    ShownDevice { id: device.id, name: device.name, ip: device.ip, status }
}

/// The status of a device, or that of one not polled yet where none is known.
pub open spec fn status_of(statuses: Map<u64, DeviceStatus>, id: u64) -> DeviceStatusView {
    if statuses.contains_key(id) {
        statuses[id]@
    } else {
        hk::runtime::unknown_status()
    }
}

fn show(device: &DeviceConfig, status: DeviceStatus) -> (view: DeviceView)
    ensures
        view@ == shown(device@, status@),
{
    DeviceView { id: device.id, name: device.name.clone(), ip: device.ip.clone(), status }
}

// --- The model ---

/// Which devices are configured and which are registered.
#[verifier::ext_equal]
pub struct ManagerView {
    /// The configuration, as it is to be saved.
    pub cfg: AppConfigView,
    /// The registered devices by their IDs.
    pub devices: Map<u64, DeviceConfigView>,
}

/// The position of the first device with the ID `id`; the number of devices
/// where there is none.
pub open spec fn first_with_id(devices: Seq<DeviceConfigView>, id: u64) -> nat
    decreases devices.len(),
{
    if devices.len() == 0 || devices[0].id == id {
        0
    } else {
        1 + first_with_id(devices.drop_first(), id)
    }
}

/// `devices` with the first one of that ID replaced, if there is one.
pub open spec fn with_replaced(
    devices: Seq<DeviceConfigView>,
    device: DeviceConfigView,
) -> Seq<DeviceConfigView> {
    let i = first_with_id(devices, device.id);
    if i < devices.len() {
        devices.update(i as int, device)
    } else {
        devices
    }
}

/// `devices` without those of the ID `id`.
pub open spec fn without_id(devices: Seq<DeviceConfigView>, id: u64) -> Seq<DeviceConfigView> {
    devices.filter(|d: DeviceConfigView| d.id != id)
}

/// The name of a new device: the one asked for unless it is blank, else the
/// unit's own, else one made of the ID.
pub open spec fn new_name(
    asked: Option<Seq<char>>,
    probed: Option<Seq<char>>,
    id: u64,
) -> Seq<char> {
    match asked {
        Some(name) if text::trimmed(name).len() > 0 => name,
        _ => match probed {
            Some(name) => name,
            None => "Daikin "@ + number::decimal_text(id as nat),
        },
    }
}

/// The name of an edited device: the one asked for unless it is blank.
pub open spec fn edited_name(asked: Option<Seq<char>>, name: Seq<char>) -> Seq<char> {
    match asked {
        Some(new) if text::trimmed(new).len() > 0 => new,
        _ => name,
    }
}

/// The device that an edit of the registered device `known` asks for.
pub open spec fn asked_device(
    id: u64,
    known: DeviceConfigView,
    ip: Option<Seq<char>>,
    name: Option<Seq<char>>,
) -> DeviceConfigView {
    DeviceConfigView {
        id,
        name: edited_name(name, known.name),
        ip: match ip {
            Some(new) => new,
            None => known.ip,
        },
    }
}

impl ManagerView {
    /// Registered devices are known by their own IDs.
    pub open spec fn wf(self) -> bool {
        forall|id: u64| #[trigger]
            self.devices.contains_key(id) ==> self.devices[id].id == id
    }

    /// What a control request for the device `id` amounts to.
    pub open spec fn planned(self, id: u64, cmd: DeviceCommandView) -> Result<
        CommandPlanView,
        ManagerErrorView,
    > {
        if !self.devices.contains_key(id) {
            Err(ManagerErrorView::NoDevice { id })
        } else if !cmd.has_known_mode() {
            Err(ManagerErrorView::UnknownMode { mode: cmd.mode->0 })
        } else if cmd.is_empty() {
            Err(ManagerErrorView::NoFields)
        } else {
            Ok(
                CommandPlanView {
                    name: self.devices[id].name,
                    commands: cmd.commands(),
                    notice: about(
                        self.devices[id],
                        Level::Info,
                        "web UI: "@ + super::comma_list(cmd.summary()),
                    ),
                },
            )
        }
    }

    /// Whether `r` answers a request to add the unit at `ip`, which goes by the
    /// name `probed`, as a device called `asked`.
    pub open spec fn answers_addition(
        self,
        ip: Seq<char>,
        asked: Option<Seq<char>>,
        probed: Option<Seq<char>>,
        r: Result<DeviceConfigView, ManagerErrorView>,
    ) -> bool {
        if self.ip_taken(ip) {
            r == Err::<DeviceConfigView, _>(ManagerErrorView::DuplicateIp { ip })
        } else {
            &&& r is Ok
            &&& config::smallest_free_id(self.cfg.devices, r->Ok_0.id)
            &&& r->Ok_0.ip == ip
            &&& r->Ok_0.name == new_name(asked, probed, r->Ok_0.id)
        }
    }

    /// The device that an edit asks for, and whether a unit has to be found at
    /// its address first.
    pub open spec fn planned_edit(
        self,
        id: u64,
        ip: Option<Seq<char>>,
        name: Option<Seq<char>>,
    ) -> Result<(DeviceConfigView, bool), ManagerErrorView> {
        if !self.devices.contains_key(id) {
            Err(ManagerErrorView::NoDevice { id })
        } else {
            let device = asked_device(id, self.devices[id], ip, name);
            Ok((device, device.ip != self.devices[id].ip))
        }
    }

    /// What the header of the web UI says.
    pub open spec fn info(self) -> BridgeInfoView {
        BridgeInfoView {
            name: self.cfg.name,
            pin: super::shown_pin(self.cfg.pin),
            hap_port: self.cfg.hap_port,
            web_port: self.cfg.web_port,
            device_count: self.devices.len(),
        }
    }

    /// Whether a registered device has the address `ip`.
    pub open spec fn ip_taken(self, ip: Seq<char>) -> bool {
        exists|id: u64| #[trigger] self.devices.contains_key(id) && self.devices[id].ip == ip
    }

    /// After `device` was registered.
    pub open spec fn registered(self, device: DeviceConfigView) -> ManagerView {
        ManagerView { devices: self.devices.insert(device.id, device), ..self }
    }

    /// After `device` was added.
    pub open spec fn added(self, device: DeviceConfigView) -> ManagerView {
        ManagerView {
            cfg: AppConfigView { devices: self.cfg.devices.push(device), ..self.cfg },
            devices: self.devices.insert(device.id, device),
        }
    }

    /// After the registration of a device was withdrawn.
    pub open spec fn detached(self, id: u64) -> ManagerView {
        ManagerView { devices: self.devices.remove(id), ..self }
    }

    /// After `device` took the place of the one with its ID.
    pub open spec fn edited(self, device: DeviceConfigView) -> ManagerView {
        ManagerView {
            cfg: AppConfigView { devices: with_replaced(self.cfg.devices, device), ..self.cfg },
            devices: self.devices.insert(device.id, device),
        }
    }

    /// After a device was removed.
    pub open spec fn removed(self, id: u64) -> ManagerView {
        ManagerView {
            cfg: AppConfigView { devices: without_id(self.cfg.devices, id), ..self.cfg },
            devices: self.devices.remove(id),
        }
    }
}

/// The device that an edit asks for, and whether a unit has to be found at its
/// address first.
#[derive(Debug)]
pub struct EditPlan {
    pub device: DeviceConfig,
    pub probe: bool,
}

/// The commands that a request amounts to, and what to log once the unit has
/// accepted them.
#[derive(Debug)]
pub struct CommandPlan {
    pub name: String,
    pub commands: Vec<Command>,
    pub notice: Notice,
}

/// What a plan says.
#[verifier::ext_equal]
pub struct CommandPlanView {
    pub name: Seq<char>,
    pub commands: Seq<CommandView>,
    pub notice: NoticeView,
}

impl View for CommandPlan {
    type V = CommandPlanView;

    open spec fn view(&self) -> CommandPlanView {
        CommandPlanView {
            name: self.name@,
            commands: self.commands@.map_values(|c: Command| c@),
            notice: self.notice@,
        }
    }
}

/// What to do next about a request.
#[derive(Debug)]
pub enum CommandStep {
    /// Have the unit apply a command.
    Send(Command),
    /// The unit did not accept a command: refuse the request.
    Stop(ManagerError),
    /// The unit accepted all commands: log that, and poll it again.
    Done(Notice),
}

/// What a step says.
#[verifier::ext_equal]
pub enum CommandStepView {
    Send(CommandView),
    Stop(ManagerErrorView),
    Done(NoticeView),
}

impl View for CommandStep {
    type V = CommandStepView;

    open spec fn view(&self) -> CommandStepView {
        match *self {
            CommandStep::Send(command) => CommandStepView::Send(command@),
            CommandStep::Stop(e) => CommandStepView::Stop(e@),
            CommandStep::Done(notice) => CommandStepView::Done(notice@),
        }
    }
}

/// How a unit answered a command: the cause where it did not accept it.
pub open spec fn answer(applied: Result<(), String>) -> Result<(), Seq<char>> {
    match applied {
        Ok(_) => Ok(()),
        Err(cause) => Err(cause@),
    }
}

impl CommandPlanView {
    /// The step after `done` commands, the last of which was answered by `last`.
    pub open spec fn step(self, done: nat, last: Result<(), Seq<char>>) -> CommandStepView {
        match last {
            Err(cause) => CommandStepView::Stop(
                ManagerErrorView::NotApplied { name: self.name, cause },
            ),
            Ok(_) => if done < self.commands.len() {
                CommandStepView::Send(self.commands[done as int])
            } else {
                CommandStepView::Done(self.notice)
            },
        }
    }
}

impl CommandPlan {
    /// What to do after `done` commands, the last of which was applied as `last`
    /// says. Before the first command, `last` is a success.
    pub fn next(&self, done: usize, last: Result<(), String>) -> (step: CommandStep)
        requires
            done <= self.commands@.len(),
        ensures
            step@ == self@.step(done as nat, answer(last)),
    {
        match last {
            Err(cause) => CommandStep::Stop(
                ManagerError::NotApplied { name: self.name.clone(), cause },
            ),
            Ok(_) => if done < self.commands.len() {
                CommandStep::Send(self.commands[done].clone())
            } else {
                CommandStep::Done(self.notice.clone())
            },
        }
    }
}

/// A notice about a device.
pub open spec fn about(device: DeviceConfigView, level: Level, message: Seq<char>) -> NoticeView {
    NoticeView { level, device: Some(device.name), message }
}

/// What is said of a registration.
pub open spec fn registered_text(ip: Seq<char>) -> Seq<char> {
    "registered ("@ + ip + ")"@
}

/// What is said of a registration that failed.
pub open spec fn unregistered_text(cause: Seq<char>) -> Seq<char> {
    "failed to register: "@ + cause
}

/// The notice that a device was registered.
pub fn registered_notice(device: &DeviceConfig) -> (n: Notice)
    ensures
        n@ == about(device@, Level::Info, registered_text(device@.ip)),
{
    let mut message: String = "registered (".to_owned();
    message.append(device.ip.as_str());
    message.append(")");
    activity::notice(Level::Info, Some(device.name.as_str()), message.as_str())
}

/// Inserts `id` into the increasing `ids`, where it is not yet.
fn insert_sorted(ids: &mut Vec<u64>, id: u64)
    requires
        forall|i: int, j: int| 0 <= i < j < old(ids)@.len() ==> old(ids)@[i] < old(ids)@[j],
        !old(ids)@.contains(id),
    ensures
        forall|i: int, j: int| 0 <= i < j < final(ids)@.len() ==> final(ids)@[i] < final(ids)@[j],
        forall|x: u64| #[trigger]
            final(ids)@.contains(x) <==> old(ids)@.contains(x) || x == id,
{
    let ghost before = ids@;
    let mut at: usize = 0;
    while at < ids.len() && ids[at] < id
        invariant
            at <= ids@.len(),
            ids@ == before,
            forall|i: int| 0 <= i < at ==> ids@[i] < id,
        decreases ids@.len() - at,
    {
        at = at + 1;
    }
    proof {
        if at < ids@.len() {
            assert(before.contains(before[at as int]));
        }
    }
    ids.insert(at, id);
    proof {
        let after = ids@;
        assert(after == before.insert(at as int, id));
        assert(after[at as int] == id);
        assert forall|x: u64| #[trigger] after.contains(x) <==> before.contains(x) || x == id by {
            if before.contains(x) {
                let i = choose|i: int| 0 <= i < before.len() && before[i] == x;
                if i < at {
                    assert(after[i] == x);
                } else {
                    assert(after[i + 1] == x);
                }
            }
            if after.contains(x) {
                let i = choose|i: int| 0 <= i < after.len() && after[i] == x;
                if i < at {
                    assert(before[i] == x);
                } else if i > at {
                    assert(before[i - 1] == x);
                }
            }
        }
    }
}

/// Manages the devices of the bridge.
pub struct Manager {
    cfg: AppConfig,
    devices: HashMap<u64, DeviceConfig>,
}

impl View for Manager {
    type V = ManagerView;

    closed spec fn view(&self) -> ManagerView {
        ManagerView {
            cfg: self.cfg@,
            devices: self.devices@.map_values(|d: DeviceConfig| d@),
        }
    }
}

impl Manager {
    /// A manager that has registered nothing yet.
    pub fn new(cfg: AppConfig) -> (manager: Manager)
        ensures
            manager@ == (ManagerView { cfg: cfg@, devices: Map::empty() }),
            manager@.wf(),
    {
        let manager = Manager { cfg, devices: HashMap::new() };
        assert(manager@.devices == Map::<u64, DeviceConfigView>::empty());
        manager
    }

    /// The configuration, as it is to be saved.
    pub fn config(&self) -> (cfg: &AppConfig)
        ensures
            cfg@ == self@.cfg,
    {
        &self.cfg
    }

    /// The configured devices, to be registered in this order.
    pub fn init_devices(&self) -> (devices: Vec<DeviceConfig>)
        ensures
            devices@.map_values(|d: DeviceConfig| d@) == self@.cfg.devices,
    {
        config::clone_devices(&self.cfg.devices)
    }

    /// Takes note of how the registration of a configured device went, and says
    /// what to log of it.
    pub fn init_device(&mut self, device: DeviceConfig, spawned: Result<(), String>) -> (n: Notice)
        requires
            old(self)@.wf(),
        ensures
            final(self)@.wf(),
            match spawned {
                Ok(_) => {
                    &&& final(self)@ == old(self)@.registered(device@)
                    &&& n@ == about(device@, Level::Info, registered_text(device@.ip))
                },
                Err(e) => {
                    &&& final(self)@ == old(self)@
                    &&& n@ == about(device@, Level::Error, unregistered_text(e@))
                },
            },
    {
        match spawned {
            Ok(_) => {
                let n = registered_notice(&device);
                let ghost before = self@;
                self.devices.insert(device.id, device);
                assert(self@.devices == before.registered(device@).devices);
                n
            },
            Err(e) => {
                let mut message: String = "failed to register: ".to_owned();
                message.append(e.as_str());
                activity::notice(Level::Error, Some(device.name.as_str()), message.as_str())
            },
        }
    }

    /// Bridge-level info (name, pairing PIN, ports) for the web UI header.
    pub fn info(&self) -> (info: BridgeInfo)
        ensures
            info@ == self@.info(),
    {
        assert(self@.devices.dom() == self.devices@.dom());
        BridgeInfo {
            name: self.cfg.name.clone(),
            pin: format_pin(self.cfg.pin.as_str()),
            hap_port: self.cfg.hap_port,
            web_port: self.cfg.web_port,
            device_count: self.devices.len(),
        }
    }

    /// The IDs of the registered devices, in increasing order.
    fn sorted_ids(&self) -> (ids: Vec<u64>)
        ensures
            forall|i: int, j: int| 0 <= i < j < ids@.len() ==> ids@[i] < ids@[j],
            forall|id: u64| #[trigger] ids@.contains(id) <==> self.devices@.contains_key(id),
    {
        let mut ids: Vec<u64> = Vec::new();
        let ghost keys = vstd::std_specs::iter::IteratorSpec::remaining(&self.devices.keys());
        proof {
            assert forall|id: u64| #[trigger] self.devices@.contains_key(id) <==> exists|k: int|
                0 <= k < keys.len() && *(#[trigger] keys[k]) == id by {
                assert(keys.unref().to_set().contains(id) <==> keys.unref().contains(id));
                if keys.unref().contains(id) {
                    let k = choose|k: int| 0 <= k < keys.unref().len() && keys.unref()[k] == id;
                    assert(*keys[k] == id);
                }
                if exists|k: int| 0 <= k < keys.len() && *(#[trigger] keys[k]) == id {
                    let k = choose|k: int| 0 <= k < keys.len() && *(#[trigger] keys[k]) == id;
                    assert(keys.unref()[k] == id);
                }
            }
        }
        for key in it: self.devices.keys()
            invariant
                it.seq() == keys,
                keys.no_duplicates(),
                forall|i: int, j: int| 0 <= i < j < ids@.len() ==> ids@[i] < ids@[j],
                forall|id: u64| #[trigger]
                    ids@.contains(id) <==> exists|k: int|
                        0 <= k < it.index() && *(#[trigger] it.seq()[k]) == id,
        {
            insert_sorted(&mut ids, *key);
        }
        ids
    }

    /// All registered devices with their latest status, for the web UI.
    pub fn list(&self, statuses: &HashMap<u64, DeviceStatus>) -> (views: Vec<DeviceView>)
        requires
            self@.wf(),
        ensures
            forall|i: int, j: int|
                0 <= i < j < views@.len() ==> (#[trigger] views@[i]).id < (#[trigger] views@[j]).id,
            forall|id: u64| #[trigger]
                self@.devices.contains_key(id) <==> exists|i: int|
                    0 <= i < views@.len() && (#[trigger] views@[i]).id == id,
            forall|i: int|
                0 <= i < views@.len() ==> (#[trigger] views@[i])@ == shown(
                    self@.devices[views@[i].id],
                    status_of(statuses@, views@[i].id),
                ),
    {
        let ids = self.sorted_ids();
        let mut views: Vec<DeviceView> = Vec::new();
        let mut i: usize = 0;
        while i < ids.len()
            invariant
                i <= ids@.len(),
                self@.wf(),
                views@.len() == i,
                forall|id: u64| #[trigger] ids@.contains(id) <==> self.devices@.contains_key(id),
                forall|j: int| 0 <= j < i ==> (#[trigger] views@[j]).id == ids@[j],
                forall|j: int|
                    0 <= j < i ==> (#[trigger] views@[j])@ == shown(
                        self@.devices[views@[j].id],
                        status_of(statuses@, views@[j].id),
                    ),
            decreases ids@.len() - i,
        {
            let id = ids[i];
            assert(ids@.contains(ids@[i as int]));
            let status = match statuses.get(&id) {
                Some(status) => status.clone(),
                None => DeviceStatus::default(),
            };
            match self.devices.get(&id) {
                Some(device) => {
                    assert(self@.devices.contains_key(id));
                    views.push(show(device, status));
                },
                None => {
                    assert(false);
                },
            }
            i = i + 1;
        }
        proof {
            assert forall|id: u64| #[trigger]
                self@.devices.contains_key(id) <==> exists|i: int|
                    0 <= i < views@.len() && (#[trigger] views@[i]).id == id by {
                if self@.devices.contains_key(id) {
                    assert(ids@.contains(id));
                    let k = choose|k: int| 0 <= k < ids@.len() && ids@[k] == id;
                    assert(views@[k].id == id);
                }
                if exists|i: int| 0 <= i < views@.len() && (#[trigger] views@[i]).id == id {
                    let k = choose|k: int| 0 <= k < views@.len() && (#[trigger] views@[k]).id == id;
                    assert(ids@.contains(ids@[k]));
                }
            }
        }
        views
    }

    /// The commands that a request from the web UI amounts to.
    pub fn command(&self, id: u64, cmd: DeviceCommand) -> (r: Result<CommandPlan, ManagerError>)
        ensures
            match self@.planned(id, cmd@) {
                Ok(plan) => r is Ok && r->Ok_0@ == plan,
                Err(e) => r is Err && r->Err_0@ == e,
            },
    {
        let device = match self.devices.get(&id) {
            Some(device) => device,
            None => {
                assert(!self@.devices.contains_key(id));
                return Err(ManagerError::NoDevice { id });
            },
        };
        assert(self@.devices.contains_key(id) && self@.devices[id] == device@);
        let list = match plan_commands(cmd) {
            Ok(list) => list,
            Err(mode) => {
                return Err(ManagerError::UnknownMode { mode });
            },
        };
        assert(list.commands@.len() == cmd@.commands().len());
        if list.commands.len() == 0 {
            return Err(ManagerError::NoFields);
        }
        let mut message: String = "web UI: ".to_owned();
        message.append(join_list(&list.items).as_str());
        let notice = activity::notice(Level::Info, Some(device.name.as_str()), message.as_str());
        Ok(CommandPlan { name: device.name.clone(), commands: list.commands, notice })
    }

    /// What a probe of an address for a Daikin unit amounts to: the name that
    /// the unit goes by, if it has one, given what came of asking it.
    pub fn probe(ip: &str, reply: Result<Option<String>, String>) -> (r: Result<
        Option<String>,
        ManagerError,
    >)
        ensures
            match reply {
                Ok(name) => r is Ok && r->Ok_0 == name,
                Err(cause) => r is Err && r->Err_0@ == (ManagerErrorView::NoUnit {
                    ip: ip@,
                    cause: cause@,
                }),
            },
    {
        match reply {
            Ok(name) => Ok(name),
            Err(cause) => Err(ManagerError::NoUnit { ip: ip.to_owned(), cause }),
        }
    }

    /// Whether a registered device has the address `ip`.
    fn has_ip(&self, ip: &str) -> (taken: bool)
        ensures
            taken == self@.ip_taken(ip@),
    {
        let ids = self.sorted_ids();
        let mut i: usize = 0;
        while i < ids.len()
            invariant
                i <= ids@.len(),
                forall|id: u64| #[trigger] ids@.contains(id) <==> self.devices@.contains_key(id),
                forall|j: int|
                    0 <= j < i ==> self@.devices[#[trigger] ids@[j]].ip != ip@,
            decreases ids@.len() - i,
        {
            let id = ids[i];
            assert(ids@.contains(ids@[i as int]));
            match self.devices.get(&id) {
                Some(device) => {
                    assert(self@.devices.contains_key(id) && self@.devices[id] == device@);
                    if text::same_text(device.ip.as_str(), ip) {
                        return true;
                    }
                },
                None => {
                    assert(false);
                },
            }
            i = i + 1;
        }
        proof {
            assert forall|id: u64| #[trigger] self@.devices.contains_key(id) implies
                self@.devices[id].ip != ip@ by {
                assert(ids@.contains(id));
                let k = choose|k: int| 0 <= k < ids@.len() && ids@[k] == id;
                assert(self@.devices[ids@[k]].ip != ip@);
            }
        }
        false
    }

    /// The device that a request to add the unit at `ip` asks for. `probed` is
    /// the name that the unit goes by.
    pub fn add_device(&self, ip: &str, name: Option<String>, probed: Option<String>) -> (r: Result<
        DeviceConfig,
        ManagerError,
    >)
        requires
            self@.cfg.devices.len() < u64::MAX - 1,
        ensures
            self@.answers_addition(
                ip@,
                text::opt_text(name),
                text::opt_text(probed),
                match r {
                    Ok(device) => Ok(device@),
                    Err(e) => Err(e@),
                },
            ),
    {
        if self.has_ip(ip) {
            return Err(ManagerError::DuplicateIp { ip: ip.to_owned() });
        }
        let id = self.cfg.next_device_id();
        let asked: Option<String> = match name {
            Some(name) => if text::is_blank(name.as_str()) {
                None
            } else {
                Some(name)
            },
            None => None,
        };
        let name: String = match asked {
            Some(name) => name,
            None => match probed {
                Some(name) => name,
                None => {
                    let mut name: String = "Daikin ".to_owned();
                    number::push_decimal(&mut name, id as u128);
                    name
                },
            },
        };
        Ok(DeviceConfig { id, name, ip: ip.to_owned() })
    }

    /// Takes note that a new device was registered: adds it to the
    /// configuration. Says what to show of it, and what to log once the
    /// configuration is saved.
    pub fn finish_add(&mut self, device: DeviceConfig) -> (r: (DeviceView, Notice))
        requires
            old(self)@.wf(),
        ensures
            final(self)@ == old(self)@.added(device@),
            final(self)@.wf(),
            r.0@ == shown(device@, hk::runtime::unknown_status()),
            r.1@ == about(device@, Level::Info, "added via web UI"@),
    {
        let ghost before = self@;
        let view = show(&device, DeviceStatus::default());
        let n = activity::notice(Level::Info, Some(device.name.as_str()), "added via web UI");
        self.cfg.devices.push(device.clone());
        self.devices.insert(device.id, device);
        assert(self@.devices == before.added(device@).devices);
        assert(self@.cfg.devices == before.added(device@).cfg.devices);
        (view, n)
    }

    /// The device that a request to edit asks for: what is not given stays as
    /// it is, and so does the name where a blank one is given.
    pub fn edit_device(&self, id: u64, ip: Option<String>, name: Option<String>) -> (r: Result<
        EditPlan,
        ManagerError,
    >)
        ensures
            match self@.planned_edit(id, text::opt_text(ip), text::opt_text(name)) {
                Ok(plan) => r is Ok && (r->Ok_0.device@, r->Ok_0.probe) == plan,
                Err(e) => r is Err && r->Err_0@ == e,
            },
    {
        let existing = match self.devices.get(&id) {
            Some(device) => device,
            None => {
                assert(!self@.devices.contains_key(id));
                return Err(ManagerError::NoDevice { id });
            },
        };
        assert(self@.devices.contains_key(id) && self@.devices[id] == existing@);
        let new_ip: String = match ip {
            Some(new) => new,
            None => existing.ip.clone(),
        };
        let new_name: String = match name {
            Some(new) => if text::is_blank(new.as_str()) {
                existing.name.clone()
            } else {
                new
            },
            None => existing.name.clone(),
        };
        let probe = !text::same_text(new_ip.as_str(), existing.ip.as_str());
        Ok(EditPlan { device: DeviceConfig { id, name: new_name, ip: new_ip }, probe })
    }

    /// Takes note that the registration of a device was withdrawn, to make way
    /// for an edited one. Its configuration stays.
    pub fn detach(&mut self, id: u64) -> (was_registered: bool)
        requires
            old(self)@.wf(),
        ensures
            final(self)@ == old(self)@.detached(id),
            final(self)@.wf(),
            was_registered == old(self)@.devices.contains_key(id),
    {
        let ghost before = self@;
        let found = self.devices.remove(&id).is_some();
        assert(self@.devices == before.detached(id).devices);
        found
    }

    /// Takes note that an edited device was registered: puts it in the place of
    /// the configured one with its ID. Says what to show of it, and what to log
    /// once the configuration is saved.
    pub fn finish_edit(&mut self, device: DeviceConfig) -> (r: (DeviceView, Notice))
        requires
            old(self)@.wf(),
        ensures
            final(self)@ == old(self)@.edited(device@),
            final(self)@.wf(),
            r.0@ == shown(device@, hk::runtime::unknown_status()),
            r.1@ == about(device@, Level::Info, "updated via web UI"@),
    {
        let ghost before = self@;
        let view = show(&device, DeviceStatus::default());
        let n = activity::notice(Level::Info, Some(device.name.as_str()), "updated via web UI");
        let at = find_id(&self.cfg.devices, device.id);
        if at < self.cfg.devices.len() {
            self.cfg.devices.set(at, device.clone());
        }
        self.devices.insert(device.id, device);
        assert(self@.devices == before.edited(device@).devices);
        assert(self@.cfg.devices == before.edited(device@).cfg.devices);
        (view, n)
    }

    /// Removes a device from the bridge and from the configuration, and says
    /// what to log once the configuration is saved.
    pub fn remove_device(&mut self, id: u64) -> (r: Result<Notice, ManagerError>)
        requires
            old(self)@.wf(),
        ensures
            final(self)@.wf(),
            if old(self)@.devices.contains_key(id) {
                &&& final(self)@ == old(self)@.removed(id)
                &&& r is Ok
                &&& r->Ok_0@ == about(
                    old(self)@.devices[id],
                    Level::Info,
                    "removed via web UI"@,
                )
            } else {
                &&& final(self)@ == old(self)@
                &&& r is Err
                &&& r->Err_0@ == (ManagerErrorView::NoDevice { id })
            },
    {
        let ghost before = self@;
        match self.devices.remove(&id) {
            Some(device) => {
                assert(before.devices.contains_key(id) && before.devices[id] == device@);
                let kept = retain_other(&self.cfg.devices, id);
                self.cfg.devices = kept;
                assert(self@.devices == before.removed(id).devices);
                Ok(
                    activity::notice(
                        Level::Info,
                        Some(device.name.as_str()),
                        "removed via web UI",
                    ),
                )
            },
            None => {
                assert(!before.devices.contains_key(id));
                assert(self@.devices == before.devices);
                Err(ManagerError::NoDevice { id })
            },
        }
    }
}

/// Finds the first device with the ID `id`; the number of devices where there
/// is none.
fn find_id(devices: &Vec<DeviceConfig>, id: u64) -> (at: usize)
    ensures
        at == first_with_id(devices@.map_values(|d: DeviceConfig| d@), id),
        at <= devices@.len(),
{
    let ghost all = devices@.map_values(|d: DeviceConfig| d@);
    let mut i: usize = 0;
    assert(all.skip(0) == all);
    while i < devices.len() && devices[i].id != id
        invariant
            i <= devices@.len(),
            all == devices@.map_values(|d: DeviceConfig| d@),
            first_with_id(all, id) == i + first_with_id(all.skip(i as int), id),
        decreases devices@.len() - i,
    {
        assert(all.skip(i as int).drop_first() == all.skip(i + 1));
        i = i + 1;
    }
    i
}

/// Copies the devices that do not have the ID `id`.
fn retain_other(devices: &Vec<DeviceConfig>, id: u64) -> (kept: Vec<DeviceConfig>)
    ensures
        kept@.map_values(|d: DeviceConfig| d@) == without_id(
            devices@.map_values(|d: DeviceConfig| d@),
            id,
        ),
{
    let ghost all = devices@.map_values(|d: DeviceConfig| d@);
    let ghost other = |d: DeviceConfigView| d.id != id;
    let mut kept: Vec<DeviceConfig> = Vec::new();
    let mut i: usize = 0;
    proof {
        reveal(Seq::filter);
        assert(all.take(0).filter(other) == Seq::<DeviceConfigView>::empty());
        assert(kept@.map_values(|d: DeviceConfig| d@) == Seq::<DeviceConfigView>::empty());
    }
    while i < devices.len()
        invariant
            i <= devices@.len(),
            all == devices@.map_values(|d: DeviceConfig| d@),
            other == (|d: DeviceConfigView| d.id != id),
            kept@.map_values(|d: DeviceConfig| d@) == all.take(i as int).filter(other),
        decreases devices@.len() - i,
    {
        let ghost before = kept@.map_values(|d: DeviceConfig| d@);
        proof {
            reveal(Seq::filter);
            assert(all.take(i + 1).drop_last() == all.take(i as int));
        }
        if devices[i].id != id {
            let copy = devices[i].clone();
            kept.push(copy);
            assert(kept@.map_values(|d: DeviceConfig| d@) == before.push(copy@));
        }
        i = i + 1;
    }
    assert(all.take(i as int) == all);
    kept
}

} // verus!
