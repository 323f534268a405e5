use std::collections::HashMap;

use daikin_homekit::activity::Level;
use daikin_homekit::bridge::manager::{registered_notice, CommandPlan, CommandStep};
use daikin_homekit::bridge::{format_pin, DeviceCommand, Manager, ManagerError};
use daikin_homekit::config::{AppConfig, DeviceConfig};
use daikin_homekit::daikin::{mode, Command, DaikinClient};
use daikin_homekit::hk::DeviceStatus;
use daikin_homekit::single::Single;
use daikin_homekit::web::{refuse, status_of, Action, AddReq, EditReq};

fn single(x: f32) -> Single {
    Single { bits: x.to_bits() }
}

fn running() -> Manager {
    let mut m = Manager::new(AppConfig::default());
    for d in m.init_devices() {
        m.init_device(d, Ok(()));
    }
    m
}

fn shown(m: &Manager) -> Vec<(u64, String, String)> {
    m.list(&HashMap::new()).into_iter().map(|v| (v.id, v.name, v.ip)).collect()
}

fn configured(m: &Manager) -> Vec<(u64, String, String)> {
    m.config().devices.iter().map(|d| (d.id, d.name.clone(), d.ip.clone())).collect()
}

fn row(id: u64, name: &str, ip: &str) -> (u64, String, String) {
    (id, name.to_string(), ip.to_string())
}

#[test]
fn pins_are_shown_in_groups() {
    assert_eq!(format_pin("11122333"), "111-22-333");
    assert_eq!(format_pin("123-45-678"), "123-45-678");
    assert_eq!(format_pin("1234567"), "1234567");
    assert_eq!(format_pin("x1y"), "1");
    assert_eq!(format_pin(&format_pin("9 8 7 6 5 4 3 2")), "987-65-432");
}

#[test]
fn configured_devices_are_registered() {
    let mut m = Manager::new(AppConfig::default());
    assert_eq!(m.info().device_count, 0);
    let devices = m.init_devices();
    assert_eq!(devices.iter().map(|d| d.id).collect::<Vec<u64>>(), [2, 3]);
    let mut it = devices.into_iter();
    let n = m.init_device(it.next().unwrap(), Ok(()));
    assert_eq!((n.level, n.message.as_str()), (Level::Info, "registered (10.0.0.142)"));
    assert_eq!(n.device.as_deref(), Some("Salone"));
    let n = m.init_device(it.next().unwrap(), Err("no room".to_string()));
    assert_eq!((n.level, n.message.as_str()), (Level::Error, "failed to register: no room"));
    assert_eq!(shown(&m), [row(2, "Salone", "10.0.0.142")]);
    assert_eq!(configured(&m).len(), 2);
}

#[test]
fn start_goes_on_past_a_failure() {
    let mut m = Manager::new(AppConfig::default());
    for (i, d) in m.init_devices().into_iter().enumerate() {
        m.init_device(d, if i == 0 { Err("no room".to_string()) } else { Ok(()) });
    }
    assert_eq!(shown(&m), [row(3, "Home Theater", "10.0.0.247")]);
    let expected = [row(2, "Salone", "10.0.0.142"), row(3, "Home Theater", "10.0.0.247")];
    assert_eq!(configured(&m), expected);
}

#[test]
fn info_is_shown() {
    let info = running().info();
    assert_eq!(info.name, "Daikin Bridge");
    assert_eq!(info.pin, "111-22-333");
    assert_eq!((info.hap_port, info.web_port, info.device_count), (32000, 8090, 2));
}

#[test]
fn devices_are_listed_by_id_with_their_status() {
    let mut m = running();
    let late = DeviceConfig { id: 9, name: "n".to_string(), ip: "i".to_string() };
    m.finish_add(late);
    let early = DeviceConfig { id: 1, name: "e".to_string(), ip: "j".to_string() };
    m.finish_add(early);
    let mut status = DeviceStatus::default();
    status.reachable = true;
    status.fan = "B".to_string();
    let mut statuses = HashMap::new();
    statuses.insert(3, status);
    let views = m.list(&statuses);
    assert_eq!(views.iter().map(|v| v.id).collect::<Vec<u64>>(), [1, 2, 3, 9]);
    assert!(views[2].status.reachable);
    assert_eq!(views[2].status.fan, "B");
    assert!(!views[3].status.reachable);
}

#[test]
fn requests_become_commands() {
    let m = running();
    let cmd = DeviceCommand {
        power: Some(true),
        mode: Some("Heat".to_string()),
        temperature: Some(single(40.0)),
        fan: Some("5".to_string()),
        swing: Some(false),
    };
    let plan = m.command(2, cmd).ok().unwrap();
    assert_eq!(plan.name, "Salone");
    assert_eq!(plan.commands.len(), 5);
    assert!(matches!(plan.commands[0], Command::Power(true)));
    assert!(matches!(plan.commands[1], Command::Mode(mode::HEAT)));
    assert!(matches!(plan.commands[2], Command::Temperature(t) if t.bits == 30.0f32.to_bits()));
    assert!(matches!(&plan.commands[3], Command::FanRate(r) if r == "5"));
    assert!(matches!(plan.commands[4], Command::FanDir(0)));
    assert_eq!(
        plan.notice.message,
        "web UI: power on, mode Heat, setpoint 30.0°C, fan 5, swing off"
    );
    assert_eq!(plan.notice.device.as_deref(), Some("Salone"));

    let mut cmd = DeviceCommand::default();
    cmd.swing = Some(true);
    let plan = m.command(3, cmd).ok().unwrap();
    assert_eq!(plan.commands.len(), 1);
    assert!(matches!(plan.commands[0], Command::FanDir(3)));
    assert_eq!(plan.notice.message, "web UI: swing on");
}

#[test]
fn web_setpoints_stay_within_the_range_of_the_mode() {
    let m = running();
    let sent = |mode: Option<&str>, t: f32| {
        let mut cmd = DeviceCommand::default();
        cmd.mode = mode.map(str::to_string);
        cmd.temperature = Some(single(t));
        let plan = m.command(2, cmd.clone()).ok().unwrap();
        assert_eq!(cmd.mode.as_deref(), mode);
        match plan.commands.last() {
            Some(Command::Temperature(t)) => f32::from_bits(t.bits),
            _ => panic!("no setpoint"),
        }
    };
    assert_eq!(sent(Some("heat"), 31.0), 30.0);
    assert_eq!(sent(Some("HEAT"), 5.0), 10.0);
    assert_eq!(sent(Some("heat"), 12.5), 12.5);
    assert_eq!(sent(Some("cool"), 12.5), 16.0);
    assert_eq!(sent(Some("cool"), 31.0), 31.0);
    assert_eq!(sent(Some("Cool"), 40.0), 32.0);
    for mode in [None, Some("auto"), Some("dry"), Some("fan")] {
        assert_eq!(sent(mode, 31.0), 31.0);
        assert_eq!(sent(mode, 40.0), 32.0);
        assert_eq!(sent(mode, 12.5), 12.5);
        assert_eq!(sent(mode, 5.0), 10.0);
    }
}

/// Runs a request against a unit that fails the command at `fails`, and gives
/// how many commands it was sent and what came of it.
fn run(plan: &CommandPlan, fails: usize) -> (usize, Result<String, String>) {
    let mut done = 0;
    let mut last = Ok(());
    loop {
        match plan.next(done, last) {
            CommandStep::Send(_) => {
                last = if done == fails { Err("HTTP 403 from x".to_string()) } else { Ok(()) };
                done += 1;
            }
            CommandStep::Stop(e) => return (done, Err(e.message())),
            CommandStep::Done(n) => return (done, Ok(n.message)),
        }
    }
}

#[test]
fn first_failure_ends_a_request() {
    let m = running();
    let mut cmd = DeviceCommand::default();
    cmd.power = Some(true);
    cmd.fan = Some("B".to_string());
    cmd.swing = Some(true);
    let plan = m.command(3, cmd).ok().unwrap();
    assert!(matches!(plan.next(0, Ok(())), CommandStep::Send(Command::Power(true))));
    assert!(matches!(plan.next(1, Ok(())), CommandStep::Send(Command::FanRate(r)) if r == "B"));
    assert!(matches!(plan.next(2, Ok(())), CommandStep::Send(Command::FanDir(3))));
    let refused = "applying command to Home Theater: HTTP 403 from x".to_string();
    assert_eq!(run(&plan, 0), (1, Err(refused.clone())));
    assert_eq!(run(&plan, 1), (2, Err(refused.clone())));
    assert_eq!(run(&plan, 2), (3, Err(refused)));
    assert_eq!(run(&plan, 3), (3, Ok("web UI: power on, fan B, swing on".to_string())));
}

#[test]
fn copies_say_the_same() {
    let m = running();
    let cfg = m.config().clone();
    assert_eq!(cfg.devices.len(), 2);
    assert_eq!((cfg.devices[1].id, cfg.devices[1].ip.as_str()), (3, "10.0.0.247"));
    assert_eq!((cfg.pin.as_str(), cfg.host.clone(), cfg.poll_secs), ("11122333", None, 10));
    let info = m.info().clone();
    assert_eq!((info.pin.as_str(), info.device_count), ("111-22-333", 2));
    let view = m.list(&HashMap::new())[0].clone();
    assert_eq!((view.id, view.name.as_str()), (2, "Salone"));
    let client = DaikinClient::new("10.0.0.9").ok().unwrap().clone();
    assert_eq!((client.host.as_str(), client.port, client.timeout_secs), ("10.0.0.9", 80, 5));
    assert!(matches!(Command::FanRate("B".to_string()).clone(), Command::FanRate(r) if r == "B"));
    assert!(matches!(Command::Power(false).clone(), Command::Power(false)));
}

#[test]
fn requests_are_refused() {
    let m = running();
    let e = m.command(7, DeviceCommand::default()).err().unwrap();
    assert!(matches!(e, ManagerError::NoDevice { id: 7 }));
    assert_eq!(e.message(), "no device with id 7");
    let mut cmd = DeviceCommand::default();
    cmd.mode = Some("warm".to_string());
    let e = m.command(2, cmd).err().unwrap();
    assert!(matches!(e, ManagerError::UnknownMode { .. }));
    assert_eq!(e.message(), "unknown mode 'warm'");
    let e = m.command(2, DeviceCommand::default()).err().unwrap();
    assert!(matches!(e, ManagerError::NoFields));
    assert_eq!(e.message(), "no command fields provided");
    let r = refuse(e.message());
    assert_eq!((r.status, r.error.as_str()), (400, "no command fields provided"));
}

#[test]
fn probes_are_judged() {
    let name = Manager::probe("10.0.0.9", Ok(Some("Unit".to_string()))).ok().unwrap();
    assert_eq!(name.as_deref(), Some("Unit"));
    assert!(Manager::probe("10.0.0.9", Ok(None)).ok().unwrap().is_none());
    let e = Manager::probe("10.0.0.9", Err("timed out".to_string())).err().unwrap();
    assert!(matches!(e, ManagerError::NoUnit { .. }));
    assert_eq!(e.message(), "no Daikin unit responded at 10.0.0.9: timed out");
}

#[test]
fn devices_are_added() {
    let mut m = running();
    let d = m.add_device("10.0.0.9", Some("  ".to_string()), Some("Unit".to_string())).ok().unwrap();
    assert_eq!((d.id, d.name.as_str(), d.ip.as_str()), (4, "Unit", "10.0.0.9"));
    assert_eq!(registered_notice(&d).message, "registered (10.0.0.9)");
    let (view, n) = m.finish_add(d);
    assert_eq!((view.id, view.name.as_str(), view.ip.as_str()), (4, "Unit", "10.0.0.9"));
    assert!(!view.status.reachable);
    assert_eq!(n.message, "added via web UI");
    assert_eq!(n.device.as_deref(), Some("Unit"));
    assert_eq!(shown(&m)[2], row(4, "Unit", "10.0.0.9"));
    assert_eq!(configured(&m)[2], row(4, "Unit", "10.0.0.9"));

    let d = m.add_device("10.0.0.10", None, None).ok().unwrap();
    assert_eq!((d.id, d.name.as_str()), (5, "Daikin 5"));
    let d = m.add_device("10.0.0.10", Some(" x ".to_string()), Some("Unit".to_string())).ok().unwrap();
    assert_eq!(d.name, " x ");
    let e = m.add_device("10.0.0.9", None, None).err().unwrap();
    assert!(matches!(e, ManagerError::DuplicateIp { .. }));
    assert_eq!(e.message(), "a device with IP 10.0.0.9 already exists");
}

#[test]
fn devices_are_edited() {
    let mut m = running();
    let plan = m.edit_device(2, Some("10.0.0.50".to_string()), Some(" ".to_string())).ok().unwrap();
    assert!(plan.probe);
    assert_eq!(plan.device.name, "Salone");
    assert!(m.detach(2));
    assert!(!m.detach(2));
    assert_eq!(shown(&m), [row(3, "Home Theater", "10.0.0.247")]);
    assert_eq!(configured(&m)[0], row(2, "Salone", "10.0.0.142"));
    let (view, n) = m.finish_edit(plan.device);
    assert_eq!((view.id, view.ip.as_str()), (2, "10.0.0.50"));
    assert_eq!(n.message, "updated via web UI");
    let expected = [row(2, "Salone", "10.0.0.50"), row(3, "Home Theater", "10.0.0.247")];
    assert_eq!(shown(&m), expected);
    assert_eq!(configured(&m), expected);

    let plan = m.edit_device(3, None, Some("Cinema".to_string())).ok().unwrap();
    assert!(!plan.probe);
    m.detach(3);
    m.finish_edit(plan.device);
    assert_eq!(configured(&m)[1], row(3, "Cinema", "10.0.0.247"));
    let e = m.edit_device(8, None, None).err().unwrap();
    assert!(matches!(e, ManagerError::NoDevice { id: 8 }));
}

#[test]
fn empty_edit_changes_nothing() {
    let mut m = running();
    let (before, listed) = (configured(&m), shown(&m));
    let plan = m.edit_device(2, None, None).ok().unwrap();
    assert!(!plan.probe);
    m.detach(2);
    m.finish_edit(plan.device);
    assert_eq!(configured(&m), before);
    assert_eq!(shown(&m), listed);
}

#[test]
fn removing_undoes_adding() {
    let mut m = running();
    let (before, listed) = (configured(&m), shown(&m));
    let d = m.add_device("10.0.0.9", None, None).ok().unwrap();
    let id = d.id;
    m.finish_add(d);
    let n = m.remove_device(id).ok().unwrap();
    assert_eq!(n.message, "removed via web UI");
    assert_eq!(n.device.as_deref(), Some("Daikin 4"));
    assert_eq!(configured(&m), before);
    assert_eq!(shown(&m), listed);
    let e = m.remove_device(id).err().unwrap();
    assert_eq!(e.message(), "no device with id 4");
    m.remove_device(2).ok().unwrap();
    assert_eq!(configured(&m), [row(3, "Home Theater", "10.0.0.247")]);
    assert_eq!(m.add_device("10.0.0.142", None, None).ok().unwrap().id, 2);
}

#[test]
fn answers_have_their_status() {
    assert_eq!(status_of(Action::AddDevice), 201);
    assert_eq!(status_of(Action::EditDevice), 200);
    assert_eq!(status_of(Action::RemoveDevice), 204);
    assert_eq!(status_of(Action::Command), 204);
    for a in [Action::Index, Action::Info, Action::ListDevices, Action::Activity] {
        assert_eq!(status_of(a), 200);
    }
}

#[test]
fn requested_addresses_are_trimmed() {
    let r = AddReq { ip: " 10.0.0.9\n".to_string(), name: Some(" a ".to_string()) }.trimmed();
    assert_eq!((r.ip.as_str(), r.name.as_deref()), ("10.0.0.9", Some(" a ")));
    let r = EditReq { ip: Some("\t10.0.0.9 ".to_string()), name: None }.trimmed();
    assert_eq!((r.ip.as_deref(), r.name), (Some("10.0.0.9"), None));
    assert_eq!(EditReq { ip: None, name: None }.trimmed().ip, None);
}
