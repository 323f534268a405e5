use daikin_homekit::activity::Level;
use daikin_homekit::config::DeviceConfig;
use daikin_homekit::daikin::mode as dmode;
use daikin_homekit::daikin::{parse_response, Command, ControlInfo, Exchange};
use daikin_homekit::hk::fan::{fan_order, fan_rate_to_percent, percent_to_fan_rate};
use daikin_homekit::hk::runtime::{
    accessory_info, homekit_values, DeviceRuntime, HomekitWrite, Reading,
};
use daikin_homekit::hk::{
    current_state, daikin_mode_name, daikin_mode_to_hk_target, hk_target_to_daikin_mode,
    mode_name_to_daikin, Band, HK_CURRENT_COOLING, HK_CURRENT_HEATING, HK_CURRENT_IDLE,
    HK_CURRENT_INACTIVE, HK_TARGET_AUTO, HK_TARGET_COOL, HK_TARGET_HEAT,
};
use daikin_homekit::single::Single;

fn single(x: f32) -> Single {
    Single { bits: x.to_bits() }
}

fn float(x: Single) -> f32 {
    f32::from_bits(x.bits)
}

fn band(t: f32) -> Band {
    Band { below: single(t - 0.5), above: single(t + 0.5) }
}

fn device() -> DeviceConfig {
    DeviceConfig { id: 2, name: "Salone".to_string(), ip: "10.0.0.142".to_string() }
}

fn runtime() -> DeviceRuntime {
    DeviceRuntime::new(&device()).ok().unwrap()
}

fn reading(body: &str, target: Option<f32>, indoor: Option<f32>) -> Reading {
    let control = ControlInfo { raw: parse_response(body) };
    Reading::new(&control, target.map(single), indoor.map(single), None)
}

#[test]
fn mode_roundtrip() {
    assert_eq!(daikin_mode_to_hk_target(dmode::HEAT), HK_TARGET_HEAT);
    assert_eq!(daikin_mode_to_hk_target(dmode::COOL), HK_TARGET_COOL);
    assert_eq!(daikin_mode_to_hk_target(dmode::DRY), HK_TARGET_AUTO);
    assert_eq!(hk_target_to_daikin_mode(HK_TARGET_HEAT), dmode::HEAT);
    assert_eq!(hk_target_to_daikin_mode(HK_TARGET_COOL), dmode::COOL);
}

#[test]
fn fan_mapping_roundtrips_within_a_step() {
    for r in fan_order() {
        let pct = fan_rate_to_percent(r);
        assert_eq!(percent_to_fan_rate(pct), r, "rate {r} at {}%", float(pct));
    }
}

#[test]
fn fan_extremes() {
    assert_eq!(percent_to_fan_rate(single(0.0)), "B");
    assert_eq!(percent_to_fan_rate(single(100.0)), "A");
}

#[test]
fn faster_speeds_give_no_slower_rates() {
    let order = fan_order();
    let mut last = 0;
    for p in 0..=2000 {
        let rate = percent_to_fan_rate(single(p as f32 / 20.0));
        let i = order.iter().position(|r| *r == rate).unwrap();
        assert!(i >= last);
        last = i;
    }
    assert_eq!(last, 6);
}

#[test]
fn targets_roundtrip() {
    for target in [HK_TARGET_AUTO, HK_TARGET_HEAT, HK_TARGET_COOL] {
        assert_eq!(daikin_mode_to_hk_target(hk_target_to_daikin_mode(target)), target);
    }
    for m in [dmode::AUTO, dmode::AUTO1, dmode::DRY, dmode::FAN, dmode::AUTO7, 5, 255] {
        assert_eq!(daikin_mode_to_hk_target(m), HK_TARGET_AUTO);
    }
    assert_eq!(hk_target_to_daikin_mode(9), dmode::AUTO);
}

#[test]
fn mode_names() {
    assert_eq!(mode_name_to_daikin("auto"), Some(dmode::AUTO));
    assert_eq!(mode_name_to_daikin("HEAT"), Some(dmode::HEAT));
    assert_eq!(mode_name_to_daikin("Cool"), Some(dmode::COOL));
    assert_eq!(mode_name_to_daikin("dRy"), Some(dmode::DRY));
    assert_eq!(mode_name_to_daikin("fan"), Some(dmode::FAN));
    assert_eq!(mode_name_to_daikin("fan "), None);
    assert_eq!(mode_name_to_daikin(""), None);
    assert_eq!(mode_name_to_daikin("HEAT\u{212a}"), None);
    for m in [dmode::AUTO, dmode::DRY, dmode::COOL, dmode::HEAT, dmode::FAN] {
        assert_eq!(mode_name_to_daikin(daikin_mode_name(m)), Some(m));
    }
    assert_eq!(daikin_mode_name(dmode::AUTO1), "auto");
    assert_eq!(daikin_mode_name(dmode::AUTO7), "auto");
    assert_eq!(daikin_mode_name(5), "unknown");
}

#[test]
fn current_state_follows_mode_and_room() {
    let b = Some(band(22.0));
    let i = |t: f32| Some(single(t));
    assert_eq!(current_state(false, dmode::COOL, i(30.0), b), HK_CURRENT_INACTIVE);
    assert_eq!(current_state(true, dmode::COOL, None, None), HK_CURRENT_COOLING);
    assert_eq!(current_state(true, dmode::HEAT, i(30.0), b), HK_CURRENT_HEATING);
    assert_eq!(current_state(true, dmode::AUTO, i(22.6), b), HK_CURRENT_COOLING);
    assert_eq!(current_state(true, dmode::AUTO, i(22.5), b), HK_CURRENT_IDLE);
    assert_eq!(current_state(true, dmode::AUTO, i(21.5), b), HK_CURRENT_IDLE);
    assert_eq!(current_state(true, dmode::AUTO, i(21.4), b), HK_CURRENT_HEATING);
    assert_eq!(current_state(true, dmode::AUTO, None, b), HK_CURRENT_IDLE);
    assert_eq!(current_state(true, dmode::FAN, i(21.4), None), HK_CURRENT_IDLE);
    assert_eq!(current_state(true, dmode::DRY, i(f32::NAN), b), HK_CURRENT_IDLE);
}

#[test]
fn accessories_are_described() {
    let info = accessory_info(&device());
    assert_eq!(info.manufacturer, "Daikin");
    assert_eq!(info.model, "BRP069B");
    assert_eq!(info.name, "Salone");
    assert_eq!(info.serial_number, "daikin-2");
}

#[test]
fn readings_are_presented() {
    let r = reading("ret=OK,pow=1,mode=3,f_rate=5,f_dir=3", Some(24.5), Some(26.0));
    let v = homekit_values(&r, Some(band(24.5)));
    assert_eq!((v.active, v.current_state, v.target_state), (1, HK_CURRENT_COOLING, HK_TARGET_COOL));
    assert_eq!(float(v.current_temperature), 26.0);
    assert_eq!(float(v.heating_threshold), 24.5);
    assert_eq!(float(v.cooling_threshold), 24.5);
    assert_eq!(float(v.rotation_speed), 57.0);
    assert_eq!(v.swing_mode, 1);

    let r = reading("ret=OK", None, None);
    let v = homekit_values(&r, None);
    assert_eq!((v.active, v.current_state, v.target_state), (0, HK_CURRENT_INACTIVE, HK_TARGET_AUTO));
    assert_eq!(float(v.current_temperature), 20.0);
    assert_eq!(float(v.heating_threshold), 20.0);
    assert_eq!(float(v.cooling_threshold), 24.0);
    assert_eq!(float(v.rotation_speed), 100.0);
    assert_eq!(v.swing_mode, 0);

    let r = reading("ret=OK,pow=1", Some(8.0), None);
    let v = homekit_values(&r, Some(band(8.0)));
    assert_eq!(float(v.current_temperature), 8.0);
    assert_eq!(float(v.heating_threshold), 10.0);
    assert_eq!(float(v.cooling_threshold), 16.0);
}

#[test]
fn homekit_writes_become_commands() {
    let rt = runtime();
    let say = |w: HomekitWrite| {
        assert!(w.can_map());
        let p = rt.homekit_write(w).unwrap();
        assert_eq!(p.notice.device.as_deref(), Some("Salone"));
        assert_eq!(p.notice.level, Level::Info);
        (p.command, p.notice.message)
    };
    let (c, m) = say(HomekitWrite::Active(1));
    assert!(matches!(c, Command::Power(true)));
    assert_eq!(m, "HomeKit: power on");
    let (c, m) = say(HomekitWrite::Active(2));
    assert!(matches!(c, Command::Power(false)));
    assert_eq!(m, "HomeKit: power off");
    let (c, m) = say(HomekitWrite::TargetState(HK_TARGET_HEAT));
    assert!(matches!(c, Command::Mode(dmode::HEAT)));
    assert_eq!(m, "HomeKit: mode heat");
    let (c, m) = say(HomekitWrite::HeatingThreshold(single(31.0)));
    assert!(matches!(c, Command::Temperature(t) if float(t) == 30.0));
    assert_eq!(m, "HomeKit: heating setpoint 30.0°C");
    let (c, m) = say(HomekitWrite::CoolingThreshold(single(24.5)));
    assert!(matches!(c, Command::Temperature(t) if float(t) == 24.5));
    assert_eq!(m, "HomeKit: cooling setpoint 24.5°C");
    let (c, m) = say(HomekitWrite::RotationSpeed(single(50.0)));
    assert!(matches!(c, Command::FanRate(r) if r == "5"));
    assert_eq!(m, "HomeKit: fan rate 5");
    let (c, m) = say(HomekitWrite::SwingMode(1));
    assert!(matches!(c, Command::FanDir(3)));
    assert_eq!(m, "HomeKit: swing on");
    let (c, m) = say(HomekitWrite::SwingMode(0));
    assert!(matches!(c, Command::FanDir(0)));
    assert_eq!(m, "HomeKit: swing off");
    assert!(!HomekitWrite::RotationSpeed(single(-1.0e12)).can_map());
}

#[test]
fn pushed_values_are_not_echoed() {
    let mut rt = runtime();
    rt.begin_push();
    assert!(rt.suppress);
    assert!(rt.homekit_write(HomekitWrite::Active(1)).is_none());
    assert!(rt.homekit_write(HomekitWrite::RotationSpeed(single(-1.0e12))).is_none());
    rt.end_push();
    assert!(rt.homekit_write(HomekitWrite::Active(1)).is_some());
}

#[test]
fn accepted_writes_are_logged() {
    let rt = runtime();
    let p = rt.homekit_write(HomekitWrite::Active(1)).unwrap();
    assert_eq!(p.finish(Ok(())).ok().unwrap().message, "HomeKit: power on");
    let p = rt.homekit_write(HomekitWrite::Active(1)).unwrap();
    assert_eq!(p.finish(Err("HTTP 403 from x".to_string())).err().unwrap(), "HTTP 403 from x");
}

#[test]
fn readings_are_recorded() {
    let mut rt = runtime();
    assert!(!rt.status.reachable);
    let r = reading("ret=OK,pow=1,mode=3,f_rate=A,f_dir=3", Some(22.5), Some(25.0));
    let notices = rt.record_reading(&r, "2024-01-01T00:00:00Z".to_string());
    let messages: Vec<&str> = notices.iter().map(|n| n.message.as_str()).collect();
    assert_eq!(messages, ["device reachable", "state: on cool setpoint 22.5°C fan A swing"]);
    assert!(rt.status.reachable && rt.status.power && rt.status.swing);
    assert_eq!(rt.status.mode, "cool");
    assert_eq!(rt.status.fan, "A");
    assert_eq!(rt.status.target_temp.map(float), Some(22.5));
    assert_eq!(rt.status.indoor_temp.map(float), Some(25.0));
    assert_eq!(rt.status.last_seen.as_deref(), Some("2024-01-01T00:00:00Z"));

    let notices = rt.record_reading(&r, "later".to_string());
    assert!(notices.is_empty());
    assert_eq!(rt.status.last_seen.as_deref(), Some("later"));

    let warmer = reading("ret=OK,pow=1,mode=3,f_rate=A,f_dir=1", Some(22.5), Some(27.0));
    assert!(rt.record_reading(&warmer, "later".to_string()).is_empty());
    assert_eq!(rt.status.indoor_temp.map(float), Some(27.0));
    let r = reading("ret=OK,pow=1,mode=3,f_rate=A,f_dir=1", Some(f32::NAN), Some(27.0));
    assert_eq!(rt.record_reading(&r, "later".to_string()).len(), 1);
    assert_eq!(rt.record_reading(&r, "later".to_string()).len(), 1);

    let r = reading("ret=OK,pow=0,mode=2,f_rate=A,f_dir=0", None, None);
    let notices = rt.record_reading_now(&r);
    assert_eq!(notices.len(), 1);
    assert_eq!(notices[0].message, "state: off dry setpoint - fan A");
    let seen = rt.status.last_seen.clone().unwrap();
    assert!(seen.len() >= 20 && seen.contains('T'), "{seen}");
}

#[test]
fn loss_is_reported_once() {
    let mut rt = runtime();
    assert!(rt.mark_unreachable("nothing").is_none());
    assert_eq!(rt.status.last_error.as_deref(), Some("nothing"));
    let r = reading("ret=OK", None, None);
    rt.record_reading(&r, "now".to_string());
    assert_eq!(rt.status.last_error, None);
    let n = rt.mark_unreachable("timed out").unwrap();
    assert_eq!(n.level, Level::Warn);
    assert_eq!(n.message, "device unreachable: timed out");
    assert!(!rt.status.reachable);
    assert!(rt.mark_unreachable("timed out again").is_none());
    assert_eq!(rt.status.last_error.as_deref(), Some("timed out again"));
    let notices = rt.record_reading(&r, "later".to_string());
    assert_eq!(notices[0].message, "device reachable");
}

fn answered(body: &str) -> Exchange {
    Exchange::Reply { raw: format!("HTTP/1.1 200 OK\r\n\r\n{body}").into_bytes() }
}

#[test]
fn polls_read_control_state_and_sensors() {
    let mut rt = runtime();
    let control = rt.control_read(&answered("ret=OK,pow=1,mode=4")).ok().unwrap();
    assert_eq!(control.mode(), dmode::HEAT);
    assert!(!rt.status.reachable);
    let (indoor, outdoor) = rt.sensors_read(&answered("ret=OK,htemp=20.5,otemp=M"));
    assert_eq!((indoor.as_deref(), outdoor), (Some("20.5"), None));
    let (indoor, outdoor) = rt.sensors_read(&answered("ret=NG,htemp=20.5,otemp=7"));
    assert_eq!((indoor, outdoor), (None, None));

    rt.record_reading(&reading("ret=OK", None, None), "now".to_string());
    let late = Exchange::TimedOut { cause: "deadline has elapsed".to_string() };
    let n = rt.control_read(&late).err().unwrap().unwrap();
    let why = "timed out talking to 10.0.0.142/aircon/get_control_info: deadline has elapsed";
    assert_eq!(n.message, format!("device unreachable: {why}"));
    assert!(!rt.status.reachable);
    assert_eq!(rt.status.last_error.as_deref(), Some(why));
    assert!(rt.control_read(&late).err().unwrap().is_none());
}
