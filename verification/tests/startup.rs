use daikin_homekit::config::AppConfig;
use daikin_homekit::startup::{
    bridge_accessory, choose_host, identity_plan, listening_message, route_target,
    starting_message, web_addr, web_message, HostAddr, IdentityPlan, BRIDGE_ID,
};

const LAN: HostAddr = HostAddr::V4 { a: 10, b: 0, c: 0, d: 206 };
const LOCAL: HostAddr = HostAddr::V4 { a: 127, b: 0, c: 0, d: 1 };

#[test]
fn stored_identity_is_reused() {
    for (n, next) in [(1u64, 2u64), (41, 42), (u64::MAX, 0)] {
        for existed in [false, true] {
            let plan = identity_plan(Ok(n), existed, "d/config.json", "d");
            assert!(matches!(
                plan,
                IdentityPlan::Reuse { configuration_number } if configuration_number == next
            ));
        }
    }
}

#[test]
fn unreadable_identity_is_not_replaced() {
    let plan = identity_plan(Err("EOF".to_string()), true, "./data/config.json", "./data");
    match plan {
        IdentityPlan::Refuse { message } => assert_eq!(
            message,
            "./data/config.json exists but could not be loaded (EOF). Refusing to start: \
             generating a new identity here would invalidate the existing pairings in \
             ./data/pairings and every controller would show \"No Response\". Restore the file \
             from a backup, or delete it to start fresh and re-pair the bridge in the Home app."
        ),
        _ => panic!("identity replaced"),
    }
    let plan = identity_plan(Err("missing".to_string()), false, "x", "y");
    assert!(matches!(plan, IdentityPlan::Generate));
}

#[test]
fn advertised_host() {
    let v6 = HostAddr::V6 { bits: 1 };
    assert_eq!(choose_host(Some(v6), Some(LAN)), v6);
    assert_eq!(choose_host(None, Some(LAN)), LAN);
    assert_eq!(choose_host(None, Some(v6)), LOCAL);
    assert_eq!(choose_host(None, Some(HostAddr::V4 { a: 127, b: 1, c: 2, d: 3 })), LOCAL);
    assert_eq!(choose_host(None, None), LOCAL);
}

#[test]
fn route_goes_to_the_first_unit() {
    let mut cfg = AppConfig::default();
    assert_eq!(route_target(&cfg), "10.0.0.142:80");
    cfg.devices.clear();
    assert_eq!(route_target(&cfg), "10.255.255.255:80");
}

#[test]
fn startup_is_told() {
    let cfg = AppConfig::default();
    assert_eq!(starting_message(&cfg), "starting Daikin HomeKit Bridge \"Daikin Bridge\"");
    assert_eq!(web_addr(&cfg), "0.0.0.0:8090");
    assert_eq!(web_message("10.0.0.206", &cfg), "admin web UI on http://10.0.0.206:8090");
    assert_eq!(
        listening_message("10.0.0.206", &cfg),
        "HomeKit bridge listening on 10.0.0.206:32000 — pair using the PIN in config.toml"
    );
    let info = bridge_accessory(&cfg);
    assert_eq!(BRIDGE_ID, 1);
    assert_eq!(info.manufacturer, "daikin-homekit");
    assert_eq!(info.model, "bridge");
    assert_eq!(info.name, "Daikin Bridge");
    assert_eq!(info.serial_number, "daikin-homekit-bridge");
}
