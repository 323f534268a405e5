use daikin_homekit::config::{
    default_hap_port, default_name, default_pin, default_poll_secs, default_storage_dir,
    default_web_port, AppConfig, DeviceConfig,
};

fn device(id: u64) -> DeviceConfig {
    DeviceConfig { id, name: format!("d{id}"), ip: format!("10.0.0.{id}") }
}

fn config(pin: &str, ids: &[u64]) -> AppConfig {
    let mut cfg = AppConfig::default();
    cfg.pin = pin.to_string();
    cfg.devices = ids.iter().map(|id| device(*id)).collect();
    cfg
}

#[test]
fn defaults() {
    let cfg = AppConfig::default();
    assert_eq!(cfg.pin, "11122333");
    assert_eq!(cfg.name, "Daikin Bridge");
    assert_eq!((cfg.hap_port, cfg.web_port, cfg.poll_secs), (32000, 8090, 10));
    assert_eq!(cfg.host, None);
    assert_eq!(cfg.storage_dir, "./data");
    assert_eq!(cfg.devices.len(), 2);
    assert_eq!((cfg.devices[0].id, cfg.devices[1].id), (2, 3));
    assert_eq!((cfg.devices[0].name.as_str(), cfg.devices[0].ip.as_str()), ("Salone", "10.0.0.142"));
    assert_eq!(
        (cfg.devices[1].name.as_str(), cfg.devices[1].ip.as_str()),
        ("Home Theater", "10.0.0.247")
    );
    assert_eq!(default_pin(), cfg.pin);
    assert_eq!(default_name(), cfg.name);
    assert_eq!(default_hap_port(), cfg.hap_port);
    assert_eq!(default_web_port(), cfg.web_port);
    assert_eq!(default_storage_dir(), cfg.storage_dir);
    assert_eq!(default_poll_secs(), cfg.poll_secs);
}

#[test]
fn a_missing_configuration_is_created() {
    let (cfg, created) = AppConfig::load_or_create(None);
    assert!(created);
    assert_eq!(cfg.devices.len(), 2);
    let (cfg, created) = AppConfig::load_or_create(Some(config("1", &[7])));
    assert!(!created);
    assert_eq!(cfg.pin, "1");
    assert_eq!(cfg.devices[0].id, 7);
}

#[test]
fn next_id_is_the_smallest_unused() {
    assert_eq!(config("", &[]).next_device_id(), 2);
    assert_eq!(config("", &[2, 3]).next_device_id(), 4);
    assert_eq!(config("", &[3, 2, 5]).next_device_id(), 4);
    assert_eq!(config("", &[3]).next_device_id(), 2);
    assert_eq!(config("", &[1, 0]).next_device_id(), 2);
    assert_eq!(config("", &[2, 2, u64::MAX]).next_device_id(), 3);
}

#[test]
fn pins_have_eight_digits() {
    assert_eq!(config("11122333", &[]).pin_digits().ok(), Some([1, 1, 1, 2, 2, 3, 3, 3]));
    assert_eq!(config("904-15-678", &[]).pin_digits().ok(), Some([9, 0, 4, 1, 5, 6, 7, 8]));
    for pin in ["", "1234567", "123456789", "٣٣٣٣٣٣٣٣"] {
        let e = config(pin, &[]).pin_digits().err().unwrap();
        assert_eq!(e.message(), format!("PIN must contain exactly 8 digits, got {pin:?}"));
    }
    let e = config("a\"b\n", &[]).pin_digits().err().unwrap();
    assert_eq!(e.message(), "PIN must contain exactly 8 digits, got \"a\\\"b\\n\"");
}
