use daikin_homekit::activity::{notice, Activity, Level, CAPACITY};
use daikin_homekit::clock::{now_rfc3339, stamp};
use daikin_homekit::web::{activity_limit, recent_activity};

/// Whether `s` has the shape of an RFC 3339 timestamp.
fn is_rfc3339(s: &str) -> bool {
    let shape: String = s.chars().map(|c| if c.is_ascii_digit() { '9' } else { c }).collect();
    let Some(rest) = shape.strip_prefix("9999-99-99T99:99:99") else {
        return false;
    };
    let offset = match rest.strip_prefix('.') {
        Some(fraction) => {
            let offset = fraction.trim_start_matches('9');
            let digits = fraction.len() - offset.len();
            if digits < 1 || digits > 9 {
                return false;
            }
            offset
        }
        None => rest,
    };
    offset == "Z" || offset == "+99:99" || offset == "-99:99"
}

#[test]
fn timestamps_are_those_of_the_clock() {
    let now = now_rfc3339();
    assert!(is_rfc3339(&now), "{now}");
    let year: u32 = now[0..4].parse().unwrap();
    assert!(year >= 2024, "{now}");
    assert_eq!(stamp(Some(now.clone())), now);
    assert_eq!(stamp(None), "");
}

#[test]
fn events_are_numbered_and_dated() {
    let mut log = Activity::new();
    assert!(log.has_room());
    log.info(None, "one");
    log.warn(Some("Salone"), "two");
    log.error(Some("Salone"), "three");
    let events = log.recent(10);
    assert_eq!(events.len(), 3);
    assert_eq!(events.iter().map(|e| e.seq).collect::<Vec<u64>>(), [1, 2, 3]);
    assert_eq!(events[0].level, Level::Info);
    assert_eq!(events[1].level, Level::Warn);
    assert_eq!(events[2].level, Level::Error);
    assert_eq!(events[0].device, None);
    assert_eq!(events[1].device.as_deref(), Some("Salone"));
    assert_eq!(events[2].message, "three");
    for e in &events {
        assert!(is_rfc3339(&e.ts), "{}", e.ts);
    }
}

#[test]
fn log_keeps_the_latest() {
    let mut log = Activity::default();
    for i in 0..CAPACITY + 5 {
        log.push_at(format!("t{i}"), notice(Level::Info, None, &format!("m{i}")));
    }
    let events = log.recent(CAPACITY * 2);
    assert_eq!(events.len(), CAPACITY);
    assert_eq!(events[0].seq, 6);
    assert_eq!(events[0].message, "m5");
    assert_eq!(events[0].ts, "t5");
    assert_eq!(events[CAPACITY - 1].seq, CAPACITY as u64 + 5);
    let last = log.recent(2);
    assert_eq!(last.iter().map(|e| e.seq).collect::<Vec<u64>>(), [1004, 1005]);
    assert!(log.recent(0).is_empty());
}

#[test]
fn web_limits() {
    assert_eq!(activity_limit(None), 200);
    assert_eq!(activity_limit(Some(0)), 0);
    assert_eq!(activity_limit(Some(17)), 17);
    assert_eq!(activity_limit(Some(1000)), 1000);
    assert_eq!(activity_limit(Some(1001)), 1000);
    assert_eq!(activity_limit(Some(usize::MAX)), 1000);
    let mut log = Activity::new();
    for i in 0..300 {
        log.push_at(String::new(), notice(Level::Info, None, &format!("m{i}")));
    }
    let events = recent_activity(&log, None);
    assert_eq!(events.len(), 200);
    assert_eq!(events[0].message, "m100");
    assert_eq!(recent_activity(&log, Some(3)).len(), 3);
}
