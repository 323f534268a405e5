use daikin_homekit::daikin::{
    mode, parse_response, Command, ControlInfo, DaikinClient, DaikinError, Exchange, SensorInfo,
};
use daikin_homekit::single::Single;

fn temp(text: Option<String>) -> Option<f32> {
    text.and_then(|s| s.parse().ok())
}

fn control(body: &str) -> ControlInfo {
    ControlInfo { raw: parse_response(body) }
}

fn reply(text: &str) -> Exchange {
    Exchange::Reply { raw: text.as_bytes().to_vec() }
}

fn ok_reply(body: &str) -> Exchange {
    reply(&format!("HTTP/1.1 200 OK\r\nContent-Type: text/plain\r\n\r\n{body}"))
}

fn client() -> DaikinClient {
    DaikinClient::new("10.0.0.142").unwrap()
}

#[test]
fn parses_control_info() {
    let body = "ret=OK,pow=1,mode=3,stemp=22.5,shum=0,f_rate=A,f_dir=0";
    let ci = ControlInfo {
        raw: parse_response(body),
    };
    assert!(ci.power());
    assert_eq!(ci.mode(), mode::COOL);
    assert_eq!(temp(ci.target_temp()), Some(22.5));
    assert_eq!(ci.fan_rate(), "A");
    assert_eq!(ci.fan_dir(), 0);
}

#[test]
fn decodes_percent_encoded_name() {
    let body = "ret=OK,name=%53%61%6c%6f%6e%65";
    let map = parse_response(body);
    assert_eq!(map.get("name").unwrap(), "Salone");
}

#[test]
fn non_numeric_setpoint_is_none() {
    let body = "ret=OK,stemp=M";
    let ci = ControlInfo {
        raw: parse_response(body),
    };
    assert_eq!(temp(ci.target_temp()), None);
}

#[test]
fn fields_are_trimmed_and_split_at_the_first_equals_sign() {
    let map = parse_response(" \r\n a =1=2, =x,,b,c= d ,a=3 \n");
    assert_eq!(map.get("a").unwrap(), "3");
    assert_eq!(map.get("b").unwrap(), "");
    assert_eq!(map.get("c").unwrap(), " d ");
    assert!(map.get("").is_none());
    assert_eq!(parse_response("a =1=2").get("a").unwrap(), "1=2");
}

#[test]
fn percent_escapes_become_bytes() {
    let map = parse_response("a=100%,b=%zz%41,c=%C3%A8,d=%ff,e=%2,f=%2c%3D%25");
    assert_eq!(map.get("a").unwrap(), "100%");
    assert_eq!(map.get("b").unwrap(), "%zzA");
    assert_eq!(map.get("c").unwrap(), "è");
    assert_eq!(map.get("d").unwrap(), "\u{fffd}");
    assert_eq!(map.get("e").unwrap(), "%2");
    assert_eq!(map.get("f").unwrap(), ",=%");
}

#[test]
fn plain_values_are_kept() {
    let map = parse_response("name=Sälone \u{1f321},x=+ &");
    assert_eq!(map.get("name").unwrap(), "Sälone \u{1f321}");
    assert_eq!(map.get("x").unwrap(), "+ &");
}

#[test]
fn missing_fields_have_defaults() {
    let ci = control("ret=OK");
    assert!(!ci.power());
    assert_eq!(ci.mode(), mode::AUTO);
    assert_eq!(ci.target_temp(), None);
    assert_eq!(ci.fan_rate(), "A");
    assert_eq!(ci.fan_dir(), 0);
    let sensor = SensorInfo { raw: parse_response("ret=OK,htemp=21.5,otemp=-") };
    assert_eq!(temp(sensor.indoor_temp()), Some(21.5));
    assert_eq!(sensor.outdoor_temp(), None);
}

#[test]
fn fields_that_are_no_bytes_count_as_zero() {
    assert_eq!(control("mode=256,f_dir=-1").mode(), 0);
    assert_eq!(control("mode=256,f_dir=-1").fan_dir(), 0);
    assert_eq!(control("mode=+7,f_dir=003").mode(), 7);
    assert_eq!(control("mode=+7,f_dir=003").fan_dir(), 3);
    assert!(!control("pow=01").power());
}

#[test]
fn requests_have_a_canonical_host_header() {
    let c = client();
    assert_eq!(c.port, 80);
    assert_eq!(c.timeout_secs, 5);
    assert_eq!(
        c.request(DaikinClient::control_info_path()),
        "GET /aircon/get_control_info HTTP/1.1\r\nHost: 10.0.0.142\r\nAccept: */*\r\nConnection: close\r\n\r\n"
    );
    assert_eq!(DaikinClient::sensor_info_path(), "/aircon/get_sensor_info");
    assert_eq!(DaikinClient::basic_info_path(), "/common/basic_info");
}

#[test]
fn replies_are_read() {
    let c = client();
    let ci = c.control_info(&ok_reply("ret=OK,pow=1,mode=4")).ok().unwrap();
    assert!(ci.power());
    assert_eq!(ci.mode(), mode::HEAT);
    let si = c.sensor_info(&ok_reply("ret=OK,htemp=20.0,otemp=7.5")).ok().unwrap();
    assert_eq!(temp(si.outdoor_temp()), Some(7.5));
    let name = c.device_name(&ok_reply("ret=OK,name=%48%6f%6d%65")).ok().unwrap();
    assert_eq!(name, Some("Home".to_string()));
    assert_eq!(c.device_name(&ok_reply("ret=OK,name=")).ok().unwrap(), None);
    assert_eq!(c.device_name(&ok_reply("ret=OK")).ok().unwrap(), None);
}

#[test]
fn body_follows_the_first_empty_line() {
    let c = client();
    let body = c.http_get("/x", &reply("HTTP/1.1 200 OK\r\n\r\na\r\n\r\nb")).ok().unwrap();
    assert_eq!(body, "a\r\n\r\nb");
    let body = c.http_get("/x", &reply("HTTP/1.0\t200\nA: b\r\n\r\n")).ok().unwrap();
    assert_eq!(body, "");
}

#[test]
fn bytes_that_are_no_text_are_replaced() {
    let mut raw = b"HTTP/1.1 200 OK\r\n\r\nret=OK,x=".to_vec();
    raw.push(0xff);
    let map = client().get("/x", &Exchange::Reply { raw }).ok().unwrap();
    assert_eq!(map.get("x").unwrap(), "\u{fffd}");
}

#[test]
fn failures_are_told_apart() {
    let c = client();
    let text = |io: Exchange| match c.get("/p", &io) {
        Ok(_) => "ok".to_string(),
        Err(e) => e.message(),
    };
    assert_eq!(
        text(Exchange::TimedOut { cause: "deadline has elapsed".to_string() }),
        "timed out talking to 10.0.0.142/p: deadline has elapsed"
    );
    assert_eq!(
        text(Exchange::Failed { cause: "connection refused".to_string() }),
        "I/O error talking to 10.0.0.142/p: connection refused"
    );
    assert_eq!(text(reply("")), "malformed HTTP response from 10.0.0.142/p");
    assert_eq!(
        text(reply("HTTP/1.1 200 OK\r\nret=OK")),
        "malformed HTTP response from 10.0.0.142/p"
    );
    assert_eq!(text(reply("HTTP/1.1 403 Forbidden\r\n\r\n")), "HTTP 403 from 10.0.0.142/p");
    assert_eq!(text(reply("nonsense\r\n\r\nret=OK")), "HTTP 0 from 10.0.0.142/p");
    assert_eq!(text(reply("HTTP/1.1 70000 X\r\n\r\nret=OK")), "HTTP 0 from 10.0.0.142/p");
    assert_eq!(
        text(ok_reply("ret=PARAM NG,x=1")),
        "device returned ret=PARAM NG for /p"
    );
    assert_eq!(text(ok_reply("x=1")), "malformed response for /p: x=1");
    assert_eq!(text(ok_reply("ret=OK")), "ok");
    assert!(matches!(
        c.get("/p", &reply("x")),
        Err(DaikinError::MalformedHttp { .. })
    ));
}

#[test]
fn write_sends_all_parameters_back() {
    let current = control("ret=OK,pow=0,mode=4,stemp=21.0,shum=0,f_rate=5,f_dir=3,adv=");
    assert_eq!(
        DaikinClient::write_request(&current, Command::Power(true)),
        "/aircon/set_control_info?pow=1&mode=4&stemp=21.0&shum=0&f_rate=5&f_dir=3"
    );
    assert_eq!(
        DaikinClient::write_request(&current, Command::Temperature(Single { bits: 23.25f32.to_bits() })),
        "/aircon/set_control_info?pow=0&mode=4&stemp=23.2&shum=0&f_rate=5&f_dir=3"
    );
    assert_eq!(
        DaikinClient::write_request(&current, Command::FanRate("B".to_string())),
        "/aircon/set_control_info?pow=0&mode=4&stemp=21.0&shum=0&f_rate=B&f_dir=3"
    );
    assert_eq!(
        DaikinClient::write_request(&current, Command::FanDir(0)),
        "/aircon/set_control_info?pow=0&mode=4&stemp=21.0&shum=0&f_rate=5&f_dir=0"
    );
    assert_eq!(
        DaikinClient::write_request(&control("ret=OK"), Command::Power(false)),
        "/aircon/set_control_info?pow=0&mode=3&stemp=22.0&shum=0&f_rate=A&f_dir=0"
    );
}

#[test]
fn modes_with_a_setpoint_get_one() {
    let dry = control("ret=OK,pow=1,mode=2,stemp=M,shum=AUTO,f_rate=A,f_dir=0");
    for m in [mode::AUTO, mode::AUTO1, mode::COOL, mode::HEAT, mode::AUTO7] {
        assert_eq!(
            DaikinClient::write_request(&dry, Command::Mode(m)),
            format!("/aircon/set_control_info?pow=1&mode={m}&stemp=22.0&shum=0&f_rate=A&f_dir=0")
        );
    }
    for m in [mode::DRY, mode::FAN, 5, 8, 255] {
        assert_eq!(
            DaikinClient::write_request(&dry, Command::Mode(m)),
            format!("/aircon/set_control_info?pow=1&mode={m}&stemp=M&shum=AUTO&f_rate=A&f_dir=0")
        );
    }
    let cool = control("ret=OK,pow=1,mode=3,stemp=25.5,shum=50,f_rate=A,f_dir=0");
    assert_eq!(
        DaikinClient::write_request(&cool, Command::Mode(mode::HEAT)),
        "/aircon/set_control_info?pow=1&mode=4&stemp=25.5&shum=50&f_rate=A&f_dir=0"
    );
}

fn after(current: &ControlInfo, command: Command) -> ControlInfo {
    let path = DaikinClient::write_request(current, command);
    let query = path.split_once('?').unwrap().1.replace('&', ",");
    control(&query)
}

#[test]
fn commands_read_back() {
    let current = control("ret=OK,pow=0,mode=2,stemp=M,shum=AUTO,f_rate=A,f_dir=0");
    assert!(after(&current, Command::Power(true)).power());
    assert_eq!(after(&current, Command::Mode(mode::HEAT)).mode(), mode::HEAT);
    assert_eq!(temp(after(&current, Command::Mode(mode::HEAT)).target_temp()), Some(22.0));
    let t = Single { bits: 19.5f32.to_bits() };
    assert_eq!(temp(after(&current, Command::Temperature(t)).target_temp()), Some(19.5));
    assert_eq!(after(&current, Command::FanRate("7".to_string())).fan_rate(), "7");
    assert_eq!(after(&current, Command::FanDir(3)).fan_dir(), 3);
}

#[test]
fn repeated_commands_change_nothing_more() {
    let current = control("ret=OK,pow=0,mode=2,stemp=M,shum=AUTO,f_rate=A,f_dir=0");
    let once = DaikinClient::write_request(&current, Command::Mode(mode::COOL));
    let cooling = after(&current, Command::Mode(mode::COOL));
    let twice = DaikinClient::write_request(&cooling, Command::Mode(mode::COOL));
    assert_eq!(once, twice);
}

#[test]
fn commands_are_applied_to_what_was_read() {
    let c = client();
    let read = ok_reply("ret=OK,pow=0,mode=4,stemp=21.0,shum=0,f_rate=5,f_dir=3");
    let path = c.apply(&read, Command::Power(true)).ok().unwrap();
    assert_eq!(
        path,
        "/aircon/set_control_info?pow=1&mode=4&stemp=21.0&shum=0&f_rate=5&f_dir=3"
    );
    assert!(c.applied(&path, &ok_reply("ret=OK,adv=")).is_ok());
    let e = c.applied(&path, &ok_reply("ret=PARAM NG")).err().unwrap();
    assert_eq!(e.message(), format!("device returned ret=PARAM NG for {path}"));
    let e = c.apply(&reply("HTTP/1.1 403 Forbidden\r\n\r\n"), Command::Power(true)).err().unwrap();
    assert_eq!(e.message(), "HTTP 403 from 10.0.0.142/aircon/get_control_info");
}

#[test]
fn escaped_text_is_read_back() {
    for name in ["Salone", "Sàlone, =%", "\u{6e29}\u{1f321}", " "] {
        let lower: String = name.bytes().map(|b| format!("%{b:02x}")).collect();
        let upper: String = name.bytes().map(|b| format!("%{b:02X}")).collect();
        let map = parse_response(&format!("ret=OK,a={lower},b={upper}"));
        assert_eq!(map.get("a").unwrap(), name);
        assert_eq!(map.get("b").unwrap(), name);
    }
}
