//! The classic (pre-Onecta) Daikin local HTTP API.
//!
//! These adapters (e.g. BRP069Bxx) speak a plaintext protocol: every endpoint
//! returns a comma-separated list of `key=value` pairs prefixed with a `ret=`
//! status. Writes are performed via HTTP GET with the parameters in the query
//! string (this firmware generation does not accept POST).

use vstd::hash_map::StringHashMap;
use vstd::prelude::*;
use vstd::slice::slice_subrange;

use crate::encoding;
use crate::number;
use crate::single::Single;
use crate::text;

pub mod laws;
pub mod mode;

verus! {

// --- Replies: key=value pairs ---

/// The texts in a map of strings.
pub open spec fn texts(map: Map<Seq<char>, String>) -> Map<Seq<char>, Seq<char>> {
    map.map_values(|s: String| s@)
}

/// The key and the value of one pair. The key is what stands before the first
/// `=`, trimmed; the value, which is percent-encoded, is what follows it. A
/// pair without a key is none.
pub open spec fn parsed_pair(pair: Seq<char>) -> Option<(Seq<char>, Seq<char>)> {
    let cut = text::until(pair, '=') as int;
    let key = text::trimmed(pair.take(cut));
    let value = if cut < pair.len() {
        pair.skip(cut + 1)
    } else {
        Seq::empty()
    };
    if key.len() == 0 {
        None
    } else {
        Some((key, encoding::percent_text(value)))
    }
}

/// `fields` after one more pair.
pub open spec fn with_pair(
    fields: Map<Seq<char>, Seq<char>>,
    pair: Seq<char>,
) -> Map<Seq<char>, Seq<char>> {
    match parsed_pair(pair) {
        Some((key, value)) => fields.insert(key, value),
        None => fields,
    }
}

/// `fields` after all of `pairs`: the last one counts where keys recur.
pub open spec fn with_pairs(
    fields: Map<Seq<char>, Seq<char>>,
    pairs: Seq<Seq<char>>,
) -> Map<Seq<char>, Seq<char>>
    decreases pairs.len(),
{
    if pairs.len() == 0 {
        fields
    } else {
        with_pairs(with_pair(fields, pairs[0]), pairs.drop_first())
    }
}

/// The fields of a reply.
pub open spec fn parsed(body: Seq<char>) -> Map<Seq<char>, Seq<char>> {
    with_pairs(Map::empty(), text::split_on(text::trimmed(body), ','))
}

/// Adds one pair to `map`.
fn add_pair(map: &mut StringHashMap<String>, pair: &[char])
    ensures
        texts(final(map)@) == with_pair(texts(old(map)@), pair@),
{
    let cut = text::find(pair, '=');
    let before = slice_subrange(pair, 0, cut);
    assert(before@ == pair@.take(cut as int));
    let key = text::trim(before);
    if key.len() == 0 {
        return;
    }
    let start: usize = if cut < pair.len() {
        cut + 1
    } else {
        cut
    };
    let raw = slice_subrange(pair, start, pair.len());
    assert(raw@ == (if cut < pair@.len() {
        pair@.skip(cut + 1)
    } else {
        Seq::empty()
    }));
    let value = encoding::percent_decoded(text::text_of(raw).as_str());
    map.insert(text::text_of(key), value);
    assert(texts(map@) == texts(old(map)@).insert(key@, value@));
}

/// Parses a `key=value,key=value` Daikin body into a map, percent-decoding
/// values (device names arrive percent-encoded).
pub fn parse_response(body: &str) -> (map: StringHashMap<String>)
    ensures
        texts(map@) == parsed(body@),
{
    let chars = text::chars_of(body);
    let trimmed = text::trim(chars.as_slice());
    let mut map: StringHashMap<String> = StringHashMap::new();
    let mut start: usize = 0;
    assert(texts(map@) == Map::<Seq<char>, Seq<char>>::empty());
    assert(trimmed@.skip(0) == trimmed@);
    loop
        invariant
            start <= trimmed@.len(),
            with_pairs(texts(map@), text::split_on(trimmed@.skip(start as int), ',')) == parsed(
                body@,
            ),
        decreases trimmed@.len() - start,
    {
        let tail = slice_subrange(trimmed, start, trimmed.len());
        assert(tail@ == trimmed@.skip(start as int));
        let cut = text::find(tail, ',');
        let pair = slice_subrange(tail, 0, cut);
        assert(pair@ == tail@.take(cut as int));
        let ghost pairs = text::split_on(tail@, ',');
        add_pair(&mut map, pair);
        if cut == tail.len() {
            proof {
                reveal_with_fuel(with_pairs, 2);
                assert(pair@ == tail@);
                assert(pairs == seq![tail@]);
                assert(pairs.drop_first() == Seq::<Seq<char>>::empty());
            }
            return map;
        }
        proof {
            assert(tail@.skip(cut + 1) == trimmed@.skip(start + cut + 1));
            assert(pairs.drop_first() == text::split_on(tail@.skip(cut + 1), ','));
        }
        start = start + cut + 1;
    }
}

// --- Replies: HTTP ---

/// Whether an empty line starts at `i`: the end of the head of a reply.
pub open spec fn is_blank_line(reply: Seq<char>, i: int) -> bool {
    &&& 0 <= i
    &&& i + 4 <= reply.len()
    &&& reply[i] == '\r'
    &&& reply[i + 1] == '\n'
    &&& reply[i + 2] == '\r'
    &&& reply[i + 3] == '\n'
}

/// Whether the head of a reply ends at `i`: at its first empty line.
pub open spec fn head_ends_at(reply: Seq<char>, i: int) -> bool {
    is_blank_line(reply, i) && forall|j: int| 0 <= j < i ==> !is_blank_line(reply, j)
}

/// The status code in the head of a reply: the second word of the first line,
/// or zero where that is no status code.
pub open spec fn status_code(head: Seq<char>) -> u16 {
    let line = head.take(text::until(head, '\n') as int);
    match number::unsigned_value(text::second_word(line), 0xffff) {
        Some(code) => code as u16,
        None => 0,
    }
}

/// What came back from a unit.
pub enum HttpReply {
    /// No HTTP reply.
    Malformed,
    /// A reply other than success.
    Status(u16),
    /// The body of a successful reply.
    Body(Seq<char>),
}

/// What the bytes of a reply amount to.
pub open spec fn http_reply(raw: Seq<u8>) -> HttpReply {
    let reply = encoding::lossy_text(raw);
    if exists|i: int| head_ends_at(reply, i) {
        let end = choose|i: int| head_ends_at(reply, i);
        let code = status_code(reply.take(end));
        if code == 200 {
            HttpReply::Body(reply.skip(end + 4))
        } else {
            HttpReply::Status(code)
        }
    } else {
        HttpReply::Malformed
    }
}

/// Finds the end of the head of a reply.
fn find_blank_line(reply: &[char]) -> (at: Option<usize>)
    ensures
        match at {
            Some(i) => head_ends_at(reply@, i as int),
            None => forall|i: int| !head_ends_at(reply@, i),
        },
{
    let mut i: usize = 0;
    while i < reply.len() && reply.len() - i >= 4
        invariant
            i <= reply@.len(),
            forall|j: int| 0 <= j < i ==> !is_blank_line(reply@, j),
        decreases reply@.len() - i,
    {
        if reply[i] == '\r' && reply[i + 1] == '\n' && reply[i + 2] == '\r' && reply[i + 3]
            == '\n' {
            assert(is_blank_line(reply@, i as int));
            return Some(i);
        }
        i = i + 1;
    }
    None
}

/// What came of the exchange of a request with a unit.
#[derive(Debug)]
pub enum Exchange {
    /// The unit took too long.
    TimedOut { cause: String },
    /// The connection failed.
    Failed { cause: String },
    /// The unit sent bytes and closed the connection.
    Reply { raw: Vec<u8> },
}

/// What an exchange says.
pub enum ExchangeView {
    TimedOut(Seq<char>),
    Failed(Seq<char>),
    Reply(Seq<u8>),
}

impl View for Exchange {
    type V = ExchangeView;

    open spec fn view(&self) -> ExchangeView {
        match *self {
            Exchange::TimedOut { cause } => ExchangeView::TimedOut(cause@),
            Exchange::Failed { cause } => ExchangeView::Failed(cause@),
            Exchange::Reply { raw } => ExchangeView::Reply(raw@),
        }
    }
}

/// Why a request to a unit failed.
#[derive(Debug)]
pub enum DaikinError {
    /// The unit took too long.
    TimedOut { host: String, path: String, cause: String },
    /// The connection failed.
    Io { host: String, path: String, cause: String },
    /// What came back is no HTTP reply.
    MalformedHttp { host: String, path: String },
    /// The HTTP status was not success.
    Http { code: u16, host: String, path: String },
    /// The unit reported something other than `ret=OK`.
    Ret { ret: String, path: String },
    /// The body has no `ret=`.
    MalformedBody { path: String, body: String },
}

/// What an error says.
#[verifier::ext_equal]
pub enum DaikinErrorView {
    TimedOut { host: Seq<char>, path: Seq<char>, cause: Seq<char> },
    Io { host: Seq<char>, path: Seq<char>, cause: Seq<char> },
    MalformedHttp { host: Seq<char>, path: Seq<char> },
    Http { code: u16, host: Seq<char>, path: Seq<char> },
    Ret { ret: Seq<char>, path: Seq<char> },
    MalformedBody { path: Seq<char>, body: Seq<char> },
}

impl View for DaikinError {
    type V = DaikinErrorView;

    open spec fn view(&self) -> DaikinErrorView {
        match *self {
            DaikinError::TimedOut { host, path, cause } => DaikinErrorView::TimedOut {
                host: host@,
                path: path@,
                cause: cause@,
            },
            DaikinError::Io { host, path, cause } => DaikinErrorView::Io {
                host: host@,
                path: path@,
                cause: cause@,
            },
            DaikinError::MalformedHttp { host, path } => DaikinErrorView::MalformedHttp {
                host: host@,
                path: path@,
            },
            DaikinError::Http { code, host, path } => DaikinErrorView::Http {
                code,
                host: host@,
                path: path@,
            },
            DaikinError::Ret { ret, path } => DaikinErrorView::Ret { ret: ret@, path: path@ },
            DaikinError::MalformedBody { path, body } => DaikinErrorView::MalformedBody {
                path: path@,
                body: body@,
            },
        }
    }
}

impl DaikinErrorView {
    /// The error in words.
    pub open spec fn text(self) -> Seq<char> {
        match self {
            DaikinErrorView::TimedOut { host, path, cause } => "timed out talking to "@ + host
                + path + ": "@ + cause,
            DaikinErrorView::Io { host, path, cause } => "I/O error talking to "@ + host + path
                + ": "@ + cause,
            DaikinErrorView::MalformedHttp { host, path } => "malformed HTTP response from "@
                + host + path,
            DaikinErrorView::Http { code, host, path } => "HTTP "@ + number::decimal_text(
                code as nat,
            ) + " from "@ + host + path,
            DaikinErrorView::Ret { ret, path } => "device returned ret="@ + ret + " for "@ + path,
            DaikinErrorView::MalformedBody { path, body } => "malformed response for "@ + path
                + ": "@ + body,
        }
    }
}

impl DaikinError {
    /// The error in words.
    pub fn message(&self) -> (message: String)
        ensures
            message@ == self@.text(),
    {
        match self {
            DaikinError::TimedOut { host, path, cause } => {
                let mut message: String = "timed out talking to ".to_owned();
                message.append(host.as_str());
                message.append(path.as_str());
                message.append(": ");
                message.append(cause.as_str());
                message
            },
            DaikinError::Io { host, path, cause } => {
                let mut message: String = "I/O error talking to ".to_owned();
                message.append(host.as_str());
                message.append(path.as_str());
                message.append(": ");
                message.append(cause.as_str());
                message
            },
            DaikinError::MalformedHttp { host, path } => {
                let mut message: String = "malformed HTTP response from ".to_owned();
                message.append(host.as_str());
                message.append(path.as_str());
                message
            },
            DaikinError::Http { code, host, path } => {
                let mut message: String = "HTTP ".to_owned();
                number::push_decimal(&mut message, *code as u128);
                message.append(" from ");
                message.append(host.as_str());
                message.append(path.as_str());
                message
            },
            DaikinError::Ret { ret, path } => {
                let mut message: String = "device returned ret=".to_owned();
                message.append(ret.as_str());
                message.append(" for ");
                message.append(path.as_str());
                message
            },
            DaikinError::MalformedBody { path, body } => {
                let mut message: String = "malformed response for ".to_owned();
                message.append(path.as_str());
                message.append(": ");
                message.append(body.as_str());
                message
            },
        }
    }
}

/// The body that a request for `path` to `host` brings.
pub open spec fn body_of(host: Seq<char>, path: Seq<char>, io: ExchangeView) -> Result<
    Seq<char>,
    DaikinErrorView,
> {
    match io {
        ExchangeView::TimedOut(cause) => Err(DaikinErrorView::TimedOut { host, path, cause }),
        ExchangeView::Failed(cause) => Err(DaikinErrorView::Io { host, path, cause }),
        ExchangeView::Reply(raw) => match http_reply(raw) {
            HttpReply::Malformed => Err(DaikinErrorView::MalformedHttp { host, path }),
            HttpReply::Status(code) => Err(DaikinErrorView::Http { code, host, path }),
            HttpReply::Body(body) => Ok(body),
        },
    }
}

/// What a request for `path` to `host` amounts to: the fields of the reply
/// where the unit reported success.
pub open spec fn outcome(host: Seq<char>, path: Seq<char>, io: ExchangeView) -> Result<
    Map<Seq<char>, Seq<char>>,
    DaikinErrorView,
> {
    match body_of(host, path, io) {
        Err(e) => Err(e),
        Ok(body) => {
            let fields = parsed(body);
            if !fields.contains_key("ret"@) {
                Err(DaikinErrorView::MalformedBody { path, body })
            } else if fields["ret"@] == "OK"@ {
                Ok(fields)
            } else {
                Err(DaikinErrorView::Ret { ret: fields["ret"@], path })
            }
        },
    }
}

/// The result of a request over what it says.
pub open spec fn fields_result(r: Result<StringHashMap<String>, DaikinError>) -> Result<
    Map<Seq<char>, Seq<char>>,
    DaikinErrorView,
> {
    match r {
        Ok(map) => Ok(texts(map@)),
        Err(e) => Err(e@),
    }
}

// --- State of a unit ---

/// The value of a field, or `default` where there is none.
pub open spec fn field_or(
    fields: Map<Seq<char>, Seq<char>>,
    key: Seq<char>,
    default: Seq<char>,
) -> Seq<char> {
    if fields.contains_key(key) {
        fields[key]
    } else {
        default
    }
}

/// The value of a numeric field, or zero where there is none.
pub open spec fn byte_field(fields: Map<Seq<char>, Seq<char>>, key: Seq<char>) -> u8 {
    if fields.contains_key(key) {
        match number::unsigned_value(fields[key], 0xff) {
            Some(v) => v as u8,
            None => 0,
        }
    } else {
        0
    }
}

/// The text of a field that holds a number with a fraction, if it does.
pub open spec fn fraction_field(fields: Map<Seq<char>, Seq<char>>, key: Seq<char>) -> Option<
    Seq<char>,
> {
    if fields.contains_key(key) && number::is_fraction_text(fields[key]) {
        Some(fields[key])
    } else {
        None
    }
}

/// The name that a unit goes by, if it has one.
pub open spec fn unit_name(fields: Map<Seq<char>, Seq<char>>) -> Option<Seq<char>> {
    if fields.contains_key("name"@) && fields["name"@].len() > 0 {
        Some(fields["name"@])
    } else {
        None
    }
}

fn byte_of(raw: &StringHashMap<String>, key: &str) -> (value: u8)
    ensures
        value == byte_field(texts(raw@), key@),
{
    match raw.get(key) {
        Some(s) => match number::parse_unsigned_text(s.as_str(), 0xff) {
            Some(v) => v as u8,
            None => 0,
        },
        None => 0,
    }
}

fn fraction_of(raw: &StringHashMap<String>, key: &str) -> (value: Option<String>)
    ensures
        text::opt_text(value) == fraction_field(texts(raw@), key@),
{
    match raw.get(key) {
        Some(s) => if number::is_fraction(s.as_str()) {
            Some(s.clone())
        } else {
            None
        },
        None => None,
    }
}

fn text_or(raw: &StringHashMap<String>, key: &str, default: &str) -> (value: String)
    ensures
        value@ == field_or(texts(raw@), key@, default@),
{
    match raw.get(key) {
        Some(s) => s.clone(),
        None => default.to_owned(),
    }
}

/// Parsed `get_control_info` response. The raw map is retained so writes can
/// perform a read-modify-write that preserves fields we do not model.
pub struct ControlInfo {
    pub raw: StringHashMap<String>,
}

impl View for ControlInfo {
    type V = Map<Seq<char>, Seq<char>>;

    open spec fn view(&self) -> Map<Seq<char>, Seq<char>> {
        texts(self.raw@)
    }
}

/// Parsed `get_sensor_info` response.
pub struct SensorInfo {
    pub raw: StringHashMap<String>,
}

impl View for SensorInfo {
    type V = Map<Seq<char>, Seq<char>>;

    open spec fn view(&self) -> Map<Seq<char>, Seq<char>> {
        texts(self.raw@)
    }
}

/// Whether the fields of a unit say that it is on.
pub open spec fn power_field(fields: Map<Seq<char>, Seq<char>>) -> bool {
    fields.contains_key("pow"@) && fields["pow"@] == "1"@
}

impl ControlInfo {
    /// Whether the unit is on.
    pub fn power(&self) -> (on: bool)
        ensures
            on == power_field(self@),
    {
        match self.raw.get("pow") {
            Some(s) => text::same_text(s.as_str(), "1"),
            None => false,
        }
    }

    /// The operation mode.
    pub fn mode(&self) -> (m: u8)
        ensures
            m == byte_field(self@, "mode"@),
    {
        byte_of(&self.raw, "mode")
    }

    /// Target temperature, if the current mode exposes a numeric setpoint: the
    /// text of a number.
    pub fn target_temp(&self) -> (t: Option<String>)
        ensures
            text::opt_text(t) == fraction_field(self@, "stemp"@),
    {
        fraction_of(&self.raw, "stemp")
    }

    /// The fan-rate token.
    pub fn fan_rate(&self) -> (rate: String)
        ensures
            rate@ == field_or(self@, "f_rate"@, "A"@),
    {
        text_or(&self.raw, "f_rate", "A")
    }

    /// The fan direction.
    pub fn fan_dir(&self) -> (dir: u8)
        ensures
            dir == byte_field(self@, "f_dir"@),
    {
        byte_of(&self.raw, "f_dir")
    }
}

impl SensorInfo {
    /// Indoor temperature (`htemp`): the text of a number.
    pub fn indoor_temp(&self) -> (t: Option<String>)
        ensures
            text::opt_text(t) == fraction_field(self@, "htemp"@),
    {
        fraction_of(&self.raw, "htemp")
    }

    /// Outdoor temperature (`otemp`): the text of a number.
    pub fn outdoor_temp(&self) -> (t: Option<String>)
        ensures
            text::opt_text(t) == fraction_field(self@, "otemp"@),
    {
        fraction_of(&self.raw, "otemp")
    }
}

// --- Commands ---

/// A single field mutation to apply to a unit's control state.
#[derive(Debug)]
pub enum Command {
    Power(bool),
    Mode(u8),
    /// Target temperature in Celsius.
    Temperature(Single),
    /// Raw fan-rate token (`A`, `B`, or `3`..=`7`).
    FanRate(String),
    /// Fan direction / swing (`0` off .. `3` both axes).
    FanDir(u8),
}

impl Clone for Command {
    fn clone(&self) -> (copy: Command)
        ensures
            copy@ == self@,
    {
        match self {
            Command::Power(on) => Command::Power(*on),
            Command::Mode(m) => Command::Mode(*m),
            Command::Temperature(t) => Command::Temperature(*t),
            Command::FanRate(rate) => Command::FanRate(rate.clone()),
            Command::FanDir(dir) => Command::FanDir(*dir),
        }
    }
}

/// What a command says.
#[verifier::ext_equal]
pub enum CommandView {
    Power(bool),
    Mode(u8),
    Temperature(Single),
    FanRate(Seq<char>),
    FanDir(u8),
}

impl View for Command {
    type V = CommandView;

    open spec fn view(&self) -> CommandView {
        match *self {
            Command::Power(on) => CommandView::Power(on),
            Command::Mode(m) => CommandView::Mode(m),
            Command::Temperature(t) => CommandView::Temperature(t),
            Command::FanRate(rate) => CommandView::FanRate(rate@),
            Command::FanDir(dir) => CommandView::FanDir(dir),
        }
    }
}

/// The parameters that a unit wants with every write.
#[verifier::ext_equal]
pub struct Params {
    pub pow: Seq<char>,
    pub mode: Seq<char>,
    pub stemp: Seq<char>,
    pub shum: Seq<char>,
    pub f_rate: Seq<char>,
    pub f_dir: Seq<char>,
}

/// The parameters as a unit reports them, with defaults for what it leaves out.
pub open spec fn current_params(fields: Map<Seq<char>, Seq<char>>) -> Params {
    Params {
        pow: field_or(fields, "pow"@, "1"@),
        mode: field_or(fields, "mode"@, "3"@),
        stemp: field_or(fields, "stemp"@, "22.0"@),
        shum: field_or(fields, "shum"@, "0"@),
        f_rate: field_or(fields, "f_rate"@, "A"@),
        f_dir: field_or(fields, "f_dir"@, "0"@),
    }
}

/// The parameters after a command. A mode that works towards a setpoint gets a
/// valid one, and a valid humidity, where the unit comes from a mode without.
pub open spec fn commanded(params: Params, command: CommandView) -> Params {
    match command {
        CommandView::Power(on) => Params {
            pow: if on {
                "1"@
            } else {
                "0"@
            },
            ..params
        },
        CommandView::Mode(m) => Params {
            mode: number::decimal_text(m as nat),
            stemp: if mode::is_setpoint_mode(m) && !number::is_fraction_text(params.stemp) {
                "22.0"@
            } else {
                params.stemp
            },
            shum: if mode::is_setpoint_mode(m) && number::unsigned_value(
                params.shum,
                0xffff_ffff,
            ) is None {
                "0"@
            } else {
                params.shum
            },
            ..params
        },
        CommandView::Temperature(t) => Params { stemp: t.one_decimal_text(), ..params },
        CommandView::FanRate(rate) => Params { f_rate: rate, ..params },
        CommandView::FanDir(dir) => Params { f_dir: number::decimal_text(dir as nat), ..params },
    }
}

/// The request path that writes `params`.
pub open spec fn write_path(params: Params) -> Seq<char> {
    "/aircon/set_control_info?pow="@ + params.pow + "&mode="@ + params.mode + "&stemp="@
        + params.stemp + "&shum="@ + params.shum + "&f_rate="@ + params.f_rate + "&f_dir="@
        + params.f_dir
}

/// The HTTP/1.1 GET request for `path` to `host`.
pub open spec fn request_text(host: Seq<char>, path: Seq<char>) -> Seq<char> {
    "GET "@ + path + " HTTP/1.1\r\nHost: "@ + host
        + "\r\nAccept: */*\r\nConnection: close\r\n\r\n"@
}

/// A client bound to a single Daikin unit.
///
/// These adapters run a minimal, quirky HTTP server that rejects requests
/// (403) unless the `Host` header is sent in canonical case. Common HTTP client
/// libraries lowercase header names on HTTP/1.1, so the bridge speaks HTTP
/// directly over TCP to fully control the wire format.
#[derive(Debug)]
pub struct DaikinClient {
    pub host: String,
    pub port: u16,
    pub timeout_secs: u64,
}

impl Clone for DaikinClient {
    fn clone(&self) -> (copy: DaikinClient)
        ensures
            copy.host@ == self.host@,
            copy.port == self.port,
            copy.timeout_secs == self.timeout_secs,
    {
        DaikinClient {
            host: self.host.clone(),
            port: self.port,
            timeout_secs: self.timeout_secs,
        }
    }
}

impl DaikinClient {
    /// A client for the unit at `ip`.
    pub fn new(ip: &str) -> (r: Result<DaikinClient, DaikinError>)
        ensures
            r is Ok,
            r->Ok_0.host@ == ip@,
            r->Ok_0.port == 80,
            r->Ok_0.timeout_secs == 5,
    {
        Ok(DaikinClient { host: ip.to_owned(), port: 80, timeout_secs: 5 })
    }

    /// The HTTP/1.1 GET request for `path`, with a canonical-case `Host` header.
    pub fn request(&self, path: &str) -> (request: String)
        ensures
            request@ == request_text(self.host@, path@),
    {
        let mut request: String = "GET ".to_owned();
        request.append(path);
        request.append(" HTTP/1.1\r\nHost: ");
        request.append(self.host.as_str());
        request.append("\r\nAccept: */*\r\nConnection: close\r\n\r\n");
        request
    }

    /// The body of the reply to a request for `path`, given what came of the
    /// exchange.
    pub fn http_get(&self, path: &str, io: &Exchange) -> (r: Result<String, DaikinError>)
        ensures
            match body_of(self.host@, path@, io@) {
                Ok(body) => r is Ok && r->Ok_0@ == body,
                Err(e) => r is Err && r->Err_0@ == e,
            },
    {
        let raw = match io {
            Exchange::Reply { raw } => raw.as_slice(),
            Exchange::TimedOut { cause } => {
                return Err(
                    DaikinError::TimedOut {
                        host: self.host.clone(),
                        path: path.to_owned(),
                        cause: cause.clone(),
                    },
                );
            },
            Exchange::Failed { cause } => {
                return Err(
                    DaikinError::Io {
                        host: self.host.clone(),
                        path: path.to_owned(),
                        cause: cause.clone(),
                    },
                );
            },
        };
        let reply = encoding::from_utf8_lossy(raw);
        let chars = text::chars_of(reply.as_str());
        let all = chars.as_slice();
        assert(all@ == encoding::lossy_text(raw@));
        match find_blank_line(all) {
            None => Err(
                DaikinError::MalformedHttp { host: self.host.clone(), path: path.to_owned() },
            ),
            Some(end) => {
                proof {
                    let found = choose|i: int| head_ends_at(all@, i);
                    assert(head_ends_at(all@, end as int));
                    assert(found == end);
                }
                let head = slice_subrange(all, 0, end);
                assert(head@ == all@.take(end as int));
                let line_end = text::find(head, '\n');
                let line = slice_subrange(head, 0, line_end);
                assert(line@ == head@.take(line_end as int));
                let word = text::find_second_word(line);
                let code: u16 = match number::parse_unsigned(word, 0xffff) {
                    Some(code) => code as u16,
                    None => 0,
                };
                if code != 200 {
                    return Err(
                        DaikinError::Http { code, host: self.host.clone(), path: path.to_owned() },
                    );
                }
                let total: usize = all.len();
                let body = slice_subrange(all, end + 4, total);
                assert(body@ == all@.skip(end + 4));
                Ok(text::text_of(body))
            },
        }
    }

    /// The fields of the reply to a request for `path`, verifying `ret=OK`.
    pub fn get(&self, path: &str, io: &Exchange) -> (r: Result<StringHashMap<String>, DaikinError>)
        ensures
            fields_result(r) == outcome(self.host@, path@, io@),
    {
        let body = match self.http_get(path, io) {
            Ok(body) => body,
            Err(e) => {
                return Err(e);
            },
        };
        let map = parse_response(body.as_str());
        match map.get("ret") {
            None => Err(DaikinError::MalformedBody { path: path.to_owned(), body }),
            Some(ret) => if text::same_text(ret.as_str(), "OK") {
                Ok(map)
            } else {
                Err(DaikinError::Ret { ret: ret.clone(), path: path.to_owned() })
            },
        }
    }

    /// Where a unit reports its identity.
    pub fn basic_info_path() -> (path: &'static str)
        ensures
            path@ == "/common/basic_info"@,
    {
        "/common/basic_info"
    }

    /// Where a unit reports its control state.
    pub fn control_info_path() -> (path: &'static str)
        ensures
            path@ == "/aircon/get_control_info"@,
    {
        "/aircon/get_control_info"
    }

    /// Where a unit reports its sensors.
    pub fn sensor_info_path() -> (path: &'static str)
        ensures
            path@ == "/aircon/get_sensor_info"@,
    {
        "/aircon/get_sensor_info"
    }

    /// Reads the reply to `/common/basic_info` (device identity). Used to
    /// validate a newly added IP and to discover the device's own name.
    pub fn basic_info(&self, io: &Exchange) -> (r: Result<StringHashMap<String>, DaikinError>)
        ensures
            fields_result(r) == outcome(self.host@, "/common/basic_info"@, io@),
    {
        self.get(DaikinClient::basic_info_path(), io)
    }

    /// The human-readable name configured on the unit itself, if present.
    pub fn device_name(&self, io: &Exchange) -> (r: Result<Option<String>, DaikinError>)
        ensures
            match outcome(self.host@, "/common/basic_info"@, io@) {
                Ok(fields) => r is Ok && text::opt_text(r->Ok_0) == unit_name(fields),
                Err(e) => r is Err && r->Err_0@ == e,
            },
    {
        match self.basic_info(io) {
            Err(e) => Err(e),
            Ok(info) => match info.get("name") {
                Some(name) => if name.as_str().is_empty() {
                    Ok(None)
                } else {
                    Ok(Some(name.clone()))
                },
                None => Ok(None),
            },
        }
    }

    /// Reads the reply to `/aircon/get_control_info`.
    pub fn control_info(&self, io: &Exchange) -> (r: Result<ControlInfo, DaikinError>)
        ensures
            match outcome(self.host@, "/aircon/get_control_info"@, io@) {
                Ok(fields) => r is Ok && r->Ok_0@ == fields,
                Err(e) => r is Err && r->Err_0@ == e,
            },
    {
        match self.get(DaikinClient::control_info_path(), io) {
            Ok(map) => Ok(ControlInfo { raw: map }),
            Err(e) => Err(e),
        }
    }

    /// Reads the reply to `/aircon/get_sensor_info`.
    pub fn sensor_info(&self, io: &Exchange) -> (r: Result<SensorInfo, DaikinError>)
        ensures
            match outcome(self.host@, "/aircon/get_sensor_info"@, io@) {
                Ok(fields) => r is Ok && r->Ok_0@ == fields,
                Err(e) => r is Err && r->Err_0@ == e,
            },
    {
        match self.get(DaikinClient::sensor_info_path(), io) {
            Ok(map) => Ok(SensorInfo { raw: map }),
            Err(e) => Err(e),
        }
    }

    /// Applies a single field change: given what came of reading the control
    /// state of the unit, the request path that writes it back with the change,
    /// so that the full required parameter set is always sent.
    pub fn apply(&self, read: &Exchange, command: Command) -> (r: Result<String, DaikinError>)
        ensures
            match outcome(self.host@, "/aircon/get_control_info"@, read@) {
                Ok(fields) => r is Ok && r->Ok_0@ == write_path(
                    commanded(current_params(fields), command@),
                ),
                Err(e) => r is Err && r->Err_0@ == e,
            },
    {
        match self.control_info(read) {
            Ok(current) => Ok(DaikinClient::write_request(&current, command)),
            Err(e) => Err(e),
        }
    }

    /// Whether the unit accepted a write by the request path `path`, given what
    /// came of it.
    pub fn applied(&self, path: &str, io: &Exchange) -> (r: Result<(), DaikinError>)
        ensures
            match outcome(self.host@, path@, io@) {
                Ok(_) => r is Ok,
                Err(e) => r is Err && r->Err_0@ == e,
            },
    {
        match self.get(path, io) {
            Ok(_) => Ok(()),
            Err(e) => Err(e),
        }
    }

    /// The request path that writes the state `current` back with a single
    /// field changed.
    pub fn write_request(current: &ControlInfo, command: Command) -> (path: String)
        ensures
            path@ == write_path(commanded(current_params(current@), command@)),
    {
        let raw = &current.raw;
        let mut pow = text_or(raw, "pow", "1");
        let mut mode = text_or(raw, "mode", "3");
        let mut stemp = text_or(raw, "stemp", "22.0");
        let mut shum = text_or(raw, "shum", "0");
        let mut f_rate = text_or(raw, "f_rate", "A");
        let mut f_dir = text_or(raw, "f_dir", "0");
        match command {
            Command::Power(on) => {
                pow = if on {
                    "1".to_owned()
                } else {
                    "0".to_owned()
                };
            },
            Command::Mode(m) => {
                mode = number::to_decimal(m as u64);
                // Modes with a numeric setpoint need a valid `stemp`/`shum`;
                // coming from DRY/FAN (where they are "M"/"AUTO"), fall back to
                // sane defaults.
                if mode::has_setpoint(m) {
                    if !number::is_fraction(stemp.as_str()) {
                        stemp = "22.0".to_owned();
                    }
                    if number::parse_unsigned_text(shum.as_str(), 0xffff_ffff).is_none() {
                        shum = "0".to_owned();
                    }
                }
            },
            Command::Temperature(t) => {
                stemp = t.one_decimal();
            },
            Command::FanRate(rate) => {
                f_rate = rate;
            },
            Command::FanDir(dir) => {
                f_dir = number::to_decimal(dir as u64);
            },
        }
        let mut path: String = "/aircon/set_control_info?pow=".to_owned();
        path.append(pow.as_str());
        path.append("&mode=");
        path.append(mode.as_str());
        path.append("&stemp=");
        path.append(stemp.as_str());
        path.append("&shum=");
        path.append(shum.as_str());
        path.append("&f_rate=");
        path.append(f_rate.as_str());
        path.append("&f_dir=");
        path.append(f_dir.as_str());
        path
    }
}

} // verus!
