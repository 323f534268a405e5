//! Application configuration.
//!
//! The device list is owned by the configuration file but is rewritten whenever
//! devices are changed through the admin web UI, so the web UI is the source of
//! truth for devices at runtime.

use vstd::prelude::*;

use crate::number;
use crate::text;

verus! {

/// The first accessory ID that a device can have; the one below is the bridge.
pub const FIRST_DEVICE_ID: u64 = 2;

/// How many digits a pairing PIN has.
pub const PIN_LENGTH: usize = 8;

/// TCP port of the HAP server where none is configured.
pub fn default_hap_port() -> (port: u16)
    ensures
        port == 32000,
{
    32000
}

/// TCP port of the admin web UI where none is configured.
pub fn default_web_port() -> (port: u16)
    ensures
        port == 8090,
{
    8090
}

/// Pairing PIN where none is configured.
pub fn default_pin() -> (pin: String)
    ensures
        pin@ == "11122333"@,
{
    "11122333".to_owned()
}

/// Bridge name where none is configured.
pub fn default_name() -> (name: String)
    ensures
        name@ == "Daikin Bridge"@,
{
    "Daikin Bridge".to_owned()
}

/// Storage directory where none is configured.
pub fn default_storage_dir() -> (dir: String)
    ensures
        dir@ == "./data"@,
{
    "./data".to_owned()
}

/// Poll period where none is configured.
pub fn default_poll_secs() -> (secs: u64)
    ensures
        secs == 10,
{
    10
}

/// One managed unit.
#[derive(Debug)]
pub struct DeviceConfig {
    /// Stable HomeKit accessory ID (aid). Must be unique and >= 2 (aid 1 is the
    /// bridge). Kept stable so HomeKit room/pairing assignments survive edits.
    pub id: u64,
    /// Display name shown in the Home app.
    pub name: String,
    /// IPv4 address of the unit on the LAN.
    pub ip: String,
}

/// What a device's configuration says.
#[verifier::ext_equal]
pub struct DeviceConfigView {
    pub id: u64,
    pub name: Seq<char>,
    pub ip: Seq<char>,
}

impl View for DeviceConfig {
    type V = DeviceConfigView;

    open spec fn view(&self) -> DeviceConfigView {
        DeviceConfigView { id: self.id, name: self.name@, ip: self.ip@ }
    }
}

impl Clone for DeviceConfig {
    fn clone(&self) -> (copy: DeviceConfig)
        ensures
            copy@ == self@,
    {
        DeviceConfig { id: self.id, name: self.name.clone(), ip: self.ip.clone() }
    }
}

/// The configuration of the bridge.
#[derive(Debug)]
pub struct AppConfig {
    /// 8-digit HomeKit pairing PIN (digits only; formatting added when shown).
    pub pin: String,
    /// Display name of the HomeKit bridge.
    pub name: String,
    /// TCP port for the HAP server.
    pub hap_port: u16,
    /// TCP port for the admin web UI.
    pub web_port: u16,
    /// IP address to advertise and bind the HAP server on. When unset, the
    /// bridge uses the primary IPv4 address of the machine.
    pub host: Option<String>,
    /// Directory where HAP pairing state is persisted.
    pub storage_dir: String,
    /// How often (seconds) to poll each unit.
    pub poll_secs: u64,
    /// Managed Daikin units.
    pub devices: Vec<DeviceConfig>,
}

/// What the configuration says.
#[verifier::ext_equal]
pub struct AppConfigView {
    pub pin: Seq<char>,
    pub name: Seq<char>,
    pub hap_port: u16,
    pub web_port: u16,
    pub host: Option<Seq<char>>,
    pub storage_dir: Seq<char>,
    pub poll_secs: u64,
    pub devices: Seq<DeviceConfigView>,
}

impl View for AppConfig {
    type V = AppConfigView;

    open spec fn view(&self) -> AppConfigView {
        AppConfigView {
            pin: self.pin@,
            name: self.name@,
            hap_port: self.hap_port,
            web_port: self.web_port,
            host: text::opt_text(self.host),
            storage_dir: self.storage_dir@,
            poll_secs: self.poll_secs,
            devices: self.devices@.map_values(|d: DeviceConfig| d@),
        }
    }
}

/// A copy of `devices`.
pub fn clone_devices(devices: &Vec<DeviceConfig>) -> (copy: Vec<DeviceConfig>)
    ensures
        copy@.map_values(|d: DeviceConfig| d@) == devices@.map_values(|d: DeviceConfig| d@),
{
    let mut copy: Vec<DeviceConfig> = Vec::new();
    let mut i: usize = 0;
    while i < devices.len()
        invariant
            i <= devices@.len(),
            copy@.len() == i,
            forall|j: int| 0 <= j < i ==> (#[trigger] copy@[j])@ == devices@[j]@,
        decreases devices@.len() - i,
    {
        copy.push(devices[i].clone());
        i = i + 1;
    }
    copy
}

impl Clone for AppConfig {
    fn clone(&self) -> (copy: AppConfig)
        ensures
            copy@ == self@,
    {
        AppConfig {
            pin: self.pin.clone(),
            name: self.name.clone(),
            hap_port: self.hap_port,
            web_port: self.web_port,
            host: text::clone_opt(&self.host),
            storage_dir: self.storage_dir.clone(),
            poll_secs: self.poll_secs,
            devices: clone_devices(&self.devices),
        }
    }
}

/// Whether some device has the ID `id`.
pub open spec fn id_used(devices: Seq<DeviceConfigView>, id: u64) -> bool {
    exists|i: int| 0 <= i < devices.len() && (#[trigger] devices[i]).id == id
}

/// Whether no two devices share an ID and all IDs are those of devices.
pub open spec fn ids_valid(devices: Seq<DeviceConfigView>) -> bool {
    &&& forall|i: int|
        0 <= i < devices.len() ==> (#[trigger] devices[i]).id >= FIRST_DEVICE_ID
    &&& forall|i: int, j: int|
        0 <= i < j < devices.len() ==> (#[trigger] devices[i]).id != (#[trigger] devices[j]).id
}

/// Whether `id` is the smallest unused ID of a device.
pub open spec fn smallest_free_id(devices: Seq<DeviceConfigView>, id: u64) -> bool {
    &&& id >= FIRST_DEVICE_ID
    &&& !id_used(devices, id)
    &&& forall|k: u64| FIRST_DEVICE_ID <= k < id ==> id_used(devices, k)
}

/// The configuration of a bridge that has none yet.
pub open spec fn default_config() -> AppConfigView {
    AppConfigView {
        pin: "11122333"@,
        name: "Daikin Bridge"@,
        hap_port: 32000,
        web_port: 8090,
        host: None,
        storage_dir: "./data"@,
        poll_secs: 10,
        devices: seq![
            DeviceConfigView { id: 2, name: "Salone"@, ip: "10.0.0.142"@ },
            DeviceConfigView { id: 3, name: "Home Theater"@, ip: "10.0.0.247"@ },
        ],
    }
}

/// The digits among the characters of a PIN.
pub open spec fn pin_chars(pin: Seq<char>) -> Seq<char> {
    pin.filter(|c: char| number::is_digit(c))
}

/// Collects the digits among the characters of a PIN.
pub fn digits_of(pin: &str) -> (digits: Vec<char>)
    ensures
        digits@ == pin_chars(pin@),
        number::all_digits(digits@),
{
    let chars = text::chars_of(pin);
    let mut digits: Vec<char> = Vec::new();
    let mut i: usize = 0;
    let ghost is_digit = |c: char| number::is_digit(c);
    proof {
        reveal(Seq::filter);
        assert(chars@.take(0).filter(is_digit) == Seq::<char>::empty());
    }
    while i < chars.len()
        invariant
            i <= chars@.len(),
            digits@ == chars@.take(i as int).filter(is_digit),
            is_digit == (|c: char| number::is_digit(c)),
            number::all_digits(digits@),
        decreases chars@.len() - i,
    {
        let c = chars[i];
        proof {
            reveal(Seq::filter);
            assert(chars@.take(i + 1).drop_last() == chars@.take(i as int));
        }
        if '0' <= c && c <= '9' {
            digits.push(c);
        }
        i = i + 1;
    }
    assert(chars@.take(i as int) == chars@);
    digits
}

/// What `format!("{:?}", text)` gives for a string.
pub uninterp spec fn debug_text(text: Seq<char>) -> Seq<char>;

/// `format!` with `{:?}`: the text in quotes, with escapes. That the result is
/// a function of the text is all that is claimed of it.
#[verifier::external_body]
fn quoted(text: &str) -> (quoted: String)
    ensures
        quoted@ == debug_text(text@),
{
    format!("{:?}", text)
}

/// A PIN that does not have the digits it should have.
#[derive(Debug)]
pub struct PinError {
    pub pin: String,
}

impl PinError {
    /// The error in words.
    pub fn message(&self) -> (message: String)
        ensures
            message@ == "PIN must contain exactly 8 digits, got "@ + debug_text(self.pin@),
    {
        let mut message: String = "PIN must contain exactly 8 digits, got ".to_owned();
        message.append(quoted(self.pin.as_str()).as_str());
        message
    }
}

impl Default for AppConfig {
    fn default() -> (cfg: AppConfig)
        ensures
            cfg@ == default_config(),
    {
        let mut devices: Vec<DeviceConfig> = Vec::new();
        devices.push(
            DeviceConfig { id: 2, name: "Salone".to_owned(), ip: "10.0.0.142".to_owned() },
        );
        devices.push(
            DeviceConfig { id: 3, name: "Home Theater".to_owned(), ip: "10.0.0.247".to_owned() },
        );
        let cfg = AppConfig {
            pin: default_pin(),
            name: default_name(),
            hap_port: default_hap_port(),
            web_port: default_web_port(),
            host: None,
            storage_dir: default_storage_dir(),
            poll_secs: default_poll_secs(),
            devices,
        };
        assert(cfg@.devices == default_config().devices);
        cfg
    }
}

/// Numbers that are all used need as many devices.
proof fn lemma_used_ids_bound(devices: Seq<DeviceConfigView>, id: u64)
    requires
        FIRST_DEVICE_ID <= id,
        forall|k: u64| FIRST_DEVICE_ID <= k <= id ==> id_used(devices, k),
    ensures
        id - FIRST_DEVICE_ID < devices.len(),
{
    let ids = devices.map_values(|d: DeviceConfigView| d.id as int).to_set();
    let range = vstd::set_lib::set_int_range(FIRST_DEVICE_ID as int, id + 1);
    vstd::set_lib::lemma_int_range(FIRST_DEVICE_ID as int, id + 1);
    let seq_ids = devices.map_values(|d: DeviceConfigView| d.id as int);
    seq_ids.lemma_cardinality_of_set();
    vstd::seq_lib::seq_to_set_is_finite(seq_ids);
    assert forall|k: int| range.contains(k) implies ids.contains(k) by {
        let key = k as u64;
        assert(id_used(devices, key));
        let i = choose|i: int| 0 <= i < devices.len() && (#[trigger] devices[i]).id == key;
        assert(seq_ids[i] == k);
    }
    vstd::set_lib::lemma_len_subset(range, ids);
}

impl AppConfig {
    /// The configuration to run with, given the one that is stored, if any, and
    /// whether it has to be saved: a missing one is created with defaults.
    pub fn load_or_create(stored: Option<AppConfig>) -> (r: (AppConfig, bool))
        ensures
            match stored {
                Some(cfg) => r.0 == cfg && !r.1,
                None => r.0@ == default_config() && r.1,
            },
    {
        match stored {
            Some(cfg) => (cfg, false),
            None => (AppConfig::default(), true),
        }
    }

    /// Whether some device has the ID `id`.
    pub fn has_id(&self, id: u64) -> (used: bool)
        ensures
            used == id_used(self@.devices, id),
    {
        let mut i: usize = 0;
        while i < self.devices.len()
            invariant
                i <= self.devices@.len(),
                forall|j: int| 0 <= j < i ==> (#[trigger] self@.devices[j]).id != id,
            decreases self.devices@.len() - i,
        {
            if self.devices[i].id == id {
                assert(self@.devices[i as int].id == id);
                return true;
            }
            i = i + 1;
        }
        false
    }

    /// The smallest unused accessory ID (>= 2).
    pub fn next_device_id(&self) -> (id: u64)
        requires
            self@.devices.len() < u64::MAX - 1,
        ensures
            smallest_free_id(self@.devices, id),
    {
        let mut id: u64 = FIRST_DEVICE_ID;
        while self.has_id(id)
            invariant
                id >= FIRST_DEVICE_ID,
                self@.devices.len() < u64::MAX - 1,
                forall|k: u64| FIRST_DEVICE_ID <= k < id ==> id_used(self@.devices, k),
            decreases u64::MAX - id,
        {
            proof {
                lemma_used_ids_bound(self@.devices, id);
            }
            id = id + 1;
        }
        id
    }

    /// The PIN as the eight digits that HAP expects.
    pub fn pin_digits(&self) -> (r: Result<[u8; 8], PinError>)
        ensures
            match r {
                Ok(digits) => {
                    &&& pin_chars(self@.pin).len() == PIN_LENGTH
                    &&& forall|i: int|
                        0 <= i < PIN_LENGTH ==> #[trigger] digits@[i] == number::digit_value(
                            pin_chars(self@.pin)[i],
                        )
                },
                Err(e) => pin_chars(self@.pin).len() != PIN_LENGTH && e.pin@ == self@.pin,
            },
    {
        let digits = digits_of(self.pin.as_str());
        if digits.len() != PIN_LENGTH {
            return Err(PinError { pin: self.pin.clone() });
        }
        let mut values: [u8; 8] = [0; 8];
        let mut i: usize = 0;
        while i < PIN_LENGTH
            invariant
                i <= PIN_LENGTH,
                digits@.len() == PIN_LENGTH,
                digits@ == pin_chars(self@.pin),
                number::all_digits(digits@),
                forall|j: int|
                    0 <= j < i ==> #[trigger] values@[j] == number::digit_value(digits@[j]),
            decreases PIN_LENGTH - i,
        {
            let c = digits[i];
            assert(number::is_digit(digits@[i as int]));
            values[i] = (c as u32 - 48) as u8;
            i = i + 1;
        }
        Ok(values)
    }
}

// --- Laws ---

/// A new device under the smallest unused ID keeps the IDs valid.
pub proof fn law_next_id_keeps_ids_valid(
    devices: Seq<DeviceConfigView>,
    device: DeviceConfigView,
)
    requires
        ids_valid(devices),
        smallest_free_id(devices, device.id),
    ensures
        ids_valid(devices.push(device)),
{
    let more = devices.push(device);
    assert forall|i: int, j: int| 0 <= i < j < more.len() implies (#[trigger] more[i]).id != (
    #[trigger] more[j]).id by {
        if j == devices.len() {
            assert(more[i] == devices[i]);
        }
    }
}

/// There is only one smallest unused ID.
pub proof fn law_next_id_is_unique(devices: Seq<DeviceConfigView>, a: u64, b: u64)
    requires
        smallest_free_id(devices, a),
        smallest_free_id(devices, b),
    ensures
        a == b,
{
}

/// A PIN of digits alone is its own digits.
pub proof fn law_digits_are_kept(pin: Seq<char>)
    requires
        number::all_digits(pin),
    ensures
        pin_chars(pin) == pin,
    decreases pin.len(),
{
    reveal(Seq::filter);
    if pin.len() > 0 {
        let rest = pin.drop_last();
        assert forall|i: int| 0 <= i < rest.len() implies number::is_digit(#[trigger] rest[i]) by {
            assert(rest[i] == pin[i]);
        }
        law_digits_are_kept(rest);
        assert(number::is_digit(pin[pin.len() - 1]));
        assert(pin == rest.push(pin.last()));
    }
}

/// The ID of a new device is not that of any other and not that of the bridge;
/// no smaller one would do.
pub proof fn law_next_id_is_the_smallest(devices: Seq<DeviceConfigView>, id: u64, other: u64)
    requires
        smallest_free_id(devices, id),
    ensures
        id >= 2,
        forall|i: int| 0 <= i < devices.len() ==> (#[trigger] devices[i]).id != id,
        other >= 2 && (forall|i: int| 0 <= i < devices.len() ==> (#[trigger] devices[i]).id
            != other) ==> id <= other,
{
    if other >= 2 && other < id {
        assert(id_used(devices, other));
    }
}

/// IDs are valid where each device has one of its own, from 2 on.
pub proof fn law_valid_ids(devices: Seq<DeviceConfigView>, i: int, j: int)
    requires
        ids_valid(devices),
        0 <= i < devices.len(),
        0 <= j < devices.len(),
    ensures
        devices[i].id >= 2,
        devices[i].id == devices[j].id ==> i == j,
{
}

} // verus!
