//! How the bridge comes up: which HomeKit identity it takes on, and which
//! address it advertises.

use vstd::prelude::*;

use crate::config::{AppConfig, DeviceConfigView};
use crate::hk::runtime::AccessoryInfo;
use crate::number;

verus! {

// --- Identity ---

/// The accessory ID of the bridge itself.
pub const BRIDGE_ID: u64 = 1;

/// Describes the accessory that stands for the bridge.
pub fn bridge_accessory(cfg: &AppConfig) -> (info: AccessoryInfo)
    ensures
        info.manufacturer@ == "daikin-homekit"@,
        info.model@ == "bridge"@,
        info.name@ == cfg@.name,
        info.serial_number@ == "daikin-homekit-bridge"@,
{
    AccessoryInfo {
        manufacturer: "daikin-homekit".to_owned(),
        model: "bridge".to_owned(),
        name: cfg.name.clone(),
        serial_number: "daikin-homekit-bridge".to_owned(),
    }
}

/// What to do about the HomeKit identity (device ID and key pair) of the
/// bridge.
#[derive(Debug)]
pub enum IdentityPlan {
    /// Keep the stored one, under a new configuration number.
    Reuse { configuration_number: u64 },
    /// There is one that cannot be read: do not start.
    Refuse { message: String },
    /// There is none: make a new one.
    Generate,
}

/// What a plan says.
#[verifier::ext_equal]
pub enum IdentityPlanView {
    Reuse { configuration_number: u64 },
    Refuse { message: Seq<char> },
    Generate,
}

impl View for IdentityPlan {
    type V = IdentityPlanView;

    open spec fn view(&self) -> IdentityPlanView {
        match *self {
            IdentityPlan::Reuse { configuration_number } => IdentityPlanView::Reuse {
                configuration_number,
            },
            IdentityPlan::Refuse { message } => IdentityPlanView::Refuse { message: message@ },
            IdentityPlan::Generate => IdentityPlanView::Generate,
        }
    }
}

/// Why the bridge does not start over a stored identity that cannot be read.
pub open spec fn refusal_text(file: Seq<char>, cause: Seq<char>, dir: Seq<char>) -> Seq<char> {
    file + " exists but could not be loaded ("@ + cause
        + "). Refusing to start: generating a new identity here would invalidate the existing pairings in "@
        + dir
        + "/pairings and every controller would show \"No Response\". Restore the file from a backup, or delete it to start fresh and re-pair the bridge in the Home app."@
}

/// The configuration number after `n`.
pub open spec fn next_number(n: u64) -> u64 {
    if n == u64::MAX {
        0
    } else {
        (n + 1) as u64
    }
}

/// What to do about the identity, given the configuration number that was
/// loaded or why none could be.
pub open spec fn identity_plan_of(
    loaded: Result<u64, Seq<char>>,
    existed: bool,
    file: Seq<char>,
    dir: Seq<char>,
) -> IdentityPlanView {
    match loaded {
        Ok(n) => IdentityPlanView::Reuse { configuration_number: next_number(n) },
        Err(cause) => if existed {
            IdentityPlanView::Refuse { message: refusal_text(file, cause, dir) }
        } else {
            IdentityPlanView::Generate
        },
    }
}

/// Decides what to do about the HomeKit identity of the bridge. `loaded` is the
/// configuration number of the stored identity, or why it could not be loaded;
/// `existed` is whether there is a stored one, in `file` under `dir`.
///
/// The configuration number grows with every start so that controllers re-read
/// the accessories, which may have changed.
pub fn identity_plan(
    loaded: Result<u64, String>,
    existed: bool,
    file: &str,
    dir: &str,
) -> (plan: IdentityPlan)
    ensures
        plan@ == identity_plan_of(
            match loaded {
                Ok(n) => Ok(n),
                Err(cause) => Err(cause@),
            },
            existed,
            file@,
            dir@,
        ),
{
    match loaded {
        Ok(n) => {
            let configuration_number: u64 = if n == u64::MAX {
                0
            } else {
                n + 1
            };
            IdentityPlan::Reuse { configuration_number }
        },
        Err(cause) => if existed {
            let mut message: String = file.to_owned();
            message.append(" exists but could not be loaded (");
            message.append(cause.as_str());
            message.append(
                "). Refusing to start: generating a new identity here would invalidate the existing pairings in ",
            );
            message.append(dir);
            message.append(
                "/pairings and every controller would show \"No Response\". Restore the file from a backup, or delete it to start fresh and re-pair the bridge in the Home app.",
            );
            IdentityPlan::Refuse { message }
        } else {
            IdentityPlan::Generate
        },
    }
}

/// A stored identity is never replaced by a new one: it is reused, or the
/// bridge does not start.
pub proof fn law_stored_identity_is_never_replaced(
    loaded: Result<u64, Seq<char>>,
    existed: bool,
    file: Seq<char>,
    dir: Seq<char>,
)
    ensures
        identity_plan_of(loaded, existed, file, dir) is Generate <==> loaded is Err && !existed,
        identity_plan_of(loaded, existed, file, dir) is Reuse <==> loaded is Ok,
{
}

/// Every start is under another configuration number than the last.
pub proof fn law_starts_are_told_apart(n: u64)
    ensures
        next_number(n) != n,
        n < u64::MAX ==> next_number(n) == n + 1,
{
}

// --- Address ---

/// An IP address.
#[derive(Debug, Clone, Copy, PartialEq, Eq, Structural)]
pub enum HostAddr {
    /// The four bytes of an IPv4 address.
    V4 { a: u8, b: u8, c: u8, d: u8 },
    /// The bits of an IPv6 address.
    V6 { bits: u128 },
}

/// The address of the machine for itself.
pub open spec fn localhost() -> HostAddr {
    HostAddr::V4 { a: 127, b: 0, c: 0, d: 1 }
}

/// Whether the units, which live on the IPv4 LAN, may reach an address.
pub open spec fn is_lan(host: HostAddr) -> bool {
    match host {
        HostAddr::V4 { a, .. } => a != 127,
        HostAddr::V6 { .. } => false,
    }
}

/// The address to advertise: the configured one, else the one that the machine
/// reaches the units from, else its own for itself.
pub open spec fn chosen_host(
    configured: Option<HostAddr>,
    detected: Option<HostAddr>,
) -> HostAddr {
    match configured {
        Some(host) => host,
        None => match detected {
            Some(host) if is_lan(host) => host,
            _ => localhost(),
        },
    }
}

/// Chooses the address to advertise.
pub fn choose_host(configured: Option<HostAddr>, detected: Option<HostAddr>) -> (host: HostAddr)
    ensures
        host == chosen_host(configured, detected),
{
    if let Some(host) = configured {
        return host;
    }
    if let Some(host) = detected {
        if let HostAddr::V4 { a, .. } = host {
            if a != 127 {
                return host;
            }
        }
    }
    HostAddr::V4 { a: 127, b: 0, c: 0, d: 1 }
}

/// The socket address of the first unit, or of an address on the LAN where
/// there is none.
pub open spec fn route_text(devices: Seq<DeviceConfigView>) -> Seq<char> {
    if devices.len() > 0 {
        devices[0].ip + ":80"@
    } else {
        "10.255.255.255:80"@
    }
}

/// The socket address that the machine is asked to find a route to: that of the
/// first unit, or of an address on the LAN where there is none.
pub fn route_target(cfg: &AppConfig) -> (target: String)
    ensures
        target@ == route_text(cfg@.devices),
{
    if cfg.devices.len() > 0 {
        let mut target: String = cfg.devices[0].ip.clone();
        target.append(":80");
        target
    } else {
        "10.255.255.255:80".to_owned()
    }
}

/// Where no address is configured, an IPv4 address is advertised; a detected
/// address on the LAN always is the one.
pub proof fn law_advertised_host(detected: Option<HostAddr>)
    ensures
        chosen_host(None, detected) is V4,
        detected matches Some(host) && is_lan(host) ==> chosen_host(None, detected) == detected->0,
        !is_lan(chosen_host(None, detected)) ==> chosen_host(None, detected) == localhost(),
{
}

// --- What is logged ---

/// What is said when a bridge of that name starts.
pub open spec fn starting_text(name: Seq<char>) -> Seq<char> {
    "starting Daikin HomeKit Bridge \""@ + name + "\""@
}

/// A port as it follows a host.
pub open spec fn port_text(port: u16) -> Seq<char> {
    ":"@ + number::decimal_text(port as nat)
}

/// The message that the bridge starts.
pub fn starting_message(cfg: &AppConfig) -> (message: String)
    ensures
        message@ == starting_text(cfg@.name),
{
    let mut message: String = "starting Daikin HomeKit Bridge \"".to_owned();
    message.append(cfg.name.as_str());
    message.append("\"");
    message
}

/// Where the web server listens.
pub fn web_addr(cfg: &AppConfig) -> (addr: String)
    ensures
        addr@ == "0.0.0.0"@ + port_text(cfg@.web_port),
{
    let mut addr: String = "0.0.0.0".to_owned();
    addr.append(":");
    number::push_decimal(&mut addr, cfg.web_port as u128);
    addr
}

/// The message that the web UI is up, on a host by that name.
pub fn web_message(host: &str, cfg: &AppConfig) -> (message: String)
    ensures
        message@ == "admin web UI on http://"@ + host@ + port_text(cfg@.web_port),
{
    let mut message: String = "admin web UI on http://".to_owned();
    message.append(host);
    message.append(":");
    number::push_decimal(&mut message, cfg.web_port as u128);
    message
}

/// The message that the bridge is up, on a host by that name.
pub fn listening_message(host: &str, cfg: &AppConfig) -> (message: String)
    ensures
        message@ == "HomeKit bridge listening on "@ + host@ + port_text(cfg@.hap_port)
            + " — pair using the PIN in config.toml"@,
{
    let mut message: String = "HomeKit bridge listening on ".to_owned();
    message.append(host);
    message.append(":");
    number::push_decimal(&mut message, cfg.hap_port as u128);
    message.append(" — pair using the PIN in config.toml");
    message
}

/// What is said at the start names the bridge, and a port is the number that
/// its digits spell.
pub proof fn law_start_in_words(name: Seq<char>, port: u16)
    ensures
        starting_text(name) == "starting Daikin HomeKit Bridge \""@ + name + "\""@,
        port_text(port).len() > 1,
        port_text(port)[0] == ':',
        number::all_digits(port_text(port).skip(1)),
        number::digits_value(port_text(port).skip(1)) == port,
        port_text(port).len() > 2 ==> port_text(port)[1] != '0',
{
    reveal_strlit(":");
    assert(port_text(port).skip(1) == number::decimal_text(port as nat));
    number::lemma_decimal_text(port as nat);
    number::laws::law_decimal_text_has_no_leading_zero(port as nat);
}

/// A configured address is advertised whatever was detected. Without one, a
/// detected IPv4 address is, unless it is one of the machine for itself, and
/// 127.0.0.1 in all other cases.
pub proof fn law_host_is_chosen(
    configured: HostAddr,
    detected: Option<HostAddr>,
    a: u8,
    b: u8,
    c: u8,
    d: u8,
    bits: u128,
)
    ensures
        chosen_host(Some(configured), detected) == configured,
        a != 127 ==> chosen_host(None, Some(HostAddr::V4 { a, b, c, d })) == (HostAddr::V4 {
            a,
            b,
            c,
            d,
        }),
        a == 127 ==> chosen_host(None, Some(HostAddr::V4 { a, b, c, d })) == (HostAddr::V4 {
            a: 127,
            b: 0,
            c: 0,
            d: 1,
        }),
        chosen_host(None, Some(HostAddr::V6 { bits })) == (HostAddr::V4 {
            a: 127,
            b: 0,
            c: 0,
            d: 1,
        }),
        chosen_host(None, None) == (HostAddr::V4 { a: 127, b: 0, c: 0, d: 1 }),
{
}

/// The route that is looked for is that to the first unit, on the port for
/// HTTP, whatever other units there are.
pub proof fn law_route_goes_to_the_first_unit(
    first: DeviceConfigView,
    others: Seq<DeviceConfigView>,
)
    ensures
        route_text(seq![first] + others) == first.ip + ":80"@,
        route_text(Seq::empty()) == "10.255.255.255:80"@,
{
}

/// A bridge that does not start names the file and the cause, and where the
/// pairings are.
pub proof fn law_refusal_in_words(file: Seq<char>, cause: Seq<char>, dir: Seq<char>)
    ensures
        refusal_text(file, cause, dir) == file + " exists but could not be loaded ("@ + cause
            + "). Refusing to start: generating a new identity here would invalidate the existing pairings in "@
            + dir
            + "/pairings and every controller would show \"No Response\". Restore the file from a backup, or delete it to start fresh and re-pair the bridge in the Home app."@,
{
}

/// A reused identity gets the number after the one it had; a refusal is the one
/// for the file, the cause and the directory.
pub proof fn law_identity_plans(n: u64, cause: Seq<char>, existed: bool, file: Seq<char>, dir: Seq<char>)
    ensures
        identity_plan_of(Ok(n), existed, file, dir) matches IdentityPlanView::Reuse {
            configuration_number,
        } && (configuration_number == n + 1 || (n == u64::MAX && configuration_number == 0)),
        identity_plan_of(Err(cause), true, file, dir) matches IdentityPlanView::Refuse { message }
            && message == refusal_text(file, cause, dir),
        identity_plan_of(Err(cause), false, file, dir) is Generate,
{
}

} // verus!
