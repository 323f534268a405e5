//! The admin web service (no auth, intended for LAN-only use): how its requests
//! are read and answered.

use vstd::prelude::*;

use crate::activity;
use crate::activity::{Activity, Event};
use crate::text;

verus! {

/// Status of an answer with content.
pub const OK: u16 = 200;

/// Status of an answer with a new device.
pub const CREATED: u16 = 201;

/// Status of an answer without content.
pub const NO_CONTENT: u16 = 204;

/// Status of a refusal.
pub const BAD_REQUEST: u16 = 400;

/// How many events are shown where no number is asked for.
pub const DEFAULT_LIMIT: usize = 200;

/// How many events are shown at most.
pub const MAX_LIMIT: usize = 1000;

/// What can be asked of the service.
#[derive(Debug, Clone, Copy)]
pub enum Action {
    /// The page.
    Index,
    /// Bridge-level info.
    Info,
    /// The devices.
    ListDevices,
    /// A new device.
    AddDevice,
    /// A change of a device's address or name.
    EditDevice,
    /// The removal of a device.
    RemoveDevice,
    /// A control request for a device.
    Command,
    /// The activity log.
    Activity,
}

/// The status of the answer to an action that was done.
pub open spec fn done_status(action: Action) -> u16 {
    match action {
        Action::AddDevice => CREATED,
        Action::RemoveDevice | Action::Command => NO_CONTENT,
        _ => OK,
    }
}

/// The status of the answer to an action that was done.
pub fn status_of(action: Action) -> (status: u16)
    ensures
        status == done_status(action),
{
    match action {
        Action::AddDevice => CREATED,
        Action::RemoveDevice => NO_CONTENT,
        Action::Command => NO_CONTENT,
        _ => OK,
    }
}

/// The answer to a request that was refused.
#[derive(Debug)]
pub struct Refusal {
    pub status: u16,
    /// Why it was refused.
    pub error: String,
}

/// Answers a request that was refused.
pub fn refuse(error: String) -> (refusal: Refusal)
    ensures
        refusal.status == BAD_REQUEST,
        refusal.error@ == error@,
{
    Refusal { status: BAD_REQUEST, error }
}

/// A refusal is never answered like an action that was done.
pub proof fn law_refusals_are_told_apart(action: Action)
    ensures
        done_status(action) != BAD_REQUEST,
        200 <= done_status(action) < 300,
{
}

/// A request to add a device.
#[derive(Debug)]
pub struct AddReq {
    pub ip: String,
    pub name: Option<String>,
}

impl AddReq {
    /// The request without white space around the address.
    pub fn trimmed(self) -> (req: AddReq)
        ensures
            req.ip@ == text::trimmed(self.ip@),
            req.name == self.name,
    {
        AddReq { ip: text::trim_text(self.ip.as_str()), name: self.name }
    }
}

/// A request to change a device.
#[derive(Debug)]
pub struct EditReq {
    pub ip: Option<String>,
    pub name: Option<String>,
}

impl EditReq {
    /// The request without white space around the address.
    pub fn trimmed(self) -> (req: EditReq)
        ensures
            text::opt_text(req.ip) == (match text::opt_text(self.ip) {
                Some(ip) => Some(text::trimmed(ip)),
                None => None,
            }),
            req.name == self.name,
    {
        let ip: Option<String> = match self.ip {
            Some(ip) => Some(text::trim_text(ip.as_str())),
            None => None,
        };
        EditReq { ip, name: self.name }
    }
}

/// How many events a request for the activity log is shown.
pub open spec fn shown_limit(limit: Option<usize>) -> usize {
    match limit {
        Some(n) if n > MAX_LIMIT => MAX_LIMIT,
        Some(n) => n,
        None => DEFAULT_LIMIT,
    }
}

/// How many events a request for the activity log is shown.
pub fn activity_limit(limit: Option<usize>) -> (n: usize)
    ensures
        n == shown_limit(limit),
{
    match limit {
        Some(n) => if n > MAX_LIMIT {
            MAX_LIMIT
        } else {
            n
        },
        None => DEFAULT_LIMIT,
    }
}

/// Answers a request for the activity log: the most recent events, oldest
/// first.
pub fn recent_activity(log: &Activity, limit: Option<usize>) -> (events: Vec<Event>)
    ensures
        events@.map_values(|e: Event| e@) == activity::latest(
            log@.events,
            shown_limit(limit) as nat,
        ),
{
    log.recent(activity_limit(limit))
}

/// As many events are shown as are asked for, but no more than 1000; 200 where
/// no number is asked for.
pub proof fn law_limits(limit: Option<usize>)
    ensures
        shown_limit(limit) <= 1000,
        limit is None ==> shown_limit(limit) == 200,
        limit matches Some(n) ==> (shown_limit(limit) == n || (n > 1000 && shown_limit(limit)
            == 1000)),
{
}

/// An addition is answered as such, a removal or a command without content, and
/// everything else with content.
pub proof fn law_answers(action: Action)
    ensures
        done_status(action) == 201 <==> action is AddDevice,
        done_status(action) == 204 <==> action is RemoveDevice || action is Command,
        done_status(action) == 200 <==> !(action is AddDevice || action is RemoveDevice
            || action is Command),
        BAD_REQUEST == 400,
{
}

} // verus!
