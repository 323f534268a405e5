//! What holds of the bridge's devices and requests as a whole.

use vstd::prelude::*;

use super::manager;
use super::manager::{CommandPlanView, CommandStepView, ManagerView};
use super::{DeviceCommandView, ManagerErrorView};
use crate::activity::NoticeView;
use crate::config;
use crate::config::DeviceConfigView;
use crate::daikin;
use crate::daikin::mode as dmode;
use crate::daikin::CommandView;
use crate::hk;
use crate::number;
use crate::single;
use crate::text;

verus! {

// --- Pairing PIN ---

proof fn lemma_digits_of_join(a: Seq<char>, b: Seq<char>)
    ensures
        config::pin_chars(a + b) == config::pin_chars(a) + config::pin_chars(b),
    decreases b.len(),
{
    reveal(Seq::filter);
    if b.len() == 0 {
        assert(a + b == a);
        assert(config::pin_chars(a) + config::pin_chars(b) == config::pin_chars(a));
    } else {
        assert((a + b).drop_last() == a + b.drop_last());
        lemma_digits_of_join(a, b.drop_last());
        assert(config::pin_chars(a + b) == config::pin_chars(a) + config::pin_chars(b));
    }
}

proof fn lemma_pin_chars_are_digits(pin: Seq<char>)
    ensures
        number::all_digits(config::pin_chars(pin)),
    decreases pin.len(),
{
    reveal(Seq::filter);
    if pin.len() > 0 {
        lemma_pin_chars_are_digits(pin.drop_last());
        assert(number::all_digits(config::pin_chars(pin)));
    }
}

/// A PIN is shown with the digits that it has: reading the shown PIN gives the
/// same digits.
pub proof fn law_shown_pin_keeps_the_digits(pin: Seq<char>)
    ensures
        config::pin_chars(super::shown_pin(pin)) == config::pin_chars(pin),
{
    let digits = config::pin_chars(pin);
    lemma_pin_chars_are_digits(pin);
    if digits.len() == 8 {
        let a = digits.subrange(0, 3);
        let b = digits.subrange(3, 5);
        let c = digits.subrange(5, 8);
        let dash = seq!['-'];
        assert(config::pin_chars(dash) == Seq::<char>::empty()) by {
            reveal(Seq::filter);
            assert(dash.drop_last() == Seq::<char>::empty());
            assert(config::pin_chars(dash.drop_last()) == Seq::<char>::empty());
            assert(!number::is_digit(dash.last()));
        }
        lemma_digits_of_join(a + dash + b + dash, c);
        lemma_digits_of_join(a + dash + b, dash);
        lemma_digits_of_join(a + dash, b);
        lemma_digits_of_join(a, dash);
        config::law_digits_are_kept(a);
        config::law_digits_are_kept(b);
        config::law_digits_are_kept(c);
        assert(a + b + c == digits);
        assert(config::pin_chars(super::shown_pin(pin)) == a + b + c);
    } else {
        config::law_digits_are_kept(digits);
    }
}

// --- Requests ---

/// A request amounts to one command for each field that is present, and says
/// one thing of each.
pub proof fn law_one_command_for_each_field(cmd: DeviceCommandView)
    ensures
        cmd.commands().len() == cmd.summary().len(),
        cmd.commands().len() == (if cmd.power is Some {
            1int
        } else {
            0
        }) + (if cmd.mode is Some {
            1int
        } else {
            0
        }) + (if cmd.temperature is Some {
            1int
        } else {
            0
        }) + (if cmd.fan is Some {
            1int
        } else {
            0
        }) + (if cmd.swing is Some {
            1int
        } else {
            0
        }),
        cmd.is_empty() <==> cmd.commands().len() == 0,
{
}

/// Whatever temperature the web UI asks for, the unit is sent a safe setpoint:
/// from 10 to 30 degrees along with heating, from 16 to 32 along with cooling,
/// and from 10 to 32 otherwise.
pub proof fn law_web_setpoints_are_safe(cmd: DeviceCommandView)
    requires
        cmd.temperature matches Some(t) ==> !t.nan(),
    ensures
        forall|i: int|
            0 <= i < cmd.commands().len() ==> (#[trigger] cmd.commands()[i] matches
                CommandView::Temperature(s) ==> {
                &&& 10 * single::one() <= s.units() <= 32 * single::one()
                &&& super::asked_mode(cmd.mode) == Some(dmode::HEAT) ==> s.units() <= 30
                    * single::one()
                &&& super::asked_mode(cmd.mode) == Some(dmode::COOL) ==> 16 * single::one()
                    <= s.units()
            }),
{
    match cmd.temperature {
        Some(t) => {
            hk::laws::law_setpoints_are_safe(t);
        },
        None => {},
    }
}

/// The commands that are sent for a request from `done` on, and what comes of
/// it, where the unit answers the command at each position as `answers` says.
pub open spec fn run(
    plan: CommandPlanView,
    done: nat,
    last: Result<(), Seq<char>>,
    answers: Seq<Result<(), Seq<char>>>,
) -> (Seq<CommandView>, Result<NoticeView, ManagerErrorView>)
    decreases plan.commands.len() + 1 - done,
{
    match plan.step(done, last) {
        CommandStepView::Send(command) => {
            let rest = run(plan, done + 1, answers[done as int], answers);
            (seq![command] + rest.0, rest.1)
        },
        CommandStepView::Stop(e) => (Seq::empty(), Err(e)),
        CommandStepView::Done(notice) => (Seq::empty(), Ok(notice)),
    }
}

proof fn lemma_run(
    plan: CommandPlanView,
    done: nat,
    failed: nat,
    answers: Seq<Result<(), Seq<char>>>,
)
    requires
        done <= failed <= plan.commands.len(),
        forall|i: int| 0 <= i < failed ==> #[trigger] answers[i] is Ok,
        failed < plan.commands.len() ==> answers[failed as int] is Err,
    ensures
        run(plan, done, Ok(()), answers) == (if failed < plan.commands.len() {
            (
                plan.commands.subrange(done as int, failed as int + 1),
                Err(
                    ManagerErrorView::NotApplied {
                        name: plan.name,
                        cause: answers[failed as int]->Err_0,
                    },
                ),
            )
        } else {
            (plan.commands.skip(done as int), Ok(plan.notice))
        }),
    decreases failed - done,
{
    reveal_with_fuel(run, 2);
    if done < failed {
        lemma_run(plan, done + 1, failed, answers);
        assert(answers[done as int] is Ok);
        assert(answers[done as int]->Ok_0 == ());
        let rest = run(plan, done + 1, Ok(()), answers).0;
        if failed < plan.commands.len() {
            assert(seq![plan.commands[done as int]] + rest == plan.commands.subrange(
                done as int,
                failed as int + 1,
            ));
        } else {
            assert(seq![plan.commands[done as int]] + rest == plan.commands.skip(done as int));
        }
    } else if failed < plan.commands.len() {
        assert(seq![plan.commands[done as int]] + Seq::<CommandView>::empty()
            == plan.commands.subrange(done as int, failed as int + 1));
    } else {
        assert(plan.commands.skip(done as int) == Seq::<CommandView>::empty());
    }
}

/// A unit that accepts every command is sent all of them, in order, and the
/// request is logged.
pub proof fn law_accepted_request_is_logged(
    plan: CommandPlanView,
    answers: Seq<Result<(), Seq<char>>>,
)
    requires
        forall|i: int| 0 <= i < plan.commands.len() ==> #[trigger] answers[i] is Ok,
    ensures
        run(plan, 0, Ok(()), answers) == (plan.commands, Ok::<NoticeView, ManagerErrorView>(
            plan.notice,
        )),
{
    lemma_run(plan, 0, plan.commands.len(), answers);
    assert(plan.commands.skip(0) == plan.commands);
}

/// The first command that the unit does not accept ends the request: no later
/// one is sent, and the request is refused with the cause.
pub proof fn law_first_failure_ends_the_request(
    plan: CommandPlanView,
    answers: Seq<Result<(), Seq<char>>>,
    failed: nat,
)
    requires
        failed < plan.commands.len(),
        forall|i: int| 0 <= i < failed ==> #[trigger] answers[i] is Ok,
        answers[failed as int] is Err,
    ensures
        run(plan, 0, Ok(()), answers) == (
            plan.commands.take(failed as int + 1),
            Err::<NoticeView, ManagerErrorView>(
                ManagerErrorView::NotApplied {
                    name: plan.name,
                    cause: answers[failed as int]->Err_0,
                },
            ),
        ),
{
    lemma_run(plan, 0, failed, answers);
    assert(plan.commands.subrange(0, failed as int + 1) == plan.commands.take(failed as int + 1));
}

// --- The configured devices ---

proof fn lemma_first_with_id(devices: Seq<DeviceConfigView>, id: u64)
    ensures
        manager::first_with_id(devices, id) <= devices.len(),
        manager::first_with_id(devices, id) < devices.len() <==> config::id_used(devices, id),
        manager::first_with_id(devices, id) < devices.len()
            ==> devices[manager::first_with_id(devices, id) as int].id == id,
        forall|i: int|
            0 <= i < manager::first_with_id(devices, id) ==> (#[trigger] devices[i]).id != id,
    decreases devices.len(),
{
    if devices.len() > 0 && devices[0].id != id {
        let rest = devices.drop_first();
        lemma_first_with_id(rest, id);
        let k = manager::first_with_id(rest, id);
        assert forall|i: int| 0 <= i < k + 1 implies (#[trigger] devices[i]).id != id by {
            if i > 0 {
                assert(rest[i - 1] == devices[i]);
            }
        }
        if config::id_used(devices, id) {
            let i = choose|i: int| 0 <= i < devices.len() && (#[trigger] devices[i]).id == id;
            assert(rest[i - 1] == devices[i]);
            assert(config::id_used(rest, id));
        }
        if k < rest.len() {
            assert(devices[k as int + 1] == rest[k as int]);
        }
    }
}

proof fn lemma_without_id(devices: Seq<DeviceConfigView>, id: u64)
    ensures
        forall|d: DeviceConfigView| #[trigger]
            manager::without_id(devices, id).contains(d) <==> devices.contains(d) && d.id != id,
        config::ids_valid(devices) ==> config::ids_valid(manager::without_id(devices, id)),
    decreases devices.len(),
{
    reveal(Seq::filter);
    let kept = manager::without_id(devices, id);
    if devices.len() > 0 {
        let rest = devices.drop_last();
        let last = devices.last();
        lemma_without_id(rest, id);
        let kept_rest = manager::without_id(rest, id);
        assert(devices == rest.push(last));
        assert forall|d: DeviceConfigView| #[trigger] kept.contains(d) <==> devices.contains(d)
            && d.id != id by {
            assert(devices.contains(d) <==> rest.contains(d) || d == last) by {
                if rest.contains(d) {
                    let i = choose|i: int| 0 <= i < rest.len() && rest[i] == d;
                    assert(devices[i] == d);
                }
                if d == last {
                    assert(devices[devices.len() - 1] == d);
                }
            }
            if last.id != id {
                assert(kept == kept_rest.push(last));
                assert(kept.contains(d) <==> kept_rest.contains(d) || d == last) by {
                    if kept_rest.contains(d) {
                        let i = choose|i: int| 0 <= i < kept_rest.len() && kept_rest[i] == d;
                        assert(kept[i] == d);
                    }
                    if d == last {
                        assert(kept[kept.len() - 1] == d);
                    }
                }
            }
        }
        if config::ids_valid(devices) {
            assert forall|i: int| 0 <= i < rest.len() implies (#[trigger] rest[i]).id
                >= config::FIRST_DEVICE_ID by {
                assert(rest[i] == devices[i]);
            }
            assert(config::ids_valid(rest)) by {
                assert forall|i: int, j: int| 0 <= i < j < rest.len() implies (
                #[trigger] rest[i]).id != (#[trigger] rest[j]).id by {
                    assert(rest[i] == devices[i] && rest[j] == devices[j]);
                }
            }
            assert forall|i: int| 0 <= i < kept_rest.len() implies (#[trigger] kept_rest[i]).id
                != last.id by {
                assert(kept_rest.contains(kept_rest[i]));
                let k = choose|k: int| 0 <= k < rest.len() && rest[k] == kept_rest[i];
                assert(devices[k] == rest[k]);
                assert(devices[devices.len() - 1] == last);
            }
            assert(devices[devices.len() - 1].id >= config::FIRST_DEVICE_ID);
        }
    }
}

proof fn lemma_without_unused_id(devices: Seq<DeviceConfigView>, id: u64)
    requires
        !config::id_used(devices, id),
    ensures
        manager::without_id(devices, id) == devices,
    decreases devices.len(),
{
    reveal(Seq::filter);
    if devices.len() > 0 {
        let rest = devices.drop_last();
        assert(devices[devices.len() - 1].id != id);
        assert(!config::id_used(rest, id)) by {
            if config::id_used(rest, id) {
                let i = choose|i: int| 0 <= i < rest.len() && (#[trigger] rest[i]).id == id;
                assert(devices[i].id == id);
            }
        }
        lemma_without_unused_id(rest, id);
        assert(devices == rest.push(devices.last()));
    }
}

/// Adding, editing and removing devices keeps the IDs valid: unique, and those
/// of devices.
pub proof fn law_ids_stay_valid(m: ManagerView, device: DeviceConfigView, id: u64)
    requires
        config::ids_valid(m.cfg.devices),
    ensures
        config::smallest_free_id(m.cfg.devices, device.id) ==> config::ids_valid(
            m.added(device).cfg.devices,
        ),
        config::ids_valid(m.edited(device).cfg.devices),
        config::ids_valid(m.removed(id).cfg.devices),
{
    if config::smallest_free_id(m.cfg.devices, device.id) {
        config::law_next_id_keeps_ids_valid(m.cfg.devices, device);
    }
    lemma_first_with_id(m.cfg.devices, device.id);
    lemma_without_id(m.cfg.devices, id);
}

/// An edit changes no ID and no other device: the accessories keep their IDs
/// and their order.
pub proof fn law_edit_keeps_ids(m: ManagerView, device: DeviceConfigView)
    ensures
        m.edited(device).cfg.devices.len() == m.cfg.devices.len(),
        forall|i: int|
            0 <= i < m.cfg.devices.len() ==> (#[trigger] m.edited(device).cfg.devices[i]).id
                == m.cfg.devices[i].id,
        forall|i: int|
            0 <= i < m.cfg.devices.len() && m.cfg.devices[i].id != device.id ==> (
            #[trigger] m.edited(device).cfg.devices[i]) == m.cfg.devices[i],
        forall|id: u64|
            id != device.id && m.devices.contains_key(id) ==> #[trigger] m.detached(
                device.id,
            ).edited(device).devices.contains_key(id) && m.detached(device.id).edited(
                device,
            ).devices[id] == m.devices[id],
{
    lemma_first_with_id(m.cfg.devices, device.id);
}

/// Whether two configurations differ in their devices at most.
pub open spec fn same_settings(a: config::AppConfigView, b: config::AppConfigView) -> bool {
    a == (config::AppConfigView { devices: a.devices, ..b })
}

/// Whatever happens to devices, the other settings stay as they are.
pub proof fn law_settings_are_kept(m: ManagerView, device: DeviceConfigView, id: u64)
    ensures
        same_settings(m.registered(device).cfg, m.cfg),
        same_settings(m.added(device).cfg, m.cfg),
        same_settings(m.detached(id).cfg, m.cfg),
        same_settings(m.edited(device).cfg, m.cfg),
        same_settings(m.removed(id).cfg, m.cfg),
{
}

/// Removing a device that was just added undoes the addition.
pub proof fn law_remove_undoes_add(m: ManagerView, device: DeviceConfigView)
    requires
        config::smallest_free_id(m.cfg.devices, device.id),
        !m.devices.contains_key(device.id),
    ensures
        m.added(device).removed(device.id) == m,
{
    let id = device.id;
    let more = m.cfg.devices.push(device);
    lemma_without_unused_id(m.cfg.devices, id);
    assert(manager::without_id(more, id) == m.cfg.devices) by {
        reveal(Seq::filter);
        assert(more.drop_last() == m.cfg.devices);
    }
    assert(m.added(device).removed(id).devices == m.devices);
}

/// A removed device is gone: from the bridge and from the configuration.
pub proof fn law_removed_is_gone(m: ManagerView, id: u64)
    ensures
        !m.removed(id).devices.contains_key(id),
        !config::id_used(m.removed(id).cfg.devices, id),
        forall|d: DeviceConfigView|
            d.id != id ==> (#[trigger] m.removed(id).cfg.devices.contains(d)
                <==> m.cfg.devices.contains(d)),
{
    lemma_without_id(m.cfg.devices, id);
    let kept = m.removed(id).cfg.devices;
    if config::id_used(kept, id) {
        let i = choose|i: int| 0 <= i < kept.len() && (#[trigger] kept[i]).id == id;
        assert(kept.contains(kept[i]));
    }
}

// --- Registered and configured devices ---

/// Whether each registered device is a configured one.
pub open spec fn registered_are_configured(m: ManagerView) -> bool {
    forall|id: u64| #[trigger]
        m.devices.contains_key(id) ==> m.cfg.devices.contains(m.devices[id])
}

/// Each registered device is configured as it is registered, whatever is
/// registered from the configuration, added, edited or removed.
pub proof fn law_registered_are_configured(m: ManagerView, device: DeviceConfigView, id: u64)
    requires
        m.wf(),
        registered_are_configured(m),
    ensures
        m.cfg.devices.contains(device) ==> registered_are_configured(m.registered(device)),
        registered_are_configured(m.added(device)),
        registered_are_configured(m.detached(id)),
        m.devices.contains_key(device.id) ==> registered_are_configured(
            m.detached(device.id).edited(device),
        ),
        registered_are_configured(m.removed(id)),
{
    let added = m.added(device);
    assert forall|k: u64| #[trigger] added.devices.contains_key(k) implies
        added.cfg.devices.contains(added.devices[k]) by {
        if k == device.id {
            assert(added.cfg.devices[m.cfg.devices.len() as int] == device);
        } else {
            assert(m.devices.contains_key(k));
            let i = choose|i: int|
                0 <= i < m.cfg.devices.len() && m.cfg.devices[i] == m.devices[k];
            assert(added.cfg.devices[i] == m.devices[k]);
        }
    }
    if m.devices.contains_key(device.id) {
        let edited = m.detached(device.id).edited(device);
        lemma_first_with_id(m.cfg.devices, device.id);
        let at = manager::first_with_id(m.cfg.devices, device.id);
        let was = choose|i: int|
            0 <= i < m.cfg.devices.len() && m.cfg.devices[i] == m.devices[device.id];
        assert(m.cfg.devices[was].id == device.id);
        assert forall|k: u64| #[trigger] edited.devices.contains_key(k) implies
            edited.cfg.devices.contains(edited.devices[k]) by {
            if k == device.id {
                assert(edited.cfg.devices[at as int] == device);
            } else {
                assert(m.devices.contains_key(k));
                let i = choose|i: int|
                    0 <= i < m.cfg.devices.len() && m.cfg.devices[i] == m.devices[k];
                assert(edited.cfg.devices[i] == m.devices[k]);
            }
        }
    }
    lemma_without_id(m.cfg.devices, id);
    let removed = m.removed(id);
    assert forall|k: u64| #[trigger] removed.devices.contains_key(k) implies
        removed.cfg.devices.contains(removed.devices[k]) by {
        assert(m.devices.contains_key(k));
    }
}

/// After the registration of each of `devices` was tried, in order, and
/// succeeded or not as `succeeded` says.
pub open spec fn started(
    m: ManagerView,
    devices: Seq<DeviceConfigView>,
    succeeded: Seq<bool>,
) -> ManagerView
    decreases devices.len(),
{
    if devices.len() == 0 {
        m
    } else {
        let before = started(m, devices.drop_last(), succeeded.drop_last());
        if succeeded.last() {
            before.registered(devices.last())
        } else {
            before
        }
    }
}

/// Whether some device with the ID `id` was registered.
pub open spec fn id_succeeded(
    devices: Seq<DeviceConfigView>,
    succeeded: Seq<bool>,
    id: u64,
) -> bool {
    exists|i: int|
        0 <= i < devices.len() && (#[trigger] devices[i]).id == id && succeeded[i]
}

/// A start goes on past a device that cannot be registered. Afterwards the
/// bridge has exactly the devices whose registration succeeded, as they are
/// configured (the last one where an ID recurs), and the configuration is as it
/// was.
pub proof fn law_start_registers_what_succeeds(
    cfg: config::AppConfigView,
    devices: Seq<DeviceConfigView>,
    succeeded: Seq<bool>,
)
    requires
        succeeded.len() == devices.len(),
    ensures
        ({
            let fresh = ManagerView { cfg, devices: Map::empty() };
            let up = started(fresh, devices, succeeded);
            &&& up.cfg == cfg
            &&& up.wf()
            &&& forall|id: u64| #[trigger]
                up.devices.contains_key(id) <==> id_succeeded(devices, succeeded, id)
            &&& forall|i: int|
                0 <= i < devices.len() && succeeded[i] && (forall|j: int|
                    i < j < devices.len() && succeeded[j] ==> (#[trigger] devices[j]).id
                        != devices[i].id) ==> up.devices[(#[trigger] devices[i]).id] == devices[i]
        }),
    decreases devices.len(),
{
    let fresh = ManagerView { cfg, devices: Map::empty() };
    let up = started(fresh, devices, succeeded);
    if devices.len() > 0 {
        let n = devices.len() - 1;
        let rest = devices.drop_last();
        let ok = succeeded.drop_last();
        let last = devices.last();
        assert(devices[n] == last && succeeded[n] == succeeded.last());
        law_start_registers_what_succeeds(cfg, rest, ok);
        let before = started(fresh, rest, ok);
        assert forall|id: u64| #[trigger] up.devices.contains_key(id) <==> id_succeeded(
            devices,
            succeeded,
            id,
        ) by {
            assert(before.devices.contains_key(id) <==> id_succeeded(rest, ok, id));
            if id_succeeded(rest, ok, id) {
                let i = choose|i: int|
                    0 <= i < rest.len() && (#[trigger] rest[i]).id == id && ok[i];
                assert(devices[i].id == id && succeeded[i]);
            }
            if id_succeeded(devices, succeeded, id) {
                let i = choose|i: int|
                    0 <= i < devices.len() && (#[trigger] devices[i]).id == id && succeeded[i];
                if i < n {
                    assert(rest[i].id == id && ok[i]);
                }
            }
        }
        assert forall|i: int|
            0 <= i < devices.len() && succeeded[i] && (forall|j: int|
                i < j < devices.len() && succeeded[j] ==> (#[trigger] devices[j]).id
                    != devices[i].id) implies up.devices[(#[trigger] devices[i]).id]
            == devices[i] by {
            if i < n {
                assert(rest[i] == devices[i] && ok[i]);
                assert forall|j: int| i < j < rest.len() && ok[j] implies (#[trigger] rest[j]).id
                    != rest[i].id by {
                    assert(rest[j] == devices[j] && succeeded[j]);
                }
                assert(before.devices[rest[i].id] == rest[i]);
                if succeeded[n] {
                    assert(devices[n].id != devices[i].id);
                }
            }
        }
    }
}

/// Where all registrations succeed and no ID recurs, the bridge has each
/// configured device under its ID.
pub proof fn law_full_start_registers_what_is_configured(
    cfg: config::AppConfigView,
    succeeded: Seq<bool>,
)
    requires
        config::ids_valid(cfg.devices),
        succeeded.len() == cfg.devices.len(),
        forall|i: int| 0 <= i < succeeded.len() ==> #[trigger] succeeded[i],
    ensures
        ({
            let fresh = ManagerView { cfg, devices: Map::empty() };
            let up = started(fresh, cfg.devices, succeeded);
            &&& forall|id: u64| #[trigger]
                up.devices.contains_key(id) <==> config::id_used(cfg.devices, id)
            &&& forall|i: int|
                0 <= i < cfg.devices.len() ==> up.devices[(#[trigger] cfg.devices[i]).id]
                    == cfg.devices[i]
        }),
{
    let devices = cfg.devices;
    law_start_registers_what_succeeds(cfg, devices, succeeded);
    let up = started(ManagerView { cfg, devices: Map::empty() }, devices, succeeded);
    assert forall|id: u64| #[trigger] up.devices.contains_key(id) <==> config::id_used(
        devices,
        id,
    ) by {
        if config::id_used(devices, id) {
            let i = choose|i: int| 0 <= i < devices.len() && (#[trigger] devices[i]).id == id;
            assert(devices[i].id == id && succeeded[i]);
        }
    }
    assert forall|i: int| 0 <= i < devices.len() implies up.devices[(#[trigger] devices[i]).id]
        == devices[i] by {
        assert(succeeded[i]);
    }
}

/// An edit that asks for nothing changes nothing.
pub proof fn law_empty_edit_changes_nothing(m: ManagerView, id: u64)
    requires
        m.wf(),
        config::ids_valid(m.cfg.devices),
        registered_are_configured(m),
        m.devices.contains_key(id),
    ensures
        manager::edited_name(None, m.devices[id].name) == m.devices[id].name,
        m.detached(id).edited(m.devices[id]) == m,
{
    let device = m.devices[id];
    lemma_first_with_id(m.cfg.devices, id);
    let at = manager::first_with_id(m.cfg.devices, id) as int;
    let i = choose|i: int| 0 <= i < m.cfg.devices.len() && m.cfg.devices[i] == device;
    assert(m.cfg.devices[i].id == id);
    assert(at < m.cfg.devices.len());
    assert(at == i) by {
        if at < i {
            assert(m.cfg.devices[at].id != m.cfg.devices[i].id);
        } else if i < at {
            assert(m.cfg.devices[i].id != m.cfg.devices[at].id);
        }
    }
    assert(m.detached(id).edited(device).cfg.devices == m.cfg.devices);
    assert(m.detached(id).edited(device).devices == m.devices);
}

/// Whether no two registered devices share an address.
pub open spec fn distinct_ips(m: ManagerView) -> bool {
    forall|a: u64, b: u64| #[trigger]
        m.devices.contains_key(a) && #[trigger] m.devices.contains_key(b) && a != b
            ==> m.devices[a].ip != m.devices[b].ip
}

/// No two registered devices come to share an address by an addition, which an
/// address in use rules out, or by a removal.
pub proof fn law_additions_keep_ips_distinct(m: ManagerView, device: DeviceConfigView, id: u64)
    requires
        distinct_ips(m),
    ensures
        !m.ip_taken(device.ip) ==> distinct_ips(m.added(device)),
        distinct_ips(m.removed(id)),
{
    if !m.ip_taken(device.ip) {
        let added = m.added(device);
        assert forall|a: u64, b: u64| #[trigger]
            added.devices.contains_key(a) && #[trigger] added.devices.contains_key(b) && a
                != b implies added.devices[a].ip != added.devices[b].ip by {
            if a != device.id {
                assert(m.devices.contains_key(a));
            }
            if b != device.id {
                assert(m.devices.contains_key(b));
            }
        }
    }
    let removed = m.removed(id);
    assert forall|a: u64, b: u64| #[trigger]
        removed.devices.contains_key(a) && #[trigger] removed.devices.contains_key(b) && a
            != b implies removed.devices[a].ip != removed.devices[b].ip by {
        assert(m.devices.contains_key(a) && m.devices.contains_key(b));
    }
}

/// An address that was just added is taken, and the next addition of it is
/// refused.
pub proof fn law_added_ip_is_taken(m: ManagerView, device: DeviceConfigView)
    ensures
        m.added(device).ip_taken(device.ip),
{
    assert(m.added(device).devices.contains_key(device.id));
}

// --- What a web request does to a unit ---

/// The fields of a unit after all of `commands` were applied to it, in order.
pub open spec fn after_commands(
    fields: Map<Seq<char>, Seq<char>>,
    commands: Seq<CommandView>,
) -> Map<Seq<char>, Seq<char>>
    decreases commands.len(),
{
    if commands.len() == 0 {
        fields
    } else {
        after_commands(
            daikin::laws::after_command(fields, commands[0]),
            commands.drop_first(),
        )
    }
}

proof fn lemma_after_commands_join(
    fields: Map<Seq<char>, Seq<char>>,
    a: Seq<CommandView>,
    b: Seq<CommandView>,
)
    ensures
        after_commands(fields, a + b) == after_commands(after_commands(fields, a), b),
    decreases a.len(),
{
    if a.len() == 0 {
        assert(a + b == b);
    } else {
        assert((a + b).drop_first() == a.drop_first() + b);
        assert((a + b)[0] == a[0]);
        lemma_after_commands_join(
            daikin::laws::after_command(fields, a[0]),
            a.drop_first(),
            b,
        );
    }
}

proof fn lemma_after_one(fields: Map<Seq<char>, Seq<char>>, command: CommandView)
    ensures
        ({
            let after = daikin::laws::after_command(fields, command);
            let params = daikin::commanded(daikin::current_params(fields), command);
            &&& after_commands(fields, seq![command]) == after
            &&& daikin::current_params(after) == params
        }),
{
    reveal_with_fuel(after_commands, 2);
    assert(seq![command].drop_first() == Seq::<CommandView>::empty());
    daikin::laws::law_stored_params_read_back(
        fields,
        daikin::commanded(daikin::current_params(fields), command),
    );
}

/// What a web request asks for is what the unit is set to once it has accepted
/// all of the request's commands, and what is not asked for stays as it was:
/// power, mode, fan rate and swing as asked, the setpoint as asked within the
/// range of the mode, both axes for swing. (A change to a mode with a setpoint
/// replaces a setpoint or a humidity that is no number.)
pub proof fn law_web_request_sets_what_it_asks_for(
    fields: Map<Seq<char>, Seq<char>>,
    cmd: DeviceCommandView,
)
    requires
        cmd.has_known_mode(),
    ensures
        ({
            let before = daikin::current_params(fields);
            let after = daikin::current_params(after_commands(fields, cmd.commands()));
            let mode = super::asked_mode(cmd.mode);
            &&& cmd.power == Some(true) ==> after.pow == "1"@
            &&& cmd.power == Some(false) ==> after.pow == "0"@
            &&& cmd.power is None ==> after.pow == before.pow
            &&& mode matches Some(m) ==> after.mode == number::decimal_text(m as nat)
            &&& cmd.mode is None ==> after.mode == before.mode
            &&& cmd.fan matches Some(rate) ==> after.f_rate == rate
            &&& cmd.fan is None ==> after.f_rate == before.f_rate
            &&& cmd.swing == Some(true) ==> after.f_dir == number::decimal_text(3)
            &&& cmd.swing == Some(false) ==> after.f_dir == number::decimal_text(0)
            &&& cmd.swing is None ==> after.f_dir == before.f_dir
            &&& cmd.temperature matches Some(t) ==> after.stemp == hk::mode_clamped(
                mode,
                t,
            ).one_decimal_text()
            &&& cmd.temperature is None && (cmd.mode is None || number::is_fraction_text(
                before.stemp,
            )) ==> after.stemp == before.stemp
            &&& cmd.mode is None || number::unsigned_value(before.shum, 0xffff_ffff) is Some
                ==> after.shum == before.shum
        }),
{
    let a = super::power_commands(cmd.power);
    let b = super::mode_commands(cmd.mode);
    let c = super::temperature_commands(cmd.mode, cmd.temperature);
    let d = super::fan_commands(cmd.fan);
    let e = super::swing_commands(cmd.swing);
    let f0 = fields;
    let f1 = after_commands(f0, a);
    let f2 = after_commands(f1, b);
    let f3 = after_commands(f2, c);
    let f4 = after_commands(f3, d);
    let f5 = after_commands(f4, e);
    lemma_after_commands_join(fields, a + b + c + d, e);
    lemma_after_commands_join(fields, a + b + c, d);
    lemma_after_commands_join(fields, a + b, c);
    lemma_after_commands_join(fields, a, b);
    if a.len() > 0 {
        lemma_after_one(f0, a[0]);
        assert(a == seq![a[0]]);
    }
    if b.len() > 0 {
        lemma_after_one(f1, b[0]);
        assert(b == seq![b[0]]);
    }
    if c.len() > 0 {
        lemma_after_one(f2, c[0]);
        assert(c == seq![c[0]]);
    }
    if d.len() > 0 {
        lemma_after_one(f3, d[0]);
        assert(d == seq![d[0]]);
    }
    if e.len() > 0 {
        lemma_after_one(f4, e[0]);
        assert(e == seq![e[0]]);
    }
}

proof fn lemma_after_commands_reports(
    fields: Map<Seq<char>, Seq<char>>,
    commands: Seq<CommandView>,
)
    requires
        commands.len() > 0,
    ensures
        ({
            let after = after_commands(fields, commands);
            &&& after.contains_key("pow"@)
            &&& after.contains_key("mode"@)
            &&& after.contains_key("stemp"@)
            &&& after.contains_key("f_rate"@)
            &&& after.contains_key("f_dir"@)
        }),
    decreases commands.len(),
{
    let next = daikin::laws::after_command(fields, commands[0]);
    if commands.len() > 1 {
        lemma_after_commands_reports(next, commands.drop_first());
    } else {
        assert(commands.drop_first() == Seq::<CommandView>::empty());
        assert(after_commands(next, commands.drop_first()) == next);
    }
}

/// What a web request asks for is what the next poll of the unit finds: whether
/// it is on, its mode, its fan rate, and whether it swings.
pub proof fn law_web_request_is_shown(
    fields: Map<Seq<char>, Seq<char>>,
    cmd: DeviceCommandView,
)
    requires
        cmd.has_known_mode(),
    ensures
        ({
            let after = after_commands(fields, cmd.commands());
            &&& cmd.power matches Some(on) ==> daikin::power_field(after) == on
            &&& super::asked_mode(cmd.mode) matches Some(m) ==> daikin::byte_field(
                after,
                "mode"@,
            ) == m
            &&& cmd.fan matches Some(rate) ==> daikin::field_or(after, "f_rate"@, "A"@) == rate
            &&& cmd.swing matches Some(on) ==> daikin::byte_field(after, "f_dir"@) == (if on {
                3u8
            } else {
                0u8
            })
            &&& cmd.temperature matches Some(t) ==> after.contains_key("stemp"@)
                && after["stemp"@] == hk::mode_clamped(
                super::asked_mode(cmd.mode),
                t,
            ).one_decimal_text()
        }),
{
    law_web_request_sets_what_it_asks_for(fields, cmd);
    law_one_command_for_each_field(cmd);
    let after = after_commands(fields, cmd.commands());
    if cmd.commands().len() > 0 {
        lemma_after_commands_reports(fields, cmd.commands());
    }
    reveal_strlit("1");
    reveal_strlit("0");
    assert("0"@[0] != "1"@[0]);
    if let Some(m) = super::asked_mode(cmd.mode) {
        number::law_unsigned_roundtrip(m as nat, 0xff);
    }
    number::law_unsigned_roundtrip(3, 0xff);
    number::law_unsigned_roundtrip(0, 0xff);
}

/// The place of a command in a request.
pub open spec fn place(command: CommandView) -> int {
    match command {
        CommandView::Power(_) => 0,
        CommandView::Mode(_) => 1,
        CommandView::Temperature(_) => 2,
        CommandView::FanRate(_) => 3,
        CommandView::FanDir(_) => 4,
    }
}

/// The commands of a request come in one order: power, mode, setpoint, fan
/// rate, swing.
pub proof fn law_commands_are_in_order(cmd: DeviceCommandView, i: int, j: int)
    requires
        0 <= i < j < cmd.commands().len(),
    ensures
        place(cmd.commands()[i]) < place(cmd.commands()[j]),
{
}

/// What is said of each command of a request is what the unit is asked to do.
pub proof fn law_summary_tells_the_commands(cmd: DeviceCommandView, i: int)
    requires
        cmd.has_known_mode(),
        0 <= i < cmd.commands().len(),
    ensures
        ({
            let said = cmd.summary()[i];
            match cmd.commands()[i] {
                CommandView::Power(on) => said == "power "@ + (if on {
                    "on"@
                } else {
                    "off"@
                }),
                CommandView::Mode(m) => {
                    &&& cmd.mode is Some
                    &&& said == "mode "@ + cmd.mode->0
                    &&& hk::mode_name(m) == number::lowered(cmd.mode->0)
                },
                CommandView::Temperature(s) => said == "setpoint "@ + s.one_decimal_text()
                    + "°C"@,
                CommandView::FanRate(rate) => said == "fan "@ + rate,
                CommandView::FanDir(dir) => said == "swing "@ + (if dir != 0 {
                    "on"@
                } else {
                    "off"@
                }),
            }
        }),
{
    if let Some(m) = cmd.mode {
        hk::laws::law_named_mode_has_the_name(m);
    }
}

/// A list is its items, whole and in order, with a comma and a space between
/// each two.
pub proof fn law_lists_keep_their_items(
    first: Seq<char>,
    items: Seq<Seq<char>>,
    more: Seq<Seq<char>>,
)
    ensures
        super::comma_list(Seq::empty()) == Seq::<char>::empty(),
        super::comma_list(seq![first]) == first,
        items.len() > 0 && more.len() > 0 ==> super::comma_list(items + more)
            == super::comma_list(items) + ", "@ + super::comma_list(more),
    decreases more.len(),
{
    reveal_with_fuel(super::comma_list, 2);
    assert(seq![first].drop_last() == Seq::<Seq<char>>::empty());
    assert(super::comma_list(seq![first]) == first);
    if items.len() > 0 && more.len() > 0 {
        let all = items + more;
        let fewer = more.drop_last();
        assert(all.drop_last() == items + fewer);
        assert(all.last() == more.last());
        if fewer.len() == 0 {
            assert(items + fewer == items);
            assert(more == seq![more.last()]);
            assert(super::comma_list(seq![more.last()]) == more.last()) by {
                assert(seq![more.last()].drop_last() == Seq::<Seq<char>>::empty());
            }
        } else {
            law_lists_keep_their_items(first, items, fewer);
            let x = super::comma_list(items);
            let y = super::comma_list(fewer);
            assert(x + ", "@ + y + ", "@ + more.last() == x + ", "@ + (y + ", "@ + more.last()));
        }
    }
}

// --- What a device becomes ---

/// A new device is called what was asked for, where that is more than white
/// space, whatever the unit is called; else what the unit is called, where it
/// has a name; and only else by its ID.
pub proof fn law_names_of_new_devices(
    asked: Option<Seq<char>>,
    probed: Option<Seq<char>>,
    id: u64,
)
    ensures
        ({
            let named = asked matches Some(n) && !text::laws::all_white(n);
            let name = manager::new_name(asked, probed, id);
            &&& named ==> Some(name) == asked
            &&& !named && probed is Some ==> Some(name) == probed
            &&& !named && probed is None ==> name == "Daikin "@ + number::decimal_text(id as nat)
        }),
{
    if let Some(n) = asked {
        text::laws::law_only_blank_text_trims_to_nothing(n);
    }
}

/// An edited device keeps its ID; it is called what was asked for, where that
/// is more than white space, and is at the address that was asked for; what was
/// not asked for stays as it was.
pub proof fn law_edits_change_what_is_asked(
    id: u64,
    known: DeviceConfigView,
    ip: Option<Seq<char>>,
    name: Option<Seq<char>>,
)
    ensures
        ({
            let named = name matches Some(n) && !text::laws::all_white(n);
            let device = manager::asked_device(id, known, ip, name);
            &&& device.id == id
            &&& named ==> Some(device.name) == name
            &&& !named ==> device.name == known.name
            &&& ip is Some ==> Some(device.ip) == ip
            &&& ip is None ==> device.ip == known.ip
        }),
{
    if let Some(n) = name {
        text::laws::law_only_blank_text_trims_to_nothing(n);
    }
}

/// A device that is added is registered as it is, and comes after all that were
/// configured before; the others stay as they were.
pub proof fn law_added_device_is_there(m: ManagerView, device: DeviceConfigView, id: u64)
    ensures
        ({
            let after = m.added(device);
            &&& after.devices.contains_key(device.id) && after.devices[device.id] == device
            &&& id != device.id ==> after.devices.contains_key(id) == m.devices.contains_key(id)
            &&& id != device.id && m.devices.contains_key(id) ==> after.devices[id]
                == m.devices[id]
            &&& after.cfg.devices.len() == m.cfg.devices.len() + 1
            &&& after.cfg.devices.take(m.cfg.devices.len() as int) == m.cfg.devices
            &&& after.cfg.devices[m.cfg.devices.len() as int] == device
        }),
{
    let after = m.added(device);
    assert(after.cfg.devices.take(m.cfg.devices.len() as int) == m.cfg.devices);
}

/// An edited device is registered as edited, and stands in the configuration
/// where the first one of its ID stood.
pub proof fn law_edited_device_is_there(m: ManagerView, device: DeviceConfigView, at: int)
    requires
        0 <= at < m.cfg.devices.len(),
        m.cfg.devices[at].id == device.id,
        forall|i: int| 0 <= i < at ==> (#[trigger] m.cfg.devices[i]).id != device.id,
    ensures
        m.edited(device).devices.contains_key(device.id),
        m.edited(device).devices[device.id] == device,
        m.edited(device).cfg.devices[at] == device,
        forall|i: int|
            0 <= i < m.cfg.devices.len() && i != at ==> #[trigger] m.edited(device).cfg.devices[i]
                == m.cfg.devices[i],
{
    lemma_first_with_id(m.cfg.devices, device.id);
    let first = manager::first_with_id(m.cfg.devices, device.id) as int;
    if first < at {
        assert(m.cfg.devices[first].id != device.id);
    } else if at < first {
        assert(m.cfg.devices[at].id != device.id);
    }
}

/// Registering, withdrawing and removing a device concerns that device alone.
pub proof fn law_other_devices_stay_registered(
    m: ManagerView,
    device: DeviceConfigView,
    id: u64,
    other: u64,
)
    ensures
        m.registered(device).devices.contains_key(device.id),
        m.registered(device).devices[device.id] == device,
        m.registered(device).cfg == m.cfg,
        other != device.id ==> m.registered(device).devices.contains_key(other)
            == m.devices.contains_key(other),
        other != device.id && m.devices.contains_key(other) ==> m.registered(device).devices[other]
            == m.devices[other],
        !m.detached(id).devices.contains_key(id),
        m.detached(id).cfg == m.cfg,
        other != id ==> m.detached(id).devices.contains_key(other) == m.devices.contains_key(other),
        other != id && m.devices.contains_key(other) ==> m.detached(id).devices[other]
            == m.devices[other],
        other != id ==> m.removed(id).devices.contains_key(other) == m.devices.contains_key(other),
        other != id && m.devices.contains_key(other) ==> m.removed(id).devices[other]
            == m.devices[other],
{
}

/// Removing devices keeps the others in their order.
pub proof fn law_removal_keeps_the_order(
    m: ManagerView,
    before: Seq<DeviceConfigView>,
    after: Seq<DeviceConfigView>,
    device: DeviceConfigView,
)
    requires
        m.cfg.devices == before.push(device) + after,
        !config::id_used(before, device.id),
        !config::id_used(after, device.id),
    ensures
        m.removed(device.id).cfg.devices == before + after,
{
    let id = device.id;
    lemma_without_unused_id(before, id);
    lemma_without_unused_id(after, id);
    lemma_without_join(before.push(device), after, id);
    lemma_without_join(before, seq![device], id);
    assert(before + seq![device] == before.push(device));
    assert(manager::without_id(seq![device], id) == Seq::<DeviceConfigView>::empty()) by {
        reveal(Seq::filter);
        assert(seq![device].drop_last() == Seq::<DeviceConfigView>::empty());
        assert(manager::without_id(seq![device].drop_last(), id) == Seq::<
            DeviceConfigView,
        >::empty());
    }
    assert(before + Seq::<DeviceConfigView>::empty() == before);
}

proof fn lemma_without_join(a: Seq<DeviceConfigView>, b: Seq<DeviceConfigView>, id: u64)
    ensures
        manager::without_id(a + b, id) == manager::without_id(a, id) + manager::without_id(b, id),
    decreases b.len(),
{
    reveal(Seq::filter);
    if b.len() == 0 {
        assert(a + b == a);
        assert(manager::without_id(b, id) == Seq::<DeviceConfigView>::empty());
    } else {
        assert((a + b).drop_last() == a + b.drop_last());
        lemma_without_join(a, b.drop_last(), id);
        assert(manager::without_id(a + b, id) == manager::without_id(a, id) + manager::without_id(
            b,
            id,
        ));
    }
}

/// An address is taken exactly where some registered device has it.
pub proof fn law_taken_addresses(m: ManagerView, ip: Seq<char>, id: u64)
    ensures
        m.devices.contains_key(id) && m.devices[id].ip == ip ==> m.ip_taken(ip),
        m.ip_taken(ip) ==> exists|k: u64|
            #[trigger] m.devices.contains_key(k) && m.devices[k].ip == ip,
        (forall|k: u64| #[trigger] m.devices.contains_key(k) ==> m.devices[k].ip != ip)
            ==> !m.ip_taken(ip),
{
}

/// A device is shown with its own ID, name and address and with its own status;
/// without one, as a device that was not polled yet.
pub proof fn law_devices_are_shown_as_they_are(
    device: DeviceConfigView,
    status: hk::runtime::DeviceStatusView,
    statuses: Map<u64, hk::runtime::DeviceStatus>,
    id: u64,
)
    ensures
        manager::shown(device, status).id == device.id,
        manager::shown(device, status).name == device.name,
        manager::shown(device, status).ip == device.ip,
        manager::shown(device, status).status == status,
        statuses.contains_key(id) ==> manager::status_of(statuses, id) == statuses[id]@,
        !statuses.contains_key(id) ==> manager::status_of(statuses, id)
            == hk::runtime::unknown_status(),
{
}

/// A notice about a device bears its name.
pub proof fn law_notices_name_the_device(
    device: DeviceConfigView,
    level: crate::activity::Level,
    message: Seq<char>,
)
    ensures
        manager::about(device, level, message).device == Some(device.name),
        manager::about(device, level, message).level == level,
        manager::about(device, level, message).message == message,
{
}

/// A refusal says what was asked for in vain.
pub proof fn law_refusals_in_words(id: u64, what: Seq<char>, cause: Seq<char>)
    ensures
        (ManagerErrorView::NoDevice { id }).text() == "no device with id "@
            + number::decimal_text(id as nat),
        (ManagerErrorView::UnknownMode { mode: what }).text() == "unknown mode '"@ + what + "'"@,
        ManagerErrorView::NoFields.text() == "no command fields provided"@,
        (ManagerErrorView::DuplicateIp { ip: what }).text() == "a device with IP "@ + what
            + " already exists"@,
        (ManagerErrorView::NoUnit { ip: what, cause }).text() == "no Daikin unit responded at "@
            + what + ": "@ + cause,
        (ManagerErrorView::NotApplied { name: what, cause }).text() == "applying command to "@
            + what + ": "@ + cause,
{
}

/// A PIN of eight digits is shown in groups of three, two and three; any other
/// is shown as its digits alone.
pub proof fn law_pins_are_shown_in_groups(pin: Seq<char>)
    ensures
        ({
            let digits = config::pin_chars(pin);
            let shown = super::shown_pin(pin);
            &&& digits.len() == 8 ==> {
                &&& shown.len() == 10
                &&& shown[3] == '-' && shown[6] == '-'
                &&& forall|i: int| 0 <= i < 3 ==> #[trigger] shown[i] == digits[i]
                &&& forall|i: int| 4 <= i < 6 ==> #[trigger] shown[i] == digits[i - 1]
                &&& forall|i: int| 7 <= i < 10 ==> #[trigger] shown[i] == digits[i - 2]
            }
            &&& digits.len() != 8 ==> shown == digits
        }),
{
}

/// The digits of a PIN are kept one by one, in order, and nothing else is.
pub proof fn law_pin_is_its_digits(before: Seq<char>, c: char, after: Seq<char>)
    ensures
        config::pin_chars(Seq::empty()) == Seq::<char>::empty(),
        0x30 <= c as u32 <= 0x39 ==> config::pin_chars(before + seq![c] + after)
            == config::pin_chars(before) + seq![c] + config::pin_chars(after),
        !(0x30 <= c as u32 <= 0x39) ==> config::pin_chars(before + seq![c] + after)
            == config::pin_chars(before) + config::pin_chars(after),
{
    let one = seq![c];
    reveal(Seq::filter);
    assert(config::pin_chars(Seq::empty()) == Seq::<char>::empty());
    assert(one.drop_last() == Seq::<char>::empty());
    assert(config::pin_chars(one.drop_last()) == Seq::<char>::empty());
    assert(one.last() == c);
    if number::is_digit(c) {
        assert(config::pin_chars(one) == one);
    } else {
        assert(config::pin_chars(one) == Seq::<char>::empty());
        assert(config::pin_chars(before) + Seq::<char>::empty() == config::pin_chars(before));
    }
    lemma_digits_of_join(before + one, after);
    lemma_digits_of_join(before, one);
}

/// The header says what is configured, and how many devices are registered.
pub proof fn law_header_says_what_is_configured(m: ManagerView, device: DeviceConfigView)
    ensures
        m.info().name == m.cfg.name,
        m.info().pin == super::shown_pin(m.cfg.pin),
        m.info().hap_port == m.cfg.hap_port,
        m.info().web_port == m.cfg.web_port,
        m.devices.dom().finite() && !m.devices.contains_key(device.id) ==> m.added(
            device,
        ).info().device_count == m.info().device_count + 1,
        (ManagerView { devices: Map::empty(), ..m }).info().device_count == 0,
{
    assert(m.added(device).devices.dom() == m.devices.dom().insert(device.id));
    assert((ManagerView { devices: Map::empty(), ..m }).devices.dom() == Set::<u64>::empty());
}

/// What is said of a registration: the address where it succeeded, the cause
/// where it did not.
pub proof fn law_registrations_in_words(ip: Seq<char>, cause: Seq<char>)
    ensures
        manager::registered_text(ip) == "registered ("@ + ip + ")"@,
        manager::unregistered_text(cause) == "failed to register: "@ + cause,
{
}

/// A control request is planned exactly where the device is registered, the
/// mode that it names, if any, is one that there is, and some field is present.
/// The plan is for that device: all of the request's commands, and a notice
/// under the device's name that tells them. Otherwise the refusal says which of
/// these is missing, the device first.
pub proof fn law_control_requests(m: ManagerView, id: u64, cmd: DeviceCommandView)
    ensures
        ({
            let known = m.devices.contains_key(id);
            let mode_known = cmd.mode matches Some(name) ==> hk::named_mode(name) is Some;
            let some_field = cmd.power is Some || cmd.mode is Some || cmd.temperature is Some
                || cmd.fan is Some || cmd.swing is Some;
            let r = m.planned(id, cmd);
            &&& r is Ok <==> known && mode_known && some_field
            &&& !known ==> r == Err::<CommandPlanView, _>(ManagerErrorView::NoDevice { id })
            &&& known && !mode_known ==> r == Err::<CommandPlanView, _>(
                ManagerErrorView::UnknownMode { mode: cmd.mode->0 },
            )
            &&& known && !some_field ==> r == Err::<CommandPlanView, _>(
                ManagerErrorView::NoFields,
            )
            &&& r matches Ok(plan) ==> {
                &&& plan.name == m.devices[id].name
                &&& plan.commands == cmd.commands()
                &&& plan.commands.len() > 0
                &&& plan.notice.device == Some(m.devices[id].name)
                &&& plan.notice.level == crate::activity::Level::Info
                &&& plan.notice.message == "web UI: "@ + super::comma_list(cmd.summary())
            }
        }),
{
    law_one_command_for_each_field(cmd);
}

/// An addition is refused exactly where a registered device has the address.
/// Otherwise the new device is at that address, under an ID that no configured
/// device has, and is called as asked, else as the unit, else by its ID.
pub proof fn law_additions(
    m: ManagerView,
    ip: Seq<char>,
    asked: Option<Seq<char>>,
    probed: Option<Seq<char>>,
    r: Result<DeviceConfigView, ManagerErrorView>,
)
    requires
        m.answers_addition(ip, asked, probed, r),
    ensures
        r is Err <==> exists|id: u64|
            #[trigger] m.devices.contains_key(id) && m.devices[id].ip == ip,
        r matches Err(e) ==> e == (ManagerErrorView::DuplicateIp { ip }),
        r matches Ok(device) ==> {
            let named = asked matches Some(n) && !text::laws::all_white(n);
            &&& device.ip == ip
            &&& device.id >= 2
            &&& !config::id_used(m.cfg.devices, device.id)
            &&& named ==> Some(device.name) == asked
            &&& !named && probed is Some ==> Some(device.name) == probed
            &&& !named && probed is None ==> device.name == "Daikin "@ + number::decimal_text(
                device.id as nat,
            )
        },
{
    if let Ok(device) = r {
        law_names_of_new_devices(asked, probed, device.id);
    }
}

/// An edit is refused exactly where the device is not registered. Otherwise a
/// unit has to be found exactly where the address changes.
pub proof fn law_edits(
    m: ManagerView,
    id: u64,
    ip: Option<Seq<char>>,
    name: Option<Seq<char>>,
)
    ensures
        m.planned_edit(id, ip, name) is Ok <==> m.devices.contains_key(id),
        m.planned_edit(id, ip, name) matches Err(e) ==> e == (ManagerErrorView::NoDevice { id }),
        m.planned_edit(id, ip, name) matches Ok(plan) ==> {
            &&& plan.0 == manager::asked_device(id, m.devices[id], ip, name)
            &&& plan.1 <==> ip is Some && ip->0 != m.devices[id].ip
        },
{
}

} // verus!
