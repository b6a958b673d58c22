//! Which devices are there and which apps they hold.

use idevice::usbmuxd::UsbmuxdDevice;
use vstd::prelude::*;

use crate::commands::IdeviceCommands;
use crate::name_map::{self, NameMap};
use crate::outside::{self, string_entry};

verus! {

/// How long to wait before `usbmuxd` is tried again.
pub const RECONNECT_DELAY_MS: u64 = 500;

/// What can happen while `usbmuxd` is listened to.
#[derive(Clone, Copy, PartialEq, Eq, Structural, Debug)]
pub enum ListenEvent {
    /// `usbmuxd` could not be reached.
    ConnectFailed,
    /// `usbmuxd` does not let itself be listened to.
    ListenFailed,
    /// A device came.
    DeviceConnected,
    /// A device went.
    DeviceDisconnected,
    /// The events broke off.
    StreamFailed,
    /// The events ended.
    StreamEnded,
}

/// What to do about it.
#[derive(Debug)]
pub enum ListenAction {
    /// Ask for the devices, and go on listening.
    Request(IdeviceCommands),
    /// Wait [`RECONNECT_DELAY_MS`], and connect to `usbmuxd` anew.
    Reconnect,
}

/// Decides what to do about an event: a device that comes or goes has the devices looked for
/// again, anything else ends the connection.
pub fn on_listen_event(event: ListenEvent) -> (action: ListenAction)
    ensures
        action == if event == ListenEvent::DeviceConnected || event
            == ListenEvent::DeviceDisconnected {
            ListenAction::Request(IdeviceCommands::GetDevices)
        } else {
            ListenAction::Reconnect
        },
{
    match event {
        ListenEvent::DeviceConnected => ListenAction::Request(IdeviceCommands::GetDevices),
        ListenEvent::DeviceDisconnected => ListenAction::Request(IdeviceCommands::GetDevices),
        ListenEvent::ConnectFailed => ListenAction::Reconnect,
        ListenEvent::ListenFailed => ListenAction::Reconnect,
        ListenEvent::StreamFailed => ListenAction::Reconnect,
        ListenEvent::StreamEnded => ListenAction::Reconnect,
    }
}

/// A text entry of a property list.
pub open spec fn entry_of(value: plist::Value, key: Seq<char>) -> Option<Seq<char>> {
    if outside::string_entries(value).contains_key(key) {
        Some(outside::string_entries(value)[key])
    } else {
        None
    }
}

/// The name that a device gives itself among the values it answers with.
pub fn device_name(values: &plist::Value) -> (name: Option<String>)
    ensures
        match name {
            Some(name) => entry_of(*values, "DeviceName"@) == Some(name@),
            None => entry_of(*values, "DeviceName"@) is None,
        },
{
    string_entry(values, "DeviceName")
}

/// What a device answered when it was asked for the values that describe it.
#[derive(Debug)]
pub enum DeviceAnswer {
    /// Nothing.
    Silent,
    /// Values without a name.
    Nameless,
    /// Values with this name.
    Named(String),
}

/// The model of [`DeviceAnswer`].
#[verifier::ext_equal]
pub enum AnswerModel {
    Silent,
    Nameless,
    Named(Seq<char>),
}

impl View for DeviceAnswer {
    type V = AnswerModel;

    open spec fn view(&self) -> AnswerModel {
        match *self {
            DeviceAnswer::Silent => AnswerModel::Silent,
            DeviceAnswer::Nameless => AnswerModel::Nameless,
            DeviceAnswer::Named(name) => AnswerModel::Named(name@),
        }
    }
}

/// The model of a list of devices and their answers.
pub open spec fn answers_view(answers: Seq<(UsbmuxdDevice, DeviceAnswer)>) -> Seq<
    (UsbmuxdDevice, AnswerModel),
> {
    Seq::new(answers.len(), |i: int| (answers[i].0, answers[i].1@))
}

/// Whether every device that answered gave its name.
pub open spec fn all_named(answers: Seq<(UsbmuxdDevice, AnswerModel)>) -> bool {
    forall|i: int| 0 <= i < answers.len() ==> !((#[trigger] answers[i]).1 is Nameless)
}

/// The devices that gave their names, each with its name.
pub open spec fn named(answers: Seq<(UsbmuxdDevice, AnswerModel)>) -> Seq<
    (Seq<char>, UsbmuxdDevice),
>
    decreases answers.len(),
{
    if answers.len() == 0 {
        seq![]
    } else {
        let init = named(answers.drop_last());
        match answers.last().1 {
            AnswerModel::Named(name) => init.push((name, answers.last().0)),
            _ => init,
        }
    }
}

/// The devices by name. One that did not answer is left out. The result is nothing if one answered
/// and gave no name.
pub fn devices_by_name(answers: Vec<(UsbmuxdDevice, DeviceAnswer)>) -> (devices: Option<
    NameMap<UsbmuxdDevice>,
>)
    ensures
        match devices {
            Some(devices) => {
                &&& all_named(answers_view(answers@))
                &&& devices@ == name_map::collected(named(answers_view(answers@)))
                &&& name_map::distinct_names(devices@)
            },
            None => !all_named(answers_view(answers@)),
        },
{
    let mut devices: NameMap<UsbmuxdDevice> = NameMap::new();
    let ghost all = answers_view(answers@);
    proof {
        assert(all.take(0) =~= seq![]);
        name_map::collected_distinct(named(all));
    }
    for answer in iter: answers
        invariant
            answers_view(iter.seq()) == all,
            devices@ == name_map::collected(named(all.take(iter.index()))),
            forall|k: int| 0 <= k < iter.index() ==> !((#[trigger] all[k]).1 is Nameless),
    {
        let ghost i = iter.index();
        proof {
            assert(all.take(i + 1).drop_last() =~= all.take(i));
            assert(all.take(i + 1).last() == all[i]);
        }
        match answer.1 {
            DeviceAnswer::Named(name) => {
                proof {
                    let pairs = named(all.take(i));
                    assert(pairs.push((name@, answer.0)).drop_last() =~= pairs);
                }
                devices.insert(name, answer.0);
            },
            DeviceAnswer::Nameless => {
                proof {
                    assert(all[i].1 is Nameless);
                }
                return None;
            },
            DeviceAnswer::Silent => {},
        }
    }
    proof {
        assert(all.take(all.len() as int) =~= all);
    }
    Some(devices)
}

/// What it means that a device answered with the given values, or not at all.
pub open spec fn answer_of(values: Option<plist::Value>) -> AnswerModel {
    match values {
        Some(values) => match entry_of(values, "DeviceName"@) {
            Some(name) => AnswerModel::Named(name),
            None => AnswerModel::Nameless,
        },
        None => AnswerModel::Silent,
    }
}

/// What the devices answered, from the values.
pub open spec fn answers_of(answers: Seq<(UsbmuxdDevice, Option<plist::Value>)>) -> Seq<
    (UsbmuxdDevice, AnswerModel),
> {
    Seq::new(answers.len(), |i: int| (answers[i].0, answer_of(answers[i].1)))
}

/// The devices by name, from the values with which each of them answered, if it did.
pub fn named_devices(answers: Vec<(UsbmuxdDevice, Option<plist::Value>)>) -> (devices: Option<
    NameMap<UsbmuxdDevice>,
>)
    ensures
        match devices {
            Some(devices) => {
                &&& all_named(answers_of(answers@))
                &&& devices@ == name_map::collected(named(answers_of(answers@)))
                &&& name_map::distinct_names(devices@)
            },
            None => !all_named(answers_of(answers@)),
        },
{
    let mut told: Vec<(UsbmuxdDevice, DeviceAnswer)> = Vec::new();
    let ghost all = answers@;
    for answer in iter: answers
        invariant
            iter.seq() == all,
            told@.len() == iter.index(),
            forall|k: int|
                0 <= k < told@.len() ==> (#[trigger] told@[k]).0 == all[k].0 && told@[k].1@
                    == answer_of(all[k].1),
    {
        let heard = match answer.1 {
            Some(values) => match device_name(&values) {
                Some(name) => DeviceAnswer::Named(name),
                None => DeviceAnswer::Nameless,
            },
            None => DeviceAnswer::Silent,
        };
        told.push((answer.0, heard));
    }
    proof {
        assert(answers_view(told@) =~= answers_of(all));
    }
    devices_by_name(told)
}

/// What a device says of an app: the identifier under which it is installed, its display name and
/// the identifier that it gives, where it gives them.
#[derive(Debug)]
pub struct AppInfo {
    pub bundle_id: String,
    pub display: Option<String>,
    pub identifier: Option<String>,
}

/// The name under which an app is shown: its display name, or else the identifier that it gives,
/// or else the one under which it is installed.
pub open spec fn shown_name(
    display: Option<Seq<char>>,
    identifier: Option<Seq<char>>,
    bundle_id: Seq<char>,
) -> Seq<char> {
    match (display, identifier) {
        (Some(name), _) => name,
        (None, Some(name)) => name,
        (None, None) => bundle_id,
    }
}

/// The model of a text that may be missing.
pub open spec fn maybe_text(text: Option<String>) -> Option<Seq<char>> {
    match text {
        Some(text) => Some(text@),
        None => None,
    }
}

/// The apps, each with the name under which it is shown.
pub open spec fn shown_apps(infos: Seq<AppInfo>) -> Seq<(Seq<char>, String)> {
    Seq::new(
        infos.len(),
        |i: int|
            (
                shown_name(
                    maybe_text(infos[i].display),
                    maybe_text(infos[i].identifier),
                    infos[i].bundle_id@,
                ),
                infos[i].bundle_id,
            ),
    )
}

/// The apps by the names under which they are shown. Of two apps of one name the later counts.
pub fn apps_by_name(infos: Vec<AppInfo>) -> (apps: NameMap<String>)
    ensures
        apps@ == name_map::collected(shown_apps(infos@)),
        name_map::distinct_names(apps@),
{
    let mut apps: NameMap<String> = NameMap::new();
    let ghost pairs = shown_apps(infos@);
    proof {
        assert(pairs.take(0) =~= seq![]);
        name_map::collected_distinct(pairs);
    }
    for info in iter: infos
        invariant
            pairs == shown_apps(iter.seq()),
            apps@ == name_map::collected(pairs.take(iter.index())),
    {
        let ghost i = iter.index();
        proof {
            assert(pairs.take(i + 1).drop_last() =~= pairs.take(i));
            assert(pairs.take(i + 1).last() == pairs[i]);
        }
        let name = match info.display {
            Some(name) => name,
            None => match info.identifier {
                Some(name) => name,
                None => info.bundle_id.clone(),
            },
        };
        apps.insert(name, info.bundle_id);
    }
    proof {
        assert(pairs.take(pairs.len() as int) =~= pairs);
    }
    apps
}

/// The apps, each with the name under which it is shown, from the values that describe them.
pub open spec fn apps_of(infos: Seq<(String, plist::Value)>) -> Seq<(Seq<char>, String)> {
    Seq::new(
        infos.len(),
        |i: int|
            (
                shown_name(
                    entry_of(infos[i].1, "CFBundleDisplayName"@),
                    entry_of(infos[i].1, "CFBundleIdentifier"@),
                    infos[i].0@,
                ),
                infos[i].0,
            ),
    )
}

/// The apps by the names under which they are shown, from the identifiers under which they are
/// installed and the values that describe them.
pub fn installed_apps(infos: Vec<(String, plist::Value)>) -> (apps: NameMap<String>)
    ensures
        apps@ == name_map::collected(apps_of(infos@)),
        name_map::distinct_names(apps@),
{
    let mut told: Vec<AppInfo> = Vec::new();
    let ghost all = infos@;
    for info in iter: infos
        invariant
            iter.seq() == all,
            told@.len() == iter.index(),
            forall|k: int|
                0 <= k < told@.len() ==> {
                    &&& (#[trigger] told@[k]).bundle_id == all[k].0
                    &&& maybe_text(told@[k].display) == entry_of(all[k].1, "CFBundleDisplayName"@)
                    &&& maybe_text(told@[k].identifier) == entry_of(
                        all[k].1,
                        "CFBundleIdentifier"@,
                    )
                },
    {
        let display = string_entry(&info.1, "CFBundleDisplayName");
        let identifier = string_entry(&info.1, "CFBundleIdentifier");
        told.push(AppInfo { bundle_id: info.0, display, identifier });
    }
    proof {
        assert(shown_apps(told@) =~= apps_of(all));
    }
    apps_by_name(told)
}

} // verus!
